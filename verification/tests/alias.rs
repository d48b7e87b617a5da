//! Alias derivation from git URLs and local paths.

use cage::compose::SourceRef;

#[test]
fn human_alias_uses_dir_name_and_branch() {
    let master = SourceRef::parse("https://github.com/faradayio/rails_hello.git");
    assert_eq!(master.human_alias().unwrap(), "rails_hello");

    let branch = SourceRef::parse("https://github.com/faradayio/rails_hello.git#dev");
    assert_eq!(branch.human_alias().unwrap(), "rails_hello_dev");

    let local = SourceRef::parse("../src/node_hello");
    assert_eq!(local.human_alias().unwrap(), "node_hello");
}

#[test]
fn alias_is_deterministic_across_calls() {
    let src = SourceRef::parse("https://github.com/docker/dockercloud-hello-world.git");
    let first = src.human_alias().unwrap();
    let second = src.human_alias().unwrap();
    assert_eq!(first, second);
    assert_eq!(first, "dockercloud-hello-world");
}

#[test]
fn alias_fails_on_unusable_references() {
    let unparsable = SourceRef::Git {
        url: "not a url at all".to_string(),
    };
    assert!(matches!(
        unparsable.human_alias(),
        Err(cage::errors::Error::AliasDerivationFailure { .. })
    ));

    let rootish = SourceRef::Dir {
        path: "/".to_string(),
    };
    assert!(matches!(
        rootish.human_alias(),
        Err(cage::errors::Error::AliasDerivationFailure { .. })
    ));
}

#[test]
fn source_classification_follows_the_written_form() {
    assert!(matches!(
        SourceRef::parse("git://example.com/a.git"),
        SourceRef::Git { .. }
    ));
    assert!(matches!(
        SourceRef::parse("git@github.com:org/repo.git"),
        SourceRef::Git { .. }
    ));
    assert!(matches!(
        SourceRef::parse("./vendor/lib"),
        SourceRef::Dir { .. }
    ));
}
