//! The document model: image splitting, layered merge, standalone
//! rewriting, the default-tag policy and the path helpers.

use cage::compose::{ComposeFile, Image, Service, ServiceEntry, SourceRef, Volume};
use cage::default_tags::DefaultTags;
use cage::errors::Error;
use cage::util;

fn empty_service() -> Service {
    Service {
        image: None,
        build: None,
        volumes: None,
        libs: None,
        source_mount_dir: None,
    }
}

#[test]
fn image_splits_at_the_tag_colon() {
    let tagged = Image::parse("dockercloud/hello-world:staging");
    assert_eq!(tagged.repo, "dockercloud/hello-world");
    assert_eq!(tagged.tag, Some("staging".to_string()));
    assert_eq!(tagged.as_text(), "dockercloud/hello-world:staging");

    let untagged = Image::parse("postgres");
    assert_eq!(untagged.repo, "postgres");
    assert_eq!(untagged.tag, None);

    // A registry port is not a tag separator.
    let with_port = Image::parse("registry:5000/hello");
    assert_eq!(with_port.repo, "registry:5000/hello");
    assert_eq!(with_port.tag, None);
}

#[test]
fn override_fields_replace_base_fields() {
    let base = ComposeFile {
        services: vec![ServiceEntry {
            name: "web".to_string(),
            service: Service {
                image: Some(Image::parse("rails:4")),
                volumes: Some(vec![Volume {
                    host: Some("./app".to_string()),
                    container: "/app".to_string(),
                }]),
                ..empty_service()
            },
        }],
    };
    let layer = ComposeFile {
        services: vec![
            ServiceEntry {
                name: "web".to_string(),
                service: Service {
                    image: Some(Image::parse("rails:5")),
                    ..empty_service()
                },
            },
            ServiceEntry {
                name: "worker".to_string(),
                service: empty_service(),
            },
        ],
    };
    let merged = base.merge_with(&layer);
    assert_eq!(merged.services.len(), 2);
    let web = &merged.services[0];
    assert_eq!(web.name, "web");
    // The set field replaces the base, the unset field is inherited.
    assert_eq!(web.service.image, Some(Image::parse("rails:5")));
    assert_eq!(
        web.service.volumes,
        Some(vec![Volume {
            host: Some("./app".to_string()),
            container: "/app".to_string(),
        }])
    );
    // The layer-only service is appended.
    assert_eq!(merged.services[1].name, "worker");
}

#[test]
fn standalone_rewrites_relative_references_only() {
    let mut file = ComposeFile {
        services: vec![ServiceEntry {
            name: "web".to_string(),
            service: Service {
                build: Some(SourceRef::Dir {
                    path: "./src".to_string(),
                }),
                volumes: Some(vec![
                    Volume {
                        host: Some("data".to_string()),
                        container: "/data".to_string(),
                    },
                    Volume {
                        host: Some("/abs".to_string()),
                        container: "/abs".to_string(),
                    },
                ]),
                ..empty_service()
            },
        }],
    };
    file.make_standalone("examples/hello/pods");
    let web = &file.services[0].service;
    assert_eq!(
        web.build,
        Some(SourceRef::Dir {
            path: "examples/hello/pods/./src".to_string()
        })
    );
    let vols = web.volumes.as_ref().unwrap();
    assert_eq!(vols[0].host, Some("examples/hello/pods/data".to_string()));
    assert_eq!(vols[1].host, Some("/abs".to_string()));
}

#[test]
fn default_tags_skip_blank_lines_and_reject_untagged_ones() {
    let tags = DefaultTags::read(&vec![
        "dockercloud/hello-world:staging".to_string(),
        "".to_string(),
        "postgres:9.5".to_string(),
    ])
    .unwrap();
    assert_eq!(
        tags.tag_for("dockercloud/hello-world"),
        Some("staging".to_string())
    );
    assert_eq!(tags.tag_for("postgres"), Some("9.5".to_string()));
    assert_eq!(tags.tag_for("rails"), None);

    assert!(matches!(
        DefaultTags::read(&vec!["no-tag-here".to_string()]),
        Err(Error::TransformFailure { .. })
    ));
}

#[test]
fn paths_join_with_a_single_separator() {
    assert_eq!(util::join("a", "b"), "a/b");
    assert_eq!(util::join("a/", "b"), "a/b");
    assert_eq!(util::join("", "b"), "b");
    assert_eq!(util::join("a", "/b"), "/b");
    assert!(util::is_absolute("/a/b"));
    assert!(!util::is_absolute("a/b"));
}

#[test]
fn file_stems_drop_the_extension() {
    assert_eq!(util::file_stem_of("pods/frontend.yml"), Some("frontend".to_string()));
    assert_eq!(util::file_stem_of("a/b/archive.tar.gz"), Some("archive.tar".to_string()));
    assert_eq!(util::file_stem_of(".hidden"), Some(".hidden".to_string()));
    assert_eq!(util::file_stem_of("/"), None);
    assert_eq!(util::file_stem_of(".."), None);
    assert_eq!(util::file_name_of("examples/hello"), Some("hello".to_string()));
    assert_eq!(util::file_name_of("examples/hello/"), Some("hello".to_string()));
}

#[test]
fn names_sort_lexicographically() {
    let sorted = util::sort_strings(vec![
        "b.hook".to_string(),
        "a.hook".to_string(),
        "a.hook".to_string(),
        "A.hook".to_string(),
    ]);
    assert_eq!(
        sorted,
        vec![
            "A.hook".to_string(),
            "a.hook".to_string(),
            "a.hook".to_string(),
            "b.hook".to_string(),
        ]
    );
}

#[test]
fn numbers_render_in_decimal() {
    assert_eq!(util::u16_to_string(0), "0");
    assert_eq!(util::u16_to_string(7), "7");
    assert_eq!(util::u16_to_string(40961), "40961");
}
