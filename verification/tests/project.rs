//! Project assembly, materialization planning and target resolution.

use cage::act_on::{ActOn, PodOrService};
use cage::compose::{ComposeFile, Image, Service, ServiceEntry, SourceRef, LibDep};
use cage::default_tags::DefaultTags;
use cage::errors::Error;
use cage::plugins::Operation;
use cage::pod::{Override, Pod, PodType};
use cage::project::Project;
use cage::util::DirEntry;

fn empty_service() -> Service {
    Service {
        image: None,
        build: None,
        volumes: None,
        libs: None,
        source_mount_dir: None,
    }
}

fn one_service_file(name: &str, service: Service) -> ComposeFile {
    ComposeFile {
        services: vec![ServiceEntry {
            name: name.to_string(),
            service,
        }],
    }
}

fn overrides(names: &[&str]) -> Vec<Override> {
    names
        .iter()
        .map(|n| Override::new(n.to_string()))
        .collect()
}

/// A project shaped like the `hello` example: one `frontend` pod whose
/// `web` service builds from a remote source and names its image
/// without a tag.
fn hello_project() -> Project {
    let web = Service {
        image: Some(Image {
            repo: "dockercloud/hello-world".to_string(),
            tag: None,
        }),
        build: Some(SourceRef::Git {
            url: "https://github.com/docker/dockercloud-hello-world.git".to_string(),
        }),
        volumes: None,
        libs: None,
        source_mount_dir: None,
    };
    let frontend = Pod::new(
        "frontend".to_string(),
        PodType::Service,
        one_service_file("web", web),
        vec![],
    );
    Project::from_dirs(
        "examples/hello",
        "/work/hello/src",
        "target/test_output/hello-1",
        vec![frontend],
        overrides(&["development", "production", "test"]),
    )
    .unwrap()
}

/// A project shaped like the `rails_hello` example: `db` and `frontend`
/// service pods and a `migrate` task pod, the frontend depending on a
/// `coffee_rails` library.
fn rails_hello_project() -> Project {
    let db = Pod::new(
        "db".to_string(),
        PodType::Service,
        one_service_file(
            "db",
            Service {
                image: Some(Image {
                    repo: "postgres".to_string(),
                    tag: None,
                }),
                ..empty_service()
            },
        ),
        vec![],
    );
    let web = Service {
        image: Some(Image {
            repo: "rails".to_string(),
            tag: None,
        }),
        build: Some(SourceRef::Git {
            url: "https://github.com/faradayio/rails_hello.git".to_string(),
        }),
        volumes: None,
        libs: Some(vec![LibDep {
            key: "coffee_rails".to_string(),
            source: SourceRef::Git {
                url: "https://github.com/rails/coffee-rails.git".to_string(),
            },
            mount_at: "/usr/src/app/vendor/coffee-rails".to_string(),
        }]),
        source_mount_dir: None,
    };
    let frontend = Pod::new(
        "frontend".to_string(),
        PodType::Service,
        one_service_file("web", web),
        vec![],
    );
    let migrate = Pod::new(
        "migrate".to_string(),
        PodType::Task,
        one_service_file(
            "migrate",
            Service {
                image: Some(Image {
                    repo: "rails".to_string(),
                    tag: None,
                }),
                ..empty_service()
            },
        ),
        vec![],
    );
    Project::from_dirs(
        "examples/rails_hello",
        "/work/rails_hello/src",
        "target/test_output/rails_hello-1",
        vec![db, frontend, migrate],
        overrides(&["development", "production", "test"]),
    )
    .unwrap()
}

#[test]
fn new_from_example_uses_example_and_target() {
    let (root, src, out) = Project::from_example_dirs("hello", 4711);
    assert_eq!(root, "examples/hello");
    assert!(out.starts_with("target/test_output/hello-"));
    assert!(src.starts_with("target/test_output/hello-"));
    assert_eq!(out, "target/test_output/hello-4711");
    assert_eq!(src, "target/test_output/hello-4711/src");
}

#[test]
fn name_defaults_to_project_dir_but_can_be_overridden() {
    let mut proj = hello_project();
    assert_eq!(proj.name(), "hello");
    proj.set_name("hi");
    assert_eq!(proj.name(), "hi");
}

#[test]
fn pods_are_loaded() {
    let proj = hello_project();
    let names: Vec<_> = proj.pods().iter().map(|pod| pod.name()).collect();
    assert_eq!(names, ["frontend"]);
    assert_eq!(
        cage::project::find_pod_names(vec![
            "frontend.yml".to_string(),
            "notes.txt".to_string(),
            "common.config.yml".to_string(),
        ]),
        vec!["frontend".to_string()]
    );
}

#[test]
fn overrides_are_loaded() {
    let proj = hello_project();
    let names: Vec<_> = proj.overrides().iter().map(|o| o.name()).collect();
    assert_eq!(names, ["development", "production", "test"]);
    assert!(proj.ovr("development").is_some());
    assert!(proj.ovr("staging").is_none());

    let dir = |n: &str| DirEntry {
        name: n.to_string(),
        is_file: false,
        is_dir: true,
    };
    let found = cage::project::find_overrides(vec![
        dir("production"),
        dir("development"),
        DirEntry {
            name: "notes.txt".to_string(),
            is_file: true,
            is_dir: false,
        },
        dir("test"),
    ]);
    let names: Vec<_> = found.iter().map(|o| o.name()).collect();
    assert_eq!(names, ["development", "production", "test"]);
}

#[test]
fn output_creates_a_directory_of_flat_yml_files() {
    let proj = rails_hello_project();
    let ovr = proj.ovr("development").unwrap().clone();
    let plan = proj.output(&ovr).unwrap();
    assert_eq!(plan.dir, "target/test_output/rails_hello-1/pods");
    let paths: Vec<_> = plan.files.iter().map(|f| f.rel_path.as_str()).collect();
    assert!(paths.contains(&"frontend.yml"));
    assert!(paths.contains(&"db.yml"));
    assert!(paths.contains(&"migrate.yml"));
}

#[test]
fn output_applies_expected_transforms() {
    let default_tags =
        DefaultTags::read(&vec!["dockercloud/hello-world:staging".to_string()]).unwrap();

    let mut proj = hello_project();
    proj.set_default_tags(default_tags);
    let repo_alias = {
        let repo = proj.repos().find_by_alias("dockercloud-hello-world").unwrap();
        repo.alias().to_string()
    };
    assert!(proj.set_repo_mounted(&repo_alias, true));
    let ovr = proj.ovr("development").unwrap().clone();
    let plan = proj.output(&ovr).unwrap();

    // Look at the `web` service of the generated frontend document.
    let frontend = plan
        .files
        .iter()
        .find(|f| f.rel_path == "frontend.yml")
        .unwrap();
    let web_idx = frontend.file.find_service("web").unwrap();
    let web = &frontend.file.services[web_idx].service;
    let src_path = "/work/hello/src/dockercloud-hello-world";

    // The `build` entry points at the local source directory.
    assert_eq!(
        web.build,
        Some(SourceRef::Dir {
            path: src_path.to_string()
        })
    );

    // The local source directory is mounted into the container.
    let mount = web
        .volumes
        .as_ref()
        .expect("expected web service to have volumes")
        .last()
        .unwrap();
    assert_eq!(mount.host, Some(src_path.to_string()));
    assert_eq!(mount.container, "/app");

    // The image version was defaulted.
    let image = web.image.as_ref().unwrap();
    assert_eq!(image.as_text(), "dockercloud/hello-world:staging");
}

#[test]
fn output_mounts_cloned_libraries() {
    let mut proj = rails_hello_project();
    let alias = {
        let repo = proj
            .repos()
            .find_by_lib_key("coffee_rails")
            .expect("should define lib coffee_rails");
        repo.alias().to_string()
    };
    assert!(proj.set_repo_mounted(&alias, true));
    let ovr = proj.ovr("development").unwrap().clone();
    let plan = proj.output(&ovr).unwrap();

    let frontend = plan
        .files
        .iter()
        .find(|f| f.rel_path == "frontend.yml")
        .unwrap();
    let web_idx = frontend.file.find_service("web").unwrap();
    let web = &frontend.file.services[web_idx].service;

    let mount = web
        .volumes
        .as_ref()
        .expect("expected web service to have volumes")
        .last()
        .unwrap();
    assert_eq!(
        mount.host,
        Some("/work/rails_hello/src/coffee-rails".to_string())
    );
    assert_eq!(mount.container, "/usr/src/app/vendor/coffee-rails");
}

#[test]
fn export_creates_a_directory_of_flat_yml_files() {
    let proj = rails_hello_project();
    let export_dir = "target/test_output/rails_hello-1/hello_export";
    let ovr = proj.ovr("development").unwrap().clone();
    let plan = proj.export(&ovr, export_dir, false).unwrap();
    assert_eq!(plan.dir, export_dir);
    let paths: Vec<_> = plan.files.iter().map(|f| f.rel_path.as_str()).collect();
    assert!(paths.contains(&"frontend.yml"));
    assert!(paths.contains(&"db.yml"));
    assert!(paths.contains(&"tasks/migrate.yml"));
    assert!(plan.warn_missing_default_tags);
}

#[test]
fn export_applies_expected_transforms() {
    // Only the ways in which `export`'s transforms differ from `output`.
    let mut proj = hello_project();
    let repo_alias = {
        let repo = proj.repos().find_by_alias("dockercloud-hello-world").unwrap();
        repo.alias().to_string()
    };
    assert!(proj.set_repo_mounted(&repo_alias, true));
    let ovr = proj.ovr("development").unwrap().clone();
    let export_dir = "target/test_output/hello-1/hello_export";
    let plan = proj.export(&ovr, export_dir, false).unwrap();

    let frontend = plan
        .files
        .iter()
        .find(|f| f.rel_path == "frontend.yml")
        .unwrap();
    let web_idx = frontend.file.find_service("web").unwrap();
    let web = &frontend.file.services[web_idx].service;

    // The build entry still points at the remote source, and no local
    // volume was injected.
    let url = "https://github.com/docker/dockercloud-hello-world.git";
    assert_eq!(
        web.build,
        Some(SourceRef::Git {
            url: url.to_string()
        })
    );
    assert!(web.volumes.is_none());
}

#[test]
fn output_twice_plans_identical_files() {
    let mut proj = hello_project();
    let default_tags =
        DefaultTags::read(&vec!["dockercloud/hello-world:staging".to_string()]).unwrap();
    proj.set_default_tags(default_tags);
    assert!(proj.set_repo_mounted("dockercloud-hello-world", true));
    let ovr = proj.ovr("development").unwrap().clone();
    let first = proj.output(&ovr).unwrap();
    let second = proj.output(&ovr).unwrap();
    assert_eq!(first, second);
}

#[test]
fn override_layers_take_effect_only_for_their_target() {
    let base = one_service_file(
        "web",
        Service {
            image: Some(Image::parse("rails:4")),
            ..empty_service()
        },
    );
    let production_layer = cage::pod::PodLayer {
        ovr_name: "production".to_string(),
        file: one_service_file(
            "web",
            Service {
                image: Some(Image::parse("rails:5")),
                ..empty_service()
            },
        ),
    };
    let frontend = Pod::new(
        "frontend".to_string(),
        PodType::Service,
        base,
        vec![production_layer],
    );
    let proj = Project::from_dirs(
        "examples/layered",
        "/work/layered/src",
        "target/test_output/layered-1",
        vec![frontend],
        overrides(&["development", "production"]),
    )
    .unwrap();

    let image_under = |target: &str| -> String {
        let ovr = proj.ovr(target).unwrap().clone();
        let plan = proj.output(&ovr).unwrap();
        let doc = &plan.files[0].file;
        let web_idx = doc.find_service("web").unwrap();
        doc.services[web_idx].service.image.as_ref().unwrap().as_text()
    };
    assert_eq!(image_under("development"), "rails:4");
    assert_eq!(image_under("production"), "rails:5");
}

#[test]
fn unmounted_sources_keep_their_remote_build_context() {
    let mut proj = hello_project();
    assert!(proj.set_repo_mounted("dockercloud-hello-world", true));
    assert!(proj.set_repo_mounted("dockercloud-hello-world", false));
    let ovr = proj.ovr("development").unwrap().clone();
    let plan = proj.output(&ovr).unwrap();
    let frontend = plan
        .files
        .iter()
        .find(|f| f.rel_path == "frontend.yml")
        .unwrap();
    let web_idx = frontend.file.find_service("web").unwrap();
    let web = &frontend.file.services[web_idx].service;
    assert_eq!(
        web.build,
        Some(SourceRef::Git {
            url: "https://github.com/docker/dockercloud-hello-world.git".to_string()
        })
    );
    assert!(web.volumes.is_none());
}

#[test]
fn export_never_clobbers_an_existing_destination() {
    let proj = rails_hello_project();
    let ovr = proj.ovr("development").unwrap().clone();
    let r = proj.export(&ovr, "already/there", true);
    match r {
        Err(Error::DestinationExists { path }) => assert_eq!(path, "already/there"),
        _ => panic!("an existing destination must be refused"),
    }
}

#[test]
fn output_rejects_a_relative_mount_path() {
    // A mounted source under a relative source directory is a
    // programming error, not a user error.
    let web = Service {
        build: Some(SourceRef::Git {
            url: "https://github.com/docker/dockercloud-hello-world.git".to_string(),
        }),
        ..empty_service()
    };
    let frontend = Pod::new(
        "frontend".to_string(),
        PodType::Service,
        one_service_file("web", web),
        vec![],
    );
    let mut proj = Project::from_dirs(
        "examples/hello",
        "relative/src",
        "target/test_output/hello-2",
        vec![frontend],
        overrides(&["development"]),
    )
    .unwrap();
    assert!(proj.set_repo_mounted("dockercloud-hello-world", true));
    let ovr = proj.ovr("development").unwrap().clone();
    assert!(matches!(
        proj.output(&ovr),
        Err(Error::TransformFailure { .. })
    ));
}

#[test]
fn all_targets_resolve_to_every_pod_in_order() {
    let proj = rails_hello_project();
    let resolved = ActOn::All.pods_or_services(&proj);
    assert_eq!(resolved.len(), 3);
    for (i, r) in resolved.iter().enumerate() {
        match r {
            Ok(PodOrService::Pod { index }) => assert_eq!(*index, i),
            _ => panic!("All must yield every pod in declaration order"),
        }
    }
}

#[test]
fn named_targets_resolve_in_order_without_aborting() {
    let proj = rails_hello_project();
    let act = ActOn::from_names(vec!["frontend".to_string(), "missing".to_string()]);
    let resolved = act.pods_or_services(&proj);
    assert_eq!(resolved.len(), 2);
    assert!(matches!(
        resolved[0],
        Ok(PodOrService::Pod { index: 1 })
    ));
    match &resolved[1] {
        Err(Error::NameResolutionFailure { name }) => assert_eq!(name, "missing"),
        _ => panic!("an unknown name must fail with its name"),
    }

    // A service name resolves to its pod.
    let act = ActOn::from_names(vec!["web".to_string()]);
    let resolved = act.pods_or_services(&proj);
    match &resolved[0] {
        Ok(PodOrService::Service { index, service }) => {
            assert_eq!(*index, 1);
            assert_eq!(service, "web");
        }
        _ => panic!("a service name must resolve to its pod"),
    }

    // No names at all means everything.
    assert!(matches!(ActOn::from_names(vec![]), ActOn::All));
}
