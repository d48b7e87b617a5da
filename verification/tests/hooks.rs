//! Hook discovery and ordering.

use cage::hook::HookManager;
use cage::util::DirEntry;

fn file(name: &str) -> DirEntry {
    DirEntry {
        name: name.to_string(),
        is_file: true,
        is_dir: false,
    }
}

#[test]
fn runs_requested_hook_scripts() {
    let hooks = HookManager::new("config/hooks".to_string());
    let scripts = hooks.select_scripts("up", &vec![file("hello.hook")]);
    assert_eq!(scripts, vec!["config/hooks/up.d/hello.hook".to_string()]);
}

#[test]
fn hooks_run_in_name_order_and_only_real_hooks_run() {
    let hooks = HookManager::new("config/hooks".to_string());
    let listing = vec![
        file("b.hook"),
        file("a.hook"),
        file(".hidden.hook"),
        file("c.txt"),
    ];
    let scripts = hooks.select_scripts("up", &listing);
    assert_eq!(
        scripts,
        vec![
            "config/hooks/up.d/a.hook".to_string(),
            "config/hooks/up.d/b.hook".to_string(),
        ]
    );
}

#[test]
fn a_subdirectory_is_not_a_hook() {
    let hooks = HookManager::new("config/hooks".to_string());
    let listing = vec![DirEntry {
        name: "sub.hook".to_string(),
        is_file: false,
        is_dir: true,
    }];
    let scripts = hooks.select_scripts("up", &listing);
    assert!(scripts.is_empty());
}

#[test]
fn no_hooks_directory_means_no_scripts() {
    let hooks = HookManager::new("config/hooks".to_string());
    let scripts = hooks.select_scripts("up", &vec![]);
    assert!(scripts.is_empty());
}
