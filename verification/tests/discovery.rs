use danny::backends::{BackendRegistry, JsBackend};
use danny::config_commands::{new_project, resolve_path};
use danny::error::Error;
use danny::discovery::{entry_point_globs, framework_entry_points, glob_pattern_for, path_less};

fn s(x: &str) -> String {
    x.to_string()
}

#[test]
fn globs_are_rooted_at_the_package() {
    assert_eq!(glob_pattern_for("/p", "**/app/page.ts"), "/p/app/page.ts");
    assert_eq!(glob_pattern_for("/p", "**app.ts"), "/p/app.ts");
    assert_eq!(glob_pattern_for("/p", "src/index.ts"), "/p/src/index.ts");
    assert_eq!(glob_pattern_for("/p", "*"), "/p/*");
}

#[test]
fn pattern_groups_expand_in_order() {
    let groups = vec![vec![s("**/app/**/page.{ts,tsx}")], vec![s("pages/*.js"), s("src/main.{js,ts}")]];
    assert_eq!(
        entry_point_globs("/root", &groups),
        vec![
            s("/root/app/**/page.ts"),
            s("/root/app/**/page.tsx"),
            s("/root/pages/*.js"),
            s("/root/src/main.js"),
            s("/root/src/main.ts"),
        ]
    );
    assert!(entry_point_globs("/root", &vec![]).is_empty());
}

#[test]
fn path_order_compares_components() {
    assert!(path_less("/a/b", "/a-b"));
    assert!(!path_less("/a-b", "/a/b"));
    assert!(path_less("/a", "/a/b"));
    assert!(path_less("/a/b", "/a/c"));
    assert!(!path_less("/a/b", "/a/b"));
    let mut paths = vec![std::path::PathBuf::from("/a-b"), std::path::PathBuf::from("/a/b")];
    paths.sort();
    assert_eq!(paths[0], std::path::PathBuf::from("/a/b"));
}

#[test]
fn entry_points_are_kept_inside_the_root_sorted_and_once() {
    let found = vec![
        s("/p/src/pages/b.tsx"),
        s("/p/app/page.tsx"),
        s("/other/x.ts"),
        s("/p/app/page.tsx"),
        s("/p-extra/y.ts"),
        s("/p/app-shell.tsx"),
    ];
    assert_eq!(
        framework_entry_points(&found, "/p"),
        vec![s("/p/app/page.tsx"), s("/p/app-shell.tsx"), s("/p/src/pages/b.tsx")]
    );
    assert!(framework_entry_points(&vec![], "/p").is_empty());
}

#[test]
fn framework_of_an_export() {
    assert_eq!(JsBackend::infer_framework(&vec![s("React"), s("Next.js")], &vec![s("Vue")]), "React");
    assert_eq!(JsBackend::infer_framework(&vec![], &vec![s("Vue")]), "Vue");
    assert_eq!(JsBackend::infer_framework(&vec![], &vec![]), "Unknown");
}

#[test]
fn frameworks_detected_once_each() {
    let mut found =
        JsBackend::detect_frameworks(&vec![s("React"), s("Next.js"), s("React")], &vec![s("Next.js"), s("Svelte")]);
    found.sort();
    assert_eq!(found, vec![s("Next.js"), s("React"), s("Svelte")]);
    assert!(JsBackend::detect_frameworks(&vec![], &vec![]).is_empty());
}

#[test]
fn projects_for_added_paths() {
    assert_eq!(resolve_path("/abs/web", "/home/u"), "/abs/web");
    assert_eq!(resolve_path("web", "/home/u"), "/home/u/web");
    assert_eq!(resolve_path("web", "/"), "/web");
    let p = new_project(s("/work/My App"), None, None);
    assert_eq!(p.id, "my-app");
    assert_eq!(p.name, "My App");
    assert_eq!(p.path, "/work/My App");
    assert!(p.enabled && p.last_checked.is_none() && p.settings.is_none());
    let q = new_project(s("/work/web"), Some(s("Website")), Some(s("site")));
    assert_eq!((q.id.as_str(), q.name.as_str()), ("site", "Website"));
    let r = new_project(s("/"), None, None);
    assert_eq!((r.id.as_str(), r.name.as_str()), ("project", "Project"));
}

#[test]
fn backend_chosen_by_first_entry_point() {
    let mut registry = BackendRegistry::new();
    registry.register(JsBackend.info());
    assert_eq!(registry.find_for_entry_point("/p/src/index.tsx").map(|b| b.name.clone()), Ok(s("JavaScript")));
    assert_eq!(
        registry.find_for_entry_point("/p/main.rs").map(|b| b.name.clone()),
        Err(s("No backend found for extension: .rs"))
    );
    assert_eq!(
        registry.find_for_entry_point("/p/Makefile").map(|b| b.name.clone()),
        Err(s("No backend found for extension: "))
    );
}

#[test]
fn error_messages() {
    assert_eq!(
        Error::TooManyFiles { count: 1500, max_allowed: 1000 }.message(),
        "Too many files specified: 1500 files exceeds maximum of 1000"
    );
    assert_eq!(
        Error::PathTraversal { attempted_path: s("../x"), project_root: s("/p") }.message(),
        "Path traversal: \"../x\" outside \"/p\""
    );
    assert_eq!(
        Error::AmbiguousBackend { extension: s(".js"), backends: vec![s("A"), s("B")] }.message(),
        "Multiple backends found for extension .js: [\"A\", \"B\"]"
    );
    assert_eq!(Error::NoPackageJson { searched: s("/p") }.message(), "No package.json found in /p");
    assert_eq!(Error::UserCancelled.message(), "User cancelled operation");
}
