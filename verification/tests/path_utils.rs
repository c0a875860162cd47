use nx_analyzer::paths::{get_relative_path, is_node_modules, lookup_path, normalize_path, parent_dir, path_join, file_has_extension, trim_leading_slashes, split_path};

#[test]
fn test_normalize_path() {
    let test_cases = vec![
        (
            "./../ddd-hrm/libs/shared/ui/src/./lib/badge/badge.component.ts",
            "./../ddd-hrm/libs/shared/ui/src/lib/badge/badge.component.ts",
        ),
        ("./test/./path/../file.txt", "./test/file.txt"),
        ("../../../test.txt", "./../../../test.txt"),
    ];

    for (input, expected) in test_cases {
        let result = normalize_path(input);
        assert_eq!(result.as_str(), expected);
    }
}

#[test]
fn test_get_relative_path() {
    let test_cases = vec![
        (
            "/root/project/src/app/component.ts",
            "/root/project",
            "src/app/component.ts",
        ),
        (
            "/root/project/packages/app/src/component.ts",
            "/root/project/packages/app",
            "src/component.ts",
        ),
        (
            "/root/other/src/component.ts",
            "/root/project",
            "/root/other/src/component.ts",
        ),
        (
            "/root/project/component.ts",
            "/root/project",
            "component.ts",
        ),
        (
            "/root/project/app/module.ts",
            "/root/project",
            "app/module.ts",
        ),
    ];

    for (file_path, project_root, expected) in test_cases {
        assert_eq!(
            get_relative_path(file_path, project_root),
            expected,
            "Failed for file_path: {:?}, project_root: {:?}",
            file_path,
            project_root
        );
    }
}

#[test]
fn relative_path_strips_component_wise() {
    // A root with a trailing separator still strips.
    assert_eq!(get_relative_path("a/b/c", "a/b/"), "c");
    assert_eq!(get_relative_path("a/b/c", "a/b"), "c");
    // A root matching only part of a segment does not.
    assert_eq!(get_relative_path("/root/project2/x", "/root/project"), "/root/project2/x");
    // The root itself maps to the empty suffix.
    assert_eq!(get_relative_path("a/b", "a/b"), "");
    // An empty root changes nothing.
    assert_eq!(get_relative_path("a/b", ""), "a/b");
}

#[test]
fn lookup_path_canonicalizes() {
    assert_eq!(lookup_path("src/./foo").as_str(), "src/foo");
    assert_eq!(lookup_path("./foo").as_str(), "foo");
    assert_eq!(lookup_path("src/lib/../foo").as_str(), "src/foo");
    assert_eq!(lookup_path("/abs/./x").as_str(), "/abs/x");
}

#[test]
fn normalize_keeps_plain_paths() {
    assert_eq!(normalize_path("a/b/c").as_str(), "a/b/c");
    assert_eq!(normalize_path("/abs/x").as_str(), "/abs/x");
    assert_eq!(normalize_path("").as_str(), "");
}

#[test]
fn node_modules_detection() {
    assert!(is_node_modules("a/node_modules/b"));
    assert!(is_node_modules("node_modules"));
    assert!(!is_node_modules("a/node_modulesx/b"));
    assert!(!is_node_modules("src/app/main.ts"));
}

#[test]
fn parent_and_join() {
    assert_eq!(parent_dir("a/b/c").as_deref(), Some("a/b"));
    assert_eq!(parent_dir("a").as_deref(), Some(""));
    assert_eq!(parent_dir("/a").as_deref(), Some("/"));
    assert_eq!(parent_dir("/"), None);
    assert_eq!(parent_dir(""), None);
    assert_eq!(path_join("a", "b").as_str(), "a/b");
    assert_eq!(path_join("", "b").as_str(), "b");
    assert_eq!(path_join("a/", "b").as_str(), "a/b");
}

#[test]
fn extension_and_trim() {
    assert!(file_has_extension("dir/file.ts"));
    assert!(!file_has_extension("dir/file"));
    assert!(!file_has_extension("dir.x/file"));
    assert!(!file_has_extension("dir/.hidden"));
    assert_eq!(trim_leading_slashes("//a/b").as_str(), "a/b");
    assert_eq!(trim_leading_slashes("a").as_str(), "a");
}

#[test]
fn split_path_segments() {
    let parts = split_path("a//b/");
    let views: Vec<&str> = parts.iter().map(|p| p.as_str()).collect();
    assert_eq!(views, vec!["a", "", "b", ""]);
    let one = split_path("");
    assert_eq!(one.len(), 1);
    assert_eq!(one[0].as_str(), "");
}
