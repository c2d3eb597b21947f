use ptconductor::desktop::{approved_workflow_path, path_starts_with_exec};

#[test]
fn only_paths_inside_the_workflow_directory_are_approved() {
    assert_eq!(
        approved_workflow_path("/srv/workflows", "/srv/workflows/a.json").unwrap(),
        "/srv/workflows/a.json"
    );
    assert_eq!(
        approved_workflow_path("/srv/workflows", "/srv/workflows-other/a.json").unwrap_err(),
        "workflow path is outside the configured workflow directory"
    );
    assert!(approved_workflow_path("/srv/workflows", "/srv").is_err());
    assert!(approved_workflow_path("/", "/etc/passwd").is_ok());
}

#[test]
fn components_are_compared_as_std_does() {
    assert!(path_starts_with_exec("/a//b/./c/", "/a/b"));
    assert!(path_starts_with_exec("./a/b", "./a"));
    assert!(!path_starts_with_exec("a/b", "./a"));
    assert!(!path_starts_with_exec("/ab", "/a"));
    assert!(path_starts_with_exec("/a/b", "/a/b/"));
    for (path, base) in [("/a//b/./c/", "/a/b"), ("./a/b", "./a"), ("a/b", "./a"), ("/ab", "/a"), ("x", "")] {
        assert_eq!(
            path_starts_with_exec(path, base),
            std::path::Path::new(path).starts_with(base),
            "{} {}",
            path,
            base
        );
    }
}
