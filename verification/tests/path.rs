use flamingo::path::{
    expand_tilde, has_nix_extension, join_path, parent_dir, path_le_exec, relative_to, sort_paths,
};

#[test]
fn test_expand_tilde() {
    let home = "/home/me";
    assert_eq!(expand_tilde("~/cfg", Some(home)), "/home/me/cfg");
    assert_eq!(expand_tilde("/abs/cfg", Some(home)), "/abs/cfg");
}

#[test]
fn expand_tilde_without_home_or_slash_keeps_input() {
    assert_eq!(expand_tilde("~/cfg", None), "~/cfg");
    assert_eq!(expand_tilde("~cfg", Some("/home/me")), "~cfg");
    assert_eq!(expand_tilde("~/cfg", Some("/home/me/")), "/home/me/cfg");
}

#[test]
fn join_path_follows_pathbuf_join() {
    assert_eq!(join_path("a", "b"), "a/b");
    assert_eq!(join_path("a/", "b"), "a/b");
    assert_eq!(join_path("", "b"), "b");
    assert_eq!(join_path("a", "/b"), "/b");
    assert_eq!(join_path("a", ""), "a/");
}

#[test]
fn relative_to_strips_whole_components() {
    assert_eq!(relative_to("/r", "/r/a/b.nix").as_deref(), Some("a/b.nix"));
    assert_eq!(relative_to("/r", "/r").as_deref(), Some(""));
    assert_eq!(relative_to("/", "/a").as_deref(), Some("a"));
    assert_eq!(relative_to("/r", "/rx/a"), None);
    assert_eq!(relative_to("/r/a", "/r"), None);
}

#[test]
fn parent_dir_is_the_enclosing_directory() {
    assert_eq!(parent_dir("/r/a/b.nix").as_deref(), Some("/r/a"));
    assert_eq!(parent_dir("/a").as_deref(), Some("/"));
    assert_eq!(parent_dir("a").as_deref(), Some(""));
    assert_eq!(parent_dir("/"), None);
    assert_eq!(parent_dir(""), None);
}

#[test]
fn nix_extension_needs_a_stem() {
    assert!(has_nix_extension("/r/a.nix"));
    assert!(!has_nix_extension("/r/.nix"));
    assert!(!has_nix_extension("/r/a.sh"));
    assert!(!has_nix_extension("nix"));
}

#[test]
fn paths_sort_component_by_component() {
    // `-` sorts before `/` as a character, but `a` is a shorter component
    // than `a-b`, so `a/b` comes first.
    assert!(path_le_exec("a/b", "a-b"));
    assert!(!path_le_exec("a-b", "a/b"));
    assert!(path_le_exec("a", "a/b"));
    assert!(path_le_exec("x", "x"));
    let sorted = sort_paths(vec![
        "modules/hosts/h/default.nix".to_string(),
        "flake.nix".to_string(),
        "common-x/a.nix".to_string(),
        "common/base.nix".to_string(),
        "flake.lock".to_string(),
    ]);
    assert_eq!(
        sorted,
        vec![
            "common/base.nix".to_string(),
            "common-x/a.nix".to_string(),
            "flake.lock".to_string(),
            "flake.nix".to_string(),
            "modules/hosts/h/default.nix".to_string(),
        ]
    );
}

#[test]
fn sorting_agrees_with_std_paths() {
    let mut names = vec!["b/c", "a-b", "a/b", "a", "a.b/c", "ab"];
    let sorted = sort_paths(names.iter().map(|s| s.to_string()).collect());
    names.sort_by(|x, y| std::path::Path::new(x).cmp(std::path::Path::new(y)));
    let expected: Vec<String> = names.iter().map(|s| s.to_string()).collect();
    assert_eq!(sorted, expected);
}
