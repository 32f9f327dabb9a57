use flamingo::trim::deps::{
    directory_entry, literal_target, path_literals, resolve_target, strip_comments, PathLiteral,
    Resolution, Scan, Warning,
};

fn literal(text: &str, dynamic: bool) -> PathLiteral {
    PathLiteral { text: text.into(), dynamic }
}

#[test]
fn test_path_literals_basic() {
    let found = path_literals("{ imports = [ ./a.nix ../common ]; }");
    assert_eq!(found, vec![literal("./a.nix", false), literal("../common", false)]);
}

#[test]
fn test_path_literals_dynamic_and_comments() {
    let src = "# see ./ignored.nix\n/* ./also.nix */\nsource = ./hosts/${name}/x.nix;";
    let found = path_literals(src);
    assert_eq!(found.len(), 1);
    assert!(found[0].dynamic);
    assert_eq!(found[0].text, "./hosts/");
}

#[test]
fn test_path_literals_ignores_ellipsis_and_word_glued_dots() {
    assert!(path_literals("{ pkgs, ... }: {}").is_empty());
    // `.../x` : the leading dot glues to a previous dot — not a path.
    assert!(path_literals("a.../x").is_empty());
}

#[test]
fn path_literals_ignores_word_glued_slashes() {
    assert!(path_literals("pkgs./x").is_empty());
    assert_eq!(path_literals("x = ../a_b-c/d.e;"), vec![literal("../a_b-c/d.e", false)]);
}

#[test]
fn strip_comments_removes_line_and_block_comments() {
    assert_eq!(strip_comments("a # b\nc"), "a \nc");
    assert_eq!(strip_comments("a /* b */ c"), "a  c");
    assert_eq!(strip_comments("a /* never closed"), "a ");
    assert_eq!(strip_comments("no comment"), "no comment");
}

#[test]
fn literal_target_joins_the_directory_of_the_file() {
    assert_eq!(literal_target("/r", "/r/modules/foo.nix", "../common"), "/r/modules/../common");
    assert_eq!(literal_target("/r", "/r/a.nix", "./b.nix"), "/r/./b.nix");
    assert_eq!(directory_entry("/r/common"), "/r/common/default.nix");
}

#[test]
fn resolve_target_classifies_targets() {
    assert_eq!(resolve_target("/r", None, false, false), Resolution::Unresolved);
    assert_eq!(
        resolve_target("/r", Some("/outside.nix".into()), false, false),
        Resolution::Outside
    );
    assert_eq!(
        resolve_target("/r", Some("/r/common".into()), true, true),
        Resolution::Directory { entry: Some("/r/common/default.nix".into()) }
    );
    assert_eq!(
        resolve_target("/r", Some("/r/common".into()), true, false),
        Resolution::Directory { entry: None }
    );
    assert_eq!(
        resolve_target("/r", Some("/r/a.nix".into()), false, false),
        Resolution::NixFile { target: "/r/a.nix".into() }
    );
    assert_eq!(
        resolve_target("/r", Some("/r/hello.sh".into()), false, false),
        Resolution::OtherFile { target: "/r/hello.sh".into() }
    );
    // A root sibling sharing the root's name as a prefix is outside.
    assert_eq!(
        resolve_target("/r", Some("/rx/a.nix".into()), false, false),
        Resolution::Outside
    );
}

/// Runs a scan over an in-memory tree: `files` maps paths to contents,
/// `resolve` tells where each literal of each file leads.
#[test]
fn scan_collects_transitive_deps() {
    let mut scan = Scan::new(vec!["/r/modules/foo.nix".to_string()]);
    // modules/foo.nix: imports ../common (a directory) and a script.
    let file = scan.next_file().unwrap();
    assert_eq!(file, "/r/modules/foo.nix");
    scan.follow(
        &file,
        literal("../common", false),
        Resolution::Directory { entry: Some("/r/common/default.nix".into()) },
    );
    scan.follow(
        &file,
        literal("../scripts/hello.sh", false),
        Resolution::OtherFile { target: "/r/scripts/hello.sh".into() },
    );
    // common/default.nix imports ./base.nix.
    let file = scan.next_file().unwrap();
    assert_eq!(file, "/r/common/default.nix");
    scan.follow(&file, literal("./base.nix", false), Resolution::NixFile { target: "/r/common/base.nix".into() });
    let file = scan.next_file().unwrap();
    assert_eq!(file, "/r/common/base.nix");
    // base.nix imports foo.nix again: it is not read twice.
    scan.follow(&file, literal("../modules/foo.nix", false), Resolution::NixFile { target: "/r/modules/foo.nix".into() });
    assert_eq!(scan.next_file(), None);
    // The files come out in path order.
    assert_eq!(
        scan.result.files,
        vec![
            "/r/common/base.nix".to_string(),
            "/r/common/default.nix".to_string(),
            "/r/modules/foo.nix".to_string(),
            "/r/scripts/hello.sh".to_string(),
        ]
    );
    assert!(scan.result.warnings.is_empty());
}

#[test]
fn scan_warns_on_missing_dynamic_and_escape() {
    let mut scan = Scan::new(vec!["/r/mod.nix".to_string(), "/r/gone.nix".to_string()]);
    let file = scan.next_file().unwrap();
    assert_eq!(file, "/r/gone.nix");
    scan.unreadable(file);
    let file = scan.next_file().unwrap();
    assert_eq!(file, "/r/mod.nix");
    scan.follow(&file, literal("./missing.nix", false), Resolution::Unresolved);
    scan.follow(&file, literal("./cfg/", true), Resolution::Unresolved);
    scan.follow(&file, literal("../outside.nix", false), Resolution::Outside);
    scan.follow(&file, literal("./empty", false), Resolution::Directory { entry: None });
    assert_eq!(scan.next_file(), None);
    assert_eq!(scan.result.files, vec!["/r/mod.nix".to_string()]);
    assert_eq!(
        scan.result.warnings,
        vec![
            Warning::Unreadable { file: "/r/gone.nix".into() },
            Warning::Missing { file: "/r/mod.nix".into(), literal: "./missing.nix".into() },
            Warning::Dynamic { file: "/r/mod.nix".into(), literal: "./cfg/".into() },
            Warning::OutsideRepo { file: "/r/mod.nix".into(), literal: "../outside.nix".into() },
            Warning::Missing { file: "/r/mod.nix".into(), literal: "./empty/default.nix".into() },
        ]
    );
}

#[test]
fn warning_messages() {
    assert_eq!(
        Warning::Dynamic { file: "f".into(), literal: "./x/".into() }.message(),
        "dynamic path `./x/` in f skipped"
    );
    assert_eq!(
        Warning::UnresolvedModule { name: "foo".into() }.message(),
        "module `foo` has no resolvable source, skipped"
    );
    assert_eq!(
        Warning::NoInputs.message(),
        "no inputs found in source flake.nix; default nixpkgs input generated"
    );
}

#[test]
fn scan_files_sort_component_by_component() {
    let mut scan = Scan::new(vec!["/r/a-b.nix".to_string(), "/r/z.nix".to_string()]);
    let file = scan.next_file().unwrap();
    assert_eq!(file, "/r/z.nix");
    scan.follow(&file, literal("./a/c.sh", false), Resolution::OtherFile { target: "/r/a/c.sh".into() });
    let file = scan.next_file().unwrap();
    assert_eq!(file, "/r/a-b.nix");
    assert_eq!(scan.next_file(), None);
    // A separator sorts before every other character, so `/r/a/c.sh`
    // precedes `/r/a-b.nix` although `-` precedes `/` as a character.
    assert_eq!(
        scan.result.files,
        vec!["/r/a/c.sh".to_string(), "/r/a-b.nix".to_string(), "/r/z.nix".to_string()]
    );
}
