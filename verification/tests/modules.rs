use flamingo::config::module::contains_name;
use flamingo::flake::Flake;
use flamingo::module::Module;
use flamingo::recover::{add_captured_references, walks_into};

fn module(name: &str, path: Option<&str>, files: &[&str], content: Option<&str>) -> Module {
    Module {
        name: name.to_string(),
        path: path.map(str::to_string),
        content: content.map(str::to_string),
        files: files.iter().map(|file| file.to_string()).collect(),
        added: false,
    }
}

#[test]
fn from_files_finds_the_entry_and_normalizes() {
    let m = Module::from_files(
        "desktop".into(),
        vec![
            "/repo/desktop.nix, via option flake.nixosModules.desktop".into(),
            "/repo/gnome.nix".into(),
            "/repo/fonts.nix".into(),
        ],
        true,
        Some("{ }".into()),
    );
    assert_eq!(m.path.as_deref(), Some("/repo/desktop.nix"));
    assert_eq!(m.content.as_deref(), Some("{ }"));
    assert_eq!(
        m.files,
        vec!["/repo/desktop.nix".to_string(), "/repo/gnome.nix".into(), "/repo/fonts.nix".into()]
    );
    assert!(m.added);
}

#[test]
fn from_files_without_marker_has_no_entry() {
    let m = Module::from_files("x".into(), vec!["/repo/x.nix".into()], false, Some("{ }".into()));
    assert_eq!(m.path, None);
    assert_eq!(m.content, None);
    assert_eq!(m.files, vec!["/repo/x.nix".to_string()]);
}

#[test]
fn recover_paths_adopts_the_defining_file() {
    let mut modules = vec![
        module("general", None, &[], None),
        module("known", Some("/r/known.nix"), &["/r/known.nix"], None),
        module("nowhere", None, &[], None),
    ];
    let sources = vec![
        ("/r/uses.nix".to_string(), "{ imports = [ nixosModules.general ]; }".to_string()),
        ("/r/general.nix".to_string(), "{ flake.nixosModules.\"general\" = { }; }".to_string()),
    ];
    Flake::recover_paths(&mut modules, "nixosModules", &sources);
    assert_eq!(modules[0].path.as_deref(), Some("/r/general.nix"));
    assert_eq!(modules[0].files, vec!["/r/general.nix".to_string()]);
    assert!(modules[0].content.as_deref().unwrap().contains("general"));
    assert_eq!(modules[1].path.as_deref(), Some("/r/known.nix"));
    assert_eq!(modules[2].path, None);
}

#[test]
fn recover_children_follows_textual_references() {
    let mut modules = vec![
        module(
            "desktop",
            Some("/r/desktop.nix"),
            &["/r/desktop.nix"],
            Some("{ imports = [ self.nixosModules.apps inputs.x.nixosModules.${y} ]; }"),
        ),
        module("apps", Some("/r/apps.nix"), &["/r/apps.nix"], Some("{ }")),
        module(
            "host",
            Some("/r/hosts/h.nix"),
            &["/r/hosts/h.nix"],
            Some("{ imports = [ self.nixosModules.apps ]; }"),
        ),
    ];
    Flake::recover_children(&mut modules, "nixosModules");
    assert_eq!(modules[0].files, vec!["/r/desktop.nix".to_string(), "/r/apps.nix".to_string()]);
    assert_eq!(modules[1].files, vec!["/r/apps.nix".to_string()]);
    // Host modules never adopt children.
    assert_eq!(modules[2].files, vec!["/r/hosts/h.nix".to_string()]);
}

#[test]
fn extract_modules_settles_the_tree() {
    let mut flake = Flake::new("/r");
    let mut desktop = module(
        "desktop",
        Some("/r/desktop.nix"),
        &["/r/desktop.nix"],
        Some("{ imports = [ self.nixosModules.apps ]; }"),
    );
    desktop.added = true;
    let apps = module("apps", None, &[], None);
    let sources = vec![("/r/apps.nix".to_string(), "{ flake.nixosModules.apps = { }; }".to_string())];
    flake.extract_modules(vec![desktop, apps], vec![], &sources);
    assert_eq!(flake.nixos_modules[1].path.as_deref(), Some("/r/apps.nix"));
    assert_eq!(
        flake.nixos_modules[0].files,
        vec!["/r/desktop.nix".to_string(), "/r/apps.nix".to_string()]
    );
    // The added flag cascades to the recovered child.
    assert!(flake.nixos_modules[1].added);
}

#[test]
fn config_names_and_walk() {
    let names = vec!["general".to_string(), "ssh".to_string()];
    assert!(contains_name(&names, &"ssh".to_string()));
    assert!(!contains_name(&names, &"ss".to_string()));
    assert!(walks_into("modules"));
    assert!(!walks_into(".git"));
    assert!(!walks_into("hosts"));
}

#[test]
fn recover_paths_escapes_module_names() {
    // The `.` in the name is literal: `aXb` must not count as `a.b`.
    let mut modules = vec![module("a.b", None, &[], None)];
    let sources = vec![
        ("/r/wrong.nix".to_string(), "{ flake.nixosModules.aXb = { }; }".to_string()),
        ("/r/right.nix".to_string(), "{ flake.nixosModules.\"a.b\" = { }; }".to_string()),
    ];
    Flake::recover_paths(&mut modules, "nixosModules", &sources);
    assert_eq!(modules[0].path.as_deref(), Some("/r/right.nix"));
}

#[test]
fn add_captured_references_appends_new_entries_in_order() {
    let modules = vec![
        module("desktop", Some("/r/desktop.nix"), &["/r/desktop.nix"], None),
        module("apps", Some("/r/apps.nix"), &["/r/apps.nix"], None),
        module("games", Some("/r/games.nix"), &["/r/games.nix"], None),
        module("opaque", None, &[], None),
    ];
    let pairs = vec![
        (Some("games".to_string()), None),
        // A reference to the module itself adds nothing.
        (Some("desktop".to_string()), None),
        (None, Some("apps".to_string())),
        // Already listed: not added twice.
        (Some("games".to_string()), None),
        // No entry file, or no such module: nothing to add.
        (Some("opaque".to_string()), None),
        (Some("missing".to_string()), None),
        (None, None),
    ];
    let files = add_captured_references(
        &modules,
        &"desktop".to_string(),
        vec!["/r/desktop.nix".to_string()],
        &pairs,
    );
    assert_eq!(
        files,
        vec!["/r/desktop.nix".to_string(), "/r/games.nix".to_string(), "/r/apps.nix".to_string()]
    );
}
