use flamingo::flake::Flake;
use flamingo::module::Module;
use flamingo::tui::module_panel::{tree_prefix, ModulePanel};

fn module(name: &str, path: &str, files: &[&str]) -> Module {
    Module {
        name: name.to_string(),
        path: Some(path.to_string()),
        content: None,
        files: files.iter().map(|file| file.to_string()).collect(),
        added: false,
    }
}

fn flake() -> Flake {
    Flake::new(".")
}

fn desktop_modules() -> Vec<Module> {
    vec![
        module(
            "desktop",
            "/r/desktop.nix",
            &["/r/desktop.nix", "/r/apps.nix", "/r/firefox.nix"],
        ),
        module("apps", "/r/apps.nix", &["/r/apps.nix", "/r/firefox.nix"]),
        module("firefox", "/r/firefox.nix", &["/r/firefox.nix"]),
        module("server", "/r/server.nix", &["/r/server.nix"]),
    ]
}

#[test]
fn module_tree_nests_and_reduces() {
    // desktop > apps > firefox, server standalone; firefox is NOT a direct
    // child of desktop (reduced through apps).
    assert_eq!(
        flake().module_tree(&desktop_modules()),
        vec![(0, 0), (1, 1), (2, 2), (0, 3)]
    );
}

#[test]
fn module_tree_cycle_falls_back_flat() {
    let modules = vec![
        module("a", "/r/a.nix", &["/r/a.nix", "/r/b.nix"]),
        module("b", "/r/b.nix", &["/r/b.nix", "/r/a.nix"]),
    ];
    let rows = flake().module_tree(&modules);
    // Both modules stay visible despite the cycle.
    let mut indices: Vec<usize> = rows.iter().map(|(_, index)| *index).collect();
    indices.sort_unstable();
    indices.dedup();
    assert_eq!(indices, vec![0, 1]);
}

#[test]
fn module_tree_of_no_modules_is_empty() {
    assert!(flake().module_tree(&[]).is_empty());
}

#[test]
fn cascade_marks_added_subtrees() {
    let mut flake = flake();
    flake.nixos_modules = desktop_modules();
    flake.nixos_modules[1].added = true;
    flake.cascade_added_modules();
    // `apps` and its child `firefox` are added; parents/siblings are not.
    assert!(!flake.nixos_modules[0].added);
    assert!(flake.nixos_modules[1].added);
    assert!(flake.nixos_modules[2].added);
    assert!(!flake.nixos_modules[3].added);
}

#[test]
fn export_selection_wires_only_top_level_modules() {
    let mut flake = flake();
    flake.nixos_modules = desktop_modules();
    for module in &mut flake.nixos_modules {
        module.added = true;
    }
    let wired: Vec<(String, bool)> = flake
        .export_selection(&flake.nixos_modules)
        .into_iter()
        .map(|module| (module.name, module.top_level))
        .collect();
    // Children arrive transitively through their parent.
    assert_eq!(
        wired,
        vec![
            ("desktop".to_string(), true),
            ("apps".to_string(), false),
            ("firefox".to_string(), false),
            ("server".to_string(), true),
        ]
    );
}

#[test]
fn export_selection_child_alone_is_top_level() {
    let mut flake = flake();
    flake.nixos_modules = vec![
        module("apps", "/r/apps.nix", &["/r/apps.nix", "/r/firefox.nix"]),
        module("firefox", "/r/firefox.nix", &["/r/firefox.nix"]),
    ];
    flake.nixos_modules[1].added = true;
    let selection = flake.export_selection(&flake.nixos_modules);
    assert_eq!(selection.len(), 1);
    assert_eq!(selection[0].name, "firefox");
    assert_eq!(selection[0].path.as_deref(), Some("/r/firefox.nix"));
    assert!(selection[0].top_level);
}

#[test]
fn ui_test_tree_prefix() {
    // desktop > (compositor > niri), desktopShell; server standalone.
    let rows = vec![(0, 0), (1, 1), (2, 2), (1, 3), (0, 4)];
    assert_eq!(tree_prefix(&rows, 0), "");
    assert_eq!(tree_prefix(&rows, 1), "├─ ");
    assert_eq!(tree_prefix(&rows, 2), "│  └─ ");
    assert_eq!(tree_prefix(&rows, 3), "└─ ");
    assert_eq!(tree_prefix(&rows, 4), "");
}

#[test]
fn module_panel_test_tree_prefix() {
    // desktop > (compositor > niri), desktopShell; server standalone.
    let rows = vec![(0, 0), (1, 1), (2, 2), (1, 3), (0, 4)];
    assert_eq!(ModulePanel::tree_prefix(&rows, 0), "");
    assert_eq!(ModulePanel::tree_prefix(&rows, 1), "├─ ");
    assert_eq!(ModulePanel::tree_prefix(&rows, 2), "│  └─ ");
    assert_eq!(ModulePanel::tree_prefix(&rows, 3), "└─ ");
    assert_eq!(ModulePanel::tree_prefix(&rows, 4), "");
}

#[test]
fn tree_prefix_past_the_rows_is_empty() {
    let rows = vec![(0, 0), (1, 1)];
    assert_eq!(tree_prefix(&rows, 5), "");
}

#[test]
fn should_process_flake() {
    let flake = Flake::new("https://github.com/wallago/nix-config");
    assert_eq!(flake.source, "https://github.com/wallago/nix-config");
    assert!(flake.nixos_modules.is_empty());
    assert!(flake.home_modules.is_empty());
}

#[test]
fn tree_prefix_is_three_chars_per_level() {
    let rows = vec![(0, 0), (1, 1), (2, 2), (3, 3), (1, 4)];
    for (row, &(depth, _)) in rows.iter().enumerate() {
        assert_eq!(tree_prefix(&rows, row).chars().count(), 3 * depth);
    }
    assert_eq!(tree_prefix(&rows, rows.len()), "");
}

#[test]
fn module_tree_nests_under_direct_parents() {
    let rows = flake().module_tree(&desktop_modules());
    assert_eq!(rows[0].0, 0);
    for k in 1..rows.len() {
        assert!(rows[k].0 <= rows[k - 1].0 + 1);
    }
}
