use flamingo::config::keybinding::Keybindings;
use flamingo::flake::Flake;
use flamingo::metadata::{input_count, FlakeMetadata, LockNode};
use flamingo::module::Module;
use flamingo::text::line_count;
use flamingo::tui::info::info_sections;
use flamingo::tui::state::State;
use flamingo::tui::tab::Tab;

fn module(name: &str, path: &str, files: &[&str], content: Option<&str>) -> Module {
    Module {
        name: name.to_string(),
        path: Some(path.to_string()),
        content: content.map(str::to_string),
        files: files.iter().map(|file| file.to_string()).collect(),
        added: false,
    }
}

fn flake() -> Flake {
    let mut flake = Flake::new("/src");
    flake.nixos_modules = vec![
        module("desktop", "/r/desktop.nix", &["/r/desktop.nix", "/r/apps.nix"], Some("{ a }")),
        module("apps", "/r/apps.nix", &["/r/apps.nix"], None),
        module("server", "/r/server.nix", &["/r/server.nix"], None),
    ];
    flake
}

#[test]
fn info_sections_summarize_the_flake() {
    let mut f = flake();
    f.nixos_modules[0].added = true;
    f.description = Some("my config".into());
    f.input_count = 3;
    f.commit = Some("abc123".into());
    f.dirty = true;
    let sections = info_sections(&f);
    assert_eq!(
        sections[0],
        vec![
            ("Source".to_string(), "/src".to_string()),
            ("Description".to_string(), "my config".to_string()),
            ("Inputs".to_string(), "3".to_string()),
            ("Commit".to_string(), "abc123 (dirty)".to_string()),
        ]
    );
    assert_eq!(
        sections[1],
        vec![
            ("Nixos Modules".to_string(), "3".to_string()),
            ("Added Nixos Modules".to_string(), "1 (33%)".to_string()),
        ]
    );
    assert_eq!(
        sections[2],
        vec![
            ("Home Manager Modules".to_string(), "0".to_string()),
            ("Added Home Manager Modules".to_string(), "0 (0%)".to_string()),
        ]
    );
}

#[test]
fn module_panels_show_rows_and_content() {
    let mut s = State::new(flake(), Keybindings::default(), None);
    assert_eq!(s.position_label(), "");
    s.set_tab(Tab::NixosModules);
    s.add_module();
    let rows: Vec<(String, bool, String)> = s
        .module_tree_rows()
        .into_iter()
        .map(|r| (r.prefix, r.added, r.name))
        .collect();
    assert_eq!(
        rows,
        vec![
            ("".to_string(), true, "desktop".to_string()),
            ("└─ ".to_string(), true, "apps".to_string()),
            ("".to_string(), false, "server".to_string()),
        ]
    );
    assert_eq!(s.module_content(), ("desktop".to_string(), "{ a }".to_string()));
    assert_eq!(s.position_label(), "1/3");
    s.next(flamingo::tui::command::ScrollType::List, 1);
    assert_eq!(
        s.module_content(),
        ("apps".to_string(), "source not available".to_string())
    );
    assert_eq!(s.position_label(), "2/3");
}

#[test]
fn content_scroll_is_clamped() {
    let mut s = State::new(flake(), Keybindings::default(), None);
    s.set_tab(Tab::NixosModules);
    s.nixos_tab.scroll_index = 50;
    s.clamp_content_scroll(30, 10);
    assert_eq!(s.nixos_tab.scroll_index, 20);
    s.clamp_content_scroll(5, 10);
    assert_eq!(s.nixos_tab.scroll_index, 0);
}

#[test]
fn line_count_matches_str_lines() {
    for text in ["", "a", "a\n", "a\nb", "\n", "\n\n", "a\r\nb\n"] {
        assert_eq!(line_count(text), text.lines().count(), "{text:?}");
    }
}

#[test]
fn metadata_fills_the_summary() {
    let mut f = flake();
    let meta = FlakeMetadata {
        description: Some("cfg".into()),
        root: None,
        nodes: vec![
            LockNode { name: "nixpkgs".into(), inputs: None },
            LockNode { name: "root".into(), inputs: Some(4) },
        ],
    };
    f.extract_metadata(Some(meta), Some("main".into()), Some("abc".into()), Some(" M x".into()));
    assert_eq!(f.description.as_deref(), Some("cfg"));
    assert_eq!(f.input_count, 4);
    assert_eq!(f.branch.as_deref(), Some("main"));
    assert!(f.dirty);
    f.extract_metadata(None, None, None, Some(String::new()));
    assert_eq!(f.input_count, 4);
    assert!(!f.dirty);
    let named_root = FlakeMetadata {
        description: None,
        root: Some("top".into()),
        nodes: vec![LockNode { name: "top".into(), inputs: Some(2) }],
    };
    assert_eq!(input_count(&named_root), 2);
}
