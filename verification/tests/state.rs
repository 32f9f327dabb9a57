use flamingo::config::keybinding::{KeyCode, KeyEvent, Keybindings};
use flamingo::flake::Flake;
use flamingo::module::Module;
use flamingo::trim::ExportReport;
use flamingo::tui::command::{Command, InputCommand, ScrollType};
use flamingo::tui::module_panel::ModulePanel;
use flamingo::tui::state::{Action, ExportStage, State};
use flamingo::tui::tab::Tab;

fn module(name: &str, path: &str, files: &[&str]) -> Module {
    Module {
        name: name.to_string(),
        path: Some(path.to_string()),
        content: None,
        files: files.iter().map(|file| file.to_string()).collect(),
        added: false,
    }
}

fn state() -> State {
    let mut flake = Flake::new("/src");
    flake.nixos_modules = vec![
        module("desktop", "/r/desktop.nix", &["/r/desktop.nix", "/r/apps.nix", "/r/firefox.nix"]),
        module("apps", "/r/apps.nix", &["/r/apps.nix", "/r/firefox.nix"]),
        module("firefox", "/r/firefox.nix", &["/r/firefox.nix"]),
        module("server", "/r/server.nix", &["/r/server.nix"]),
    ];
    flake.home_modules = vec![module("shell", "/r/shell.nix", &["/r/shell.nix"])];
    State::new(flake, Keybindings::default(), Some("/home/me".to_string()))
}

#[test]
fn new_state_starts_on_the_general_tab() {
    let s = state();
    assert!(s.running);
    assert_eq!(s.tab, Tab::General);
    assert!(s.module_rows.is_empty());
    assert!(s.list.items.is_empty());
    assert_eq!(s.list.selected, None);
    assert!(matches!(s.export_stage, ExportStage::Idle));
}

#[test]
fn module_tabs_list_the_module_tree() {
    let mut s = state();
    s.set_tab(Tab::NixosModules);
    assert_eq!(s.module_rows, vec![(0, 0), (1, 1), (2, 2), (0, 3)]);
    assert_eq!(
        s.list.items,
        vec![
            vec!["desktop".to_string()],
            vec!["apps".to_string()],
            vec!["firefox".to_string()],
            vec!["server".to_string()],
        ]
    );
    assert_eq!(s.list.selected, Some(0));
    s.set_tab(Tab::HomeManagerModules);
    assert_eq!(s.list.items, vec![vec!["shell".to_string()]]);
}

#[test]
fn tab_steps_wrap_and_undo_each_other() {
    let mut s = state();
    s.next(ScrollType::Tab, 1);
    assert_eq!(s.tab, Tab::NixosModules);
    s.previous(ScrollType::Tab, 1);
    assert_eq!(s.tab, Tab::General);
    s.previous(ScrollType::Tab, 1);
    assert_eq!(s.tab, Tab::HomeManagerModules);
    s.next(ScrollType::Tab, 1);
    assert_eq!(s.tab, Tab::General);
    s.next(ScrollType::Tab, usize::MAX);
    assert_eq!(s.tab, Tab::General);
}

#[test]
fn list_scrolling_wraps() {
    let mut s = state();
    s.set_tab(Tab::NixosModules);
    s.next(ScrollType::List, 3);
    assert_eq!(s.list.selected, Some(3));
    s.next(ScrollType::List, 1);
    assert_eq!(s.list.selected, Some(0));
    s.previous(ScrollType::List, 1);
    assert_eq!(s.list.selected, Some(3));
    s.previous(ScrollType::List, 5);
    assert_eq!(s.list.selected, Some(0));
    s.bottom();
    assert_eq!(s.list.selected, Some(3));
    s.top();
    assert_eq!(s.list.selected, Some(0));
}

#[test]
fn content_panel_scrolls_and_saturates() {
    let mut s = state();
    s.set_tab(Tab::NixosModules);
    s.next(ScrollType::Table, 1);
    assert_eq!(s.nixos_tab.panel, ModulePanel::Content);
    s.next(ScrollType::List, 3);
    assert_eq!(s.nixos_tab.scroll_index, 3);
    s.previous(ScrollType::List, 5);
    assert_eq!(s.nixos_tab.scroll_index, 0);
    s.next(ScrollType::List, usize::MAX);
    s.next(ScrollType::List, 2);
    assert_eq!(s.nixos_tab.scroll_index, usize::MAX);
    s.previous(ScrollType::Table, 1);
    assert_eq!(s.nixos_tab.panel, ModulePanel::Modules);
    // The list moves again, and the content goes back to its top.
    s.next(ScrollType::List, 1);
    assert_eq!(s.list.selected, Some(1));
    assert_eq!(s.nixos_tab.scroll_index, 0);
}

#[test]
fn add_module_toggles_the_subtree() {
    let mut s = state();
    s.set_tab(Tab::NixosModules);
    s.add_module();
    let added: Vec<bool> = s.flake.nixos_modules.iter().map(|m| m.added).collect();
    assert_eq!(added, vec![true, true, true, false]);
    s.next(ScrollType::List, 1);
    s.add_module();
    let added: Vec<bool> = s.flake.nixos_modules.iter().map(|m| m.added).collect();
    assert_eq!(added, vec![true, false, false, false]);
}

#[test]
fn add_module_on_the_general_tab_does_nothing() {
    let mut s = state();
    s.add_module();
    assert!(s.flake.nixos_modules.iter().all(|m| !m.added));
}

#[test]
fn export_without_added_modules_is_refused() {
    let mut s = state();
    let action = s.run_command(Command::Export, "");
    assert!(matches!(action, Action::Nothing));
    assert_eq!(s.status.as_deref(), Some("no modules added"));
    assert!(matches!(s.export_stage, ExportStage::Idle));
    // The next command clears the status.
    s.run_command(Command::Nothing, "");
    assert_eq!(s.status, None);
}

#[test]
fn export_flow_prompts_then_requests() {
    let mut s = state();
    s.set_tab(Tab::NixosModules);
    s.run_command(Command::AddModule, "");
    assert!(matches!(s.run_command(Command::Export, ""), Action::ClearInput));
    assert!(matches!(s.export_stage, ExportStage::Hostname));
    assert!(s.input_mode);
    // A blank hostname is not accepted.
    assert!(matches!(s.run_command(Command::Input(InputCommand::Confirm), "   "), Action::Nothing));
    assert!(matches!(s.export_stage, ExportStage::Hostname));
    assert!(matches!(
        s.run_command(Command::Input(InputCommand::Confirm), "  myhost "),
        Action::ClearInput
    ));
    match &s.export_stage {
        ExportStage::OutputDir { hostname } => assert_eq!(hostname, "myhost"),
        other => panic!("unexpected stage {other:?}"),
    }
    let action = s.run_command(Command::Input(InputCommand::Confirm), " ~/out ");
    let request = match action {
        Action::Export(request) => request,
        other => panic!("unexpected action {other:?}"),
    };
    assert_eq!(request.source, "/src");
    assert_eq!(request.hostname, "myhost");
    assert_eq!(request.output_dir, "/home/me/out");
    let names: Vec<(String, bool)> =
        request.modules.iter().map(|m| (m.name.clone(), m.top_level)).collect();
    assert_eq!(
        names,
        vec![
            ("desktop".to_string(), true),
            ("apps".to_string(), false),
            ("firefox".to_string(), false),
        ]
    );
    assert!(!s.input_mode);
    s.finish_export(Ok(ExportReport {
        output_dir: "/home/me/out".into(),
        files_written: vec![],
        warnings: vec![],
    }));
    assert!(matches!(s.export_stage, ExportStage::Done(Ok(_))));
    // Any key dismisses the report and does nothing else.
    assert!(matches!(s.run_command(Command::Exit, ""), Action::Nothing));
    assert!(matches!(s.export_stage, ExportStage::Idle));
    assert!(s.running);
}

#[test]
fn input_commands_edit_leave_and_restart() {
    let mut s = state();
    let key = KeyEvent::plain(KeyCode::Char('x'));
    assert!(matches!(s.input(InputCommand::Handle(key), ""), Action::EditInput(_)));
    // Resuming on the General tab restarts the application.
    assert!(matches!(s.input(InputCommand::Resume(key), "abc"), Action::Restart));
    s.set_tab(Tab::NixosModules);
    assert!(matches!(s.input(InputCommand::Resume(key), ""), Action::Nothing));
    assert!(!s.input_mode);
    assert!(matches!(s.input(InputCommand::Resume(key), "abc"), Action::EditInput(_)));
    assert!(s.input_mode);
    assert!(matches!(s.input(InputCommand::Exit, "abc"), Action::ClearInput));
    assert!(!s.input_mode);
}

#[test]
fn open_repo_only_from_the_general_tab() {
    let mut s = state();
    assert!(matches!(s.run_command(Command::OpenRepo, ""), Action::OpenRepo));
    s.set_tab(Tab::NixosModules);
    assert!(matches!(s.run_command(Command::OpenRepo, ""), Action::Nothing));
}

#[test]
fn exit_stops_the_application() {
    let mut s = state();
    s.run_command(Command::Exit, "");
    assert!(!s.running);
}

#[test]
fn help_bar_entries() {
    let mut s = state();
    let general: Vec<(String, &str)> = s.get_key_bindings();
    assert_eq!(
        general,
        vec![
            ("o".to_string(), "Open docs"),
            ("Tab".to_string(), "Next"),
            ("⇧+Tab".to_string(), "Previous"),
            ("q".to_string(), "Quit"),
        ]
    );
    s.set_tab(Tab::NixosModules);
    let modules = s.get_key_bindings();
    assert_eq!(modules.len(), 7);
    assert_eq!(modules[0], ("⏎".to_string(), "Add module"));
    assert_eq!(modules[2], ("h/l".to_string(), "Focus panel"));
    assert_eq!(modules[3], ("j/k".to_string(), "Scroll"));
}
