use flamingo::config::keybinding::{Binding, KeyCode, KeyEvent, KeyModifiers, Keybindings};
use flamingo::tui::command::{Command, InputCommand, MouseKind, ScrollType};

/// Shorthand for a plain key press.
fn press(code: KeyCode) -> KeyEvent {
    KeyEvent::plain(code)
}

#[test]
fn test_default_bindings_reproduce_current_behavior() {
    let bindings = Keybindings::default();
    assert_eq!(
        bindings.command_for(&press(KeyCode::Char('j'))),
        Command::Next(ScrollType::List, 1)
    );
    assert_eq!(
        bindings.command_for(&press(KeyCode::Up)),
        Command::Previous(ScrollType::List, 1)
    );
    assert_eq!(
        bindings.command_for(&KeyEvent::new(KeyCode::Char('d'), KeyModifiers::control())),
        Command::Next(ScrollType::List, 5)
    );
    assert_eq!(
        bindings.command_for(&press(KeyCode::Char('l'))),
        Command::Next(ScrollType::Table, 1)
    );
    assert_eq!(
        bindings.command_for(&press(KeyCode::Tab)),
        Command::Next(ScrollType::Tab, 1)
    );
    assert_eq!(
        bindings.command_for(&press(KeyCode::BackTab)),
        Command::Previous(ScrollType::Tab, 1)
    );
    assert_eq!(bindings.command_for(&press(KeyCode::Char('t'))), Command::Top);
    assert_eq!(bindings.command_for(&press(KeyCode::Char('q'))), Command::Exit);
    assert_eq!(bindings.command_for(&press(KeyCode::Esc)), Command::Exit);
    assert_eq!(
        bindings.command_for(&press(KeyCode::Char('/'))),
        Command::Input(InputCommand::Enter)
    );
    assert_eq!(bindings.command_for(&press(KeyCode::Enter)), Command::AddModule);
    assert_eq!(bindings.command_for(&press(KeyCode::Char('o'))), Command::OpenRepo);
    assert_eq!(bindings.command_for(&press(KeyCode::Char('e'))), Command::Export);
    // Unbound keys do nothing; plain `d` needs ctrl.
    assert_eq!(bindings.command_for(&press(KeyCode::Char('d'))), Command::Nothing);
    assert_eq!(bindings.command_for(&press(KeyCode::Char('z'))), Command::Nothing);
}

#[test]
fn test_hardcoded_escape_hatches() {
    // Rebind quit away from ctrl+c; ctrl+c must still exit.
    let mut bindings = Keybindings::default();
    bindings.quit = Binding(vec!["x".parse().unwrap()]);
    assert_eq!(
        bindings.command_for(&KeyEvent::new(KeyCode::Char('c'), KeyModifiers::control())),
        Command::Exit
    );
    assert!(matches!(
        bindings.command_for(&press(KeyCode::Backspace)),
        Command::Input(InputCommand::Resume(_))
    ));
}

#[test]
fn mouse_scroll_moves_the_list() {
    assert_eq!(
        Command::from_mouse(MouseKind::ScrollDown),
        Command::Next(ScrollType::List, 1)
    );
    assert_eq!(
        Command::from_mouse(MouseKind::ScrollUp),
        Command::Previous(ScrollType::List, 1)
    );
    assert_eq!(Command::from_mouse(MouseKind::Other), Command::Nothing);
}

#[test]
fn input_parse_leaves_confirms_and_edits() {
    assert_eq!(InputCommand::parse(press(KeyCode::Esc), "abc"), InputCommand::Exit);
    assert_eq!(InputCommand::parse(press(KeyCode::Backspace), ""), InputCommand::Exit);
    assert_eq!(
        InputCommand::parse(press(KeyCode::Backspace), "a"),
        InputCommand::Handle(press(KeyCode::Backspace))
    );
    assert_eq!(InputCommand::parse(press(KeyCode::Enter), "a"), InputCommand::Confirm);
    assert_eq!(
        InputCommand::parse(press(KeyCode::Char('x')), ""),
        InputCommand::Handle(press(KeyCode::Char('x')))
    );
}
