use flamingo::config::keybinding::{
    Binding, KeyCode, KeyEvent, KeyModifiers, KeyPattern, Keybindings,
};

fn shift() -> KeyModifiers {
    KeyModifiers { control: false, alt: false, shift: true }
}

fn quit_binding() -> Binding {
    Binding(vec!["q".parse().unwrap(), "esc".parse().unwrap(), "ctrl+d".parse().unwrap()])
}

#[test]
fn binding_label_uses_first_chord() {
    let binding = Binding(vec!["n".parse().unwrap(), "down".parse().unwrap()]);
    assert_eq!(binding.label(), "n");
    assert_eq!(Binding::default().label(), "");
}

#[test]
fn binding_matching_plain_q() {
    assert!(quit_binding().matches(&KeyEvent::plain(KeyCode::Char('q'))));
}

#[test]
fn binding_matching_uppercase_q() {
    // Uppercase (shift) still matches: bindings are case-insensitive.
    assert!(quit_binding().matches(&KeyEvent::new(KeyCode::Char('Q'), shift())));
}

#[test]
fn binding_matching_esc() {
    assert!(quit_binding().matches(&KeyEvent::plain(KeyCode::Esc)));
}

#[test]
fn binding_matching_ctrl_d() {
    assert!(quit_binding().matches(&KeyEvent::new(KeyCode::Char('d'), KeyModifiers::control())));
}

#[test]
fn binding_matching_plain_d_without_ctrl() {
    assert!(!quit_binding().matches(&KeyEvent::plain(KeyCode::Char('d'))));
}

#[test]
fn binding_matching_unbound_key() {
    assert!(!quit_binding().matches(&KeyEvent::plain(KeyCode::Char('x'))));
}

fn label_of(input: &str) -> String {
    input.parse::<KeyPattern>().unwrap().label_text()
}

#[test]
fn key_pattern_labels() {
    assert_eq!(label_of("q"), "q");
    assert_eq!(label_of("enter"), "⏎");
    assert_eq!(label_of("backtab"), "⇧+Tab");
    assert_eq!(label_of("ctrl+d"), "Ctrl+d");
    assert_eq!(label_of("space"), "Space");
    assert_eq!(label_of("up"), "↑");
}

#[test]
fn key_pattern_parse_is_case_insensitive_and_trimmed() {
    let pattern = KeyPattern::parse(" Ctrl + D ").unwrap();
    assert_eq!(pattern.code, KeyCode::Char('d'));
    assert!(pattern.modifiers.control);
    assert!(!pattern.modifiers.alt);
}

#[test]
fn key_pattern_function_keys_label_but_do_not_parse() {
    assert!(KeyPattern::parse("f5").is_err());
    let pattern = KeyPattern { code: KeyCode::F(12), modifiers: KeyModifiers::none() };
    assert_eq!(pattern.label_text(), "F(12)");
}

#[test]
fn key_pattern_rejects_unknown_names() {
    assert!(KeyPattern::parse("not+a+key").is_err());
    assert!(KeyPattern::parse("").is_err());
}

#[test]
fn default_keybindings_cover_current_behavior() {
    let b = Keybindings::default();
    assert!(b.quit.matches(&KeyEvent::plain(KeyCode::Char('q'))));
    assert!(b.quit.matches(&KeyEvent::plain(KeyCode::Esc)));
    assert!(b.list_next.matches(&KeyEvent::plain(KeyCode::Char('j'))));
    assert!(b.list_next.matches(&KeyEvent::plain(KeyCode::Down)));
    assert!(b
        .list_page_next
        .matches(&KeyEvent::new(KeyCode::Char('d'), KeyModifiers::control())));
    assert!(b.tab_previous.matches(&KeyEvent::plain(KeyCode::BackTab)));
    assert!(b.search.matches(&KeyEvent::plain(KeyCode::Char('/'))));
    assert!(b.export.matches(&KeyEvent::plain(KeyCode::Char('e'))));
}

#[test]
fn parses_valid_key_pattern() {
    let e = "e".parse::<KeyPattern>().unwrap();
    assert_eq!(e, KeyPattern { code: KeyCode::Char('e'), modifiers: KeyModifiers::none() });
    let ctrl_d = "ctrl+d".parse::<KeyPattern>().unwrap();
    assert_eq!(ctrl_d, KeyPattern { code: KeyCode::Char('d'), modifiers: KeyModifiers::control() });
    let page_down = "pagedown".parse::<KeyPattern>().unwrap();
    assert_eq!(page_down, KeyPattern { code: KeyCode::PageDown, modifiers: KeyModifiers::none() });
}

#[test]
fn rejects_invalid_key_pattern() {
    assert!("bogus_key".parse::<KeyPattern>().is_err());
    assert!("ctrl+".parse::<KeyPattern>().is_err());
}
