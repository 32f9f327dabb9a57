use flamingo::tui::list::SelectableList;
use flamingo::tui::logo::{color_for, Logo, HEIGHT, WIDTH};
use flamingo::tui::tab::Tab;

#[test]
fn tab_headers_and_positions() {
    assert_eq!(Tab::get_headers(), ["General", "Nixos Modules", "Home Manager Modules"]);
    assert_eq!(Tab::from(1usize), Tab::NixosModules);
    assert_eq!(Tab::from(2usize), Tab::HomeManagerModules);
    assert_eq!(Tab::from(7usize), Tab::General);
    assert_eq!(Tab::HomeManagerModules.index(), 2);
    assert_eq!(Tab::default(), Tab::General);
}

#[test]
fn logo_colors_and_size() {
    assert_eq!(color_for('l'), Some((250, 180, 200)));
    assert_eq!(color_for('b'), Some((30, 30, 30)));
    assert_eq!(color_for(' '), None);
    let logo = Logo::default();
    assert_eq!(logo.get_size(), (WIDTH, HEIGHT));
    assert!(!logo.is_rendered);
}

#[test]
fn logo_placement_and_tick() {
    let mut logo = Logo::default();
    assert_eq!(logo.placement(100, 40), Some((40, 14, WIDTH, HEIGHT)));
    assert_eq!(logo.placement(10, 40), None);
    logo.tick(200);
    assert!(!logo.is_rendered);
    logo.tick(600);
    assert!(logo.is_rendered);
    assert_eq!(logo.placement(100, 40), None);
}

#[test]
fn selectable_list_moves() {
    let mut list = SelectableList::with_items(vec!["a", "b", "c"]);
    assert_eq!(list.selected, Some(0));
    list.next(2);
    assert_eq!(list.selected, Some(2));
    list.next(1);
    assert_eq!(list.selected, Some(0));
    list.previous(1);
    assert_eq!(list.selected, Some(2));
    list.last();
    assert_eq!(list.selected, Some(2));
    list.first();
    assert_eq!(list.selected, Some(0));
    let empty: SelectableList<u8> = SelectableList::default();
    assert_eq!(empty.selected, None);
}
