use std::cell::Cell;
use std::rc::Rc;
use glassui::controls::{Button, Checkbox, Dropdown, DropdownTarget, RadioGroup, TextInput, TextKey, Toggle};
use glassui::overlays::{ClosureAction, ContextMenu, MenuItem, Modal, ModalInput};
use glassui::tabs::TabBar;

#[test]
fn text_input_keys() {
    let mut t = TextInput::new("Type").with_text("ab");
    assert!(!t.handle_key(TextKey::Text("c".to_string())));
    assert!(t.click(true));
    assert!(t.handle_key(TextKey::Text("cd".to_string())));
    assert_eq!(t.get_text(), "abcd");
    assert!(!t.handle_key(TextKey::Text("\u{1b}x".to_string())));
    assert!(t.handle_key(TextKey::Backspace));
    assert_eq!(t.get_text(), "abc");
    t.set_text("");
    assert!(t.handle_key(TextKey::Backspace));
    assert_eq!(t.get_text(), "");
    assert!(!t.handle_key(TextKey::Other));
}

#[test]
fn dropdown_choose() {
    let mut d = Dropdown::new(vec!["a".to_string(), "b".to_string(), "c".to_string()]).with_selected(1);
    assert_eq!(d.selected(), Some("b"));
    assert!(d.click(DropdownTarget::Header));
    assert!(d.open);
    d.point_at(Some(2));
    d.point_at(Some(7));
    assert_eq!(d.hovered_index, Some(2));
    assert!(d.click(DropdownTarget::List));
    assert_eq!(d.selected(), Some("c"));
    assert!(!d.open);
    d.point_at(None);
    assert!(!d.click(DropdownTarget::List));
    assert!(!d.click(DropdownTarget::Outside));
}

#[test]
fn radio_checkbox_toggle_button() {
    let mut r = RadioGroup::new(vec!["x".to_string(), "y".to_string()]);
    assert_eq!(r.selected(), Some("x"));
    r.point_at(Some(1));
    assert!(r.click());
    assert_eq!(r.selected(), Some("y"));

    let mut c = Checkbox::new("c", false);
    assert!(c.click(true));
    assert!(c.is_checked());
    assert!(!c.click(false));
    assert!(c.is_checked());

    let mut t = Toggle::new("t", false);
    assert!(t.press(true));
    assert!(!t.release(false));
    assert!(!t.is_checked());
    assert!(t.press(true));
    assert!(t.release(true));
    assert!(t.is_checked());

    let mut b = Button::new("OK");
    assert!(!b.release(true));
    assert!(b.press(true));
    assert!(b.pressed);
    assert!(b.release(true));
    assert!(!b.pressed);
    assert!(!b.press(false));
    assert!(!b.release(true));
}

#[test]
fn tab_bar_pointer() {
    let mut bar = TabBar::new().add_tab("One").add_tab("Two");
    assert!(!bar.handle_pointer(Some(1), false));
    assert_eq!(bar.hovered_index, Some(1));
    assert!(bar.handle_pointer(Some(5), true));
    assert_eq!(bar.active_index, 1);
    assert!(!bar.handle_pointer(None, true));
    assert_eq!(bar.hovered_index, None);
    assert!(!bar.handle_pointer(Some(9), true));
    assert!(bar.handle_pointer(Some(0), true));
    assert_eq!(bar.active_index, 0);
}

#[test]
fn modal_closes_on_backdrop_or_escape() {
    let mut m = Modal::new("Settings");
    assert!(!m.handle_input(ModalInput::Escape));
    m.show();
    assert!(m.content_gets_event(true));
    assert!(!m.content_gets_event(false));
    assert!(m.handle_input(ModalInput::Press { in_modal: true }));
    assert!(m.visible);
    assert!(m.handle_input(ModalInput::Other));
    assert!(m.visible);
    assert!(m.handle_input(ModalInput::Press { in_modal: false }));
    assert!(!m.visible);
    m.show();
    assert!(m.handle_input(ModalInput::Escape));
    assert!(!m.visible);
    assert!(!m.content_gets_event(true));
}

#[test]
fn context_menu_rows() {
    let items: Vec<MenuItem<ClosureAction<Box<dyn FnMut()>>>> =
        vec![MenuItem::new("Copy"), MenuItem::new("Paste").with_shortcut("Ctrl+V")];
    let mut menu = ContextMenu::new(items);
    menu.show();
    assert!(menu.visible);
    menu.dismiss();
    assert!(!menu.visible);
}

#[test]
fn context_menu_click_runs_action() {
    let hits = Rc::new(Cell::new(0));
    let h = hits.clone();
    let copy: Box<dyn FnMut()> = Box::new(move || h.set(h.get() + 1));
    let mut menu = ContextMenu::new(vec![MenuItem::new("Copy").with_callback(copy), MenuItem::new("Paste")]);
    assert!(!menu.click(true));
    menu.show();
    menu.point_at(Some(0));
    assert!(menu.click(true));
    assert_eq!(hits.get(), 1);
    assert!(!menu.visible);
    menu.show();
    menu.point_at(Some(7));
    assert_eq!(menu.hovered_index, None);
    assert!(menu.click(true));
    assert!(menu.visible);
    assert!(menu.click(false));
    assert!(!menu.visible);
}
