use glassui::richtext::{EditorKey, RichTextEditor};
use glassui::chat::{PromptInput, PromptKey};
use glassui::command_palette::{Command, CommandPalette, PaletteKey};
use glassui::date::SimpleDate;
use glassui::tree::FileTree;

#[test]
fn prompt_type_then_backspace_restores() {
    let mut p = PromptInput::new();
    p.click(true);
    for c in "anb".chars() {
        assert!(p.accepts_key(PromptKey::Text(c)));
        p.handle_key(PromptKey::Text(c));
    }
    let text = p.text.clone();
    let cursor = p.cursor_pos;
    p.handle_key(PromptKey::ArrowLeft);
    let before_text = p.text.clone();
    let before_cursor = p.cursor_pos;
    for c in ['é', 'x', '€'] {
        assert!(p.accepts_key(PromptKey::Text(c)));
        p.handle_key(PromptKey::Text(c));
        assert!(p.accepts_key(PromptKey::Backspace));
        p.handle_key(PromptKey::Backspace);
        assert_eq!(p.text, before_text);
        assert_eq!(p.cursor_pos, before_cursor);
    }
    assert_eq!(text, "anb");
    assert_eq!(cursor, 3);
}

#[test]
fn palette_type_then_backspace_restores_listing() {
    let mut palette = CommandPalette::new();
    palette.add_command(Command::new("save", "Save"));
    palette.add_command(Command::new("load", "Load"));
    palette.add_command(Command::new("new", "New File"));
    palette.show();
    palette.handle_key(PaletteKey::Text('n'));
    let query = palette.query.clone();
    let listing = palette.filtered.clone();
    palette.handle_key(PaletteKey::Text('é'));
    assert_eq!(palette.query, "né");
    palette.handle_key(PaletteKey::Backspace);
    assert_eq!(palette.query, query);
    assert_eq!(palette.filtered, listing);
}

#[test]
fn empty_query_lists_every_command_in_order() {
    let mut palette = CommandPalette::new();
    palette.add_command(Command::new("b", "Beta"));
    palette.add_command(Command::new("a", "Alpha"));
    palette.add_command(Command::new("c", "Gamma"));
    palette.update_filtered();
    assert_eq!(palette.filtered, vec![0, 1, 2]);
}

#[test]
fn tree_toggle_twice_restores() {
    let mut tree = FileTree::sample_file_tree();
    let rows = tree.visible_rows();
    tree.toggle("src");
    assert_ne!(tree.visible_rows(), rows);
    tree.toggle("src");
    assert_eq!(tree.visible_rows(), rows);
}

#[test]
fn month_steps_and_weekdays_agree() {
    // each month starts on the weekday reached by counting the days since
    // Thursday 1 January 1970
    let mut days: u64 = 0;
    for year in 1970..2030 {
        for month in 1..=12u32 {
            let d = SimpleDate::new(year, month, 1);
            assert_eq!(d.first_day_of_month() as u64, (4 + days) % 7);
            assert_eq!(SimpleDate::from_unix_secs(days * 86_400), d);
            days += SimpleDate::days_in_month(year, month) as u64;
        }
    }
}

#[test]
fn editor_type_then_backspace_at_end_restores() {
    let mut ed = RichTextEditor::new().with_content("ab");
    ed.click(true);
    ed.handle_key(&EditorKey::ArrowRight);
    ed.handle_key(&EditorKey::ArrowRight);
    for c in ["x", "ü", "漢"] {
        let key = EditorKey::Text(c.to_string());
        assert!(ed.accepts_key(&key));
        ed.handle_key(&key);
        assert!(ed.accepts_key(&EditorKey::Backspace));
        ed.handle_key(&EditorKey::Backspace);
        assert_eq!(ed.plain_text(), "ab");
        assert_eq!(ed.cursor_pos(), 2);
    }
}
