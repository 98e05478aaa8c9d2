use glassui::kinds::{FontWeight, TextDecoration};
use glassui::richtext::{EditorKey, RichText, RichTextEditor, SpanStyle, TextSpan};

fn texts_and_styles(rich: &RichText) -> Vec<(String, SpanStyle)> {
    rich.spans().iter().map(|s| (s.text.clone(), s.style)).collect()
}

#[test]
fn markdown_plain_then_bold() {
    let rich = RichText::from_markdown("Hello **world**");
    let spans = texts_and_styles(&rich);
    assert_eq!(spans.len(), 2);
    assert_eq!(spans[0].0, "Hello ");
    assert_eq!(spans[0].1, SpanStyle::new());
    assert_eq!(spans[1].0, "world");
    assert_eq!(spans[1].1, SpanStyle::new().bold());
    assert!(rich.spans().iter().all(|s| s.children.is_empty()));
}

#[test]
fn markdown_each_mark() {
    let rich = RichText::from_markdown("a *b* `c` ~~d~~ e");
    let spans = texts_and_styles(&rich);
    let expected = vec![
        ("a ".to_string(), SpanStyle::new()),
        ("b".to_string(), SpanStyle::new().italic()),
        (" ".to_string(), SpanStyle::new()),
        ("c".to_string(), SpanStyle::new().background()),
        (" ".to_string(), SpanStyle::new()),
        ("d".to_string(), SpanStyle::new().strikethrough()),
        (" e".to_string(), SpanStyle::new()),
    ];
    assert_eq!(spans, expected);
}

#[test]
fn markdown_unclosed_run_takes_rest() {
    let spans = texts_and_styles(&RichText::from_markdown("x*rest of it"));
    assert_eq!(spans.len(), 2);
    assert_eq!(spans[1].0, "rest of it");
    assert!(spans[1].1.italic);
}

#[test]
fn markdown_single_star_inside_bold_is_kept() {
    let spans = texts_and_styles(&RichText::from_markdown("**a*b**c"));
    assert_eq!(spans.len(), 2);
    assert_eq!(spans[0].0, "a*b");
    assert_eq!(spans[0].1.font_weight, FontWeight::Bold);
    assert_eq!(spans[1].0, "c");
}

#[test]
fn markdown_empty_bold_and_single_tilde() {
    let spans = texts_and_styles(&RichText::from_markdown("****"));
    assert_eq!(spans, vec![(String::new(), SpanStyle::new().bold())]);
    let spans = texts_and_styles(&RichText::from_markdown("a~b"));
    assert_eq!(spans, vec![("a~b".to_string(), SpanStyle::new())]);
    assert!(RichText::from_markdown("").spans().is_empty());
}

#[test]
fn span_plain_text_and_byte_count() {
    let span = TextSpan::new("héllo").with_child(TextSpan::bold(" wörld").with_child(TextSpan::italic("!")));
    assert_eq!(span.plain_text(), "héllo wörld!");
    assert_eq!(span.char_count(), "héllo wörld!".chars().count());
    assert_eq!(span.char_count(), 12);
    assert_eq!(TextSpan::new("é").char_count(), 1);
}

#[test]
fn rich_text_builders() {
    let rich = RichText::new().with_text("one").with_span(TextSpan::bold("two"));
    assert_eq!(rich.spans().len(), 2);
    assert_eq!(rich.spans()[0].text, "one");
    assert_eq!(rich.spans()[1].style.font_weight, FontWeight::Bold);
}

#[test]
fn editor_typing_and_backspace() {
    let mut ed = RichTextEditor::new();
    assert!(!ed.handle_key(&EditorKey::Text("x".to_string())));
    assert!(ed.click(true));
    assert!(ed.accepts_key(&EditorKey::Text("hi\u{7}!".to_string())));
    assert!(ed.handle_key(&EditorKey::Text("hi\u{7}!".to_string())));
    assert_eq!(ed.plain_text(), "hi!");
    assert_eq!(ed.cursor_pos(), 3);
    assert!(ed.handle_key(&EditorKey::Backspace));
    assert_eq!(ed.plain_text(), "hi");
    assert_eq!(ed.cursor_pos(), 2);
    assert!(ed.handle_key(&EditorKey::Enter));
    assert_eq!(ed.plain_text(), "hi\n");
    assert!(ed.handle_key(&EditorKey::ArrowLeft));
    assert!(ed.handle_key(&EditorKey::ArrowLeft));
    assert!(ed.handle_key(&EditorKey::ArrowLeft));
    assert_eq!(ed.cursor_pos(), 0);
    assert!(!ed.handle_key(&EditorKey::ArrowLeft));
    assert!(ed.handle_key(&EditorKey::Backspace));
    assert_eq!(ed.plain_text(), "hi\n");
    assert!(ed.handle_key(&EditorKey::ArrowRight));
    assert_eq!(ed.cursor_pos(), 1);
    assert!(!ed.handle_key(&EditorKey::Other));
    assert!(!ed.click(false));
    assert!(!ed.is_focused());
}

#[test]
fn editor_backspace_guard_on_multibyte_text() {
    let mut ed = RichTextEditor::new().with_content("é");
    ed.click(true);
    assert!(ed.handle_key(&EditorKey::ArrowRight));
    assert!(ed.accepts_key(&EditorKey::Backspace));
    assert!(ed.handle_key(&EditorKey::ArrowRight));
    // byte 1 lies inside the two bytes of 'é'
    assert!(!ed.accepts_key(&EditorKey::Backspace));
    assert!(ed.handle_key(&EditorKey::ArrowRight));
    assert!(ed.accepts_key(&EditorKey::Backspace));
    assert!(ed.handle_key(&EditorKey::Backspace));
    assert_eq!(ed.plain_text(), "é");
    assert_eq!(ed.cursor_pos(), 3);
    assert!(ed.handle_key(&EditorKey::ArrowLeft));
    assert!(ed.handle_key(&EditorKey::ArrowLeft));
    assert!(ed.handle_key(&EditorKey::Backspace));
    assert_eq!(ed.plain_text(), "");
    assert_eq!(ed.cursor_pos(), 0);
}

#[test]
fn editor_style_toggles() {
    let mut ed = RichTextEditor::default();
    ed.toggle_bold();
    ed.toggle_italic();
    ed.toggle_underline();
    let s = ed.current_style();
    assert_eq!(s.font_weight, FontWeight::Bold);
    assert!(s.italic);
    assert_eq!(s.decoration, TextDecoration::Underline);
    ed.toggle_bold();
    ed.toggle_italic();
    ed.toggle_underline();
    assert_eq!(ed.current_style(), SpanStyle::new());
}
