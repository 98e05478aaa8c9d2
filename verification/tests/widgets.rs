use glassui::chat::ChatView;
use glassui::tabs::{Tab, TabView};
use glassui::kinds::IdCounter;
use glassui::timeline::{Timeline, TimelineEntry, TimelineEntryType};
use glassui::tree::{FileNode, FileTree};

#[test]
fn test_entry_types() {
    let mut ids = IdCounter::new();
    let entry = TimelineEntry::milestone(&mut ids, "Release", "today").completed();

    assert!(entry.completed);
    assert_eq!(entry.entry_type, TimelineEntryType::Milestone);
}

#[test]
fn test_timeline() {
    let mut ids = IdCounter::new();
    let mut timeline = Timeline::new();
    timeline.add_entry(TimelineEntry::task(&mut ids, "Test", "now"));
    timeline.prepend_entry(TimelineEntry::event(&mut ids, "Start", "ago"));

    assert_eq!(timeline.entries.len(), 2);
    assert_eq!(timeline.entries[0].title, "Start");
}

#[test]
fn test_tab_view() {
    let mut tabs = TabView::new();
    tabs.add_tab(Tab::new("home", "Home").with_icon("🏠"));
    tabs.add_tab(Tab::new("settings", "Settings").closeable());

    assert_eq!(tabs.tabs.len(), 2);
    assert_eq!(tabs.selected_index, 0);

    tabs.select(1);
    assert_eq!(tabs.selected_index, 1);
}

#[test]
fn test_tab_remove() {
    let mut tabs = TabView::new();
    tabs.add_tab(Tab::new("a", "A"));
    tabs.add_tab(Tab::new("b", "B"));
    tabs.select(1);

    tabs.remove_tab(1);
    assert_eq!(tabs.tabs.len(), 1);
    assert_eq!(tabs.selected_index, 0);
}

#[test]
fn test_tree_view() {
    let mut tree = FileTree::new();
    tree.add_node(FileNode::folder("root", "Root").with_children(vec![
        FileNode::file("child", "Child"),
    ]));

    assert_eq!(tree.nodes.len(), 1);
    assert!(tree.nodes[0].has_children());
}

#[test]
fn test_toggle() {
    let mut tree = FileTree::sample_file_tree();
    let initial = tree.nodes[0].expanded;
    tree.toggle("src");
    assert_ne!(tree.nodes[0].expanded, initial);
}

#[test]
fn test_chat_view() {
    let mut chat = ChatView::new();
    chat.add_user_message("Hello!");
    chat.add_assistant_message("Hi there!");

    assert_eq!(chat.messages.len(), 2);
}

#[test]
fn test_streaming() {
    let mut chat = ChatView::new();
    chat.start_streaming();
    chat.append_to_stream("Hello ");
    chat.append_to_stream("World!");
    chat.finish_streaming();

    assert_eq!(chat.messages[0].content, "Hello World!");
    assert!(!chat.messages[0].is_streaming);
}

#[test]
fn sample_timeline_ids_wrap() {
    let mut ids = IdCounter { next: u64::MAX - 1 };
    let timeline = Timeline::sample(&mut ids);
    let got: Vec<u64> = timeline.entries.iter().map(|e| e.id).collect();
    assert_eq!(got, vec![u64::MAX - 1, u64::MAX, 0, 1, 2]);
    assert_eq!(ids.next, 3);
}
