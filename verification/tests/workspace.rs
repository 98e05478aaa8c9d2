use glassui::workspace::WorkspaceManager;

#[test]
fn workspaces_switch_within_range() {
    let mut m = WorkspaceManager::new("Default".to_string());
    assert_eq!(m.active(), "Default");
    m.add_workspace("Second".to_string());
    assert_eq!(m.active(), "Default");
    m.switch_to(1);
    assert_eq!(m.active(), "Second");
    m.switch_to(7);
    assert_eq!(m.active(), "Second");
    m.active_mut().push('!');
    assert_eq!(m.all(), &["Default".to_string(), "Second!".to_string()]);
}
