use glassui::command_palette::{Command, CommandPalette, PaletteKey};

#[test]
fn test_command_matching() {
    let cmd = Command::new("test", "Test Command")
        .with_description("A test command");

    assert!(cmd.matches("test"));
    assert!(cmd.matches("command"));
    assert!(!cmd.matches("xyz"));
}

#[test]
fn test_palette_filtering() {
    let mut palette = CommandPalette::new();
    palette.add_command(Command::new("save", "Save"));
    palette.add_command(Command::new("load", "Load"));
    palette.add_command(Command::new("new", "New"));

    palette.query = "sa".to_string();
    palette.update_filtered();

    assert_eq!(palette.filtered.len(), 1);
}
