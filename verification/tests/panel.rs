use glassui::kinds::{grid_cell, PanelControlMode};
use glassui::panel::{ArrowKey, ControllablePanel, DragGesture, DragInput, DragResponse, PanelAction, PanelInput, PanelResponse};

#[test]
fn mode_keys_need_selection() {
    let mut p = ControllablePanel::new();
    let r = p.handle_input(false, PanelInput::ModeKey { mode: PanelControlMode::Move, pressed: true });
    assert_eq!(r, PanelResponse::Forward);
    assert_eq!(p.control_mode, PanelControlMode::Idle);
    assert!(!p.show_controls);

    assert_eq!(p.handle_input(true, PanelInput::Press { button: None }), PanelResponse::Handled(PanelAction::Keep));
    assert!(p.selected);
    assert!(p.show_controls);
    let r = p.handle_input(false, PanelInput::ModeKey { mode: PanelControlMode::Move, pressed: true });
    assert_eq!(r, PanelResponse::Handled(PanelAction::Keep));
    assert_eq!(p.control_mode, PanelControlMode::Move);
    assert!(p.show_controls);

    let r = p.handle_input(false, PanelInput::Arrow { key: ArrowKey::Left, pressed: true });
    assert_eq!(r, PanelResponse::Handled(PanelAction::StepMove(ArrowKey::Left)));

    let r = p.handle_input(false, PanelInput::ModeKey { mode: PanelControlMode::Move, pressed: false });
    assert_eq!(r, PanelResponse::Forward);
    assert_eq!(p.control_mode, PanelControlMode::Idle);
    let r = p.handle_input(false, PanelInput::Arrow { key: ArrowKey::Left, pressed: true });
    assert_eq!(r, PanelResponse::Forward);
}

#[test]
fn color_key_cycles_presets() {
    let mut p = ControllablePanel::new();
    p.handle_input(true, PanelInput::Press { button: None });
    for expected in [1usize, 2, 3, 4, 5, 0, 1] {
        p.handle_input(true, PanelInput::ModeKey { mode: PanelControlMode::Color, pressed: true });
        assert_eq!(p.preset_index, expected);
    }
    p.cycle_color();
    assert_eq!(p.preset_index, 2);
}

#[test]
fn buttons_drag_and_escape() {
    let mut p = ControllablePanel::new();
    assert_eq!(p.handle_input(true, PanelInput::Press { button: Some(0) }), PanelResponse::Handled(PanelAction::Keep));
    assert_eq!(p.control_mode, PanelControlMode::Resize);
    assert!(p.buttons[0].active);
    assert!(!p.buttons[1].active);
    assert_eq!(p.handle_input(true, PanelInput::Press { button: None }), PanelResponse::Handled(PanelAction::StartDrag));
    assert!(p.dragging);
    assert_eq!(p.handle_input(true, PanelInput::CursorMoved), PanelResponse::Handled(PanelAction::DragResize));
    assert_eq!(p.handle_input(true, PanelInput::Release), PanelResponse::Forward);
    assert!(!p.dragging);
    assert!(p.buttons.iter().all(|b| !b.active));
    assert_eq!(p.handle_input(true, PanelInput::CursorMoved), PanelResponse::Forward);
    assert_eq!(p.handle_input(false, PanelInput::Escape { pressed: true }), PanelResponse::Handled(PanelAction::Keep));
    assert!(!p.selected);
    assert_eq!(p.control_mode, PanelControlMode::Idle);
    assert_eq!(p.handle_input(false, PanelInput::Escape { pressed: true }), PanelResponse::Forward);
    assert_eq!(p.handle_input(false, PanelInput::Press { button: None }), PanelResponse::Forward);
    assert_eq!(p.buttons[2].icon(), "◐");
}

#[test]
fn grid_cells_fill_rows() {
    assert_eq!(grid_cell(0, 3, 2), Some((0, 0)));
    assert_eq!(grid_cell(4, 3, 2), Some((1, 1)));
    assert_eq!(grid_cell(6, 3, 2), None);
}

#[test]
fn drag_gesture_follows_until_release() {
    let mut g = DragGesture::new();
    assert_eq!(g.handle(DragInput::Other), DragResponse::Ignore);
    assert_eq!(g.handle(DragInput::Press { on_target: false }), DragResponse::Ignore);
    assert_eq!(g.handle(DragInput::Press { on_target: true }), DragResponse::Start);
    assert_eq!(g.handle(DragInput::Other), DragResponse::Follow);
    assert_eq!(g.handle(DragInput::Press { on_target: false }), DragResponse::Follow);
    assert_eq!(g.handle(DragInput::Release), DragResponse::Ignore);
    assert!(!g.active);
    assert_eq!(g.handle(DragInput::Other), DragResponse::Ignore);
}

#[test]
fn test_color_cycle() {
    // A panel's colour is its preset's tint, so the preset stands for the colour.
    let mut panel = ControllablePanel::new();
    let initial_preset = panel.preset_index;

    panel.cycle_color();
    assert_ne!(panel.preset_index, initial_preset);
}
