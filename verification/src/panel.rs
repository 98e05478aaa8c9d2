//! The control state of a panel driven by held keys and corner buttons:
//! hold R to resize, M to move, C to cycle colour presets, Escape to let go;
//! and the drag gesture of draggable windows and resize handles.
//! Where the panel is and how big it is stays with the caller, which
//! carries out the moves and resizes that the decisions here ask for.

use vstd::prelude::*;
use crate::kinds::PanelControlMode;

verus! {

/// How many colour presets a panel cycles through.
pub const PANEL_PRESET_COUNT: usize = 6;

/// Small control button on a panel corner.
#[derive(Clone, Copy, Debug, PartialEq, Eq, Structural)]
pub struct ControlButton {
    pub mode: PanelControlMode,
    pub hovered: bool,
    pub active: bool,
}

impl ControlButton {
    pub fn new(mode: PanelControlMode) -> (r: Self)
        ensures
            r == (ControlButton { mode, hovered: false, active: false }),
    {
        ControlButton { mode, hovered: false, active: false }
    }

    /// Get icon for this button
    pub fn icon(&self) -> (r: &'static str)
        ensures
            r@ == match self.mode {
                PanelControlMode::Idle => ""@,
                PanelControlMode::Resize => "⤡"@,
                PanelControlMode::Move => "✥"@,
                PanelControlMode::Color => "◐"@,
            },
    {
        self.mode.button_icon()
    }
}

/// An arrow key.
#[derive(Clone, Copy, Debug, PartialEq, Eq, Structural)]
pub enum ArrowKey {
    Up,
    Down,
    Left,
    Right,
}

/// What happened, as the panel reads it. `Press` and `Release` are the left
/// mouse button; `Press` names the first corner button under the pointer,
/// if any. `ModeKey` is R, M or C (either case).
#[derive(Clone, Copy, Debug, PartialEq, Eq, Structural)]
pub enum PanelInput {
    Press { button: Option<usize> },
    Release,
    CursorMoved,
    ModeKey { mode: PanelControlMode, pressed: bool },
    Arrow { key: ArrowKey, pressed: bool },
    Escape { pressed: bool },
    OtherKey,
    Other,
}

/// What the caller is to do with the panel's geometry.
#[derive(Clone, Copy, Debug, PartialEq, Eq, Structural)]
pub enum PanelAction {
    /// Nothing to move or resize.
    Keep,
    /// Remember the pointer, position and size a drag starts from.
    StartDrag,
    /// Put the panel at its drag start moved by the pointer's travel.
    DragMove,
    /// Give the panel its drag start size grown by the pointer's travel,
    /// within its limits.
    DragResize,
    /// Move the panel one step in the arrow's direction.
    StepMove(ArrowKey),
    /// Resize the panel one step in the arrow's direction, within limits.
    StepResize(ArrowKey),
}

/// The panel's answer to an input: it took the input and asks for an
/// action, or it passes the input on to its content.
#[derive(Clone, Copy, Debug, PartialEq, Eq, Structural)]
pub enum PanelResponse {
    Handled(PanelAction),
    Forward,
}

/// The control state of a panel: its colour preset, the mode the held key
/// or pressed button set, its three corner buttons (resize, move, colour),
/// whether the controls show, whether it is selected and whether a drag is
/// under way.
pub struct ControllablePanel {
    pub preset_index: usize,
    pub control_mode: PanelControlMode,
    pub buttons: Vec<ControlButton>,
    pub show_controls: bool,
    pub selected: bool,
    pub dragging: bool,
}

/// The buttons after the one at `b` was pressed (`b` outside the buttons:
/// none changes).
pub open spec fn pressed_buttons(before: Seq<ControlButton>, b: int) -> Seq<ControlButton> {
    if 0 <= b < before.len() {
        before.update(b, ControlButton { active: true, ..before[b] })
    } else {
        before
    }
}

/// The buttons after the mouse button was let go: none is active.
pub open spec fn released_buttons(before: Seq<ControlButton>) -> Seq<ControlButton> {
    Seq::new(before.len(), |k: int| ControlButton { active: false, ..before[k] })
}

/// The mode an arrow key acts in: moving or resizing.
pub open spec fn arrow_action(mode: PanelControlMode, key: ArrowKey) -> Option<PanelAction> {
    match mode {
        PanelControlMode::Resize => Some(PanelAction::StepResize(key)),
        PanelControlMode::Move => Some(PanelAction::StepMove(key)),
        _ => None,
    }
}

impl ControllablePanel {
    pub fn new() -> (r: Self)
        ensures
            r.preset_index == 0,
            r.control_mode == PanelControlMode::Idle,
            r.buttons@ == seq![
                ControlButton { mode: PanelControlMode::Resize, hovered: false, active: false },
                ControlButton { mode: PanelControlMode::Move, hovered: false, active: false },
                ControlButton { mode: PanelControlMode::Color, hovered: false, active: false },
            ],
            !r.show_controls,
            !r.selected,
            !r.dragging,
    {
        let mut buttons = Vec::new();
        buttons.push(ControlButton::new(PanelControlMode::Resize));
        buttons.push(ControlButton::new(PanelControlMode::Move));
        buttons.push(ControlButton::new(PanelControlMode::Color));
        ControllablePanel {
            preset_index: 0,
            control_mode: PanelControlMode::Idle,
            buttons,
            show_controls: false,
            selected: false,
            dragging: false,
        }
    }

    /// Cycle to next color preset
    pub fn cycle_color(&mut self)
        ensures
            final(self).preset_index == next_preset(old(self).preset_index as int),
            final(self).control_mode == old(self).control_mode,
            final(self).buttons == old(self).buttons,
            final(self).show_controls == old(self).show_controls,
            final(self).selected == old(self).selected,
            final(self).dragging == old(self).dragging,
    {
        self.preset_index = (self.preset_index % PANEL_PRESET_COUNT + 1) % PANEL_PRESET_COUNT;
    }

    /// Whether an input can be taken: a pressed corner button is one of
    /// the panel's.
    pub open spec fn input_valid(&self, input: PanelInput) -> bool {
        input matches PanelInput::Press { button: Some(b) } ==> b < self.buttons@.len()
    }

    /// The decisions of the panel's event handling. `inside` tells whether
    /// the pointer is over the panel. The controls show while the pointer
    /// is inside or the panel is selected (as it was before this input).
    pub fn handle_input(&mut self, inside: bool, input: PanelInput) -> (r: PanelResponse)
        requires
            old(self).input_valid(input),
        ensures
            final(self).show_controls == (inside || old(self).selected),
            match input {
                PanelInput::Press { button } => if inside {
                    &&& final(self).selected
                    &&& match button {
                        Some(b) => {
                            &&& r == PanelResponse::Handled(PanelAction::Keep)
                            &&& final(self).buttons@ == pressed_buttons(old(self).buttons@, b as int)
                            &&& final(self).control_mode == old(self).buttons@[b as int].mode
                            &&& final(self).dragging == old(self).dragging
                        },
                        None => {
                            &&& final(self).buttons@ == old(self).buttons@
                            &&& final(self).control_mode == old(self).control_mode
                            &&& if old(self).control_mode != PanelControlMode::Idle {
                                r == PanelResponse::Handled(PanelAction::StartDrag)
                                    && final(self).dragging
                            } else {
                                r == PanelResponse::Handled(PanelAction::Keep)
                                    && final(self).dragging == old(self).dragging
                            }
                        },
                    }
                    &&& final(self).preset_index == old(self).preset_index
                } else {
                    r == PanelResponse::Forward && unchanged_but_display(*old(self), *final(self))
                },
                PanelInput::Release => {
                    &&& r == PanelResponse::Forward
                    &&& !final(self).dragging
                    &&& final(self).buttons@ == released_buttons(old(self).buttons@)
                    &&& final(self).selected == old(self).selected
                    &&& final(self).control_mode == old(self).control_mode
                    &&& final(self).preset_index == old(self).preset_index
                },
                PanelInput::CursorMoved => {
                    &&& unchanged_but_display(*old(self), *final(self))
                    &&& r == if old(self).dragging && old(self).control_mode == PanelControlMode::Move {
                        PanelResponse::Handled(PanelAction::DragMove)
                    } else if old(self).dragging && old(self).control_mode
                        == PanelControlMode::Resize {
                        PanelResponse::Handled(PanelAction::DragResize)
                    } else {
                        PanelResponse::Forward
                    }
                },
                PanelInput::ModeKey { mode, pressed } => {
                    &&& final(self).selected == old(self).selected
                    &&& final(self).buttons == old(self).buttons
                    &&& final(self).dragging == old(self).dragging
                    &&& if pressed && old(self).selected {
                        &&& r == PanelResponse::Handled(PanelAction::Keep)
                        &&& final(self).control_mode == mode
                        &&& final(self).preset_index == if mode == PanelControlMode::Color {
                            next_preset(old(self).preset_index as int) as usize
                        } else {
                            old(self).preset_index
                        }
                    } else if pressed {
                        r == PanelResponse::Forward && final(self).control_mode
                            == old(self).control_mode && final(self).preset_index
                            == old(self).preset_index
                    } else {
                        r == PanelResponse::Forward && final(self).control_mode
                            == PanelControlMode::Idle && final(self).preset_index
                            == old(self).preset_index
                    }
                },
                PanelInput::Arrow { key, pressed } => {
                    &&& unchanged_but_display(*old(self), *final(self))
                    &&& r == if pressed && old(self).selected && arrow_action(
                        old(self).control_mode,
                        key,
                    ) is Some {
                        PanelResponse::Handled(arrow_action(old(self).control_mode, key)->0)
                    } else {
                        PanelResponse::Forward
                    }
                },
                PanelInput::Escape { pressed } => if pressed && old(self).selected {
                    &&& r == PanelResponse::Handled(PanelAction::Keep)
                    &&& !final(self).selected
                    &&& final(self).control_mode == PanelControlMode::Idle
                    &&& final(self).buttons == old(self).buttons
                    &&& final(self).dragging == old(self).dragging
                    &&& final(self).preset_index == old(self).preset_index
                } else {
                    r == PanelResponse::Forward && unchanged_but_display(*old(self), *final(self))
                },
                PanelInput::OtherKey | PanelInput::Other => {
                    r == PanelResponse::Forward && unchanged_but_display(*old(self), *final(self))
                },
            },
    {
        self.show_controls = inside || self.selected;
        match input {
            PanelInput::Press { button } => {
                if !inside {
                    return PanelResponse::Forward;
                }
                self.selected = true;
                match button {
                    Some(b) => {
                        let mut btn = self.buttons.remove(b);
                        btn.active = true;
                        let mode = btn.mode;
                        self.buttons.insert(b, btn);
                        proof {
                            assert(self.buttons@ =~= pressed_buttons(old(self).buttons@, b as int));
                        }
                        self.control_mode = mode;
                        PanelResponse::Handled(PanelAction::Keep)
                    },
                    None => {
                        if self.control_mode != PanelControlMode::Idle {
                            self.dragging = true;
                            PanelResponse::Handled(PanelAction::StartDrag)
                        } else {
                            PanelResponse::Handled(PanelAction::Keep)
                        }
                    },
                }
            },
            PanelInput::Release => {
                self.dragging = false;
                let mut k: usize = 0;
                let ghost before = self.buttons@;
                while k < self.buttons.len()
                    invariant
                        self.buttons@.len() == before.len(),
                        !self.dragging,
                        self.show_controls == (inside || old(self).selected),
                        self.selected == old(self).selected,
                        self.control_mode == old(self).control_mode,
                        self.preset_index == old(self).preset_index,
                        k <= before.len(),
                        forall|j: int|
                            0 <= j < k ==> #[trigger] self.buttons@[j] == (ControlButton {
                                active: false,
                                ..before[j]
                            }),
                        forall|j: int| k <= j < before.len() ==> #[trigger] self.buttons@[j] == before[j],
                    decreases before.len() - k,
                {
                    let mut btn = self.buttons.remove(k);
                    btn.active = false;
                    self.buttons.insert(k, btn);
                    k = k + 1;
                }
                proof {
                    assert(self.buttons@ =~= released_buttons(before));
                }
                PanelResponse::Forward
            },
            PanelInput::CursorMoved => {
                if self.dragging {
                    match self.control_mode {
                        PanelControlMode::Move => PanelResponse::Handled(PanelAction::DragMove),
                        PanelControlMode::Resize => PanelResponse::Handled(PanelAction::DragResize),
                        _ => PanelResponse::Forward,
                    }
                } else {
                    PanelResponse::Forward
                }
            },
            PanelInput::ModeKey { mode, pressed } => {
                if pressed {
                    if self.selected {
                        self.control_mode = mode;
                        if mode == PanelControlMode::Color {
                            self.cycle_color();
                        }
                        PanelResponse::Handled(PanelAction::Keep)
                    } else {
                        PanelResponse::Forward
                    }
                } else {
                    self.control_mode = PanelControlMode::Idle;
                    PanelResponse::Forward
                }
            },
            PanelInput::Arrow { key, pressed } => {
                if self.selected && pressed {
                    match self.control_mode {
                        PanelControlMode::Resize => PanelResponse::Handled(PanelAction::StepResize(key)),
                        PanelControlMode::Move => PanelResponse::Handled(PanelAction::StepMove(key)),
                        _ => PanelResponse::Forward,
                    }
                } else {
                    PanelResponse::Forward
                }
            },
            PanelInput::Escape { pressed } => {
                if pressed && self.selected {
                    self.selected = false;
                    self.control_mode = PanelControlMode::Idle;
                    PanelResponse::Handled(PanelAction::Keep)
                } else {
                    PanelResponse::Forward
                }
            },
            PanelInput::OtherKey | PanelInput::Other => PanelResponse::Forward,
        }
    }
}

/// The preset after one colour step.
pub open spec fn next_preset(i: int) -> int {
    (i + 1) % (PANEL_PRESET_COUNT as int)
}

/// Stepping through the colour presets once for each of them comes back
/// to the preset one started from.
pub proof fn lemma_color_cycle_returns(i: int)
    requires
        0 <= i < PANEL_PRESET_COUNT,
    ensures
        next_preset(next_preset(next_preset(next_preset(next_preset(next_preset(i)))))) == i,
        forall|k: int| 0 <= k < PANEL_PRESET_COUNT ==> 0 <= #[trigger] next_preset(k) < PANEL_PRESET_COUNT,
{
}

/// `after` differs from `before` at most in whether the controls show.
pub open spec fn unchanged_but_display(before: ControllablePanel, after: ControllablePanel) -> bool {
    &&& after.preset_index == before.preset_index
    &&& after.control_mode == before.control_mode
    &&& after.buttons == before.buttons
    &&& after.selected == before.selected
    &&& after.dragging == before.dragging
}

impl Default for ControllablePanel {
    fn default() -> (r: Self)
        ensures
            r.preset_index == 0,
            r.control_mode == PanelControlMode::Idle,
            r.buttons@ == seq![
                ControlButton { mode: PanelControlMode::Resize, hovered: false, active: false },
                ControlButton { mode: PanelControlMode::Move, hovered: false, active: false },
                ControlButton { mode: PanelControlMode::Color, hovered: false, active: false },
            ],
            !r.show_controls,
            !r.selected,
            !r.dragging,
    {
        Self::new()
    }
}

// ---------------------------------------------------------------------------
// dragging and resizing by the pointer
// ---------------------------------------------------------------------------

/// What a drag gesture reads of an event: the left button going down (on
/// the grab target or not), coming up, or anything else.
#[derive(Clone, Copy, Debug, PartialEq, Eq, Structural)]
pub enum DragInput {
    Press { on_target: bool },
    Release,
    Other,
}

/// What the caller is to do: start following the pointer (remember where
/// the pointer and the widget are), follow it (place the widget by the
/// pointer's travel), or leave the event.
#[derive(Clone, Copy, Debug, PartialEq, Eq, Structural)]
pub enum DragResponse {
    Start,
    Follow,
    Ignore,
}

/// The state of a drag by the pointer, as a draggable window or a resize
/// handle has it: whether a drag is under way.
pub struct DragGesture {
    pub active: bool,
}

impl DragGesture {
    pub fn new() -> (r: Self)
        ensures
            !r.active,
    {
        DragGesture { active: false }
    }

    /// A press on the target starts a drag; releasing the button ends it;
    /// while a drag is under way every other event moves the widget with
    /// the pointer. `Start` and `Follow` consume the event.
    pub fn handle(&mut self, input: DragInput) -> (r: DragResponse)
        ensures
            r == match input {
                DragInput::Press { on_target: true } => DragResponse::Start,
                DragInput::Release => DragResponse::Ignore,
                _ => if old(self).active {
                    DragResponse::Follow
                } else {
                    DragResponse::Ignore
                },
            },
            final(self).active == match input {
                DragInput::Press { on_target: true } => true,
                DragInput::Release => false,
                _ => old(self).active,
            },
    {
        match input {
            DragInput::Press { on_target } => {
                if on_target {
                    self.active = true;
                    return DragResponse::Start;
                }
            },
            DragInput::Release => {
                self.active = false;
            },
            DragInput::Other => {},
        }
        if self.active {
            DragResponse::Follow
        } else {
            DragResponse::Ignore
        }
    }
}

impl Default for DragGesture {
    fn default() -> (r: Self)
        ensures
            !r.active,
    {
        DragGesture::new()
    }
}

} // verus!
