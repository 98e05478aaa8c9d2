//! Form controls: text fields, drop-downs, radio groups, checkboxes and
//! toggle switches, as state and the decisions their pointer and key
//! events make.

use vstd::prelude::*;
use vstd::string::StringExecFns;
use crate::text::{owned, is_control, first_char, string_pop};

verus! {

/// The option at `index`, if there is one.
pub open spec fn option_at(options: Seq<String>, index: int) -> Option<Seq<char>> {
    if 0 <= index < options.len() {
        Some(options[index]@)
    } else {
        None
    }
}

// ---------------------------------------------------------------------------
// text field
// ---------------------------------------------------------------------------

/// Keys a text field reacts to while focused.
pub enum TextKey {
    Backspace,
    /// A key that produced this text.
    Text(String),
    /// Any other key.
    Other,
}

/// Single-line text field
pub struct TextInput {
    pub text: String,
    pub placeholder: String,
    pub focused: bool,
    pub cursor_visible: bool,
}

impl TextInput {
    pub fn new(placeholder: &str) -> (r: Self)
        ensures
            r.text@ == Seq::<char>::empty(),
            r.placeholder@ == placeholder@,
            !r.focused,
            r.cursor_visible,
    {
        TextInput {
            text: String::new(),
            placeholder: owned(placeholder),
            focused: false,
            cursor_visible: true,
        }
    }

    pub fn with_text(self, text: &str) -> (r: Self)
        ensures
            r == (TextInput { text: r.text, ..self }),
            r.text@ == text@,
    {
        let mut t = self;
        t.text = owned(text);
        t
    }

    pub fn get_text(&self) -> (r: &str)
        ensures
            r@ == self.text@,
    {
        self.text.as_str()
    }

    pub fn set_text(&mut self, text: &str)
        ensures
            *final(self) == (TextInput { text: final(self).text, ..*old(self) }),
            final(self).text@ == text@,
    {
        self.text = owned(text);
    }

    /// A left click inside the field focuses it (consumed); outside it
    /// unfocuses it (not consumed).
    pub fn click(&mut self, inside: bool) -> (consumed: bool)
        ensures
            consumed == inside,
            *final(self) == (TextInput { focused: inside, ..*old(self) }),
    {
        self.focused = inside;
        inside
    }

    /// A pressed key: Backspace deletes the last character, text whose
    /// first character is not a control character is appended.
    pub fn handle_key(&mut self, key: TextKey) -> (consumed: bool)
        ensures
            final(self).placeholder == old(self).placeholder,
            final(self).focused == old(self).focused,
            final(self).cursor_visible == old(self).cursor_visible,
            !old(self).focused ==> !consumed && final(self).text == old(self).text,
            old(self).focused ==> match key {
                TextKey::Backspace => consumed && final(self).text@ == if old(self).text@.len() > 0 {
                    old(self).text@.drop_last()
                } else {
                    old(self).text@
                },
                TextKey::Text(t) => if t@.len() > 0 && !is_control(t@[0]) {
                    consumed && final(self).text@ == old(self).text@ + t@
                } else {
                    !consumed && final(self).text == old(self).text
                },
                TextKey::Other => !consumed && final(self).text == old(self).text,
            },
    {
        if !self.focused {
            return false;
        }
        match key {
            TextKey::Backspace => {
                let _ = string_pop(&mut self.text);
                true
            },
            TextKey::Text(t) => {
                match first_char(t.as_str()) {
                    Some(c) => {
                        if !crate::text::char_is_control(c) {
                            self.text.append(t.as_str());
                            true
                        } else {
                            false
                        }
                    },
                    None => false,
                }
            },
            TextKey::Other => false,
        }
    }

    /// The cursor blink reached its half period: a focused field flips
    /// the cursor; an unfocused one hides it.
    pub fn blink(&mut self)
        ensures
            *final(self) == (TextInput {
                cursor_visible: old(self).focused && !old(self).cursor_visible,
                ..*old(self)
            }),
    {
        if self.focused {
            self.cursor_visible = !self.cursor_visible;
        } else {
            self.cursor_visible = false;
        }
    }
}

// ---------------------------------------------------------------------------
// drop-down
// ---------------------------------------------------------------------------

/// Where a left click on a drop-down landed.
#[derive(Clone, Copy, Debug, PartialEq, Eq, Structural)]
pub enum DropdownTarget {
    /// The closed box showing the choice.
    Header,
    /// The open list of options.
    List,
    /// Anywhere else.
    Outside,
}

/// Dropdown select box
pub struct Dropdown {
    pub options: Vec<String>,
    pub selected_index: usize,
    pub open: bool,
    pub hovered_index: Option<usize>,
}

impl Dropdown {
    pub fn new(options: Vec<String>) -> (r: Self)
        ensures
            r.options == options,
            r.selected_index == 0,
            !r.open,
            r.hovered_index is None,
    {
        Dropdown { options, selected_index: 0, open: false, hovered_index: None }
    }

    pub fn with_selected(self, index: usize) -> (r: Self)
        ensures
            r == if index < self.options@.len() {
                Dropdown { selected_index: index, ..self }
            } else {
                self
            },
    {
        let mut d = self;
        if index < d.options.len() {
            d.selected_index = index;
        }
        d
    }

    pub fn selected(&self) -> (r: Option<&str>)
        ensures
            match r {
                Some(s) => option_at(self.options@, self.selected_index as int) == Some(s@),
                None => option_at(self.options@, self.selected_index as int) is None,
            },
    {
        if self.selected_index < self.options.len() {
            Some(self.options[self.selected_index].as_str())
        } else {
            None
        }
    }

    /// The pointer is over row `row` of the open list, or (`None`) not over
    /// the list. A row past the last option keeps the previous hover.
    pub fn point_at(&mut self, row: Option<usize>)
        ensures
            *final(self) == (Dropdown {
                hovered_index: match row {
                    Some(i) => if i < old(self).options@.len() {
                        Some(i)
                    } else {
                        old(self).hovered_index
                    },
                    None => None,
                },
                ..*old(self)
            }),
    {
        match row {
            Some(i) => {
                if i < self.options.len() {
                    self.hovered_index = Some(i);
                }
            },
            None => {
                self.hovered_index = None;
            },
        }
    }

    /// A left click: the header opens or closes the list, a hovered option
    /// of the open list is chosen (closing it), a click elsewhere closes
    /// it. Returns whether the click was consumed.
    pub fn click(&mut self, target: DropdownTarget) -> (consumed: bool)
        ensures
            match target {
                DropdownTarget::Header => consumed && *final(self) == (Dropdown {
                    open: !old(self).open,
                    ..*old(self)
                }),
                DropdownTarget::List => match old(self).hovered_index {
                    Some(i) => consumed && *final(self) == (Dropdown {
                        selected_index: i,
                        open: false,
                        ..*old(self)
                    }),
                    None => !consumed && *final(self) == *old(self),
                },
                DropdownTarget::Outside => !consumed && *final(self) == (Dropdown {
                    open: false,
                    ..*old(self)
                }),
            },
    {
        match target {
            DropdownTarget::Header => {
                self.open = !self.open;
                true
            },
            DropdownTarget::List => {
                if let Some(index) = self.hovered_index {
                    self.selected_index = index;
                    self.open = false;
                    true
                } else {
                    false
                }
            },
            DropdownTarget::Outside => {
                self.open = false;
                false
            },
        }
    }
}

// ---------------------------------------------------------------------------
// radio group
// ---------------------------------------------------------------------------

/// Mutually exclusive options
pub struct RadioGroup {
    pub options: Vec<String>,
    pub selected_index: usize,
    pub hovered_index: Option<usize>,
}

impl RadioGroup {
    pub fn new(options: Vec<String>) -> (r: Self)
        ensures
            r.options == options,
            r.selected_index == 0,
            r.hovered_index is None,
    {
        RadioGroup { options, selected_index: 0, hovered_index: None }
    }

    pub fn with_selected(self, index: usize) -> (r: Self)
        ensures
            r == if index < self.options@.len() {
                RadioGroup { selected_index: index, ..self }
            } else {
                self
            },
    {
        let mut g = self;
        if index < g.options.len() {
            g.selected_index = index;
        }
        g
    }

    pub fn selected(&self) -> (r: Option<&str>)
        ensures
            match r {
                Some(s) => option_at(self.options@, self.selected_index as int) == Some(s@),
                None => option_at(self.options@, self.selected_index as int) is None,
            },
    {
        if self.selected_index < self.options.len() {
            Some(self.options[self.selected_index].as_str())
        } else {
            None
        }
    }

    /// The pointer is over row `row` of the group, or (`None`) outside it;
    /// a row past the last option hovers nothing.
    pub fn point_at(&mut self, row: Option<usize>)
        ensures
            *final(self) == (RadioGroup {
                hovered_index: match row {
                    Some(i) => if i < old(self).options@.len() {
                        Some(i)
                    } else {
                        None
                    },
                    None => None,
                },
                ..*old(self)
            }),
    {
        self.hovered_index = match row {
            Some(i) => if i < self.options.len() {
                Some(i)
            } else {
                None
            },
            None => None,
        };
    }

    /// A left click selects the hovered option; returns whether it was
    /// consumed.
    pub fn click(&mut self) -> (consumed: bool)
        ensures
            match old(self).hovered_index {
                Some(i) => consumed && *final(self) == (RadioGroup { selected_index: i, ..*old(self) }),
                None => !consumed && *final(self) == *old(self),
            },
    {
        if let Some(index) = self.hovered_index {
            self.selected_index = index;
            true
        } else {
            false
        }
    }
}

// ---------------------------------------------------------------------------
// checkbox and toggle
// ---------------------------------------------------------------------------

/// Checkbox with a label
pub struct Checkbox {
    pub checked: bool,
    pub label: String,
    pub hovered: bool,
}

impl Checkbox {
    pub fn new(label: &str, checked: bool) -> (r: Self)
        ensures
            r.checked == checked,
            r.label@ == label@,
            !r.hovered,
    {
        Checkbox { checked, label: owned(label), hovered: false }
    }

    pub fn is_checked(&self) -> (r: bool)
        ensures
            r == self.checked,
    {
        self.checked
    }

    /// The pointer moved; `inside` tells whether it is over the box or its
    /// label.
    pub fn point_at(&mut self, inside: bool)
        ensures
            *final(self) == (Checkbox { hovered: inside, ..*old(self) }),
    {
        self.hovered = inside;
    }

    /// A left click on the box or its label flips it; returns whether it
    /// was consumed.
    pub fn click(&mut self, inside: bool) -> (consumed: bool)
        ensures
            consumed == inside,
            *final(self) == (Checkbox {
                checked: if inside {
                    !old(self).checked
                } else {
                    old(self).checked
                },
                ..*old(self)
            }),
    {
        if inside {
            self.checked = !self.checked;
            true
        } else {
            false
        }
    }
}

/// A push button: its text and whether the pointer is over it and the
/// left button is held on it. A click is a press and a release both over
/// the button; the caller runs the button's action on a click.
pub struct Button {
    pub text: String,
    pub hovered: bool,
    pub pressed: bool,
}

impl Button {
    pub fn new(text: &str) -> (r: Self)
        ensures
            r.text@ == text@,
            !r.hovered,
            !r.pressed,
    {
        Button { text: owned(text), hovered: false, pressed: false }
    }

    /// The pointer moved; `inside` tells whether it is over the button.
    pub fn point_at(&mut self, inside: bool)
        ensures
            *final(self) == (Button { hovered: inside, ..*old(self) }),
    {
        self.hovered = inside;
    }

    /// The left button went down; returns whether it was consumed (when
    /// over the button).
    pub fn press(&mut self, inside: bool) -> (consumed: bool)
        ensures
            consumed == inside,
            *final(self) == (Button {
                hovered: inside,
                pressed: if inside {
                    true
                } else {
                    old(self).pressed
                },
                ..*old(self)
            }),
    {
        self.hovered = inside;
        if inside {
            self.pressed = true;
            true
        } else {
            false
        }
    }

    /// The left button came up (the event itself is not consumed); returns
    /// whether this completes a click, so that the button's action runs.
    pub fn release(&mut self, inside: bool) -> (clicked: bool)
        ensures
            clicked == (old(self).pressed && inside),
            *final(self) == (Button { hovered: inside, pressed: false, ..*old(self) }),
    {
        self.hovered = inside;
        let clicked = self.pressed && inside;
        self.pressed = false;
        clicked
    }
}

/// iOS-style toggle switch: it flips when a press that started on the
/// track is released on it.
pub struct Toggle {
    pub checked: bool,
    pub label: String,
    pub hovered: bool,
    pub pressed: bool,
}

impl Toggle {
    pub fn new(label: &str, checked: bool) -> (r: Self)
        ensures
            r.checked == checked,
            r.label@ == label@,
            !r.hovered,
            !r.pressed,
    {
        Toggle { checked, label: owned(label), hovered: false, pressed: false }
    }

    pub fn is_checked(&self) -> (r: bool)
        ensures
            r == self.checked,
    {
        self.checked
    }

    /// The pointer moved; `inside` tells whether it is over the track.
    pub fn point_at(&mut self, inside: bool)
        ensures
            *final(self) == (Toggle { hovered: inside, ..*old(self) }),
    {
        self.hovered = inside;
    }

    /// The left button went down; returns whether it was consumed.
    pub fn press(&mut self, inside: bool) -> (consumed: bool)
        ensures
            consumed == inside,
            *final(self) == (Toggle {
                pressed: if inside {
                    true
                } else {
                    old(self).pressed
                },
                ..*old(self)
            }),
    {
        if inside {
            self.pressed = true;
            true
        } else {
            false
        }
    }

    /// The left button came up: the switch flips if the press began on the
    /// track and ends there. Returns whether it flipped.
    pub fn release(&mut self, inside: bool) -> (flipped: bool)
        ensures
            flipped == (old(self).pressed && inside),
            *final(self) == (Toggle {
                checked: if flipped {
                    !old(self).checked
                } else {
                    old(self).checked
                },
                pressed: false,
                ..*old(self)
            }),
    {
        let flipped = self.pressed && inside;
        if flipped {
            self.checked = !self.checked;
        }
        self.pressed = false;
        flipped
    }
}

} // verus!
