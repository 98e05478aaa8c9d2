//! Context menus: items, hover and the click that runs an item.

use vstd::prelude::*;
use crate::text::owned;

verus! {

/// Something a menu item runs when clicked.
pub trait MenuAction {
    /// The action may be run now.
    spec fn ready(&self) -> bool;

    /// How many times the action has run.
    spec fn runs(&self) -> nat;

    fn run(&mut self)
        requires
            old(self).ready(),
        ensures
            final(self).runs() == old(self).runs() + 1,
    ;
}

/// A closure as a menu action, with the count of its calls.
pub struct ClosureAction<F: FnMut()> {
    pub f: F,
    pub calls: Ghost<nat>,
}

impl<F: FnMut()> MenuAction for ClosureAction<F> {
    open spec fn ready(&self) -> bool {
        call_requires(self.f, ())
    }

    open spec fn runs(&self) -> nat {
        self.calls@
    }

    /// Calls the closure once: what it returned is one of its possible
    /// outcomes from its state before the call.
    fn run(&mut self)
        ensures
            call_ensures(old(self).f, (), ()),
    {
        (self.f)();
        self.calls = Ghost(self.calls@ + 1);
    }
}

/// A single item in a context menu, with the action it runs when clicked
/// (of type `A`: one action type serves a whole menu; for closures of
/// different types, box them as `Box<dyn FnMut()>`).
pub struct MenuItem<A> {
    pub label: String,
    pub shortcut: Option<String>,
    pub on_click: Option<A>,
}

impl<A> MenuItem<A> {
    pub fn new(label: &str) -> (r: Self)
        ensures
            r.label@ == label@,
            r.shortcut is None,
            r.on_click is None,
    {
        MenuItem { label: owned(label), shortcut: None, on_click: None }
    }

    pub fn with_shortcut(self, shortcut: &str) -> (r: Self)
        ensures
            r.label == self.label,
            r.shortcut matches Some(s) && s@ == shortcut@,
            r.on_click == self.on_click,
    {
        let mut m = self;
        m.shortcut = Some(owned(shortcut));
        m
    }
}

impl<F: FnMut()> MenuItem<ClosureAction<F>> {
    /// Attaches a callback: the item's action calls it, has not run yet,
    /// and is ready to run whenever the closure can be called.
    pub fn with_callback(self, callback: F) -> (r: Self)
        ensures
            r.label == self.label,
            r.shortcut == self.shortcut,
            r.on_click matches Some(a) && a.f == callback && a.runs() == 0,
            r.on_click matches Some(a) && (a.ready() <==> call_requires(callback, ())),
    {
        MenuItem {
            label: self.label,
            shortcut: self.shortcut,
            on_click: Some(ClosureAction { f: callback, calls: Ghost(0) }),
        }
    }
}

/// The item at `i` had its action run once more (an item without one
/// stays without); its label and shortcut stay, and every other item is
/// unchanged.
pub open spec fn clicked_item_ran<A: MenuAction>(before: Seq<MenuItem<A>>, after: Seq<MenuItem<A>>, i: int) -> bool {
    &&& after.len() == before.len()
    &&& after[i].label == before[i].label
    &&& after[i].shortcut == before[i].shortcut
    &&& match before[i].on_click {
        Some(a) => after[i].on_click matches Some(b) && b.runs() == a.runs() + 1,
        None => after[i].on_click is None,
    }
    &&& forall|k: int| 0 <= k < before.len() && k != i ==> #[trigger] after[k] == before[k]
}

/// Popup context menu (right-click menu)
pub struct ContextMenu<A> {
    pub items: Vec<MenuItem<A>>,
    pub visible: bool,
    pub hovered_index: Option<usize>,
}

impl<A: MenuAction> ContextMenu<A> {
    pub fn new(items: Vec<MenuItem<A>>) -> (r: Self)
        ensures
            r.items == items,
            !r.visible,
            r.hovered_index is None,
    {
        ContextMenu { items, visible: false, hovered_index: None }
    }

    /// Show the menu (where it appears is the caller's business).
    pub fn show(&mut self)
        ensures
            final(self).items == old(self).items,
            final(self).hovered_index == old(self).hovered_index,
            final(self).visible,
    {
        self.visible = true;
    }

    /// Hide the menu.
    pub fn dismiss(&mut self)
        ensures
            final(self).items == old(self).items,
            final(self).hovered_index == old(self).hovered_index,
            !final(self).visible,
    {
        self.visible = false;
    }

    /// The pointer is over the open menu at row `row`, or (`None`) outside
    /// it; rows past the last item hover nothing.
    pub fn point_at(&mut self, row: Option<usize>)
        ensures
            final(self).items == old(self).items,
            final(self).visible == old(self).visible,
            final(self).hovered_index == match row {
                Some(i) => if i < old(self).items@.len() {
                    Some(i)
                } else {
                    None
                },
                None => None,
            },
    {
        self.hovered_index = match row {
            Some(i) => if i < self.items.len() {
                Some(i)
            } else {
                None
            },
            None => None,
        };
    }

    /// A left click while the menu may be open, `inside` it or not: a
    /// click on a hovered item runs that item's action and closes the
    /// menu, a click outside closes it. Returns whether the click was
    /// consumed.
    pub fn click(&mut self, inside: bool) -> (consumed: bool)
        requires
            old(self).visible && inside ==> (old(self).hovered_index matches Some(i) ==> i
                < old(self).items@.len()),
            old(self).visible && inside ==> (old(self).hovered_index matches Some(i)
                ==> (old(self).items@[i as int].on_click matches Some(a) ==> a.ready())),
        ensures
            final(self).hovered_index == old(self).hovered_index,
            final(self).items@.len() == old(self).items@.len(),
            !old(self).visible ==> (!consumed && final(self).items == old(self).items
                && !final(self).visible),
            old(self).visible ==> consumed,
            old(self).visible && !inside ==> (final(self).items == old(self).items
                && !final(self).visible),
            old(self).visible && inside && old(self).hovered_index is None ==> (final(self).items
                == old(self).items && final(self).visible),
            old(self).visible && inside && old(self).hovered_index is Some ==> !final(self).visible,
            old(self).visible && inside && old(self).hovered_index is Some ==> clicked_item_ran(
                old(self).items@,
                final(self).items@,
                old(self).hovered_index->0 as int,
            ),
            forall|k: int|
                0 <= k < old(self).items@.len() ==> (#[trigger] final(self).items@[k].label
                    == old(self).items@[k].label && final(self).items@[k].shortcut
                    == old(self).items@[k].shortcut),
    {
        if !self.visible {
            return false;
        }
        if inside {
            if let Some(index) = self.hovered_index {
                let ghost before = self.items@;
                let mut item = self.items.remove(index);
                let ghost old_item = item;
                if let Some(action) = &mut item.on_click {
                    action.run();
                }
                self.items.insert(index, item);
                proof {
                    assert(old_item == before[index as int]);
                    assert(self.items@ =~= before.update(index as int, self.items@[index as int]));
                }
                self.dismiss();
            }
            true
        } else {
            self.dismiss();
            true
        }
    }
}

/// Modal dialog over the whole screen: a title and whether it shows. Its
/// content belongs to the caller and gets the events over the dialog first.
pub struct Modal {
    pub visible: bool,
    pub title: String,
}

/// What reaches a shown modal after its content declined it.
#[derive(Clone, Copy, Debug, PartialEq, Eq, Structural)]
pub enum ModalInput {
    /// The left button went down; `in_modal` tells whether over the dialog.
    Press { in_modal: bool },
    /// The Escape key went down.
    Escape,
    Other,
}

impl Modal {
    pub fn new(title: &str) -> (r: Self)
        ensures
            !r.visible,
            r.title@ == title@,
    {
        Modal { visible: false, title: owned(title) }
    }

    pub fn show(&mut self)
        ensures
            *final(self) == (Modal { visible: true, ..*old(self) }),
    {
        self.visible = true;
    }

    /// Takes the modal off the screen.
    pub fn dismiss(&mut self)
        ensures
            *final(self) == (Modal { visible: false, ..*old(self) }),
    {
        self.visible = false;
    }

    /// Whether the modal's content is to get an event: only while the
    /// modal shows and the pointer is over it.
    pub fn content_gets_event(&self, in_modal: bool) -> (r: bool)
        ensures
            r == (self.visible && in_modal),
    {
        self.visible && in_modal
    }

    /// The modal's own handling of an event its content did not take: a
    /// press on the backdrop or Escape closes a shown modal, and a shown
    /// modal takes every event, closing or not. Returns whether the event
    /// was consumed.
    pub fn handle_input(&mut self, input: ModalInput) -> (consumed: bool)
        ensures
            final(self).title == old(self).title,
            consumed == old(self).visible,
            final(self).visible == (old(self).visible && match input {
                ModalInput::Press { in_modal } => in_modal,
                ModalInput::Escape => false,
                ModalInput::Other => true,
            }),
    {
        if !self.visible {
            return false;
        }
        match input {
            ModalInput::Press { in_modal } => {
                if !in_modal {
                    self.dismiss();
                }
            },
            ModalInput::Escape => {
                self.dismiss();
            },
            ModalInput::Other => {},
        }
        true
    }
}

} // verus!
