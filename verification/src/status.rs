//! Status bar items and the bar that updates them by id; the clock text
//! of media players.

use vstd::prelude::*;
use crate::text::{owned, str_eq, padded_int, push_padded_int, string_from_chars, decimal, decimal_chars};
use crate::kinds::{IdCounter, MetricTrend, ToastType};
use crate::chat::AgentState;

verus! {

/// Individual status item for the status bar
pub struct StatusItem {
    pub id: String,
    pub label: String,
    pub value: String,
    pub icon: Option<String>,
}

impl StatusItem {
    pub fn new(id: &str, label: &str, value: &str) -> (r: Self)
        ensures
            r.id@ == id@,
            r.label@ == label@,
            r.value@ == value@,
            r.icon is None,
    {
        StatusItem { id: owned(id), label: owned(label), value: owned(value), icon: None }
    }

    pub fn with_icon(self, icon: &str) -> (r: Self)
        ensures
            r == (StatusItem { icon: r.icon, ..self }),
            r.icon matches Some(i) && i@ == icon@,
    {
        let mut s = self;
        s.icon = Some(owned(icon));
        s
    }

    pub fn set_value(&mut self, value: &str)
        ensures
            *final(self) == (StatusItem { value: final(self).value, ..*old(self) }),
            final(self).value@ == value@,
    {
        self.value = owned(value);
    }
}

/// The position of the first item with the given id, if any.
pub open spec fn first_item_with_id(items: Seq<StatusItem>, id: Seq<char>) -> Option<int>
    decreases items.len(),
{
    if items.len() == 0 {
        None
    } else {
        match first_item_with_id(items.drop_last(), id) {
            Some(i) => Some(i),
            None => if items.last().id@ == id {
                Some(items.len() - 1)
            } else {
                None
            },
        }
    }
}

/// Once a prefix holds an item with the id, every longer prefix finds the
/// same first one.
pub proof fn lemma_first_item_prefix(items: Seq<StatusItem>, id: Seq<char>, k: int)
    requires
        0 <= k <= items.len(),
        first_item_with_id(items.take(k), id) is Some,
    ensures
        first_item_with_id(items, id) == first_item_with_id(items.take(k), id),
    decreases items.len(),
{
    if k == items.len() {
        assert(items.take(k) =~= items);
    } else {
        assert(items.drop_last().take(k) =~= items.take(k));
        lemma_first_item_prefix(items.drop_last(), id, k);
    }
}

/// Horizontal status bar with multiple status items
pub struct StatusBar {
    pub items: Vec<StatusItem>,
}

impl StatusBar {
    pub fn new() -> (r: Self)
        ensures
            r.items@.len() == 0,
    {
        StatusBar { items: Vec::new() }
    }

    /// Add a status item
    pub fn add_item(&mut self, item: StatusItem)
        ensures
            final(self).items@ == old(self).items@.push(item),
    {
        self.items.push(item);
    }

    /// Update the value of the first item with the given id, if any.
    pub fn update_item(&mut self, id: &str, value: &str)
        ensures
            final(self).items@.len() == old(self).items@.len(),
            match first_item_with_id(old(self).items@, id@) {
                Some(i) => {
                    &&& forall|k: int|
                        0 <= k < old(self).items@.len() && k != i ==> #[trigger] final(self).items@[k]
                            == old(self).items@[k]
                    &&& final(self).items@[i] == (StatusItem {
                        value: final(self).items@[i].value,
                        ..old(self).items@[i]
                    })
                    &&& final(self).items@[i].value@ == value@
                },
                None => final(self).items@ == old(self).items@,
            },
    {
        let mut i: usize = 0;
        while i < self.items.len()
            invariant
                *self == *old(self),
                i <= self.items@.len(),
                first_item_with_id(self.items@.take(i as int), id@) is None,
            decreases self.items@.len() - i,
        {
            proof {
                assert(self.items@.take(i + 1).drop_last() =~= self.items@.take(i as int));
            }
            if str_eq(self.items[i].id.as_str(), id) {
                proof {
                    lemma_first_item_prefix(self.items@, id@, i + 1);
                }
                let mut item = self.items.remove(i);
                item.set_value(value);
                self.items.insert(i, item);
                return;
            }
            i = i + 1;
        }
        proof {
            assert(self.items@.take(i as int) =~= self.items@);
        }
    }

    /// Create a common status bar for dashboards
    pub fn dashboard_default() -> (r: Self)
        ensures
            r.items@.len() == 5,
            r.items@[0].id@ == "time"@ && r.items@[0].label@ == "Time"@ && r.items@[0].value@
                == "00:00"@ && (r.items@[0].icon matches Some(i) && i@ == "🕐"@),
            r.items@[1].id@ == "cpu"@ && r.items@[1].label@ == "CPU"@ && r.items@[1].value@
                == "0%"@ && (r.items@[1].icon matches Some(i) && i@ == "💻"@),
            r.items@[2].id@ == "mem"@ && r.items@[2].label@ == "Mem"@ && r.items@[2].value@
                == "0%"@ && (r.items@[2].icon matches Some(i) && i@ == "🧠"@),
            r.items@[3].id@ == "tasks"@ && r.items@[3].label@ == "Tasks"@ && r.items@[3].value@
                == "0"@ && (r.items@[3].icon matches Some(i) && i@ == "📋"@),
            r.items@[4].id@ == "agents"@ && r.items@[4].label@ == "Agents"@ && r.items@[4].value@
                == "0"@ && (r.items@[4].icon matches Some(i) && i@ == "🤖"@),
    {
        let mut bar = Self::new();
        bar.add_item(StatusItem::new("time", "Time", "00:00").with_icon("🕐"));
        bar.add_item(StatusItem::new("cpu", "CPU", "0%").with_icon("💻"));
        bar.add_item(StatusItem::new("mem", "Mem", "0%").with_icon("🧠"));
        bar.add_item(StatusItem::new("tasks", "Tasks", "0").with_icon("📋"));
        bar.add_item(StatusItem::new("agents", "Agents", "0").with_icon("🤖"));
        bar
    }
}

impl Default for StatusBar {
    fn default() -> (r: Self)
        ensures
            r.items@.len() == 0,
    {
        Self::new()
    }
}

// ---------------------------------------------------------------------------
// toasts
// ---------------------------------------------------------------------------

/// Single toast notification. How long it stays up is kept by the caller's
/// clock; the toast knows whether it was dismissed.
pub struct Toast {
    pub id: u64,
    pub toast_type: ToastType,
    pub title: String,
    pub message: String,
    pub dismissed: bool,
}

/// The counter after handing out one id.
pub open spec fn counter_after(c: IdCounter) -> u64 {
    if c.next == u64::MAX {
        0
    } else {
        (c.next + 1) as u64
    }
}

/// `t` is a fresh toast with the given id, type, title and message.
pub open spec fn is_new_toast(t: Toast, id: u64, ty: ToastType, title: Seq<char>, message: Seq<char>) -> bool {
    t.id == id && t.toast_type == ty && t.title@ == title && t.message@ == message && !t.dismissed
}

impl Toast {
    /// A new toast; its id is the next one from `ids`.
    pub fn new(ids: &mut IdCounter, toast_type: ToastType, title: &str, message: &str) -> (r: Self)
        ensures
            is_new_toast(r, old(ids).next, toast_type, title@, message@),
            final(ids).next == counter_after(*old(ids)),
    {
        let id = ids.take();
        Toast { id, toast_type, title: owned(title), message: owned(message), dismissed: false }
    }

    pub fn info(ids: &mut IdCounter, title: &str, message: &str) -> (r: Self)
        ensures
            is_new_toast(r, old(ids).next, ToastType::Info, title@, message@),
            final(ids).next == counter_after(*old(ids)),
    {
        Self::new(ids, ToastType::Info, title, message)
    }

    pub fn success(ids: &mut IdCounter, title: &str, message: &str) -> (r: Self)
        ensures
            is_new_toast(r, old(ids).next, ToastType::Success, title@, message@),
            final(ids).next == counter_after(*old(ids)),
    {
        Self::new(ids, ToastType::Success, title, message)
    }

    pub fn warning(ids: &mut IdCounter, title: &str, message: &str) -> (r: Self)
        ensures
            is_new_toast(r, old(ids).next, ToastType::Warning, title@, message@),
            final(ids).next == counter_after(*old(ids)),
    {
        Self::new(ids, ToastType::Warning, title, message)
    }

    pub fn error(ids: &mut IdCounter, title: &str, message: &str) -> (r: Self)
        ensures
            is_new_toast(r, old(ids).next, ToastType::Error, title@, message@),
            final(ids).next == counter_after(*old(ids)),
    {
        Self::new(ids, ToastType::Error, title, message)
    }

    pub fn dismiss(&mut self)
        ensures
            *final(self) == (Toast { dismissed: true, ..*old(self) }),
    {
        self.dismissed = true;
    }
}

/// The toasts that were not dismissed, in their order.
pub open spec fn undismissed(s: Seq<Toast>) -> Seq<Toast>
    decreases s.len(),
{
    if s.len() == 0 {
        Seq::empty()
    } else if s.last().dismissed {
        undismissed(s.drop_last())
    } else {
        undismissed(s.drop_last()).push(s.last())
    }
}

/// Taking away dismissed toasts a second time changes nothing, and what
/// stays is never dismissed.
pub proof fn lemma_undismissed_idempotent(s: Seq<Toast>)
    ensures
        undismissed(undismissed(s)) == undismissed(s),
        forall|k: int| 0 <= k < undismissed(s).len() ==> !(#[trigger] undismissed(s)[k]).dismissed,
    decreases s.len(),
{
    if s.len() > 0 {
        lemma_undismissed_idempotent(s.drop_last());
        let u = undismissed(s.drop_last());
        if !s.last().dismissed {
            assert(u.push(s.last()).drop_last() =~= u);
        }
    }
}

/// Container that manages toast notifications, newest last; the first
/// `max_visible` of them are shown. It hands out the toasts' ids.
pub struct ToastContainer {
    pub toasts: Vec<Toast>,
    pub max_visible: usize,
    pub ids: IdCounter,
}

impl ToastContainer {
    pub fn new() -> (r: Self)
        ensures
            r.toasts@.len() == 0,
            r.max_visible == 5,
            r.ids.next == 1,
    {
        ToastContainer { toasts: Vec::new(), max_visible: 5, ids: IdCounter::new() }
    }

    /// Add a toast notification
    pub fn push(&mut self, toast: Toast)
        ensures
            *final(self) == (ToastContainer { toasts: final(self).toasts, ..*old(self) }),
            final(self).toasts@ == old(self).toasts@.push(toast),
    {
        self.toasts.push(toast);
    }

    /// Add a toast of the given type with the container's next id.
    fn push_new(&mut self, toast_type: ToastType, title: &str, message: &str)
        ensures
            final(self).max_visible == old(self).max_visible,
            final(self).ids.next == counter_after(old(self).ids),
            final(self).toasts@.len() == old(self).toasts@.len() + 1,
            final(self).toasts@.drop_last() == old(self).toasts@,
            is_new_toast(final(self).toasts@.last(), old(self).ids.next, toast_type, title@, message@),
    {
        let t = Toast::new(&mut self.ids, toast_type, title, message);
        self.toasts.push(t);
        proof {
            assert(self.toasts@.drop_last() =~= old(self).toasts@);
        }
    }

    /// Add an info toast
    pub fn info(&mut self, title: &str, message: &str)
        ensures
            final(self).max_visible == old(self).max_visible,
            final(self).ids.next == counter_after(old(self).ids),
            final(self).toasts@.len() == old(self).toasts@.len() + 1,
            final(self).toasts@.drop_last() == old(self).toasts@,
            is_new_toast(final(self).toasts@.last(), old(self).ids.next, ToastType::Info, title@, message@),
    {
        self.push_new(ToastType::Info, title, message)
    }

    /// Add a success toast
    pub fn success(&mut self, title: &str, message: &str)
        ensures
            final(self).max_visible == old(self).max_visible,
            final(self).ids.next == counter_after(old(self).ids),
            final(self).toasts@.len() == old(self).toasts@.len() + 1,
            final(self).toasts@.drop_last() == old(self).toasts@,
            is_new_toast(final(self).toasts@.last(), old(self).ids.next, ToastType::Success, title@, message@),
    {
        self.push_new(ToastType::Success, title, message)
    }

    /// Add a warning toast
    pub fn warning(&mut self, title: &str, message: &str)
        ensures
            final(self).max_visible == old(self).max_visible,
            final(self).ids.next == counter_after(old(self).ids),
            final(self).toasts@.len() == old(self).toasts@.len() + 1,
            final(self).toasts@.drop_last() == old(self).toasts@,
            is_new_toast(final(self).toasts@.last(), old(self).ids.next, ToastType::Warning, title@, message@),
    {
        self.push_new(ToastType::Warning, title, message)
    }

    /// Add an error toast
    pub fn error(&mut self, title: &str, message: &str)
        ensures
            final(self).max_visible == old(self).max_visible,
            final(self).ids.next == counter_after(old(self).ids),
            final(self).toasts@.len() == old(self).toasts@.len() + 1,
            final(self).toasts@.drop_last() == old(self).toasts@,
            is_new_toast(final(self).toasts@.last(), old(self).ids.next, ToastType::Error, title@, message@),
    {
        self.push_new(ToastType::Error, title, message)
    }

    /// Clear all toasts
    pub fn clear(&mut self)
        ensures
            *final(self) == (ToastContainer { toasts: final(self).toasts, ..*old(self) }),
            final(self).toasts@.len() == 0,
    {
        self.toasts.clear();
    }

    /// Dismisses the toast at `index`, if there is one.
    pub fn dismiss_at(&mut self, index: usize)
        ensures
            final(self).max_visible == old(self).max_visible,
            final(self).ids == old(self).ids,
            index < old(self).toasts@.len() ==> final(self).toasts@ == old(self).toasts@.update(
                index as int,
                Toast { dismissed: true, ..old(self).toasts@[index as int] },
            ),
            index >= old(self).toasts@.len() ==> final(self).toasts@ == old(self).toasts@,
    {
        if index < self.toasts.len() {
            let mut t = self.toasts.remove(index);
            t.dismiss();
            self.toasts.insert(index, t);
            proof {
                assert(self.toasts@ =~= old(self).toasts@.update(
                    index as int,
                    Toast { dismissed: true, ..old(self).toasts@[index as int] },
                ));
            }
        }
    }

    /// A left click on the shown toast in row `row` (if the pointer is over
    /// one) dismisses it; returns whether a toast was hit.
    pub fn click(&mut self, row: Option<usize>) -> (hit: bool)
        ensures
            hit == (row matches Some(i) && i < old(self).max_visible && i < old(self).toasts@.len()),
            final(self).max_visible == old(self).max_visible,
            final(self).ids == old(self).ids,
            hit ==> final(self).toasts@ == old(self).toasts@.update(
                row->0 as int,
                Toast { dismissed: true, ..old(self).toasts@[row->0 as int] },
            ),
            !hit ==> final(self).toasts@ == old(self).toasts@,
    {
        match row {
            Some(i) => {
                if i < self.max_visible && i < self.toasts.len() {
                    self.dismiss_at(i);
                    true
                } else {
                    false
                }
            },
            None => false,
        }
    }

    /// Takes away the dismissed toasts, keeping the order of the others.
    pub fn remove_dismissed(&mut self)
        ensures
            final(self).max_visible == old(self).max_visible,
            final(self).ids == old(self).ids,
            final(self).toasts@ == undismissed(old(self).toasts@),
    {
        let mut old_toasts: Vec<Toast> = Vec::new();
        std::mem::swap(&mut old_toasts, &mut self.toasts);
        let ghost o = old_toasts@;
        let mut rest = old_toasts;
        let mut kept: Vec<Toast> = Vec::new();
        let ghost mut taken: int = 0;
        while rest.len() > 0
            invariant
                0 <= taken <= o.len(),
                rest@ == o.skip(taken),
                kept@ == undismissed(o.take(taken)),
            decreases rest@.len(),
        {
            let t = rest.remove(0);
            proof {
                assert(o.take(taken + 1).drop_last() =~= o.take(taken));
                assert(o.take(taken + 1).last() == o[taken]);
                assert(rest@ =~= o.skip(taken + 1));
                taken = taken + 1;
            }
            if !t.dismissed {
                kept.push(t);
            }
        }
        proof {
            assert(o.take(taken) =~= o);
        }
        self.toasts = kept;
    }
}

impl Default for ToastContainer {
    fn default() -> (r: Self)
        ensures
            r.toasts@.len() == 0,
            r.max_visible == 5,
            r.ids.next == 1,
    {
        Self::new()
    }
}

// ---------------------------------------------------------------------------
// agent card
// ---------------------------------------------------------------------------

/// Card for an AI agent: its name, model, what it is doing and how many
/// messages it has exchanged; while thinking, 0 to 3 dots follow the state.
pub struct AgentCard {
    pub name: String,
    pub model: String,
    pub state: AgentState,
    pub message_count: usize,
    pub thinking_dots: u8,
}

/// The word shown for a state.
pub open spec fn state_word(s: AgentState) -> Seq<char> {
    match s {
        AgentState::Idle => "Idle"@,
        AgentState::Thinking => "Thinking"@,
        AgentState::Responding => "Responding"@,
        AgentState::Error => "Error"@,
    }
}

impl AgentCard {
    pub fn new(name: &str, model: &str) -> (r: Self)
        ensures
            r.name@ == name@,
            r.model@ == model@,
            r.state == AgentState::Idle,
            r.message_count == 0,
            r.thinking_dots == 0,
    {
        AgentCard {
            name: owned(name),
            model: owned(model),
            state: AgentState::Idle,
            message_count: 0,
            thinking_dots: 0,
        }
    }

    pub fn set_state(&mut self, state: AgentState)
        ensures
            *final(self) == (AgentCard { state, ..*old(self) }),
    {
        self.state = state;
    }

    pub fn set_message_count(&mut self, count: usize)
        ensures
            *final(self) == (AgentCard { message_count: count, ..*old(self) }),
    {
        self.message_count = count;
    }

    /// One tick of the thinking animation: while thinking, the dots go
    /// 0, 1, 2, 3 and round again.
    pub fn advance_thinking_dots(&mut self)
        ensures
            *final(self) == (AgentCard {
                thinking_dots: if old(self).state == AgentState::Thinking {
                    ((old(self).thinking_dots + 1) % 4) as u8
                } else {
                    old(self).thinking_dots
                },
                ..*old(self)
            }),
    {
        if self.state == AgentState::Thinking {
            self.thinking_dots = (self.thinking_dots % 4 + 1) % 4;
        }
    }

    /// The word for the current state.
    pub fn state_text(&self) -> (r: &'static str)
        ensures
            r@ == state_word(self.state),
    {
        match self.state {
            AgentState::Idle => "Idle",
            AgentState::Thinking => "Thinking",
            AgentState::Responding => "Responding",
            AgentState::Error => "Error",
        }
    }

    /// The state line: the word, and while thinking one dot per animation
    /// step.
    pub fn state_label(&self) -> (r: String)
        ensures
            r@ == state_word(self.state) + if self.state == AgentState::Thinking {
                Seq::new(self.thinking_dots as nat, |i: int| '.')
            } else {
                Seq::empty()
            },
    {
        let mut v = crate::text::chars_of(self.state_text());
        if self.state == AgentState::Thinking {
            let ghost start = v@;
            let mut k: u8 = 0;
            while k < self.thinking_dots
                invariant
                    k <= self.thinking_dots,
                    v@ == start + Seq::new(k as nat, |i: int| '.'),
                decreases self.thinking_dots - k,
            {
                v.push('.');
                proof {
                    assert(v@ =~= start + Seq::new((k + 1) as nat, |i: int| '.'));
                }
                k = k + 1;
            }
        } else {
            proof {
                assert(v@ =~= v@ + Seq::<char>::empty());
            }
        }
        string_from_chars(&v)
    }

    /// The message count line, such as `5 msgs`.
    pub fn count_label(&self) -> (r: String)
        ensures
            r@ == decimal(self.message_count as nat) + " msgs"@,
    {
        let mut v = decimal_chars(self.message_count as u64);
        let suffix = " msgs";
        proof {
            reveal_strlit(" msgs");
        }
        let ghost start = v@;
        v.push(' ');
        v.push('m');
        v.push('s');
        v.push('g');
        v.push('s');
        proof {
            assert(v@ =~= start + suffix@);
        }
        string_from_chars(&v)
    }
}

// ---------------------------------------------------------------------------
// metric display
// ---------------------------------------------------------------------------

/// A metric shown with its value and trend (its sparkline samples are
/// floating point and drawn by the renderer).
pub struct MetricDisplay {
    pub label: String,
    pub value: String,
    pub trend: MetricTrend,
    pub trend_value: String,
}

impl MetricDisplay {
    pub fn new(label: &str, value: &str) -> (r: Self)
        ensures
            r.label@ == label@,
            r.value@ == value@,
            r.trend == MetricTrend::Stable,
            r.trend_value@ == Seq::<char>::empty(),
    {
        MetricDisplay {
            label: owned(label),
            value: owned(value),
            trend: MetricTrend::Stable,
            trend_value: String::new(),
        }
    }

    pub fn with_trend(self, trend: MetricTrend, value: &str) -> (r: Self)
        ensures
            r.label == self.label,
            r.value == self.value,
            r.trend == trend,
            r.trend_value@ == value@,
    {
        MetricDisplay { trend, trend_value: owned(value), ..self }
    }

    pub fn set_value(&mut self, value: &str)
        ensures
            final(self).label == old(self).label,
            final(self).trend == old(self).trend,
            final(self).trend_value == old(self).trend_value,
            final(self).value@ == value@,
    {
        self.value = owned(value);
    }
}

/// A playback clock `MM:SS` from whole minutes and seconds
/// (`format!("{:02}:{:02}")`).
pub fn format_clock(minutes: u32, seconds: u32) -> (r: String)
    ensures
        r@ == padded_int(minutes as int, 2) + seq![':'] + padded_int(seconds as int, 2),
{
    let mut v: Vec<char> = Vec::new();
    push_padded_int(&mut v, minutes as i64, 2);
    v.push(':');
    push_padded_int(&mut v, seconds as i64, 2);
    proof {
        assert(v@ =~= padded_int(minutes as int, 2) + seq![':'] + padded_int(seconds as int, 2));
    }
    string_from_chars(&v)
}

} // verus!
