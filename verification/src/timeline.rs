//! Activity timeline: typed entries and the list that holds them newest
//! first or oldest first.

use vstd::prelude::*;
use crate::text::owned;
use crate::kinds::{IdCounter, id_after};

verus! {

/// Type of timeline entry for styling
#[derive(Clone, Copy, Debug, PartialEq, Eq, Structural)]
pub enum TimelineEntryType {
    Task,
    Message,
    Event,
    Alert,
    Milestone,
}

impl TimelineEntryType {
    pub fn icon(&self) -> (r: &'static str)
        ensures
            r@ == match *self {
                TimelineEntryType::Task => "✓"@,
                TimelineEntryType::Message => "💬"@,
                TimelineEntryType::Event => "⚡"@,
                TimelineEntryType::Alert => "⚠"@,
                TimelineEntryType::Milestone => "★"@,
            },
    {
        match self {
            TimelineEntryType::Task => "✓",
            TimelineEntryType::Message => "💬",
            TimelineEntryType::Event => "⚡",
            TimelineEntryType::Alert => "⚠",
            TimelineEntryType::Milestone => "★",
        }
    }
}

/// Single timeline entry. Its id comes from the `IdCounter` it is made
/// with, so ids are distinct among the entries made with one counter (until
/// the counter wraps); entries meant to be told apart by id should share one
/// counter.
#[derive(Clone, Debug)]
pub struct TimelineEntry {
    pub id: u64,
    pub entry_type: TimelineEntryType,
    pub title: String,
    pub description: String,
    /// e.g., "2m ago", "10:45"
    pub time: String,
    pub completed: bool,
}

impl TimelineEntry {
    /// A new entry of the given type; its id is the next one from `ids`.
    pub fn new(ids: &mut IdCounter, entry_type: TimelineEntryType, title: &str, time: &str) -> (r: Self)
        ensures
            r.id == old(ids).next,
            final(ids).next == if old(ids).next == u64::MAX {
                0
            } else {
                (old(ids).next + 1) as u64
            },
            r.entry_type == entry_type,
            r.title@ == title@,
            r.description@ == Seq::<char>::empty(),
            r.time@ == time@,
            !r.completed,
    {
        let id = ids.take();
        TimelineEntry {
            id,
            entry_type,
            title: owned(title),
            description: String::new(),
            time: owned(time),
            completed: false,
        }
    }

    pub fn with_description(self, desc: &str) -> (r: Self)
        ensures
            r == (TimelineEntry { description: r.description, ..self }),
            r.description@ == desc@,
    {
        let mut e = self;
        e.description = owned(desc);
        e
    }

    pub fn completed(self) -> (r: Self)
        ensures
            r == (TimelineEntry { completed: true, ..self }),
    {
        let mut e = self;
        e.completed = true;
        e
    }

    pub fn task(ids: &mut IdCounter, title: &str, time: &str) -> (r: Self)
        ensures
            r.id == old(ids).next,
            final(ids).next == if old(ids).next == u64::MAX {
                0
            } else {
                (old(ids).next + 1) as u64
            },
            r.entry_type == TimelineEntryType::Task,
            r.title@ == title@,
            r.description@ == Seq::<char>::empty(),
            r.time@ == time@,
            !r.completed,
    {
        Self::new(ids, TimelineEntryType::Task, title, time)
    }

    pub fn message(ids: &mut IdCounter, title: &str, time: &str) -> (r: Self)
        ensures
            r.id == old(ids).next,
            final(ids).next == if old(ids).next == u64::MAX {
                0
            } else {
                (old(ids).next + 1) as u64
            },
            r.entry_type == TimelineEntryType::Message,
            r.title@ == title@,
            r.description@ == Seq::<char>::empty(),
            r.time@ == time@,
            !r.completed,
    {
        Self::new(ids, TimelineEntryType::Message, title, time)
    }

    pub fn event(ids: &mut IdCounter, title: &str, time: &str) -> (r: Self)
        ensures
            r.id == old(ids).next,
            final(ids).next == if old(ids).next == u64::MAX {
                0
            } else {
                (old(ids).next + 1) as u64
            },
            r.entry_type == TimelineEntryType::Event,
            r.title@ == title@,
            r.description@ == Seq::<char>::empty(),
            r.time@ == time@,
            !r.completed,
    {
        Self::new(ids, TimelineEntryType::Event, title, time)
    }

    pub fn alert(ids: &mut IdCounter, title: &str, time: &str) -> (r: Self)
        ensures
            r.id == old(ids).next,
            final(ids).next == if old(ids).next == u64::MAX {
                0
            } else {
                (old(ids).next + 1) as u64
            },
            r.entry_type == TimelineEntryType::Alert,
            r.title@ == title@,
            r.description@ == Seq::<char>::empty(),
            r.time@ == time@,
            !r.completed,
    {
        Self::new(ids, TimelineEntryType::Alert, title, time)
    }

    pub fn milestone(ids: &mut IdCounter, title: &str, time: &str) -> (r: Self)
        ensures
            r.id == old(ids).next,
            final(ids).next == if old(ids).next == u64::MAX {
                0
            } else {
                (old(ids).next + 1) as u64
            },
            r.entry_type == TimelineEntryType::Milestone,
            r.title@ == title@,
            r.description@ == Seq::<char>::empty(),
            r.time@ == time@,
            !r.completed,
    {
        Self::new(ids, TimelineEntryType::Milestone, title, time)
    }
}

/// Vertical timeline widget state
pub struct Timeline {
    pub entries: Vec<TimelineEntry>,
}

impl Timeline {
    pub fn new() -> (r: Self)
        ensures
            r.entries@.len() == 0,
    {
        Timeline { entries: Vec::new() }
    }

    /// Add an entry to the timeline
    pub fn add_entry(&mut self, entry: TimelineEntry)
        ensures
            final(self).entries@ == old(self).entries@.push(entry),
    {
        self.entries.push(entry);
    }

    /// Add entry at the beginning (newest first)
    pub fn prepend_entry(&mut self, entry: TimelineEntry)
        ensures
            final(self).entries@ == seq![entry] + old(self).entries@,
    {
        self.entries.insert(0, entry);
        proof {
            assert(self.entries@ =~= seq![entry] + old(self).entries@);
        }
    }

    /// Clear all entries
    pub fn clear(&mut self)
        ensures
            final(self).entries@.len() == 0,
    {
        self.entries.clear();
    }

    /// Create a sample timeline for demo
    pub fn sample(ids: &mut IdCounter) -> (r: Self)
        ensures
            final(ids).next == id_after(old(ids).next, 5),
            r.entries@.len() == 5,
            forall|k: nat| k < 5 ==> #[trigger] r.entries@[k as int].id == id_after(old(ids).next, k),
            r.entries@[0].entry_type == TimelineEntryType::Task && r.entries@[0].title@
                == "Initialize dashboard"@ && r.entries@[0].time@ == "Just now"@
                && r.entries@[0].completed,
            r.entries@[1].entry_type == TimelineEntryType::Message && r.entries@[1].title@
                == "AI Agent connected"@ && r.entries@[1].time@ == "1m ago"@
                && !r.entries@[1].completed,
            r.entries@[2].entry_type == TimelineEntryType::Event && r.entries@[2].title@
                == "System started"@ && r.entries@[2].time@ == "2m ago"@,
            r.entries@[3].entry_type == TimelineEntryType::Milestone && r.entries@[3].title@
                == "Version 2.0"@ && r.entries@[3].time@ == "5m ago"@,
            r.entries@[4].entry_type == TimelineEntryType::Alert && r.entries@[4].title@
                == "High CPU usage"@ && r.entries@[4].time@ == "10m ago"@
                && r.entries@[4].description@ == "CPU usage exceeded 90% threshold"@,
    {
        proof {
            reveal_with_fuel(id_after, 6);
        }
        let mut timeline = Self::new();
        timeline.add_entry(TimelineEntry::task(ids, "Initialize dashboard", "Just now").completed());
        timeline.add_entry(TimelineEntry::message(ids, "AI Agent connected", "1m ago"));
        timeline.add_entry(TimelineEntry::event(ids, "System started", "2m ago"));
        timeline.add_entry(TimelineEntry::milestone(ids, "Version 2.0", "5m ago"));
        timeline.add_entry(
            TimelineEntry::alert(ids, "High CPU usage", "10m ago").with_description(
                "CPU usage exceeded 90% threshold",
            ),
        );
        timeline
    }
}

impl Default for Timeline {
    fn default() -> (r: Self)
        ensures
            r.entries@.len() == 0,
    {
        Self::new()
    }
}

} // verus!
