//! The quick-action command palette: commands, fuzzy-free substring
//! matching, ranking of the matches and the keyboard/click state machine.

use vstd::prelude::*;
use vstd::utf8::encode_scalar;
use crate::text::{is_control, on_char_boundary, utf8_of, bytes_after_insert, char_is_control, string_insert, string_remove, lowercase_of, is_substring, is_prefix, to_lower, chars_of, seq_contains, seq_starts_with, seq_equal, owned, lemma_insert_then_remove};

verus! {

/// A command that can be executed from the palette.
pub struct Command {
    pub id: String,
    pub label: String,
    pub description: String,
    pub shortcut: Option<String>,
    pub icon: Option<String>,
    pub category: String,
}

/// The view of an optional string.
pub open spec fn opt_view(o: Option<String>) -> Option<Seq<char>> {
    match o {
        Some(s) => Some(s@),
        None => None,
    }
}

/// An owned copy of an optional string.
pub fn copy_opt(o: &Option<String>) -> (r: Option<String>)
    ensures
        r == *o,
{
    match o {
        Some(s) => Some(s.clone()),
        None => None,
    }
}

/// Whether a command is listed for a query: an empty query lists
/// everything, otherwise the lowercased query must occur in the lowercased
/// label, description or category.
pub open spec fn command_matches(c: Command, q: Seq<char>) -> bool {
    q.len() == 0 || {
        let ql = lowercase_of(q);
        ||| is_substring(ql, lowercase_of(c.label@))
        ||| is_substring(ql, lowercase_of(c.description@))
        ||| is_substring(ql, lowercase_of(c.category@))
    }
}

/// How well a command answers a query (higher is better): 100 for an
/// equal label, 80 for a label prefix, 60 for a label substring, 40 for a
/// description substring, otherwise 0; all compared case-insensitively.
pub open spec fn command_score(c: Command, q: Seq<char>) -> i32 {
    if q.len() == 0 {
        0
    } else {
        let ql = lowercase_of(q);
        let ll = lowercase_of(c.label@);
        if ll == ql {
            100
        } else if is_prefix(ql, ll) {
            80
        } else if is_substring(ql, ll) {
            60
        } else if is_substring(ql, lowercase_of(c.description@)) {
            40
        } else {
            0
        }
    }
}

impl Clone for Command {
    fn clone(&self) -> (r: Self)
        ensures
            r == *self,
    {
        Command {
            id: self.id.clone(),
            label: self.label.clone(),
            description: self.description.clone(),
            shortcut: copy_opt(&self.shortcut),
            icon: copy_opt(&self.icon),
            category: self.category.clone(),
        }
    }
}

impl Command {
    /// A command with the given id and label, no description, shortcut or
    /// icon, in the "General" category.
    pub fn new(id: &str, label: &str) -> (r: Self)
        ensures
            r.id@ == id@,
            r.label@ == label@,
            r.description@ == Seq::<char>::empty(),
            r.shortcut is None,
            r.icon is None,
            r.category@ == "General"@,
    {
        Command {
            id: owned(id),
            label: owned(label),
            description: String::new(),
            shortcut: None,
            icon: None,
            category: owned("General"),
        }
    }

    pub fn with_description(self, desc: &str) -> (r: Self)
        ensures
            r == (Command { description: r.description, ..self }),
            r.description@ == desc@,
    {
        let mut c = self;
        c.description = owned(desc);
        c
    }

    pub fn with_shortcut(self, shortcut: &str) -> (r: Self)
        ensures
            r == (Command { shortcut: r.shortcut, ..self }),
            opt_view(r.shortcut) == Some(shortcut@),
    {
        let mut c = self;
        c.shortcut = Some(owned(shortcut));
        c
    }

    pub fn with_icon(self, icon: &str) -> (r: Self)
        ensures
            r == (Command { icon: r.icon, ..self }),
            opt_view(r.icon) == Some(icon@),
    {
        let mut c = self;
        c.icon = Some(owned(icon));
        c
    }

    pub fn with_category(self, category: &str) -> (r: Self)
        ensures
            r == (Command { category: r.category, ..self }),
            r.category@ == category@,
    {
        let mut c = self;
        c.category = owned(category);
        c
    }

    /// Check if command matches search query
    pub fn matches(&self, query: &str) -> (r: bool)
        ensures
            r == command_matches(*self, query@),
    {
        if query.is_empty() {
            return true;
        }
        let q = chars_of(to_lower(query).as_str());
        let label = chars_of(to_lower(self.label.as_str()).as_str());
        if seq_contains(&label, &q) {
            return true;
        }
        let desc = chars_of(to_lower(self.description.as_str()).as_str());
        if seq_contains(&desc, &q) {
            return true;
        }
        let cat = chars_of(to_lower(self.category.as_str()).as_str());
        seq_contains(&cat, &q)
    }

    /// Get match score for sorting (higher is better)
    pub fn match_score(&self, query: &str) -> (r: i32)
        ensures
            r == command_score(*self, query@),
    {
        if query.is_empty() {
            return 0;
        }
        let q = chars_of(to_lower(query).as_str());
        let label = chars_of(to_lower(self.label.as_str()).as_str());
        if seq_equal(&label, &q) {
            return 100;
        }
        if seq_starts_with(&label, &q) {
            return 80;
        }
        if seq_contains(&label, &q) {
            return 60;
        }
        let desc = chars_of(to_lower(self.description.as_str()).as_str());
        if seq_contains(&desc, &q) {
            return 40;
        }
        0
    }
}

/// How many result rows the palette shows and accepts clicks on.
pub const VISIBLE_ROWS: usize = 7;

/// Command `a` is listed before command `b`: a higher score first, and
/// among equal scores the command added earlier first.
pub open spec fn ranked_before(cmds: Seq<Command>, q: Seq<char>, a: usize, b: usize) -> bool {
    let sa = command_score(cmds[a as int], q);
    let sb = command_score(cmds[b as int], q);
    sa > sb || (sa == sb && a < b)
}

/// `f` lists, each once, exactly the indices of the commands that match
/// `q`, best score first and otherwise in the order they were added.
pub open spec fn is_ranked_listing(cmds: Seq<Command>, q: Seq<char>, f: Seq<usize>) -> bool {
    &&& forall|i: int, j: int|
        0 <= i < j < f.len() ==> ranked_before(cmds, q, #[trigger] f[i], #[trigger] f[j])
    &&& forall|k: usize| #[trigger]
        f.contains(k) <==> (k < cmds.len() && command_matches(cmds[k as int], q))
}

/// Keys the palette reacts to while it is open.
#[derive(Clone, Copy, Debug, PartialEq, Eq, Structural)]
pub enum PaletteKey {
    Escape,
    Enter,
    ArrowUp,
    ArrowDown,
    Backspace,
    /// A key that produced text; its first character.
    Text(char),
    /// Any other key.
    Other,
}

/// What a key press did: whether the palette consumed it, and the command
/// it executed, if any.
pub struct KeyResponse {
    pub handled: bool,
    pub executed: Option<Command>,
}

/// Quick command palette state.
pub struct CommandPalette {
    pub visible: bool,
    pub query: String,
    pub commands: Vec<Command>,
    /// Indices into `commands`.
    pub filtered: Vec<usize>,
    pub selected_index: usize,
    /// Byte position of the text cursor in `query`.
    pub cursor_pos: usize,
}

impl CommandPalette {
    /// The listing is the ranked listing of the current commands for the
    /// current query.
    pub open spec fn listing_is_current(&self) -> bool {
        is_ranked_listing(self.commands@, self.query@, self.filtered@)
    }

    /// The selection is a row of the listing, or 0 when the listing is
    /// empty.
    pub open spec fn selection_in_listing(&self) -> bool {
        if self.filtered@.len() == 0 {
            self.selected_index == 0
        } else {
            self.selected_index < self.filtered@.len()
        }
    }

    /// Every listed index names a command.
    pub open spec fn listing_in_range(&self) -> bool {
        forall|i: int| 0 <= i < self.filtered@.len() ==> #[trigger] self.filtered@[i] < self.commands@.len()
    }

    pub fn new() -> (r: Self)
        ensures
            !r.visible,
            r.query@ == Seq::<char>::empty(),
            r.commands@.len() == 0,
            r.filtered@.len() == 0,
            r.selected_index == 0,
            r.cursor_pos == 0,
    {
        CommandPalette {
            visible: false,
            query: String::new(),
            commands: Vec::new(),
            filtered: Vec::new(),
            selected_index: 0,
            cursor_pos: 0,
        }
    }

    /// Update filtered commands based on query
    pub fn update_filtered(&mut self)
        ensures
            final(self).commands == old(self).commands,
            final(self).query == old(self).query,
            final(self).visible == old(self).visible,
            final(self).cursor_pos == old(self).cursor_pos,
            final(self).listing_is_current(),
            final(self).listing_in_range(),
            final(self).selection_in_listing(),
            final(self).selected_index == if old(self).selected_index >= final(self).filtered@.len() {
                0
            } else {
                old(self).selected_index
            },
    {
        let ghost cmds = self.commands@;
        let ghost q = self.query@;
        let mut result: Vec<usize> = Vec::new();
        let mut scores: Vec<i32> = Vec::new();
        let n = self.commands.len();
        let mut i: usize = 0;
        while i < n
            invariant
                n == self.commands@.len(),
                cmds == self.commands@,
                q == self.query@,
                i <= n,
                result@.len() == scores@.len(),
                forall|k: int| 0 <= k < result@.len() ==> #[trigger] result@[k] < i,
                forall|k: int|
                    0 <= k < result@.len() ==> #[trigger] scores@[k] == command_score(
                        cmds[result@[k] as int],
                        q,
                    ),
                forall|a: int, b: int|
                    0 <= a < b < result@.len() ==> ranked_before(cmds, q, #[trigger] result@[a], #[trigger] result@[b]),
                forall|k: usize| #[trigger]
                    result@.contains(k) <==> (k < i && command_matches(cmds[k as int], q)),
            decreases n - i,
        {
            if self.commands[i].matches(self.query.as_str()) {
                let s = self.commands[i].match_score(self.query.as_str());
                let mut p: usize = 0;
                while p < result.len() && scores[p] >= s
                    invariant
                        p <= result@.len(),
                        result@.len() == scores@.len(),
                        forall|k: int| 0 <= k < p ==> #[trigger] scores@[k] >= s,
                    decreases result@.len() - p,
                {
                    p = p + 1;
                }
                let ghost old_result = result@;
                let ghost old_scores = scores@;
                proof {
                    // beyond p every score is below s: the scores never increase
                    assert forall|k: int| p <= k < old_result.len() implies #[trigger] old_scores[k] < s by {
                        if k > p {
                            assert(ranked_before(cmds, q, old_result[p as int], old_result[k]));
                        }
                    }
                }
                result.insert(p, i);
                scores.insert(p, s);
                proof {
                    assert forall|a: int, b: int|
                        0 <= a < b < result@.len() implies ranked_before(cmds, q, #[trigger] result@[a], #[trigger] result@[b]) by {
                        if a < p && b < p {
                            assert(result@[a] == old_result[a] && result@[b] == old_result[b]);
                        } else if a < p && b == p {
                            assert(old_scores[a] >= s);
                            assert(result@[a] == old_result[a]);
                        } else if a < p {
                            assert(result@[a] == old_result[a] && result@[b] == old_result[b - 1]);
                        } else if a == p {
                            assert(old_scores[b - 1] < s);
                            assert(result@[b] == old_result[b - 1]);
                        } else {
                            assert(result@[a] == old_result[a - 1] && result@[b] == old_result[b - 1]);
                        }
                    }
                    assert forall|k: usize| #[trigger]
                        result@.contains(k) <==> (k < i + 1 && command_matches(cmds[k as int], q)) by {
                        if result@.contains(k) {
                            let w = choose|w: int| 0 <= w < result@.len() && result@[w] == k;
                            if w < p {
                                assert(old_result[w] == k);
                                assert(old_result.contains(k));
                            } else if w > p {
                                assert(old_result[w - 1] == k);
                                assert(old_result.contains(k));
                            } else {
                                assert(k == i);
                                assert(command_matches(cmds[i as int], q));
                            }
                        }
                        if k < i + 1 && command_matches(cmds[k as int], q) {
                            if k == i {
                                assert(result@[p as int] == k);
                            } else {
                                assert(old_result.contains(k));
                                let w = choose|w: int| 0 <= w < old_result.len() && old_result[w] == k;
                                if w < p {
                                    assert(result@[w] == k);
                                } else {
                                    assert(result@[w + 1] == k);
                                }
                            }
                        }
                    }
                }
            }
            i = i + 1;
        }
        self.filtered = result;
        if self.selected_index >= self.filtered.len() {
            self.selected_index = 0;
        }
        proof {
            lemma_listing_in_range(self.commands@, self.query@, self.filtered@);
        }
    }
}

/// A ranked listing only names commands that exist.
pub proof fn lemma_listing_in_range(cmds: Seq<Command>, q: Seq<char>, f: Seq<usize>)
    requires
        is_ranked_listing(cmds, q, f),
    ensures
        forall|i: int| 0 <= i < f.len() ==> #[trigger] f[i] < cmds.len(),
{
    assert forall|i: int| 0 <= i < f.len() implies #[trigger] f[i] < cmds.len() by {
        assert(f.contains(f[i]));
    }
}

/// The command an executed selection hands out: the selected entry of the
/// listing, when there is one.
pub open spec fn selected_command(p: CommandPalette) -> Option<Command> {
    if p.selected_index < p.filtered@.len() {
        Some(p.commands@[p.filtered@[p.selected_index as int] as int])
    } else {
        None
    }
}

/// A key press that the palette can take without an invalid byte index:
/// typing needs the cursor on a character boundary, deleting needs a
/// character boundary just before it.
/// What a pressed key does to the palette (`before` to `after`) and what
/// the handling answers (`resp`).
pub open spec fn palette_key_effect(before: CommandPalette, key: PaletteKey, after: CommandPalette, resp: KeyResponse) -> bool {
    &&& after.commands == before.commands
    &&& !before.visible ==> (after == before && !resp.handled && resp.executed is None)
    &&& before.visible ==> match key {
        PaletteKey::Escape => {
            &&& after == (CommandPalette { visible: false, ..before })
            &&& resp.handled
            &&& resp.executed is None
        },
        PaletteKey::Enter => {
            &&& after == (CommandPalette { visible: false, ..before })
            &&& resp.handled
            &&& resp.executed == selected_command(before)
        },
        PaletteKey::ArrowUp => {
            &&& after == (CommandPalette {
                selected_index: if before.selected_index > 0 {
                    (before.selected_index - 1) as usize
                } else {
                    0
                },
                ..before
            })
            &&& resp.handled
            &&& resp.executed is None
        },
        PaletteKey::ArrowDown => {
            &&& after == (CommandPalette {
                selected_index: if before.selected_index + 1 < before.filtered@.len() {
                    (before.selected_index + 1) as usize
                } else {
                    before.selected_index
                },
                ..before
            })
            &&& resp.handled
            &&& resp.executed is None
        },
        PaletteKey::Backspace => {
            &&& resp.handled
            &&& resp.executed is None
            &&& after.visible
            &&& before.cursor_pos == 0 ==> after == before
            &&& before.cursor_pos > 0 ==> {
                &&& after.cursor_pos == before.cursor_pos - 1
                &&& exists|c: char|
                    #![trigger encode_scalar(c as u32)]
                    utf8_of(before.query@) == utf8_of(before.query@).take(
                        after.cursor_pos as int,
                    ) + encode_scalar(c as u32) + utf8_of(before.query@).skip(
                        after.cursor_pos + encode_scalar(c as u32).len(),
                    ) && utf8_of(after.query@) == utf8_of(before.query@).take(
                        after.cursor_pos as int,
                    ) + utf8_of(before.query@).skip(
                        after.cursor_pos + encode_scalar(c as u32).len(),
                    )
                &&& after.listing_is_current()
                &&& after.selected_index == if before.selected_index
                    >= after.filtered@.len() {
                    0
                } else {
                    before.selected_index
                }
            }
        },
        PaletteKey::Text(c) => if is_control(c) {
            after == before && !resp.handled && resp.executed is None
        } else {
            &&& resp.handled
            &&& resp.executed is None
            &&& after.visible
            &&& utf8_of(after.query@) == bytes_after_insert(
                before.query@,
                before.cursor_pos as int,
                c,
            )
            &&& after.cursor_pos == before.cursor_pos + 1
            &&& after.listing_is_current()
            &&& after.selected_index == if before.selected_index
                >= after.filtered@.len() {
                0
            } else {
                before.selected_index
            }
        },
        PaletteKey::Other => after == before && !resp.handled && resp.executed is None,
    }
}

pub open spec fn key_acceptable(p: CommandPalette, key: PaletteKey) -> bool {
    p.visible ==> match key {
        PaletteKey::Backspace => p.cursor_pos > 0 ==> {
            &&& on_char_boundary(p.query@, p.cursor_pos - 1)
            &&& p.cursor_pos - 1 < utf8_of(p.query@).len()
        },
        PaletteKey::Text(c) => !is_control(c) ==> {
            &&& on_char_boundary(p.query@, p.cursor_pos as int)
            &&& p.cursor_pos < usize::MAX
        },
        _ => true,
    }
}

impl CommandPalette {
    /// Add a command
    pub fn add_command(&mut self, command: Command)
        ensures
            final(self).commands@ == old(self).commands@.push(command),
            final(self).selection_in_listing(),
            final(self).listing_in_range(),
            final(self).query == old(self).query,
            final(self).visible == old(self).visible,
            final(self).cursor_pos == old(self).cursor_pos,
            final(self).listing_is_current(),
            final(self).selected_index == if old(self).selected_index >= final(self).filtered@.len() {
                0
            } else {
                old(self).selected_index
            },
    {
        self.commands.push(command);
        self.update_filtered();
    }

    /// Add multiple commands
    pub fn add_commands(&mut self, commands: Vec<Command>)
        ensures
            final(self).commands@ == old(self).commands@ + commands@,
            final(self).selection_in_listing(),
            final(self).listing_in_range(),
            final(self).query == old(self).query,
            final(self).visible == old(self).visible,
            final(self).cursor_pos == old(self).cursor_pos,
            final(self).listing_is_current(),
            final(self).selected_index == if old(self).selected_index >= final(self).filtered@.len() {
                0
            } else {
                old(self).selected_index
            },
    {
        let mut more = commands;
        self.commands.append(&mut more);
        self.update_filtered();
    }

    /// Show the palette
    pub fn show(&mut self)
        ensures
            final(self).visible,
            final(self).query@ == Seq::<char>::empty(),
            final(self).cursor_pos == 0,
            final(self).selected_index == 0,
            final(self).commands == old(self).commands,
            final(self).listing_is_current(),
            final(self).listing_in_range(),
            final(self).selection_in_listing(),
    {
        self.visible = true;
        self.query = String::new();
        self.cursor_pos = 0;
        self.selected_index = 0;
        self.update_filtered();
    }

    /// Hide the palette
    pub fn dismiss(&mut self)
        ensures
            *final(self) == (CommandPalette { visible: false, ..*old(self) }),
    {
        self.visible = false;
    }

    /// Toggle visibility
    pub fn toggle(&mut self)
        ensures
            old(self).visible ==> *final(self) == (CommandPalette { visible: false, ..*old(self) }),
            !old(self).visible ==> {
                &&& final(self).visible
                &&& final(self).query@ == Seq::<char>::empty()
                &&& final(self).cursor_pos == 0
                &&& final(self).selected_index == 0
                &&& final(self).commands == old(self).commands
                &&& final(self).listing_is_current()
            },
    {
        if self.visible {
            self.dismiss();
        } else {
            self.show();
        }
    }

    /// Execute the selected command: hands out the selected entry (the
    /// command the execute callback receives) and hides the palette.
    pub fn execute_selected(&mut self) -> (r: Option<Command>)
        requires
            old(self).selected_index < old(self).filtered@.len() ==> old(self).filtered@[old(
                self,
            ).selected_index as int] < old(self).commands@.len(),
        ensures
            r == selected_command(*old(self)),
            *final(self) == (CommandPalette { visible: false, ..*old(self) }),
    {
        let mut r: Option<Command> = None;
        if self.selected_index < self.filtered.len() {
            let idx = self.filtered[self.selected_index];
            r = Some(self.commands[idx].clone());
        }
        self.dismiss();
        r
    }

    /// Whether a key press can be taken without an invalid byte index.
    pub fn accepts_key(&self, key: PaletteKey) -> (r: bool)
        ensures
            r == key_acceptable(*self, key),
    {
        if !self.visible {
            return true;
        }
        match key {
            PaletteKey::Backspace => {
                if self.cursor_pos == 0 {
                    true
                } else {
                    let q = self.query.as_str();
                    q.is_char_boundary(self.cursor_pos - 1) && self.cursor_pos - 1 < q.as_bytes().len()
                }
            },
            PaletteKey::Text(c) => {
                if char_is_control(c) {
                    true
                } else {
                    self.query.as_str().is_char_boundary(self.cursor_pos) && self.cursor_pos
                        < usize::MAX
                }
            },
            _ => true,
        }
    }

    /// The keyboard part of the palette's event handling, for a pressed key.
    pub fn handle_key(&mut self, key: PaletteKey) -> (r: KeyResponse)
        requires
            old(self).listing_in_range(),
            key_acceptable(*old(self), key),
        ensures
            final(self).listing_in_range(),
            old(self).selection_in_listing() ==> final(self).selection_in_listing(),
            palette_key_effect(*old(self), key, *final(self), r),
    {
        if !self.visible {
            return KeyResponse { handled: false, executed: None };
        }
        match key {
            PaletteKey::Escape => {
                self.dismiss();
                KeyResponse { handled: true, executed: None }
            },
            PaletteKey::Enter => {
                let executed = self.execute_selected();
                KeyResponse { handled: true, executed }
            },
            PaletteKey::ArrowUp => {
                if self.selected_index > 0 {
                    self.selected_index = self.selected_index - 1;
                }
                KeyResponse { handled: true, executed: None }
            },
            PaletteKey::ArrowDown => {
                if self.selected_index < self.filtered.len().saturating_sub(1) {
                    self.selected_index = self.selected_index + 1;
                }
                KeyResponse { handled: true, executed: None }
            },
            PaletteKey::Backspace => {
                if self.cursor_pos > 0 {
                    self.cursor_pos = self.cursor_pos - 1;
                    let ghost before = self.query@;
                    let removed = string_remove(&mut self.query, self.cursor_pos);
                    proof {
                        let b = utf8_of(before);
                        let i = self.cursor_pos as int;
                        let k = encode_scalar(removed as u32).len();
                        assert(b =~= b.take(i) + encode_scalar(removed as u32) + b.skip(i + k));
                    }
                    self.update_filtered();
                }
                KeyResponse { handled: true, executed: None }
            },
            PaletteKey::Text(c) => {
                if !char_is_control(c) {
                    string_insert(&mut self.query, self.cursor_pos, c);
                    self.cursor_pos = self.cursor_pos + 1;
                    self.update_filtered();
                    KeyResponse { handled: true, executed: None }
                } else {
                    KeyResponse { handled: false, executed: None }
                }
            },
            PaletteKey::Other => KeyResponse { handled: false, executed: None },
        }
    }

    /// A left click on result row `row` of the open palette: selects that
    /// row and executes it.
    pub fn click_row(&mut self, row: usize) -> (r: Option<Command>)
        requires
            row < old(self).filtered@.len(),
            row < VISIBLE_ROWS,
            old(self).filtered@[row as int] < old(self).commands@.len(),
        ensures
            r == Some(old(self).commands@[old(self).filtered@[row as int] as int]),
            *final(self) == (CommandPalette { visible: false, selected_index: row, ..*old(self) }),
            final(self).selection_in_listing(),
    {
        self.selected_index = row;
        self.execute_selected()
    }

    /// Add default dashboard commands
    pub fn with_dashboard_commands(self) -> (r: Self)
        ensures
            r.commands@.len() == self.commands@.len() + 10,
            r.commands@.subrange(0, self.commands@.len() as int) == self.commands@,
            forall|k: int|
                0 <= k < 10 ==> #[trigger] dashboard_entry_is(r.commands@[self.commands@.len() + k], k),
            r.query == self.query,
            r.visible == self.visible,
            r.cursor_pos == self.cursor_pos,
            r.listing_is_current(),
    {
        let mut p = self;
        let mut cmds: Vec<Command> = Vec::new();
        cmds.push(Command::new("new_panel", "New Panel").with_icon("➕").with_shortcut("Ctrl+N").with_category("Panels"));
        cmds.push(Command::new("close_panel", "Close Panel").with_icon("✕").with_shortcut("Ctrl+W").with_category("Panels"));
        cmds.push(Command::new("maximize_panel", "Maximize Panel").with_icon("⤢").with_category("Panels"));
        cmds.push(Command::new("tile_panels", "Tile All Panels").with_icon("▦").with_category("Layout"));
        cmds.push(Command::new("save_workspace", "Save Workspace").with_icon("💾").with_shortcut("Ctrl+S").with_category("Workspace"));
        cmds.push(Command::new("load_workspace", "Load Workspace").with_icon("📂").with_shortcut("Ctrl+O").with_category("Workspace"));
        cmds.push(Command::new("new_agent", "New AI Agent").with_icon("🤖").with_category("AI"));
        cmds.push(Command::new("clear_chat", "Clear Chat").with_icon("🗑").with_category("AI"));
        cmds.push(Command::new("toggle_theme", "Toggle Theme").with_icon("🎨").with_category("Settings"));
        cmds.push(Command::new("toggle_sound", "Toggle Sounds").with_icon("🔊").with_category("Settings"));
        let ghost added = cmds@;
        p.add_commands(cmds);
        proof {
            assert(p.commands@.subrange(0, self.commands@.len() as int) =~= self.commands@);
            assert forall|k: int| 0 <= k < 10 implies #[trigger] dashboard_entry_is(p.commands@[self.commands@.len() + k], k) by {
                assert(p.commands@[self.commands@.len() + k] == added[k]);
            }
        }
        p
    }
}

/// The `k`-th of the default dashboard commands, as id, label, icon,
/// shortcut and category.
pub open spec fn dashboard_entry_is(c: Command, k: int) -> bool {
    let expect = |id: &str, label: &str, icon: &str, shortcut: Option<&str>, category: &str|
        c.id@ == id@ && c.label@ == label@ && opt_view(c.icon) == Some(icon@) && opt_view(
            c.shortcut,
        ) == (match shortcut {
            Some(s) => Some(s@),
            None => None::<Seq<char>>,
        }) && c.category@ == category@ && c.description@ == Seq::<char>::empty();
    if k == 0 {
        expect("new_panel", "New Panel", "➕", Some("Ctrl+N"), "Panels")
    } else if k == 1 {
        expect("close_panel", "Close Panel", "✕", Some("Ctrl+W"), "Panels")
    } else if k == 2 {
        expect("maximize_panel", "Maximize Panel", "⤢", None, "Panels")
    } else if k == 3 {
        expect("tile_panels", "Tile All Panels", "▦", None, "Layout")
    } else if k == 4 {
        expect("save_workspace", "Save Workspace", "💾", Some("Ctrl+S"), "Workspace")
    } else if k == 5 {
        expect("load_workspace", "Load Workspace", "📂", Some("Ctrl+O"), "Workspace")
    } else if k == 6 {
        expect("new_agent", "New AI Agent", "🤖", None, "AI")
    } else if k == 7 {
        expect("clear_chat", "Clear Chat", "🗑", None, "AI")
    } else if k == 8 {
        expect("toggle_theme", "Toggle Theme", "🎨", None, "Settings")
    } else {
        expect("toggle_sound", "Toggle Sounds", "🔊", None, "Settings")
    }
}

impl Default for CommandPalette {
    fn default() -> (r: Self)
        ensures
            !r.visible,
            r.query@ == Seq::<char>::empty(),
            r.commands@.len() == 0,
            r.filtered@.len() == 0,
            r.selected_index == 0,
            r.cursor_pos == 0,
    {
        Self::new()
    }
}

/// The palette's listing depends on nothing but its commands and its
/// query: two ranked listings of the same commands for the same query are
/// the same sequence.
/// Typing a character into the query and then pressing Backspace gives
/// the palette back its query and cursor, and with them its listing: the
/// character goes in at the cursor and Backspace takes out the character
/// that begins just before the cursor, which is that one.
pub proof fn lemma_type_then_backspace(
    p0: CommandPalette,
    c: char,
    p1: CommandPalette,
    r1: KeyResponse,
    p2: CommandPalette,
    r2: KeyResponse,
)
    requires
        p0.visible,
        !is_control(c),
        key_acceptable(p0, PaletteKey::Text(c)),
        palette_key_effect(p0, PaletteKey::Text(c), p1, r1),
        palette_key_effect(p1, PaletteKey::Backspace, p2, r2),
    ensures
        p2.query@ == p0.query@,
        p2.cursor_pos == p0.cursor_pos,
        p2.visible,
        p0.listing_is_current() ==> p2.filtered@ == p0.filtered@,
{
    lemma_insert_then_remove(p0.query@, p1.query@, p2.query@, p0.cursor_pos as int, c);
    if p0.listing_is_current() {
        lemma_listing_determined(p0.commands@, p0.query@, p0.filtered@, p2.filtered@);
    }
}

pub proof fn lemma_listing_determined(cmds: Seq<Command>, q: Seq<char>, f: Seq<usize>, g: Seq<usize>)
    requires
        is_ranked_listing(cmds, q, f),
        is_ranked_listing(cmds, q, g),
    ensures
        f == g,
{
    lemma_sorted_same_members(cmds, q, f, g);
}

proof fn lemma_sorted_same_members(cmds: Seq<Command>, q: Seq<char>, f: Seq<usize>, g: Seq<usize>)
    requires
        forall|i: int, j: int|
            0 <= i < j < f.len() ==> ranked_before(cmds, q, #[trigger] f[i], #[trigger] f[j]),
        forall|i: int, j: int|
            0 <= i < j < g.len() ==> ranked_before(cmds, q, #[trigger] g[i], #[trigger] g[j]),
        forall|k: usize| #[trigger] f.contains(k) <==> g.contains(k),
    ensures
        f == g,
    decreases f.len(),
{
    if f.len() == 0 {
        if g.len() > 0 {
            assert(g.contains(g[0]));
            assert(f.contains(g[0]));
        }
        assert(f =~= g);
    } else if g.len() == 0 {
        assert(f.contains(f[0]));
        assert(g.contains(f[0]));
    } else {
        assert(f.contains(f[0]));
        assert(g.contains(f[0]));
        assert(g.contains(g[0]));
        let j = choose|j: int| 0 <= j < g.len() && g[j] == f[0];
        assert(f.contains(g[0]));
        let k = choose|k: int| 0 <= k < f.len() && f[k] == g[0];
        if j > 0 {
            assert(ranked_before(cmds, q, g[0], g[j]));
            if k > 0 {
                assert(ranked_before(cmds, q, f[0], f[k]));
            }
        }
        assert(f[0] == g[0]);
        let f1 = f.skip(1);
        let g1 = g.skip(1);
        assert forall|i: int, j2: int|
            0 <= i < j2 < f1.len() implies ranked_before(cmds, q, #[trigger] f1[i], #[trigger] f1[j2]) by {
            assert(f1[i] == f[i + 1] && f1[j2] == f[j2 + 1]);
        }
        assert forall|i: int, j2: int|
            0 <= i < j2 < g1.len() implies ranked_before(cmds, q, #[trigger] g1[i], #[trigger] g1[j2]) by {
            assert(g1[i] == g[i + 1] && g1[j2] == g[j2 + 1]);
        }
        assert forall|x: usize| #[trigger] f1.contains(x) implies g1.contains(x) by {
            let i = choose|i: int| 0 <= i < f1.len() && f1[i] == x;
            assert(f[i + 1] == x);
            assert(ranked_before(cmds, q, f[0], f[i + 1]));
            assert(f.contains(x));
            assert(g.contains(x));
            let w = choose|w: int| 0 <= w < g.len() && g[w] == x;
            assert(w != 0);
            assert(g1[w - 1] == x);
        }
        assert forall|x: usize| #[trigger] g1.contains(x) implies f1.contains(x) by {
            let i = choose|i: int| 0 <= i < g1.len() && g1[i] == x;
            assert(g[i + 1] == x);
            assert(ranked_before(cmds, q, g[0], g[i + 1]));
            assert(g.contains(x));
            assert(f.contains(x));
            let w = choose|w: int| 0 <= w < f.len() && f[w] == x;
            assert(w != 0);
            assert(f1[w - 1] == x);
        }
        lemma_sorted_same_members(cmds, q, f1, g1);
        assert(f =~= seq![f[0]] + f1);
        assert(g =~= seq![g[0]] + g1);
    }
}

/// With an empty query the palette lists every command, in the order
/// the commands were added.
pub proof fn lemma_empty_query_lists_all(cmds: Seq<Command>, f: Seq<usize>)
    requires
        is_ranked_listing(cmds, Seq::<char>::empty(), f),
        cmds.len() <= usize::MAX,
    ensures
        f == Seq::new(cmds.len(), |i: int| i as usize),
{
    let all = Seq::new(cmds.len(), |i: int| i as usize);
    let q = Seq::<char>::empty();
    assert forall|k: usize| #[trigger] all.contains(k) <==> (k < cmds.len() && command_matches(cmds[k as int], q)) by {
        if k < cmds.len() {
            assert(all[k as int] == k);
        }
    }
    assert forall|i: int, j: int| 0 <= i < j < all.len() implies ranked_before(cmds, q, #[trigger] all[i], #[trigger] all[j]) by {
    }
    lemma_listing_determined(cmds, q, f, all);
}

/// A text starts with itself, and a text that starts with the query
/// contains it.
proof fn lemma_prefix_facts(ql: Seq<char>, ll: Seq<char>)
    ensures
        ll == ql ==> is_prefix(ql, ll),
        is_prefix(ql, ll) ==> is_substring(ql, ll),
{
    if ll == ql {
        assert(ll.subrange(0, ql.len() as int) =~= ql);
    }
    if is_prefix(ql, ll) {
        assert(ll.subrange(0, 0 + ql.len() as int) == ql);
    }
}

/// The tiers of the search score for a non-empty query, all compared
/// case-insensitively: a label equal to the query scores 100; a longer
/// label that starts with it 80; a label that contains it further in 60;
/// a label without it but a description with it 40; anything else 0.
pub proof fn lemma_score_tiers(c: Command, q: Seq<char>)
    requires
        q.len() > 0,
    ensures
        lowercase_of(c.label@) == lowercase_of(q) ==> command_score(c, q) == 100,
        is_prefix(lowercase_of(q), lowercase_of(c.label@)) && lowercase_of(c.label@) != lowercase_of(q)
            ==> command_score(c, q) == 80,
        is_substring(lowercase_of(q), lowercase_of(c.label@)) && !is_prefix(
            lowercase_of(q),
            lowercase_of(c.label@),
        ) ==> command_score(c, q) == 60,
        !is_substring(lowercase_of(q), lowercase_of(c.label@)) && is_substring(
            lowercase_of(q),
            lowercase_of(c.description@),
        ) ==> command_score(c, q) == 40,
        !is_substring(lowercase_of(q), lowercase_of(c.label@)) && !is_substring(
            lowercase_of(q),
            lowercase_of(c.description@),
        ) ==> command_score(c, q) == 0,
{
    lemma_prefix_facts(lowercase_of(q), lowercase_of(c.label@));
}

/// In the palette's listing for a non-empty query, a command whose label
/// starts with the query comes before one whose label only contains it
/// further in, and a command whose label contains the query comes before
/// one that matches on its description alone.
pub proof fn lemma_label_matches_ranked_first(cmds: Seq<Command>, q: Seq<char>, f: Seq<usize>, i: int, j: int)
    requires
        is_ranked_listing(cmds, q, f),
        q.len() > 0,
        0 <= i < f.len(),
        0 <= j < f.len(),
    ensures
        is_prefix(lowercase_of(q), lowercase_of(cmds[f[i] as int].label@)) && is_substring(
            lowercase_of(q),
            lowercase_of(cmds[f[j] as int].label@),
        ) && !is_prefix(lowercase_of(q), lowercase_of(cmds[f[j] as int].label@)) ==> i < j,
        is_substring(lowercase_of(q), lowercase_of(cmds[f[i] as int].label@)) && !is_substring(
            lowercase_of(q),
            lowercase_of(cmds[f[j] as int].label@),
        ) ==> i < j,
{
    let a = cmds[f[i] as int];
    let b = cmds[f[j] as int];
    lemma_score_tiers(a, q);
    lemma_score_tiers(b, q);
    lemma_prefix_facts(lowercase_of(q), lowercase_of(a.label@));
    lemma_prefix_facts(lowercase_of(q), lowercase_of(b.label@));
    assert(f.contains(f[j]));
    assert(command_matches(b, q));
    if j < i {
        assert(ranked_before(cmds, q, f[j], f[i]));
    }
}

/// A non-empty query lists a command when its label, its description or
/// its category contains the query, compared case-insensitively, and only
/// then; a query found in the category alone is enough.
pub proof fn lemma_match_fields(c: Command, q: Seq<char>)
    requires
        q.len() > 0,
    ensures
        is_substring(lowercase_of(q), lowercase_of(c.label@)) ==> command_matches(c, q),
        is_substring(lowercase_of(q), lowercase_of(c.description@)) ==> command_matches(c, q),
        is_substring(lowercase_of(q), lowercase_of(c.category@)) ==> command_matches(c, q),
        command_matches(c, q) ==> is_substring(lowercase_of(q), lowercase_of(c.label@))
            || is_substring(lowercase_of(q), lowercase_of(c.description@)) || is_substring(
            lowercase_of(q),
            lowercase_of(c.category@),
        ),
{
}

/// The palette's listing holds every command whose category contains the
/// query.
pub proof fn lemma_category_match_listed(cmds: Seq<Command>, q: Seq<char>, f: Seq<usize>, k: usize)
    requires
        is_ranked_listing(cmds, q, f),
        k < cmds.len(),
        is_substring(lowercase_of(q), lowercase_of(cmds[k as int].category@)),
    ensures
        f.contains(k),
{
    if q.len() > 0 {
        lemma_match_fields(cmds[k as int], q);
    }
}

} // verus!
