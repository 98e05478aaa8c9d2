//! Styled text: spans with their style, the inline markup reader
//! (`**bold**`, `*italic*`, `` `code` ``, `~~strike~~`) and the text model of
//! the rich text editor.

use vstd::prelude::*;
use vstd::string::StringExecFns;
use vstd::utf8::{encode_scalar, encode_utf8_valid_utf8, is_char_boundary_start_end_of_seq};
use crate::kinds::{FontWeight, TextDecoration};
use crate::text::{owned, utf8_of, on_char_boundary, is_control, char_is_control, chars_of,
    string_push, string_remove, bytes_after_insert, lemma_insert_then_remove, lemma_utf8_push};

verus! {

/// The style of a span as far as text and markup decide it: weight, slant,
/// decoration and whether it sits on a highlight. Colours, sizes and
/// spacing are drawing parameters kept by the renderer.
#[derive(Clone, Copy, Debug, PartialEq, Eq, Structural)]
pub struct SpanStyle {
    pub font_weight: FontWeight,
    pub italic: bool,
    pub decoration: TextDecoration,
    /// Drawn over a background highlight (code spans).
    pub highlighted: bool,
}

/// The style of unformatted text.
pub open spec fn plain_style() -> SpanStyle {
    SpanStyle {
        font_weight: FontWeight::Regular,
        italic: false,
        decoration: TextDecoration::Plain,
        highlighted: false,
    }
}

impl SpanStyle {
    pub fn new() -> (r: Self)
        ensures
            r == plain_style(),
    {
        SpanStyle {
            font_weight: FontWeight::Regular,
            italic: false,
            decoration: TextDecoration::Plain,
            highlighted: false,
        }
    }

    pub fn bold(self) -> (r: Self)
        ensures
            r == (SpanStyle { font_weight: FontWeight::Bold, ..self }),
    {
        SpanStyle { font_weight: FontWeight::Bold, ..self }
    }

    pub fn italic(self) -> (r: Self)
        ensures
            r == (SpanStyle { italic: true, ..self }),
    {
        SpanStyle { italic: true, ..self }
    }

    pub fn underline(self) -> (r: Self)
        ensures
            r == (SpanStyle { decoration: TextDecoration::Underline, ..self }),
    {
        SpanStyle { decoration: TextDecoration::Underline, ..self }
    }

    pub fn strikethrough(self) -> (r: Self)
        ensures
            r == (SpanStyle { decoration: TextDecoration::Strikethrough, ..self }),
    {
        SpanStyle { decoration: TextDecoration::Strikethrough, ..self }
    }

    /// Puts the span on a background highlight.
    pub fn background(self) -> (r: Self)
        ensures
            r == (SpanStyle { highlighted: true, ..self }),
    {
        SpanStyle { highlighted: true, ..self }
    }
}

impl Default for SpanStyle {
    fn default() -> (r: Self)
        ensures
            r == plain_style(),
    {
        SpanStyle::new()
    }
}

/// A styled segment of text, with nested segments that follow it.
pub struct TextSpan {
    pub text: String,
    pub style: SpanStyle,
    pub children: Vec<TextSpan>,
}

/// The text of a span followed by the text of its children, in order.
pub open spec fn span_text(sp: TextSpan) -> Seq<char>
    decreases sp, 1nat,
{
    sp.text@ + spans_text(sp.children@)
}

/// The text of a sequence of spans, one after the other.
pub open spec fn spans_text(s: Seq<TextSpan>) -> Seq<char>
    decreases s, 0nat,
{
    if s.len() == 0 {
        Seq::empty()
    } else {
        spans_text(s.drop_last()) + span_text(s.last())
    }
}

/// `sp` is a span with the given text and style and no children.
pub open spec fn is_leaf(sp: TextSpan, text: Seq<char>, style: SpanStyle) -> bool {
    sp.text@ == text && sp.style == style && sp.children@.len() == 0
}

impl TextSpan {
    pub fn new(text: &str) -> (r: Self)
        ensures
            is_leaf(r, text@, plain_style()),
    {
        TextSpan { text: owned(text), style: SpanStyle::new(), children: Vec::new() }
    }

    pub fn styled(text: &str, style: SpanStyle) -> (r: Self)
        ensures
            is_leaf(r, text@, style),
    {
        TextSpan { text: owned(text), style, children: Vec::new() }
    }

    pub fn with_style(self, style: SpanStyle) -> (r: Self)
        ensures
            r == (TextSpan { style, ..self }),
    {
        let mut s = self;
        s.style = style;
        s
    }

    pub fn with_child(self, child: TextSpan) -> (r: Self)
        ensures
            r.text == self.text,
            r.style == self.style,
            r.children@ == self.children@.push(child),
    {
        let mut s = self;
        s.children.push(child);
        s
    }

    pub fn bold(text: &str) -> (r: Self)
        ensures
            is_leaf(r, text@, SpanStyle { font_weight: FontWeight::Bold, ..plain_style() }),
    {
        Self::styled(text, SpanStyle::new().bold())
    }

    pub fn italic(text: &str) -> (r: Self)
        ensures
            is_leaf(r, text@, SpanStyle { italic: true, ..plain_style() }),
    {
        Self::styled(text, SpanStyle::new().italic())
    }

    /// Total character count, children included.
    pub fn char_count(&self) -> (r: usize)
        requires
            span_text(*self).len() <= usize::MAX,
        ensures
            r == span_text(*self).len(),
        decreases *self,
    {
        let own = chars_of(self.text.as_str());
        own.len() + spans_char_count(&self.children)
    }

    /// The text with the text of the children appended.
    pub fn plain_text(&self) -> (r: String)
        ensures
            r@ == span_text(*self),
        decreases *self,
    {
        let mut result = self.text.clone();
        let rest = spans_plain_text(&self.children);
        result.append(rest.as_str());
        result
    }
}

/// The number of characters of a sequence of spans, children included.
pub fn spans_char_count(spans: &Vec<TextSpan>) -> (r: usize)
    requires
        spans_text(spans@).len() <= usize::MAX,
    ensures
        r == spans_text(spans@).len(),
    decreases spans@,
{
    let mut total: usize = 0;
    let mut i: usize = 0;
    while i < spans.len()
        invariant
            i <= spans@.len(),
            total == spans_text(spans@.take(i as int)).len(),
            spans_text(spans@).len() <= usize::MAX,
        decreases spans@.len() - i,
    {
        proof {
            assert(spans@.take(i + 1).drop_last() =~= spans@.take(i as int));
            lemma_text_prefix(spans@, i + 1);
        }
        let c = spans[i].char_count();
        total = total + c;
        i = i + 1;
    }
    proof {
        assert(spans@.take(spans@.len() as int) =~= spans@);
    }
    total
}

/// A prefix of a sequence of spans has no more characters than the whole.
proof fn lemma_text_prefix(s: Seq<TextSpan>, k: int)
    requires
        0 <= k <= s.len(),
    ensures
        spans_text(s.take(k)).len() <= spans_text(s).len(),
    decreases s.len(),
{
    if k < s.len() {
        assert(s.drop_last().take(k) =~= s.take(k));
        lemma_text_prefix(s.drop_last(), k);
    } else {
        assert(s.take(k) =~= s);
    }
}

/// The text of a sequence of spans, one after the other.
pub fn spans_plain_text(spans: &Vec<TextSpan>) -> (r: String)
    ensures
        r@ == spans_text(spans@),
    decreases spans@,
{
    let mut result = String::new();
    let mut i: usize = 0;
    while i < spans.len()
        invariant
            i <= spans@.len(),
            result@ == spans_text(spans@.take(i as int)),
        decreases spans@.len() - i,
    {
        proof {
            assert(spans@.take(i + 1).drop_last() =~= spans@.take(i as int));
        }
        let t = spans[i].plain_text();
        result.append(t.as_str());
        i = i + 1;
    }
    proof {
        assert(spans@.take(spans@.len() as int) =~= spans@);
    }
    result
}


// ---------------------------------------------------------------------------
// inline markup
// ---------------------------------------------------------------------------

/// Position `k` of `s` opens a formatted run: `*` (italic, or bold when
/// doubled), `` ` `` (code) or a doubled `~` (strikethrough).
pub open spec fn opens_run(s: Seq<char>, k: int) -> bool {
    s[k] == '*' || s[k] == '`' || (s[k] == '~' && k + 1 < s.len() && s[k + 1] == '~')
}

/// The first position from `k` on that opens a run, or the end of `s`.
pub open spec fn next_run(s: Seq<char>, k: int) -> int
    decreases s.len() - k,
{
    if k >= s.len() {
        s.len() as int
    } else if opens_run(s, k) {
        k
    } else {
        next_run(s, k + 1)
    }
}

/// Position `k` of `s` holds the closing mark `m` (doubled when `pair`).
pub open spec fn closes_run(s: Seq<char>, k: int, m: char, pair: bool) -> bool {
    s[k] == m && (!pair || (k + 1 < s.len() && s[k + 1] == m))
}

/// The first position from `k` on holding the closing mark, or the end of
/// `s` when the run is never closed.
pub open spec fn run_close(s: Seq<char>, k: int, m: char, pair: bool) -> int
    decreases s.len() - k,
{
    if k >= s.len() {
        s.len() as int
    } else if closes_run(s, k, m, pair) {
        k
    } else {
        run_close(s, k + 1, m, pair)
    }
}

/// The kind of run opened at position `j`: its mark, whether the mark is
/// doubled, and the style of its text.
pub open spec fn run_mark(s: Seq<char>, j: int) -> (char, bool, SpanStyle) {
    if s[j] == '*' && j + 1 < s.len() && s[j + 1] == '*' {
        ('*', true, SpanStyle { font_weight: FontWeight::Bold, ..plain_style() })
    } else if s[j] == '*' {
        ('*', false, SpanStyle { italic: true, ..plain_style() })
    } else if s[j] == '`' {
        ('`', false, SpanStyle { highlighted: true, ..plain_style() })
    } else {
        ('~', true, SpanStyle { decoration: TextDecoration::Strikethrough, ..plain_style() })
    }
}

/// Where the text of the run opened at `j` starts.
pub open spec fn run_body_start(s: Seq<char>, j: int) -> int {
    if run_mark(s, j).1 {
        j + 2
    } else {
        j + 1
    }
}

/// Where the text of the run opened at `j` ends.
pub open spec fn run_body_end(s: Seq<char>, j: int) -> int {
    run_close(s, run_body_start(s, j), run_mark(s, j).0, run_mark(s, j).1)
}

/// Where reading goes on after the run opened at `j`: past its closing
/// mark, or at the end when it is never closed.
pub open spec fn run_after(s: Seq<char>, j: int) -> int {
    let e = run_body_end(s, j);
    if e < s.len() {
        e + (if run_mark(s, j).1 { 2int } else { 1int })
    } else {
        s.len() as int
    }
}

/// The spans read from position `i` of `s`: each stretch of unmarked text
/// becomes a plain span, each run a span of its text in its style (an empty
/// run too; a run never closed takes the rest of the text).
pub open spec fn markup_from(s: Seq<char>, i: int) -> Seq<(Seq<char>, SpanStyle)>
    decreases s.len() - i,
{
    if 0 <= i < s.len() {
        let j = next_run(s, i);
        let lead = if j > i {
            seq![(s.subrange(i, j), plain_style())]
        } else {
            Seq::empty()
        };
        if j >= s.len() {
            lead
        } else {
            proof {
                lemma_next_run_bounds(s, i);
                lemma_run_close_bounds(s, run_body_start(s, j), run_mark(s, j).0, run_mark(s, j).1);
            }
            lead + seq![(s.subrange(run_body_start(s, j), run_body_end(s, j)), run_mark(s, j).2)]
                + markup_from(s, run_after(s, j))
        }
    } else {
        Seq::empty()
    }
}

/// The spans of a marked-up text.
pub open spec fn markup_spans(s: Seq<char>) -> Seq<(Seq<char>, SpanStyle)> {
    markup_from(s, 0)
}

/// With no run opening from `k` on, the next one is at the end.
proof fn lemma_no_run_from(s: Seq<char>, k: int)
    requires
        0 <= k <= s.len(),
        forall|p: int| k <= p < s.len() ==> !opens_run(s, p),
    ensures
        next_run(s, k) == s.len(),
    decreases s.len() - k,
{
    if k < s.len() {
        lemma_no_run_from(s, k + 1);
    }
}

/// With no mark `m` from `k` on, the run is closed only by the end.
proof fn lemma_no_close_from(s: Seq<char>, k: int, m: char, pair: bool)
    requires
        0 <= k <= s.len(),
        forall|p: int| k <= p < s.len() ==> s[p] != m,
    ensures
        run_close(s, k, m, pair) == s.len(),
    decreases s.len() - k,
{
    if k < s.len() {
        lemma_no_close_from(s, k + 1, m, pair);
    }
}

/// Text without markup reads as a single plain span holding all of it
/// (and as no span at all when empty).
pub proof fn lemma_unmarked_text(s: Seq<char>)
    requires
        forall|p: int| 0 <= p < s.len() ==> !opens_run(s, p),
    ensures
        markup_spans(s) == (if s.len() == 0 {
            Seq::<(Seq<char>, SpanStyle)>::empty()
        } else {
            seq![(s, plain_style())]
        }),
{
    if s.len() > 0 {
        lemma_no_run_from(s, 0);
        assert(s.subrange(0, s.len() as int) =~= s);
    }
}

/// The style a run gets from its mark: `**` bold, `*` italic, `` ` ``
/// highlighted code, `~~` strikethrough.
pub open spec fn run_style(m: char, pair: bool) -> SpanStyle {
    if m == '*' && pair {
        SpanStyle { font_weight: FontWeight::Bold, ..plain_style() }
    } else if m == '*' {
        SpanStyle { italic: true, ..plain_style() }
    } else if m == '`' {
        SpanStyle { highlighted: true, ..plain_style() }
    } else {
        SpanStyle { decoration: TextDecoration::Strikethrough, ..plain_style() }
    }
}

/// The marks that open runs: `**`, `*`, `` ` `` and `~~`.
pub open spec fn is_run_mark(m: char, pair: bool) -> bool {
    (m == '*') || (m == '`' && !pair) || (m == '~' && pair)
}

/// The mark written once, or twice when doubled.
pub open spec fn mark_text(m: char, pair: bool) -> Seq<char> {
    if pair {
        seq![m, m]
    } else {
        seq![m]
    }
}

/// Text free of its mark, written between the marks, reads as one span of
/// that text in the mark's style. (A single `*` around nothing would be
/// `**`, the opening of bold text, so italic text is not empty.)
pub proof fn lemma_marked_text(b: Seq<char>, m: char, pair: bool)
    requires
        is_run_mark(m, pair),
        forall|p: int| 0 <= p < b.len() ==> b[p] != m,
        m == '*' && !pair ==> b.len() > 0,
    ensures
        markup_spans(mark_text(m, pair) + b + mark_text(m, pair)) == seq![(b, run_style(m, pair))],
{
    let w = mark_text(m, pair);
    let s = w + b + w;
    let n = w.len() as int;
    assert(s[0] == m);
    if pair {
        assert(s[1] == m);
    } else if b.len() > 0 {
        assert(s[1] == b[0]);
    }
    assert(opens_run(s, 0));
    assert(next_run(s, 0) == 0);
    assert(run_mark(s, 0).0 == m && run_mark(s, 0).1 == pair && run_mark(s, 0).2 == run_style(m, pair));
    assert(run_body_start(s, 0) == n);
    assert forall|p: int| n <= p < n + b.len() implies s[p] != m by {
        assert(s[p] == b[p - n]);
    }
    assert(s[n + b.len()] == m);
    if pair {
        assert(s[n + b.len() + 1] == m);
    }
    lemma_close_at_end(s, n, b.len() as int, m, pair);
    assert(run_body_end(s, 0) == n + b.len());
    assert(s.subrange(n, n + b.len()) =~= b);
    assert(run_after(s, 0) == s.len());
    let rest = markup_from(s, run_after(s, 0));
    assert(rest =~= Seq::<(Seq<char>, SpanStyle)>::empty());
    let run = seq![(s.subrange(run_body_start(s, 0), run_body_end(s, 0)), run_mark(s, 0).2)];
    assert(markup_from(s, 0) == Seq::<(Seq<char>, SpanStyle)>::empty() + run + rest);
    assert(markup_from(s, 0) =~= seq![(b, run_style(m, pair))]);
}

/// Before the closing mark at `n + len`, the mark does not occur from `n`
/// on, so the run closes exactly there.
proof fn lemma_close_at_end(s: Seq<char>, n: int, len: int, m: char, pair: bool)
    requires
        0 <= n,
        0 <= len,
        n + len < s.len(),
        closes_run(s, n + len, m, pair),
        forall|p: int| n <= p < n + len ==> s[p] != m,
    ensures
        run_close(s, n, m, pair) == n + len,
    decreases len,
{
    if len > 0 {
        lemma_close_at_end(s, n + 1, len - 1, m, pair);
    }
}

/// `next_run` lands between `k` and the end, on a run opening if before the
/// end, with none skipped.
pub proof fn lemma_next_run_bounds(s: Seq<char>, k: int)
    requires
        0 <= k <= s.len(),
    ensures
        k <= next_run(s, k) <= s.len(),
        next_run(s, k) < s.len() ==> opens_run(s, next_run(s, k)),
        forall|p: int| k <= p < next_run(s, k) ==> !opens_run(s, p),
    decreases s.len() - k,
{
    if k < s.len() && !opens_run(s, k) {
        lemma_next_run_bounds(s, k + 1);
    }
}

/// `run_close` lands between `k` and the end, on a closing mark if before
/// the end.
pub proof fn lemma_run_close_bounds(s: Seq<char>, k: int, m: char, pair: bool)
    requires
        0 <= k <= s.len(),
    ensures
        k <= run_close(s, k, m, pair) <= s.len(),
        run_close(s, k, m, pair) < s.len() ==> closes_run(s, run_close(s, k, m, pair), m, pair),
    decreases s.len() - k,
{
    if k < s.len() && !closes_run(s, k, m, pair) {
        lemma_run_close_bounds(s, k + 1, m, pair);
    }
}

/// The first position from `k` on that opens a run, or the end.
fn find_next_run(v: &Vec<char>, k: usize) -> (r: usize)
    requires
        k <= v@.len(),
    ensures
        r == next_run(v@, k as int),
{
    let mut p = k;
    while p < v.len()
        invariant
            k <= p <= v@.len(),
            next_run(v@, k as int) == next_run(v@, p as int),
        decreases v@.len() - p,
    {
        let c = v[p];
        if c == '*' || c == '`' || (c == '~' && p + 1 < v.len() && v[p + 1] == '~') {
            return p;
        }
        p = p + 1;
    }
    p
}

/// The first position from `k` on holding the closing mark, or the end.
fn find_close(v: &Vec<char>, k: usize, m: char, pair: bool) -> (r: usize)
    requires
        k <= v@.len(),
    ensures
        r == run_close(v@, k as int, m, pair),
{
    let mut p = k;
    while p < v.len()
        invariant
            k <= p <= v@.len(),
            run_close(v@, k as int, m, pair) == run_close(v@, p as int, m, pair),
        decreases v@.len() - p,
    {
        if v[p] == m && (!pair || (p + 1 < v.len() && v[p + 1] == m)) {
            return p;
        }
        p = p + 1;
    }
    p
}

/// The mark, doubling and style of the run opened at `j`.
fn mark_at(v: &Vec<char>, j: usize) -> (r: (char, bool, SpanStyle))
    requires
        j < v@.len(),
    ensures
        r == run_mark(v@, j as int),
{
    let n = v.len();
    if v[j] == '*' && j + 1 < n && v[j + 1] == '*' {
        ('*', true, SpanStyle::new().bold())
    } else if v[j] == '*' {
        ('*', false, SpanStyle::new().italic())
    } else if v[j] == '`' {
        ('`', false, SpanStyle::new().background())
    } else {
        ('~', true, SpanStyle::new().strikethrough())
    }
}

/// A string of the characters `v[a..b]`.
fn string_of_range(v: &Vec<char>, a: usize, b: usize) -> (s: String)
    requires
        a <= b <= v@.len(),
    ensures
        s@ == v@.subrange(a as int, b as int),
{
    let mut s = String::new();
    let mut p = a;
    while p < b
        invariant
            a <= p <= b <= v@.len(),
            s@ == v@.subrange(a as int, p as int),
        decreases b - p,
    {
        string_push(&mut s, v[p]);
        proof {
            assert(v@.subrange(a as int, p + 1) =~= v@.subrange(a as int, p as int).push(v@[p as int]));
        }
        p = p + 1;
    }
    s
}

/// Display-only text made of styled spans.
pub struct RichText {
    spans: Vec<TextSpan>,
}

impl RichText {
    /// The spans, in order.
    pub closed spec fn spans_view(&self) -> Seq<TextSpan> {
        self.spans@
    }
}

impl View for RichText {
    type V = Seq<TextSpan>;

    open spec fn view(&self) -> Seq<TextSpan> {
        self.spans_view()
    }
}

impl RichText {
    pub fn new() -> (r: Self)
        ensures
            r@.len() == 0,
    {
        RichText { spans: Vec::new() }
    }

    pub fn with_span(self, span: TextSpan) -> (r: Self)
        ensures
            r@ == self@.push(span),
    {
        let mut s = self;
        s.spans.push(span);
        s
    }

    pub fn with_text(self, text: &str) -> (r: Self)
        ensures
            r@.len() == self@.len() + 1,
            r@.take(self@.len() as int) == self@,
            is_leaf(r@.last(), text@, plain_style()),
    {
        let mut s = self;
        s.spans.push(TextSpan::new(text));
        proof {
            assert(s.spans@.take(self@.len() as int) =~= self@);
        }
        s
    }

    /// The spans, for drawing.
    pub fn spans(&self) -> (r: &Vec<TextSpan>)
        ensures
            r@ == self@,
    {
        &self.spans
    }

    /// Reads simple inline markup: `**bold**`, `*italic*`, `` `code` ``
    /// and `~~strike~~`; the spans are exactly those of `markup_spans`.
    pub fn from_markdown(text: &str) -> (r: Self)
        ensures
            r@.len() == markup_spans(text@).len(),
            forall|k: int|
                0 <= k < r@.len() ==> is_leaf(
                    #[trigger] r@[k],
                    markup_spans(text@)[k].0,
                    markup_spans(text@)[k].1,
                ),
    {
        let v = chars_of(text);
        let mut spans: Vec<TextSpan> = Vec::new();
        let mut i: usize = 0;
        let ghost mut done: Seq<(Seq<char>, SpanStyle)> = Seq::empty();
        while i < v.len()
            invariant
                i <= v@.len(),
                v@ == text@,
                done + markup_from(v@, i as int) == markup_spans(v@),
                spans@.len() == done.len(),
                forall|k: int| 0 <= k < done.len() ==> is_leaf(#[trigger] spans@[k], done[k].0, done[k].1),
            decreases v@.len() - i,
        {
            let ghost before = done;
            let ghost i0 = i as int;
            proof {
                lemma_next_run_bounds(v@, i as int);
            }
            let j = find_next_run(&v, i);
            if j > i {
                let piece = string_of_range(&v, i, j);
                spans.push(TextSpan { text: piece, style: SpanStyle::new(), children: Vec::new() });
                proof {
                    done = done.push((v@.subrange(i as int, j as int), plain_style()));
                }
            }
            if j < v.len() {
                let (m, pair, style) = mark_at(&v, j);
                let start = if pair {
                    j + 2
                } else {
                    j + 1
                };
                proof {
                    lemma_run_close_bounds(v@, start as int, m, pair);
                }
                let e = find_close(&v, start, m, pair);
                let body = string_of_range(&v, start, e);
                spans.push(TextSpan { text: body, style, children: Vec::new() });
                proof {
                    done = done.push((v@.subrange(start as int, e as int), style));
                }
                i = if e < v.len() {
                    if pair {
                        e + 2
                    } else {
                        e + 1
                    }
                } else {
                    v.len()
                };
            } else {
                i = j;
            }
            proof {
                let lead = if j > i0 {
                    seq![(v@.subrange(i0, j as int), plain_style())]
                } else {
                    Seq::<(Seq<char>, SpanStyle)>::empty()
                };
                if j < v@.len() {
                    let run = seq![(v@.subrange(run_body_start(v@, j as int), run_body_end(v@, j as int)), run_mark(v@, j as int).2)];
                    assert(markup_from(v@, i0) == lead + run + markup_from(v@, i as int));
                    assert(done =~= before + lead + run);
                    assert(done + markup_from(v@, i as int) =~= before + (lead + run + markup_from(v@, i as int)));
                } else {
                    assert(markup_from(v@, i0) == lead);
                    assert(done =~= before + lead);
                    assert(done + markup_from(v@, i as int) =~= before + lead);
                }
            }
        }
        RichText { spans }
    }
}

impl Default for RichText {
    fn default() -> (r: Self)
        ensures
            r@.len() == 0,
    {
        RichText::new()
    }
}

// ---------------------------------------------------------------------------
// editor
// ---------------------------------------------------------------------------

/// A key press as the rich text editor reads it: the keys it acts on by
/// name, the text a key produced, or a key that produced none.
pub enum EditorKey {
    Backspace,
    ArrowLeft,
    ArrowRight,
    Enter,
    Text(String),
    Other,
}

/// The characters of `t` that are not control characters, in order.
pub open spec fn printable(t: Seq<char>) -> Seq<char>
    decreases t.len(),
{
    if t.len() == 0 {
        Seq::empty()
    } else if is_control(t.last()) {
        printable(t.drop_last())
    } else {
        printable(t.drop_last()).push(t.last())
    }
}

/// `after` is `before` with `extra` appended to the text of its first span
/// (nothing changes when there is no span).
pub open spec fn first_text_extended(before: Seq<TextSpan>, after: Seq<TextSpan>, extra: Seq<char>) -> bool {
    if before.len() == 0 {
        after == before
    } else {
        &&& after.len() == before.len()
        &&& after[0].text@ == before[0].text@ + extra
        &&& after[0].style == before[0].style
        &&& after[0].children == before[0].children
        &&& forall|k: int| 1 <= k < before.len() ==> after[k] == before[k]
    }
}

/// Bold becomes regular weight; any other weight becomes bold.
pub open spec fn bold_toggled(s: SpanStyle) -> SpanStyle {
    SpanStyle {
        font_weight: if s.font_weight == FontWeight::Bold {
            FontWeight::Regular
        } else {
            FontWeight::Bold
        },
        ..s
    }
}

/// Italic flips.
pub open spec fn italic_toggled(s: SpanStyle) -> SpanStyle {
    SpanStyle { italic: !s.italic, ..s }
}

/// Underline goes; any other decoration becomes underline.
pub open spec fn underline_toggled(s: SpanStyle) -> SpanStyle {
    SpanStyle {
        decoration: if s.decoration == TextDecoration::Underline {
            TextDecoration::Plain
        } else {
            TextDecoration::Underline
        },
        ..s
    }
}

/// Toggling a style twice gives it back: always for italic, and for bold
/// and underline from the states the toggles themselves produce (regular
/// or bold weight; no decoration or underline). A medium weight, say,
/// comes back bold.
pub proof fn lemma_toggle_twice(s: SpanStyle)
    ensures
        italic_toggled(italic_toggled(s)) == s,
        (s.font_weight == FontWeight::Regular || s.font_weight == FontWeight::Bold)
            ==> bold_toggled(bold_toggled(s)) == s,
        (s.decoration == TextDecoration::Plain || s.decoration == TextDecoration::Underline)
            ==> underline_toggled(underline_toggled(s)) == s,
{
}

/// Editable rich text: the spans, a byte cursor into the first span, the
/// focus and the style for new text.
pub struct RichTextEditor {
    content: Vec<TextSpan>,
    cursor_pos: usize,
    selection_start: Option<usize>,
    focused: bool,
    current_style: SpanStyle,
}

impl RichTextEditor {
    pub closed spec fn content_view(&self) -> Seq<TextSpan> {
        self.content@
    }

    pub closed spec fn cursor(&self) -> usize {
        self.cursor_pos
    }

    pub closed spec fn has_focus(&self) -> bool {
        self.focused
    }

    pub closed spec fn style_view(&self) -> SpanStyle {
        self.current_style
    }

    pub closed spec fn selection(&self) -> Option<usize> {
        self.selection_start
    }

    /// Everything but the spans is as in `other`.
    pub open spec fn same_but_content(&self, other: &Self) -> bool {
        &&& self.cursor() == other.cursor()
        &&& self.has_focus() == other.has_focus()
        &&& self.style_view() == other.style_view()
        &&& self.selection() == other.selection()
    }

    /// Whether a key can be taken: the cursor must not run past the largest
    /// index, and Backspace must remove a whole character.
    pub open spec fn key_acceptable(&self, key: EditorKey) -> bool {
        !self.has_focus() || match key {
            EditorKey::Backspace => {
                self.cursor() == 0 || self.content_view().len() == 0 || self.cursor() > utf8_of(
                    self.content_view()[0].text@,
                ).len() || on_char_boundary(self.content_view()[0].text@, self.cursor() - 1)
            },
            EditorKey::ArrowRight => self.cursor() < usize::MAX,
            EditorKey::Enter => self.cursor() < usize::MAX,
            EditorKey::Text(t) => self.cursor() + printable(t@).len() <= usize::MAX,
            _ => true,
        }
    }

    pub fn new() -> (r: Self)
        ensures
            r.content_view().len() == 1,
            is_leaf(r.content_view()[0], Seq::empty(), plain_style()),
            r.cursor() == 0,
            r.selection() is None,
            !r.has_focus(),
            r.style_view() == plain_style(),
    {
        let empty = "";
        proof {
            reveal_strlit("");
            assert(empty@ =~= Seq::<char>::empty());
        }
        let mut content = Vec::new();
        content.push(TextSpan::new(empty));
        RichTextEditor {
            content,
            cursor_pos: 0,
            selection_start: None,
            focused: false,
            current_style: SpanStyle::new(),
        }
    }

    pub fn with_content(self, text: &str) -> (r: Self)
        ensures
            r.same_but_content(&self),
            r.content_view().len() == 1,
            is_leaf(r.content_view()[0], text@, plain_style()),
    {
        let mut s = self;
        let mut content = Vec::new();
        content.push(TextSpan::new(text));
        s.content = content;
        s
    }

    /// The spans, for drawing.
    pub fn content(&self) -> (r: &Vec<TextSpan>)
        ensures
            r@ == self.content_view(),
    {
        &self.content
    }

    /// The cursor's byte index into the first span.
    pub fn cursor_pos(&self) -> (r: usize)
        ensures
            r == self.cursor(),
    {
        self.cursor_pos
    }

    pub fn is_focused(&self) -> (r: bool)
        ensures
            r == self.has_focus(),
    {
        self.focused
    }

    /// The style new text is typed in.
    pub fn current_style(&self) -> (r: SpanStyle)
        ensures
            r == self.style_view(),
    {
        self.current_style
    }

    /// All the text, span after span.
    pub fn plain_text(&self) -> (r: String)
        ensures
            r@ == spans_text(self.content_view()),
    {
        spans_plain_text(&self.content)
    }

    /// Bold for text typed from now on, or back to regular weight.
    pub fn toggle_bold(&mut self)
        ensures
            final(self).content_view() == old(self).content_view(),
            final(self).cursor() == old(self).cursor(),
            final(self).has_focus() == old(self).has_focus(),
            final(self).selection() == old(self).selection(),
            final(self).style_view() == bold_toggled(old(self).style_view()),
    {
        self.current_style.font_weight = match self.current_style.font_weight {
            FontWeight::Bold => FontWeight::Regular,
            _ => FontWeight::Bold,
        };
    }

    /// Italic for text typed from now on, or back to upright.
    pub fn toggle_italic(&mut self)
        ensures
            final(self).content_view() == old(self).content_view(),
            final(self).cursor() == old(self).cursor(),
            final(self).has_focus() == old(self).has_focus(),
            final(self).selection() == old(self).selection(),
            final(self).style_view() == italic_toggled(old(self).style_view()),
    {
        self.current_style.italic = !self.current_style.italic;
    }

    /// Underline for text typed from now on, or no decoration.
    pub fn toggle_underline(&mut self)
        ensures
            final(self).content_view() == old(self).content_view(),
            final(self).cursor() == old(self).cursor(),
            final(self).has_focus() == old(self).has_focus(),
            final(self).selection() == old(self).selection(),
            final(self).style_view() == underline_toggled(old(self).style_view()),
    {
        self.current_style.decoration = match self.current_style.decoration {
            TextDecoration::Underline => TextDecoration::Plain,
            _ => TextDecoration::Underline,
        };
    }

    /// Appends `c` to the first span and moves the cursor on by one.
    fn insert_char(&mut self, c: char)
        requires
            old(self).cursor() < usize::MAX,
        ensures
            first_text_extended(old(self).content_view(), final(self).content_view(), seq![c]),
            final(self).cursor() == if old(self).content_view().len() > 0 {
                old(self).cursor() + 1
            } else {
                old(self).cursor() as int
            },
            final(self).has_focus() == old(self).has_focus(),
            final(self).style_view() == old(self).style_view(),
            final(self).selection() == old(self).selection(),
    {
        if self.content.len() > 0 {
            let ghost before = self.content@;
            string_push(&mut self.content[0].text, c);
            proof {
                assert(self.content@[0].text@ =~= before[0].text@ + seq![c]);
            }
            self.cursor_pos = self.cursor_pos + 1;
        }
    }

    /// Takes out the character just before the cursor, when the cursor is
    /// inside the first span.
    fn delete_char(&mut self)
        requires
            old(self).cursor() == 0 || old(self).content_view().len() == 0 || old(self).cursor()
                > utf8_of(old(self).content_view()[0].text@).len() || on_char_boundary(
                old(self).content_view()[0].text@,
                old(self).cursor() - 1,
            ),
        ensures
            final(self).has_focus() == old(self).has_focus(),
            final(self).style_view() == old(self).style_view(),
            final(self).selection() == old(self).selection(),
            deleted_before_cursor(*old(self), *final(self)),
    {
        if self.cursor_pos > 0 && self.content.len() > 0 {
            if self.cursor_pos <= self.content[0].text.as_str().as_bytes().len() {
                let ghost before = self.content@;
                let idx = self.cursor_pos - 1;
                let removed = string_remove(&mut self.content[0].text, idx);
                proof {
                    let b = utf8_of(before[0].text@);
                    let k = encode_scalar(removed as u32).len();
                    assert(b =~= b.take(idx as int) + encode_scalar(removed as u32) + b.skip(idx + k));
                }
                self.cursor_pos = idx;
            }
        }
    }

    /// A left click: inside the editor it takes the focus, outside it drops
    /// it; returns whether the click was inside.
    pub fn click(&mut self, inside: bool) -> (consumed: bool)
        ensures
            consumed == inside,
            final(self).has_focus() == inside,
            final(self).content_view() == old(self).content_view(),
            final(self).cursor() == old(self).cursor(),
            final(self).style_view() == old(self).style_view(),
            final(self).selection() == old(self).selection(),
    {
        self.focused = inside;
        inside
    }

    /// Whether a key press can be taken (see `key_acceptable`).
    pub fn accepts_key(&self, key: &EditorKey) -> (r: bool)
        ensures
            r == self.key_acceptable(*key),
    {
        if !self.focused {
            return true;
        }
        match key {
            EditorKey::Backspace => {
                if self.cursor_pos == 0 || self.content.len() == 0 {
                    true
                } else {
                    let t = self.content[0].text.as_str();
                    self.cursor_pos > t.as_bytes().len() || t.is_char_boundary(self.cursor_pos - 1)
                }
            },
            EditorKey::ArrowRight => self.cursor_pos < usize::MAX,
            EditorKey::Enter => self.cursor_pos < usize::MAX,
            EditorKey::Text(t) => {
                let n = count_printable(t.as_str());
                n <= usize::MAX - self.cursor_pos
            },
            _ => true,
        }
    }

    /// The keyboard part of the editor's event handling, for a pressed key;
    /// returns whether the key was used.
    pub fn handle_key(&mut self, key: &EditorKey) -> (handled: bool)
        requires
            old(self).key_acceptable(*key),
        ensures
            editor_key_effect(*old(self), *key, *final(self), handled),
    {
        if !self.focused {
            return false;
        }
        match key {
            EditorKey::Backspace => {
                self.delete_char();
                true
            },
            EditorKey::ArrowLeft => {
                if self.cursor_pos > 0 {
                    self.cursor_pos = self.cursor_pos - 1;
                    true
                } else {
                    false
                }
            },
            EditorKey::ArrowRight => {
                self.cursor_pos = self.cursor_pos + 1;
                true
            },
            EditorKey::Enter => {
                self.insert_char('\n');
                true
            },
            EditorKey::Text(t) => {
                let v = chars_of(t.as_str());
                let ghost start = *self;
                let mut i: usize = 0;
                while i < v.len()
                    invariant
                        i <= v@.len(),
                        v@ == t@,
                        start.cursor() + printable(t@).len() <= usize::MAX,
                        self.has_focus() == start.has_focus(),
                        self.style_view() == start.style_view(),
                        self.selection() == start.selection(),
                        first_text_extended(
                            start.content_view(),
                            self.content_view(),
                            printable(v@.take(i as int)),
                        ),
                        self.cursor() == if start.content_view().len() > 0 {
                            start.cursor() + printable(v@.take(i as int)).len()
                        } else {
                            start.cursor() as int
                        },
                    decreases v@.len() - i,
                {
                    proof {
                        assert(v@.take(i + 1).drop_last() =~= v@.take(i as int));
                        assert(v@.take(i + 1).last() == v@[i as int]);
                        lemma_printable_prefix(v@, i + 1);
                    }
                    let c = v[i];
                    if !char_is_control(c) {
                        let ghost mid = self.content_view();
                        self.insert_char(c);
                        proof {
                            if start.content_view().len() > 0 {
                                assert(self.content_view()[0].text@ =~= start.content_view()[0].text@
                                    + printable(v@.take(i + 1)));
                            }
                        }
                    }
                    i = i + 1;
                }
                proof {
                    assert(v@.take(v@.len() as int) =~= v@);
                }
                true
            },
            EditorKey::Other => false,
        }
    }
}

/// What a pressed key does to the editor (`before` to `after`) and
/// whether the editor used it.
pub open spec fn editor_key_effect(before: RichTextEditor, key: EditorKey, after: RichTextEditor, handled: bool) -> bool {
    &&& after.has_focus() == before.has_focus()
    &&& after.style_view() == before.style_view()
    &&& after.selection() == before.selection()
    &&& !before.has_focus() ==> !handled && after == before
    &&& before.has_focus() ==> match key {
        EditorKey::Backspace => handled && deleted_before_cursor(before, after),
        EditorKey::ArrowLeft => if before.cursor() > 0 {
            &&& handled
            &&& after.cursor() == before.cursor() - 1
            &&& after.content_view() == before.content_view()
        } else {
            !handled && after == before
        },
        EditorKey::ArrowRight => {
            &&& handled
            &&& after.cursor() == before.cursor() + 1
            &&& after.content_view() == before.content_view()
        },
        EditorKey::Enter => {
            &&& handled
            &&& first_text_extended(
                before.content_view(),
                after.content_view(),
                seq!['\n'],
            )
            &&& after.cursor() == if before.content_view().len() > 0 {
                before.cursor() + 1
            } else {
                before.cursor() as int
            }
        },
        EditorKey::Text(t) => {
            &&& handled
            &&& first_text_extended(
                before.content_view(),
                after.content_view(),
                printable(t@),
            )
            &&& after.cursor() == if before.content_view().len() > 0 {
                before.cursor() + printable(t@).len()
            } else {
                before.cursor() as int
            }
        },
        EditorKey::Other => !handled && after == before,
    }
}

/// Backspace as the editor does it: when the cursor is inside the first
/// span, the character whose encoding begins one byte before the cursor
/// goes and the cursor moves back by one; otherwise nothing changes.
pub open spec fn deleted_before_cursor(before: RichTextEditor, after: RichTextEditor) -> bool {
    let c = before.content_view();
    if before.cursor() > 0 && c.len() > 0 && before.cursor() <= utf8_of(c[0].text@).len() {
        let i = before.cursor() - 1;
        let b = utf8_of(c[0].text@);
        &&& after.cursor() == i
        &&& after.content_view().len() == c.len()
        &&& after.content_view()[0].style == c[0].style
        &&& after.content_view()[0].children == c[0].children
        &&& forall|k: int| 1 <= k < c.len() ==> after.content_view()[k] == c[k]
        &&& exists|ch: char|
            #![trigger encode_scalar(ch as u32)]
            b == b.take(i) + encode_scalar(ch as u32) + b.skip(i + encode_scalar(ch as u32).len())
                && utf8_of(after.content_view()[0].text@) == b.take(i) + b.skip(
                i + encode_scalar(ch as u32).len(),
            )
    } else {
        after.content_view() == c && after.cursor() == before.cursor()
    }
}

/// Typing a character at the end of the first span and then pressing
/// Backspace gives the editor back its text and cursor: the character is
/// appended and the cursor moves on by one byte, just past the character's
/// first byte, and Backspace takes out the character that begins just
/// before the cursor, which is that one.
pub proof fn lemma_type_then_backspace(
    e0: RichTextEditor,
    c: char,
    t: String,
    e1: RichTextEditor,
    h1: bool,
    e2: RichTextEditor,
    h2: bool,
)
    requires
        e0.has_focus(),
        e0.content_view().len() > 0,
        e0.cursor() == utf8_of(e0.content_view()[0].text@).len(),
        !is_control(c),
        t@ == seq![c],
        e0.key_acceptable(EditorKey::Text(t)),
        editor_key_effect(e0, EditorKey::Text(t), e1, h1),
        editor_key_effect(e1, EditorKey::Backspace, e2, h2),
    ensures
        spans_text(e2.content_view()) == spans_text(e0.content_view()),
        e2.content_view()[0].text@ == e0.content_view()[0].text@,
        e2.cursor() == e0.cursor(),
{
    let t0 = e0.content_view()[0].text@;
    let t1 = e1.content_view()[0].text@;
    let t2 = e2.content_view()[0].text@;
    let i = e0.cursor() as int;
    assert(printable(seq![c]) =~= seq![c]) by {
        assert(seq![c].drop_last() =~= Seq::<char>::empty());
        assert(seq![c].last() == c);
        assert(printable(Seq::<char>::empty()) =~= Seq::<char>::empty());
    }
    assert(t1 == t0 + seq![c]);
    assert(t0 + seq![c] =~= t0.push(c));
    lemma_utf8_push(t0, c);
    encode_utf8_valid_utf8(t0);
    is_char_boundary_start_end_of_seq(utf8_of(t0));
    assert(utf8_of(t0).take(i) =~= utf8_of(t0));
    assert(utf8_of(t0).skip(i) =~= Seq::<u8>::empty());
    assert(utf8_of(t1) =~= bytes_after_insert(t0, i, c));
    lemma_insert_then_remove(t0, t1, t2, i, c);
    let s0 = e0.content_view();
    let s2 = e2.content_view();
    assert(s2 =~= s0.update(0, s2[0]));
    lemma_spans_text_first(s0, s2);
}

/// Spans that differ at most in the first span's own text, which is the
/// same, have the same text.
proof fn lemma_spans_text_first(a: Seq<TextSpan>, b: Seq<TextSpan>)
    requires
        a.len() > 0,
        a.len() == b.len(),
        b[0].text@ == a[0].text@,
        b[0].children == a[0].children,
        forall|k: int| 1 <= k < a.len() ==> b[k] == a[k],
    ensures
        spans_text(b) == spans_text(a),
    decreases a.len(),
{
    if a.len() > 1 {
        lemma_spans_text_first(a.drop_last(), b.drop_last());
        assert(b.last() == a.last());
    } else {
        assert(b.drop_last() =~= Seq::<TextSpan>::empty());
        assert(a.drop_last() =~= Seq::<TextSpan>::empty());
        assert(spans_text(Seq::<TextSpan>::empty()) =~= Seq::<char>::empty());
        assert(span_text(b[0]) == span_text(a[0]));
        assert(spans_text(b) =~= span_text(b[0]));
        assert(spans_text(a) =~= span_text(a[0]));
    }
}

/// A prefix has no more printable characters than the whole.
proof fn lemma_printable_prefix(t: Seq<char>, k: int)
    requires
        0 <= k <= t.len(),
    ensures
        printable(t.take(k)).len() <= printable(t).len(),
    decreases t.len(),
{
    if k < t.len() {
        assert(t.drop_last().take(k) =~= t.take(k));
        lemma_printable_prefix(t.drop_last(), k);
    } else {
        assert(t.take(k) =~= t);
    }
}

/// How many characters of `t` are not control characters.
fn count_printable(t: &str) -> (n: usize)
    ensures
        n == printable(t@).len(),
{
    let v = chars_of(t);
    let mut n: usize = 0;
    let mut i: usize = 0;
    while i < v.len()
        invariant
            i <= v@.len(),
            v@ == t@,
            n == printable(v@.take(i as int)).len(),
            n <= i,
        decreases v@.len() - i,
    {
        proof {
            assert(v@.take(i + 1).drop_last() =~= v@.take(i as int));
        }
        if !char_is_control(v[i]) {
            n = n + 1;
        }
        i = i + 1;
    }
    proof {
        assert(v@.take(v@.len() as int) =~= v@);
    }
    n
}

impl Default for RichTextEditor {
    fn default() -> (r: Self)
        ensures
            r.content_view().len() == 1,
            is_leaf(r.content_view()[0], Seq::empty(), plain_style()),
            r.cursor() == 0,
            r.selection() is None,
            !r.has_focus(),
            r.style_view() == plain_style(),
    {
        RichTextEditor::new()
    }
}

} // verus!
