//! Text primitives shared by the widgets: case folding, substring search,
//! character classes and byte-indexed editing of `String`s.

use vstd::prelude::*;
use vstd::utf8::*;

verus! {

/// What `str::to_lowercase` makes of a string. Unicode case mapping is
/// context sensitive (the final sigma) and table driven, so it is named
/// here rather than spelled out.
pub uninterp spec fn lowercase_of(s: Seq<char>) -> Seq<char>;

/// Calls `str::to_lowercase`; the result is exactly the named lowercase
/// form of the argument's characters and depends on nothing else.
#[verifier::external_body]
pub(crate) fn to_lower(s: &str) -> (r: String)
    ensures
        r@ == lowercase_of(s@),
{
    s.to_lowercase()
}

/// `needle` occurs as a contiguous run inside `hay` (the empty run occurs
/// everywhere).
pub open spec fn is_substring(needle: Seq<char>, hay: Seq<char>) -> bool {
    exists|i: int|
        0 <= i && i + needle.len() <= hay.len() && #[trigger] hay.subrange(i, i + needle.len())
            == needle
}

/// `prefix` is a prefix of `s`.
pub open spec fn is_prefix(prefix: Seq<char>, s: Seq<char>) -> bool {
    prefix.len() <= s.len() && s.subrange(0, prefix.len() as int) == prefix
}

/// The Unicode general category Cc: U+0000..=U+001F and U+007F..=U+009F.
pub open spec fn is_control(c: char) -> bool {
    (c as u32) <= 0x1f || (0x7f <= (c as u32) && (c as u32) <= 0x9f)
}

/// The UTF-8 bytes of a character sequence.
pub open spec fn utf8_of(s: Seq<char>) -> Seq<u8> {
    encode_utf8(s)
}

/// Byte index `i` of `s` starts a character or is the end of the text.
pub open spec fn on_char_boundary(s: Seq<char>, i: int) -> bool {
    is_char_boundary(utf8_of(s), i)
}

/// The bytes of a text after inserting `c` at byte index `i`.
pub open spec fn bytes_after_insert(s: Seq<char>, i: int, c: char) -> Seq<u8> {
    utf8_of(s).take(i) + encode_scalar(c as u32) + utf8_of(s).skip(i)
}

/// The length of a character's UTF-8 encoding is the one its first byte
/// announces.
proof fn lemma_encoding_length_by_lead(c: char)
    ensures
        encode_scalar(c as u32).len() >= 1,
        encode_scalar(c as u32).len() == length_of_first_codepoint(encode_scalar(c as u32)),
{
    let s = seq![c];
    encode_utf8_first_scalar(s);
    assert(s[0] == c);
    assert(s.drop_first() =~= Seq::<char>::empty());
    assert(encode_utf8(Seq::<char>::empty()) =~= Seq::<u8>::empty());
    assert(encode_utf8(s) =~= encode_scalar(c as u32));
}

/// Texts with the same UTF-8 bytes are the same text.
proof fn lemma_same_bytes_same_text(a: Seq<char>, b: Seq<char>)
    requires
        utf8_of(a) == utf8_of(b),
    ensures
        a == b,
{
    encode_utf8_decode_utf8(a);
    encode_utf8_decode_utf8(b);
}

/// The bytes of a text with a character appended: its bytes, then the
/// character's.
pub proof fn lemma_utf8_push(t: Seq<char>, c: char)
    ensures
        utf8_of(t.push(c)) == utf8_of(t) + encode_scalar(c as u32),
    decreases t.len(),
{
    if t.len() == 0 {
        assert(t.push(c) =~= seq![c]);
        assert(seq![c].drop_first() =~= Seq::<char>::empty());
        assert(encode_utf8(Seq::<char>::empty()) =~= Seq::<u8>::empty());
        assert(utf8_of(t) =~= Seq::<u8>::empty());
        assert(utf8_of(t.push(c)) =~= encode_scalar(c as u32));
    } else {
        lemma_utf8_push(t.drop_first(), c);
        assert(t.push(c).drop_first() =~= t.drop_first().push(c));
        assert(t.push(c)[0] == t[0]);
        assert(utf8_of(t.push(c)) =~= encode_scalar(t[0] as u32) + utf8_of(t.drop_first().push(c)));
        assert(utf8_of(t) =~= encode_scalar(t[0] as u32) + utf8_of(t.drop_first()));
    }
}

/// Inserting `c` at byte `i` of `t0` and then taking out the character
/// that begins at byte `i` gives `t0` back: the character taken out is the
/// one inserted, since a UTF-8 encoding announces its length in its first
/// byte.
pub proof fn lemma_insert_then_remove(t0: Seq<char>, t1: Seq<char>, t2: Seq<char>, i: int, c: char)
    requires
        on_char_boundary(t0, i),
        utf8_of(t1) == bytes_after_insert(t0, i, c),
        exists|ch: char|
            #![trigger encode_scalar(ch as u32)]
            utf8_of(t1) == utf8_of(t1).take(i) + encode_scalar(ch as u32) + utf8_of(t1).skip(
                i + encode_scalar(ch as u32).len(),
            ) && utf8_of(t2) == utf8_of(t1).take(i) + utf8_of(t1).skip(
                i + encode_scalar(ch as u32).len(),
            ),
    ensures
        t2 == t0,
{
    let b0 = utf8_of(t0);
    let b1 = utf8_of(t1);
    let ec = encode_scalar(c as u32);
    encode_utf8_valid_utf8(t0);
    assert(0 <= i <= b0.len());
    assert(b1 == b0.take(i) + ec + b0.skip(i));
    let ch = choose|ch: char|
        #![trigger encode_scalar(ch as u32)]
        b1 == b1.take(i) + encode_scalar(ch as u32) + b1.skip(i + encode_scalar(ch as u32).len())
            && utf8_of(t2) == b1.take(i) + b1.skip(i + encode_scalar(ch as u32).len());
    let eh = encode_scalar(ch as u32);
    lemma_encoding_length_by_lead(c);
    lemma_encoding_length_by_lead(ch);
    assert(b1[i] == ec[0]);
    assert(b1.take(i).len() == i);
    assert(b1[i] == eh[0]);
    assert(length_of_first_codepoint(ec) == length_of_first_codepoint(eh));
    assert(b1.take(i) =~= b0.take(i));
    assert(b1.skip(i + eh.len()) =~= b0.skip(i));
    assert(utf8_of(t2) =~= b0);
    lemma_same_bytes_same_text(t2, t0);
}

/// Whether `c` is a control character.
pub fn char_is_control(c: char) -> (r: bool)
    ensures
        r == is_control(c),
{
    let u = c as u32;
    u <= 0x1f || (0x7f <= u && u <= 0x9f)
}

/// The characters of a string, in order.
pub fn chars_of(s: &str) -> (v: Vec<char>)
    ensures
        v@ == s@,
{
    let mut v: Vec<char> = Vec::new();
    for c in it: s.chars()
        invariant
            v@ == it.seq().take(it.index() as int),
    {
        proof {
            assert(it.seq().take(it.index() as int).push(c) =~= it.seq().take(it.index() + 1));
        }
        v.push(c);
    }
    proof {
        assert(v@ =~= s@);
    }
    v
}

/// Whether `needle` occurs at position `at` of `hay`.
fn occurs_at(needle: &Vec<char>, hay: &Vec<char>, at: usize) -> (r: bool)
    requires
        at + needle.len() <= hay.len(),
    ensures
        r == (hay@.subrange(at as int, at + needle.len()) == needle@),
{
    let mut k: usize = 0;
    while k < needle.len()
        invariant
            at + needle.len() <= hay.len(),
            k <= needle.len(),
            forall|j: int| 0 <= j < k ==> hay@[at + j] == needle@[j],
        decreases needle.len() - k,
    {
        if hay[at + k] != needle[k] {
            proof {
                let sub = hay@.subrange(at as int, at + needle.len());
                assert(sub[k as int] != needle@[k as int]);
            }
            return false;
        }
        k = k + 1;
    }
    proof {
        assert(hay@.subrange(at as int, at + needle.len()) =~= needle@);
    }
    true
}

/// Substring search over character vectors.
pub fn seq_contains(hay: &Vec<char>, needle: &Vec<char>) -> (r: bool)
    ensures
        r == is_substring(needle@, hay@),
{
    if needle.len() > hay.len() {
        return false;
    }
    let last = hay.len() - needle.len();
    let mut i: usize = 0;
    while i < last
        invariant
            last + needle.len() == hay.len(),
            i <= last,
            forall|j: int|
                0 <= j < i ==> #[trigger] hay@.subrange(j, j + needle.len()) != needle@,
        decreases last - i,
    {
        if occurs_at(needle, hay, i) {
            return true;
        }
        i = i + 1;
    }
    occurs_at(needle, hay, last)
}

/// Prefix test over character vectors.
pub fn seq_starts_with(s: &Vec<char>, prefix: &Vec<char>) -> (r: bool)
    ensures
        r == is_prefix(prefix@, s@),
{
    if prefix.len() > s.len() {
        return false;
    }
    occurs_at(prefix, s, 0)
}

/// Character-wise equality of two character vectors.
pub fn seq_equal(a: &Vec<char>, b: &Vec<char>) -> (r: bool)
    ensures
        r == (a@ == b@),
{
    if a.len() != b.len() {
        return false;
    }
    let r = occurs_at(a, b, 0);
    proof {
        assert(b@.subrange(0, a@.len() as int) =~= b@);
    }
    r
}

/// Equality of two strings.
pub fn str_eq(a: &str, b: &str) -> (r: bool)
    ensures
        r == (a@ == b@),
{
    let x = chars_of(a);
    let y = chars_of(b);
    seq_equal(&x, &y)
}

/// `str::contains` for a string pattern.
pub fn str_contains(hay: &str, needle: &str) -> (r: bool)
    ensures
        r == is_substring(needle@, hay@),
{
    let h = chars_of(hay);
    let n = chars_of(needle);
    seq_contains(&h, &n)
}

/// `str::starts_with` for a string pattern.
pub fn str_starts_with(s: &str, prefix: &str) -> (r: bool)
    ensures
        r == is_prefix(prefix@, s@),
{
    let a = chars_of(s);
    let p = chars_of(prefix);
    seq_starts_with(&a, &p)
}

/// An owned copy of a string slice.
pub fn owned(s: &str) -> (r: String)
    ensures
        r@ == s@,
{
    s.to_owned()
}

/// Calls `String::insert`, which panics unless `idx` is a character
/// boundary; afterwards the UTF-8 bytes of `c` stand at `idx`.
#[verifier::external_body]
pub(crate) fn string_insert(s: &mut String, idx: usize, c: char)
    requires
        on_char_boundary(old(s)@, idx as int),
    ensures
        utf8_of(final(s)@) == bytes_after_insert(old(s)@, idx as int, c),
{
    s.insert(idx, c)
}

/// Calls `String::remove`, which panics unless `idx` is a character
/// boundary before the end; it takes out the character whose encoding
/// starts at `idx` and returns it.
#[verifier::external_body]
pub(crate) fn string_remove(s: &mut String, idx: usize) -> (r: char)
    requires
        on_char_boundary(old(s)@, idx as int),
        idx < utf8_of(old(s)@).len(),
    ensures
        idx + encode_scalar(r as u32).len() <= utf8_of(old(s)@).len(),
        utf8_of(old(s)@).subrange(idx as int, idx + encode_scalar(r as u32).len())
            == encode_scalar(r as u32),
        utf8_of(final(s)@) == utf8_of(old(s)@).take(idx as int) + utf8_of(old(s)@).skip(
            idx + encode_scalar(r as u32).len(),
        ),
{
    s.remove(idx)
}

/// Calls `String::push`.
#[verifier::external_body]
pub(crate) fn string_push(s: &mut String, c: char)
    ensures
        final(s)@ == old(s)@.push(c),
{
    s.push(c)
}

/// A string holding the given characters.
pub fn string_from_chars(v: &Vec<char>) -> (s: String)
    ensures
        s@ == v@,
{
    let mut s = String::new();
    let mut i: usize = 0;
    while i < v.len()
        invariant
            i <= v@.len(),
            s@ == v@.take(i as int),
        decreases v@.len() - i,
    {
        string_push(&mut s, v[i]);
        proof {
            assert(v@.take(i + 1) =~= v@.take(i as int).push(v@[i as int]));
        }
        i = i + 1;
    }
    proof {
        assert(v@.take(i as int) =~= v@);
    }
    s
}

/// The character of a decimal digit.
pub open spec fn digit_char(d: int) -> char {
    (48 + d) as char
}

/// The decimal digits of a natural number, most significant first, with
/// no leading zeros ("0" for zero).
pub open spec fn decimal(n: nat) -> Seq<char>
    decreases n,
{
    if n < 10 {
        seq![digit_char(n as int)]
    } else {
        decimal(n / 10).push(digit_char((n % 10) as int))
    }
}

/// `s` with zeros in front until it is `width` long.
pub open spec fn zero_pad(s: Seq<char>, width: int) -> Seq<char> {
    if s.len() >= width {
        s
    } else {
        Seq::new((width - s.len()) as nat, |i: int| '0') + s
    }
}

/// An integer as `format!("{:0w$}", v)` writes it: a minus sign for
/// negative values, and zeros after the sign until the whole is `width`
/// characters long.
pub open spec fn padded_int(v: int, width: int) -> Seq<char> {
    if v < 0 {
        seq!['-'] + zero_pad(decimal((-v) as nat), width - 1)
    } else {
        zero_pad(decimal(v as nat), width)
    }
}

/// The decimal digits of `n`.
pub fn decimal_chars(n: u64) -> (v: Vec<char>)
    ensures
        v@ == decimal(n as nat),
{
    let mut v: Vec<char> = Vec::new();
    let mut m = n;
    while m >= 10
        invariant
            decimal(n as nat) == decimal(m as nat) + v@,
        decreases m,
    {
        let d = (m % 10) as u8;
        let ghost before = v@;
        v.insert(0, (48u8 + d) as char);
        proof {
            assert(decimal(m as nat) == decimal((m / 10) as nat).push(digit_char((m % 10) as int)));
            assert(v@ =~= seq![digit_char((m % 10) as int)] + before);
            assert(decimal(m as nat) + before =~= decimal((m / 10) as nat) + v@);
        }
        m = m / 10;
    }
    let ghost before = v@;
    v.insert(0, (48u8 + m as u8) as char);
    proof {
        assert(v@ =~= decimal(m as nat) + before);
    }
    v
}

/// Appends `count` zeros.
fn push_zeros(v: &mut Vec<char>, count: usize)
    ensures
        final(v)@ == old(v)@ + Seq::new(count as nat, |i: int| '0'),
{
    let mut k: usize = 0;
    while k < count
        invariant
            k <= count,
            v@ == old(v)@ + Seq::new(k as nat, |i: int| '0'),
        decreases count - k,
    {
        v.push('0');
        proof {
            assert(v@ =~= old(v)@ + Seq::new((k + 1) as nat, |i: int| '0'));
        }
        k = k + 1;
    }
}

/// Appends an integer zero-padded to `width` characters, as
/// `format!("{:0w$}", v)` would write it.
pub fn push_padded_int(out: &mut Vec<char>, v: i64, width: usize)
    ensures
        final(out)@ == old(out)@ + padded_int(v as int, width as int),
{
    let ghost start = out@;
    let neg = v < 0;
    let mag: u64 = if neg {
        (-(v as i128)) as u64
    } else {
        v as u64
    };
    let digits = decimal_chars(mag);
    let w: usize = if neg {
        if width == 0 {
            0
        } else {
            width - 1
        }
    } else {
        width
    };
    if neg {
        out.push('-');
    }
    let ghost after_sign = out@;
    if digits.len() < w {
        push_zeros(out, w - digits.len());
    }
    let ghost after_zeros = out@;
    proof {
        assert(after_zeros == after_sign + zero_pad(digits@, w as int).take(
            zero_pad(digits@, w as int).len() - digits@.len(),
        )) by {
            if digits@.len() >= w {
                assert(zero_pad(digits@, w as int).take(0) =~= Seq::<char>::empty());
                assert(after_zeros =~= after_sign);
            } else {
                assert(zero_pad(digits@, w as int).take((w - digits@.len()) as int) =~= Seq::new(
                    (w - digits@.len()) as nat,
                    |i: int| '0',
                ));
            }
        }
    }
    let mut i: usize = 0;
    while i < digits.len()
        invariant
            i <= digits@.len(),
            out@ == after_zeros + digits@.take(i as int),
        decreases digits@.len() - i,
    {
        out.push(digits[i]);
        proof {
            assert(digits@.take(i + 1) =~= digits@.take(i as int).push(digits@[i as int]));
        }
        i = i + 1;
    }
    proof {
        let z = zero_pad(digits@, w as int);
        assert(digits@.take(i as int) =~= digits@);
        assert(z =~= z.take(z.len() - digits@.len()) + digits@);
        if neg {
            assert(after_sign =~= start.push('-'));
            assert(out@ =~= start + (seq!['-'] + z));
        } else {
            assert(out@ =~= start + z);
        }
    }
}

/// Calls `String::pop`: takes off the last character and returns it.
#[verifier::external_body]
pub(crate) fn string_pop(s: &mut String) -> (r: Option<char>)
    ensures
        old(s)@.len() == 0 ==> r is None && final(s)@ == old(s)@,
        old(s)@.len() > 0 ==> r == Some(old(s)@.last()) && final(s)@ == old(s)@.drop_last(),
{
    s.pop()
}

/// The first character of a string, if any.
pub fn first_char(s: &str) -> (r: Option<char>)
    ensures
        s@.len() == 0 ==> r is None,
        s@.len() > 0 ==> r == Some(s@[0]),
{
    let v = chars_of(s);
    if v.len() == 0 {
        None
    } else {
        Some(v[0])
    }
}

} // verus!
