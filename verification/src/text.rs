//! Character classes and small string helpers shared by every module.

use vstd::prelude::*;

verus! {

/// Rust's `char::is_whitespace`: the Unicode `White_Space` property.
pub open spec fn is_unicode_whitespace(c: char) -> bool {
    ||| ('\u{9}' <= c && c <= '\u{d}')
    ||| c == ' '
    ||| c == '\u{85}'
    ||| c == '\u{a0}'
    ||| c == '\u{1680}'
    ||| ('\u{2000}' <= c && c <= '\u{200a}')
    ||| c == '\u{2028}'
    ||| c == '\u{2029}'
    ||| c == '\u{202f}'
    ||| c == '\u{205f}'
    ||| c == '\u{3000}'
}

/// Whitespace for query values: Unicode white space plus the byte-order mark.
pub open spec fn is_query_space(c: char) -> bool {
    is_unicode_whitespace(c) || c == '\u{feff}'
}

/// Rust's `char::is_control`: the general category `Cc`.
pub open spec fn is_control_char(c: char) -> bool {
    c <= '\u{1f}' || ('\u{7f}' <= c && c <= '\u{9f}')
}

pub fn char_is_whitespace(c: char) -> (b: bool)
    ensures
        b == is_unicode_whitespace(c),
{
    ('\u{9}' <= c && c <= '\u{d}') || c == ' ' || c == '\u{85}' || c == '\u{a0}' || c == '\u{1680}'
        || ('\u{2000}' <= c && c <= '\u{200a}') || c == '\u{2028}' || c == '\u{2029}' || c
        == '\u{202f}' || c == '\u{205f}' || c == '\u{3000}'
}

pub fn char_is_query_space(c: char) -> (b: bool)
    ensures
        b == is_query_space(c),
{
    char_is_whitespace(c) || c == '\u{feff}'
}

pub fn char_is_control(c: char) -> (b: bool)
    ensures
        b == is_control_char(c),
{
    c <= '\u{1f}' || ('\u{7f}' <= c && c <= '\u{9f}')
}

/// The characters of `s`, in order.
pub fn chars_of(s: &str) -> (out: Vec<char>)
    ensures
        out@ == s@,
{
    let mut out: Vec<char> = Vec::new();
    for c in it: s.chars()
        invariant
            out@ == it.seq().take(it.index()),
    {
        out.push(c);
    }
    out
}


/// Appends one character to a `String`.
#[verifier::external_body]
pub(crate) fn push_char(s: &mut String, c: char)
    ensures
        final(s)@ == old(s)@.push(c),
{
    s.push(c);
}

/// A `String` holding exactly the given characters.
pub fn string_from_chars(chars: &Vec<char>) -> (out: String)
    ensures
        out@ == chars@,
{
    let mut out = String::new();
    let mut i: usize = 0;
    while i < chars.len()
        invariant
            i <= chars@.len(),
            out@ == chars@.take(i as int),
        decreases chars@.len() - i,
    {
        push_char(&mut out, chars[i]);
        assert(chars@.take(i + 1) =~= chars@.take(i as int).push(chars@[i as int]));
        i = i + 1;
    }
    assert(chars@.take(i as int) =~= chars@);
    out
}

/// `s` without its leading query white space.
pub open spec fn trim_start_seq(s: Seq<char>) -> Seq<char>
    decreases s.len(),
{
    if s.len() > 0 && is_query_space(s[0]) {
        trim_start_seq(s.drop_first())
    } else {
        s
    }
}

/// `s` without its trailing query white space.
pub open spec fn trim_end_seq(s: Seq<char>) -> Seq<char>
    decreases s.len(),
{
    if s.len() > 0 && is_query_space(s.last()) {
        trim_end_seq(s.drop_last())
    } else {
        s
    }
}

/// `s` with query white space (Unicode white space and U+FEFF) removed at both ends.
pub open spec fn trim_query_seq(s: Seq<char>) -> Seq<char> {
    trim_end_seq(trim_start_seq(s))
}

proof fn lemma_trim_start_parts(s: Seq<char>)
    ensures
        trim_start_seq(s).len() <= s.len(),
        trim_start_seq(s) == s.subrange(s.len() - trim_start_seq(s).len(), s.len() as int),
        forall|i: int|
            0 <= i < s.len() - trim_start_seq(s).len() ==> is_query_space(#[trigger] s[i]),
        trim_start_seq(s).len() > 0 ==> !is_query_space(trim_start_seq(s)[0]),
    decreases s.len(),
{
    if s.len() > 0 && is_query_space(s[0]) {
        let r = s.drop_first();
        lemma_trim_start_parts(r);
        let t = trim_start_seq(r);
        assert(r.subrange(r.len() - t.len(), r.len() as int) =~= s.subrange(
            s.len() - t.len(),
            s.len() as int,
        ));
        assert forall|i: int| 0 <= i < s.len() - t.len() implies is_query_space(#[trigger] s[i]) by {
            if i > 0 {
                assert(s[i] == r[i - 1]);
            }
        }
    } else {
        assert(s.subrange(0, s.len() as int) =~= s);
    }
}

proof fn lemma_trim_end_parts(s: Seq<char>)
    ensures
        trim_end_seq(s).len() <= s.len(),
        trim_end_seq(s) == s.subrange(0, trim_end_seq(s).len() as int),
        forall|i: int| trim_end_seq(s).len() <= i < s.len() ==> is_query_space(#[trigger] s[i]),
        trim_end_seq(s).len() > 0 ==> !is_query_space(trim_end_seq(s).last()),
    decreases s.len(),
{
    if s.len() > 0 && is_query_space(s.last()) {
        let r = s.drop_last();
        lemma_trim_end_parts(r);
        let t = trim_end_seq(r);
        assert(r.subrange(0, t.len() as int) =~= s.subrange(0, t.len() as int));
        assert forall|i: int| t.len() <= i < s.len() implies is_query_space(#[trigger] s[i]) by {
            if i < s.len() - 1 {
                assert(s[i] == r[i]);
            }
        }
    } else {
        assert(s.subrange(0, s.len() as int) =~= s);
    }
}

/// Trimming splits a text into a prefix of query white space (Unicode white
/// space or U+FEFF), the trimmed text, and a suffix of query white space; the
/// trimmed text neither starts nor ends with such a character, so trimming it
/// again changes nothing.
pub proof fn lemma_trim_query_decomposition(s: Seq<char>)
    ensures
        exists|p: int|
            0 <= p && p + trim_query_seq(s).len() <= s.len() && s == s.take(p) + trim_query_seq(s)
                + s.skip(p + trim_query_seq(s).len()) && (forall|i: int|
                0 <= i < p ==> is_query_space(#[trigger] s[i])) && (forall|i: int|
                p + trim_query_seq(s).len() <= i < s.len() ==> is_query_space(#[trigger] s[i])),
        trim_query_seq(s).len() > 0 ==> !is_query_space(trim_query_seq(s)[0]) && !is_query_space(
            trim_query_seq(s).last(),
        ),
        trim_query_seq(trim_query_seq(s)) == trim_query_seq(s),
{
    lemma_trim_start_parts(s);
    let u = trim_start_seq(s);
    lemma_trim_end_parts(u);
    let t = trim_query_seq(s);
    let p = s.len() - u.len();
    assert(s =~= s.take(p) + t + s.skip(p + t.len())) by {
        assert forall|i: int| p <= i < p + t.len() implies s[i] == t[i - p] by {
            assert(u[i - p] == s[i]);
            assert(t[i - p] == u[i - p]);
        }
    }
    assert forall|i: int| p + t.len() <= i < s.len() implies is_query_space(#[trigger] s[i]) by {
        assert(u[i - p] == s[i]);
        assert(is_query_space(u[i - p]));
    }
    if t.len() > 0 {
        assert(t[0] == u[0]);
        assert(trim_start_seq(t) == t);
        assert(trim_end_seq(t) == t);
    } else {
        assert(trim_start_seq(t) =~= t);
    }
}

/// Whether `s` holds a control character.
pub open spec fn has_control(s: Seq<char>) -> bool {
    exists|i: int| 0 <= i < s.len() && is_control_char(#[trigger] s[i])
}

/// The index of the first character that is not query white space.
fn trim_start_index(s: &Vec<char>) -> (i: usize)
    ensures
        i <= s@.len(),
        trim_start_seq(s@) == s@.subrange(i as int, s@.len() as int),
        i < s@.len() ==> !is_query_space(s@[i as int]),
{
    let mut i: usize = 0;
    assert(s@.subrange(0, s@.len() as int) =~= s@);
    while i < s.len() && char_is_query_space(s[i])
        invariant
            i <= s@.len(),
            trim_start_seq(s@) == trim_start_seq(s@.subrange(i as int, s@.len() as int)),
        decreases s@.len() - i,
    {
        assert(s@.subrange(i as int, s@.len() as int).drop_first() =~= s@.subrange(
            i + 1,
            s@.len() as int,
        ));
        i = i + 1;
    }
    i
}

/// The end of `s` once trailing query white space is removed, searching no lower than `lo`.
fn trim_end_index(s: &Vec<char>, lo: usize) -> (j: usize)
    requires
        lo <= s@.len(),
        lo < s@.len() ==> !is_query_space(s@[lo as int]),
    ensures
        lo <= j <= s@.len(),
        trim_end_seq(s@.subrange(lo as int, s@.len() as int)) == s@.subrange(lo as int, j as int),
{
    let mut j: usize = s.len();
    while j > lo && char_is_query_space(s[j - 1])
        invariant
            lo <= j <= s@.len(),
            lo < s@.len() ==> !is_query_space(s@[lo as int]),
            trim_end_seq(s@.subrange(lo as int, s@.len() as int)) == trim_end_seq(
                s@.subrange(lo as int, j as int),
            ),
        decreases j,
    {
        assert(s@.subrange(lo as int, j as int).drop_last() =~= s@.subrange(
            lo as int,
            j - 1,
        ));
        j = j - 1;
    }
    j
}

/// The query value without surrounding white space or byte-order marks.
pub fn trim_query_value(value: &str) -> (out: &str)
    ensures
        out@ == trim_query_seq(value@),
{
    let chars = chars_of(value);
    let i = trim_start_index(&chars);
    let j = trim_end_index(&chars, i);
    value.substring_char(i, j)
}

/// Whether any character of `s` is a control character.
pub fn chars_have_control(s: &Vec<char>) -> (b: bool)
    ensures
        b == has_control(s@),
{
    let mut i: usize = 0;
    while i < s.len()
        invariant
            i <= s@.len(),
            forall|k: int| 0 <= k < i ==> !is_control_char(#[trigger] s@[k]),
        decreases s@.len() - i,
    {
        if char_is_control(s[i]) {
            return true;
        }
        i = i + 1;
    }
    false
}

/// The number of UTF-16 code units that encode `c`.
pub open spec fn utf16_width(c: char) -> nat {
    if (c as u32) < 0x10000 {
        1
    } else {
        2
    }
}

/// The UTF-16 code units of `c`.
pub open spec fn utf16_of_char(c: char) -> Seq<u16> {
    if (c as u32) < 0x10000 {
        seq![(c as u32) as u16]
    } else {
        seq![
            (0xD800 + ((c as u32) - 0x10000) / 1024) as u16,
            (0xDC00 + ((c as u32) - 0x10000) % 1024) as u16,
        ]
    }
}

/// The UTF-16 encoding of `s`, as JavaScript strings hold it.
pub open spec fn utf16_units(s: Seq<char>) -> Seq<u16>
    decreases s.len(),
{
    if s.len() == 0 {
        seq![]
    } else {
        utf16_units(s.drop_last()) + utf16_of_char(s.last())
    }
}

/// The length of `s` in UTF-16 code units.
pub open spec fn utf16_len(s: Seq<char>) -> nat
    decreases s.len(),
{
    if s.len() == 0 {
        0
    } else {
        utf16_len(s.drop_last()) + utf16_width(s.last())
    }
}

pub proof fn lemma_utf16_len_monotone(s: Seq<char>, i: int)
    requires
        0 <= i <= s.len(),
    ensures
        utf16_len(s.take(i)) <= utf16_len(s),
    decreases s.len() - i,
{
    if i < s.len() {
        lemma_utf16_len_monotone(s, i + 1);
        assert(s.take(i + 1).drop_last() =~= s.take(i));
    } else {
        assert(s.take(i) =~= s);
    }
}

/// Whether `s` fits in `limit` UTF-16 code units.
pub fn utf16_len_at_most(s: &Vec<char>, limit: usize) -> (b: bool)
    ensures
        b == (utf16_len(s@) <= limit),
{
    let mut count: usize = 0;
    let mut i: usize = 0;
    while i < s.len()
        invariant
            i <= s@.len(),
            count == utf16_len(s@.take(i as int)),
            count <= limit,
        decreases s@.len() - i,
    {
        assert(s@.take(i + 1).drop_last() =~= s@.take(i as int));
        let width: usize = if (s[i] as u32) < 0x10000 {
            1
        } else {
            2
        };
        if width > limit - count {
            proof {
                lemma_utf16_len_monotone(s@, i + 1);
            }
            return false;
        }
        count = count + width;
        i = i + 1;
    }
    assert(s@.take(i as int) =~= s@);
    true
}

/// The UTF-16 code units of `s`.
pub fn utf16_units_of(s: &str) -> (out: Vec<u16>)
    ensures
        out@ == utf16_units(s@),
{
    let chars = chars_of(s);
    let mut out: Vec<u16> = Vec::new();
    let mut i: usize = 0;
    while i < chars.len()
        invariant
            i <= chars@.len(),
            chars@ == s@,
            out@ == utf16_units(chars@.take(i as int)),
        decreases chars@.len() - i,
    {
        assert(chars@.take(i + 1).drop_last() =~= chars@.take(i as int));
        let c = chars[i];
        let code = c as u32;
        assert(chars@.take(i + 1).last() == c);
        let ghost before = out@;
        if code < 0x10000 {
            out.push(code as u16);
            assert(out@ =~= before + utf16_of_char(c));
        } else {
            let v = code - 0x10000;
            let high = (0xD800 + v / 1024) as u16;
            let low = (0xDC00 + v % 1024) as u16;
            assert(high == (0xD800 + ((c as u32) - 0x10000) / 1024) as u16);
            assert(low == (0xDC00 + ((c as u32) - 0x10000) % 1024) as u16);
            out.push(high);
            out.push(low);
            assert(utf16_of_char(c) =~= seq![high, low]);
            assert(out@ =~= before + utf16_of_char(c));
        }
        assert(utf16_units(chars@.take(i + 1)) == utf16_units(chars@.take(i as int))
            + utf16_of_char(c));
        assert(out@ =~= utf16_units(chars@.take(i + 1)));
        i = i + 1;
    }
    assert(chars@.take(i as int) =~= chars@);
    out
}


/// Lexicographic order on character sequences (the order of `str`'s `<`,
/// since UTF-8 preserves code point order).
pub open spec fn seq_less(a: Seq<char>, b: Seq<char>) -> bool
    decreases a.len(),
{
    if b.len() == 0 {
        false
    } else if a.len() == 0 {
        true
    } else if a[0] != b[0] {
        a[0] < b[0]
    } else {
        seq_less(a.drop_first(), b.drop_first())
    }
}

/// `a < b` on strings.
pub fn text_less(a: &str, b: &str) -> (r: bool)
    ensures
        r == seq_less(a@, b@),
{
    let x = chars_of(a);
    let y = chars_of(b);
    let mut i: usize = 0;
    assert(x@.skip(0) =~= x@);
    assert(y@.skip(0) =~= y@);
    while i < x.len() && i < y.len() && x[i] == y[i]
        invariant
            i <= x@.len(),
            i <= y@.len(),
            seq_less(x@, y@) == seq_less(x@.skip(i as int), y@.skip(i as int)),
        decreases x@.len() - i,
    {
        assert(x@.skip(i as int).drop_first() =~= x@.skip(i + 1));
        assert(y@.skip(i as int).drop_first() =~= y@.skip(i + 1));
        i = i + 1;
    }
    if i == y.len() {
        false
    } else if i == x.len() {
        true
    } else {
        x[i] < y[i]
    }
}


/// Whether two character vectors are equal.
pub fn chars_eq(x: &Vec<char>, y: &Vec<char>) -> (r: bool)
    ensures
        r == (x@ == y@),
{
    if x.len() != y.len() {
        return false;
    }
    let mut i: usize = 0;
    while i < x.len()
        invariant
            x@.len() == y@.len(),
            i <= x@.len(),
            forall|k: int| 0 <= k < i ==> x@[k] == y@[k],
        decreases x@.len() - i,
    {
        if x[i] != y[i] {
            return false;
        }
        i = i + 1;
    }
    assert(x@ =~= y@);
    true
}

/// `a == b` on strings.
pub fn text_eq(a: &str, b: &str) -> (r: bool)
    ensures
        r == (a@ == b@),
{
    chars_eq(&chars_of(a), &chars_of(b))
}


/// Lexicographic order on UTF-16 code-unit sequences.
pub open spec fn units_less(a: Seq<u16>, b: Seq<u16>) -> bool
    decreases a.len(),
{
    if b.len() == 0 {
        false
    } else if a.len() == 0 {
        true
    } else if a[0] != b[0] {
        a[0] < b[0]
    } else {
        units_less(a.drop_first(), b.drop_first())
    }
}

/// JavaScript's `<` on strings: comparison of their UTF-16 code units.
pub open spec fn js_less(a: Seq<char>, b: Seq<char>) -> bool {
    units_less(utf16_units(a), utf16_units(b))
}

pub proof fn lemma_units_less_irreflexive(a: Seq<u16>)
    ensures
        !units_less(a, a),
    decreases a.len(),
{
    if a.len() > 0 {
        lemma_units_less_irreflexive(a.drop_first());
    }
}

pub proof fn lemma_units_less_asymmetric(a: Seq<u16>, b: Seq<u16>)
    ensures
        units_less(a, b) ==> !units_less(b, a),
    decreases a.len(),
{
    if a.len() > 0 && b.len() > 0 && a[0] == b[0] {
        lemma_units_less_asymmetric(a.drop_first(), b.drop_first());
    }
}

pub proof fn lemma_units_less_transitive(a: Seq<u16>, b: Seq<u16>, c: Seq<u16>)
    requires
        units_less(a, b),
        units_less(b, c),
    ensures
        units_less(a, c),
    decreases a.len(),
{
    if a.len() > 0 && a[0] == b[0] && b[0] == c[0] {
        lemma_units_less_transitive(a.drop_first(), b.drop_first(), c.drop_first());
    }
}

pub proof fn lemma_units_less_total(a: Seq<u16>, b: Seq<u16>)
    requires
        a != b,
    ensures
        units_less(a, b) || units_less(b, a),
    decreases a.len(),
{
    if a.len() > 0 && b.len() > 0 && a[0] == b[0] {
        if a.drop_first() == b.drop_first() {
            assert(a =~= seq![a[0]] + a.drop_first());
            assert(b =~= seq![b[0]] + b.drop_first());
        }
        lemma_units_less_total(a.drop_first(), b.drop_first());
    } else if a.len() == 0 && b.len() == 0 {
        assert(a =~= b);
    }
}

proof fn lemma_utf16_of_char_shape(c: char)
    ensures
        utf16_of_char(c).len() == utf16_width(c),
        utf16_width(c) == 1 ==> !(0xDC00 <= utf16_of_char(c)[0] && utf16_of_char(c)[0] <= 0xDFFF),
        utf16_width(c) == 2 ==> 0xDC00 <= utf16_of_char(c)[1] && utf16_of_char(c)[1] <= 0xDFFF,
{
    let v = c as u32;
    assert(v <= 0xD7FF || (0xE000 <= v && v <= 0x10FFFF));
    if v >= 0x10000 {
        assert((v - 0x10000) % 1024 < 1024);
    }
}

proof fn lemma_utf16_of_char_injective(c: char, d: char)
    requires
        utf16_of_char(c) == utf16_of_char(d),
    ensures
        c == d,
{
    lemma_utf16_of_char_shape(c);
    lemma_utf16_of_char_shape(d);
    let x = c as u32;
    let y = d as u32;
    if x < 0x10000 {
        assert(utf16_of_char(c)[0] == utf16_of_char(d)[0]);
        assert(x == y);
    } else {
        let vx = (x - 0x10000) as int;
        let vy = (y - 0x10000) as int;
        assert(utf16_of_char(c)[0] == utf16_of_char(d)[0]);
        assert(utf16_of_char(c)[1] == utf16_of_char(d)[1]);
        assert(vx / 1024 == vy / 1024);
        assert(vx % 1024 == vy % 1024);
        assert(vx == 1024 * (vx / 1024) + vx % 1024);
        assert(vy == 1024 * (vy / 1024) + vy % 1024);
        assert(x == y);
    }
}

proof fn lemma_utf16_units_len(s: Seq<char>)
    ensures
        utf16_units(s).len() == utf16_len(s),
        s.len() > 0 ==> utf16_units(s).len() > 0,
    decreases s.len(),
{
    if s.len() > 0 {
        lemma_utf16_units_len(s.drop_last());
        lemma_utf16_of_char_shape(s.last());
    }
}

/// Different strings have different UTF-16 encodings.
pub proof fn lemma_utf16_units_injective(a: Seq<char>, b: Seq<char>)
    requires
        utf16_units(a) == utf16_units(b),
    ensures
        a == b,
    decreases a.len(),
{
    lemma_utf16_units_len(a);
    lemma_utf16_units_len(b);
    if a.len() == 0 {
        assert(b.len() == 0);
        assert(a =~= b);
    } else {
        assert(b.len() > 0);
        let x = a.last();
        let y = b.last();
        let ua = utf16_units(a);
        let pa = utf16_units(a.drop_last());
        let pb = utf16_units(b.drop_last());
        let ex = utf16_of_char(x);
        let ey = utf16_of_char(y);
        lemma_utf16_of_char_shape(x);
        lemma_utf16_of_char_shape(y);
        assert(ua == pa + ex);
        assert(ua == pb + ey);
        assert(ua[ua.len() - 1] == ex[ex.len() - 1]);
        assert(ua[ua.len() - 1] == ey[ey.len() - 1]);
        assert(ex.len() == ey.len());
        assert(pa =~= ua.take(ua.len() - ex.len()));
        assert(pb =~= ua.take(ua.len() - ey.len()));
        assert(ex =~= ua.skip(ua.len() - ex.len()));
        assert(ey =~= ua.skip(ua.len() - ey.len()));
        lemma_utf16_of_char_injective(x, y);
        lemma_utf16_units_injective(a.drop_last(), b.drop_last());
        assert(a =~= a.drop_last().push(x));
        assert(b =~= b.drop_last().push(y));
    }
}

/// Compares two code-unit sequences: whether the first is smaller, and whether they are equal.
pub fn units_compare(x: &Vec<u16>, y: &Vec<u16>) -> (r: (bool, bool))
    ensures
        r.0 == units_less(x@, y@),
        r.1 == (x@ == y@),
{
    let mut i: usize = 0;
    assert(x@.skip(0) =~= x@);
    assert(y@.skip(0) =~= y@);
    while i < x.len() && i < y.len() && x[i] == y[i]
        invariant
            i <= x@.len(),
            i <= y@.len(),
            units_less(x@, y@) == units_less(x@.skip(i as int), y@.skip(i as int)),
            forall|k: int| 0 <= k < i ==> x@[k] == y@[k],
        decreases x@.len() - i,
    {
        assert(x@.skip(i as int).drop_first() =~= x@.skip(i + 1));
        assert(y@.skip(i as int).drop_first() =~= y@.skip(i + 1));
        i = i + 1;
    }
    if i == y.len() {
        if i == x.len() {
            assert(x@ =~= y@);
            (false, true)
        } else {
            (false, false)
        }
    } else if i == x.len() {
        (true, false)
    } else {
        assert(x@[i as int] != y@[i as int]);
        (x[i] < y[i], false)
    }
}

/// JavaScript's `<` on strings.
pub fn js_text_less(a: &str, b: &str) -> (r: bool)
    ensures
        r == js_less(a@, b@),
{
    units_compare(&utf16_units_of(a), &utf16_units_of(b)).0
}

} // verus!
