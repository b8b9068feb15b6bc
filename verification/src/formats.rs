//! Clipboard format names and their canonical order.

use crate::text::text_eq;
use crate::types::ClipboardFormat;
use vstd::prelude::*;
use vstd::string::*;

verus! {

/// The largest text, HTML or decoded RTF payload a record may hold: 8 MiB.
pub const MAX_FORMAT_BYTES: usize = 8_388_608;

/// The longest base64 RTF text accepted on input: the padded encoding of 8 MiB.
pub const MAX_RTF_BASE64_INPUT_BYTES: usize = 11_184_812;

/// The lower-case name of a format.
pub open spec fn format_name(format: ClipboardFormat) -> Seq<char> {
    match format {
        ClipboardFormat::Text => "text"@,
        ClipboardFormat::Html => "html"@,
        ClipboardFormat::Rtf => "rtf"@,
        ClipboardFormat::Image => "image"@,
        ClipboardFormat::Files => "files"@,
        ClipboardFormat::Object => "object"@,
    }
}

impl ClipboardFormat {
    /// The lower-case name of this format.
    pub fn as_str(self) -> (s: &'static str)
        ensures
            s@ == format_name(self),
    {
        match self {
            ClipboardFormat::Text => "text",
            ClipboardFormat::Html => "html",
            ClipboardFormat::Rtf => "rtf",
            ClipboardFormat::Image => "image",
            ClipboardFormat::Files => "files",
            ClipboardFormat::Object => "object",
        }
    }
}

/// Every clipboard format, in canonical (declaration) order.
pub open spec fn omitted_format_order() -> Seq<ClipboardFormat> {
    seq![
        ClipboardFormat::Text,
        ClipboardFormat::Html,
        ClipboardFormat::Rtf,
        ClipboardFormat::Image,
        ClipboardFormat::Files,
        ClipboardFormat::Object,
    ]
}

/// The elements of `order` that `s` holds, in the order of `order`.
pub open spec fn ordered_subset<A>(order: Seq<A>, s: Seq<A>) -> Seq<A>
    decreases order.len(),
{
    if order.len() == 0 {
        seq![]
    } else {
        ordered_subset(order.drop_last(), s) + if s.contains(order.last()) {
            seq![order.last()]
        } else {
            seq![]
        }
    }
}

fn all_omitted_formats() -> (v: Vec<ClipboardFormat>)
    ensures
        v@ == omitted_format_order(),
{
    let v = vec![
        ClipboardFormat::Text,
        ClipboardFormat::Html,
        ClipboardFormat::Rtf,
        ClipboardFormat::Image,
        ClipboardFormat::Files,
        ClipboardFormat::Object,
    ];
    assert(v@ =~= omitted_format_order());
    v
}

fn contains_format(formats: &[ClipboardFormat], end: usize, format: ClipboardFormat) -> (b: bool)
    requires
        end <= formats@.len(),
    ensures
        b == formats@.take(end as int).contains(format),
{
    let mut i: usize = 0;
    while i < end
        invariant
            i <= end <= formats@.len(),
            forall|k: int| 0 <= k < i ==> formats@[k] != format,
        decreases formats@.len() - i,
    {
        if formats[i] == format {
            assert(formats@.take(end as int)[i as int] == format);
            return true;
        }
        i = i + 1;
    }
    false
}

/// Omitted formats in canonical order; a repeated format is an error.
pub fn canonical_omitted_formats(formats: &[ClipboardFormat]) -> (out: Result<
    Vec<ClipboardFormat>,
    String,
>)
    ensures
        out is Ok <==> formats@.no_duplicates(),
        out matches Ok(v) ==> v@ == ordered_subset(omitted_format_order(), formats@),
        out matches Err(message) ==> message@ == "省略格式不能重复"@,
{
    let mut i: usize = 0;
    while i < formats.len()
        invariant
            i <= formats@.len(),
            formats@.take(i as int).no_duplicates(),
        decreases formats@.len() - i,
    {
        if contains_format(formats, i, formats[i]) {
            assert(!formats@.no_duplicates()) by {
                let j = choose|j: int| 0 <= j < i && formats@.take(i as int)[j] == formats@[i as int];
                assert(formats@[j] == formats@[i as int]);
            }
            return Err(String::from_str("省略格式不能重复"));
        }
        assert(formats@.take(i + 1) =~= formats@.take(i as int).push(formats@[i as int]));
        i = i + 1;
    }
    assert(formats@.take(i as int) =~= formats@);
    let order = all_omitted_formats();
    let mut out: Vec<ClipboardFormat> = Vec::new();
    let mut k: usize = 0;
    while k < order.len()
        invariant
            k <= order@.len(),
            order@ == omitted_format_order(),
            out@ == ordered_subset(order@.take(k as int), formats@),
        decreases order@.len() - k,
    {
        assert(order@.take(k + 1).drop_last() =~= order@.take(k as int));
        assert(formats@.take(formats@.len() as int) =~= formats@);
        if contains_format(formats, formats.len(), order[k]) {
            out.push(order[k]);
        }
        assert(out@ =~= ordered_subset(order@.take(k + 1), formats@));
        k = k + 1;
    }
    assert(order@.take(k as int) =~= order@);
    Ok(out)
}

/// The names of the formats a record may store, in canonical order.
pub open spec fn actual_format_order() -> Seq<Seq<char>> {
    seq!["text"@, "html"@, "rtf"@, "image"@, "files"@]
}

/// The text views of a list of strings.
pub open spec fn string_views(v: Seq<String>) -> Seq<Seq<char>> {
    v.map_values(|s: String| s@)
}

/// The first problem with a list of stored format names, scanning from the front.
pub open spec fn actual_formats_error(names: Seq<Seq<char>>) -> Option<Seq<char>>
    decreases names.len(),
{
    if names.len() == 0 {
        None
    } else {
        match actual_formats_error(names.drop_last()) {
            Some(message) => Some(message),
            None => if !actual_format_order().contains(names.last()) {
                Some("剪贴板记录包含不支持的格式"@)
            } else if names.drop_last().contains(names.last()) {
                Some("剪贴板记录格式不能重复"@)
            } else {
                None
            },
        }
    }
}

/// An element is in an ordered subset exactly when it is in the order and in the set.
pub proof fn lemma_ordered_subset_contains<A>(order: Seq<A>, s: Seq<A>, x: A)
    ensures
        ordered_subset(order, s).contains(x) <==> (order.contains(x) && s.contains(x)),
    decreases order.len(),
{
    if order.len() > 0 {
        lemma_ordered_subset_contains(order.drop_last(), s, x);
        let rest = ordered_subset(order.drop_last(), s);
        let tail = if s.contains(order.last()) {
            seq![order.last()]
        } else {
            seq![]
        };
        assert(ordered_subset(order, s) == rest + tail);
        if (rest + tail).contains(x) {
            let i = choose|i: int| 0 <= i < (rest + tail).len() && (rest + tail)[i] == x;
            if i < rest.len() {
                assert(rest[i] == x);
            }
        }
        if rest.contains(x) {
            let i = choose|i: int| 0 <= i < rest.len() && rest[i] == x;
            assert((rest + tail)[i] == x);
        }
        if order.contains(x) && !order.drop_last().contains(x) {
            let i = choose|i: int| 0 <= i < order.len() && order[i] == x;
            if i < order.len() - 1 {
                assert(order.drop_last()[i] == x);
            }
            if s.contains(x) {
                assert((rest + tail)[rest.len() as int] == x);
            }
        }
        if order.drop_last().contains(x) {
            let i = choose|i: int| 0 <= i < order.drop_last().len() && order.drop_last()[i] == x;
            assert(order[i] == x);
        }
    }
}

/// Ordered subsets of the same order agree when the sets agree on the order's elements.
pub proof fn lemma_ordered_subset_same_members<A>(order: Seq<A>, s1: Seq<A>, s2: Seq<A>)
    requires
        forall|x: A| #[trigger] order.contains(x) ==> (s1.contains(x) <==> s2.contains(x)),
    ensures
        ordered_subset(order, s1) == ordered_subset(order, s2),
    decreases order.len(),
{
    if order.len() > 0 {
        assert forall|x: A| #[trigger] order.drop_last().contains(x) implies (s1.contains(x)
            <==> s2.contains(x)) by {
            let i = choose|i: int| 0 <= i < order.drop_last().len() && order.drop_last()[i] == x;
            assert(order[i] == x);
            assert(order.contains(x));
        }
        lemma_ordered_subset_same_members(order.drop_last(), s1, s2);
        assert(order[order.len() - 1] == order.last());
        assert(order.contains(order.last()));
    }
}

/// An ordered subset of a repetition-free order has no repetition, and
/// ordering it again changes nothing.
pub proof fn lemma_ordered_subset_canonical<A>(order: Seq<A>, s: Seq<A>)
    requires
        order.no_duplicates(),
    ensures
        ordered_subset(order, s).no_duplicates(),
        ordered_subset(order, ordered_subset(order, s)) == ordered_subset(order, s),
    decreases order.len(),
{
    let t = ordered_subset(order, s);
    assert forall|x: A| #[trigger] order.contains(x) implies (t.contains(x) <==> s.contains(x)) by {
        lemma_ordered_subset_contains(order, s, x);
    }
    lemma_ordered_subset_same_members(order, t, s);
    if order.len() > 0 {
        let head = order.drop_last();
        assert(head.no_duplicates()) by {
            assert forall|i: int, j: int| 0 <= i < head.len() && 0 <= j < head.len() && i != j implies head[i]
                != head[j] by {
                assert(head[i] == order[i] && head[j] == order[j]);
            }
        }
        lemma_ordered_subset_canonical(head, s);
        let rest = ordered_subset(head, s);
        if s.contains(order.last()) {
            assert(!rest.contains(order.last())) by {
                lemma_ordered_subset_contains(head, s, order.last());
                if head.contains(order.last()) {
                    let i = choose|i: int| 0 <= i < head.len() && head[i] == order.last();
                    assert(order[i] == order[order.len() - 1]);
                }
            }
            let u = rest + seq![order.last()];
            assert(t == u);
            assert forall|i: int, j: int| 0 <= i < u.len() && 0 <= j < u.len() && i != j implies u[i]
                != u[j] by {
                if i < rest.len() && j < rest.len() {
                } else if i < rest.len() {
                    assert(rest[i] == u[i]);
                    assert(rest.contains(u[i]));
                } else if j < rest.len() {
                    assert(rest[j] == u[j]);
                    assert(rest.contains(u[j]));
                }
            }
        } else {
            assert(t == rest + seq![]);
            assert(t =~= rest);
        }
    }
}

/// Format names, each known and none repeated, pass the format check.
pub proof fn lemma_known_distinct_formats_pass(names: Seq<Seq<char>>)
    requires
        forall|i: int| 0 <= i < names.len() ==> actual_format_order().contains(#[trigger] names[i]),
        names.no_duplicates(),
    ensures
        actual_formats_error(names) is None,
    decreases names.len(),
{
    if names.len() > 0 {
        let head = names.drop_last();
        assert forall|i: int| 0 <= i < head.len() implies actual_format_order().contains(
            #[trigger] head[i],
        ) by {
            assert(head[i] == names[i]);
        }
        assert(head.no_duplicates()) by {
            assert forall|i: int, j: int| 0 <= i < head.len() && 0 <= j < head.len() && i != j implies head[i]
                != head[j] by {
                assert(head[i] == names[i] && head[j] == names[j]);
            }
        }
        lemma_known_distinct_formats_pass(head);
        assert(actual_format_order().contains(names[names.len() - 1]));
        if head.contains(names.last()) {
            let k = choose|k: int| 0 <= k < head.len() && head[k] == names.last();
            assert(names[k] == names[names.len() - 1]);
        }
    }
}

/// Formats put in canonical order pass the format check and stay as they are
/// when put in canonical order again.
pub proof fn lemma_canonical_actual_formats_stable(names: Seq<Seq<char>>)
    ensures
        actual_formats_error(ordered_subset(actual_format_order(), names)) is None,
        ordered_subset(actual_format_order(), ordered_subset(actual_format_order(), names))
            == ordered_subset(actual_format_order(), names),
{
    let order = actual_format_order();
    assert(order.no_duplicates()) by {
        assert forall|i: int, j: int| 0 <= i < order.len() && 0 <= j < order.len() && i != j implies order[i]
            != order[j] by {
            reveal_strlit("text");
            reveal_strlit("html");
            reveal_strlit("rtf");
            reveal_strlit("image");
            reveal_strlit("files");
            assert(order[i][0] != order[j][0]);
        }
    }
    lemma_ordered_subset_canonical(order, names);
    let t = ordered_subset(order, names);
    assert forall|i: int| 0 <= i < t.len() implies order.contains(#[trigger] t[i]) by {
        assert(t.contains(t[i]));
        lemma_ordered_subset_contains(order, names, t[i]);
    }
    lemma_known_distinct_formats_pass(t);
}

/// Once a prefix of the names has a problem, the whole list has the same one.
pub proof fn lemma_actual_formats_error_prefix(names: Seq<Seq<char>>, j: int)
    requires
        0 <= j <= names.len(),
        actual_formats_error(names.take(j)) is Some,
    ensures
        actual_formats_error(names) == actual_formats_error(names.take(j)),
    decreases names.len() - j,
{
    if j < names.len() {
        assert(names.take(j + 1).drop_last() =~= names.take(j));
        lemma_actual_formats_error_prefix(names, j + 1);
    } else {
        assert(names.take(j) =~= names);
    }
}

/// Whether `name` is one of the stored format names, and which.
fn actual_format_index(name: &str) -> (r: Option<usize>)
    ensures
        r is Some <==> actual_format_order().contains(name@),
        r matches Some(i) ==> i < 5 && actual_format_order()[i as int] == name@,
{
    let r = if text_eq(name, "text") {
        Some(0)
    } else if text_eq(name, "html") {
        Some(1)
    } else if text_eq(name, "rtf") {
        Some(2)
    } else if text_eq(name, "image") {
        Some(3)
    } else if text_eq(name, "files") {
        Some(4)
    } else {
        None
    };
    proof {
        if r is None {
            if actual_format_order().contains(name@) {
                let j = choose|j: int|
                    0 <= j < 5 && actual_format_order()[j] == name@;
                assert(false);
            }
        }
    }
    r
}

fn all_actual_formats() -> (v: Vec<String>)
    ensures
        string_views(v@) == actual_format_order(),
{
    let v = vec![
        String::from_str("text"),
        String::from_str("html"),
        String::from_str("rtf"),
        String::from_str("image"),
        String::from_str("files"),
    ];
    assert(string_views(v@) =~= actual_format_order());
    v
}

pub(crate) fn contains_text(list: &[String], end: usize, name: &str) -> (b: bool)
    requires
        end <= list@.len(),
    ensures
        b == string_views(list@.take(end as int)).contains(name@),
{
    let mut i: usize = 0;
    while i < end
        invariant
            i <= end <= list@.len(),
            forall|k: int| 0 <= k < i ==> list@[k]@ != name@,
        decreases list@.len() - i,
    {
        if text_eq(list[i].as_str(), name) {
            assert(string_views(list@.take(end as int))[i as int] == name@);
            return true;
        }
        i = i + 1;
    }
    assert forall|k: int| 0 <= k < string_views(list@.take(end as int)).len() implies string_views(
        list@.take(end as int),
    )[k] != name@ by {
        assert(string_views(list@.take(end as int))[k] == list@[k]@);
    }
    false
}

/// Stored format names in canonical order; unknown or repeated names are errors.
pub fn canonical_actual_formats(formats: &[String]) -> (out: Result<Vec<String>, String>)
    ensures
        out is Ok <==> actual_formats_error(string_views(formats@)) is None,
        out matches Err(message) ==> actual_formats_error(string_views(formats@)) == Some(
            message@,
        ),
        out matches Ok(v) ==> string_views(v@) == ordered_subset(
            actual_format_order(),
            string_views(formats@),
        ),
{
    let ghost names = string_views(formats@);
    let mut i: usize = 0;
    while i < formats.len()
        invariant
            i <= formats@.len(),
            names == string_views(formats@),
            actual_formats_error(names.take(i as int)) is None,
        decreases formats@.len() - i,
    {
        let ghost prefix = names.take(i + 1);
        assert(prefix.drop_last() =~= names.take(i as int));
        assert(prefix.last() == formats@[i as int]@);
        assert(string_views(formats@.take(i as int)) =~= names.take(i as int));
        if actual_format_index(formats[i].as_str()).is_none() {
            proof {
                lemma_actual_formats_error_prefix(names, i + 1);
            }
            return Err(String::from_str("剪贴板记录包含不支持的格式"));
        }
        if contains_text(formats, i, formats[i].as_str()) {
            proof {
                lemma_actual_formats_error_prefix(names, i + 1);
            }
            return Err(String::from_str("剪贴板记录格式不能重复"));
        }
        i = i + 1;
    }
    assert(names.take(i as int) =~= names);
    let order = all_actual_formats();
    let mut out: Vec<String> = Vec::new();
    let mut k: usize = 0;
    while k < order.len()
        invariant
            k <= order@.len(),
            string_views(order@) == actual_format_order(),
            names == string_views(formats@),
            string_views(out@) == ordered_subset(actual_format_order().take(k as int), names),
        decreases order@.len() - k,
    {
        assert(actual_format_order().take(k + 1).drop_last() =~= actual_format_order().take(
            k as int,
        ));
        assert(actual_format_order()[k as int] == order@[k as int]@);
        let ghost before = out@;
        assert(formats@.take(formats@.len() as int) =~= formats@);
        if contains_text(formats, formats.len(), order[k].as_str()) {
            out.push(order[k].clone());
            assert(string_views(out@) =~= string_views(before).push(order@[k as int]@));
        }
        assert(string_views(out@) =~= ordered_subset(actual_format_order().take(k + 1), names));
        k = k + 1;
    }
    assert(actual_format_order().take(k as int) =~= actual_format_order());
    Ok(out)
}

} // verus!
