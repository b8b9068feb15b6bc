//! Normalising a paged history query before it reaches SQL.

use crate::cursor::{cursor_position, decode_cursor, HISTORY_CURSOR_MAX_UTF16};
use crate::external::str_byte_len;
use crate::formats::{contains_text, ordered_subset, string_views};
use crate::item::{byte_len, opt_view};
use crate::search::{normalize_query_text, search_text};
use crate::text::{
    chars_have_control, chars_of, has_control, js_less, js_text_less,
    lemma_units_less_total, lemma_units_less_transitive, lemma_utf16_units_injective, text_eq,
    trim_query_seq, trim_query_value, utf16_len, utf16_len_at_most, utf16_units,
};
use crate::types::{CollectionScope, HistoryQuery};
use vstd::prelude::*;
use vstd::string::*;

verus! {

/// The record kinds a query may filter on, in the order a normalised query lists them.
pub open spec fn kind_order() -> Seq<Seq<char>> {
    seq!["text"@, "code"@, "link"@, "image"@, "file"@]
}

/// An ASCII letter or digit.
pub open spec fn is_ascii_alnum(c: char) -> bool {
    ('a' <= c && c <= 'z') || ('A' <= c && c <= 'Z') || ('0' <= c && c <= '9')
}

/// A collection id as queries accept it: at most 128 bytes, an ASCII letter or
/// digit first, then ASCII letters, digits, `.`, `_`, `:` or `-`.
pub open spec fn valid_collection_id(id: Seq<char>) -> bool {
    &&& byte_len(id) <= 128
    &&& id.len() > 0
    &&& is_ascii_alnum(id[0])
    &&& forall|k: int|
        1 <= k < id.len() ==> is_ascii_alnum(#[trigger] id[k]) || id[k] == '.' || id[k] == '_'
            || id[k] == ':' || id[k] == '-'
}

/// A cursor as queries accept it: non-empty, trimmed, at most 512 UTF-16 code
/// units, free of control characters, and decodable.
pub open spec fn acceptable_cursor(cursor: Seq<char>) -> bool {
    &&& cursor.len() > 0
    &&& trim_query_seq(cursor) == cursor
    &&& utf16_len(cursor) <= HISTORY_CURSOR_MAX_UTF16
    &&& !has_control(cursor)
    &&& cursor_position(cursor) is Some
}

/// The first problem with a query, in the order the store checks them.
pub open spec fn query_error(query: HistoryQuery) -> Option<Seq<char>> {
    if exists|k: int| 0 <= k < query.kinds@.len() && !kind_order().contains(#[trigger] query.kinds@[k]@) {
        Some("历史类型筛选无效"@)
    } else if query.collection matches CollectionScope::Collection { id } && !valid_collection_id(
        trim_query_seq(id@),
    ) {
        Some("历史集合标识无效"@)
    } else if !(1 <= query.limit && query.limit <= 200) {
        Some("历史分页大小无效"@)
    } else if query.cursor matches Some(c) && !acceptable_cursor(c@) {
        Some("历史分页游标无效"@)
    } else {
        None
    }
}

/// `t` is the trimmed form of one of the source applications, and not empty.
pub open spec fn source_app_from(apps: Seq<String>, t: Seq<char>) -> bool {
    t.len() > 0 && exists|k: int| 0 <= k < apps.len() && trim_query_seq(#[trigger] apps[k]@) == t
}

/// Strictly increasing in JavaScript's string order.
pub open spec fn js_sorted(s: Seq<Seq<char>>) -> bool {
    forall|i: int, j: int| 0 <= i < j < s.len() ==> js_less(#[trigger] s[i], #[trigger] s[j])
}

/// The source-application filter of a normalised query: each trimmed,
/// non-empty value once, in JavaScript's string order.
pub open spec fn normalized_source_apps(apps: Seq<String>, out: Seq<Seq<char>>) -> bool {
    &&& js_sorted(out)
    &&& forall|t: Seq<char>| #[trigger] out.contains(t) <==> source_app_from(apps, t)
}

/// The collection scope of a normalised query: the same scope, with a collection id trimmed.
pub open spec fn normalized_scope(before: CollectionScope, after: CollectionScope) -> bool {
    match (before, after) {
        (CollectionScope::Any {  }, CollectionScope::Any {  }) => true,
        (CollectionScope::Unfiled {  }, CollectionScope::Unfiled {  }) => true,
        (CollectionScope::Collection { id: a }, CollectionScope::Collection { id: b }) => b@
            == trim_query_seq(a@),
        _ => false,
    }
}

/// What a normalised query holds: normalised text, the kinds in canonical
/// order, the source applications trimmed, de-duplicated and sorted, the
/// collection id trimmed, and everything else unchanged.
pub open spec fn normalized_query(before: HistoryQuery, after: HistoryQuery) -> bool {
    &&& after.text@ == search_text(before.text@)
    &&& string_views(after.kinds@) == ordered_subset(kind_order(), string_views(before.kinds@))
    &&& normalized_source_apps(before.source_apps@, string_views(after.source_apps@))
    &&& normalized_scope(before.collection, after.collection)
    &&& after.pinned == before.pinned
    &&& after.permanent == before.permanent
    &&& after.limit == before.limit
    &&& opt_view(after.cursor) == opt_view(before.cursor)
}

proof fn lemma_js_less_total(a: Seq<char>, b: Seq<char>)
    requires
        a != b,
    ensures
        js_less(a, b) || js_less(b, a),
{
    if utf16_units(a) == utf16_units(b) {
        lemma_utf16_units_injective(a, b);
    }
    lemma_units_less_total(utf16_units(a), utf16_units(b));
}

proof fn lemma_js_less_transitive(a: Seq<char>, b: Seq<char>, c: Seq<char>)
    requires
        js_less(a, b),
        js_less(b, c),
    ensures
        js_less(a, c),
{
    lemma_units_less_transitive(utf16_units(a), utf16_units(b), utf16_units(c));
}

fn is_history_kind(name: &str) -> (b: bool)
    ensures
        b == kind_order().contains(name@),
{
    let b = text_eq(name, "text") || text_eq(name, "code") || text_eq(name, "link") || text_eq(
        name,
        "image",
    ) || text_eq(name, "file");
    proof {
        if kind_order().contains(name@) {
            let j = choose|j: int| 0 <= j < 5 && kind_order()[j] == name@;
            assert(b);
        }
        if b {
            assert(kind_order()[0] == "text"@);
            assert(kind_order()[1] == "code"@);
            assert(kind_order()[2] == "link"@);
            assert(kind_order()[3] == "image"@);
            assert(kind_order()[4] == "file"@);
        }
    }
    b
}

fn all_history_kinds() -> (v: Vec<String>)
    ensures
        string_views(v@) == kind_order(),
{
    let v = vec![
        String::from_str("text"),
        String::from_str("code"),
        String::from_str("link"),
        String::from_str("image"),
        String::from_str("file"),
    ];
    assert(string_views(v@) =~= kind_order());
    v
}

fn unknown_kind_present(kinds: &Vec<String>) -> (b: bool)
    ensures
        b == exists|k: int| 0 <= k < kinds@.len() && !kind_order().contains(#[trigger] kinds@[k]@),
{
    let mut i: usize = 0;
    while i < kinds.len()
        invariant
            i <= kinds@.len(),
            forall|k: int| 0 <= k < i ==> kind_order().contains(#[trigger] kinds@[k]@),
        decreases kinds@.len() - i,
    {
        if !is_history_kind(kinds[i].as_str()) {
            return true;
        }
        i = i + 1;
    }
    false
}

fn canonical_kinds(kinds: &Vec<String>) -> (out: Vec<String>)
    ensures
        string_views(out@) == ordered_subset(kind_order(), string_views(kinds@)),
{
    let order = all_history_kinds();
    let ghost names = string_views(kinds@);
    let mut out: Vec<String> = Vec::new();
    let mut k: usize = 0;
    while k < order.len()
        invariant
            k <= order@.len(),
            string_views(order@) == kind_order(),
            names == string_views(kinds@),
            string_views(out@) == ordered_subset(kind_order().take(k as int), names),
        decreases order@.len() - k,
    {
        assert(kind_order().take(k + 1).drop_last() =~= kind_order().take(k as int));
        assert(kind_order()[k as int] == order@[k as int]@);
        let ghost before = out@;
        assert(kinds@.take(kinds@.len() as int) =~= kinds@);
        if contains_text(kinds.as_slice(), kinds.len(), order[k].as_str()) {
            out.push(order[k].clone());
            assert(string_views(out@) =~= string_views(before).push(order@[k as int]@));
        }
        assert(string_views(out@) =~= ordered_subset(kind_order().take(k + 1), names));
        k = k + 1;
    }
    assert(kind_order().take(k as int) =~= kind_order());
    out
}

/// Where `t` goes in a list sorted in JavaScript's order: after every smaller entry.
fn insertion_point(sorted: &Vec<String>, t: &str) -> (p: usize)
    ensures
        p <= sorted@.len(),
        forall|q: int| 0 <= q < p ==> js_less(#[trigger] sorted@[q]@, t@),
        p < sorted@.len() ==> !js_less(sorted@[p as int]@, t@),
{
    let mut p: usize = 0;
    while p < sorted.len()
        invariant
            p <= sorted@.len(),
            forall|q: int| 0 <= q < p ==> js_less(#[trigger] sorted@[q]@, t@),
        decreases sorted@.len() - p,
    {
        if !js_text_less(sorted[p].as_str(), t) {
            return p;
        }
        p = p + 1;
    }
    p
}

/// Adds `t` to a list kept strictly sorted in JavaScript's order, unless it is already there.
fn insert_sorted_unique(sorted: &mut Vec<String>, t: &str)
    requires
        js_sorted(string_views(old(sorted)@)),
    ensures
        js_sorted(string_views(final(sorted)@)),
        forall|x: Seq<char>|
            #[trigger] string_views(final(sorted)@).contains(x) <==> (string_views(
                old(sorted)@,
            ).contains(x) || x == t@),
{
    let ghost before = string_views(sorted@);
    let p = insertion_point(sorted, t);
    if p < sorted.len() && text_eq(sorted[p].as_str(), t) {
        assert(before[p as int] == t@);
        return;
    }
    proof {
        if p < before.len() {
            assert(before[p as int] == sorted@[p as int]@);
            lemma_js_less_total(before[p as int], t@);
        }
    }
    sorted.insert(p, String::from_str(t));
    let ghost after = string_views(sorted@);
    assert(after =~= before.insert(p as int, t@));
    assert forall|i: int, j: int| 0 <= i < j < after.len() implies js_less(
        #[trigger] after[i],
        #[trigger] after[j],
    ) by {
        if j < p {
            assert(after[i] == before[i] && after[j] == before[j]);
        } else if j == p {
            assert(after[i] == sorted@[i]@);
        } else if i == p {
            assert(after[j] == before[j - 1]);
            if j - 1 > p {
                assert(js_less(before[p as int], before[j - 1]));
                lemma_js_less_transitive(t@, before[p as int], before[j - 1]);
            }
        } else if i < p {
            assert(after[i] == before[i] && after[j] == before[j - 1]);
        } else {
            assert(after[i] == before[i - 1] && after[j] == before[j - 1]);
        }
    }
    assert forall|x: Seq<char>| #[trigger] after.contains(x) <==> (before.contains(x) || x == t@) by {
        if after.contains(x) {
            let i = choose|i: int| 0 <= i < after.len() && after[i] == x;
            if i < p {
                assert(before[i] == x);
            } else if i > p {
                assert(before[i - 1] == x);
            }
        }
        if before.contains(x) {
            let i = choose|i: int| 0 <= i < before.len() && before[i] == x;
            if i < p {
                assert(after[i] == x);
            } else {
                assert(after[i + 1] == x);
            }
        }
        if x == t@ {
            assert(after[p as int] == x);
        }
    }
}

/// The source-application filter, trimmed, without empty values, de-duplicated
/// and sorted in JavaScript's string order.
fn normalize_source_apps(apps: &Vec<String>) -> (out: Vec<String>)
    ensures
        normalized_source_apps(apps@, string_views(out@)),
{
    let mut out: Vec<String> = Vec::new();
    let mut i: usize = 0;
    assert(string_views(out@) =~= Seq::<Seq<char>>::empty());
    while i < apps.len()
        invariant
            i <= apps@.len(),
            js_sorted(string_views(out@)),
            forall|t: Seq<char>|
                #[trigger] string_views(out@).contains(t) <==> source_app_from(
                    apps@.take(i as int),
                    t,
                ),
        decreases apps@.len() - i,
    {
        let trimmed = trim_query_value(apps[i].as_str());
        let ghost before = string_views(out@);
        if trimmed.unicode_len() > 0 {
            insert_sorted_unique(&mut out, trimmed);
        }
        assert forall|t: Seq<char>| #[trigger] string_views(out@).contains(t) <==> source_app_from(
            apps@.take(i + 1),
            t,
        ) by {
            if source_app_from(apps@.take(i + 1), t) {
                let k = choose|k: int|
                    0 <= k < apps@.take(i + 1).len() && trim_query_seq(
                        #[trigger] apps@.take(i + 1)[k]@,
                    ) == t;
                if k < i {
                    assert(apps@.take(i as int)[k] == apps@.take(i + 1)[k]);
                    assert(source_app_from(apps@.take(i as int), t));
                }
            }
            if source_app_from(apps@.take(i as int), t) {
                let k = choose|k: int|
                    0 <= k < apps@.take(i as int).len() && trim_query_seq(
                        #[trigger] apps@.take(i as int)[k]@,
                    ) == t;
                assert(apps@.take(i + 1)[k] == apps@.take(i as int)[k]);
            }
            if t == trimmed@ && t.len() > 0 {
                assert(apps@.take(i + 1)[i as int] == apps@[i as int]);
            }
        }
        i = i + 1;
    }
    assert(apps@.take(i as int) =~= apps@);
    out
}

/// Whether a trimmed collection id has the accepted shape.
fn collection_id_is_valid(id: &str) -> (b: bool)
    ensures
        b == valid_collection_id(id@),
{
    if str_byte_len(id) > 128 {
        return false;
    }
    let chars = chars_of(id);
    if chars.len() == 0 {
        return false;
    }
    let first = chars[0];
    if !(('a' <= first && first <= 'z') || ('A' <= first && first <= 'Z') || ('0' <= first
        && first <= '9')) {
        return false;
    }
    let mut i: usize = 1;
    while i < chars.len()
        invariant
            1 <= i <= chars@.len(),
            chars@ == id@,
            forall|k: int|
                1 <= k < i ==> is_ascii_alnum(#[trigger] chars@[k]) || chars@[k] == '.'
                    || chars@[k] == '_' || chars@[k] == ':' || chars@[k] == '-',
        decreases chars@.len() - i,
    {
        let c = chars[i];
        if !(('a' <= c && c <= 'z') || ('A' <= c && c <= 'Z') || ('0' <= c && c <= '9') || c
            == '.' || c == '_' || c == ':' || c == '-') {
            return false;
        }
        i = i + 1;
    }
    true
}

/// Whether a query cursor is acceptable (see [`acceptable_cursor`]).
fn cursor_is_acceptable(cursor: &str) -> (b: bool)
    ensures
        b == acceptable_cursor(cursor@),
{
    let chars = chars_of(cursor);
    if chars.len() == 0 {
        return false;
    }
    if !text_eq(trim_query_value(cursor), cursor) {
        return false;
    }
    if !utf16_len_at_most(&chars, HISTORY_CURSOR_MAX_UTF16) {
        return false;
    }
    if chars_have_control(&chars) {
        return false;
    }
    decode_cursor(cursor).is_ok()
}

fn query_failure(message: &str) -> (out: Result<HistoryQuery, String>)
    ensures
        out matches Err(e) && e@ == message@,
{
    Err(String::from_str(message))
}

/// Normalises a paged query, or says which part of it is invalid.
pub fn normalize_history_query(query: HistoryQuery) -> (out: Result<HistoryQuery, String>)
    ensures
        match query_error(query) {
            Some(message) => out matches Err(e) && e@ == message,
            None => out matches Ok(normalized) && normalized_query(query, normalized),
        },
{
    let text = normalize_query_text(query.text.as_str());
    if unknown_kind_present(&query.kinds) {
        return query_failure("历史类型筛选无效");
    }
    let kinds = canonical_kinds(&query.kinds);
    let source_apps = normalize_source_apps(&query.source_apps);
    let collection = match &query.collection {
        CollectionScope::Any {  } => CollectionScope::Any {  },
        CollectionScope::Unfiled {  } => CollectionScope::Unfiled {  },
        CollectionScope::Collection { id } => {
            let trimmed = trim_query_value(id.as_str());
            if !collection_id_is_valid(trimmed) {
                return query_failure("历史集合标识无效");
            }
            CollectionScope::Collection { id: String::from_str(trimmed) }
        },
    };
    if !(1 <= query.limit && query.limit <= 200) {
        return query_failure("历史分页大小无效");
    }
    if let Some(cursor) = &query.cursor {
        if !cursor_is_acceptable(cursor.as_str()) {
            return query_failure("历史分页游标无效");
        }
    }
    Ok(
        HistoryQuery {
            text,
            kinds,
            source_apps,
            collection,
            pinned: query.pinned,
            permanent: query.permanent,
            limit: query.limit,
            cursor: query.cursor,
        },
    )
}

} // verus!
