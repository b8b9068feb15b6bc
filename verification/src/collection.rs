//! Collection names, stored collections and snippet drafts.

use crate::ids::{cursor_safe_id, history_id_is_cursor_safe};
use crate::item::{opt_view, JS_MAX_SAFE_INTEGER_U64};
use crate::text::{
    chars_have_control, chars_of, has_control, seq_less, text_eq, text_less, trim_query_seq,
    trim_query_value, utf16_len, utf16_len_at_most,
};
use crate::time::{is_canonical_timestamp, timestamp_is_canonical};
use crate::types::{Collection, HistoryItem, SnippetDraft};
use vstd::prelude::*;
use vstd::string::*;

verus! {

/// The longest collection name, in UTF-16 code units.
pub const MAX_COLLECTION_NAME_UTF16: usize = 512;

/// A trimmed collection name is acceptable: not empty, at most 512 UTF-16
/// code units, and free of control characters.
pub open spec fn valid_collection_name(name: Seq<char>) -> bool {
    name.len() > 0 && utf16_len(name) <= MAX_COLLECTION_NAME_UTF16 && !has_control(name)
}

/// A collection name trimmed of query white space, or refused.
pub fn normalize_collection_name(value: &str) -> (out: Result<String, String>)
    ensures
        valid_collection_name(trim_query_seq(value@)) ==> (out matches Ok(name) && name@
            == trim_query_seq(value@)),
        !valid_collection_name(trim_query_seq(value@)) ==> (out matches Err(e) && e@ == "集合名称无效"@),
{
    let name = trim_query_value(value);
    let chars = chars_of(name);
    if chars.len() == 0 || !utf16_len_at_most(&chars, MAX_COLLECTION_NAME_UTF16) || chars_have_control(
        &chars,
    ) {
        return Err(String::from_str("集合名称无效"));
    }
    Ok(String::from_str(name))
}

/// A stored collection is well formed: a valid id, a name already in
/// normalised form, canonical timestamps with `created_at` not after
/// `updated_at`, and a sort order that JavaScript holds exactly.
pub open spec fn valid_collection(c: Collection) -> bool {
    &&& cursor_safe_id(c.id@)
    &&& valid_collection_name(trim_query_seq(c.name@))
    &&& trim_query_seq(c.name@) == c.name@
    &&& is_canonical_timestamp(c.created_at@)
    &&& is_canonical_timestamp(c.updated_at@)
    &&& !seq_less(c.updated_at@, c.created_at@)
    &&& -(JS_MAX_SAFE_INTEGER_U64 as int) <= c.sort_order <= JS_MAX_SAFE_INTEGER_U64
}

/// Refuses a stored collection that is not well formed.
pub fn validate_collection(collection: &Collection) -> (out: Result<(), String>)
    ensures
        valid_collection(*collection) <==> out is Ok,
        out matches Err(e) ==> e@ == "集合数据无效"@,
{
    let name_ok = match normalize_collection_name(collection.name.as_str()) {
        Ok(name) => text_eq(name.as_str(), collection.name.as_str()),
        Err(_) => false,
    };
    if !history_id_is_cursor_safe(collection.id.as_str()) || !name_ok || !timestamp_is_canonical(
        collection.created_at.as_str(),
    ) || !timestamp_is_canonical(collection.updated_at.as_str()) || text_less(
        collection.updated_at.as_str(),
        collection.created_at.as_str(),
    ) || collection.sort_order < -9_007_199_254_740_991 || collection.sort_order
        > 9_007_199_254_740_991 {
        return Err(String::from_str("集合数据无效"));
    }
    Ok(())
}

/// The first problem with a snippet draft, in the order they are checked.
pub open spec fn snippet_draft_error(draft: SnippetDraft) -> Option<Seq<char>> {
    if draft.id matches Some(id) && !cursor_safe_id(id@) {
        Some("片段标识无效"@)
    } else if !valid_collection_name(trim_query_seq(draft.title@)) {
        Some("片段标题无效"@)
    } else if trim_query_seq(draft.content@).len() == 0 {
        Some("片段正文不能为空"@)
    } else if draft.kind@ != "text"@ && draft.kind@ != "code"@ {
        Some("片段类型必须是 text 或 code"@)
    } else if draft.collection_id matches Some(id) && !cursor_safe_id(id@) {
        Some("片段集合标识无效"@)
    } else {
        None
    }
}

/// Checks a snippet draft and trims its title.
pub fn normalize_snippet_draft(draft: SnippetDraft) -> (out: Result<SnippetDraft, String>)
    ensures
        match snippet_draft_error(draft) {
            Some(message) => out matches Err(e) && e@ == message,
            None => out matches Ok(d) && d.title@ == trim_query_seq(draft.title@) && d == (
            SnippetDraft { title: d.title, ..draft }),
        },
{
    let mut draft = draft;
    if let Some(id) = &draft.id {
        if !history_id_is_cursor_safe(id.as_str()) {
            return Err(String::from_str("片段标识无效"));
        }
    }
    draft.title = match normalize_collection_name(draft.title.as_str()) {
        Ok(title) => title,
        Err(_) => return Err(String::from_str("片段标题无效")),
    };
    if trim_query_value(draft.content.as_str()).unicode_len() == 0 {
        return Err(String::from_str("片段正文不能为空"));
    }
    if !text_eq(draft.kind.as_str(), "text") && !text_eq(draft.kind.as_str(), "code") {
        return Err(String::from_str("片段类型必须是 text 或 code"));
    }
    if let Some(id) = &draft.collection_id {
        if !history_id_is_cursor_safe(id.as_str()) {
            return Err(String::from_str("片段集合标识无效"));
        }
    }
    Ok(draft)
}

/// The sort order of a new collection: one past the largest in use (0 for the
/// first), if it stays a safe JavaScript integer.
pub open spec fn sort_order_after(maximum: Option<i64>) -> Option<i64> {
    match maximum {
        None => Some(0),
        Some(v) => if -9_007_199_254_740_991 <= v + 1 <= 9_007_199_254_740_991 {
            Some((v + 1) as i64)
        } else {
            None
        },
    }
}

/// The sort order of a new collection (see [`sort_order_after`]).
pub fn next_sort_order(maximum: Option<i64>) -> (out: Result<i64, String>)
    ensures
        match sort_order_after(maximum) {
            Some(order) => out == Ok::<i64, String>(order),
            None => out matches Err(e) && e@ == "集合排序值已用尽"@,
        },
{
    match maximum {
        None => Ok(0),
        Some(v) => {
            if v < -9_007_199_254_740_992 || v > 9_007_199_254_740_990 {
                Err(String::from_str("集合排序值已用尽"))
            } else {
                Ok(v + 1)
            }
        },
    }
}

/// Why a stored record cannot be edited as a snippet: it must be a permanent
/// text or code record with a canonical copy time.
pub open spec fn editable_snippet_error(kind: Seq<char>, permanent: bool, copied_at: Seq<char>) -> Option<
    Seq<char>,
> {
    if !permanent || (kind != "text"@ && kind != "code"@) {
        Some("记录不是可编辑的永久片段"@)
    } else if !is_canonical_timestamp(copied_at) {
        Some("片段复制时间无效"@)
    } else {
        None
    }
}

/// Checks that a stored record can be edited as a snippet (see [`editable_snippet_error`]).
pub fn check_editable_snippet(kind: &str, permanent: bool, copied_at: &str) -> (out: Result<(), String>)
    ensures
        match editable_snippet_error(kind@, permanent, copied_at@) {
            Some(message) => out matches Err(e) && e@ == message,
            None => out is Ok,
        },
{
    if !permanent || (!text_eq(kind, "text") && !text_eq(kind, "code")) {
        return Err(String::from_str("记录不是可编辑的永久片段"));
    }
    if !timestamp_is_canonical(copied_at) {
        return Err(String::from_str("片段复制时间无效"));
    }
    Ok(())
}

/// The record a snippet is saved as: a permanent, plain-text record from
/// QuickPaste with the draft's kind, title, body and collection.
pub open spec fn snippet_record(
    draft: SnippetDraft,
    record: HistoryItem,
    id: String,
    copied_at: String,
    updated_at: String,
    pinned: bool,
) -> bool {
    &&& record.id == id
    &&& record.kind == draft.kind
    &&& record.title == draft.title
    &&& record.content == draft.content
    &&& record.source_app@ == "QuickPaste"@
    &&& record.source_app_icon is None
    &&& record.copied_at == copied_at
    &&& record.updated_at == updated_at
    &&& record.pinned == pinned
    &&& record.permanent
    &&& record.collection_id == draft.collection_id
    &&& record.search_terms@.len() == 0
    &&& record.ocr_text is None
    &&& record.ocr_status is None
    &&& record.image_hash is None
    &&& record.match_source is None
    &&& record.color is None
    &&& record.dimensions is None
    &&& record.formats@.len() == 1 && record.formats@[0]@ == "text"@
    &&& record.omitted_formats@.len() == 0
    &&& record.payload_loaded
    &&& record.html is None
    &&& record.rtf_base64 is None
    &&& record.image_url is None
    &&& record.files@.len() == 0
}

/// Builds the record a snippet is saved as (see [`snippet_record`]).
pub fn snippet_item(draft: SnippetDraft, id: String, copied_at: String, updated_at: String, pinned: bool) -> (out:
    HistoryItem)
    ensures
        snippet_record(draft, out, id, copied_at, updated_at, pinned),
{
    let mut formats: Vec<String> = Vec::new();
    formats.push(String::from_str("text"));
    HistoryItem {
        id,
        kind: draft.kind,
        title: draft.title,
        content: draft.content,
        source_app: String::from_str("QuickPaste"),
        source_app_icon: None,
        copied_at,
        updated_at,
        pinned,
        permanent: true,
        collection_id: draft.collection_id,
        search_terms: Vec::new(),
        ocr_text: None,
        ocr_status: None,
        image_hash: None,
        match_source: None,
        color: None,
        dimensions: None,
        formats,
        omitted_formats: Vec::new(),
        payload_loaded: true,
        html: None,
        rtf_base64: None,
        image_url: None,
        files: Vec::new(),
    }
}

/// Two collections share an id or a name.
pub open spec fn shares_key(a: Collection, b: Collection) -> bool {
    a.id@ == b.id@ || a.name@ == b.name@
}

/// The first problem in a list of stored collections, in list order: one that
/// is not well formed, or one whose id or name an earlier one already has.
pub open spec fn collection_list_error(cs: Seq<Collection>) -> Option<Seq<char>>
    decreases cs.len(),
{
    if cs.len() == 0 {
        None
    } else {
        match collection_list_error(cs.drop_last()) {
            Some(e) => Some(e),
            None => if !valid_collection(cs.last()) {
                Some("集合数据无效"@)
            } else if exists|i: int| 0 <= i < cs.len() - 1 && #[trigger] shares_key(cs[i], cs.last()) {
                Some("集合标识或名称重复"@)
            } else {
                None
            },
        }
    }
}

proof fn lemma_collection_list_error_stays(cs: Seq<Collection>, k: int)
    requires
        0 <= k <= cs.len(),
        collection_list_error(cs.take(k)) is Some,
    ensures
        collection_list_error(cs) == collection_list_error(cs.take(k)),
    decreases cs.len() - k,
{
    if k < cs.len() {
        assert(cs.take(k + 1).drop_last() =~= cs.take(k));
        lemma_collection_list_error_stays(cs, k + 1);
    } else {
        assert(cs.take(k) =~= cs);
    }
}

/// Checks a list of stored collections (see [`collection_list_error`]).
pub fn check_collection_list(collections: &Vec<Collection>) -> (out: Result<(), String>)
    ensures
        match collection_list_error(collections@) {
            Some(message) => out matches Err(e) && e@ == message,
            None => out is Ok,
        },
{
    let ghost cs = collections@;
    let mut i: usize = 0;
    while i < collections.len()
        invariant
            i <= cs.len(),
            cs == collections@,
            collection_list_error(cs.take(i as int)) is None,
        decreases cs.len() - i,
    {
        let ghost prefix = cs.take(i + 1);
        assert(prefix.drop_last() =~= cs.take(i as int));
        assert(prefix.last() == cs[i as int]);
        let current = &collections[i];
        let verdict: Result<(), String> = match validate_collection(current) {
            Err(e) => Err(e),
            Ok(()) => {
                let mut j: usize = 0;
                let mut repeated = false;
                while j < i
                    invariant
                        j <= i < cs.len(),
                        cs == collections@,
                        *current == cs[i as int],
                        repeated <==> exists|k: int| 0 <= k < j && #[trigger] shares_key(cs[k], *current),
                    decreases i - j,
                {
                    let same = text_eq(collections[j].id.as_str(), current.id.as_str()) || text_eq(
                        collections[j].name.as_str(),
                        current.name.as_str(),
                    );
                    assert(same == shares_key(cs[j as int], *current));
                    if same {
                        repeated = true;
                    }
                    j = j + 1;
                }
                if repeated {
                    assert(exists|k: int| 0 <= k < prefix.len() - 1 && #[trigger] shares_key(prefix[k], prefix.last())) by {
                        let k = choose|k: int| 0 <= k < i && #[trigger] shares_key(cs[k], *current);
                        assert(prefix[k] == cs[k]);
                    }
                    Err(String::from_str("集合标识或名称重复"))
                } else {
                    assert forall|k: int| 0 <= k < prefix.len() - 1 implies !#[trigger] shares_key(prefix[k], prefix.last()) by {
                        assert(prefix[k] == cs[k]);
                    }
                    Ok(())
                }
            },
        };
        match verdict {
            Err(e) => {
                assert(collection_list_error(prefix) == Some(e@));
                proof {
                    lemma_collection_list_error_stays(cs, i + 1);
                }
                return Err(e);
            },
            Ok(()) => {},
        }
        i = i + 1;
    }
    assert(cs.take(i as int) =~= cs);
    Ok(())
}

} // verus!
