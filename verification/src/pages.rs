//! Pages of query results and of images waiting for OCR, assembled from the
//! rows a query read (one row more than the page, to tell whether more follow).

use crate::cursor::{
    cursor_encodable, cursor_payload, cursor_position, encode_cursor_position, position_at,
};
use crate::encoding::base64_encoding;
use crate::external::rfc3339_millis;
use crate::ids::{cursor_safe_id, history_id_is_cursor_safe, image_hash_is_canonical, lower_hex_64};
use crate::item::{history_item_problem, validate_history_item};
use crate::search::{history_match_source, match_source_of};
use crate::types::{HistoryItem, HistoryPage, PendingOcrCandidate, PendingOcrPage};
use vstd::prelude::*;
use vstd::utf8::encode_utf8;

verus! {

/// The most images one page of pending OCR work may hold.
pub const PENDING_OCR_PAGE_MAX: u32 = 8;

/// The cursor text for the position `(copied_at, id)`, when it can be written.
pub open spec fn cursor_text(copied_at: Seq<char>, id: Seq<char>) -> Option<Seq<char>> {
    if cursor_encodable(copied_at, id) {
        match rfc3339_millis(copied_at) {
            Some(m) => Some(base64_encoding(encode_utf8(cursor_payload(m, id)))),
            None => None,
        }
    } else {
        None
    }
}

/// A cursor that decodes to the position of the row `(copied_at, id)`, so
/// that the next page starts right after it.
pub open spec fn resumes_after(cursor: Seq<char>, copied_at: Seq<char>, id: Seq<char>) -> bool {
    rfc3339_millis(copied_at) matches Some(m) && cursor_position(cursor) == position_at(m, id)
}

/// How many of `read` rows a page of `limit` shows.
pub open spec fn page_len(read: nat, limit: u32) -> nat {
    if read > limit {
        limit as nat
    } else {
        read
    }
}

/// Whether rows follow the page, so that it carries a cursor to its last row.
pub open spec fn page_has_more(read: nat, limit: u32) -> bool {
    read > limit && limit > 0
}

/// Refuses a pending-OCR page size outside 1 to [`PENDING_OCR_PAGE_MAX`].
pub fn check_pending_ocr_limit(limit: u32) -> (out: Result<(), String>)
    ensures
        out is Ok <==> 1 <= limit <= PENDING_OCR_PAGE_MAX,
        out matches Err(e) ==> e@ == "待识别图片分页大小无效"@,
{
    if limit < 1 || limit > PENDING_OCR_PAGE_MAX {
        Err(String::from_str("待识别图片分页大小无效"))
    } else {
        Ok(())
    }
}

/// A pending-OCR row the store cannot hand out: an unsafe id or a hash that
/// is not 64 lower-case hex digits.
pub open spec fn bad_pending_row(row: (String, String, String)) -> bool {
    !cursor_safe_id(row.0@) || !lower_hex_64(row.1@)
}

/// The page of pending OCR images for `rows` (id, image hash, copy time),
/// newest first: the first `limit` rows, refused when any of them is bad, with
/// a cursor to the last one when more rows were read.
pub fn pending_ocr_page(rows: Vec<(String, String, String)>, limit: u32) -> (out: Result<
    PendingOcrPage,
    String,
>)
    ensures
        ({
            let n = page_len(rows@.len(), limit);
            let more = page_has_more(rows@.len(), limit);
            if exists|i: int| 0 <= i < n && #[trigger] bad_pending_row(rows@[i]) {
                out matches Err(e) && e@ == "待识别图片记录无效"@
            } else if more && cursor_text(rows@[n - 1].2@, rows@[n - 1].0@) is None {
                out matches Err(e) && e@ == "分页游标时间戳无效"@
            } else {
                out matches Ok(page) && page.items@.len() == n && (forall|i: int|
                    0 <= i < n ==> (#[trigger] page.items@[i]).id@ == rows@[i].0@
                        && page.items@[i].image_hash@ == rows@[i].1@) && if more {
                    page.next_cursor matches Some(c) && cursor_text(rows@[n - 1].2@, rows@[n - 1].0@)
                        == Some(c@) && resumes_after(c@, rows@[n - 1].2@, rows@[n - 1].0@)
                } else {
                    page.next_cursor is None
                }
            }
        }),
{
    let n: usize = if rows.len() > limit as usize {
        limit as usize
    } else {
        rows.len()
    };
    let more = rows.len() > limit as usize && limit > 0;
    let ghost original = rows@;
    assert(n == page_len(original.len(), limit));
    assert(more == page_has_more(original.len(), limit));
    let mut i: usize = 0;
    while i < n
        invariant
            i <= n <= rows@.len(),
            original == rows@,
            n == page_len(original.len(), limit),
            forall|k: int| 0 <= k < i ==> !#[trigger] bad_pending_row(rows@[k]),
        decreases n - i,
    {
        if !history_id_is_cursor_safe(rows[i].0.as_str()) || !image_hash_is_canonical(
            rows[i].1.as_str(),
        ) {
            assert(bad_pending_row(rows@[i as int]));
            assert(exists|j: int|
                0 <= j < page_len(original.len(), limit) && #[trigger] bad_pending_row(original[j]));
            return Err(String::from_str("待识别图片记录无效"));
        }
        i = i + 1;
    }
    let next_cursor = if more {
        assert(!bad_pending_row(rows@[n - 1]));
        match encode_cursor_position(rows[n - 1].2.as_str(), rows[n - 1].0.as_str()) {
            Ok(cursor) => Some(cursor),
            Err(e) => return Err(e),
        }
    } else {
        None
    };
    let mut rows = rows;
    rows.truncate(n);
    let mut items: Vec<PendingOcrCandidate> = Vec::new();
    while rows.len() > 0
        invariant
            items@.len() + rows@.len() == n,
            rows@ == original.subrange(items@.len() as int, n as int),
            n <= original.len(),
            forall|k: int|
                0 <= k < items@.len() ==> (#[trigger] items@[k]).id@ == original[k].0@
                    && items@[k].image_hash@ == original[k].1@,
        decreases rows@.len(),
    {
        let (id, image_hash, _copied_at) = rows.remove(0);
        items.push(PendingOcrCandidate { id, image_hash });
    }
    Ok(PendingOcrPage { items, next_cursor })
}

/// A summary row as a query page shows it: where the query matched it (judged
/// before its OCR text is dropped), no OCR text, no payload.
pub open spec fn summary_row(query_text: Seq<char>, item: HistoryItem) -> HistoryItem {
    HistoryItem {
        match_source: Some(match_source_of(query_text, item)),
        ocr_text: None,
        payload_loaded: false,
        ..item
    }
}

/// The first rule that one of the first `n` summary rows breaks.
pub open spec fn first_page_problem(query_text: Seq<char>, rows: Seq<HistoryItem>, n: int) -> Option<
    Seq<char>,
>
    decreases n,
{
    if n <= 0 {
        None
    } else {
        match first_page_problem(query_text, rows, n - 1) {
            Some(problem) => Some(problem),
            None => history_item_problem(summary_row(query_text, rows[n - 1])),
        }
    }
}

/// One page of a history query, from the summary `rows` it read (newest
/// first): the first `limit` rows as summaries, each checked against the
/// record contract, the count of every match, and a cursor to the last row
/// when more rows were read.
#[verifier::loop_isolation(false)]
pub fn history_page(rows: Vec<HistoryItem>, limit: u32, query_text: &str, total_count: u64) -> (out:
    Result<HistoryPage, String>)
    ensures
        ({
            let n = page_len(rows@.len(), limit);
            let more = page_has_more(rows@.len(), limit);
            if first_page_problem(query_text@, rows@, n as int) is Some {
                out matches Err(e) && first_page_problem(query_text@, rows@, n as int) == Some(e@)
            } else if more && cursor_text(rows@[n - 1].copied_at@, rows@[n - 1].id@) is None {
                out matches Err(e) && e@ == "分页游标时间戳无效"@
            } else {
                out matches Ok(page) && page.total_count == total_count && page.items@ == Seq::new(
                    n,
                    |i: int| summary_row(query_text@, rows@[i]),
                ) && if more {
                    page.next_cursor matches Some(c) && cursor_text(
                        rows@[n - 1].copied_at@,
                        rows@[n - 1].id@,
                    ) == Some(c@) && resumes_after(c@, rows@[n - 1].copied_at@, rows@[n - 1].id@)
                } else {
                    page.next_cursor is None
                }
            }
        }),
{
    let n: usize = if rows.len() > limit as usize {
        limit as usize
    } else {
        rows.len()
    };
    let more = rows.len() > limit as usize && limit > 0;
    let ghost original = rows@;
    let ghost text = query_text@;
    assert(n == page_len(original.len(), limit));
    assert(more == page_has_more(original.len(), limit));
    let mut rows = rows;
    rows.truncate(n);
    let mut items: Vec<HistoryItem> = Vec::new();
    while rows.len() > 0
        invariant
            items@.len() + rows@.len() == n,
            n <= original.len(),
            n == page_len(original.len(), limit),
            rows@ == original.subrange(items@.len() as int, n as int),
            text == query_text@,
            first_page_problem(text, original, items@.len() as int) is None,
            items@ == Seq::new(items@.len(), |i: int| summary_row(text, original[i])),
        decreases rows@.len(),
    {
        let ghost k = items@.len() as int;
        let item = rows.remove(0);
        assert(item == original[k]);
        let match_source = history_match_source(query_text, &item);
        let summary = HistoryItem {
            match_source: Some(match_source),
            ocr_text: None,
            payload_loaded: false,
            ..item
        };
        assert(summary == summary_row(text, original[k]));
        match validate_history_item(&summary) {
            Ok(()) => {},
            Err(e) => {
                assert(k + 1 <= n);
                assert(first_page_problem(text, original, k + 1) == Some(e@));
                proof {
                    lemma_first_problem_stays(text, original, k + 1, n as int);
                }
                assert(first_page_problem(query_text@, original, page_len(original.len(), limit) as int)
                    == Some(e@));
                return Err(e);
            },
        }
        items.push(summary);
        assert(items@ =~= Seq::new(items@.len(), |i: int| summary_row(text, original[i])));
    }
    let next_cursor = if more {
        match encode_cursor_position(items[n - 1].copied_at.as_str(), items[n - 1].id.as_str()) {
            Ok(cursor) => Some(cursor),
            Err(e) => return Err(e),
        }
    } else {
        None
    };
    Ok(HistoryPage { items, next_cursor, total_count })
}

/// Once a prefix of the rows has a problem, every longer prefix reports the same one.
proof fn lemma_first_problem_stays(text: Seq<char>, rows: Seq<HistoryItem>, k: int, n: int)
    requires
        0 <= k <= n,
        first_page_problem(text, rows, k) is Some,
    ensures
        first_page_problem(text, rows, n) == first_page_problem(text, rows, k),
    decreases n - k,
{
    if n > k {
        lemma_first_problem_stays(text, rows, k, n - 1);
    }
}

} // verus!
