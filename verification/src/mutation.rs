//! The record-level decisions of a history mutation: checking each upsert,
//! folding earlier copies of the same image into the new one, and reporting
//! the ids removed.

use crate::formats::string_views;
use crate::ids::{image_hash_is_canonical, lower_hex_64};
use crate::item::{
    history_item_problem, item_normalization_error, normalize_history_item, normalized_item,
    opt_view, validate_history_item,
};
use crate::text::{seq_less, text_eq, text_less};
use crate::types::HistoryItem;
use vstd::prelude::*;
use vstd::string::*;

verus! {

/// One stored copy of an image, as the store reads it.
#[derive(Debug)]
pub struct SameImageRow {
    pub id: String,
    pub pinned: bool,
    pub collection_id: Option<String>,
    pub ocr_status: Option<String>,
    pub ocr_text: Option<String>,
}

/// What earlier copies of an image pass on to a new copy.
#[derive(Debug)]
pub struct SameImageState {
    /// The other copies, newest first: they are replaced.
    pub duplicate_ids: Vec<String>,
    /// Whether any other copy was pinned.
    pub pinned: bool,
    /// The collection of the newest other copy that had one.
    pub collection_id: Option<String>,
    /// The first finished recognition among all copies: its status and text.
    pub terminal_ocr: Option<(String, Option<String>)>,
}

/// A finished recognition that can be passed on: completed with text,
/// unavailable, or oversized.
pub open spec fn terminal_ocr_of(row: SameImageRow) -> bool {
    match row.ocr_status {
        Some(s) => (s@ == "completed"@ && row.ocr_text is Some) || s@ == "unavailable"@ || s@
            == "oversized"@,
        None => false,
    }
}

/// The state as plain values.
pub struct ImageStateView {
    pub duplicate_ids: Seq<Seq<char>>,
    pub pinned: bool,
    pub collection_id: Option<Seq<char>>,
    pub terminal_ocr: Option<(Seq<char>, Option<Seq<char>>)>,
}

pub open spec fn state_view(s: SameImageState) -> ImageStateView {
    ImageStateView {
        duplicate_ids: string_views(s.duplicate_ids@),
        pinned: s.pinned,
        collection_id: opt_view(s.collection_id),
        terminal_ocr: match s.terminal_ocr {
            Some((status, text)) => Some((status@, opt_view(text))),
            None => None,
        },
    }
}

/// Folding the stored copies, newest first, into what they pass on to `incoming`.
pub open spec fn image_state(incoming: Seq<char>, rows: Seq<SameImageRow>) -> ImageStateView
    decreases rows.len(),
{
    if rows.len() == 0 {
        ImageStateView { duplicate_ids: seq![], pinned: false, collection_id: None, terminal_ocr: None }
    } else {
        let s = image_state(incoming, rows.drop_last());
        let r = rows.last();
        let terminal = if s.terminal_ocr is None && terminal_ocr_of(r) {
            Some((r.ocr_status->0@, opt_view(r.ocr_text)))
        } else {
            s.terminal_ocr
        };
        if r.id@ == incoming {
            ImageStateView { terminal_ocr: terminal, ..s }
        } else {
            ImageStateView {
                duplicate_ids: s.duplicate_ids.push(r.id@),
                pinned: s.pinned || r.pinned,
                collection_id: if s.collection_id is None {
                    opt_view(r.collection_id)
                } else {
                    s.collection_id
                },
                terminal_ocr: terminal,
            }
        }
    }
}

/// What the stored copies of an image pass on to `incoming_id` (nothing for
/// a hash that is not canonical).
pub fn same_image_state_of(incoming_id: &str, image_hash: &str, rows: &Vec<SameImageRow>) -> (out: SameImageState)
    ensures
        lower_hex_64(image_hash@) ==> state_view(out) == image_state(incoming_id@, rows@),
        !lower_hex_64(image_hash@) ==> state_view(out) == image_state(incoming_id@, seq![]),
{
    let mut state = SameImageState {
        duplicate_ids: Vec::new(),
        pinned: false,
        collection_id: None,
        terminal_ocr: None,
    };
    assert(state_view(state) == image_state(incoming_id@, seq![])) by {
        assert(string_views(state.duplicate_ids@) =~= Seq::<Seq<char>>::empty());
    }
    if !image_hash_is_canonical(image_hash) {
        return state;
    }
    let mut i: usize = 0;
    assert(rows@.take(0) =~= Seq::<SameImageRow>::empty());
    while i < rows.len()
        invariant
            i <= rows@.len(),
            state_view(state) == image_state(incoming_id@, rows@.take(i as int)),
        decreases rows@.len() - i,
    {
        assert(rows@.take(i + 1).drop_last() =~= rows@.take(i as int));
        assert(rows@.take(i + 1).last() == rows@[i as int]);
        let row = &rows[i];
        let ghost before = state_view(state);
        if state.terminal_ocr.is_none() {
            if let Some(status) = &row.ocr_status {
                let terminal = (text_eq(status.as_str(), "completed") && row.ocr_text.is_some())
                    || text_eq(status.as_str(), "unavailable") || text_eq(status.as_str(), "oversized");
                if terminal {
                    let text = match &row.ocr_text {
                        Some(t) => Some(t.clone()),
                        None => None,
                    };
                    state.terminal_ocr = Some((status.clone(), text));
                }
            }
        }
        if !text_eq(row.id.as_str(), incoming_id) {
            let ghost ids = state.duplicate_ids@;
            state.duplicate_ids.push(row.id.clone());
            assert(string_views(state.duplicate_ids@) =~= string_views(ids).push(row.id@));
            state.pinned = state.pinned || row.pinned;
            if state.collection_id.is_none() {
                state.collection_id = match &row.collection_id {
                    Some(c) => Some(c.clone()),
                    None => None,
                };
            }
        }
        assert(state_view(state) == image_state(incoming_id@, rows@.take(i + 1)));
        i = i + 1;
    }
    assert(rows@.take(i as int) =~= rows@);
    state
}

/// A new image copy with what its earlier copies pass on: pinned if any was,
/// their collection when it has none, and their finished recognition while
/// its own is pending.
pub open spec fn merged_image(item: HistoryItem, state: ImageStateView, after: HistoryItem) -> bool {
    &&& after.pinned == (item.pinned || state.pinned)
    &&& opt_view(after.collection_id) == if item.collection_id is None {
        state.collection_id
    } else {
        opt_view(item.collection_id)
    }
    &&& if opt_view(item.ocr_status) == Some("pending"@) && state.terminal_ocr is Some {
        let (status, text) = state.terminal_ocr->0;
        opt_view(after.ocr_status) == Some(status) && opt_view(after.ocr_text) == text
    } else {
        after.ocr_status == item.ocr_status && after.ocr_text == item.ocr_text
    }
    &&& after == HistoryItem {
        pinned: after.pinned,
        collection_id: after.collection_id,
        ocr_status: after.ocr_status,
        ocr_text: after.ocr_text,
        ..item
    }
}

/// Passes what earlier copies of the same image hold on to a new copy (see [`merged_image`]).
pub fn merge_same_image(item: HistoryItem, state: SameImageState) -> (out: HistoryItem)
    ensures
        merged_image(item, state_view(state), out),
{
    let mut item = item;
    item.pinned = item.pinned || state.pinned;
    if item.collection_id.is_none() {
        item.collection_id = state.collection_id;
    }
    let pending = match &item.ocr_status {
        Some(s) => text_eq(s.as_str(), "pending"),
        None => false,
    };
    if pending {
        if let Some((status, text)) = state.terminal_ocr {
            item.ocr_status = Some(status);
            item.ocr_text = text;
        }
    }
    item
}

/// Why an upsert is refused before anything is written, if it is: its
/// normalisation or validation fails, a summary carries an icon, or the same
/// record is also deleted.
pub open spec fn upsert_error(item: HistoryItem, normalized: HistoryItem, delete_ids: Seq<Seq<char>>) -> Option<Seq<char>> {
    if history_item_problem(normalized) is Some {
        history_item_problem(normalized)
    } else if !normalized.payload_loaded && normalized.source_app_icon is Some {
        Some("摘要写入不能携带来源应用图标"@)
    } else if delete_ids.contains(normalized.id@) {
        Some("同一记录不能同时删除和更新"@)
    } else {
        None
    }
}

/// Normalises and checks one upsert of a mutation (see [`upsert_error`]).
pub fn check_mutation_upsert(item: HistoryItem, delete_ids: &Vec<String>) -> (out: Result<HistoryItem, String>)
    ensures
        match item_normalization_error(item) {
            Some(message) => out matches Err(e) && e@ == message,
            None => exists|n: HistoryItem| #[trigger] normalized_item(item, n) && match upsert_error(
                item,
                n,
                string_views(delete_ids@),
            ) {
                Some(message) => out matches Err(e) && e@ == message,
                None => out matches Ok(v) && v == n,
            },
        },
{
    let ghost original = item;
    let normalized = match normalize_history_item(item) {
        Ok(n) => n,
        Err(e) => return Err(e),
    };
    match validate_history_item(&normalized) {
        Ok(()) => {},
        Err(e) => return Err(e),
    }
    if !normalized.payload_loaded && normalized.source_app_icon.is_some() {
        return Err(String::from_str("摘要写入不能携带来源应用图标"));
    }
    let mut i: usize = 0;
    while i < delete_ids.len()
        invariant
            i <= delete_ids@.len(),
            original == item,
            item_normalization_error(original) is None,
            normalized_item(original, normalized),
            history_item_problem(normalized) is None,
            !(!normalized.payload_loaded && normalized.source_app_icon is Some),
            forall|k: int| 0 <= k < i ==> delete_ids@[k]@ != normalized.id@,
        decreases delete_ids@.len() - i,
    {
        if text_eq(delete_ids[i].as_str(), normalized.id.as_str()) {
            assert(string_views(delete_ids@)[i as int] == normalized.id@);
            assert(string_views(delete_ids@).contains(normalized.id@));
            assert(upsert_error(original, normalized, string_views(delete_ids@)) == Some(
                "同一记录不能同时删除和更新"@,
            ));
            return Err(String::from_str("同一记录不能同时删除和更新"));
        }
        i = i + 1;
    }
    assert forall|k: int| 0 <= k < string_views(delete_ids@).len() implies string_views(delete_ids@)[k]
        != normalized.id@ by {
        assert(string_views(delete_ids@)[k] == delete_ids@[k]@);
    }
    Ok(normalized)
}

/// Strictly increasing in `String` order.
pub open spec fn text_sorted(s: Seq<Seq<char>>) -> bool {
    forall|i: int, j: int| 0 <= i < j < s.len() ==> seq_less(#[trigger] s[i], #[trigger] s[j])
}

pub(crate) proof fn lemma_seq_less_irreflexive(a: Seq<char>)
    ensures
        !seq_less(a, a),
    decreases a.len(),
{
    if a.len() > 0 {
        lemma_seq_less_irreflexive(a.drop_first());
    }
}

pub(crate) proof fn lemma_seq_less_transitive(a: Seq<char>, b: Seq<char>, c: Seq<char>)
    requires
        seq_less(a, b),
        seq_less(b, c),
    ensures
        seq_less(a, c),
    decreases a.len(),
{
    if a.len() > 0 && a[0] == b[0] && b[0] == c[0] {
        lemma_seq_less_transitive(a.drop_first(), b.drop_first(), c.drop_first());
    }
}

pub(crate) proof fn lemma_seq_less_total(a: Seq<char>, b: Seq<char>)
    requires
        a != b,
    ensures
        seq_less(a, b) || seq_less(b, a),
    decreases a.len(),
{
    if a.len() > 0 && b.len() > 0 && a[0] == b[0] {
        if a.drop_first() == b.drop_first() {
            assert(a =~= seq![a[0]] + a.drop_first());
            assert(b =~= seq![b[0]] + b.drop_first());
        }
        lemma_seq_less_total(a.drop_first(), b.drop_first());
    } else if a.len() == 0 && b.len() == 0 {
        assert(a =~= b);
    }
}

fn text_insertion_point(sorted: &Vec<String>, t: &str) -> (p: usize)
    ensures
        p <= sorted@.len(),
        forall|q: int| 0 <= q < p ==> seq_less(#[trigger] sorted@[q]@, t@),
        p < sorted@.len() ==> !seq_less(sorted@[p as int]@, t@),
{
    let mut p: usize = 0;
    while p < sorted.len()
        invariant
            p <= sorted@.len(),
            forall|q: int| 0 <= q < p ==> seq_less(#[trigger] sorted@[q]@, t@),
        decreases sorted@.len() - p,
    {
        if !text_less(sorted[p].as_str(), t) {
            return p;
        }
        p = p + 1;
    }
    p
}

/// Adds an id to ids kept in `String` order, each once (a set of ids as a sorted list).
pub fn insert_sorted_id(sorted: &mut Vec<String>, t: &str)
    requires
        text_sorted(string_views(old(sorted)@)),
    ensures
        text_sorted(string_views(final(sorted)@)),
        forall|x: Seq<char>|
            #[trigger] string_views(final(sorted)@).contains(x) <==> (string_views(
                old(sorted)@,
            ).contains(x) || x == t@),
{
    let ghost before = string_views(sorted@);
    let p = text_insertion_point(sorted, t);
    if p < sorted.len() && text_eq(sorted[p].as_str(), t) {
        assert(before[p as int] == t@);
        return;
    }
    proof {
        if p < before.len() {
            assert(before[p as int] == sorted@[p as int]@);
            lemma_seq_less_total(before[p as int], t@);
        }
    }
    sorted.insert(p, String::from_str(t));
    let ghost after = string_views(sorted@);
    assert(after =~= before.insert(p as int, t@));
    assert forall|i: int, j: int| 0 <= i < j < after.len() implies seq_less(
        #[trigger] after[i],
        #[trigger] after[j],
    ) by {
        if j < p {
            assert(after[i] == before[i] && after[j] == before[j]);
        } else if j == p {
            assert(after[i] == before[i]);
            assert(before[i] == sorted@[i]@);
        } else if i == p {
            assert(after[j] == before[j - 1]);
            if j - 1 > p {
                assert(seq_less(before[p as int], before[j - 1]));
                lemma_seq_less_transitive(t@, before[p as int], before[j - 1]);
            }
        } else if i < p {
            assert(after[i] == before[i] && after[j] == before[j - 1]);
        } else {
            assert(after[i] == before[i - 1] && after[j] == before[j - 1]);
        }
    }
    assert forall|x: Seq<char>| #[trigger] after.contains(x) <==> (before.contains(x) || x == t@) by {
        if after.contains(x) {
            let i = choose|i: int| 0 <= i < after.len() && after[i] == x;
            if i < p {
                assert(before[i] == x);
            } else if i > p {
                assert(before[i - 1] == x);
            }
        }
        if before.contains(x) {
            let i = choose|i: int| 0 <= i < before.len() && before[i] == x;
            if i < p {
                assert(after[i] == x);
            } else {
                assert(after[i + 1] == x);
            }
        }
        if x == t@ {
            assert(after[p as int] == x);
        }
    }
}

/// The ids removed by a mutation: replaced image copies and pruned records,
/// each once, in `String` order.
pub fn removed_ids(duplicates: &Vec<String>, pruned: &Vec<String>) -> (out: Vec<String>)
    ensures
        text_sorted(string_views(out@)),
        forall|x: Seq<char>|
            #[trigger] string_views(out@).contains(x) <==> (string_views(duplicates@).contains(x)
                || string_views(pruned@).contains(x)),
{
    let mut out: Vec<String> = Vec::new();
    assert(string_views(out@) =~= Seq::<Seq<char>>::empty());
    let mut i: usize = 0;
    while i < duplicates.len()
        invariant
            i <= duplicates@.len(),
            text_sorted(string_views(out@)),
            forall|x: Seq<char>|
                #[trigger] string_views(out@).contains(x) <==> string_views(duplicates@.take(i as int)).contains(x),
        decreases duplicates@.len() - i,
    {
        insert_sorted_id(&mut out, duplicates[i].as_str());
        proof {
            let a = string_views(duplicates@.take(i + 1));
            let b = string_views(duplicates@.take(i as int));
            assert(a =~= b.push(duplicates@[i as int]@));
            assert forall|x: Seq<char>| a.contains(x) <==> (b.contains(x) || x == duplicates@[i as int]@) by {
                if a.contains(x) {
                    let k = choose|k: int| 0 <= k < a.len() && a[k] == x;
                    if k < b.len() {
                        assert(b[k] == x);
                    }
                }
                if b.contains(x) {
                    let k = choose|k: int| 0 <= k < b.len() && b[k] == x;
                    assert(a[k] == x);
                }
                if x == duplicates@[i as int]@ {
                    assert(a[i as int] == x);
                }
            }
        }
        i = i + 1;
    }
    assert(duplicates@.take(i as int) =~= duplicates@);
    let mut j: usize = 0;
    while j < pruned.len()
        invariant
            j <= pruned@.len(),
            text_sorted(string_views(out@)),
            forall|x: Seq<char>|
                #[trigger] string_views(out@).contains(x) <==> (string_views(duplicates@).contains(x)
                    || string_views(pruned@.take(j as int)).contains(x)),
        decreases pruned@.len() - j,
    {
        insert_sorted_id(&mut out, pruned[j].as_str());
        proof {
            let a = string_views(pruned@.take(j + 1));
            let b = string_views(pruned@.take(j as int));
            assert(a =~= b.push(pruned@[j as int]@));
            assert forall|x: Seq<char>| a.contains(x) <==> (b.contains(x) || x == pruned@[j as int]@) by {
                if a.contains(x) {
                    let k = choose|k: int| 0 <= k < a.len() && a[k] == x;
                    if k < b.len() {
                        assert(b[k] == x);
                    }
                }
                if b.contains(x) {
                    let k = choose|k: int| 0 <= k < b.len() && b[k] == x;
                    assert(a[k] == x);
                }
                if x == pruned@[j as int]@ {
                    assert(a[j as int] == x);
                }
            }
        }
        j = j + 1;
    }
    assert(pruned@.take(j as int) =~= pruned@);
    out
}

/// The recognition a new copy inherits is that of the first stored copy
/// (newest first) whose recognition finished: completed with text,
/// unavailable, or oversized; none when no copy finished.
pub proof fn lemma_inherited_ocr_is_first_finished(incoming: Seq<char>, rows: Seq<SameImageRow>)
    ensures
        (forall|j: int|
            0 <= j < rows.len() ==> !((#[trigger] rows[j].ocr_status) matches Some(s) && ((s@ == "completed"@
                && rows[j].ocr_text is Some) || s@ == "unavailable"@ || s@ == "oversized"@)))
            ==> image_state(incoming, rows).terminal_ocr is None,
        forall|k: int|
            0 <= k < rows.len() && ((#[trigger] rows[k].ocr_status) matches Some(s) && ((s@ == "completed"@
                && rows[k].ocr_text is Some) || s@ == "unavailable"@ || s@ == "oversized"@))
                && (forall|j: int|
                0 <= j < k ==> !((#[trigger] rows[j].ocr_status) matches Some(s) && ((s@ == "completed"@
                    && rows[j].ocr_text is Some) || s@ == "unavailable"@ || s@ == "oversized"@)))
                ==> image_state(incoming, rows).terminal_ocr == Some(
                (rows[k].ocr_status->0@, opt_view(rows[k].ocr_text)),
            ),
    decreases rows.len(),
{
    if rows.len() > 0 {
        let init = rows.drop_last();
        lemma_inherited_ocr_is_first_finished(incoming, init);
        assert forall|j: int| 0 <= j < init.len() implies init[j] == rows[j] by {}
    }
}

/// What the other stored copies of an image (those with an id other than the
/// incoming record's) pass on: their ids, newest first, are replaced; the new
/// copy is pinned when any of them was; and it joins the collection of the
/// newest of them that had one.
#[verifier::rlimit(40)]
pub proof fn lemma_other_copies_pass_on(incoming: Seq<char>, rows: Seq<SameImageRow>)
    ensures
        image_state(incoming, rows).duplicate_ids == rows.filter(
            |r: SameImageRow| r.id@ != incoming,
        ).map_values(|r: SameImageRow| r.id@),
        image_state(incoming, rows).pinned == exists|j: int|
            0 <= j < rows.len() && (#[trigger] rows[j]).id@ != incoming && rows[j].pinned,
        (forall|j: int|
            0 <= j < rows.len() ==> !((#[trigger] rows[j]).id@ != incoming
                && rows[j].collection_id is Some)) ==> image_state(incoming, rows).collection_id
            is None,
        forall|k: int|
            0 <= k < rows.len() && (#[trigger] rows[k]).id@ != incoming
                && rows[k].collection_id is Some && (forall|j: int|
                0 <= j < k ==> !((#[trigger] rows[j]).id@ != incoming
                    && rows[j].collection_id is Some)) ==> image_state(incoming, rows).collection_id
                == opt_view(rows[k].collection_id),
    decreases rows.len(),
{
    let keep = |r: SameImageRow| r.id@ != incoming;
    let id_of = |r: SameImageRow| r.id@;
    reveal(Seq::filter);
    if rows.len() > 0 {
        let init = rows.drop_last();
        let last = rows.last();
        lemma_other_copies_pass_on(incoming, init);
        assert forall|j: int| 0 <= j < init.len() implies init[j] == rows[j] by {}
        if keep(last) {
            assert(rows.filter(keep) == init.filter(keep).push(last));
            assert(init.filter(keep).push(last).map_values(id_of) =~= init.filter(keep).map_values(
                id_of,
            ).push(last.id@));
        } else {
            assert(rows.filter(keep) == init.filter(keep));
        }
        let p_rows = exists|j: int|
            0 <= j < rows.len() && (#[trigger] rows[j]).id@ != incoming && rows[j].pinned;
        let p_init = exists|j: int|
            0 <= j < init.len() && (#[trigger] init[j]).id@ != incoming && init[j].pinned;
        if p_rows && !p_init {
            let j = choose|j: int|
                0 <= j < rows.len() && (#[trigger] rows[j]).id@ != incoming && rows[j].pinned;
            if j < init.len() {
                assert(init[j] == rows[j]);
            }
        }
        if p_init {
            let j = choose|j: int|
                0 <= j < init.len() && (#[trigger] init[j]).id@ != incoming && init[j].pinned;
            assert(rows[j] == init[j]);
        }
        if keep(last) && last.pinned {
            assert(rows[rows.len() - 1] == last);
        }
    }
}

} // verus!
