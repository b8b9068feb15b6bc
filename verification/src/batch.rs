//! Normalising the targets and actions of batch operations.

use crate::formats::{contains_text, string_views};
use crate::ids::{cursor_safe_id, history_id_is_cursor_safe};
use crate::item::{opt_view, JS_MAX_SAFE_INTEGER_U64};
use crate::query::{normalize_history_query, normalized_query, query_error};
use crate::time::{is_canonical_timestamp, timestamp_is_canonical};
use crate::types::{
    BatchAction, BatchHistoryQuery, BatchTarget, CollectionScope, HistoryQuery, QueryUpperBound,
};
use vstd::prelude::*;
use vstd::string::*;

verus! {

/// The most ids a batch may name.
pub const MAX_BATCH_TARGET_IDS: usize = 10_000;

/// `s` with every repeat of an earlier element removed.
pub open spec fn first_occurrences<A>(s: Seq<A>) -> Seq<A>
    decreases s.len(),
{
    if s.len() == 0 {
        seq![]
    } else if s.drop_last().contains(s.last()) {
        first_occurrences(s.drop_last())
    } else {
        first_occurrences(s.drop_last()).push(s.last())
    }
}

/// Keeping first occurrences leaves each element once, and exactly the elements of `s`.
pub proof fn lemma_first_occurrences<A>(s: Seq<A>)
    ensures
        first_occurrences(s).no_duplicates(),
        forall|x: A| #[trigger] first_occurrences(s).contains(x) <==> s.contains(x),
    decreases s.len(),
{
    if s.len() > 0 {
        let p = s.drop_last();
        let last = s.last();
        let fp = first_occurrences(p);
        lemma_first_occurrences(p);
        assert(s =~= p.push(last));
        assert forall|x: A| s.contains(x) <==> (p.contains(x) || x == last) by {
            if s.contains(x) {
                let i = choose|i: int| 0 <= i < s.len() && s[i] == x;
                if i < p.len() {
                    assert(p[i] == x);
                }
            }
            if p.contains(x) {
                let i = choose|i: int| 0 <= i < p.len() && p[i] == x;
                assert(s[i] == x);
            }
            if x == last {
                assert(s[s.len() - 1] == x);
            }
        }
        if !p.contains(last) {
            let fs = fp.push(last);
            assert(first_occurrences(s) == fs);
            assert forall|x: A| fs.contains(x) <==> (fp.contains(x) || x == last) by {
                if fs.contains(x) {
                    let i = choose|i: int| 0 <= i < fs.len() && fs[i] == x;
                    if i < fp.len() {
                        assert(fp[i] == x);
                    }
                }
                if fp.contains(x) {
                    let i = choose|i: int| 0 <= i < fp.len() && fp[i] == x;
                    assert(fs[i] == x);
                }
                if x == last {
                    assert(fs[fp.len() as int] == x);
                }
            }
            assert forall|i: int, j: int| 0 <= i < fs.len() && 0 <= j < fs.len() && i != j implies fs[i]
                != fs[j] by {
                if i < fp.len() && j < fp.len() {
                    assert(fs[i] == fp[i] && fs[j] == fp[j]);
                } else if i < fp.len() {
                    assert(fp.contains(fs[i]));
                } else {
                    assert(fp.contains(fs[j]));
                }
            }
        }
    }
}

/// Why a list of batch ids is refused, if it is.
pub open spec fn batch_ids_error(ids: Seq<String>) -> Option<Seq<char>> {
    if ids.len() > MAX_BATCH_TARGET_IDS {
        Some("批量目标过多"@)
    } else if exists|k: int| 0 <= k < ids.len() && !cursor_safe_id(#[trigger] ids[k]@) {
        Some("批量目标标识无效"@)
    } else {
        None
    }
}

/// Batch ids, each once in the order first given; at most 10 000, each a valid record id.
pub fn dedupe_batch_ids(ids: Vec<String>) -> (out: Result<Vec<String>, String>)
    ensures
        match batch_ids_error(ids@) {
            Some(message) => out matches Err(e) && e@ == message,
            None => out matches Ok(v) && string_views(v@) == first_occurrences(string_views(ids@)),
        },
{
    if ids.len() > MAX_BATCH_TARGET_IDS {
        return Err(String::from_str("批量目标过多"));
    }
    let ghost names = string_views(ids@);
    let mut i: usize = 0;
    while i < ids.len()
        invariant
            i <= ids@.len(),
            ids@.len() <= MAX_BATCH_TARGET_IDS,
            forall|k: int| 0 <= k < i ==> cursor_safe_id(#[trigger] ids@[k]@),
        decreases ids@.len() - i,
    {
        if !history_id_is_cursor_safe(ids[i].as_str()) {
            assert(!cursor_safe_id(ids@[i as int]@));
            return Err(String::from_str("批量目标标识无效"));
        }
        i = i + 1;
    }
    let mut out: Vec<String> = Vec::new();
    let mut j: usize = 0;
    while j < ids.len()
        invariant
            j <= ids@.len(),
            names == string_views(ids@),
            string_views(out@) == first_occurrences(names.take(j as int)),
        decreases ids@.len() - j,
    {
        assert(names.take(j + 1).drop_last() =~= names.take(j as int));
        assert(names.take(j + 1).last() == ids@[j as int]@);
        assert(string_views(ids@.take(j as int)) =~= names.take(j as int));
        let ghost before = out@;
        if !contains_text(ids.as_slice(), j, ids[j].as_str()) {
            out.push(ids[j].clone());
            assert(string_views(out@) =~= string_views(before).push(ids@[j as int]@));
        }
        j = j + 1;
    }
    assert(names.take(j as int) =~= names);
    Ok(out)
}

/// The paged query a batch query stands for: no permanence filter, a page of one, no cursor.
pub open spec fn batch_as_history(query: BatchHistoryQuery) -> HistoryQuery {
    HistoryQuery {
        text: query.text,
        kinds: query.kinds,
        source_apps: query.source_apps,
        collection: query.collection,
        pinned: query.pinned,
        permanent: None,
        limit: 1,
        cursor: None,
    }
}

/// The same collection scope.
pub open spec fn same_scope(a: CollectionScope, b: CollectionScope) -> bool {
    match (a, b) {
        (CollectionScope::Any {  }, CollectionScope::Any {  }) => true,
        (CollectionScope::Unfiled {  }, CollectionScope::Unfiled {  }) => true,
        (CollectionScope::Collection { id: x }, CollectionScope::Collection { id: y }) => x@ == y@,
        _ => false,
    }
}

fn clone_scope(scope: &CollectionScope) -> (out: CollectionScope)
    ensures
        same_scope(*scope, out),
{
    match scope {
        CollectionScope::Any {  } => CollectionScope::Any {  },
        CollectionScope::Unfiled {  } => CollectionScope::Unfiled {  },
        CollectionScope::Collection { id } => CollectionScope::Collection { id: id.clone() },
    }
}

/// The paged query that selects a batch query's rows.
pub fn batch_history_query_as_history(query: &BatchHistoryQuery) -> (out: HistoryQuery)
    ensures
        out.text@ == query.text@,
        string_views(out.kinds@) == string_views(query.kinds@),
        string_views(out.source_apps@) == string_views(query.source_apps@),
        same_scope(query.collection, out.collection),
        out.pinned == query.pinned,
        out.permanent is None,
        out.limit == 1,
        out.cursor is None,
{
    let kinds = query.kinds.clone();
    let source_apps = query.source_apps.clone();
    assert(string_views(kinds@) =~= string_views(query.kinds@));
    assert(string_views(source_apps@) =~= string_views(query.source_apps@));
    HistoryQuery {
        text: query.text.clone(),
        kinds,
        source_apps,
        collection: clone_scope(&query.collection),
        pinned: query.pinned,
        permanent: None,
        limit: 1,
        cursor: None,
    }
}

/// Normalises a batch query as a paged query is normalised.
pub fn normalize_batch_history_query(query: BatchHistoryQuery) -> (out: Result<
    BatchHistoryQuery,
    String,
>)
    ensures
        match query_error(batch_as_history(query)) {
            Some(message) => out matches Err(e) && e@ == message,
            None => out matches Ok(n) && normalized_query(batch_as_history(query), batch_as_history(n)),
        },
{
    let history = HistoryQuery {
        text: query.text,
        kinds: query.kinds,
        source_apps: query.source_apps,
        collection: query.collection,
        pinned: query.pinned,
        permanent: None,
        limit: 1,
        cursor: None,
    };
    match normalize_history_query(history) {
        Err(e) => Err(e),
        Ok(n) => Ok(
            BatchHistoryQuery {
                text: n.text,
                kinds: n.kinds,
                source_apps: n.source_apps,
                collection: n.collection,
                pinned: n.pinned,
            },
        ),
    }
}

/// Whether a batch upper bound is acceptable: a canonical timestamp and a valid record id.
pub open spec fn valid_upper_bound(bound: QueryUpperBound) -> bool {
    is_canonical_timestamp(bound.copied_at@) && cursor_safe_id(bound.id@)
}

/// Accepts a batch query's upper bound as it is, or refuses it.
pub fn normalize_query_upper_bound(upper_bound: QueryUpperBound) -> (out: Result<
    QueryUpperBound,
    String,
>)
    ensures
        valid_upper_bound(upper_bound) ==> (out matches Ok(b) && b.copied_at@
            == upper_bound.copied_at@ && b.id@ == upper_bound.id@),
        !valid_upper_bound(upper_bound) ==> (out matches Err(e) && e@ == "批量查询上界无效"@),
{
    if !timestamp_is_canonical(upper_bound.copied_at.as_str()) || !history_id_is_cursor_safe(
        upper_bound.id.as_str(),
    ) {
        return Err(String::from_str("批量查询上界无效"));
    }
    Ok(upper_bound)
}

/// Why a batch target is refused, checking its parts in order.
pub open spec fn batch_target_error(target: BatchTarget) -> Option<Seq<char>> {
    match target {
        BatchTarget::Ids { ids } => batch_ids_error(ids@),
        BatchTarget::Query { query, upper_bound, excluded_ids } => {
            if query_error(batch_as_history(query)) is Some {
                query_error(batch_as_history(query))
            } else if !valid_upper_bound(upper_bound) {
                Some("批量查询上界无效"@)
            } else {
                batch_ids_error(excluded_ids@)
            }
        },
    }
}

/// What a normalised batch target holds.
pub open spec fn normalized_target(before: BatchTarget, after: BatchTarget) -> bool {
    match (before, after) {
        (BatchTarget::Ids { ids: a }, BatchTarget::Ids { ids: b }) => string_views(b@)
            == first_occurrences(string_views(a@)),
        (
            BatchTarget::Query { query: qa, upper_bound: ua, excluded_ids: ea },
            BatchTarget::Query { query: qb, upper_bound: ub, excluded_ids: eb },
        ) => {
            &&& normalized_query(batch_as_history(qa), batch_as_history(qb))
            &&& ub.copied_at@ == ua.copied_at@
            &&& ub.id@ == ua.id@
            &&& string_views(eb@) == first_occurrences(string_views(ea@))
        },
        _ => false,
    }
}

/// Normalises a batch target, or says which part of it is invalid.
pub fn normalize_batch_target(target: BatchTarget) -> (out: Result<BatchTarget, String>)
    ensures
        match batch_target_error(target) {
            Some(message) => out matches Err(e) && e@ == message,
            None => out matches Ok(t) && normalized_target(target, t),
        },
{
    match target {
        BatchTarget::Ids { ids } => match dedupe_batch_ids(ids) {
            Ok(ids) => Ok(BatchTarget::Ids { ids }),
            Err(e) => Err(e),
        },
        BatchTarget::Query { query, upper_bound, excluded_ids } => {
            let query = match normalize_batch_history_query(query) {
                Ok(q) => q,
                Err(e) => return Err(e),
            };
            let upper_bound = match normalize_query_upper_bound(upper_bound) {
                Ok(b) => b,
                Err(e) => return Err(e),
            };
            let excluded_ids = match dedupe_batch_ids(excluded_ids) {
                Ok(v) => v,
                Err(e) => return Err(e),
            };
            Ok(BatchTarget::Query { query, upper_bound, excluded_ids })
        },
    }
}

/// Whether a batch action is acceptable: a move names a valid collection id, if any.
pub open spec fn valid_batch_action(action: BatchAction) -> bool {
    match action {
        BatchAction::Move { collection_id: Some(id) } => cursor_safe_id(id@),
        _ => true,
    }
}

/// Refuses a move to an invalid collection id.
pub fn validate_batch_action(action: &BatchAction) -> (out: Result<(), String>)
    ensures
        valid_batch_action(*action) <==> out is Ok,
        out matches Err(e) ==> e@ == "目标集合标识无效"@,
{
    if let BatchAction::Move { collection_id: Some(collection_id) } = action {
        if !history_id_is_cursor_safe(collection_id.as_str()) {
            return Err(String::from_str("目标集合标识无效"));
        }
    }
    Ok(())
}

/// A batch count as the user interface receives it: a safe JavaScript integer.
pub fn safe_batch_count(value: usize) -> (out: Result<u64, String>)
    ensures
        value <= JS_MAX_SAFE_INTEGER_U64 ==> out == Ok::<u64, String>(value as u64),
        value > JS_MAX_SAFE_INTEGER_U64 ==> (out matches Err(e) && e@
            == "批量结果计数超出前端安全整数范围"@),
{
    let count = value as u64;
    if count > JS_MAX_SAFE_INTEGER_U64 {
        return Err(String::from_str("批量结果计数超出前端安全整数范围"));
    }
    Ok(count)
}

} // verus!
