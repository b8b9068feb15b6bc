//! The capacity policy: its defaults, and the values the settings row stores.

use crate::item::JS_MAX_SAFE_INTEGER_U64;
use crate::time::MAX_RETENTION_DAYS;
use crate::types::{CapacityPolicy, CollectionScope, HistoryQuery};
use vstd::prelude::*;
use vstd::string::*;

verus! {

/// The default number of unprotected records kept.
pub fn default_max_records() -> (n: u64)
    ensures
        n == 10_000,
{
    10_000
}

/// Records read back whole by default.
pub fn default_payload_loaded() -> (b: bool)
    ensures
        b,
{
    true
}

/// The default image budget: 256 MiB.
pub fn default_max_image_bytes() -> (n: u64)
    ensures
        n == 268_435_456,
{
    268_435_456
}

impl Default for CapacityPolicy {
    fn default() -> (p: Self)
        ensures
            p.max_records == 10_000,
            p.max_image_bytes == 268_435_456,
            p.retention_days is None,
    {
        CapacityPolicy {
            max_records: default_max_records(),
            max_image_bytes: default_max_image_bytes(),
            retention_days: None,
        }
    }
}

impl Default for CollectionScope {
    fn default() -> (s: Self)
        ensures
            s matches CollectionScope::Any {  },
    {
        CollectionScope::Any {  }
    }
}

impl Default for HistoryQuery {
    fn default() -> (q: Self)
        ensures
            q.text@.len() == 0,
            q.kinds@.len() == 0,
            q.source_apps@.len() == 0,
            q.collection matches CollectionScope::Any {  },
            q.pinned is None,
            q.permanent is None,
            q.limit == 100,
            q.cursor is None,
    {
        HistoryQuery {
            text: String::new(),
            kinds: Vec::new(),
            source_apps: Vec::new(),
            collection: CollectionScope::Any {  },
            pinned: None,
            permanent: None,
            limit: 100,
            cursor: None,
        }
    }
}

/// Why a policy cannot be stored, if it cannot: limits beyond what
/// JavaScript holds exactly, or a retention outside 0 to 730 000 days.
pub open spec fn settings_error(policy: CapacityPolicy) -> Option<Seq<char>> {
    if policy.max_records > JS_MAX_SAFE_INTEGER_U64 || policy.max_image_bytes
        > JS_MAX_SAFE_INTEGER_U64 {
        Some("历史存储策略超出前端安全整数范围"@)
    } else if policy.retention_days matches Some(days) && !(0 <= days <= MAX_RETENTION_DAYS) {
        Some("保留天数超出支持范围"@)
    } else {
        None
    }
}

/// The values the settings row stores for a policy: record limit, image
/// limit and retention, as SQLite integers.
pub fn history_settings_row(policy: &CapacityPolicy) -> (out: Result<(i64, i64, Option<i64>), String>)
    ensures
        match settings_error(*policy) {
            Some(message) => out matches Err(e) && e@ == message,
            None => out matches Ok((records, images, days)) && records == policy.max_records
                && images == policy.max_image_bytes && days == policy.retention_days,
        },
{
    if policy.max_records > JS_MAX_SAFE_INTEGER_U64 || policy.max_image_bytes
        > JS_MAX_SAFE_INTEGER_U64 {
        return Err(String::from_str("历史存储策略超出前端安全整数范围"));
    }
    let max_records = policy.max_records as i64;
    let max_image_bytes = policy.max_image_bytes as i64;
    if let Some(days) = policy.retention_days {
        if days < 0 || days > MAX_RETENTION_DAYS {
            return Err(String::from_str("保留天数超出支持范围"));
        }
    }
    Ok((max_records, max_image_bytes, policy.retention_days))
}

/// Whether a stored settings row holds a policy the store can use: both
/// limits within 0 to 2^53 - 1 and a retention within 0 to 730 000 days.
pub open spec fn settings_row_ok(max_records: i64, max_image_bytes: i64, retention_days: Option<
    i64,
>) -> bool {
    &&& 0 <= max_records <= JS_MAX_SAFE_INTEGER_U64
    &&& 0 <= max_image_bytes <= JS_MAX_SAFE_INTEGER_U64
    &&& retention_days matches Some(days) ==> 0 <= days <= MAX_RETENTION_DAYS
}

/// The policy a stored settings row holds (see [`settings_row_ok`]).
pub fn policy_from_settings_row(max_records: i64, max_image_bytes: i64, retention_days: Option<i64>) -> (out:
    Result<CapacityPolicy, String>)
    ensures
        settings_row_ok(max_records, max_image_bytes, retention_days) ==> (out matches Ok(policy)
            && policy.max_records == max_records && policy.max_image_bytes == max_image_bytes
            && policy.retention_days == retention_days),
        !settings_row_ok(max_records, max_image_bytes, retention_days) ==> (out matches Err(e) && e@
            == "历史存储策略超出前端安全整数范围"@),
{
    let retention_ok = match retention_days {
        Some(days) => 0 <= days && days <= MAX_RETENTION_DAYS,
        None => true,
    };
    if max_records < 0 || max_records > 9_007_199_254_740_991 || max_image_bytes < 0
        || max_image_bytes > 9_007_199_254_740_991 || !retention_ok {
        return Err(String::from_str("历史存储策略超出前端安全整数范围"));
    }
    Ok(CapacityPolicy {
        max_records: max_records as u64,
        max_image_bytes: max_image_bytes as u64,
        retention_days,
    })
}

/// A policy the store writes reads back as the same policy.
pub proof fn lemma_stored_policy_reads_back(policy: CapacityPolicy)
    requires
        settings_error(policy) is None,
    ensures
        settings_row_ok(
            policy.max_records as i64,
            policy.max_image_bytes as i64,
            policy.retention_days,
        ),
        policy.max_records as i64 == policy.max_records,
        policy.max_image_bytes as i64 == policy.max_image_bytes,
{
}

/// Whether the single settings row of a current database is sound: it is the
/// singleton row 1, holds a usable policy (see [`settings_row_ok`]), and a
/// revision within 0 to 2^53 - 1.
pub open spec fn settings_singleton_ok(
    singleton: i64,
    max_records: i64,
    max_image_bytes: i64,
    retention_days: Option<i64>,
    revision: i64,
) -> bool {
    &&& singleton == 1
    &&& settings_row_ok(max_records, max_image_bytes, retention_days)
    &&& 0 <= revision <= JS_MAX_SAFE_INTEGER_U64
}

/// Checks the settings row of a current database (see [`settings_singleton_ok`]).
pub fn settings_singleton_is_valid(
    singleton: i64,
    max_records: i64,
    max_image_bytes: i64,
    retention_days: Option<i64>,
    revision: i64,
) -> (b: bool)
    ensures
        b == settings_singleton_ok(singleton, max_records, max_image_bytes, retention_days, revision),
{
    let retention_ok = match retention_days {
        Some(days) => 0 <= days && days <= MAX_RETENTION_DAYS,
        None => true,
    };
    singleton == 1 && 0 <= max_records && max_records <= 9_007_199_254_740_991
        && 0 <= max_image_bytes && max_image_bytes <= 9_007_199_254_740_991 && retention_ok
        && 0 <= revision && revision <= 9_007_199_254_740_991
}

} // verus!
