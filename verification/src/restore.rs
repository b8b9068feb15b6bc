//! Prepared restores waiting for confirmation, keyed by one-use tokens that
//! expire, and the staging files whose cleanup failed and must be retried.

use crate::formats::MAX_FORMAT_BYTES;
use crate::item::{opt_view, JS_MAX_SAFE_INTEGER_U64};
use crate::payload::{bytes_besides_rtf, logical_bytes, logical_bytes_result};
use crate::mutation::{
    lemma_seq_less_irreflexive, lemma_seq_less_total, lemma_seq_less_transitive, text_sorted,
};
use crate::storage::OwnedTemporaryFile;
use crate::text::{seq_less, text_eq, text_less};
use crate::thumbnail::{thumbnail_png_is_safe, thumbnail_safe, HISTORY_THUMBNAIL_PNG_MAX_BYTES};
use crate::time::{is_canonical_timestamp, timestamp_is_canonical};
use crate::types::HistoryItem;
use vstd::prelude::*;

verus! {

/// How long a prepared restore waits for confirmation: 15 minutes, in milliseconds.
pub const RESTORE_TOKEN_TTL_MILLIS: u64 = 900_000;

/// A restore snapshot staged and checked, waiting for confirmation.
#[derive(Debug)]
pub struct PreparedHistoryRestore {
    pub staging: OwnedTemporaryFile,
    pub current_count: u64,
    pub incoming_count: u64,
    pub schema_version: i64,
    pub captured_revision: i64,
}

/// A prepared restore and the moment (in milliseconds of a monotonic clock) it expires.
#[derive(Debug)]
pub struct TimedPreparedRestore {
    pub prepared: PreparedHistoryRestore,
    pub expires_at: u64,
}

/// The prepared restores by token, and the staging files still to be cleaned up.
#[derive(Debug)]
pub struct RestoreRegistry {
    prepared: Vec<(String, TimedPreparedRestore)>,
    pending_cleanup: Vec<OwnedTemporaryFile>,
}

/// The tokens of a list of prepared restores, in order.
pub open spec fn entry_tokens(entries: Seq<(String, TimedPreparedRestore)>) -> Seq<Seq<char>> {
    entries.map_values(|e: (String, TimedPreparedRestore)| e.0@)
}

/// The staging paths of a list of temporary files, in order.
pub open spec fn staging_paths(files: Seq<OwnedTemporaryFile>) -> Seq<Seq<char>> {
    files.map_values(|f: OwnedTemporaryFile| f.spec_path())
}

/// Where a staging path goes among pending files kept in path order.
fn pending_insertion_point(pending: &Vec<OwnedTemporaryFile>, path: &str) -> (p: usize)
    ensures
        p <= pending@.len(),
        forall|q: int| 0 <= q < p ==> seq_less(#[trigger] staging_paths(pending@)[q], path@),
        p < pending@.len() ==> !seq_less(staging_paths(pending@)[p as int], path@),
{
    let mut p: usize = 0;
    while p < pending.len()
        invariant
            p <= pending@.len(),
            forall|q: int| 0 <= q < p ==> seq_less(#[trigger] staging_paths(pending@)[q], path@),
        decreases pending@.len() - p,
    {
        if !text_less(pending[p].path(), path) {
            return p;
        }
        p = p + 1;
    }
    p
}

impl RestoreRegistry {
    /// Each token names one prepared restore, and each staging path has one pending owner.
    pub closed spec fn wf(&self) -> bool {
        &&& entry_tokens(self.prepared@).no_duplicates()
        &&& staging_paths(self.pending_cleanup@).no_duplicates()
        &&& text_sorted(staging_paths(self.pending_cleanup@))
    }

    /// The prepared restores, in the order they were registered.
    pub closed spec fn entries(&self) -> Seq<(String, TimedPreparedRestore)> {
        self.prepared@
    }

    /// The staging files waiting for another cleanup attempt.
    pub closed spec fn pending(&self) -> Seq<OwnedTemporaryFile> {
        self.pending_cleanup@
    }

    /// No prepared restore and nothing pending.
    pub fn new() -> (r: Self)
        ensures
            r.wf(),
            r.entries().len() == 0,
            r.pending().len() == 0,
    {
        let r = RestoreRegistry { prepared: Vec::new(), pending_cleanup: Vec::new() };
        assert(entry_tokens(r.prepared@) =~= Seq::<Seq<char>>::empty());
        assert(staging_paths(r.pending_cleanup@) =~= Seq::<Seq<char>>::empty());
        r
    }

    /// Whether `token` names a prepared restore.
    pub fn contains(&self, token: &str) -> (b: bool)
        ensures
            b == entry_tokens(self.entries()).contains(token@),
    {
        let mut i: usize = 0;
        while i < self.prepared.len()
            invariant
                i <= self.prepared@.len(),
                forall|k: int| 0 <= k < i ==> (#[trigger] self.prepared@[k]).0@ != token@,
            decreases self.prepared@.len() - i,
        {
            if text_eq(self.prepared[i].0.as_str(), token) {
                assert(entry_tokens(self.prepared@)[i as int] == token@);
                return true;
            }
            i = i + 1;
        }
        assert forall|k: int| 0 <= k < entry_tokens(self.prepared@).len() implies entry_tokens(
            self.prepared@,
        )[k] != token@ by {
            assert(entry_tokens(self.prepared@)[k] == self.prepared@[k].0@);
        }
        false
    }

    /// The number of prepared restores.
    pub fn len(&self) -> (n: usize)
        ensures
            n == self.entries().len(),
    {
        self.prepared.len()
    }

    /// Registers a prepared restore under a token not in use, expiring at `expires_at`.
    pub fn insert(&mut self, token: String, prepared: PreparedHistoryRestore, expires_at: u64)
        requires
            old(self).wf(),
            !entry_tokens(old(self).entries()).contains(token@),
        ensures
            final(self).wf(),
            final(self).entries().len() == old(self).entries().len() + 1,
            entry_tokens(final(self).entries()) == entry_tokens(old(self).entries()).push(token@),
            final(self).entries().last().1.expires_at == expires_at,
            final(self).entries() == old(self).entries().push(
                (token, (TimedPreparedRestore { prepared, expires_at })),
            ),
            final(self).pending() == old(self).pending(),
    {
        let ghost before = self.prepared@;
        self.prepared.push((token, TimedPreparedRestore { prepared, expires_at }));
        assert(entry_tokens(self.prepared@) =~= entry_tokens(before).push(token@));
        proof {
            let t = entry_tokens(self.prepared@);
            assert forall|i: int, j: int| 0 <= i < t.len() && 0 <= j < t.len() && i != j implies t[i]
                != t[j] by {
                if i < before.len() && j < before.len() {
                    assert(t[i] == entry_tokens(before)[i] && t[j] == entry_tokens(before)[j]);
                } else if i < before.len() {
                    assert(t[i] == entry_tokens(before)[i]);
                    assert(entry_tokens(before).contains(t[i]));
                } else {
                    assert(t[j] == entry_tokens(before)[j]);
                    assert(entry_tokens(before).contains(t[j]));
                }
            }
        }
    }

    /// Takes the prepared restore for `token` out of the registry: a token can
    /// be used once, and every other restore stays as it was.
    pub fn take(&mut self, token: &str) -> (out: Option<TimedPreparedRestore>)
        requires
            old(self).wf(),
        ensures
            final(self).wf(),
            out is Some <==> entry_tokens(old(self).entries()).contains(token@),
            !entry_tokens(final(self).entries()).contains(token@),
            forall|t: Seq<char>|
                t != token@ ==> (#[trigger] entry_tokens(final(self).entries()).contains(t)
                    <==> entry_tokens(old(self).entries()).contains(t)),
            out matches Some(v) ==> exists|k: int|
                0 <= k < old(self).entries().len() && (#[trigger] old(self).entries()[k]).0@
                    == token@ && v == old(self).entries()[k].1 && final(self).entries() == old(
                    self,
                ).entries().remove(k),
            out is None ==> final(self).entries() == old(self).entries(),
            final(self).pending() == old(self).pending(),
    {
        let ghost before = self.prepared@;
        let ghost tokens = entry_tokens(before);
        let ghost pend = self.pending_cleanup@;
        let mut i: usize = 0;
        while i < self.prepared.len()
            invariant
                self.prepared@ == before,
                before == old(self).prepared@,
                pend == old(self).pending_cleanup@,
                self.pending_cleanup@ == pend,
                staging_paths(pend).no_duplicates(),
                text_sorted(staging_paths(pend)),
                tokens.no_duplicates(),
                tokens == entry_tokens(before),
                i <= before.len(),
                forall|k: int| 0 <= k < i ==> (#[trigger] before[k]).0@ != token@,
            decreases before.len() - i,
        {
            if text_eq(self.prepared[i].0.as_str(), token) {
                let (_, timed) = self.prepared.remove(i);
                let ghost after = entry_tokens(self.prepared@);
                assert(self.prepared@ =~= before.remove(i as int));
                assert(after =~= tokens.remove(i as int));
                assert(tokens[i as int] == token@);
                proof {
                    assert(tokens.contains(token@));
                    assert forall|x: int, y: int| 0 <= x < after.len() && 0 <= y < after.len() && x
                        != y implies after[x] != after[y] by {
                        let xi = if x < i { x } else { x + 1 };
                        let yi = if y < i { y } else { y + 1 };
                        assert(after[x] == tokens[xi] && after[y] == tokens[yi]);
                    }
                    assert forall|t: Seq<char>| t != token@ implies (#[trigger] after.contains(t)
                        <==> tokens.contains(t)) by {
                        if tokens.contains(t) {
                            let k = choose|k: int| 0 <= k < tokens.len() && tokens[k] == t;
                            assert(k != i);
                            if k < i {
                                assert(after[k] == t);
                            } else {
                                assert(after[k - 1] == t);
                            }
                        }
                        if after.contains(t) {
                            let k = choose|k: int| 0 <= k < after.len() && after[k] == t;
                            if k < i {
                                assert(tokens[k] == t);
                            } else {
                                assert(tokens[k + 1] == t);
                            }
                        }
                    }
                    if after.contains(token@) {
                        let k = choose|k: int| 0 <= k < after.len() && after[k] == token@;
                        let ki = if k < i { k } else { k + 1 };
                        assert(tokens[ki] == token@);
                    }
                }
                assert(before[i as int].0@ == token@ && timed == before[i as int].1);
                return Some(timed);
            }
            i = i + 1;
        }
        assert forall|k: int| 0 <= k < tokens.len() implies tokens[k] != token@ by {
            assert(tokens[k] == before[k].0@);
        }
        None
    }

    /// Takes every prepared restore out, in order (a new preparation replaces
    /// them, and a committed restore invalidates them).
    pub fn take_all(&mut self) -> (out: Vec<(String, TimedPreparedRestore)>)
        requires
            old(self).wf(),
        ensures
            final(self).wf(),
            out@ == old(self).entries(),
            final(self).entries().len() == 0,
            final(self).pending() == old(self).pending(),
    {
        let mut out: Vec<(String, TimedPreparedRestore)> = Vec::new();
        std::mem::swap(&mut out, &mut self.prepared);
        assert(entry_tokens(self.prepared@) =~= Seq::<Seq<char>>::empty());
        out
    }

    /// Takes out every prepared restore that has expired by `now`, in order;
    /// the others stay, in order.
    pub fn take_expired(&mut self, now: u64) -> (out: Vec<(String, TimedPreparedRestore)>)
        requires
            old(self).wf(),
        ensures
            final(self).wf(),
            out@ == old(self).entries().filter(|e: (String, TimedPreparedRestore)| now >= e.1.expires_at),
            final(self).entries() == old(self).entries().filter(
                |e: (String, TimedPreparedRestore)| now < e.1.expires_at,
            ),
            final(self).pending() == old(self).pending(),
    {
        let ghost before = self.prepared@;
        let mut all: Vec<(String, TimedPreparedRestore)> = Vec::new();
        std::mem::swap(&mut all, &mut self.prepared);
        let mut expired: Vec<(String, TimedPreparedRestore)> = Vec::new();
        let mut kept: Vec<(String, TimedPreparedRestore)> = Vec::new();
        let ghost f_exp = |e: (String, TimedPreparedRestore)| now >= e.1.expires_at;
        let ghost f_keep = |e: (String, TimedPreparedRestore)| now < e.1.expires_at;
        let mut i: usize = 0;
        let n = all.len();
        assert(before.take(0).filter(f_exp) =~= Seq::<(String, TimedPreparedRestore)>::empty());
        assert(before.take(0).filter(f_keep) =~= Seq::<(String, TimedPreparedRestore)>::empty());
        while all.len() > 0
            invariant
                n == before.len(),
                f_exp == (|e: (String, TimedPreparedRestore)| now >= e.1.expires_at),
                f_keep == (|e: (String, TimedPreparedRestore)| now < e.1.expires_at),
                all@ == before.skip(i as int),
                i <= n,
                i + all@.len() == n,
                expired@ == before.take(i as int).filter(f_exp),
                kept@ == before.take(i as int).filter(f_keep),
                entry_tokens(before).no_duplicates(),
                entry_tokens(kept@).no_duplicates(),
                forall|k: int|
                    0 <= k < kept@.len() ==> exists|j: int|
                        0 <= j < i && (#[trigger] kept@[k]).0@ == before[j].0@,
            decreases all@.len(),
        {
            let e = all.remove(0);
            assert(before.skip(i as int)[0] == e);
            assert(before.skip(i as int).remove(0) =~= before.skip(i + 1));
            assert(before.take(i + 1) =~= before.take(i as int).push(e));
            proof {
                reveal(Seq::filter);
                let t1 = before.take(i + 1);
                assert(t1.drop_last() =~= before.take(i as int));
                assert(t1.last() == e);
                assert(t1.filter(f_exp) == if f_exp(e) {
                    before.take(i as int).filter(f_exp).push(e)
                } else {
                    before.take(i as int).filter(f_exp)
                });
                assert(t1.filter(f_keep) == if f_keep(e) {
                    before.take(i as int).filter(f_keep).push(e)
                } else {
                    before.take(i as int).filter(f_keep)
                });
            }
            if now >= e.1.expires_at {
                expired.push(e);
            } else {
                let ghost kb = kept@;
                kept.push(e);
                proof {
                    let t = entry_tokens(kept@);
                    let tk = entry_tokens(kb);
                    let tb = entry_tokens(before);
                    assert(t =~= tk.push(e.0@));
                    assert forall|x: int, y: int| 0 <= x < t.len() && 0 <= y < t.len() && x != y implies t[x]
                        != t[y] by {
                        if x < tk.len() && y < tk.len() {
                            assert(t[x] == tk[x] && t[y] == tk[y]);
                        } else {
                            let other = if x < tk.len() { x } else { y };
                            assert(t[other] == kb[other].0@);
                            let j = choose|j: int| 0 <= j < i && kb[other].0@ == before[j].0@;
                            assert(tb[j] == before[j].0@);
                            assert(tb[i as int] == before[i as int].0@);
                            assert(before[i as int] == e);
                        }
                    }
                    assert forall|k: int| 0 <= k < kept@.len() implies exists|j: int|
                        0 <= j < i + 1 && (#[trigger] kept@[k]).0@ == before[j].0@ by {
                        if k < kb.len() {
                            let j = choose|j: int| 0 <= j < i && kb[k].0@ == before[j].0@;
                            assert(kept@[k] == kb[k]);
                        } else {
                            assert(kept@[k] == before[i as int]);
                        }
                    }
                }
            }
            i = i + 1;
        }
        assert(before.take(i as int) =~= before);
        self.prepared = kept;
        expired
    }

    /// Records a staging file whose cleanup failed, to retry later; the
    /// files wait in the order of their paths.
    pub fn retain_pending_cleanup(&mut self, staging: OwnedTemporaryFile)
        requires
            old(self).wf(),
            !staging_paths(old(self).pending()).contains(staging.spec_path()),
        ensures
            final(self).wf(),
            exists|p: int|
                0 <= p <= old(self).pending().len() && final(self).pending() == old(
                    self,
                ).pending().insert(p, staging),
            text_sorted(staging_paths(final(self).pending())),
            final(self).entries() == old(self).entries(),
    {
        let ghost before = staging_paths(self.pending_cleanup@);
        let ghost old_pending = self.pending_cleanup@;
        let ghost t = staging.spec_path();
        let p = pending_insertion_point(&self.pending_cleanup, staging.path());
        proof {
            if p < before.len() {
                assert(before[p as int] == old_pending[p as int].spec_path());
                if !seq_less(before[p as int], t) {
                    assert(before[p as int] != t) by {
                        assert(before.contains(before[p as int]));
                    }
                    lemma_seq_less_total(before[p as int], t);
                }
            }
        }
        self.pending_cleanup.insert(p, staging);
        proof {
            let after = staging_paths(self.pending_cleanup@);
            assert(self.pending_cleanup@ == old_pending.insert(p as int, staging));
            assert(after =~= before.insert(p as int, t));
            assert forall|i: int, j: int| 0 <= i < j < after.len() implies seq_less(
                #[trigger] after[i],
                #[trigger] after[j],
            ) by {
                if j < p {
                    assert(after[i] == before[i] && after[j] == before[j]);
                } else if j == p {
                    assert(after[i] == before[i]);
                } else if i == p {
                    assert(after[j] == before[j - 1]);
                    if j - 1 > p {
                        assert(seq_less(before[p as int], before[j - 1]));
                        lemma_seq_less_transitive(t, before[p as int], before[j - 1]);
                    }
                } else if i < p {
                    assert(after[i] == before[i] && after[j] == before[j - 1]);
                } else {
                    assert(after[i] == before[i - 1] && after[j] == before[j - 1]);
                }
            }
            assert forall|i: int, j: int|
                0 <= i < after.len() && 0 <= j < after.len() && i != j implies after[i]
                != after[j] by {
                if i < j {
                    assert(seq_less(after[i], after[j]));
                    lemma_seq_less_irreflexive(after[i]);
                } else {
                    assert(seq_less(after[j], after[i]));
                    lemma_seq_less_irreflexive(after[j]);
                }
            }
        }
    }

    /// Whether a staging path already waits for cleanup.
    pub fn is_pending(&self, path: &str) -> (b: bool)
        ensures
            b == staging_paths(self.pending()).contains(path@),
    {
        let mut i: usize = 0;
        while i < self.pending_cleanup.len()
            invariant
                i <= self.pending_cleanup@.len(),
                forall|k: int| 0 <= k < i ==> (#[trigger] self.pending_cleanup@[k]).spec_path() != path@,
            decreases self.pending_cleanup@.len() - i,
        {
            if text_eq(self.pending_cleanup[i].path(), path) {
                assert(staging_paths(self.pending_cleanup@)[i as int] == path@);
                return true;
            }
            i = i + 1;
        }
        assert forall|k: int| 0 <= k < staging_paths(self.pending_cleanup@).len() implies staging_paths(
            self.pending_cleanup@,
        )[k] != path@ by {
            assert(staging_paths(self.pending_cleanup@)[k] == self.pending_cleanup@[k].spec_path());
        }
        false
    }

    /// Takes every staging file waiting for cleanup out, in order, to retry them.
    pub fn take_pending_cleanup(&mut self) -> (out: Vec<OwnedTemporaryFile>)
        requires
            old(self).wf(),
        ensures
            final(self).wf(),
            out@ == old(self).pending(),
            final(self).pending().len() == 0,
            final(self).entries() == old(self).entries(),
    {
        let mut out: Vec<OwnedTemporaryFile> = Vec::new();
        std::mem::swap(&mut out, &mut self.pending_cleanup);
        assert(staging_paths(self.pending_cleanup@) =~= Seq::<Seq<char>>::empty());
        out
    }
}

/// Whether every timestamp a record carries (copied, updated, and each
/// file's modification time) is already in canonical form.
pub open spec fn record_timestamps_canonical(item: HistoryItem) -> bool {
    &&& is_canonical_timestamp(item.copied_at@)
    &&& is_canonical_timestamp(item.updated_at@)
    &&& forall|i: int|
        0 <= i < item.files@.len() ==> match #[trigger] item.files@[i].modified_at {
            Some(m) => is_canonical_timestamp(m@),
            None => true,
        }
}

/// Why a record read back from a restore snapshot is refused, given the
/// logical size its row stores: a timestamp out of canonical form, a stored
/// size outside 0 ..= 2^53 - 1 or other than the record's own, or the
/// record's own size failing (its RTF does not decode within the limit).
pub open spec fn restored_record_problem(item: HistoryItem, stored_logical_bytes: i64) -> Option<
    Seq<char>,
> {
    if !record_timestamps_canonical(item) || stored_logical_bytes < 0
        || stored_logical_bytes > JS_MAX_SAFE_INTEGER_U64 {
        Some("历史恢复文件包含无效记录"@)
    } else {
        match logical_bytes_result(item) {
            Err(e) => Some(e),
            Ok(n) => if n == stored_logical_bytes {
                None
            } else {
                Some("历史恢复文件包含无效记录"@)
            },
        }
    }
}

fn record_timestamps_are_canonical(item: &HistoryItem) -> (b: bool)
    ensures
        b == record_timestamps_canonical(*item),
{
    if !timestamp_is_canonical(item.copied_at.as_str()) || !timestamp_is_canonical(
        item.updated_at.as_str(),
    ) {
        return false;
    }
    let mut i: usize = 0;
    while i < item.files.len()
        invariant
            i <= item.files@.len(),
            forall|k: int|
                0 <= k < i ==> match #[trigger] item.files@[k].modified_at {
                    Some(m) => is_canonical_timestamp(m@),
                    None => true,
                },
        decreases item.files@.len() - i,
    {
        match &item.files[i].modified_at {
            Some(m) => {
                if !timestamp_is_canonical(m.as_str()) {
                    return false;
                }
            },
            None => {},
        }
        i = i + 1;
    }
    true
}

/// The message with which a record of a restore snapshot is refused, if it is
/// (see [`restored_record_problem`]).
pub fn restored_record_error(item: &HistoryItem, stored_logical_bytes: i64) -> (out: Option<String>)
    requires
        bytes_besides_rtf(*item) + MAX_FORMAT_BYTES <= usize::MAX,
    ensures
        opt_view(out) == restored_record_problem(*item, stored_logical_bytes),
{
    if !record_timestamps_are_canonical(item) || stored_logical_bytes < 0
        || stored_logical_bytes > 9_007_199_254_740_991 {
        return Some(String::from_str("历史恢复文件包含无效记录"));
    }
    match logical_bytes(item) {
        Err(e) => Some(e),
        Ok(n) => if n == stored_logical_bytes {
            None
        } else {
            Some(String::from_str("历史恢复文件包含无效记录"))
        },
    }
}

/// Whether a thumbnail row of a restore snapshot may be read: it belongs to
/// an image record, holds a blob, and declares 1 byte to 64 KiB.
pub open spec fn thumbnail_row_acceptable(
    kind: Seq<char>,
    storage_class: Seq<char>,
    length: Option<i64>,
) -> bool {
    match length {
        None => false,
        Some(n) => kind == "image"@ && storage_class == "blob"@ && 1 <= n
            <= HISTORY_THUMBNAIL_PNG_MAX_BYTES,
    }
}

/// Checks a thumbnail row's record kind, SQLite storage class and declared length.
pub fn restored_thumbnail_row_ok(kind: &str, storage_class: &str, length: Option<i64>) -> (b: bool)
    ensures
        b == thumbnail_row_acceptable(kind@, storage_class@, length),
{
    match length {
        None => false,
        Some(n) => text_eq(kind, "image") && text_eq(storage_class, "blob") && 1 <= n && n
            <= 65_536,
    }
}

/// Checks the thumbnail bytes read for a row: as many as it declared, and a
/// usable thumbnail.
pub fn restored_thumbnail_ok(declared_length: i64, png: &[u8]) -> (b: bool)
    ensures
        b == (png@.len() == declared_length && thumbnail_safe(png@)),
{
    if declared_length < 0 || png.len() as u64 != declared_length as u64 {
        return false;
    }
    thumbnail_png_is_safe(png)
}

/// The revision a restore commits: the live revision must still be the one
/// captured when the restore was prepared, and must have a successor.
pub open spec fn committed_revision(current: i64, captured: i64) -> Result<i64, Seq<char>> {
    if current != captured {
        Err("准备恢复后历史记录已发生变化"@)
    } else if current == i64::MAX {
        Err("历史修订号已耗尽"@)
    } else {
        Ok((current + 1) as i64)
    }
}

/// The revision a restore commits, or why it cannot (see [`committed_revision`]).
pub fn restore_commit_revision(current: i64, captured: i64) -> (out: Result<i64, String>)
    ensures
        match out {
            Ok(n) => committed_revision(current, captured) == Ok::<i64, Seq<char>>(n),
            Err(e) => committed_revision(current, captured) == Err::<i64, Seq<char>>(e@),
        },
{
    if current != captured {
        Err(String::from_str("准备恢复后历史记录已发生变化"))
    } else if current == i64::MAX {
        Err(String::from_str("历史修订号已耗尽"))
    } else {
        Ok(current + 1)
    }
}

} // verus!
