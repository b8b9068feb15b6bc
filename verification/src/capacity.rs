//! Capacity pruning: how many of the oldest unprotected records go when there
//! are too many, and which of the oldest unprotected images go when their
//! bytes exceed the image budget.

use vstd::prelude::*;

verus! {

/// How many unprotected records are over the record limit.
pub open spec fn excess_records(ordinary_count: u64, max_records: u64) -> nat {
    if ordinary_count > max_records {
        (ordinary_count - max_records) as nat
    } else {
        0
    }
}

/// The number of oldest unprotected records to prune for the record limit.
pub fn records_over_limit(ordinary_count: u64, max_records: u64) -> (n: u64)
    ensures
        n == excess_records(ordinary_count, max_records),
{
    if ordinary_count > max_records {
        ordinary_count - max_records
    } else {
        0
    }
}

/// The image bytes left once the first `k` candidates are deleted, each
/// deletion taking its size off the total (never below zero).
pub open spec fn bytes_after(total: u64, sizes: Seq<u64>, k: int) -> int
    decreases k,
{
    if k <= 0 {
        total as int
    } else {
        let before = bytes_after(total, sizes, k - 1);
        if before >= sizes[k - 1] {
            before - sizes[k - 1]
        } else {
            0
        }
    }
}

/// The sizes of a list of image candidates, in order.
pub open spec fn candidate_sizes(candidates: Seq<(String, u64)>) -> Seq<u64> {
    candidates.map_values(|c: (String, u64)| c.1)
}

/// The image candidates to prune, oldest first: the shortest prefix of
/// `candidates` whose deletion brings `image_bytes` within `max_image_bytes`,
/// or all of them when even that does not.
pub fn image_prune_ids(image_bytes: u64, max_image_bytes: u64, candidates: &[(String, u64)]) -> (ids:
    Vec<String>)
    ensures
        ids@.len() <= candidates@.len(),
        forall|i: int| 0 <= i < ids@.len() ==> #[trigger] ids@[i]@ == candidates@[i].0@,
        forall|j: int|
            0 <= j < ids@.len() ==> #[trigger] bytes_after(
                image_bytes,
                candidate_sizes(candidates@),
                j,
            ) > max_image_bytes,
        ids@.len() < candidates@.len() ==> bytes_after(
            image_bytes,
            candidate_sizes(candidates@),
            ids@.len() as int,
        ) <= max_image_bytes,
{
    let ghost sizes = candidate_sizes(candidates@);
    let mut ids: Vec<String> = Vec::new();
    let mut remaining: u64 = image_bytes;
    let mut i: usize = 0;
    while i < candidates.len()
        invariant
            i <= candidates@.len(),
            sizes == candidate_sizes(candidates@),
            ids@.len() == i,
            remaining == bytes_after(image_bytes, sizes, i as int),
            forall|k: int| 0 <= k < i ==> #[trigger] ids@[k]@ == candidates@[k].0@,
            forall|j: int| 0 <= j < i ==> #[trigger] bytes_after(image_bytes, sizes, j) > max_image_bytes,
        decreases candidates@.len() - i,
    {
        if remaining <= max_image_bytes {
            return ids;
        }
        let size = candidates[i].1;
        assert(sizes[i as int] == size);
        ids.push(candidates[i].0.clone());
        remaining = if remaining >= size {
            remaining - size
        } else {
            0
        };
        i = i + 1;
    }
    ids
}

/// Where pruning images stands: the image bytes still counted and the next
/// candidate (candidates come oldest first).
#[derive(Clone, Copy, Debug, PartialEq, Eq, Structural)]
pub struct ImagePruneState {
    pub remaining: u64,
    pub next: usize,
}

/// What pruning images does next: delete the candidate at `index`, or stop.
#[derive(Clone, Copy, Debug, PartialEq, Eq, Structural)]
pub enum ImagePruneAction {
    Delete { index: usize },
    Stop,
}

/// The next action: delete the next candidate while the bytes still counted
/// exceed the budget and candidates are left; otherwise stop.
pub open spec fn prune_action(state: ImagePruneState, max_image_bytes: u64, count: nat) -> ImagePruneAction {
    if state.next < count && state.remaining > max_image_bytes {
        ImagePruneAction::Delete { index: state.next }
    } else {
        ImagePruneAction::Stop
    }
}

/// The bytes still counted after a deletion attempt: a deleted row frees its
/// size (never below zero); a row that was already gone frees nothing.
pub open spec fn bytes_after_attempt(remaining: u64, size: u64, deleted: bool) -> u64 {
    if !deleted {
        remaining
    } else if remaining >= size {
        (remaining - size) as u64
    } else {
        0
    }
}

/// Starts pruning images from the total image bytes.
pub fn image_prune_start(image_bytes: u64, max_image_bytes: u64, candidates: &[(String, u64)]) -> (out: (
    ImagePruneState,
    ImagePruneAction,
))
    ensures
        out.0 == (ImagePruneState { remaining: image_bytes, next: 0 }),
        out.1 == prune_action(out.0, max_image_bytes, candidates@.len()),
{
    let state = ImagePruneState { remaining: image_bytes, next: 0 };
    let action = if 0 < candidates.len() && image_bytes > max_image_bytes {
        ImagePruneAction::Delete { index: 0 }
    } else {
        ImagePruneAction::Stop
    };
    (state, action)
}

/// The next state and action once the candidate at `state.next` was deleted
/// (`deleted`) or found already gone.
pub fn image_prune_step(
    state: ImagePruneState,
    max_image_bytes: u64,
    candidates: &[(String, u64)],
    deleted: bool,
) -> (out: (ImagePruneState, ImagePruneAction))
    requires
        state.next < candidates@.len(),
    ensures
        out.0 == (ImagePruneState {
            remaining: bytes_after_attempt(state.remaining, candidates@[state.next as int].1, deleted),
            next: (state.next + 1) as usize,
        }),
        out.1 == prune_action(out.0, max_image_bytes, candidates@.len()),
{
    let size = candidates[state.next].1;
    let remaining = if !deleted {
        state.remaining
    } else if state.remaining >= size {
        state.remaining - size
    } else {
        0
    };
    let next = state.next + 1;
    let after = ImagePruneState { remaining, next };
    let action = if next < candidates.len() && remaining > max_image_bytes {
        ImagePruneAction::Delete { index: next }
    } else {
        ImagePruneAction::Stop
    };
    (after, action)
}

/// When every deletion succeeds, pruning follows the plan of
/// [`image_prune_ids`]: after `k` deletions the bytes still counted are
/// `bytes_after(total, sizes, k)`, so it deletes exactly the planned prefix.
pub proof fn lemma_successful_pruning_follows_plan(total: u64, sizes: Seq<u64>, k: int)
    requires
        0 <= k < sizes.len(),
    ensures
        0 <= bytes_after(total, sizes, k) <= total,
        bytes_after_attempt(bytes_after(total, sizes, k) as u64, sizes[k], true) == bytes_after(
            total,
            sizes,
            k + 1,
        ),
    decreases k,
{
    if k > 0 {
        lemma_successful_pruning_follows_plan(total, sizes, k - 1);
    }
}

} // verus!
