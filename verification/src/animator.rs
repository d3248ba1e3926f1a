//! Identifiers for animations.

use vstd::prelude::*;

verus! {

/// Hands out animation ids, one after another, from 1.
pub struct AnimIds {
    pub next: u64,
}

impl AnimIds {
    /// A source whose first id is 1.
    pub fn new() -> (a: AnimIds)
        ensures
            a.next == 1,
    {
        AnimIds { next: 1 }
    }
}

/// The id after `n`, wrapping at the end of `u64`.
pub open spec fn id_after(n: u64) -> u64 {
    if n == u64::MAX { 0 } else { (n + 1) as u64 }
}

/// The id handed out `k` calls after one that handed out `n`.
pub open spec fn id_later(n: u64, k: nat) -> u64
    decreases k,
{
    if k == 0 { n } else { id_after(id_later(n, (k - 1) as nat)) }
}

/// The next animation id; the source moves on to the id after it.
pub fn next_id(ids: &mut AnimIds) -> (id: u64)
    ensures
        id == old(ids).next,
        final(ids).next == id_after(old(ids).next),
{
    let id = ids.next;
    ids.next = if id == u64::MAX {
        0
    } else {
        id + 1
    };
    id
}

/// Until the source wraps around, the id handed out `k` calls later is `k`
/// more, so ids handed out by different calls differ.
pub proof fn lemma_ids_differ(n: u64, i: nat, j: nat)
    requires
        i < j,
        n + j <= u64::MAX,
    ensures
        id_later(n, i) == n + i,
        id_later(n, j) == n + j,
        id_later(n, i) != id_later(n, j),
    decreases j,
{
    lemma_id_later(n, i);
    lemma_id_later(n, j);
}

proof fn lemma_id_later(n: u64, k: nat)
    requires
        n + k <= u64::MAX,
    ensures
        id_later(n, k) == n + k,
    decreases k,
{
    if k > 0 {
        lemma_id_later(n, (k - 1) as nat);
    }
}

} // verus!
