//! Laws that relate several ledger operations: they are stated over the
//! same step predicates and collection models that the operations' own
//! contracts use, and proved once and for all inputs.
use crate::ledger::{alloc_step, verify_ok_step, with_verified, Ledger};
use crate::records::Project;
use vstd::prelude::*;

verus! {

/// Along a run of allocator draws, the counter never moves backwards:
/// it grows by one at every step.
proof fn lemma_counter_strictly_increases(states: Seq<Ledger>, ids: Seq<u64>, i: int, j: int)
    requires
        states.len() == ids.len() + 1,
        forall|k: int| 0 <= k < ids.len() ==> alloc_step(states[k], states[k + 1], ids[k]),
        0 <= i < j <= ids.len(),
    ensures
        states[i].counter < states[j].counter,
    decreases j - i,
{
    if j == i + 1 {
        assert(alloc_step(states[i], states[i + 1], ids[i]));
    } else {
        lemma_counter_strictly_increases(states, ids, i, j - 1);
        assert(alloc_step(states[j - 1], states[j], ids[j - 1]));
    }
}

/// The identifiers drawn along any run of successful allocator calls are
/// strictly increasing, hence pairwise distinct: `states` are the ledger
/// states the run passes through, `ids` the identifiers returned, and each
/// call is one `alloc_step` between consecutive states.
pub proof fn lemma_allocator_ids_strictly_increase(states: Seq<Ledger>, ids: Seq<u64>)
    requires
        states.len() == ids.len() + 1,
        forall|k: int| 0 <= k < ids.len() ==> alloc_step(states[k], states[k + 1], ids[k]),
    ensures
        forall|i: int, j: int| 0 <= i < j < ids.len() ==> ids[i] < ids[j],
{
    assert forall|i: int, j: int| 0 <= i < j < ids.len() implies ids[i] < ids[j] by {
        assert(alloc_step(states[i], states[i + 1], ids[i]));
        assert(alloc_step(states[j], states[j + 1], ids[j]));
        if i + 1 < j {
            lemma_counter_strictly_increases(states, ids, i + 1, j);
        }
    }
}

/// Round-trip of a keyed collection: after an insert the key maps to the
/// inserted record; after a remove the key is absent; and a remove of a key
/// never inserted leaves the collection as it was.
pub proof fn lemma_store_round_trip<T>(m: Map<u64, T>, id: u64, r: T)
    ensures
        m.insert(id, r).contains_key(id),
        m.insert(id, r)[id] == r,
        !m.insert(id, r).remove(id).contains_key(id),
        !m.remove(id).contains_key(id),
        !m.contains_key(id) ==> m.remove(id) =~= m,
{
}

/// Verification is idempotent: after one successful verification, the stored
/// record is verified, so a second call succeeds, returns the same record,
/// and leaves every collection exactly as the first call left it.
pub proof fn lemma_verify_idempotent(
    s0: Ledger,
    s1: Ledger,
    s2: Ledger,
    pid: u64,
    p1: Project,
    p2: Project,
)
    requires
        verify_ok_step(s0, s1, pid, p1),
        verify_ok_step(s1, s2, pid, p2),
    ensures
        p1.verified,
        p2.verified,
        p2 == p1,
        s2.projects@ =~= s1.projects@,
        s2.credits == s1.credits,
        s2.listings == s1.listings,
        s2.users == s1.users,
        s2.counter == s1.counter,
{
    assert(s1.projects@[pid] == p1);
    assert(p2 == with_verified(p1));
    assert(s2.projects@ =~= s1.projects@.insert(pid, p1));
    assert(s1.projects@.insert(pid, p1) =~= s1.projects@);
}

/// After one successful verification the project is present, so the
/// verification operation's contract owes success to a repeated call.
pub proof fn lemma_verify_repeatable(s0: Ledger, s1: Ledger, pid: u64, p1: Project)
    requires
        verify_ok_step(s0, s1, pid, p1),
    ensures
        s1.projects@.contains_key(pid),
        s1.projects@[pid].verified,
{
}

} // verus!
