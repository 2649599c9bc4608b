//! The dispatch model shared by both registries.
//!
//! A registry's observable behaviour is captured by the sequence of identity
//! tokens it would dispatch to, in order. `without` models identity-based
//! removal, and `invocations_of` counts how many times one notification
//! invokes the entity with a given identity.

use vstd::prelude::*;

verus! {

/// The identity sequence with every occurrence of `id` removed,
/// order of the remaining entries preserved.
pub open spec fn without(ids: Seq<u64>, id: u64) -> Seq<u64> {
    ids.filter(|x: u64| x != id)
}

/// How many times a single notification over `ids` invokes the entity
/// with identity `id`: once per occurrence, in sequence order.
pub open spec fn invocations_of(ids: Seq<u64>, id: u64) -> nat {
    ids.filter(|x: u64| x == id).len()
}

/// Removal and retention partition the sequence: the entries removed by
/// `without` are exactly the occurrences counted by `invocations_of`.
pub proof fn lemma_without_len(ids: Seq<u64>, id: u64)
    ensures
        without(ids, id).len() + invocations_of(ids, id) == ids.len(),
    decreases ids.len(),
{
    broadcast use Seq::<_>::lemma_filter_len_push;

    if ids.len() == 0 {
        reveal(Seq::filter);
    } else {
        lemma_without_len(ids.drop_last(), id);
        assert(ids =~= ids.drop_last().push(ids.last()));
    }
}

/// Removing an identity that never occurs leaves the sequence unchanged.
pub proof fn lemma_without_absent(ids: Seq<u64>, id: u64)
    requires
        invocations_of(ids, id) == 0,
    ensures
        without(ids, id) == ids,
    decreases ids.len(),
{
    broadcast use Seq::<_>::lemma_filter_len_push, Seq::<_>::lemma_filter_push;

    if ids.len() == 0 {
        reveal(Seq::filter);
        assert(without(ids, id) =~= ids);
    } else {
        assert(ids =~= ids.drop_last().push(ids.last()));
        assert(invocations_of(ids.drop_last(), id) == 0);
        lemma_without_absent(ids.drop_last(), id);
        assert(without(ids, id) =~= ids);
    }
}

/// Attaching a not-yet-attached identity and then notifying invokes it
/// exactly once: the dispatch sequence after the attach contains `id`
/// exactly once.
pub proof fn lemma_attach_then_notify_once(ids: Seq<u64>, id: u64)
    requires
        invocations_of(ids, id) == 0,
    ensures
        invocations_of(ids.push(id), id) == 1,
{
    broadcast use Seq::<_>::lemma_filter_len_push;

}

/// After removing an identity, a notification never invokes it:
/// the dispatch sequence after the removal contains `id` zero times.
pub proof fn lemma_detached_never_invoked(ids: Seq<u64>, id: u64)
    ensures
        invocations_of(without(ids, id), id) == 0,
    decreases ids.len(),
{
    broadcast use Seq::<_>::lemma_filter_len_push, Seq::<_>::lemma_filter_push;

    if ids.len() == 0 {
        reveal(Seq::filter);
    } else {
        lemma_detached_never_invoked(ids.drop_last(), id);
        assert(ids =~= ids.drop_last().push(ids.last()));
    }
}

/// One registration-interface operation on a broadcast registry.
pub enum RegistryOp {
    Attach(u64),
    Detach(u64),
}

/// The identity sequence after applying one operation.
pub open spec fn apply_op(ids: Seq<u64>, op: RegistryOp) -> Seq<u64> {
    match op {
        RegistryOp::Attach(id) => ids.push(id),
        RegistryOp::Detach(id) => without(ids, id),
    }
}

/// The identity sequence after applying the operations, first to last.
pub open spec fn apply_ops(ids: Seq<u64>, ops: Seq<RegistryOp>) -> Seq<u64>
    decreases ops.len(),
{
    if ops.len() == 0 {
        ids
    } else {
        apply_ops(apply_op(ids, ops.first()), ops.drop_first())
    }
}

/// How many handles the operations attach.
pub open spec fn attached_total(ops: Seq<RegistryOp>) -> int
    decreases ops.len(),
{
    if ops.len() == 0 {
        0
    } else {
        (match ops.first() {
            RegistryOp::Attach(_) => 1int,
            RegistryOp::Detach(_) => 0int,
        }) + attached_total(ops.drop_first())
    }
}

/// How many entries the operations successfully detach, starting from `ids`:
/// each detach succeeds once per entry it removes.
pub open spec fn detached_total(ids: Seq<u64>, ops: Seq<RegistryOp>) -> int
    decreases ops.len(),
{
    if ops.len() == 0 {
        0
    } else {
        (match ops.first() {
            RegistryOp::Attach(_) => 0int,
            RegistryOp::Detach(id) => invocations_of(ids, id) as int,
        }) + detached_total(apply_op(ids, ops.first()), ops.drop_first())
    }
}

/// For any interleaving of attaches and detaches, the number of registered
/// handles equals the number attached minus the number successfully
/// detached. `Subject::num_observers` returns the length on the left.
pub proof fn lemma_interleaving_count(ids: Seq<u64>, ops: Seq<RegistryOp>)
    ensures
        apply_ops(ids, ops).len() == ids.len() + attached_total(ops) - detached_total(ids, ops),
    decreases ops.len(),
{
    if ops.len() > 0 {
        lemma_interleaving_count(apply_op(ids, ops.first()), ops.drop_first());
        match ops.first() {
            RegistryOp::Attach(_) => {
            }
            RegistryOp::Detach(id) => {
                lemma_without_len(ids, id);
            }
        }
    }
}

} // verus!
