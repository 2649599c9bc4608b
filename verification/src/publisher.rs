//! Keyed registry: a mapping from event key to an ordered list of
//! non-owning handler entries; a notification is routed only to the
//! handlers subscribed under the notified key.
//!
//! A key with no remaining subscribers behaves exactly like a key that was
//! never subscribed: dispatch treats both as an empty handler sequence.

use vstd::prelude::*;

use crate::dispatch::invocations_of;
use crate::dispatch::without;

verus! {

/// A subscriber: an external callback object registered under an event key,
/// invoked with one independent copy of the payload per matching notification.
pub trait Subscriber {
    type Item;

    fn on_event(&self, data: Self::Item);
}

/// A registry routing notifications by event key.
///
/// Event keys are `u64` values chosen by the caller, compared by equality.
/// Each subscription carries a caller-chosen handler identity token of type
/// `u64`; identity, not value equality, decides which entries an unsubscribe
/// removes. Per key, subscription order is preserved and duplicate
/// subscriptions are permitted.
pub struct Publisher<'a, H: Subscriber> {
    entries: Vec<(u64, u64, &'a H)>,
}

/// The (event key, handler identity) pairs of a sequence of entries.
pub(crate) open spec fn entry_pairs<'a, H: Subscriber>(
    entries: Seq<(u64, u64, &'a H)>,
) -> Seq<(u64, u64)> {
    entries.map_values(|e: (u64, u64, &'a H)| (e.0, e.1))
}

/// The handler identities subscribed under `key`, in subscription order.
pub open spec fn handlers_of(pairs: Seq<(u64, u64)>, key: u64) -> Seq<u64> {
    pairs.filter(|e: (u64, u64)| e.0 == key).map_values(|e: (u64, u64)| e.1)
}

/// The subscription pairs left after unsubscribing identity `id` from `key`:
/// every other pair, order preserved.
pub open spec fn retained(pairs: Seq<(u64, u64)>, key: u64, id: u64) -> Seq<(u64, u64)> {
    pairs.filter(|e: (u64, u64)| !(e.0 == key && e.1 == id))
}

impl<'a, H: Subscriber> Publisher<'a, H> where H::Item: Clone {
    /// The (event key, handler identity) pairs of all current subscriptions,
    /// in subscription order. `notify(key, _)` invokes, in this order, the
    /// handlers of exactly the pairs whose key equals `key`.
    pub closed spec fn pairs(&self) -> Seq<(u64, u64)> {
        entry_pairs(self.entries@)
    }

    /// The handler identities subscribed under `key`, in subscription order.
    pub open spec fn handlers_at(&self, key: u64) -> Seq<u64> {
        handlers_of(self.pairs(), key)
    }

    /// Creates an empty registry: no key has any subscriber.
    pub fn new() -> (p: Publisher<'a, H>)
        ensures
            p.pairs() == Seq::<(u64, u64)>::empty(),
            forall|k: u64| #[trigger] p.handlers_at(k) == Seq::<u64>::empty(),
    {
        let p = Publisher { entries: Vec::new() };
        proof {
            assert(p.pairs() =~= Seq::<(u64, u64)>::empty());
            assert forall|k: u64| #[trigger] p.handlers_at(k) == Seq::<u64>::empty() by {
                reveal(Seq::filter);
                assert(p.handlers_at(k) =~= Seq::<u64>::empty());
            }
        }
        p
    }

    /// Appends a handler entry under `key`; no uniqueness check is made, so
    /// subscribing the same identity twice under one key yields two entries.
    /// Handler sequences of other keys are unchanged.
    pub fn subscribe(&mut self, key: u64, id: u64, handler: &'a H)
        ensures
            final(self).pairs() == old(self).pairs().push((key, id)),
            final(self).handlers_at(key) == old(self).handlers_at(key).push(id),
            forall|k: u64| k != key ==> #[trigger] final(self).handlers_at(k) == old(
                self,
            ).handlers_at(k),
    {
        self.entries.push((key, id, handler));
        proof {
            broadcast use Seq::<_>::lemma_filter_push;

            assert(self.pairs() =~= old(self).pairs().push((key, id)));
            assert(self.handlers_at(key) =~= old(self).handlers_at(key).push(id));
            assert forall|k: u64| k != key implies #[trigger] self.handlers_at(k) == old(
                self,
            ).handlers_at(k) by {
                assert(self.handlers_at(k) =~= old(self).handlers_at(k));
            }
        }
    }

    /// Removes every entry under `key` whose handler identity equals `id`,
    /// keeping the order of the remaining entries; a no-op if `key` was never
    /// subscribed or carries no such identity. Handler sequences of other
    /// keys are unchanged.
    pub fn unsubscribe(&mut self, key: u64, id: u64)
        ensures
            final(self).pairs() == retained(old(self).pairs(), key, id),
            final(self).handlers_at(key) == without(old(self).handlers_at(key), id),
            forall|k: u64| k != key ==> #[trigger] final(self).handlers_at(k) == old(
                self,
            ).handlers_at(k),
    {
        let ghost all = old(self).pairs();
        let mut kept: Vec<(u64, u64, &'a H)> = Vec::new();
        let n = self.entries.len();
        let mut i: usize = 0;
        while i < n
            invariant
                i <= n,
                self.entries@ == old(self).entries@,
                n == self.entries@.len(),
                all == entry_pairs(self.entries@),
                entry_pairs(kept@) == retained(all.take(i as int), key, id),
            decreases n - i,
        {
            let e = self.entries[i];
            proof {
                broadcast use Seq::<_>::lemma_filter_push;

                assert(all.take(i + 1) =~= all.take(i as int).push(all[i as int]));
                assert(all[i as int] == (e.0, e.1));
            }
            if !(e.0 == key && e.1 == id) {
                let ghost kept_before = kept@;
                kept.push(e);
                proof {
                    assert(entry_pairs(kept@) =~= entry_pairs(kept_before).push((e.0, e.1)));
                }
            }
            i += 1;
        }
        proof {
            assert(all.take(n as int) =~= all);
        }
        self.entries = kept;
        proof {
            lemma_retained_handlers(all, key, id, key);
            assert forall|k: u64| k != key implies #[trigger] self.handlers_at(k) == old(
                self,
            ).handlers_at(k) by {
                lemma_retained_handlers(all, key, id, k);
            }
        }
    }

    /// Invokes every handler subscribed under `key`, in subscription order,
    /// each with an independent copy of `data` made with the payload's
    /// `clone`; silently a no-op if no handler is subscribed under `key`.
    /// Reentrant `subscribe`/`unsubscribe` from a handler is ruled out at
    /// compile time, since the registry stays borrowed for the whole call.
    pub fn notify(&self, key: u64, data: &H::Item) {
        let n = self.entries.len();
        let mut i: usize = 0;
        while i < n
            invariant
                i <= n,
                n == self.entries@.len(),
            decreases n - i,
        {
            let e = self.entries[i];
            if e.0 == key {
                e.2.on_event(data.clone());
            }
            i += 1;
        }
    }
}

/// Unsubscribing identity `id` from `key` removes exactly that identity's
/// occurrences from `key`'s handler sequence and leaves the handler sequence
/// of every other key unchanged.
pub proof fn lemma_retained_handlers(pairs: Seq<(u64, u64)>, key: u64, id: u64, k: u64)
    ensures
        handlers_of(retained(pairs, key, id), k) == if k == key {
            without(handlers_of(pairs, k), id)
        } else {
            handlers_of(pairs, k)
        },
    decreases pairs.len(),
{
    broadcast use Seq::<_>::lemma_filter_push;

    if pairs.len() == 0 {
        reveal(Seq::filter);
        assert(handlers_of(retained(pairs, key, id), k) =~= handlers_of(pairs, k));
        assert(without(handlers_of(pairs, k), id) =~= handlers_of(pairs, k));
    } else {
        let prefix = pairs.drop_last();
        let e = pairs.last();
        lemma_retained_handlers(prefix, key, id, k);
        assert(pairs =~= prefix.push(e));
        assert(handlers_of(pairs, k) =~= if e.0 == k {
            handlers_of(prefix, k).push(e.1)
        } else {
            handlers_of(prefix, k)
        });
        assert(handlers_of(retained(pairs, key, id), k) =~= if k == key {
            without(handlers_of(pairs, k), id)
        } else {
            handlers_of(pairs, k)
        });
    }
}

/// For distinct event keys, subscribing a handler under one key and then
/// notifying the other never invokes that handler: the other key's dispatch
/// sequence contains its identity zero times.
pub proof fn lemma_other_key_never_invoked(pairs: Seq<(u64, u64)>, a: u64, b: u64, id: u64)
    requires
        a != b,
        invocations_of(handlers_of(pairs, b), id) == 0,
    ensures
        invocations_of(handlers_of(pairs.push((a, id)), b), id) == 0,
{
    broadcast use Seq::<_>::lemma_filter_push;

    assert(handlers_of(pairs.push((a, id)), b) =~= handlers_of(pairs, b));
}

/// Unsubscribing an identity that was never subscribed under a key — or under
/// a key that was never used — changes no key's handler sequence, so no later
/// notification can observe it.
pub proof fn lemma_unsubscribe_absent_no_change(pairs: Seq<(u64, u64)>, key: u64, id: u64)
    requires
        invocations_of(handlers_of(pairs, key), id) == 0,
    ensures
        forall|k: u64| #[trigger] handlers_of(retained(pairs, key, id), k) == handlers_of(
            pairs,
            k,
        ),
{
    assert forall|k: u64| #[trigger] handlers_of(retained(pairs, key, id), k) == handlers_of(
        pairs,
        k,
    ) by {
        lemma_retained_handlers(pairs, key, id, k);
        if k == key {
            crate::dispatch::lemma_without_absent(handlers_of(pairs, key), id);
        }
    }
}

/// Notifying a key with zero subscribers produces no invocations: every
/// identity's invocation count over the empty dispatch sequence is zero.
pub proof fn lemma_notify_empty_key(pairs: Seq<(u64, u64)>, key: u64)
    requires
        handlers_of(pairs, key).len() == 0,
    ensures
        forall|id: u64| #[trigger] invocations_of(handlers_of(pairs, key), id) == 0,
{
    broadcast use Seq::<_>::lemma_filter_len;

}

} // verus!
