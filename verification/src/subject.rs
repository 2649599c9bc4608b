//! Broadcast registry: an ordered list of non-owning observer handles,
//! all of which are invoked on every notification.

use vstd::prelude::*;

verus! {

/// An observer: an external object exposing a single notification capability.
/// Implementors receive one independent copy of the payload per notification.
pub trait Observer {
    type Item;

    fn on_notify(&self, data: Self::Item);
}

/// An ordered registry of non-owning observer handles.
///
/// Each attached observer carries a caller-chosen identity token of type
/// `u64`; identity, not value equality, decides which entries a detach
/// removes, so the caller must give distinct objects distinct tokens.
/// Insertion order is preserved and duplicates are permitted.
pub struct Subject<'a, O: Observer> {
    observers: Vec<(u64, &'a O)>,
}

/// The identity tokens of a sequence of registry entries, in entry order.
pub(crate) open spec fn entry_ids<'a, O: Observer>(entries: Seq<(u64, &'a O)>) -> Seq<u64> {
    entries.map_values(|e: (u64, &'a O)| e.0)
}

impl<'a, O: Observer> Subject<'a, O> where O::Item: Clone {
    /// The identities of the attached observers, in attachment order.
    /// `notify` invokes the observers in exactly this order.
    pub closed spec fn ids(&self) -> Seq<u64> {
        entry_ids(self.observers@)
    }

    /// Creates an empty registry.
    pub fn new() -> (s: Subject<'a, O>)
        ensures
            s.ids() == Seq::<u64>::empty(),
    {
        let s = Subject { observers: Vec::new() };
        proof {
            assert(s.ids() =~= Seq::<u64>::empty());
        }
        s
    }

    /// Appends an observer handle; no uniqueness check is made, so attaching
    /// the same identity twice yields two entries.
    pub fn attach(&mut self, id: u64, observer: &'a O)
        ensures
            final(self).ids() == old(self).ids().push(id),
    {
        self.observers.push((id, observer));
        proof {
            assert(self.ids() =~= old(self).ids().push(id));
        }
    }

    /// Removes every entry whose identity equals `id`, keeping the order of
    /// the remaining entries; a no-op if no entry carries that identity.
    pub fn detach(&mut self, id: u64)
        ensures
            final(self).ids() == crate::dispatch::without(old(self).ids(), id),
    {
        let ghost all = old(self).ids();
        let mut kept: Vec<(u64, &'a O)> = Vec::new();
        let n = self.observers.len();
        let mut i: usize = 0;
        while i < n
            invariant
                i <= n,
                self.observers@ == old(self).observers@,
                n == self.observers@.len(),
                all == entry_ids(self.observers@),
                entry_ids(kept@) == crate::dispatch::without(all.take(i as int), id),
            decreases n - i,
        {
            let e = self.observers[i];
            proof {
                broadcast use Seq::<_>::lemma_filter_push;

                assert(all.take(i + 1) =~= all.take(i as int).push(all[i as int]));
                assert(all[i as int] == e.0);
            }
            if e.0 != id {
                let ghost kept_before = kept@;
                kept.push(e);
                proof {
                    assert(entry_ids(kept@) =~= entry_ids(kept_before).push(e.0));
                }
            }
            i += 1;
        }
        proof {
            assert(all.take(n as int) =~= all);
        }
        self.observers = kept;
    }

    /// The number of currently attached observer handles.
    pub fn num_observers(&self) -> (n: usize)
        ensures
            n == self.ids().len(),
    {
        self.observers.len()
    }

    /// Invokes every attached observer, in attachment order, each with an
    /// independent copy of `data` made with the payload's `clone`.
    /// Reentrant `attach`/`detach` from an observer is ruled out at compile
    /// time, since the registry stays borrowed for the whole call.
    pub fn notify(&self, data: &O::Item) {
        let n = self.observers.len();
        let mut i: usize = 0;
        while i < n
            invariant
                i <= n,
                n == self.observers@.len(),
            decreases n - i,
        {
            let e = self.observers[i];
            e.1.on_notify(data.clone());
            i += 1;
        }
    }
}

} // verus!
