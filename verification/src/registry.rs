//! The action registry: which adapter serves which action tag.
//!
//! A registry is filled while the hub is set up and is handed to the router
//! by value. The router never lends it out mutably, so the set of actions
//! is fixed from then on. What changes later is only the state that an
//! adapter keeps for itself, and only when that adapter is called.

use crate::adapter::{execute_once, may_return, Adapter, AdapterError, Outcome};
use crate::tag::ActionTag;
use vstd::prelude::*;

verus! {

/// A reference to one registered adapter: its position in the registry.
#[derive(Debug, Clone, Copy, PartialEq, Eq, Structural)]
pub struct AdapterHandle {
    pub index: usize,
}

/// One registration: an action tag and the adapter that serves it.
#[derive(Debug)]
pub struct AdapterDescriptor<A> {
    pub tag: ActionTag,
    pub adapter: A,
}

/// The tags of a sequence of descriptors, in order.
pub open spec fn tags_of<A>(entries: Seq<AdapterDescriptor<A>>) -> Seq<Seq<u8>> {
    Seq::new(entries.len(), |i: int| entries[i].tag@)
}

/// The adapters of a sequence of descriptors, in order.
pub open spec fn adapters_of<A>(entries: Seq<AdapterDescriptor<A>>) -> Seq<A> {
    Seq::new(entries.len(), |i: int| entries[i].adapter)
}

/// Maps action tags to adapters. No tag is registered twice.
#[derive(Debug)]
pub struct ActionRegistry<A> {
    entries: Vec<AdapterDescriptor<A>>,
}

impl<A> ActionRegistry<A> {
    #[verifier::type_invariant]
    spec fn well_formed(self) -> bool {
        tags_of(self.entries@).no_duplicates()
    }

    /// The registered tags, in the order of registration.
    pub closed spec fn tags(&self) -> Seq<Seq<u8>> {
        tags_of(self.entries@)
    }

    /// The registered adapters, in the order of registration.
    pub closed spec fn adapters(&self) -> Seq<A> {
        adapters_of(self.entries@)
    }

    /// A registry without registrations.
    pub fn new() -> (registry: ActionRegistry<A>)
        ensures
            registry.tags() == Seq::<Seq<u8>>::empty(),
            registry.adapters() == Seq::<A>::empty(),
    {
        let registry = ActionRegistry { entries: Vec::new() };
        assert(registry.tags() =~= Seq::<Seq<u8>>::empty());
        assert(registry.adapters() =~= Seq::<A>::empty());
        registry
    }

    /// Number of registrations.
    pub fn len(&self) -> (n: usize)
        ensures
            n == self.tags().len(),
            n == self.adapters().len(),
    {
        self.entries.len()
    }

    /// Position of the registration of `tag`, if there is one.
    #[verifier::loop_isolation(false)]
    fn position(&self, tag: &ActionTag) -> (found: Option<usize>)
        ensures
            self.tags().no_duplicates(),
            found is Some <==> self.tags().contains(tag@),
            found matches Some(at) ==> at == self.tags().index_of(tag@) && at < self.tags().len(),
    {
        proof {
            use_type_invariant(self);
        }
        let mut at: usize = 0;
        while at < self.entries.len()
            invariant
                at <= self.entries@.len(),
                forall|k: int| 0 <= k < at ==> self.tags()[k] != tag@,
            decreases self.entries@.len() - at,
        {
            if self.entries[at].tag.same_as(tag) {
                assert(self.tags()[at as int] == tag@);
                return Some(at);
            }
            at = at + 1;
        }
        None
    }

    /// Registers `adapter` for `tag` and answers its handle.
    ///
    /// A tag that is registered keeps its adapter: the call then answers
    /// `None` and changes nothing.
    pub fn register(&mut self, tag: ActionTag, adapter: A) -> (handle: Option<AdapterHandle>)
        ensures
            final(self).tags().no_duplicates(),
            handle is None <==> old(self).tags().contains(tag@),
            handle is None ==> final(self).tags() == old(self).tags() && final(self).adapters()
                == old(self).adapters(),
            handle matches Some(h) ==> {
                &&& h.index == old(self).tags().len()
                &&& final(self).tags() == old(self).tags().push(tag@)
                &&& final(self).adapters() == old(self).adapters().push(adapter)
            },
    {
        match self.position(&tag) {
            Some(_) => None,
            None => {
                let index: usize = self.entries.len();
                let entry = AdapterDescriptor { tag, adapter };
                let ghost before = self.entries@;
                assert(tags_of(before.push(entry)) =~= tags_of(before).push(tag@));
                assert(adapters_of(before.push(entry)) =~= adapters_of(before).push(adapter));
                let mut entries: Vec<AdapterDescriptor<A>> = Vec::new();
                std::mem::swap(&mut self.entries, &mut entries);
                assert(tags_of(self.entries@) =~= Seq::<Seq<u8>>::empty());
                entries.push(entry);
                self.entries = entries;
                Some(AdapterHandle { index })
            },
        }
    }

    /// The handle of the adapter registered for `tag`, or `None` where the
    /// tag is unknown. Looks up and changes nothing.
    pub fn resolve(&self, tag: &ActionTag) -> (handle: Option<AdapterHandle>)
        ensures
            self.tags().no_duplicates(),
            handle is Some <==> self.tags().contains(tag@),
            handle matches Some(h) ==> h.index == self.tags().index_of(tag@) && h.index
                < self.tags().len() && self.tags()[h.index as int] == tag@,
    {
        match self.position(tag) {
            Some(index) => Some(AdapterHandle { index }),
            None => None,
        }
    }

    /// The adapter that `handle` refers to, or `None` where the handle is
    /// not one of this registry.
    pub fn adapter(&self, handle: AdapterHandle) -> (adapter: Option<&A>)
        ensures
            self.adapters().len() == self.tags().len(),
            adapter is Some <==> handle.index < self.adapters().len(),
            adapter matches Some(a) ==> *a == self.adapters()[handle.index as int],
    {
        if handle.index < self.entries.len() {
            Some(&self.entries[handle.index].adapter)
        } else {
            None
        }
    }

    /// All registrations in the order in which they were made, so that the
    /// set of actions can be audited. The handle of a registration is its
    /// position here.
    pub fn descriptors(&self) -> (all: &[AdapterDescriptor<A>])
        ensures
            tags_of(all@) == self.tags(),
            adapters_of(all@) == self.adapters(),
            self.tags().no_duplicates(),
    {
        proof {
            use_type_invariant(self);
        }
        self.entries.as_slice()
    }
}

impl<A: Adapter> ActionRegistry<A> {
    /// Lets the adapter that `handle` refers to execute `payload`, once.
    ///
    /// The registrations stay as they are, and so does every other
    /// adapter. While the adapter runs, its registration is taken out of
    /// the registry; should the adapter panic, it stays out and the others
    /// stay in.
    pub fn execute(&mut self, handle: AdapterHandle, payload: &[u8]) -> (result: Result<
        Outcome,
        AdapterError,
    >)
        requires
            handle.index < old(self).tags().len(),
        ensures
            final(self).tags() == old(self).tags(),
            final(self).adapters() == old(self).adapters().update(
                handle.index as int,
                final(self).adapters()[handle.index as int],
            ),
            may_return(
                old(self).adapters()[handle.index as int],
                payload@,
                result,
                final(self).adapters()[handle.index as int],
            ),
    {
        proof {
            use_type_invariant(&*self);
        }
        let ghost before = self.entries@;
        let ghost at = handle.index as int;
        let mut entries: Vec<AdapterDescriptor<A>> = Vec::new();
        std::mem::swap(&mut self.entries, &mut entries);
        assert(tags_of(self.entries@) =~= Seq::<Seq<u8>>::empty());
        let AdapterDescriptor { tag, adapter } = entries.remove(handle.index);
        assert(tags_of(entries@).no_duplicates()) by {
            assert forall|i: int, j: int|
                0 <= i < entries@.len() && 0 <= j < entries@.len() && i != j implies tags_of(
                entries@,
            )[i] != tags_of(entries@)[j] by {
                let from_i = if i < at { i } else { i + 1 };
                let from_j = if j < at { j } else { j + 1 };
                assert(tags_of(entries@)[i] == tags_of(before)[from_i]);
                assert(tags_of(entries@)[j] == tags_of(before)[from_j]);
            }
        }
        self.entries = entries;
        let (adapter, result) = execute_once(adapter, payload);
        let mut entries: Vec<AdapterDescriptor<A>> = Vec::new();
        std::mem::swap(&mut self.entries, &mut entries);
        assert(tags_of(self.entries@) =~= Seq::<Seq<u8>>::empty());
        entries.insert(handle.index, AdapterDescriptor { tag, adapter });
        assert(tags_of(entries@) =~= tags_of(before));
        assert(adapters_of(entries@) =~= adapters_of(before).update(at, adapter));
        self.entries = entries;
        result
    }
}

} // verus!
