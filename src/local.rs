//! Core-local storage: each core keeps a record, found through its GS
//! base, that maps slot ids to values created on first access.
use vstd::prelude::*;
use std::collections::HashMap;

verus! {

broadcast use vstd::std_specs::hash::group_hash_axioms;

/// Marks a valid record.
pub const LOCAL_MAGIC: u64 = 0xDEAD_BEEF;

/// Hands out slot ids, one per `Local` handle.
pub struct LocalIds {
    pub next: u64,
}

impl LocalIds {
    pub fn new() -> (r: Self)
        ensures
            r.next == 0,
    {
        LocalIds { next: 0 }
    }

    /// A fresh id, different from every one handed out before; `None`
    /// once the ids are used up.
    pub fn next_id(&mut self) -> (r: Option<u64>)
        ensures
            old(self).next < u64::MAX ==> r == Some(old(self).next) && final(self).next == old(self).next + 1,
            old(self).next == u64::MAX ==> r is None && final(self).next == old(self).next,
    {
        if self.next == u64::MAX {
            None
        } else {
            let id = self.next;
            self.next = self.next + 1;
            Some(id)
        }
    }
}

/// One core's record: the magic word and the values by slot id.
pub struct GsLocalData<V> {
    magic: u64,
    data: HashMap<u64, V>,
}

impl<V> GsLocalData<V> {
    /// The values by slot id.
    pub closed spec fn view(&self) -> Map<u64, V> {
        self.data@
    }

    pub closed spec fn spec_magic(&self) -> u64 {
        self.magic
    }

    /// A valid record with no value yet.
    pub fn new() -> (r: Self)
        ensures
            r@ == Map::<u64, V>::empty(),
            r.spec_magic() == LOCAL_MAGIC,
    {
        GsLocalData { magic: LOCAL_MAGIC, data: HashMap::new() }
    }

    /// Whether the record carries the magic word.
    pub fn is_valid(&self) -> (r: bool)
        ensures
            r == (self.spec_magic() == LOCAL_MAGIC),
    {
        self.magic == LOCAL_MAGIC
    }

    /// The value of slot `id`, created with `init` on first access.
    pub fn get<F: FnOnce() -> V>(&mut self, id: u64, init: F) -> (r: &V)
        requires
            init.requires(()),
        ensures
            final(self).spec_magic() == old(self).spec_magic(),
            old(self)@.contains_key(id) ==> final(self)@ == old(self)@ && *r == old(self)@[id],
            !old(self)@.contains_key(id) ==> init.ensures((), *r) && final(self)@ == old(self)@.insert(id, *r),
    {
        if !self.data.contains_key(&id) {
            let v = init();
            self.data.insert(id, v);
        }
        let r = self.data.get(&id);
        proof {
            assert(self.data@.contains_key(id));
        }
        r.unwrap()
    }
}

} // verus!
