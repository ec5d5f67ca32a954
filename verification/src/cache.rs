use vstd::prelude::*;

use std::collections::HashMap;

use crate::addr::Endpoint;

verus! {

broadcast use vstd::std_specs::hash::group_hash_axioms;

/// One cached resolution: the endpoint and the instant (in seconds) at
/// which it was last fetched from the coordinator.
#[derive(Debug, Clone, Copy, PartialEq, Eq, Structural)]
pub struct StoreAddr {
    pub sock: Endpoint,
    pub last_update: u64,
}

/// The cache store: at most one entry per store id. It is exclusively
/// owned by the resolution runner, so it needs no synchronization of its
/// own; staleness is judged by the runner, not here.
pub struct CacheStore {
    addrs: HashMap<u64, StoreAddr>,
}

impl View for CacheStore {
    type V = Map<u64, StoreAddr>;

    closed spec fn view(&self) -> Map<u64, StoreAddr> {
        self.addrs@
    }
}

impl CacheStore {
    /// An empty cache.
    pub fn new() -> (r: CacheStore)
        ensures
            r@ == Map::<u64, StoreAddr>::empty(),
    {
        CacheStore { addrs: HashMap::new() }
    }

    /// Looks a store id up; no side effects.
    pub fn get(&self, store_id: u64) -> (r: Option<StoreAddr>)
        ensures
            r is Some <==> self@.contains_key(store_id),
            r matches Some(e) ==> e == self@[store_id],
    {
        match self.addrs.get(&store_id) {
            Some(e) => Some(*e),
            None => None,
        }
    }

    /// Inserts or overwrites unconditionally: last write wins.
    pub fn put(&mut self, store_id: u64, sock: Endpoint, now: u64)
        ensures
            final(self)@ == old(self)@.insert(store_id, (StoreAddr { sock, last_update: now })),
    {
        self.addrs.insert(store_id, StoreAddr { sock, last_update: now });
    }

    /// Drops the entry for a store id, if any: external invalidation only,
    /// never part of normal resolution.
    pub fn remove(&mut self, store_id: u64)
        ensures
            final(self)@ == old(self)@.remove(store_id),
    {
        self.addrs.remove(&store_id);
    }
}

} // verus!
