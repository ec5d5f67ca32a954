use vstd::prelude::*;

use crate::addr::{to_socket_addr, valid_socket_addr, Endpoint};
use crate::cache::{CacheStore, StoreAddr};
use crate::errors::ResolveError;
use crate::metadata::{vet_store, Store};

verus! {

/// How long a cached endpoint stays fresh, in seconds.
pub const STORE_ADDRESS_REFRESH_SECONDS: u64 = 60;

/// The narrow coordinator capability the resolver consumes: look a
/// store's metadata up by id, or fail with a transport message. Callers
/// supply the implementation; nothing is assumed of what it returns.
pub trait PdClient {
    fn get_store(&self, store_id: u64) -> Result<Store, String>;
}

/// Whether a cache entry is still fresh at instant `now`: strictly less
/// than the refresh window has passed since it was fetched. An entry
/// exactly at the boundary is stale. An entry fetched after `now` (a
/// clock running behind the cache) counts as fresh.
pub open spec fn is_fresh(entry: StoreAddr, now: u64) -> bool {
    (now as int) < entry.last_update + STORE_ADDRESS_REFRESH_SECONDS
}

/// What a lookup answers from the cache alone at instant `now`: the
/// cached endpoint when a fresh entry exists, nothing otherwise.
pub open spec fn fresh_lookup(cache: Map<u64, StoreAddr>, store_id: u64, now: u64) -> Option<
    Endpoint,
> {
    if cache.contains_key(store_id) && is_fresh(cache[store_id], now) {
        Some(cache[store_id].sock)
    } else {
        None
    }
}

/// The resolution worker's state: the coordinator client, the cache it
/// exclusively owns, and the diagnostic counter of tombstone failures.
pub struct Runner<T: PdClient> {
    pub pd_client: T,
    pub store_addrs: CacheStore,
    pub tombstone_count: u64,
}

impl<T: PdClient> Runner<T> {
    /// The cache's contents as a map from store id to entry.
    pub open spec fn cache(self) -> Map<u64, StoreAddr> {
        self.store_addrs@
    }

    /// A runner with an empty cache and a zeroed diagnostic counter.
    pub fn new(pd_client: T) -> (r: Runner<T>)
        ensures
            r.cache() == Map::<u64, StoreAddr>::empty(),
            r.tombstone_count == 0,
            r.pd_client == pd_client,
    {
        Runner { pd_client, store_addrs: CacheStore::new(), tombstone_count: 0 }
    }

    /// Asks the coordinator for the store's metadata and vets it: a
    /// transport failure is passed on, a tombstoned store is rejected and
    /// counted, an empty address string is rejected. The cache is never
    /// touched here.
    pub fn get_address(&mut self, store_id: u64) -> (r: Result<String, ResolveError>)
        requires
            old(self).tombstone_count < u64::MAX,
        ensures
            final(self).cache() == old(self).cache(),
            final(self).pd_client == old(self).pd_client,
            final(self).tombstone_count as int == old(self).tombstone_count + (
            if (r matches Err(e) && e is StoreTombstone) {
                1int
            } else {
                0int
            }),
            r matches Ok(a) ==> a@.len() > 0,
            r matches Err(e) ==> match e {
                ResolveError::Transport(_) => true,
                ResolveError::StoreTombstone(id) => id == store_id,
                ResolveError::EmptyAddress(id) => id == store_id,
                ResolveError::BadAddress(_) => false,
                ResolveError::Submission => false,
            },
    {
        let resp = self.pd_client.get_store(store_id);
        match resp {
            Err(msg) => Err(ResolveError::Transport(msg)),
            Ok(store) => {
                let vetted = vet_store(&store, store_id);
                match &vetted {
                    Err(ResolveError::StoreTombstone(_)) => {
                        self.tombstone_count = self.tombstone_count + 1;
                    },
                    _ => {},
                }
                vetted
            },
        }
    }

    /// Resolves a store id at instant `now`. A fresh cache entry answers
    /// immediately and nothing changes. Otherwise the coordinator is
    /// consulted: on success the parsed endpoint overwrites the cache
    /// entry with timestamp `now` and is returned; on any failure the
    /// cache is left untouched, and a tombstoned store additionally
    /// bumps the diagnostic counter.
    pub fn resolve(&mut self, store_id: u64, now: u64) -> (r: Result<Endpoint, ResolveError>)
        requires
            old(self).tombstone_count < u64::MAX,
        ensures
            fresh_lookup(old(self).cache(), store_id, now) matches Some(ep) ==> r == Ok::<
                Endpoint,
                ResolveError,
            >(ep) && *final(self) == *old(self),
            fresh_lookup(old(self).cache(), store_id, now) is None ==> {
                &&& r matches Ok(ep) ==> final(self).cache() == old(self).cache().insert(
                    store_id,
                    (StoreAddr { sock: ep, last_update: now }),
                )
                &&& r is Err ==> final(self).cache() == old(self).cache()
            },
            final(self).pd_client == old(self).pd_client,
            final(self).tombstone_count as int == old(self).tombstone_count + (
            if (r matches Err(e) && e is StoreTombstone) {
                1int
            } else {
                0int
            }),
            r matches Err(e) ==> match e {
                ResolveError::Transport(_) => true,
                ResolveError::StoreTombstone(id) => id == store_id,
                ResolveError::EmptyAddress(id) => id == store_id,
                ResolveError::BadAddress(a) => !valid_socket_addr(a@) && a@.len() > 0,
                ResolveError::Submission => false,
            },
    {
        if let Some(entry) = self.store_addrs.get(store_id) {
            if now <= entry.last_update || now - entry.last_update < STORE_ADDRESS_REFRESH_SECONDS {
                return Ok(entry.sock);
            }
        }
        let addr = match self.get_address(store_id) {
            Ok(a) => a,
            Err(e) => {
                return Err(e);
            },
        };
        let sock = match to_socket_addr(addr.as_str()) {
            Ok(sp) => sp,
            Err(e) => {
                return Err(e);
            },
        };
        self.store_addrs.put(store_id, sock, now);
        Ok(sock)
    }

    /// Drops the cache entry for a store id: the external invalidation
    /// hook. The next lookup for that id must consult the coordinator.
    pub fn invalidate(&mut self, store_id: u64)
        ensures
            final(self).cache() == old(self).cache().remove(store_id),
            final(self).pd_client == old(self).pd_client,
            final(self).tombstone_count == old(self).tombstone_count,
    {
        self.store_addrs.remove(store_id);
    }
}

/// Within the freshness window, lookups are idempotent: at any two
/// instants at which the same cache entry is fresh, a lookup answers the
/// same endpoint from the cache; and `resolve` leaves the whole runner
/// unchanged on that path, so the stored timestamp is not altered.
pub proof fn lemma_fresh_lookup_idempotent(
    cache: Map<u64, StoreAddr>,
    store_id: u64,
    now1: u64,
    now2: u64,
)
    requires
        cache.contains_key(store_id),
        is_fresh(cache[store_id], now1),
        is_fresh(cache[store_id], now2),
    ensures
        fresh_lookup(cache, store_id, now1) == fresh_lookup(cache, store_id, now2),
        fresh_lookup(cache, store_id, now1) == Some(cache[store_id].sock),
{
}

/// A successful refresh never rewinds the stored timestamp: the new
/// entry carries the instant of the refresh, which is no earlier than
/// the previous entry's timestamp when the clock has not gone backwards.
pub proof fn lemma_refresh_timestamp_monotonic(
    cache: Map<u64, StoreAddr>,
    store_id: u64,
    sock: Endpoint,
    now: u64,
)
    requires
        cache.contains_key(store_id) ==> cache[store_id].last_update <= now,
    ensures
        cache.insert(store_id, (StoreAddr { sock, last_update: now }))[store_id].last_update
            == now,
        cache.contains_key(store_id) ==> cache.insert(
            store_id,
            (StoreAddr { sock, last_update: now }),
        )[store_id].last_update >= cache[store_id].last_update,
{
}

} // verus!
