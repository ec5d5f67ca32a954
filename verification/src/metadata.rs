use vstd::prelude::*;

use crate::errors::ResolveError;

verus! {

/// Lifecycle state of a store, as the coordinator reports it.
#[derive(Debug, Clone, Copy, PartialEq, Eq, Structural)]
pub enum StoreState {
    /// The store is serving.
    Up,
    /// The store is going away but still addressable.
    Offline,
    /// The store has been permanently decommissioned.
    Tombstone,
}

/// Node metadata for one store: what the coordinator knows about it.
///
/// The resolver reads only the lifecycle state and the address string;
/// it never caches the metadata itself, only the endpoint derived from it.
#[derive(Debug, Clone)]
pub struct Store {
    pub id: u64,
    pub state: StoreState,
    pub address: String,
}

/// What vetting a store's metadata yields: the address string to parse,
/// or the failure the metadata forces.
pub open spec fn vet_store_spec(store: Store, store_id: u64) -> Result<Seq<char>, ResolveError> {
    if store.state == StoreState::Tombstone {
        Err(ResolveError::StoreTombstone(store_id))
    } else if store.address@.len() == 0 {
        Err(ResolveError::EmptyAddress(store_id))
    } else {
        Ok(store.address@)
    }
}

/// Checks a store's metadata before its address may be used: a tombstoned
/// store is rejected outright, and an empty address string (a bootstrap
/// state some deployments go through) is rejected as well. Otherwise the
/// address string is handed back for parsing.
pub fn vet_store(store: &Store, store_id: u64) -> (r: Result<String, ResolveError>)
    ensures
        (match r {
            Ok(a) => vet_store_spec(*store, store_id) == Ok::<Seq<char>, ResolveError>(a@),
            Err(e) => vet_store_spec(*store, store_id) == Err::<Seq<char>, ResolveError>(e),
        }),
{
    if store.state == StoreState::Tombstone {
        return Err(ResolveError::StoreTombstone(store_id));
    }
    let addr = store.address.clone();
    if addr.as_str().unicode_len() == 0 {
        return Err(ResolveError::EmptyAddress(store_id));
    }
    Ok(addr)
}

/// A tombstoned store never vets, whatever its address says: its metadata
/// always yields the tombstone failure, so no cache entry can arise from it.
pub proof fn lemma_tombstone_never_vets(store: Store, store_id: u64)
    requires
        store.state == StoreState::Tombstone,
    ensures
        vet_store_spec(store, store_id) == Err::<Seq<char>, ResolveError>(
            ResolveError::StoreTombstone(store_id),
        ),
{
}

/// A store with an empty address string never vets: its metadata always
/// yields a failure, so no cache entry can arise from it.
pub proof fn lemma_empty_address_never_vets(store: Store, store_id: u64)
    requires
        store.address@.len() == 0,
    ensures
        vet_store_spec(store, store_id) is Err,
{
}

} // verus!
