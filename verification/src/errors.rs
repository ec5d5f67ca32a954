use vstd::prelude::*;

verus! {

/// Why a resolution attempt or a task submission failed.
///
/// No kind is retried inside the resolver; callers decide whether to try
/// again with a later lookup.
#[derive(Debug, Clone, PartialEq, Eq)]
pub enum ResolveError {
    /// The coordinator call itself failed; carries the transport message.
    Transport(String),
    /// The store has been removed from the cluster (tombstoned).
    StoreTombstone(u64),
    /// The coordinator returned an empty address string for the store.
    EmptyAddress(u64),
    /// The address string did not parse as an `ip:port` endpoint;
    /// carries the offending string.
    BadAddress(String),
    /// The task queue refused a new resolution task (worker unavailable).
    Submission,
}

} // verus!
