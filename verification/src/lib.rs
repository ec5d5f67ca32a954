//! Resolves cluster store ids to network endpoints through a coordinator
//! client, with a sixty-second freshness cache in front of the lookup.

pub mod addr;
pub mod cache;
pub mod errors;
pub mod metadata;
pub mod resolver;
