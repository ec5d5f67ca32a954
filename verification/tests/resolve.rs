use std::cell::Cell;

use store_resolver::addr::Endpoint;
use store_resolver::errors::ResolveError;
use store_resolver::metadata::{vet_store, Store, StoreState};
use store_resolver::resolver::{PdClient, Runner};

const STORE_ADDR: &str = "127.0.0.1:12345";

/// A coordinator double. With `bump_port` set, the returned address gets
/// a new port on every fetch, so a genuine refresh is observable.
struct MockPdClient {
    calls: Cell<u64>,
    store: Store,
    bump_port: bool,
}

impl PdClient for MockPdClient {
    fn get_store(&self, _store_id: u64) -> Result<Store, String> {
        let n: u64 = self.calls.get() + 1;
        self.calls.set(n);
        let mut store = self.store.clone();
        if self.bump_port {
            store.address = format!("127.0.0.1:{}", 12345 + n);
        }
        Ok(store)
    }
}

/// A coordinator double whose calls always fail at the transport level.
struct FailingPdClient {
    calls: Cell<u64>,
}

impl PdClient for FailingPdClient {
    fn get_store(&self, _store_id: u64) -> Result<Store, String> {
        self.calls.set(self.calls.get() + 1);
        Err(String::from("connection refused"))
    }
}

fn new_store(addr: &str, state: StoreState) -> Store {
    Store {
        id: 1,
        state,
        address: String::from(addr),
    }
}

fn new_runner(store: Store) -> Runner<MockPdClient> {
    let client = MockPdClient {
        calls: Cell::new(0),
        store,
        bump_port: true,
    };
    Runner::new(client)
}

fn new_static_runner(store: Store) -> Runner<MockPdClient> {
    let client = MockPdClient {
        calls: Cell::new(0),
        store,
        bump_port: false,
    };
    Runner::new(client)
}

#[test]
fn test_resolve_store_state_up() {
    let store = new_store(STORE_ADDR, StoreState::Up);
    let mut runner = new_runner(store);
    assert!(runner.get_address(0).is_ok());
}

#[test]
fn test_resolve_store_state_offline() {
    let store = new_store(STORE_ADDR, StoreState::Offline);
    let mut runner = new_runner(store);
    assert!(runner.get_address(0).is_ok());
}

#[test]
fn test_resolve_store_state_tombstone() {
    let store = new_store(STORE_ADDR, StoreState::Tombstone);
    let mut runner = new_runner(store);
    assert!(runner.get_address(0).is_err());
}

#[test]
fn test_store_address_refresh() {
    let store = new_store(STORE_ADDR, StoreState::Up);
    let store_id = store.id;
    let mut runner = new_runner(store);

    let sock = runner.resolve(store_id, 0).unwrap();
    let port = sock.port;

    // Age the entry past the window, and the address is refreshed.
    let sock = runner.resolve(store_id, 61).unwrap();
    assert!(sock.port > port);
    let port = sock.port;

    // Remove the entry, and the address is refreshed.
    runner.invalidate(store_id);
    let sock = runner.resolve(store_id, 61).unwrap();
    assert!(sock.port > port);
    let port = sock.port;

    // Otherwise, the address is not refreshed.
    let sock = runner.resolve(store_id, 61).unwrap();
    assert_eq!(sock.port, port);
}

#[test]
fn resolve_up_store_returns_endpoint() {
    let mut runner = new_static_runner(new_store(STORE_ADDR, StoreState::Up));
    let sock = runner.resolve(1, 0).unwrap();
    assert_eq!(
        sock,
        Endpoint {
            ip0: 127,
            ip1: 0,
            ip2: 0,
            ip3: 1,
            port: 12345,
        }
    );
    assert_eq!(runner.pd_client.calls.get(), 1);
}

#[test]
fn resolve_tombstone_fails_and_counts() {
    let mut runner = new_runner(new_store(STORE_ADDR, StoreState::Tombstone));
    assert_eq!(runner.tombstone_count, 0);
    let r = runner.resolve(1, 0);
    assert_eq!(r, Err(ResolveError::StoreTombstone(1)));
    assert_eq!(runner.tombstone_count, 1);
    // No entry was created for the tombstoned store.
    assert!(runner.store_addrs.get(1).is_none());
    // A second attempt consults the coordinator again and counts again.
    let r = runner.resolve(1, 0);
    assert_eq!(r, Err(ResolveError::StoreTombstone(1)));
    assert_eq!(runner.tombstone_count, 2);
    assert_eq!(runner.pd_client.calls.get(), 2);
    assert!(runner.store_addrs.get(1).is_none());
}

#[test]
fn stale_entry_is_refreshed() {
    let mut runner = new_runner(new_store(STORE_ADDR, StoreState::Up));
    let first = runner.resolve(1, 0).unwrap();
    assert_eq!(runner.store_addrs.get(1).unwrap().last_update, 0);
    // Exactly at the window boundary the entry counts as stale.
    let second = runner.resolve(1, 60).unwrap();
    assert_eq!(runner.pd_client.calls.get(), 2);
    assert_ne!(second.port, first.port);
    // The refreshed entry carries the later instant.
    let entry = runner.store_addrs.get(1).unwrap();
    assert_eq!(entry.last_update, 60);
    assert_eq!(entry.sock, second);
}

#[test]
fn removed_entry_is_refreshed() {
    let mut runner = new_runner(new_store(STORE_ADDR, StoreState::Up));
    let first = runner.resolve(1, 0).unwrap();
    runner.invalidate(1);
    // Still well within the freshness window, yet the entry is gone, so
    // the coordinator is consulted again.
    let second = runner.resolve(1, 1).unwrap();
    assert_eq!(runner.pd_client.calls.get(), 2);
    assert_ne!(second.port, first.port);
}

#[test]
fn fresh_entry_answers_without_coordinator() {
    let mut runner = new_runner(new_store(STORE_ADDR, StoreState::Up));
    let first = runner.resolve(1, 0).unwrap();
    let second = runner.resolve(1, 0).unwrap();
    assert_eq!(first, second);
    // One coordinator call across both lookups: the second was served
    // from the cache.
    assert_eq!(runner.pd_client.calls.get(), 1);
    // The stored timestamp is untouched by the cached lookup.
    assert_eq!(runner.store_addrs.get(1).unwrap().last_update, 0);
    // Still fresh at the last instant before the boundary.
    let third = runner.resolve(1, 59).unwrap();
    assert_eq!(third, first);
    assert_eq!(runner.pd_client.calls.get(), 1);
}

#[test]
fn empty_address_fails_and_is_not_cached() {
    let mut runner = new_static_runner(new_store("", StoreState::Up));
    let r = runner.resolve(1, 0);
    assert_eq!(r, Err(ResolveError::EmptyAddress(1)));
    assert!(runner.store_addrs.get(1).is_none());
}

#[test]
fn transport_failure_is_passed_on() {
    let mut runner = Runner::new(FailingPdClient {
        calls: Cell::new(0),
    });
    let r = runner.resolve(1, 0);
    assert_eq!(
        r,
        Err(ResolveError::Transport(String::from("connection refused")))
    );
    assert!(runner.store_addrs.get(1).is_none());
    assert_eq!(runner.tombstone_count, 0);
}

#[test]
fn unparsable_address_fails_and_is_not_cached() {
    let mut runner = new_static_runner(new_store("not-an-address", StoreState::Up));
    let r = runner.resolve(1, 0);
    assert_eq!(
        r,
        Err(ResolveError::BadAddress(String::from("not-an-address")))
    );
    assert!(runner.store_addrs.get(1).is_none());
}

#[test]
fn vet_store_accepts_reachable_states() {
    let store = new_store(STORE_ADDR, StoreState::Up);
    assert_eq!(vet_store(&store, 7), Ok(String::from(STORE_ADDR)));
    let store = new_store(STORE_ADDR, StoreState::Offline);
    assert_eq!(vet_store(&store, 7), Ok(String::from(STORE_ADDR)));
}

#[test]
fn vet_store_rejects_tombstone() {
    let store = new_store(STORE_ADDR, StoreState::Tombstone);
    assert_eq!(vet_store(&store, 7), Err(ResolveError::StoreTombstone(7)));
}

#[test]
fn vet_store_rejects_empty_address() {
    let store = new_store("", StoreState::Up);
    assert_eq!(vet_store(&store, 7), Err(ResolveError::EmptyAddress(7)));
}
