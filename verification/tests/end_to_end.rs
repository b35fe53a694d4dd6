//! The end-to-end maintenance scenario and the state encodings.

use compute_broker::maintainer::{maintain_host, poll_tick};
use compute_broker::service::ComputeBrokerService;
use compute_broker::states::{AllocationState, HealthState};
use compute_broker::store::HostStore;

#[test]
fn full_maintenance_cycle_observed_through_the_rpc_surface() {
    let mut svc = ComputeBrokerService::new(HostStore::new());
    let a = "a.example.com".to_owned();

    svc.add_host(a.clone(), "x".to_owned()).unwrap();
    let hi = svc.get_host_info(&a).unwrap();
    assert_eq!(hi.health_state, 0);
    let all = svc.list_hosts();
    assert_eq!(all.len(), 1);
    assert_eq!(all[0].hostname, "a.example.com");
    assert_eq!(all[0].health_state, 0);

    svc.maintain_host(&a).unwrap();
    assert_eq!(svc.get_host_info(&a).unwrap().health_state, 1);
    assert_eq!(svc.list_hosts()[0].health_state, 1);

    // The engine's next poll tick claims the host, the task completes.
    let claimed = poll_tick(svc.store_mut());
    assert_eq!(claimed, vec![a.clone()]);
    assert_eq!(svc.get_host_info(&a).unwrap().health_state, 2);
    assert_eq!(
        svc.borrow_store().get(&a).unwrap().health_state,
        HealthState::InMaintenance,
    );
    assert!(maintain_host(svc.store_mut(), &a));

    let hi = svc.get_host_info(&a).unwrap();
    assert_eq!(hi.health_state, 0);
    assert_eq!(hi.hostname, "a.example.com");
    assert_eq!(hi.info, "x");
    let all = svc.list_hosts();
    assert_eq!(all.len(), 1);
    assert_eq!(all[0].health_state, 0);
}

#[test]
fn health_state_codes_round_trip() {
    assert_eq!(HealthState::Good.to_code(), 0);
    assert_eq!(HealthState::NeedsMaintenance.to_code(), 1);
    assert_eq!(HealthState::InMaintenance.to_code(), 2);
    assert_eq!(HealthState::from_code(0), HealthState::Good);
    assert_eq!(HealthState::from_code(1), HealthState::NeedsMaintenance);
    assert_eq!(HealthState::from_code(2), HealthState::InMaintenance);
}

#[test]
fn out_of_range_health_codes_decode_to_invalid() {
    assert_eq!(HealthState::from_code(3), HealthState::Invalid);
    assert_eq!(HealthState::from_code(-1), HealthState::Invalid);
    assert_eq!(HealthState::from_code(i32::MAX), HealthState::Invalid);
}

#[test]
fn allocation_state_codes_round_trip() {
    assert_eq!(AllocationState::Unallocated.to_code(), 0);
    assert_eq!(AllocationState::Allocated.to_code(), 1);
    assert_eq!(AllocationState::from_code(0), AllocationState::Unallocated);
    assert_eq!(AllocationState::from_code(1), AllocationState::Allocated);
    assert_eq!(AllocationState::from_code(9), AllocationState::Invalid);
}

#[test]
fn new_hosts_start_good_and_unallocated() {
    let mut store = HostStore::new();
    store.insert("a.example.com".to_owned(), "x".to_owned()).unwrap();
    let h = store.get(&"a.example.com".to_owned()).unwrap();
    assert_eq!(h.health_state, HealthState::Good);
    assert_eq!(h.alloc_state, AllocationState::Unallocated);
    assert_eq!(h.id, 1);
    assert_eq!(h.hostname, "a.example.com");
    assert_eq!(h.info, "x");
}

#[test]
fn store_insert_reports_conflict_on_taken_hostname() {
    let mut store = HostStore::new();
    assert_eq!(store.insert("a.example.com".to_owned(), String::new()), Ok(1));
    assert_eq!(
        store.insert("a.example.com".to_owned(), String::new()),
        Err(compute_broker::store::StoreError::Conflict),
    );
    assert_eq!(store.insert("b.example.com".to_owned(), String::new()), Ok(2));
}

#[test]
fn get_on_empty_store_finds_nothing() {
    let store = HostStore::new();
    assert!(store.get(&"a.example.com".to_owned()).is_none());
    assert!(store.list().is_empty());
    assert!(store.find_hosts_in_state(HealthState::Good).is_empty());
}
