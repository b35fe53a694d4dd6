//! Tests of the RPC service facade: AddHost, GetHostInfo, ListHosts and
//! MaintainHost against the store.

use compute_broker::service::{ComputeBrokerService, HostInfo, ServiceError};
use compute_broker::store::HostStore;

fn service() -> ComputeBrokerService {
    ComputeBrokerService::new(HostStore::new())
}

#[test]
fn add_host_returns_sequential_ids() {
    let mut svc = service();
    let id1 = svc.add_host("a.example.com".to_owned(), "x".to_owned());
    let id2 = svc.add_host("b.example.com".to_owned(), "y".to_owned());
    assert_eq!(id1, Ok(1));
    assert_eq!(id2, Ok(2));
}

#[test]
fn duplicate_hostname_yields_already_exists_and_leaves_store_unchanged() {
    let mut svc = service();
    assert!(svc.add_host("a.example.com".to_owned(), "x".to_owned()).is_ok());
    let dup = svc.add_host("a.example.com".to_owned(), "other".to_owned());
    assert_eq!(dup, Err(ServiceError::AlreadyExists));
    let all = svc.list_hosts();
    assert_eq!(all.len(), 1);
    assert_eq!(all[0].info, "x");
    assert_eq!(all[0].health_state, 0);
}

#[test]
fn hostnames_of_listed_hosts_are_pairwise_distinct() {
    let mut svc = service();
    let names = ["a.example.com", "b.example.com", "c.example.com"];
    for n in names {
        assert!(svc.add_host(n.to_owned(), String::new()).is_ok());
    }
    assert_eq!(svc.add_host("b.example.com".to_owned(), String::new()), Err(ServiceError::AlreadyExists));
    let all = svc.list_hosts();
    assert_eq!(all.len(), 3);
    for i in 0..all.len() {
        for j in 0..all.len() {
            if i != j {
                assert_ne!(all[i].hostname, all[j].hostname);
            }
        }
    }
}

#[test]
fn get_host_info_reports_the_stored_record() {
    let mut svc = service();
    svc.add_host("a.example.com".to_owned(), "rack 7".to_owned()).unwrap();
    let hi = svc.get_host_info(&"a.example.com".to_owned()).unwrap();
    assert_eq!(hi.hostname, "a.example.com");
    assert_eq!(hi.info, "rack 7");
    assert_eq!(hi.alloc_state, 0);
    assert_eq!(hi.health_state, 0);
    assert_eq!(hi.id, "00000000-0000-0000-0000-000000000001");
}

#[test]
fn host_id_renders_as_hyphenated_uuid_of_the_id_bytes() {
    let mut svc = service();
    svc.add_host("a.example.com".to_owned(), String::new()).unwrap();
    svc.add_host("b.example.com".to_owned(), String::new()).unwrap();
    let hi = svc.get_host_info(&"b.example.com".to_owned()).unwrap();
    assert_eq!(hi.id, "00000000-0000-0000-0000-000000000002");
    let mut bytes = [0u8; 16];
    bytes[15] = 2;
    let expected = uuid::Uuid::from_slice(&bytes).unwrap().to_string();
    assert_eq!(hi.id, expected);
}

#[test]
fn format_host_id_matches_the_uuid_crate() {
    let id: u64 = 0x0123_4567_89ab_cdef;
    let mut bytes = [0u8; 16];
    bytes[8..].copy_from_slice(&id.to_be_bytes());
    let expected = uuid::Uuid::from_slice(&bytes).unwrap().to_string();
    assert_eq!(compute_broker::ids::format_host_id(id), expected);
    assert_eq!(expected, "00000000-0000-0000-0123-456789abcdef");
}

#[test]
fn unknown_host_yields_not_found_without_mutating_the_store() {
    let mut svc = service();
    svc.add_host("a.example.com".to_owned(), "x".to_owned()).unwrap();
    let missing = "missing.example.com".to_owned();
    assert_eq!(svc.get_host_info(&missing), Err(ServiceError::NotFound));
    assert_eq!(svc.maintain_host(&missing), Err(ServiceError::NotFound));
    let all = svc.list_hosts();
    assert_eq!(all.len(), 1);
    assert_eq!(all[0].hostname, "a.example.com");
    assert_eq!(all[0].health_state, 0);
}

#[test]
fn maintain_host_flags_a_good_host() {
    let mut svc = service();
    svc.add_host("a.example.com".to_owned(), String::new()).unwrap();
    assert_eq!(svc.maintain_host(&"a.example.com".to_owned()), Ok(()));
    let hi = svc.get_host_info(&"a.example.com".to_owned()).unwrap();
    assert_eq!(hi.health_state, 1);
}

#[test]
fn maintain_host_on_flagged_or_in_maintenance_host_fails_precondition() {
    let mut svc = service();
    let a = "a.example.com".to_owned();
    svc.add_host(a.clone(), String::new()).unwrap();
    svc.maintain_host(&a).unwrap();
    let again = svc.maintain_host(&a);
    assert_eq!(again, Err(ServiceError::FailedPrecondition));
    assert_eq!(svc.get_host_info(&a).unwrap().health_state, 1);
    let claimed = compute_broker::maintainer::poll_tick(svc.store_mut());
    assert_eq!(claimed, vec![a.clone()]);
    let while_in_maintenance = svc.maintain_host(&a);
    assert_eq!(while_in_maintenance, Err(ServiceError::FailedPrecondition));
    assert_eq!(svc.get_host_info(&a).unwrap().health_state, 2);
}

#[test]
fn list_hosts_returns_every_host_in_insertion_order() {
    let mut svc = service();
    svc.add_host("a.example.com".to_owned(), "first".to_owned()).unwrap();
    assert_eq!(svc.list_hosts().len(), 1);
    svc.add_host("b.example.com".to_owned(), "second".to_owned()).unwrap();
    let all = svc.list_hosts();
    assert_eq!(all.len(), 2);
    assert_eq!(all[0].hostname, "a.example.com");
    assert_eq!(all[1].hostname, "b.example.com");
    let expected = HostInfo {
        id: "00000000-0000-0000-0000-000000000002".to_owned(),
        hostname: "b.example.com".to_owned(),
        info: "second".to_owned(),
        alloc_state: 0,
        health_state: 0,
    };
    assert_eq!(all[1], expected);
}
