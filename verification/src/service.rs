//! The RPC service facade over the host store.
//!
//! AddHost, GetHostInfo, ListHosts and MaintainHost, each a direct
//! operation on the store.  MaintainHost is the only externally triggered
//! health transition; it goes through the store's atomic conditional write
//! and is therefore race-safe without any application-level lock.

use vstd::prelude::*;

use crate::ids::{format_host_id, id_byte_seq, uuid_str_of};
use crate::states::{alloc_code, health_code, AllocationState, HealthState};
use crate::store::{
    cas_succeeds, cas_view, has_hostname, hostname_index, store_wf, Host, HostStore, StoreError,
};

verus! {

/// A host as the RPC surface reports it: the identifier in display form
/// and both states in their wire encoding.
#[derive(Debug, PartialEq, Eq)]
pub struct HostInfo {
    /// Display form of the store-assigned identifier.
    pub id: String,
    /// The unique, human-assigned hostname.
    pub hostname: String,
    /// Free-form descriptive text.
    pub info: String,
    /// Wire code of the allocation state.
    pub alloc_state: i32,
    /// Wire code of the health state.
    pub health_state: i32,
}

/// Whether the report `hi` faithfully renders the stored record `h`.
pub open spec fn describes(hi: HostInfo, h: Host) -> bool {
    &&& hi.id@ == uuid_str_of(id_byte_seq(h.id))
    &&& hi.hostname@ == h.hostname@
    &&& hi.info@ == h.info@
    &&& hi.alloc_state == alloc_code(h.alloc_state)
    &&& hi.health_state == health_code(h.health_state)
}

/// The typed failures the RPC surface reports; never a crash.
#[derive(Clone, Copy, PartialEq, Eq, Structural, Debug)]
pub enum ServiceError {
    /// AddHost: the hostname is already taken.
    AlreadyExists,
    /// GetHostInfo / MaintainHost: no record bears the hostname.
    NotFound,
    /// MaintainHost: the host exists but is not currently `Good`.
    FailedPrecondition,
}

/// The service handler: the RPC facade over the one shared store.
pub struct ComputeBrokerService {
    store: HostStore,
}

impl View for ComputeBrokerService {
    type V = Seq<Host>;

    closed spec fn view(&self) -> Seq<Host> {
        self.store@
    }
}

impl ComputeBrokerService {
    /// The service invariant: the store it fronts is well formed.
    pub open spec fn wf(&self) -> bool {
        store_wf(self@)
    }

    /// Wrap a store in the service facade.
    pub fn new(store: HostStore) -> (s: ComputeBrokerService)
        ensures
            s@ == store@,
    {
        ComputeBrokerService { store }
    }

    /// Borrow the underlying store, for the reconciliation engine, which
    /// shares it with the facade and interacts with it only through store
    /// state.
    pub fn store_mut(&mut self) -> (r: &mut HostStore)
        ensures
            (*r)@ == old(self)@,
            final(self)@ == (*final(r))@,
    {
        &mut self.store
    }

    /// The underlying store, read-only.
    pub fn borrow_store(&self) -> (r: &HostStore)
        ensures
            r@ == self@,
    {
        &self.store
    }

    /// AddHost: insert a new host, initialized `Good` and `Unallocated`,
    /// and return its identifier; `AlreadyExists` if and only if the
    /// hostname is taken, in which case the store is unchanged.
    pub fn add_host(&mut self, hostname: String, info: String) -> (r: Result<u64, ServiceError>)
        requires
            old(self).wf(),
            old(self)@.len() < u64::MAX,
        ensures
            final(self).wf(),
            r is Ok <==> !has_hostname(old(self)@, hostname@),
            r is Err ==> final(self)@ == old(self)@ && r == Err::<u64, ServiceError>(
                ServiceError::AlreadyExists,
            ),
            r matches Ok(id) ==> id == old(self)@.len() + 1 && final(self)@ == old(self)@.push(
                (Host {
                    id,
                    hostname,
                    info,
                    alloc_state: AllocationState::Unallocated,
                    health_state: HealthState::Good,
                }),
            ),
    {
        match self.store.insert(hostname, info) {
            Ok(id) => Ok(id),
            Err(StoreError::Conflict) => Err(ServiceError::AlreadyExists),
        }
    }

    /// GetHostInfo: report the record bearing `hostname`; `NotFound` if and
    /// only if there is none.  Reads never mutate the store.
    pub fn get_host_info(&self, hostname: &String) -> (r: Result<HostInfo, ServiceError>)
        requires
            self.wf(),
        ensures
            r is Ok <==> has_hostname(self@, hostname@),
            r is Err ==> r == Err::<HostInfo, ServiceError>(ServiceError::NotFound),
            r matches Ok(hi) ==> describes(hi, self@[hostname_index(self@, hostname@)]),
    {
        match self.store.get(hostname) {
            Some(h) => {
                proof {
                    let i = hostname_index(self@, hostname@);
                    assert(0 <= i < self@.len() && self@[i].hostname@ == hostname@);
                }
                Ok(
                    HostInfo {
                        id: format_host_id(h.id),
                        hostname: h.hostname.clone(),
                        info: h.info.clone(),
                        alloc_state: h.alloc_state.to_code(),
                        health_state: h.health_state.to_code(),
                    },
                )
            },
            None => Err(ServiceError::NotFound),
        }
    }

    /// ListHosts: a snapshot scan reporting every host, in store order.
    pub fn list_hosts(&self) -> (r: Vec<HostInfo>)
        requires
            self.wf(),
        ensures
            r@.len() == self@.len(),
            forall|i: int| 0 <= i < self@.len() ==> describes(#[trigger] r@[i], self@[i]),
    {
        let hosts = self.store.list();
        let mut r: Vec<HostInfo> = Vec::new();
        let mut i: usize = 0;
        while i < hosts.len()
            invariant
                i <= hosts@.len(),
                hosts@ == self@,
                self.wf(),
                r@.len() == i,
                forall|j: int| 0 <= j < i ==> describes(#[trigger] r@[j], self@[j]),
            decreases hosts@.len() - i,
        {
            let h = &hosts[i];
            r.push(
                HostInfo {
                    id: format_host_id(h.id),
                    hostname: h.hostname.clone(),
                    info: h.info.clone(),
                    alloc_state: h.alloc_state.to_code(),
                    health_state: h.health_state.to_code(),
                },
            );
            i = i + 1;
        }
        r
    }

    /// MaintainHost: flag a `Good` host for maintenance through the atomic
    /// conditional write.  `NotFound` if and only if the hostname is
    /// unknown; `FailedPrecondition` if and only if the host exists but is
    /// not `Good` (already flagged or under maintenance).  On any failure
    /// the store is unchanged.
    pub fn maintain_host(&mut self, hostname: &String) -> (r: Result<(), ServiceError>)
        requires
            old(self).wf(),
        ensures
            final(self).wf(),
            r is Ok <==> cas_succeeds(old(self)@, hostname@, HealthState::Good),
            r == Err::<(), ServiceError>(ServiceError::NotFound) <==> !has_hostname(
                old(self)@,
                hostname@,
            ),
            r == Err::<(), ServiceError>(ServiceError::FailedPrecondition) <==> has_hostname(
                old(self)@,
                hostname@,
            ) && old(self)@[hostname_index(old(self)@, hostname@)].health_state
                != HealthState::Good,
            r is Err ==> final(self)@ == old(self)@,
            final(self)@ == cas_view(
                old(self)@,
                hostname@,
                HealthState::Good,
                HealthState::NeedsMaintenance,
            ),
    {
        let known = self.store.get(hostname).is_some();
        if !known {
            return Err(ServiceError::NotFound);
        }
        if self.store.compare_and_set_health(
            hostname,
            HealthState::Good,
            HealthState::NeedsMaintenance,
        ) {
            Ok(())
        } else {
            Err(ServiceError::FailedPrecondition)
        }
    }
}

} // verus!
