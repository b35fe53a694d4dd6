//! The host store: the single source of truth for the host population.
//!
//! It supports point lookups, full scans, scans filtered by health state,
//! insertion with a uniqueness check on the hostname, and the atomic
//! compare-and-set health transition that the whole concurrency story rests
//! on: a transition is applied only if the stored health state equals the
//! expected one, with no window in which two callers can both observe a
//! match and both commit.

use vstd::prelude::*;

use crate::states::{health_edge, AllocationState, HealthState};

verus! {

/// A tracked compute host record, the only entity of the store.
pub struct Host {
    /// Store-assigned identifier: the insertion rank plus one; immutable.
    pub id: u64,
    /// Unique, human-assigned identifier; immutable; the external key for
    /// every lookup.
    pub hostname: String,
    /// Free-form descriptive text; not read by the reconciliation engine.
    pub info: String,
    /// Allocation state; orthogonal to health, never mutated here.
    pub alloc_state: AllocationState,
    /// Health state; owned and driven by the reconciliation engine.
    pub health_state: HealthState,
}

/// Whether some record of the population `v` bears the hostname `name`.
pub open spec fn has_hostname(v: Seq<Host>, name: Seq<char>) -> bool {
    exists|i: int| 0 <= i < v.len() && v[i].hostname@ == name
}

/// The index of the record bearing `name`; under `store_wf` it is unique.
pub open spec fn hostname_index(v: Seq<Host>, name: Seq<char>) -> int {
    choose|i: int| 0 <= i < v.len() && v[i].hostname@ == name
}

/// Well-formedness of the stored population: ids record the insertion
/// order, hostnames are unique, and no record holds the defensive
/// `Invalid` fallback of either state machine.
pub open spec fn store_wf(v: Seq<Host>) -> bool {
    &&& forall|i: int| 0 <= i < v.len() ==> (#[trigger] v[i]).id == i + 1
    &&& forall|i: int, j: int|
        0 <= i < v.len() && 0 <= j < v.len() && i != j ==> v[i].hostname@ != v[j].hostname@
    &&& forall|i: int| 0 <= i < v.len() ==> (#[trigger] v[i]).health_state != HealthState::Invalid
    &&& forall|i: int| 0 <= i < v.len() ==> (#[trigger] v[i]).alloc_state != AllocationState::Invalid
}

/// `h` with its health state replaced by `s`.
pub open spec fn with_health(h: Host, s: HealthState) -> Host {
    Host { health_state: s, ..h }
}

/// Whether a compare-and-set expecting `source` on the record named `name`
/// takes effect on the population `v`.
pub open spec fn cas_succeeds(v: Seq<Host>, name: Seq<char>, source: HealthState) -> bool {
    has_hostname(v, name) && v[hostname_index(v, name)].health_state == source
}

/// The population after a compare-and-set of the record named `name` from
/// `source` to `target`: one record moved if the expected state matched,
/// otherwise unchanged.
pub open spec fn cas_view(
    v: Seq<Host>,
    name: Seq<char>,
    source: HealthState,
    target: HealthState,
) -> Seq<Host> {
    if cas_succeeds(v, name, source) {
        v.update(hostname_index(v, name), with_health(v[hostname_index(v, name)], target))
    } else {
        v
    }
}

/// The hostnames of the records of `v` in state `state`, in store order.
pub open spec fn names_in_state(v: Seq<Host>, state: HealthState) -> Seq<Seq<char>>
    decreases v.len(),
{
    if v.len() == 0 {
        Seq::empty()
    } else if v.last().health_state == state {
        names_in_state(v.drop_last(), state).push(v.last().hostname@)
    } else {
        names_in_state(v.drop_last(), state)
    }
}

/// No name occurs twice in `s`.
pub open spec fn distinct_seq(s: Seq<Seq<char>>) -> bool {
    forall|p: int, q: int| 0 <= p < q < s.len() ==> s[p] != s[q]
}

/// Under `store_wf`, any index bearing `name` is the index `hostname_index`
/// picks: the record named `name` is unique.
pub proof fn lemma_hostname_index_is(v: Seq<Host>, name: Seq<char>, i: int)
    requires
        store_wf(v),
        0 <= i < v.len(),
        v[i].hostname@ == name,
    ensures
        has_hostname(v, name),
        hostname_index(v, name) == i,
{
    assert(has_hostname(v, name));
    let j = hostname_index(v, name);
    assert(0 <= j < v.len() && v[j].hostname@ == name);
    if i != j {
        assert(v[i].hostname@ != v[j].hostname@);
    }
}

/// Uniqueness: distinct records never share a hostname.
pub proof fn lemma_hostnames_unique(v: Seq<Host>, i: int, j: int)
    requires
        store_wf(v),
        0 <= i < v.len(),
        0 <= j < v.len(),
        i != j,
    ensures
        v[i].hostname@ != v[j].hostname@,
{
}

/// Completeness of the filtered scan: the hostname of every record in
/// `state` is listed.
pub proof fn lemma_names_in_state_complete(v: Seq<Host>, state: HealthState, i: int)
    requires
        0 <= i < v.len(),
        v[i].health_state == state,
    ensures
        names_in_state(v, state).contains(v[i].hostname@),
    decreases v.len(),
{
    let names = names_in_state(v, state);
    if i == v.len() - 1 {
        assert(v.last() == v[i]);
        assert(names.last() == v[i].hostname@);
    } else {
        assert(v.drop_last()[i] == v[i]);
        lemma_names_in_state_complete(v.drop_last(), state, i);
        let rest = names_in_state(v.drop_last(), state);
        let k = choose|k: int| 0 <= k < rest.len() && rest[k] == v[i].hostname@;
        assert(names[k] == v[i].hostname@);
    }
}

/// Soundness of the filtered scan: every listed hostname belongs to a
/// record in `state`.
pub proof fn lemma_names_in_state_sound(v: Seq<Host>, state: HealthState, name: Seq<char>)
    requires
        names_in_state(v, state).contains(name),
    ensures
        exists|i: int|
            0 <= i < v.len() && v[i].health_state == state && (#[trigger] v[i]).hostname@ == name,
    decreases v.len(),
{
    let names = names_in_state(v, state);
    if v.len() == 0 {
    } else {
        let rest = names_in_state(v.drop_last(), state);
        if v.last().health_state == state && v.last().hostname@ == name {
            assert(v[v.len() - 1].health_state == state && v[v.len() - 1].hostname@ == name);
        } else {
            let k = choose|k: int| 0 <= k < names.len() && names[k] == name;
            if v.last().health_state == state {
                assert(names[k] == name && k < rest.len());
            }
            assert(rest[k] == name);
            lemma_names_in_state_sound(v.drop_last(), state, name);
            let i = choose|i: int|
                0 <= i < v.drop_last().len() && v.drop_last()[i].health_state == state && (
                #[trigger] v.drop_last()[i]).hostname@ == name;
            assert(v[i] == v.drop_last()[i]);
            assert(v[i].health_state == state && v[i].hostname@ == name);
        }
    }
}

/// Dropping the last record keeps the population well formed.
pub proof fn lemma_store_wf_drop_last(v: Seq<Host>)
    requires
        store_wf(v),
        v.len() > 0,
    ensures
        store_wf(v.drop_last()),
{
    assert forall|i: int| 0 <= i < v.drop_last().len() implies (#[trigger] v.drop_last()[i]).id == i
        + 1 by {
        assert(v.drop_last()[i] == v[i]);
    }
    assert forall|i: int| 0 <= i < v.drop_last().len() implies (#[trigger] v.drop_last()[i]).health_state
        != HealthState::Invalid by {
        assert(v.drop_last()[i] == v[i]);
    }
    assert forall|i: int| 0 <= i < v.drop_last().len() implies (#[trigger] v.drop_last()[i]).alloc_state
        != AllocationState::Invalid by {
        assert(v.drop_last()[i] == v[i]);
    }
}

/// Under hostname uniqueness the filtered scan lists no name twice: a host
/// eligible for maintenance is handed out at most once per scan.
pub proof fn lemma_names_in_state_distinct(v: Seq<Host>, state: HealthState)
    requires
        store_wf(v),
    ensures
        distinct_seq(names_in_state(v, state)),
    decreases v.len(),
{
    let names = names_in_state(v, state);
    if v.len() == 0 {
    } else {
        lemma_store_wf_drop_last(v);
        lemma_names_in_state_distinct(v.drop_last(), state);
        let rest = names_in_state(v.drop_last(), state);
        if v.last().health_state == state {
            if rest.contains(v.last().hostname@) {
                lemma_names_in_state_sound(v.drop_last(), state, v.last().hostname@);
                let i = choose|i: int|
                    0 <= i < v.drop_last().len() && v.drop_last()[i].health_state == state && (
                    #[trigger] v.drop_last()[i]).hostname@ == v.last().hostname@;
                assert(v[i] == v.drop_last()[i]);
                assert(v[i].hostname@ != v[v.len() - 1].hostname@);
                assert(false);
            }
            assert forall|p: int, q: int| 0 <= p < q < names.len() implies names[p] != names[q] by {
                if q < rest.len() {
                    assert(names[p] == rest[p] && names[q] == rest[q]);
                } else {
                    assert(names[q] == v.last().hostname@);
                    assert(names[p] == rest[p]);
                    assert(rest.contains(rest[p]));
                }
            }
        }
    }
}

/// At-most-one-claim: claim attempts on the same host serialize through the
/// store's atomic conditional write.  Starting from `NeedsMaintenance`, the
/// attempt that lands first succeeds and moves the host to `InMaintenance`;
/// any attempt after it fails and changes nothing, so the host enters
/// `InMaintenance` exactly once.
pub proof fn lemma_at_most_one_claim(v: Seq<Host>, name: Seq<char>)
    requires
        store_wf(v),
        cas_succeeds(v, name, HealthState::NeedsMaintenance),
    ensures
        ({
            let once = cas_view(v, name, HealthState::NeedsMaintenance, HealthState::InMaintenance);
            &&& once[hostname_index(v, name)].health_state == HealthState::InMaintenance
            &&& !cas_succeeds(once, name, HealthState::NeedsMaintenance)
            &&& cas_view(once, name, HealthState::NeedsMaintenance, HealthState::InMaintenance)
                == once
        }),
{
    let i = hostname_index(v, name);
    assert(0 <= i < v.len() && v[i].hostname@ == name);
    let once = cas_view(v, name, HealthState::NeedsMaintenance, HealthState::InMaintenance);
    assert(once[i].health_state == HealthState::InMaintenance);
    assert forall|p: int, q: int|
        0 <= p < once.len() && 0 <= q < once.len() && p != q implies once[p].hostname@
        != once[q].hostname@ by {
        assert(once[p].hostname@ == v[p].hostname@);
        assert(once[q].hostname@ == v[q].hostname@);
    }
    assert(store_wf(once));
    lemma_hostname_index_is(once, name, i);
    assert(!cas_succeeds(once, name, HealthState::NeedsMaintenance));
}

/// The error cases of the store operations.
#[derive(Clone, Copy, PartialEq, Eq, Structural, Debug)]
pub enum StoreError {
    /// The hostname is already taken by another record.
    Conflict,
}

/// The in-memory reference store holding the host population.
pub struct HostStore {
    hosts: Vec<Host>,
}

impl View for HostStore {
    type V = Seq<Host>;

    closed spec fn view(&self) -> Seq<Host> {
        self.hosts@
    }
}

impl HostStore {
    /// The store invariant; established empty and preserved by every
    /// operation.
    pub open spec fn wf(&self) -> bool {
        store_wf(self@)
    }

    /// An empty store.
    pub fn new() -> (s: HostStore)
        ensures
            s.wf(),
            s@ == Seq::<Host>::empty(),
    {
        HostStore { hosts: Vec::new() }
    }

    /// The index of the record bearing `hostname`, if any.
    fn find_index(&self, hostname: &String) -> (r: Option<usize>)
        ensures
            r is Some <==> has_hostname(self@, hostname@),
            r matches Some(i) ==> i < self@.len() && self@[i as int].hostname@ == hostname@,
    {
        let mut i: usize = 0;
        while i < self.hosts.len()
            invariant
                i <= self@.len(),
                forall|j: int| 0 <= j < i ==> self@[j].hostname@ != hostname@,
            decreases self@.len() - i,
        {
            let h = &self.hosts[i];
            if h.hostname == *hostname {
                return Some(i);
            }
            i = i + 1;
        }
        None
    }

    /// Point lookup by hostname.
    pub fn get(&self, hostname: &String) -> (r: Option<&Host>)
        requires
            self.wf(),
        ensures
            r is Some <==> has_hostname(self@, hostname@),
            r matches Some(h) ==> *h == self@[hostname_index(self@, hostname@)],
    {
        match self.find_index(hostname) {
            Some(i) => {
                proof {
                    lemma_hostname_index_is(self@, hostname@, i as int);
                }
                Some(&self.hosts[i])
            },
            None => None,
        }
    }

    /// All hostnames whose record is in `state`, in store order: the scan
    /// the reconciliation engine polls with.
    pub fn find_hosts_in_state(&self, state: HealthState) -> (r: Vec<String>)
        ensures
            r@.map_values(|s: String| s@) == names_in_state(self@, state),
    {
        let mut r: Vec<String> = Vec::new();
        let mut i: usize = 0;
        while i < self.hosts.len()
            invariant
                i <= self@.len(),
                r@.map_values(|s: String| s@) == names_in_state(self@.take(i as int), state),
            decreases self@.len() - i,
        {
            let ghost prev = r@;
            let h = &self.hosts[i];
            if h.health_state == state {
                r.push(h.hostname.clone());
            }
            proof {
                assert(self@.take(i as int + 1).drop_last() =~= self@.take(i as int));
                assert(self@.take(i as int + 1).last() == self@[i as int]);
                if self@[i as int].health_state == state {
                    assert(r@.map_values(|s: String| s@) =~= prev.map_values(|s: String| s@).push(
                        self@[i as int].hostname@,
                    ));
                } else {
                    assert(r@ == prev);
                }
            }
            i = i + 1;
        }
        proof {
            assert(self@.take(self@.len() as int) =~= self@);
        }
        r
    }

    /// A full snapshot scan of the population, in store order.
    pub fn list(&self) -> (r: Vec<Host>)
        ensures
            r@ == self@,
    {
        let mut r: Vec<Host> = Vec::new();
        let mut i: usize = 0;
        while i < self.hosts.len()
            invariant
                i <= self@.len(),
                r@ == self@.take(i as int),
            decreases self@.len() - i,
        {
            let h = &self.hosts[i];
            r.push(
                Host {
                    id: h.id,
                    hostname: h.hostname.clone(),
                    info: h.info.clone(),
                    alloc_state: h.alloc_state,
                    health_state: h.health_state,
                },
            );
            proof {
                assert(r@ =~= self@.take(i as int + 1));
            }
            i = i + 1;
        }
        proof {
            assert(self@.take(self@.len() as int) =~= self@);
        }
        r
    }

    /// Insert a new host with the given hostname and descriptive info,
    /// initialized `Good` and `Unallocated`; `Conflict` if and only if the
    /// hostname is already taken, in which case nothing changes.
    pub fn insert(&mut self, hostname: String, info: String) -> (r: Result<u64, StoreError>)
        requires
            old(self).wf(),
            old(self)@.len() < u64::MAX,
        ensures
            final(self).wf(),
            r is Ok <==> !has_hostname(old(self)@, hostname@),
            r is Err ==> final(self)@ == old(self)@ && r == Err::<u64, StoreError>(
                StoreError::Conflict,
            ),
            r matches Ok(id) ==> id == old(self)@.len() + 1 && final(self)@ == old(self)@.push(
                (Host {
                    id,
                    hostname,
                    info,
                    alloc_state: AllocationState::Unallocated,
                    health_state: HealthState::Good,
                }),
            ),
    {
        match self.find_index(&hostname) {
            Some(_) => Err(StoreError::Conflict),
            None => {
                let id = self.hosts.len() as u64 + 1;
                self.hosts.push(
                    Host {
                        id,
                        hostname,
                        info,
                        alloc_state: AllocationState::Unallocated,
                        health_state: HealthState::Good,
                    },
                );
                Ok(id)
            },
        }
    }

    /// The atomic conditional health transition: applied if and only if the
    /// stored health state of the record named `hostname` equals `source`.
    /// Every health mutation of the store goes through here, so every
    /// observed transition is an edge of the maintenance cycle.
    pub fn compare_and_set_health(
        &mut self,
        hostname: &String,
        source: HealthState,
        target: HealthState,
    ) -> (r: bool)
        requires
            old(self).wf(),
            health_edge(source, target),
        ensures
            final(self).wf(),
            r == cas_succeeds(old(self)@, hostname@, source),
            final(self)@ == cas_view(old(self)@, hostname@, source, target),
            forall|k: int|
                0 <= k < old(self)@.len() ==> (#[trigger] final(self)@[k]).health_state == old(
                    self,
                )@[k].health_state || health_edge(
                    old(self)@[k].health_state,
                    final(self)@[k].health_state,
                ),
    {
        match self.find_index(hostname) {
            Some(i) => {
                proof {
                    lemma_hostname_index_is(self@, hostname@, i as int);
                }
                if self.hosts[i].health_state == source {
                    let h = &mut self.hosts[i];
                    h.health_state = target;
                    true
                } else {
                    false
                }
            },
            None => false,
        }
    }
}

} // verus!
