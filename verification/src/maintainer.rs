//! The reconciliation engine over the host store.
//!
//! A level-triggered controller: on startup it resumes every host left
//! `InMaintenance` by a prior shutdown; on each poll tick it claims every
//! host flagged `NeedsMaintenance` through the store's atomic conditional
//! write and hands the claimed hostnames out as maintenance work; task
//! completions and cancellation only steer the loop.  The loop itself —
//! timer, cancellation signal and task fan-out — runs outside the library
//! and feeds events to `reconcile_step`.

use vstd::prelude::*;

use crate::states::HealthState;
use crate::store::{
    cas_succeeds, cas_view, distinct_seq, lemma_hostname_index_is,
    lemma_names_in_state_complete, lemma_names_in_state_distinct, lemma_names_in_state_sound,
    names_in_state, store_wf, with_health, Host, HostStore,
};

verus! {

/// What the engine's loop observed: one arm of its three-way wait, or the
/// startup pass before the first tick.
pub enum EngineEvent {
    /// The process just started; recover hosts left mid-maintenance.
    Startup,
    /// The poll timer fired: scan for hosts needing maintenance.
    PollTick,
    /// A maintenance task finished for this hostname.
    TaskCompleted(String),
    /// The cooperative shutdown signal was delivered.
    Cancelled,
}

/// What the engine decides in response: launch maintenance tasks for these
/// hostnames, record a completion, or stop scheduling new work.
pub enum EngineAction {
    /// Launch one maintenance task per listed hostname.
    StartMaintenance(Vec<String>),
    /// A completion is purely observational; record it and free the slot.
    RecordCompletion(String),
    /// Stop scheduling new work and return; running tasks are not awaited,
    /// the next startup's recovery scan resumes whatever they leave behind.
    Stop,
}

/// Extending a prefix by one element adds exactly that element to what the
/// prefix contains.
proof fn lemma_take_push_contains(s: Seq<Seq<char>>, i: int, x: Seq<char>)
    requires
        0 <= i < s.len(),
    ensures
        s.take(i + 1).contains(x) <==> s.take(i).contains(x) || s[i] == x,
{
    assert(s.take(i + 1) =~= s.take(i).push(s[i]));
    if s.take(i + 1).contains(x) {
        let idx = choose|idx: int| 0 <= idx < s.take(i + 1).len() && #[trigger] s.take(i + 1)[idx]
            == x;
        if idx < i {
            assert(s.take(i)[idx] == x);
        } else {
            assert(s[i] == x);
        }
    }
    if s.take(i).contains(x) {
        let idx = choose|idx: int| 0 <= idx < s.take(i).len() && #[trigger] s.take(i)[idx] == x;
        assert(s.take(i + 1)[idx] == x);
    }
    if s[i] == x {
        assert(s.take(i + 1)[i] == x);
    }
}

/// One poll tick of the steady-state loop: list the hosts flagged
/// `NeedsMaintenance` and claim each through the atomic conditional write.
/// Every flagged host is claimed exactly once — the returned hostnames are
/// exactly the flagged ones, in scan order, each now `InMaintenance` — and
/// no other record changes in any way.
pub fn poll_tick(store: &mut HostStore) -> (claimed: Vec<String>)
    requires
        old(store).wf(),
    ensures
        final(store).wf(),
        final(store)@.len() == old(store)@.len(),
        claimed@.map_values(|s: String| s@) == names_in_state(
            old(store)@,
            HealthState::NeedsMaintenance,
        ),
        forall|k: int|
            0 <= k < old(store)@.len() ==> (#[trigger] final(store)@[k]) == with_health(
                old(store)@[k],
                if old(store)@[k].health_state == HealthState::NeedsMaintenance {
                    HealthState::InMaintenance
                } else {
                    old(store)@[k].health_state
                },
            ),
{
    let names = store.find_hosts_in_state(HealthState::NeedsMaintenance);
    let ghost v0 = store@;
    let ghost nseq = names@.map_values(|s: String| s@);
    proof {
        lemma_names_in_state_distinct(v0, HealthState::NeedsMaintenance);
    }
    let mut claimed: Vec<String> = Vec::new();
    let mut i: usize = 0;
    while i < names.len()
        invariant
            i <= names@.len(),
            store.wf(),
            store@.len() == v0.len(),
            store_wf(v0),
            nseq == names@.map_values(|s: String| s@),
            nseq == names_in_state(v0, HealthState::NeedsMaintenance),
            distinct_seq(nseq),
            claimed@.map_values(|s: String| s@) == nseq.take(i as int),
            forall|k: int|
                0 <= k < v0.len() ==> (#[trigger] store@[k]) == with_health(
                    v0[k],
                    if v0[k].health_state == HealthState::NeedsMaintenance && nseq.take(
                        i as int,
                    ).contains(v0[k].hostname@) {
                        HealthState::InMaintenance
                    } else {
                        v0[k].health_state
                    },
                ),
        decreases names@.len() - i,
    {
        let ghost vcur = store@;
        let ghost prev_claimed = claimed@;
        let name = &names[i];
        proof {
            assert(nseq[i as int] == name@);
            assert(nseq.contains(nseq[i as int]));
            lemma_names_in_state_sound(v0, HealthState::NeedsMaintenance, name@);
        }
        let ghost i0 = choose|j: int|
            0 <= j < v0.len() && v0[j].health_state == HealthState::NeedsMaintenance && (
            #[trigger] v0[j]).hostname@ == name@;
        proof {
            if nseq.take(i as int).contains(name@) {
                let p = choose|p: int|
                    0 <= p < nseq.take(i as int).len() && nseq.take(i as int)[p] == name@;
                assert(nseq[p] == nseq[i as int]);
                assert(false);
            }
            assert(vcur[i0] == with_health(v0[i0], v0[i0].health_state));
            assert(vcur[i0].health_state == HealthState::NeedsMaintenance);
            assert(vcur[i0].hostname@ == name@);
            lemma_hostname_index_is(vcur, name@, i0);
        }
        let ok = store.compare_and_set_health(
            name,
            HealthState::NeedsMaintenance,
            HealthState::InMaintenance,
        );
        if ok {
            claimed.push(name.clone());
        } else {
            proof {
                assert(false);
            }
        }
        proof {
            assert(store@ == vcur.update(i0, with_health(vcur[i0], HealthState::InMaintenance)));
            assert(claimed@.map_values(|s: String| s@) =~= nseq.take(i as int + 1));
            assert forall|k: int| 0 <= k < v0.len() implies (#[trigger] store@[k]) == with_health(
                v0[k],
                if v0[k].health_state == HealthState::NeedsMaintenance && nseq.take(
                    i as int + 1,
                ).contains(v0[k].hostname@) {
                    HealthState::InMaintenance
                } else {
                    v0[k].health_state
                },
            ) by {
                lemma_take_push_contains(nseq, i as int, v0[k].hostname@);
                if k == i0 {
                    assert(store@[k] == with_health(vcur[i0], HealthState::InMaintenance));
                    assert(nseq.take(i as int + 1).contains(v0[k].hostname@));
                } else {
                    assert(store@[k] == vcur[k]);
                    if v0[k].hostname@ == name@ {
                        assert(v0[k].hostname@ != v0[i0].hostname@);
                        assert(false);
                    }
                }
            }
        }
        i = i + 1;
    }
    proof {
        assert(nseq.take(names@.len() as int) =~= nseq);
        assert forall|k: int| 0 <= k < v0.len() implies (#[trigger] store@[k]) == with_health(
            v0[k],
            if v0[k].health_state == HealthState::NeedsMaintenance {
                HealthState::InMaintenance
            } else {
                v0[k].health_state
            },
        ) by {
            if v0[k].health_state == HealthState::NeedsMaintenance {
                lemma_names_in_state_complete(v0, HealthState::NeedsMaintenance, k);
            }
        }
    }
    claimed
}

/// One maintenance task's store work: after the maintenance action is
/// done, write the host back to `Good` — through the same conditional
/// primitive as the claim, expecting `InMaintenance`, so a state moved by
/// another actor is never clobbered.  A `false` return reports that
/// anomaly; under the single-writer model it does not occur.
pub fn maintain_host(store: &mut HostStore, hostname: &String) -> (r: bool)
    requires
        old(store).wf(),
    ensures
        final(store).wf(),
        r == cas_succeeds(old(store)@, hostname@, HealthState::InMaintenance),
        final(store)@ == cas_view(
            old(store)@,
            hostname@,
            HealthState::InMaintenance,
            HealthState::Good,
        ),
{
    store.compare_and_set_health(hostname, HealthState::InMaintenance, HealthState::Good)
}

/// The engine's decision step: from one observed event to the next store
/// state and the action the loop must carry out.  `Startup` lists the
/// hosts left `InMaintenance`, to resume without re-claiming; `PollTick`
/// claims every flagged host; a completion is recorded without touching
/// the store; `Cancelled` stops the loop and schedules nothing more.
pub fn reconcile_step(store: &mut HostStore, event: EngineEvent) -> (action: EngineAction)
    requires
        old(store).wf(),
    ensures
        final(store).wf(),
        event is Startup ==> final(store)@ == old(store)@ && (action matches
            EngineAction::StartMaintenance(names) && names@.map_values(|s: String| s@)
            == names_in_state(old(store)@, HealthState::InMaintenance)),
        event is PollTick ==> final(store)@.len() == old(store)@.len() && (action matches
            EngineAction::StartMaintenance(names) && names@.map_values(|s: String| s@)
            == names_in_state(old(store)@, HealthState::NeedsMaintenance)) && (forall|k: int|
            0 <= k < old(store)@.len() ==> (#[trigger] final(store)@[k]) == with_health(
                old(store)@[k],
                if old(store)@[k].health_state == HealthState::NeedsMaintenance {
                    HealthState::InMaintenance
                } else {
                    old(store)@[k].health_state
                },
            )),
        event matches EngineEvent::TaskCompleted(n) ==> final(store)@ == old(store)@ && action
            == EngineAction::RecordCompletion(n),
        event is Cancelled ==> final(store)@ == old(store)@ && action is Stop,
{
    match event {
        EngineEvent::Startup => EngineAction::StartMaintenance(
            store.find_hosts_in_state(HealthState::InMaintenance),
        ),
        EngineEvent::PollTick => EngineAction::StartMaintenance(poll_tick(store)),
        EngineEvent::TaskCompleted(n) => EngineAction::RecordCompletion(n),
        EngineEvent::Cancelled => EngineAction::Stop,
    }
}

/// Recovery idempotence: restarting while `v[i]` is `InMaintenance`, the
/// startup scan lists that host — and lists no hostname twice, so exactly
/// one maintenance task is re-launched for it — and the task's completion
/// write returns it to `Good`.
pub proof fn lemma_recovery_idempotence(v: Seq<Host>, i: int)
    requires
        store_wf(v),
        0 <= i < v.len(),
        v[i].health_state == HealthState::InMaintenance,
    ensures
        names_in_state(v, HealthState::InMaintenance).contains(v[i].hostname@),
        distinct_seq(names_in_state(v, HealthState::InMaintenance)),
        cas_succeeds(v, v[i].hostname@, HealthState::InMaintenance),
        cas_view(v, v[i].hostname@, HealthState::InMaintenance, HealthState::Good)[i].health_state
            == HealthState::Good,
{
    lemma_names_in_state_complete(v, HealthState::InMaintenance, i);
    lemma_names_in_state_distinct(v, HealthState::InMaintenance);
    lemma_hostname_index_is(v, v[i].hostname@, i);
}

} // verus!
