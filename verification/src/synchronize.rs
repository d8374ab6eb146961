//! Catch-up with linked devices and with retroactive recipients.
//!
//! A linked device that was offline is brought up to date by sending it
//! exactly the admitted events it does not already hold. When recipients are
//! recomputed over history — after an event that widens who should see
//! existing content — each prior event is delivered to every recipient not
//! already proven to have received it, judged against what the caller
//! gathered about that recipient's chain.

use vstd::prelude::*;

use crate::awaiting_dependencies::contains_event_id;
use crate::private_event::PrivateEvent;
use crate::store::{contains_agent, lemma_events_map_index, EventStore, StoredEvent};
use crate::types::{AgentId, EventId, PrivateEventEntry};

verus! {

/// The admitted events a peer does not hold yet: exactly the ones whose hash
/// is not among the peer's.
pub fn missing_entries_for(store: &EventStore, peer_has: &Vec<EventId>) -> (r: Vec<StoredEvent>)
    requires
        store.wf(),
    ensures
        forall|k: int|
            0 <= k < r@.len() ==> store.event_ids().contains((#[trigger] r@[k]).event_hash)
                && store.events_map()[r@[k].event_hash] == r@[k].entry@ && !peer_has@.contains(
                r@[k].event_hash,
            ),
        forall|j: int|
            0 <= j < store.events@.len() && !peer_has@.contains(
                (#[trigger] store.events@[j]).event_hash,
            ) ==> exists|k: int|
                0 <= k < r@.len() && (#[trigger] r@[k]).event_hash == store.events@[j].event_hash,
{
    let mut r: Vec<StoredEvent> = Vec::new();
    let n: usize = store.events.len();
    for j in 0..n
        invariant
            store.wf(),
            n == store.events@.len(),
            forall|k: int|
                0 <= k < r@.len() ==> store.event_ids().contains((#[trigger] r@[k]).event_hash)
                    && store.events_map()[r@[k].event_hash] == r@[k].entry@ && !peer_has@.contains(
                    r@[k].event_hash,
                ),
            forall|jj: int|
                0 <= jj < j && !peer_has@.contains(
                    (#[trigger] store.events@[jj]).event_hash,
                ) ==> exists|k: int|
                    0 <= k < r@.len() && (#[trigger] r@[k]).event_hash
                        == store.events@[jj].event_hash,
    {
        let stored = &store.events[j];
        if !contains_event_id(peer_has, &stored.event_hash) {
            proof {
                lemma_events_map_index(store.events@, j as int);
            }
            let ghost prev_r = r@;
            r.push(stored.clone());
            proof {
                assert(r@.last().event_hash == store.events@[j as int].event_hash);
                assert forall|jj: int|
                    0 <= jj < j + 1 && !peer_has@.contains(
                        (#[trigger] store.events@[jj]).event_hash,
                    ) implies exists|k: int|
                    0 <= k < r@.len() && (#[trigger] r@[k]).event_hash
                        == store.events@[jj].event_hash by {
                    if jj < j {
                        let k = choose|k: int|
                            0 <= k < prev_r.len() && (#[trigger] prev_r[k]).event_hash
                                == store.events@[jj].event_hash;
                        assert(r@[k] == prev_r[k]);
                    } else {
                        assert(r@[r@.len() - 1].event_hash == store.events@[jj].event_hash);
                    }
                }
            }
        }
    }
    r
}

/// What the caller gathered about one recipient: the events it is already
/// proven to hold, from its own public chain activity and its summaries.
#[derive(Debug)]
pub struct PeerKnowledge {
    pub agent: AgentId,
    pub received: Vec<EventId>,
}

/// The gathered knowledge proves this agent already received this event.
pub open spec fn known_received(
    knowledge: Seq<PeerKnowledge>,
    agent: AgentId,
    event_hash: EventId,
) -> bool {
    exists|p: int|
        0 <= p < knowledge.len() && (#[trigger] knowledge[p]).agent == agent
            && knowledge[p].received@.contains(event_hash)
}

/// A catch-up delivery is owed to an agent when the agent is not one of
/// this principal's own and the gathered knowledge does not prove it already
/// received the event.
pub open spec fn needs_catch_up(
    all_my_agents: Seq<AgentId>,
    knowledge: Seq<PeerKnowledge>,
    event_hash: EventId,
    agent: AgentId,
) -> bool {
    &&& !all_my_agents.contains(agent)
    &&& !known_received(knowledge, agent, event_hash)
}

/// Filter an event's candidate recipients down to the ones a catch-up
/// delivery is owed to: exactly the candidates that need one, once each.
pub fn catch_up_targets(
    all_my_agents: &Vec<AgentId>,
    knowledge: &Vec<PeerKnowledge>,
    event_hash: &EventId,
    candidates: &Vec<AgentId>,
) -> (r: Vec<AgentId>)
    ensures
        forall|k: int|
            0 <= k < r@.len() ==> candidates@.contains(#[trigger] r@[k]) && needs_catch_up(
                all_my_agents@,
                knowledge@,
                *event_hash,
                r@[k],
            ),
        forall|j: int|
            0 <= j < candidates@.len() && needs_catch_up(
                all_my_agents@,
                knowledge@,
                *event_hash,
                #[trigger] candidates@[j],
            ) ==> r@.contains(candidates@[j]),
        forall|k1: int, k2: int| 0 <= k1 < k2 < r@.len() ==> r@[k1] != r@[k2],
{
    let mut r: Vec<AgentId> = Vec::new();
    let n: usize = candidates.len();
    for j in 0..n
        invariant
            n == candidates@.len(),
            forall|k: int|
                0 <= k < r@.len() ==> candidates@.contains(#[trigger] r@[k]) && needs_catch_up(
                    all_my_agents@,
                    knowledge@,
                    *event_hash,
                    r@[k],
                ),
            forall|jj: int|
                0 <= jj < j && needs_catch_up(
                    all_my_agents@,
                    knowledge@,
                    *event_hash,
                    #[trigger] candidates@[jj],
                ) ==> r@.contains(candidates@[jj]),
            forall|k1: int, k2: int| 0 <= k1 < k2 < r@.len() ==> r@[k1] != r@[k2],
    {
        let agent = candidates[j];
        if !contains_agent(all_my_agents, &agent) && !knows_received(knowledge, &agent, event_hash)
            && !contains_agent(&r, &agent) {
            let ghost prev_r = r@;
            r.push(agent);
            proof {
                assert(candidates@.contains(agent)) by {
                    assert(candidates@[j as int] == agent);
                }
                assert forall|jj: int|
                    0 <= jj < j + 1 && needs_catch_up(
                        all_my_agents@,
                        knowledge@,
                        *event_hash,
                        #[trigger] candidates@[jj],
                    ) implies r@.contains(candidates@[jj]) by {
                    if jj < j {
                        let k = choose|k: int|
                            0 <= k < prev_r.len() && prev_r[k] == candidates@[jj];
                        assert(r@[k] == candidates@[jj]);
                    } else {
                        assert(r@.last() == candidates@[jj]);
                    }
                }
            }
        } else {
            proof {
                if needs_catch_up(all_my_agents@, knowledge@, *event_hash, candidates@[j as int]) {
                    assert(r@.contains(agent));
                }
            }
        }
    }
    r
}

/// One event's catch-up group: the admitted event, the application's
/// candidate recipients for it as they were returned, and among them the
/// recipients a delivery is owed to.
#[derive(Debug)]
pub struct SyncEventPlan {
    pub event_hash: EventId,
    pub entry: PrivateEventEntry,
    pub candidates: Vec<AgentId>,
    pub recipients: Vec<AgentId>,
}

/// One group is exact: it names its admitted event and entry, and its
/// recipients are exactly its candidates owed a catch-up, once each.
pub open spec fn catch_up_group_exact(
    store: EventStore,
    all_my_agents: Seq<AgentId>,
    knowledge: Seq<PeerKnowledge>,
    group: SyncEventPlan,
    j: int,
) -> bool {
    &&& group.event_hash == store.events@[j].event_hash
    &&& group.entry@ == store.events@[j].entry@
    &&& forall|k: int|
        0 <= k < group.recipients@.len() ==> group.candidates@.contains(
            #[trigger] group.recipients@[k],
        ) && needs_catch_up(all_my_agents, knowledge, group.event_hash, group.recipients@[k])
    &&& forall|c: int|
        0 <= c < group.candidates@.len() && needs_catch_up(
            all_my_agents,
            knowledge,
            group.event_hash,
            #[trigger] group.candidates@[c],
        ) ==> group.recipients@.contains(group.candidates@[c])
    &&& forall|k1: int, k2: int|
        0 <= k1 < k2 < group.recipients@.len() ==> group.recipients@[k1] != group.recipients@[k2]
}

/// The plan covers every admitted event with one exact group.
pub open spec fn catch_up_plan_exact(
    store: EventStore,
    all_my_agents: Seq<AgentId>,
    knowledge: Seq<PeerKnowledge>,
    plan: Seq<SyncEventPlan>,
) -> bool {
    &&& plan.len() == store.events@.len()
    &&& forall|j: int|
        0 <= j < plan.len() ==> catch_up_group_exact(
            store,
            all_my_agents,
            knowledge,
            #[trigger] plan[j],
            j,
        )
}

/// Recompute recipients over the whole history and plan a delivery to every
/// recipient a catch-up is owed to: one group per admitted event, whose
/// recipients are exactly the application's candidates outside this
/// principal's agents and not provably in receipt of the event, once each.
/// The caller gathers each candidate's knowledge beforehand and carries the
/// plan out by encrypted message and best-effort signal.
pub fn syncronize_with_recipients<T: PrivateEvent>(
    store: &EventStore,
    all_my_agents: &Vec<AgentId>,
    peer_knowledge: &Vec<PeerKnowledge>,
) -> (plan: Vec<SyncEventPlan>)
    requires
        store.wf(),
    ensures
        catch_up_plan_exact(*store, all_my_agents@, peer_knowledge@, plan@),
{
    let mut plan: Vec<SyncEventPlan> = Vec::new();
    let n: usize = store.events.len();
    for j in 0..n
        invariant
            store.wf(),
            n == store.events@.len(),
            plan@.len() == j,
            forall|jj: int|
                0 <= jj < j ==> catch_up_group_exact(
                    *store,
                    all_my_agents@,
                    peer_knowledge@,
                    #[trigger] plan@[jj],
                    jj,
                ),
    {
        let stored = &store.events[j];
        let event_hash = stored.event_hash;
        let author = stored.entry.0.author;
        let timestamp = stored.entry.0.payload.timestamp;
        let decoded = T::decode(
            &stored.entry.0.payload.content.event_type,
            &stored.entry.0.payload.content.event,
        );
        let candidates: Vec<AgentId> = match decoded {
            Some(private_event) => private_event.recipients(&event_hash, &author, timestamp, store),
            None => Vec::new(),
        };
        let recipients = catch_up_targets(all_my_agents, peer_knowledge, &event_hash, &candidates);
        let ghost prev_plan = plan@;
        plan.push(
            SyncEventPlan {
                event_hash,
                entry: store.events[j].entry.clone(),
                candidates,
                recipients,
            },
        );
        proof {
            assert(catch_up_group_exact(
                *store,
                all_my_agents@,
                peer_knowledge@,
                plan@.last(),
                j as int,
            ));
            assert forall|jj: int|
                0 <= jj < j + 1 implies catch_up_group_exact(
                *store,
                all_my_agents@,
                peer_knowledge@,
                #[trigger] plan@[jj],
                jj,
            ) by {
                if jj < j {
                    assert(plan@[jj] == prev_plan[jj]);
                }
            }
        }
    }
    plan
}

/// Whether the gathered knowledge proves the agent already received the
/// event.
pub fn knows_received(
    knowledge: &Vec<PeerKnowledge>,
    agent: &AgentId,
    event_hash: &EventId,
) -> (r: bool)
    ensures
        r == known_received(knowledge@, *agent, *event_hash),
{
    let n: usize = knowledge.len();
    for p in 0..n
        invariant
            n == knowledge@.len(),
            forall|q: int|
                0 <= q < p ==> !((#[trigger] knowledge@[q]).agent == *agent
                    && knowledge@[q].received@.contains(*event_hash)),
    {
        let k = &knowledge[p];
        if k.agent == *agent && contains_event_id(&k.received, event_hash) {
            return true;
        }
    }
    false
}

} // verus!
