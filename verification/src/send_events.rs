//! Recipient fan-out and the resend protocol.
//!
//! Delivery is at-least-once and self-healing: on every scheduled tick, each
//! event is offered again to every recipient that has not acknowledged it,
//! unless a delivery attempt is recent enough. Acknowledgements alone retire
//! a recipient; lost messages are simply covered by the next tick. The
//! engine computes the plan; the caller signs the fresh delivery-attempt
//! record, sends each bundle over both channels — the best-effort signal and
//! the durable message — and records the attempt once the durable channel
//! accepted it.

use vstd::prelude::*;

use crate::events_sent::holds_sent_record;
use crate::private_event::PrivateEvent;
use crate::store::{contains_agent, EventStore};
use crate::types::{
    Acknowledgement, AgentId, EventId, EventSentToRecipientsContent, Message, MessageV,
    PrivateEventEntry, Timestamp,
};

verus! {

/// The least time that must pass before an unacknowledged event is sent
/// again to the same recipient, in milliseconds.
pub const RESEND_INTERVAL_MS: u64 = 1000 * 60 * 60 * 24 * 1000;

/// A delivery attempt is due when none was ever claimed, or the last claimed
/// one is older than the resend interval.
pub open spec fn resend_due(now: Timestamp, last: Option<Timestamp>) -> bool {
    match last {
        None => true,
        Some(t) => now.0 > t.0 + RESEND_INTERVAL_MS,
    }
}

/// Decide whether a delivery attempt is due.
pub fn is_resend_due(now: Timestamp, last: Option<Timestamp>) -> (r: bool)
    ensures
        r == resend_due(now, last),
{
    match last {
        None => true,
        Some(t) => (now.0 as u128) > (t.0 as u128) + (RESEND_INTERVAL_MS as u128),
    }
}

/// An event must be sent to an agent when the agent is neither this agent
/// nor the event's author, has not acknowledged the event, and no delivery
/// attempt to it is recent enough.
pub open spec fn needs_resend(
    store: EventStore,
    event_hash: EventId,
    author: AgentId,
    agent: AgentId,
    now: Timestamp,
) -> bool {
    &&& agent != store.my_pub_key
    &&& agent != author
    &&& !store.has_acknowledgement(agent, event_hash)
    &&& resend_due(now, store.last_time_sent(event_hash, agent))
}

/// Filter the candidate recipients of an event down to the ones a delivery
/// is due to: exactly the candidates that need a resend, once each.
pub fn resend_targets(
    store: &EventStore,
    event_hash: &EventId,
    author: &AgentId,
    candidates: &Vec<AgentId>,
    now: Timestamp,
) -> (r: Vec<AgentId>)
    ensures
        forall|k: int|
            0 <= k < r@.len() ==> candidates@.contains(#[trigger] r@[k]) && needs_resend(
                *store,
                *event_hash,
                *author,
                r@[k],
                now,
            ),
        forall|j: int|
            0 <= j < candidates@.len() && needs_resend(
                *store,
                *event_hash,
                *author,
                #[trigger] candidates@[j],
                now,
            ) ==> r@.contains(candidates@[j]),
        forall|k1: int, k2: int| 0 <= k1 < k2 < r@.len() ==> r@[k1] != r@[k2],
{
    let mut r: Vec<AgentId> = Vec::new();
    let n: usize = candidates.len();
    for j in 0..n
        invariant
            n == candidates@.len(),
            forall|k: int|
                0 <= k < r@.len() ==> candidates@.contains(#[trigger] r@[k]) && needs_resend(
                    *store,
                    *event_hash,
                    *author,
                    r@[k],
                    now,
                ),
            forall|jj: int|
                0 <= jj < j && needs_resend(
                    *store,
                    *event_hash,
                    *author,
                    #[trigger] candidates@[jj],
                    now,
                ) ==> r@.contains(candidates@[jj]),
            forall|k1: int, k2: int| 0 <= k1 < k2 < r@.len() ==> r@[k1] != r@[k2],
    {
        let agent = candidates[j];
        if agent != store.my_pub_key && agent != *author && !store.has_acknowledgement_from(
            &agent,
            event_hash,
        ) && is_resend_due(now, store.query_last_time_sent(event_hash, &agent)) && !contains_agent(
            &r,
            &agent,
        ) {
            let ghost prev_r = r@;
            r.push(agent);
            proof {
                assert(candidates@.contains(agent)) by {
                    assert(candidates@[j as int] == agent);
                }
                assert forall|jj: int|
                    0 <= jj < j + 1 && needs_resend(
                        *store,
                        *event_hash,
                        *author,
                        #[trigger] candidates@[jj],
                        now,
                    ) implies r@.contains(candidates@[jj]) by {
                    if jj < j {
                        let k = choose|k: int|
                            0 <= k < prev_r.len() && prev_r[k] == candidates@[jj];
                        assert(r@[k] == candidates@[jj]);
                    } else {
                        assert(r@.last() == candidates@[jj]);
                    }
                }
            }
        } else {
            proof {
                if needs_resend(*store, *event_hash, *author, candidates@[j as int], now) {
                    assert(r@.contains(agent));
                }
            }
        }
    }
    r
}

/// The bundle delivers the event itself, every delivery-attempt record this
/// store holds that references it, and every acknowledgement this store
/// holds for it — and nothing else.
pub open spec fn message_bundles_event(
    store: EventStore,
    event_hash: EventId,
    m: MessageV,
) -> bool {
    &&& m.private_events.len() == 1
    &&& m.private_events[0] == store.events_map()[event_hash]
    &&& forall|k: int|
        0 <= k < m.events_sent_to_recipients.len()
            ==> (#[trigger] m.events_sent_to_recipients[k]).event_hash == event_hash
            && holds_sent_record(store, m.events_sent_to_recipients[k])
    &&& forall|j: int|
        0 <= j < store.events_sent_to_recipients@.len()
            && (#[trigger] store.events_sent_to_recipients@[j])@.event_hash == event_hash
            ==> m.events_sent_to_recipients.contains(store.events_sent_to_recipients@[j]@)
    &&& forall|k: int|
        0 <= k < m.acknowledgements.len() ==> (#[trigger] m.acknowledgements[k]).event_hash()
            == event_hash && store.acknowledgements@.contains(m.acknowledgements[k])
    &&& forall|j: int|
        0 <= j < store.acknowledgements@.len() && (#[trigger] store.acknowledgements@[j]).event_hash()
            == event_hash ==> m.acknowledgements.contains(store.acknowledgements@[j])
}

/// Compose the bundle for one admitted event: the event, the held
/// delivery-attempt records that reference it, and the held acknowledgements
/// for it. Piggy-backing these lets one exchange also carry the
/// proof-of-receipt state around the event.
pub fn build_message_for_event(store: &EventStore, event_hash: &EventId) -> (message: Message)
    requires
        store.wf(),
        store.event_ids().contains(*event_hash),
    ensures
        message_bundles_event(*store, *event_hash, message@),
{
    let entry = store.query_private_event_entry(event_hash);
    let Some(entry) = entry else {
        // Unreachable: the event is admitted.
        return vstd::pervasive::unreached();
    };
    let mut private_events: Vec<PrivateEventEntry> = Vec::new();
    private_events.push(entry);

    let mut records: Vec<crate::types::EventSentToRecipients> = Vec::new();
    let rn: usize = store.events_sent_to_recipients.len();
    for j in 0..rn
        invariant
            rn == store.events_sent_to_recipients@.len(),
            forall|k: int|
                0 <= k < records@.len() ==> (#[trigger] records@[k])@.event_hash == *event_hash
                    && holds_sent_record(*store, records@[k]@),
            forall|jj: int|
                0 <= jj < j && (#[trigger] store.events_sent_to_recipients@[jj])@.event_hash
                    == *event_hash ==> records@.map_values(
                    |x: crate::types::EventSentToRecipients| x@,
                ).contains(store.events_sent_to_recipients@[jj]@),
    {
        let record = &store.events_sent_to_recipients[j];
        if record.0.payload.content.event_hash == *event_hash {
            let ghost prev = records@;
            records.push(record.clone());
            proof {
                assert(records@.last()@ == store.events_sent_to_recipients@[j as int]@);
                assert(holds_sent_record(*store, records@.last()@)) by {
                    assert(store.events_sent_to_recipients@[j as int]@ == records@.last()@);
                }
                assert forall|jj: int|
                    0 <= jj < j + 1 && (#[trigger] store.events_sent_to_recipients@[jj])@.event_hash
                        == *event_hash implies records@.map_values(
                    |x: crate::types::EventSentToRecipients| x@,
                ).contains(store.events_sent_to_recipients@[jj]@) by {
                    if jj < j {
                        let k = choose|k: int|
                            0 <= k < prev.len() && (#[trigger] prev[k])@
                                == store.events_sent_to_recipients@[jj]@;
                        assert(records@[k]@ == store.events_sent_to_recipients@[jj]@);
                        assert(records@.map_values(
                            |x: crate::types::EventSentToRecipients| x@,
                        )[k] == store.events_sent_to_recipients@[jj]@);
                    } else {
                        assert(records@.map_values(
                            |x: crate::types::EventSentToRecipients| x@,
                        )[records@.len() - 1] == store.events_sent_to_recipients@[jj]@);
                    }
                }
            }
        }
    }

    let mut acknowledgements: Vec<Acknowledgement> = Vec::new();
    let an: usize = store.acknowledgements.len();
    for j in 0..an
        invariant
            an == store.acknowledgements@.len(),
            forall|k: int|
                0 <= k < acknowledgements@.len() ==> (#[trigger] acknowledgements@[k]).event_hash()
                    == *event_hash && store.acknowledgements@.contains(acknowledgements@[k]),
            forall|jj: int|
                0 <= jj < j && (#[trigger] store.acknowledgements@[jj]).event_hash() == *event_hash
                    ==> acknowledgements@.contains(store.acknowledgements@[jj]),
    {
        let a = &store.acknowledgements[j];
        if a.0.payload.content.private_event_hash == *event_hash {
            let ghost prev = acknowledgements@;
            acknowledgements.push(*a);
            proof {
                assert(store.acknowledgements@.contains(store.acknowledgements@[j as int]));
                assert forall|jj: int|
                    0 <= jj < j + 1 && (#[trigger] store.acknowledgements@[jj]).event_hash()
                        == *event_hash implies acknowledgements@.contains(
                    store.acknowledgements@[jj],
                ) by {
                    if jj < j {
                        let k = choose|k: int|
                            0 <= k < prev.len() && prev[k] == store.acknowledgements@[jj];
                        assert(acknowledgements@[k] == store.acknowledgements@[jj]);
                    } else {
                        assert(acknowledgements@.last() == store.acknowledgements@[jj]);
                    }
                }
            }
        }
    }

    let message = Message { private_events, events_sent_to_recipients: records, acknowledgements };
    proof {
        assert(message@.private_events =~= private_events@.map_values(
            |e: PrivateEventEntry| e@,
        ));
        assert(message@.events_sent_to_recipients =~= records@.map_values(
            |x: crate::types::EventSentToRecipients| x@,
        ));
    }
    message
}

/// One planned delivery: the event, the recipients a send is due to, and
/// the bundle to send. The caller signs a fresh delivery-attempt record over
/// (event, recipients), adds it to the bundle, sends the bundle to every
/// recipient over both channels, and records the attempt once the durable
/// channel accepted it.
#[derive(Debug)]
pub struct SendPlanItem {
    pub event_hash: EventId,
    pub recipients: Vec<AgentId>,
    pub event_sent_content: EventSentToRecipientsContent,
    pub message: Message,
}

/// Every planned delivery is for an admitted event, goes only to recipients
/// a send is due to, once each, and bundles exactly that event's state. The
/// fresh record content names the event and the same recipients.
pub open spec fn send_plan_sound(store: EventStore, plan: Seq<SendPlanItem>, now: Timestamp) -> bool {
    forall|p: int|
        0 <= p < plan.len() ==> send_plan_item_sound(store, #[trigger] plan[p], now)
}

/// One planned delivery is justified by the store's state.
pub open spec fn send_plan_item_sound(store: EventStore, item: SendPlanItem, now: Timestamp) -> bool {
    &&& store.event_ids().contains(item.event_hash)
    &&& item.recipients@.len() > 0
    &&& forall|k: int|
        0 <= k < item.recipients@.len() ==> needs_resend(
            store,
            item.event_hash,
            store.events_map()[item.event_hash].author,
            #[trigger] item.recipients@[k],
            now,
        )
    &&& forall|k1: int, k2: int|
        0 <= k1 < k2 < item.recipients@.len() ==> item.recipients@[k1] != item.recipients@[k2]
    &&& item.event_sent_content.event_hash == item.event_hash
    &&& item.event_sent_content.recipients@ == item.recipients@
    &&& message_bundles_event(store, item.event_hash, item.message@)
}

/// Some planned delivery sends this event to this agent.
pub open spec fn plan_covers(plan: Seq<SendPlanItem>, event_hash: EventId, agent: AgentId) -> bool {
    exists|p: int|
        0 <= p < plan.len() && (#[trigger] plan[p]).event_hash == event_hash
            && plan[p].recipients@.contains(agent)
}

/// Every linked device that an admitted event is owed to is covered.
pub open spec fn plan_covers_linked_devices(
    store: EventStore,
    linked_devices: Seq<AgentId>,
    plan: Seq<SendPlanItem>,
    now: Timestamp,
) -> bool {
    forall|j: int, d: int|
        0 <= j < store.events@.len() && 0 <= d < linked_devices.len() && needs_resend(
            store,
            (#[trigger] store.events@[j]).event_hash,
            store.events@[j].entry@.author,
            #[trigger] linked_devices[d],
            now,
        ) ==> plan_covers(plan, store.events@[j].event_hash, linked_devices[d])
}

/// The resend pass, run on every scheduled tick: for each admitted event,
/// compute its recipients — the application's recipient set plus the
/// author's linked devices — and plan a delivery to each one that has not
/// acknowledged the event and was not recently sent it. The pass is what
/// makes delivery self-healing: it relies on acknowledgements alone for
/// termination and covers any lost message on a later tick.
pub fn resend_events_if_necessary<T: PrivateEvent>(
    store: &EventStore,
    linked_devices: &Vec<AgentId>,
    now: Timestamp,
) -> (plan: Vec<SendPlanItem>)
    requires
        store.wf(),
    ensures
        send_plan_sound(*store, plan@, now),
        plan_covers_linked_devices(*store, linked_devices@, plan@, now),
{
    let mut plan: Vec<SendPlanItem> = Vec::new();
    let n: usize = store.events.len();
    for j in 0..n
        invariant
            store.wf(),
            n == store.events@.len(),
            send_plan_sound(*store, plan@, now),
            forall|jj: int, d: int|
                0 <= jj < j && 0 <= d < linked_devices@.len() && needs_resend(
                    *store,
                    (#[trigger] store.events@[jj]).event_hash,
                    store.events@[jj].entry@.author,
                    #[trigger] linked_devices@[d],
                    now,
                ) ==> plan_covers(plan@, store.events@[jj].event_hash, linked_devices@[d]),
    {
        let stored = &store.events[j];
        let event_hash = stored.event_hash;
        let author = stored.entry.0.author;
        let timestamp = stored.entry.0.payload.timestamp;
        let decoded = T::decode(
            &stored.entry.0.payload.content.event_type,
            &stored.entry.0.payload.content.event,
        );
        let mut candidates: Vec<AgentId> = match decoded {
            Some(private_event) => private_event.recipients(&event_hash, &author, timestamp, store),
            None => Vec::new(),
        };
        let mut devices = crate::types::clone_agents(linked_devices);
        candidates.append(&mut devices);
        let ghost candidates_seq = candidates@;
        let targets = resend_targets(store, &event_hash, &author, &candidates, now);
        proof {
            crate::store::lemma_events_map_index(store.events@, j as int);
        }
        if targets.len() > 0 {
            let event_sent_content = EventSentToRecipientsContent {
                event_hash,
                recipients: crate::types::clone_agents(&targets),
            };
            let message = build_message_for_event(store, &event_hash);
            let ghost prev_plan = plan@;
            plan.push(SendPlanItem { event_hash, recipients: targets, event_sent_content, message });
            proof {
                assert(send_plan_item_sound(*store, plan@.last(), now));
                assert forall|jj: int, d: int|
                    0 <= jj < j + 1 && 0 <= d < linked_devices@.len() && needs_resend(
                        *store,
                        (#[trigger] store.events@[jj]).event_hash,
                        store.events@[jj].entry@.author,
                        #[trigger] linked_devices@[d],
                        now,
                    ) implies plan_covers(plan@, store.events@[jj].event_hash, linked_devices@[d]) by {
                    if jj < j {
                        let p = choose|p: int|
                            0 <= p < prev_plan.len() && (#[trigger] prev_plan[p]).event_hash
                                == store.events@[jj].event_hash && prev_plan[p].recipients@.contains(
                                linked_devices@[d],
                            );
                        assert(plan@[p] == prev_plan[p]);
                    } else {
                        assert(candidates_seq.contains(linked_devices@[d])) by {
                            assert(candidates_seq[candidates_seq.len() - linked_devices@.len()
                                + d] == linked_devices@[d]);
                        }
                        let c = choose|c: int|
                            0 <= c < candidates_seq.len() && candidates_seq[c]
                                == linked_devices@[d];
                        assert(store.events@[jj].entry@.author == store.events_map()[
                            store.events@[jj].event_hash
                        ].author);
                        assert(plan@.last().recipients@.contains(linked_devices@[d]));
                        assert(plan@[plan@.len() - 1].event_hash == store.events@[jj].event_hash);
                    }
                }
            }
        } else {
            proof {
                assert forall|d: int|
                    0 <= d < linked_devices@.len() && needs_resend(
                        *store,
                        store.events@[j as int].event_hash,
                        store.events@[j as int].entry@.author,
                        #[trigger] linked_devices@[d],
                        now,
                    ) implies false by {
                    assert(candidates_seq.contains(linked_devices@[d])) by {
                        assert(candidates_seq[candidates_seq.len() - linked_devices@.len() + d]
                            == linked_devices@[d]);
                    }
                    let c = choose|c: int|
                        0 <= c < candidates_seq.len() && candidates_seq[c] == linked_devices@[d];
                    assert(store.events@[j as int].entry@.author == store.events_map()[
                        store.events@[j as int].event_hash
                    ].author);
                    assert(targets@.contains(candidates_seq[c]));
                }
            }
        }
    }
    plan
}

/// Keep the candidates that are not this agent, once each.
pub fn fanout_targets(store: &EventStore, candidates: &Vec<AgentId>) -> (r: Vec<AgentId>)
    ensures
        forall|k: int|
            0 <= k < r@.len() ==> candidates@.contains(#[trigger] r@[k]) && r@[k]
                != store.my_pub_key,
        forall|j: int|
            0 <= j < candidates@.len() && (#[trigger] candidates@[j]) != store.my_pub_key
                ==> r@.contains(candidates@[j]),
        forall|k1: int, k2: int| 0 <= k1 < k2 < r@.len() ==> r@[k1] != r@[k2],
{
    let mut r: Vec<AgentId> = Vec::new();
    let n: usize = candidates.len();
    for j in 0..n
        invariant
            n == candidates@.len(),
            forall|k: int|
                0 <= k < r@.len() ==> candidates@.contains(#[trigger] r@[k]) && r@[k]
                    != store.my_pub_key,
            forall|jj: int|
                0 <= jj < j && (#[trigger] candidates@[jj]) != store.my_pub_key ==> r@.contains(
                    candidates@[jj],
                ),
            forall|k1: int, k2: int| 0 <= k1 < k2 < r@.len() ==> r@[k1] != r@[k2],
    {
        let agent = candidates[j];
        if agent != store.my_pub_key && !contains_agent(&r, &agent) {
            let ghost prev_r = r@;
            r.push(agent);
            proof {
                assert(candidates@.contains(agent)) by {
                    assert(candidates@[j as int] == agent);
                }
                assert forall|jj: int|
                    0 <= jj < j + 1 && (#[trigger] candidates@[jj]) != store.my_pub_key
                    implies r@.contains(candidates@[jj]) by {
                    if jj < j {
                        let k = choose|k: int|
                            0 <= k < prev_r.len() && prev_r[k] == candidates@[jj];
                        assert(r@[k] == candidates@[jj]);
                    } else {
                        assert(r@.last() == candidates@[jj]);
                    }
                }
            }
        } else {
            proof {
                if candidates@[j as int] != store.my_pub_key {
                    assert(r@.contains(agent));
                }
            }
        }
    }
    r
}

/// One planned first delivery is justified by the store's state.
pub open spec fn new_send_item_sound(store: EventStore, item: SendPlanItem) -> bool {
    &&& store.event_ids().contains(item.event_hash)
    &&& store.events_map()[item.event_hash].author == store.my_pub_key
    &&& item.recipients@.len() > 0
    &&& forall|k: int|
        0 <= k < item.recipients@.len() ==> (#[trigger] item.recipients@[k]) != store.my_pub_key
    &&& forall|k1: int, k2: int|
        0 <= k1 < k2 < item.recipients@.len() ==> item.recipients@[k1] != item.recipients@[k2]
    &&& item.event_sent_content.event_hash == item.event_hash
    &&& item.event_sent_content.recipients@ == item.recipients@
    &&& item.message@.private_events.len() == 1
    &&& item.message@.private_events[0] == store.events_map()[item.event_hash]
    &&& item.message@.events_sent_to_recipients.len() == 0
    &&& item.message@.acknowledgements.len() == 0
}

/// Every planned first delivery is justified.
pub open spec fn new_send_plan_sound(store: EventStore, plan: Seq<SendPlanItem>) -> bool {
    forall|p: int| 0 <= p < plan.len() ==> new_send_item_sound(store, #[trigger] plan[p])
}

/// Every linked device other than this agent is covered for every given
/// event that is admitted and self-authored.
pub open spec fn new_plan_covers_linked_devices(
    store: EventStore,
    event_hashes: Seq<EventId>,
    linked_devices: Seq<AgentId>,
    plan: Seq<SendPlanItem>,
) -> bool {
    forall|j: int, d: int|
        0 <= j < event_hashes.len() && 0 <= d < linked_devices.len()
            && store.event_ids().contains(#[trigger] event_hashes[j]) && store.events_map()[
            event_hashes[j]
        ].author == store.my_pub_key && (#[trigger] linked_devices[d]) != store.my_pub_key
            ==> plan_covers(plan, event_hashes[j], linked_devices[d])
}

/// Plan the first delivery of freshly authored events: each admitted,
/// self-authored event goes to the application's recipients plus this
/// agent's linked devices, excluding this agent itself. Events authored by
/// someone else are not fanned out: their author delivers them.
pub fn send_new_events<T: PrivateEvent>(
    store: &EventStore,
    linked_devices: &Vec<AgentId>,
    event_hashes: &Vec<EventId>,
) -> (plan: Vec<SendPlanItem>)
    requires
        store.wf(),
    ensures
        new_send_plan_sound(*store, plan@),
        new_plan_covers_linked_devices(*store, event_hashes@, linked_devices@, plan@),
{
    let mut plan: Vec<SendPlanItem> = Vec::new();
    let n: usize = event_hashes.len();
    for j in 0..n
        invariant
            store.wf(),
            n == event_hashes@.len(),
            new_send_plan_sound(*store, plan@),
            forall|jj: int, d: int|
                0 <= jj < j && 0 <= d < linked_devices@.len() && store.event_ids().contains(
                    #[trigger] event_hashes@[jj],
                ) && store.events_map()[event_hashes@[jj]].author == store.my_pub_key && (
                #[trigger] linked_devices@[d]) != store.my_pub_key ==> plan_covers(
                    plan@,
                    event_hashes@[jj],
                    linked_devices@[d],
                ),
    {
        let event_hash = event_hashes[j];
        let looked_up = store.query_private_event_entry(&event_hash);
        // A hash that is not admitted, or an event another agent authored,
        // is not fanned out: its author delivers it.
        let mine = match &looked_up {
            Some(entry) => entry.0.author == store.my_pub_key,
            None => false,
        };
        if mine {
        let entry = looked_up.unwrap();
        let timestamp = entry.0.payload.timestamp;
        let author = entry.0.author;
        let decoded = T::decode(
            &entry.0.payload.content.event_type,
            &entry.0.payload.content.event,
        );
        let mut candidates: Vec<AgentId> = match decoded {
            Some(private_event) => private_event.recipients(&event_hash, &author, timestamp, store),
            None => Vec::new(),
        };
        let mut devices = crate::types::clone_agents(linked_devices);
        candidates.append(&mut devices);
        let ghost candidates_seq = candidates@;
        let targets = fanout_targets(store, &candidates);
        if targets.len() > 0 {
            let mut private_events: Vec<PrivateEventEntry> = Vec::new();
            private_events.push(entry);
            let message = Message {
                private_events,
                events_sent_to_recipients: Vec::new(),
                acknowledgements: Vec::new(),
            };
            let event_sent_content = EventSentToRecipientsContent {
                event_hash,
                recipients: crate::types::clone_agents(&targets),
            };
            let ghost prev_plan = plan@;
            plan.push(SendPlanItem { event_hash, recipients: targets, event_sent_content, message });
            proof {
                assert(plan@.last().message@.private_events =~= seq![
                    store.events_map()[event_hash],
                ]);
                assert(new_send_item_sound(*store, plan@.last()));
                assert forall|jj: int, d: int|
                    0 <= jj < j + 1 && 0 <= d < linked_devices@.len()
                        && store.event_ids().contains(#[trigger] event_hashes@[jj])
                        && store.events_map()[event_hashes@[jj]].author == store.my_pub_key && (
                    #[trigger] linked_devices@[d]) != store.my_pub_key implies plan_covers(
                    plan@,
                    event_hashes@[jj],
                    linked_devices@[d],
                ) by {
                    if jj < j {
                        let p = choose|p: int|
                            0 <= p < prev_plan.len() && (#[trigger] prev_plan[p]).event_hash
                                == event_hashes@[jj] && prev_plan[p].recipients@.contains(
                                linked_devices@[d],
                            );
                        assert(plan@[p] == prev_plan[p]);
                    } else {
                        assert(candidates_seq.contains(linked_devices@[d])) by {
                            assert(candidates_seq[candidates_seq.len() - linked_devices@.len()
                                + d] == linked_devices@[d]);
                        }
                        assert(plan@.last().recipients@.contains(linked_devices@[d]));
                        assert(plan@[plan@.len() - 1].event_hash == event_hashes@[jj]);
                    }
                }
            }
        } else {
            proof {
                assert forall|d: int|
                    0 <= d < linked_devices@.len() && (#[trigger] linked_devices@[d])
                        != store.my_pub_key implies false by {
                    assert(candidates_seq.contains(linked_devices@[d])) by {
                        assert(candidates_seq[candidates_seq.len() - linked_devices@.len() + d]
                            == linked_devices@[d]);
                    }
                    assert(targets@.contains(linked_devices@[d]));
                }
            }
        }
        } else {
            proof {
                if store.event_ids().contains(event_hashes@[j as int]) && store.events_map()[
                    event_hashes@[j as int]
                ].author == store.my_pub_key {
                    assert(false);
                }
            }
        }
    }
    plan
}

/// The bundle carries the store's whole state: every admitted event, every
/// delivery-attempt record and every acknowledgement, in order.
pub open spec fn message_bundles_store(store: EventStore, m: MessageV) -> bool {
    &&& m.private_events.len() == store.events@.len()
    &&& forall|k: int|
        0 <= k < m.private_events.len() ==> #[trigger] m.private_events[k]
            == store.events@[k].entry@
    &&& m.events_sent_to_recipients.len() == store.events_sent_to_recipients@.len()
    &&& forall|k: int|
        0 <= k < m.events_sent_to_recipients.len() ==> #[trigger] m.events_sent_to_recipients[k]
            == store.events_sent_to_recipients@[k]@
    &&& m.acknowledgements =~= store.acknowledgements@
}

/// Bundle everything for a linked device that is catching up: a newly linked
/// device receives the full local history in one message.
pub fn synchronize_with_linked_device(store: &EventStore) -> (message: Message)
    ensures
        message_bundles_store(*store, message@),
{
    let mut private_events: Vec<PrivateEventEntry> = Vec::new();
    let n: usize = store.events.len();
    for i in 0..n
        invariant
            n == store.events@.len(),
            private_events@.len() == i,
            forall|k: int|
                0 <= k < i ==> (#[trigger] private_events@[k])@ == store.events@[k].entry@,
    {
        private_events.push(store.events[i].entry.clone());
    }
    let events_sent_to_recipients = crate::events_sent::query_events_sent_to_recipients_entries(
        store,
    );
    let mut acknowledgements: Vec<Acknowledgement> = Vec::new();
    let an: usize = store.acknowledgements.len();
    for i in 0..an
        invariant
            an == store.acknowledgements@.len(),
            acknowledgements@.len() == i,
            forall|k: int| 0 <= k < i ==> acknowledgements@[k] == store.acknowledgements@[k],
    {
        acknowledgements.push(store.acknowledgements[i]);
    }
    let message = Message { private_events, events_sent_to_recipients, acknowledgements };
    proof {
        assert(message@.acknowledgements =~= store.acknowledgements@);
    }
    message
}

} // verus!
