//! Acknowledgement bookkeeping.
//!
//! On receiving an event it did not author, an agent signs and holds an
//! acknowledgement for it and sends it to the event's author and remaining
//! recipients. Held acknowledgements retire recipients from the resend set.
//! One acknowledgement per (acker, event) is the canonical state; duplicates
//! are ignored by comparing the full signed value.

use vstd::prelude::*;

use crate::store::{hash_among_first, EventStore};
use crate::types::{
    Acknowledgement, AcknowledgementContent, AgentId, AwaitingDependencies, AwaitingDependenciesV,
    EngineError, EventId,
};

verus! {

/// An inbound acknowledgement together with the host's verdict on whether
/// its signature verifies under its claimed author's key.
#[derive(Clone, Copy, Debug)]
pub struct ReceivedAcknowledgement {
    pub acknowledgement: Acknowledgement,
    pub signature_valid: bool,
}

/// Find the acknowledgement this agent itself signed for an event, if any.
pub fn query_my_acknowledgement_for(store: &EventStore, event_hash: &EventId) -> (r: Option<
    Acknowledgement,
>)
    ensures
        match r {
            Some(a) => store.acknowledgements@.contains(a) && a.acker() == store.my_pub_key
                && a.event_hash() == *event_hash,
            None => !store.has_acknowledgement(store.my_pub_key, *event_hash),
        },
{
    let n: usize = store.acknowledgements.len();
    for i in 0..n
        invariant
            n == store.acknowledgements@.len(),
            forall|j: int|
                0 <= j < i ==> !(store.acknowledgements@[j].acker() == store.my_pub_key
                    && store.acknowledgements@[j].event_hash() == *event_hash),
    {
        let a = &store.acknowledgements[i];
        if a.0.author == store.my_pub_key && a.0.payload.content.private_event_hash == *event_hash {
            return Some(*a);
        }
    }
    None
}

/// Whether the store already holds this very acknowledgement.
pub fn contains_acknowledgement(store: &EventStore, acknowledgement: &Acknowledgement) -> (r: bool)
    ensures
        r == store.acknowledgements@.contains(*acknowledgement),
{
    let n: usize = store.acknowledgements.len();
    for i in 0..n
        invariant
            n == store.acknowledgements@.len(),
            forall|j: int| 0 <= j < i ==> store.acknowledgements@[j] != *acknowledgement,
    {
        let a = &store.acknowledgements[i];
        if a.0.author == acknowledgement.0.author && a.0.signature == acknowledgement.0.signature
            && a.0.payload.timestamp == acknowledgement.0.payload.timestamp
            && a.0.payload.content.private_event_hash
            == acknowledgement.0.payload.content.private_event_hash {
            return true;
        }
    }
    false
}

/// Receiving acknowledgements touches nothing but the acknowledgement list
/// and the parked values.
pub open spec fn ack_receipt_frame(pre: EventStore, post: EventStore) -> bool {
    &&& post.wf() == pre.wf()
    &&& post.my_pub_key == pre.my_pub_key
    &&& post.events == pre.events
    &&& post.events_sent_to_recipients == pre.events_sent_to_recipients
}

/// Held acknowledgements and parked values are only appended, never dropped
/// or changed.
pub open spec fn acks_and_parked_appended(pre: EventStore, post: EventStore) -> bool {
    &&& post.acknowledgements@.len() >= pre.acknowledgements@.len()
    &&& forall|k: int|
        0 <= k < pre.acknowledgements@.len() ==> post.acknowledgements@[k]
            == pre.acknowledgements@[k]
    &&& post.awaiting_dependencies@.len() >= pre.awaiting_dependencies@.len()
    &&& forall|k: int|
        0 <= k < pre.awaiting_dependencies@.len() ==> post.awaiting_dependencies@[k]
            == pre.awaiting_dependencies@[k]
}

/// Every acknowledgement held beyond the first `held` is one of the inputs,
/// carries a verified signature, and references a present event.
pub open spec fn new_acks_are_verified_inputs(
    acks: Seq<Acknowledgement>,
    present: Set<EventId>,
    held: int,
    inputs: Seq<ReceivedAcknowledgement>,
) -> bool {
    forall|k: int|
        held <= k < acks.len() ==> exists|i: int|
            0 <= i < inputs.len() && #[trigger] acks[k] == (#[trigger] inputs[i]).acknowledgement
                && inputs[i].signature_valid && present.contains(
                inputs[i].acknowledgement.event_hash(),
            )
}

/// Every value parked beyond the first `parked` is an input acknowledgement
/// with a verified signature whose event is not present.
pub open spec fn new_parked_are_awaiting_inputs(
    queue: Seq<AwaitingDependencies>,
    present: Set<EventId>,
    parked: int,
    inputs: Seq<ReceivedAcknowledgement>,
) -> bool {
    forall|k: int|
        parked <= k < queue.len() ==> exists|i: int|
            0 <= i < inputs.len() && #[trigger] queue[k]@ == parked_ack(
                (#[trigger] inputs[i]).acknowledgement,
            ) && inputs[i].signature_valid && !present.contains(
                inputs[i].acknowledgement.event_hash(),
            )
}

/// The value an acknowledgement is parked as.
pub open spec fn parked_ack(acknowledgement: Acknowledgement) -> AwaitingDependenciesV {
    AwaitingDependenciesV::Acknowledgement { acknowledgement }
}

/// The acknowledgement sits in the awaiting-dependencies queue.
pub open spec fn acknowledgement_parked(
    store: EventStore,
    acknowledgement: Acknowledgement,
) -> bool {
    exists|k: int|
        0 <= k < store.awaiting_dependencies@.len()
            && (#[trigger] store.awaiting_dependencies@[k])@ == parked_ack(acknowledgement)
}

/// The acknowledgement was dealt with: held outright when its event is
/// admitted, and in any case either held or parked — never dropped.
pub open spec fn ack_disposed(store: EventStore, acknowledgement: Acknowledgement) -> bool {
    &&& store.event_ids().contains(acknowledgement.event_hash())
        ==> store.acknowledgements@.contains(acknowledgement)
    &&& store.acknowledgements@.contains(acknowledgement) || acknowledgement_parked(
        store,
        acknowledgement,
    )
}

/// Every input acknowledgement whose signature verified is disposed.
pub open spec fn verified_acks_disposed(
    store: EventStore,
    inputs: Seq<ReceivedAcknowledgement>,
) -> bool {
    forall|i: int|
        0 <= i < inputs.len() && (#[trigger] inputs[i]).signature_valid ==> ack_disposed(
            store,
            inputs[i].acknowledgement,
        )
}

/// Duplicates are ignored by comparing the full signed value: nothing
/// already held is appended again, and nothing is appended twice.
pub open spec fn appended_acks_are_new(pre: EventStore, post: EventStore) -> bool {
    &&& forall|k: int|
        pre.acknowledgements@.len() <= k < post.acknowledgements@.len()
            ==> !pre.acknowledgements@.contains(#[trigger] post.acknowledgements@[k])
    &&& forall|k1: int, k2: int|
        pre.acknowledgements@.len() <= k1 < k2 < post.acknowledgements@.len()
            ==> post.acknowledgements@[k1] != post.acknowledgements@[k2]
}

/// Take received acknowledgements in: skip ones already held, refuse ones
/// whose signature does not verify, hold ones whose event is locally present,
/// and park the rest until their event arrives. One bad acknowledgement does
/// not sink the batch; it is reported after the rest were processed.
pub fn receive_acknowledgements(
    store: &mut EventStore,
    _provenance: AgentId,
    acknowledgements: Vec<ReceivedAcknowledgement>,
) -> (r: Result<(), EngineError>)
    requires
        old(store).wf(),
    ensures
        final(store).wf(),
        ack_receipt_frame(*old(store), *final(store)),
        acks_and_parked_appended(*old(store), *final(store)),
        new_acks_are_verified_inputs(
            final(store).acknowledgements@,
            final(store).event_ids(),
            old(store).acknowledgements@.len() as int,
            acknowledgements@,
        ),
        new_parked_are_awaiting_inputs(
            final(store).awaiting_dependencies@,
            final(store).event_ids(),
            old(store).awaiting_dependencies@.len() as int,
            acknowledgements@,
        ),
        verified_acks_disposed(*final(store), acknowledgements@),
        appended_acks_are_new(*old(store), *final(store)),
        r is Err ==> r == Result::<(), EngineError>::Err(EngineError::SignatureInvalid),
        unverified_unheld_input_fails(*final(store), acknowledgements@, r),
{
    let mut failed: bool = false;
    let n: usize = acknowledgements.len();
    for i in 0..n
        invariant
            n == acknowledgements@.len(),
            store.wf(),
            ack_receipt_frame(*old(store), *store),
            acks_and_parked_appended(*old(store), *store),
            new_acks_are_verified_inputs(
                store.acknowledgements@,
                store.event_ids(),
                old(store).acknowledgements@.len() as int,
                acknowledgements@,
            ),
            new_parked_are_awaiting_inputs(
                store.awaiting_dependencies@,
                store.event_ids(),
                old(store).awaiting_dependencies@.len() as int,
                acknowledgements@,
            ),
            forall|j: int|
                0 <= j < i && (#[trigger] acknowledgements@[j]).signature_valid ==> ack_disposed(
                    *store,
                    acknowledgements@[j].acknowledgement,
                ),
            appended_acks_are_new(*old(store), *store),
            forall|j: int|
                0 <= j < i && !(#[trigger] acknowledgements@[j]).signature_valid
                    && !store.acknowledgements@.contains(acknowledgements@[j].acknowledgement)
                    ==> failed,
    {
        let ghost store_at_top = *store;
        let received = &acknowledgements[i];
        if contains_acknowledgement(store, &received.acknowledgement) {
            // Already held: ignore the duplicate.
            proof {
                assert(ack_disposed(*store, received.acknowledgement));
            }
        } else if !received.signature_valid {
            failed = true;
        } else {
            let event_hash = received.acknowledgement.0.payload.content.private_event_hash;
            if store.contains_event(&event_hash) {
                let ghost pre = store.acknowledgements@;
                store.record_acknowledgement(received.acknowledgement);
                proof {
                    assert(store.acknowledgements@.last() == received.acknowledgement);
                    assert(store.acknowledgements@.contains(received.acknowledgement));
                    assert(ack_disposed(*store, received.acknowledgement));
                    assert forall|x: Acknowledgement| pre.contains(x) implies store.acknowledgements@.contains(
                        x,
                    ) by {
                        let w = choose|w: int| 0 <= w < pre.len() && pre[w] == x;
                        assert(store.acknowledgements@[w] == x);
                    }
                }
            } else {
                store.park_awaiting(
                    AwaitingDependencies::Acknowledgement {
                        acknowledgement: received.acknowledgement,
                    },
                );
                proof {
                    assert(store.awaiting_dependencies@.last()@ == parked_ack(
                        received.acknowledgement,
                    ));
                    assert(acknowledgement_parked(*store, received.acknowledgement));
                    assert(ack_disposed(*store, received.acknowledgement));
                }
            }
        }
        proof {
            assert forall|j: int|
                0 <= j < i + 1 && (#[trigger] acknowledgements@[j]).signature_valid
                implies ack_disposed(*store, acknowledgements@[j].acknowledgement) by {
                if j < i {
                    let a = acknowledgements@[j].acknowledgement;
                    assert(ack_disposed(store_at_top, a));
                    if store_at_top.acknowledgements@.contains(a) {
                        let w = choose|w: int|
                            0 <= w < store_at_top.acknowledgements@.len()
                                && store_at_top.acknowledgements@[w] == a;
                        assert(store.acknowledgements@[w] == a);
                    } else {
                        let w = choose|w: int|
                            0 <= w < store_at_top.awaiting_dependencies@.len()
                                && (#[trigger] store_at_top.awaiting_dependencies@[w])@
                                == parked_ack(a);
                        assert(store.awaiting_dependencies@[w]@ == parked_ack(a));
                    }
                }
            }
        }
    }
    if failed {
        Err(EngineError::SignatureInvalid)
    } else {
        Ok(())
    }
}

/// One planned acknowledgement: the content for the caller to sign, and who
/// to send the signed acknowledgement to. The caller signs the content,
/// holds the acknowledgement through [`EventStore::record_acknowledgement`],
/// and sends it to the recipients over both channels.
#[derive(Debug)]
pub struct AcknowledgementPlanItem {
    pub private_event_hash: EventId,
    pub content: AcknowledgementContent,
    pub recipients: Vec<AgentId>,
}

/// One planned acknowledgement is justified: its event is admitted, someone
/// else authored it, this agent holds no own acknowledgement for it yet, and
/// it goes back to the event's author and the other recipients, never to
/// this agent itself.
pub open spec fn ack_plan_item_sound(store: EventStore, item: AcknowledgementPlanItem) -> bool {
    &&& store.event_ids().contains(item.private_event_hash)
    &&& store.events_map()[item.private_event_hash].author != store.my_pub_key
    &&& !store.has_acknowledgement(store.my_pub_key, item.private_event_hash)
    &&& item.content.private_event_hash == item.private_event_hash
    &&& item.recipients@.contains(store.events_map()[item.private_event_hash].author)
    &&& forall|k: int|
        0 <= k < item.recipients@.len() ==> (#[trigger] item.recipients@[k]) != store.my_pub_key
    &&& forall|k1: int, k2: int|
        0 <= k1 < k2 < item.recipients@.len() ==> item.recipients@[k1] != item.recipients@[k2]
}

/// Every planned acknowledgement is justified.
pub open spec fn ack_plan_sound(store: EventStore, plan: Seq<AcknowledgementPlanItem>) -> bool {
    forall|p: int| 0 <= p < plan.len() ==> ack_plan_item_sound(store, #[trigger] plan[p])
}

/// At most one acknowledgement is planned per event.
pub open spec fn ack_plan_one_per_event(plan: Seq<AcknowledgementPlanItem>) -> bool {
    forall|p1: int, p2: int|
        0 <= p1 < p2 < plan.len() ==> (#[trigger] plan[p1]).private_event_hash
            != (#[trigger] plan[p2]).private_event_hash
}

/// Every admitted event that someone else authored and that this agent has
/// not yet acknowledged is planned.
pub open spec fn ack_plan_complete(store: EventStore, plan: Seq<AcknowledgementPlanItem>) -> bool {
    forall|j: int|
        0 <= j < store.events@.len() && (#[trigger] store.events@[j]).entry@.author
            != store.my_pub_key && !store.has_acknowledgement(
            store.my_pub_key,
            store.events@[j].event_hash,
        ) ==> exists|p: int|
            0 <= p < plan.len() && (#[trigger] plan[p]).private_event_hash
                == store.events@[j].event_hash
}

/// The acknowledgement sweep, run on every scheduled tick and after
/// receipts: plan one self-signed acknowledgement for every admitted event
/// that someone else authored and that this agent has not acknowledged yet,
/// addressed to the event's author and its other recipients so that all
/// participants converge on the same acknowledgement set.
pub fn create_acknowledgements<T: crate::private_event::PrivateEvent>(store: &EventStore) -> (plan:
    Vec<AcknowledgementPlanItem>)
    requires
        store.wf(),
    ensures
        ack_plan_sound(*store, plan@),
        ack_plan_complete(*store, plan@),
        ack_plan_one_per_event(plan@),
{
    let mut plan: Vec<AcknowledgementPlanItem> = Vec::new();
    let n: usize = store.events.len();
    for j in 0..n
        invariant
            store.wf(),
            n == store.events@.len(),
            ack_plan_sound(*store, plan@),
            ack_plan_one_per_event(plan@),
            forall|p: int|
                0 <= p < plan@.len() ==> hash_among_first(
                    *store,
                    j as int,
                    (#[trigger] plan@[p]).private_event_hash,
                ),
            forall|jj: int|
                0 <= jj < j && (#[trigger] store.events@[jj]).entry@.author != store.my_pub_key
                    && !store.has_acknowledgement(
                    store.my_pub_key,
                    store.events@[jj].event_hash,
                ) ==> exists|p: int|
                    0 <= p < plan@.len() && (#[trigger] plan@[p]).private_event_hash
                        == store.events@[jj].event_hash,
    {
        let stored = &store.events[j];
        let event_hash = stored.event_hash;
        let author = stored.entry.0.author;
        proof {
            crate::store::lemma_events_map_index(store.events@, j as int);
        }
        if author != store.my_pub_key && query_my_acknowledgement_for(store, &event_hash).is_none()
        {
            let timestamp = stored.entry.0.payload.timestamp;
            let decoded = T::decode(
                &stored.entry.0.payload.content.event_type,
                &stored.entry.0.payload.content.event,
            );
            let mut candidates: Vec<AgentId> = match decoded {
                Some(private_event) => private_event.recipients(
                    &event_hash,
                    &author,
                    timestamp,
                    store,
                ),
                None => Vec::new(),
            };
            candidates.push(author);
            let ghost candidates_seq = candidates@;
            let recipients = crate::send_events::fanout_targets(store, &candidates);
            let ghost prev_plan = plan@;
            plan.push(
                AcknowledgementPlanItem {
                    private_event_hash: event_hash,
                    content: AcknowledgementContent { private_event_hash: event_hash },
                    recipients,
                },
            );
            proof {
                assert(candidates_seq.contains(author)) by {
                    assert(candidates_seq.last() == author);
                }
                assert(plan@.last().recipients@.contains(author));
                assert(ack_plan_item_sound(*store, plan@.last()));
                assert forall|p1: int, p2: int|
                    0 <= p1 < p2 < plan@.len() implies (#[trigger] plan@[p1]).private_event_hash
                    != (#[trigger] plan@[p2]).private_event_hash by {
                    if p2 == plan@.len() - 1 {
                        assert(plan@[p1] == prev_plan[p1]);
                        assert(hash_among_first(
                            *store,
                            j as int,
                            prev_plan[p1].private_event_hash,
                        ));
                        let jj = choose|jj: int|
                            0 <= jj < j && (#[trigger] store.events@[jj]).event_hash
                                == prev_plan[p1].private_event_hash;
                        assert(store.events@[jj].event_hash
                            != store.events@[j as int].event_hash);
                        assert(plan@[p2].private_event_hash == store.events@[j as int].event_hash);
                    }
                }
                assert forall|p: int|
                    0 <= p < plan@.len() implies hash_among_first(
                    *store,
                    j + 1 as int,
                    (#[trigger] plan@[p]).private_event_hash,
                ) by {
                    if p < prev_plan.len() {
                        assert(plan@[p] == prev_plan[p]);
                        assert(hash_among_first(
                            *store,
                            j as int,
                            prev_plan[p].private_event_hash,
                        ));
                        let jj = choose|jj: int|
                            0 <= jj < j && (#[trigger] store.events@[jj]).event_hash
                                == prev_plan[p].private_event_hash;
                        assert(store.events@[jj].event_hash == plan@[p].private_event_hash);
                    } else {
                        assert(store.events@[j as int].event_hash
                            == plan@[p].private_event_hash);
                    }
                }
                assert forall|jj: int|
                    0 <= jj < j + 1 && (#[trigger] store.events@[jj]).entry@.author
                        != store.my_pub_key && !store.has_acknowledgement(
                        store.my_pub_key,
                        store.events@[jj].event_hash,
                    ) implies exists|p: int|
                    0 <= p < plan@.len() && (#[trigger] plan@[p]).private_event_hash
                        == store.events@[jj].event_hash by {
                    if jj < j {
                        let p = choose|p: int|
                            0 <= p < prev_plan.len() && (#[trigger] prev_plan[p]).private_event_hash
                                == store.events@[jj].event_hash;
                        assert(plan@[p] == prev_plan[p]);
                    } else {
                        assert(plan@.last().private_event_hash == store.events@[jj].event_hash);
                    }
                }
            }
        }
    }
    plan
}

/// Copy the held acknowledgements out, in arrival order.
pub fn query_acknowledgement_entries(store: &EventStore) -> (r: Vec<Acknowledgement>)
    ensures
        r@ == store.acknowledgements@,
{
    let mut r: Vec<Acknowledgement> = Vec::new();
    let n: usize = store.acknowledgements.len();
    for i in 0..n
        invariant
            n == store.acknowledgements@.len(),
            r@ =~= store.acknowledgements@.subrange(0, i as int),
    {
        r.push(store.acknowledgements[i]);
        proof {
            assert(store.acknowledgements@.subrange(0, i + 1 as int) =~= store.acknowledgements@.subrange(
                0,
                i as int,
            ).push(store.acknowledgements@[i as int]));
        }
    }
    proof {
        assert(store.acknowledgements@.subrange(0, n as int) =~= store.acknowledgements@);
    }
    r
}

/// Hand this agent's own acknowledgement for an event back for sending to
/// one recipient, where one is held.
pub fn send_acknowledgement_for_event_to_recipient(
    store: &EventStore,
    event_hash: &EventId,
    recipient: &AgentId,
) -> (r: Option<crate::private_event::AcknowledgementDelivery>)
    ensures
        match r {
            Some(d) => d.recipient == *recipient && store.acknowledgements@.contains(
                d.acknowledgement,
            ) && d.acknowledgement.acker() == store.my_pub_key && d.acknowledgement.event_hash()
                == *event_hash,
            None => !store.has_acknowledgement(store.my_pub_key, *event_hash),
        },
{
    match query_my_acknowledgement_for(store, event_hash) {
        Some(acknowledgement) => Some(
            crate::private_event::AcknowledgementDelivery {
                recipient: *recipient,
                acknowledgement,
            },
        ),
        None => None,
    }
}

/// An input whose signature did not verify and whose acknowledgement the
/// store does not hold always fails the batch.
pub open spec fn unverified_unheld_input_fails(
    post: EventStore,
    inputs: Seq<ReceivedAcknowledgement>,
    r: Result<(), EngineError>,
) -> bool {
    forall|i: int|
        0 <= i < inputs.len() && !(#[trigger] inputs[i]).signature_valid
            && !post.acknowledgements@.contains(inputs[i].acknowledgement) ==> r is Err
}

} // verus!
