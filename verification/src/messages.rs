//! Receiving a whole message bundle, and the scheduled tick.
//!
//! A bundle arrives from one peer and is taken in as one run-to-completion
//! step: first the events, then the delivery-attempt records, then the
//! acknowledgements, each with the per-entry isolation of its own receiver.
//! The scheduled tick plans resends, drains the awaiting-dependencies queue
//! and plans acknowledgements; the caller carries the plans out.

use vstd::prelude::*;

use crate::acknowledgements::{
    ack_plan_complete, ack_plan_sound, appended_acks_are_new, create_acknowledgements,
    new_acks_are_verified_inputs, parked_ack, receive_acknowledgements, verified_acks_disposed,
    AcknowledgementPlanItem, ReceivedAcknowledgement,
};
use crate::awaiting_dependencies::{
    attempt_commit_awaiting_deps_entries, dropped_were_parked_events, new_events_from_queue,
    parked_acks_promoted, parked_records_promoted, primary_stores_appended,
    promoted_acks_from_queue, promoted_records_from_queue, queue_references_missing,
    remaining_queue_from_queue, unresolved_acks_retained, unresolved_events_retained,
    unresolved_records_retained,
};
use crate::events_sent::{
    appended_records_are_new, new_records_are_verified_inputs, parked_record, record_disposed,
    receive_events_sent_to_recipients, verified_records_disposed, ReceivedEventSentToRecipients,
};
use crate::private_event::{
    ack_deliveries_are_own_held, duplicate_acks_owed, events_preserved, every_input_disposed,
    new_events_are_verified_inputs, parks_an_input_event, receive_private_events, PrivateEvent,
    ReceiveReport, ReceivedEntry,
};
use crate::send_events::{
    plan_covers_linked_devices, resend_events_if_necessary, send_plan_sound, SendPlanItem,
};
use crate::store::EventStore;
use crate::types::{AgentId, AwaitingDependenciesV, EngineError, Message, Timestamp};

verus! {

/// A bundle as handed in by the caller: the sender, and each carried value
/// beside the host's verdict on its signature and, for events, the content
/// hash the host computed.
#[derive(Debug)]
pub struct ReceiveMessageInput {
    pub provenance: AgentId,
    pub private_events: Vec<ReceivedEntry>,
    pub events_sent_to_recipients: Vec<ReceivedEventSentToRecipients>,
    pub acknowledgements: Vec<ReceivedAcknowledgement>,
}

/// What one bundle receipt did, and what the caller still has to do: send
/// the handed-back acknowledgements inside the report.
#[derive(Debug)]
pub struct ReceiveMessageOutcome {
    pub report: ReceiveReport,
    pub events_sent_result: Result<(), EngineError>,
    pub acknowledgements_result: Result<(), EngineError>,
}

/// The wire form of a best-effort signal between agents.
#[derive(Debug)]
pub enum PrivateEventSourcingRemoteSignal {
    SendMessage(Message),
}

/// Every value parked beyond the first `parked` parks one of the bundle's
/// events, records or acknowledgements.
pub open spec fn new_parked_from_message(
    post: EventStore,
    parked: int,
    events: Seq<ReceivedEntry>,
    records: Seq<ReceivedEventSentToRecipients>,
    acks: Seq<ReceivedAcknowledgement>,
) -> bool {
    forall|k: int|
        parked <= k < post.awaiting_dependencies@.len() ==> parks_an_input_event(
            (#[trigger] post.awaiting_dependencies@[k])@,
            events,
        ) || parks_an_input_record(post.awaiting_dependencies@[k]@, records)
            || parks_an_input_ack(post.awaiting_dependencies@[k]@, acks)
}

/// The parked value holds one of the given records.
pub open spec fn parks_an_input_record(
    aw: AwaitingDependenciesV,
    records: Seq<ReceivedEventSentToRecipients>,
) -> bool {
    exists|i: int|
        0 <= i < records.len() && aw == parked_record(
            (#[trigger] records[i]).event_sent_to_recipients@,
        )
}

/// The parked value holds one of the given acknowledgements.
pub open spec fn parks_an_input_ack(
    aw: AwaitingDependenciesV,
    acks: Seq<ReceivedAcknowledgement>,
) -> bool {
    exists|i: int|
        0 <= i < acks.len() && aw == parked_ack((#[trigger] acks[i]).acknowledgement)
}

/// Parked values are only appended, never dropped or changed.
pub open spec fn awaiting_prefix_preserved(pre: EventStore, post: EventStore) -> bool {
    &&& post.awaiting_dependencies@.len() >= pre.awaiting_dependencies@.len()
    &&& forall|k: int|
        0 <= k < pre.awaiting_dependencies@.len() ==> post.awaiting_dependencies@[k]
            == pre.awaiting_dependencies@[k]
}

/// Take one bundle in: admit its events (idempotently, in timestamp order,
/// rejecting nothing but invalid entries), then its delivery-attempt records,
/// then its acknowledgements. Everything that referenced a missing event is
/// parked. The outcome reports what was admitted, rejected and parked, which
/// acknowledgements to send back to the sender, and how the record and
/// acknowledgement batches fared.
pub fn receive_message<T: PrivateEvent>(
    store: &mut EventStore,
    input: ReceiveMessageInput,
) -> (outcome: ReceiveMessageOutcome)
    requires
        old(store).wf(),
    ensures
        final(store).wf(),
        final(store).my_pub_key == old(store).my_pub_key,
        events_preserved(*old(store), *final(store)),
        new_events_are_verified_inputs(*old(store), *final(store), input.private_events@),
        primary_stores_appended(*old(store), *final(store)),
        new_records_are_verified_inputs(
            final(store).events_sent_to_recipients@,
            final(store).event_ids(),
            old(store).events_sent_to_recipients@.len() as int,
            input.events_sent_to_recipients@,
        ),
        new_acks_are_verified_inputs(
            final(store).acknowledgements@,
            final(store).event_ids(),
            old(store).acknowledgements@.len() as int,
            input.acknowledgements@,
        ),
        awaiting_prefix_preserved(*old(store), *final(store)),
        new_parked_from_message(
            *final(store),
            old(store).awaiting_dependencies@.len() as int,
            input.private_events@,
            input.events_sent_to_recipients@,
            input.acknowledgements@,
        ),
        ack_deliveries_are_own_held(
            *final(store),
            input.provenance,
            outcome.report.acknowledgements_to_send@,
        ),
        duplicate_acks_owed(
            *old(store),
            input.private_events@,
            outcome.report.acknowledgements_to_send@,
        ),
        every_input_disposed(
            *final(store),
            outcome.report.rejected@,
            outcome.report.parked@,
            input.private_events@,
        ),
        verified_records_disposed(*final(store), input.events_sent_to_recipients@),
        verified_acks_disposed(*final(store), input.acknowledgements@),
        appended_records_are_new(*old(store), *final(store)),
        appended_acks_are_new(*old(store), *final(store)),
{
    let ghost ev_inputs = input.private_events@;
    let ghost rec_inputs = input.events_sent_to_recipients@;
    let ReceiveMessageInput { provenance, private_events, events_sent_to_recipients, acknowledgements } =
        input;
    let report = receive_private_events::<T>(store, provenance, private_events);
    let ghost mid1 = *store;
    let events_sent_result = receive_events_sent_to_recipients(
        store,
        provenance,
        events_sent_to_recipients,
    );
    let ghost mid2 = *store;
    let acknowledgements_result = receive_acknowledgements(store, provenance, acknowledgements);
    proof {
        assert(store.events == mid1.events);
        assert(store.events_map() == mid1.events_map());
        assert forall|id: crate::types::EventId|
            old(store).event_ids().contains(id) implies #[trigger] store.event_ids().contains(id)
            && store.events_map()[id] == old(store).events_map()[id] by {
            assert(mid1.event_ids().contains(id));
        }
        assert forall|id: crate::types::EventId|
            #[trigger] store.event_ids().contains(id) && !old(store).event_ids().contains(id)
            implies exists|i: int|
            0 <= i < ev_inputs.len() && (#[trigger] ev_inputs[i]).event_hash == id
                && ev_inputs[i].signature_valid && store.events_map()[id]
                == ev_inputs[i].entry@ by {
            assert(mid1.event_ids().contains(id));
            let i = choose|i: int|
                0 <= i < ev_inputs.len() && (#[trigger] ev_inputs[i]).event_hash == id
                    && ev_inputs[i].signature_valid && mid1.events_map()[id]
                    == ev_inputs[i].entry@;
            assert(store.events_map()[id] == ev_inputs[i].entry@);
        }
        assert(store.events_sent_to_recipients@ == mid2.events_sent_to_recipients@);
        assert(store.event_ids() == mid2.event_ids());
        assert(mid1.acknowledgements@ == old(store).acknowledgements@);
        assert(mid2.acknowledgements@ == old(store).acknowledgements@);
        assert(mid1.events_sent_to_recipients@ == old(store).events_sent_to_recipients@);
        assert forall|i: int|
            0 <= i < rec_inputs.len() && (#[trigger] rec_inputs[i]).signature_valid
            implies record_disposed(*store, rec_inputs[i].event_sent_to_recipients@) by {
            let rv = rec_inputs[i].event_sent_to_recipients@;
            assert(record_disposed(mid2, rv));
            if crate::events_sent::holds_sent_record(mid2, rv) {
                let w = choose|w: int|
                    0 <= w < mid2.events_sent_to_recipients@.len()
                        && (#[trigger] mid2.events_sent_to_recipients@[w])@ == rv;
                assert(store.events_sent_to_recipients@[w]@ == rv);
            } else {
                let w = choose|w: int|
                    0 <= w < mid2.awaiting_dependencies@.len()
                        && (#[trigger] mid2.awaiting_dependencies@[w])@ == parked_record(rv);
                assert(store.awaiting_dependencies@[w]@ == parked_record(rv));
            }
        }
        assert forall|k: int|
            old(store).awaiting_dependencies@.len() <= k < store.awaiting_dependencies@.len()
            implies parks_an_input_event(
            (#[trigger] store.awaiting_dependencies@[k])@,
            input.private_events@,
        ) || parks_an_input_record(
            store.awaiting_dependencies@[k]@,
            input.events_sent_to_recipients@,
        ) || parks_an_input_ack(store.awaiting_dependencies@[k]@, input.acknowledgements@) by {
            if k < mid1.awaiting_dependencies@.len() {
                assert(store.awaiting_dependencies@[k] == mid1.awaiting_dependencies@[k]);
            } else if k < mid2.awaiting_dependencies@.len() {
                assert(store.awaiting_dependencies@[k] == mid2.awaiting_dependencies@[k]);
            }
        }
        assert forall|k: int|
            0 <= k < report.acknowledgements_to_send@.len() implies (
        #[trigger] report.acknowledgements_to_send@[k]).recipient == input.provenance
            && store.acknowledgements@.contains(report.acknowledgements_to_send@[k].acknowledgement)
            && report.acknowledgements_to_send@[k].acknowledgement.acker()
            == store.my_pub_key by {
            assert(mid1.acknowledgements@.contains(
                report.acknowledgements_to_send@[k].acknowledgement,
            ));
            let w = choose|w: int|
                0 <= w < mid1.acknowledgements@.len() && mid1.acknowledgements@[w]
                    == report.acknowledgements_to_send@[k].acknowledgement;
            assert(store.acknowledgements@[w] == mid1.acknowledgements@[w]);
        }
    }
    ReceiveMessageOutcome { report, events_sent_result, acknowledgements_result }
}

/// The plans one scheduled tick leaves for the caller to carry out, and the
/// hashes of parked events the draining pass discarded as invalid, for the
/// caller to log.
#[derive(Debug)]
pub struct TickPlan {
    pub resend: Vec<SendPlanItem>,
    pub acknowledgements: Vec<AcknowledgementPlanItem>,
    pub dropped: Vec<crate::types::EventId>,
}

/// One scheduled tick: plan the due resends against the state as it stands,
/// drain the awaiting-dependencies queue, and plan acknowledgements for
/// everything admitted and not yet acknowledged. The caller signs and sends
/// what the plans name; anything that fails to send is simply planned again
/// on a later tick.
pub fn scheduled_tasks<T: PrivateEvent>(
    store: &mut EventStore,
    linked_devices: &Vec<AgentId>,
    now: Timestamp,
) -> (plan: TickPlan)
    requires
        old(store).wf(),
    ensures
        final(store).wf(),
        final(store).my_pub_key == old(store).my_pub_key,
        send_plan_sound(*old(store), plan.resend@, now),
        plan_covers_linked_devices(*old(store), linked_devices@, plan.resend@, now),
        events_preserved(*old(store), *final(store)),
        new_events_from_queue(*old(store), *final(store)),
        primary_stores_appended(*old(store), *final(store)),
        promoted_acks_from_queue(*old(store), *final(store)),
        promoted_records_from_queue(*old(store), *final(store)),
        remaining_queue_from_queue(*old(store), *final(store)),
        queue_references_missing(*final(store)),
        parked_acks_promoted(*old(store), *final(store)),
        parked_records_promoted(*old(store), *final(store)),
        dropped_were_parked_events(*old(store), plan.dropped@),
        unresolved_acks_retained(*old(store), *final(store)),
        unresolved_records_retained(*old(store), *final(store)),
        unresolved_events_retained(*old(store), *final(store), plan.dropped@),
        ack_plan_sound(*final(store), plan.acknowledgements@),
        ack_plan_complete(*final(store), plan.acknowledgements@),
{
    let resend = resend_events_if_necessary::<T>(store, linked_devices, now);
    let dropped = attempt_commit_awaiting_deps_entries::<T>(store);
    let acknowledgements = create_acknowledgements::<T>(store);
    TickPlan { resend, acknowledgements, dropped }
}

} // verus!
