//! Delivery-attempt records.
//!
//! Each record claims "this event was sent to these recipients at this
//! time", signed by the sender. Receivers keep the records of others so that
//! all participants converge on who was sent what; locally they drive resend
//! throttling through the last-sent time per (event, recipient) pair.

use vstd::prelude::*;

use crate::store::EventStore;
use crate::types::{
    AgentId, AwaitingDependencies, AwaitingDependenciesV, EngineError, EventId,
    EventSentToRecipients, EventSentToRecipientsV,
};

verus! {

/// An inbound delivery-attempt record together with the host's verdict on
/// whether its signature verifies under its claimed author's key.
#[derive(Debug)]
pub struct ReceivedEventSentToRecipients {
    pub event_sent_to_recipients: EventSentToRecipients,
    pub signature_valid: bool,
}

/// Whether two agent lists hold the same agents in the same order.
pub fn agent_lists_equal(a: &Vec<AgentId>, b: &Vec<AgentId>) -> (r: bool)
    ensures
        r == (a@ == b@),
{
    if a.len() != b.len() {
        return false;
    }
    let n: usize = a.len();
    for i in 0..n
        invariant
            n == a@.len(),
            n == b@.len(),
            forall|j: int| 0 <= j < i ==> a@[j] == b@[j],
    {
        if a[i] != b[i] {
            return false;
        }
    }
    proof {
        assert(a@ =~= b@);
    }
    true
}

/// Whether two delivery-attempt records are the same signed value.
pub fn records_equal(a: &EventSentToRecipients, b: &EventSentToRecipients) -> (r: bool)
    ensures
        r == (a@ == b@),
{
    a.0.author == b.0.author && a.0.signature == b.0.signature && a.0.payload.timestamp
        == b.0.payload.timestamp && a.0.payload.content.event_hash
        == b.0.payload.content.event_hash && agent_lists_equal(
        &a.0.payload.content.recipients,
        &b.0.payload.content.recipients,
    )
}

/// Some held delivery-attempt record is this very signed value.
pub open spec fn holds_sent_record(store: EventStore, record: EventSentToRecipientsV) -> bool {
    exists|i: int|
        0 <= i < store.events_sent_to_recipients@.len()
            && (#[trigger] store.events_sent_to_recipients@[i])@ == record
}

/// Whether the store already holds this very delivery-attempt record.
pub fn contains_event_sent(store: &EventStore, record: &EventSentToRecipients) -> (r: bool)
    ensures
        r == holds_sent_record(*store, record@),
{
    let n: usize = store.events_sent_to_recipients.len();
    for i in 0..n
        invariant
            n == store.events_sent_to_recipients@.len(),
            forall|j: int|
                0 <= j < i ==> (#[trigger] store.events_sent_to_recipients@[j])@ != record@,
    {
        if records_equal(&store.events_sent_to_recipients[i], record) {
            return true;
        }
    }
    false
}

/// Receiving delivery-attempt records touches nothing but the record list
/// and the parked values.
pub open spec fn record_receipt_frame(pre: EventStore, post: EventStore) -> bool {
    &&& post.wf() == pre.wf()
    &&& post.my_pub_key == pre.my_pub_key
    &&& post.events == pre.events
    &&& post.acknowledgements == pre.acknowledgements
}

/// Held records and parked values are only appended, never dropped or
/// changed.
pub open spec fn records_and_parked_appended(pre: EventStore, post: EventStore) -> bool {
    &&& post.events_sent_to_recipients@.len() >= pre.events_sent_to_recipients@.len()
    &&& forall|k: int|
        0 <= k < pre.events_sent_to_recipients@.len() ==> post.events_sent_to_recipients@[k]
            == pre.events_sent_to_recipients@[k]
    &&& post.awaiting_dependencies@.len() >= pre.awaiting_dependencies@.len()
    &&& forall|k: int|
        0 <= k < pre.awaiting_dependencies@.len() ==> post.awaiting_dependencies@[k]
            == pre.awaiting_dependencies@[k]
}

/// Every record held beyond the first `held` is one of the inputs, carries a
/// verified signature, and references a present event.
pub open spec fn new_records_are_verified_inputs(
    records: Seq<EventSentToRecipients>,
    present: Set<EventId>,
    held: int,
    inputs: Seq<ReceivedEventSentToRecipients>,
) -> bool {
    forall|k: int|
        held <= k < records.len() ==> exists|i: int|
            0 <= i < inputs.len() && (#[trigger] records[k])@
                == (#[trigger] inputs[i]).event_sent_to_recipients@ && inputs[i].signature_valid
                && present.contains(inputs[i].event_sent_to_recipients.event_hash())
}

/// Every value parked beyond the first `parked` is an input record with a
/// verified signature whose event is not present.
pub open spec fn new_parked_are_awaiting_records(
    queue: Seq<AwaitingDependencies>,
    present: Set<EventId>,
    parked: int,
    inputs: Seq<ReceivedEventSentToRecipients>,
) -> bool {
    forall|k: int|
        parked <= k < queue.len() ==> exists|i: int|
            0 <= i < inputs.len() && (#[trigger] queue[k])@ == parked_record(
                (#[trigger] inputs[i]).event_sent_to_recipients@,
            ) && inputs[i].signature_valid && !present.contains(
                inputs[i].event_sent_to_recipients.event_hash(),
            )
}

/// The value a delivery-attempt record is parked as.
pub open spec fn parked_record(record: EventSentToRecipientsV) -> AwaitingDependenciesV {
    AwaitingDependenciesV::EventsSentToRecipients { event_sent_to_recipients: record }
}

/// The delivery-attempt record sits in the awaiting-dependencies queue.
pub open spec fn record_parked(store: EventStore, record: EventSentToRecipientsV) -> bool {
    exists|k: int|
        0 <= k < store.awaiting_dependencies@.len()
            && (#[trigger] store.awaiting_dependencies@[k])@ == parked_record(record)
}

/// The record was dealt with: held outright when its event is admitted, and
/// in any case either held or parked — never dropped.
pub open spec fn record_disposed(store: EventStore, record: EventSentToRecipientsV) -> bool {
    &&& store.event_ids().contains(record.event_hash) ==> holds_sent_record(store, record)
    &&& holds_sent_record(store, record) || record_parked(store, record)
}

/// Every input record whose signature verified is disposed.
pub open spec fn verified_records_disposed(
    store: EventStore,
    inputs: Seq<ReceivedEventSentToRecipients>,
) -> bool {
    forall|i: int|
        0 <= i < inputs.len() && (#[trigger] inputs[i]).signature_valid ==> record_disposed(
            store,
            inputs[i].event_sent_to_recipients@,
        )
}

/// Duplicates are ignored by comparing the full signed value: nothing
/// already held is appended again, and nothing is appended twice.
pub open spec fn appended_records_are_new(pre: EventStore, post: EventStore) -> bool {
    &&& forall|k: int|
        pre.events_sent_to_recipients@.len() <= k < post.events_sent_to_recipients@.len()
            ==> !holds_sent_record_in(
            pre.events_sent_to_recipients@,
            (#[trigger] post.events_sent_to_recipients@[k])@,
        )
    &&& forall|k1: int, k2: int|
        pre.events_sent_to_recipients@.len() <= k1 < k2 < post.events_sent_to_recipients@.len()
            ==> post.events_sent_to_recipients@[k1]@ != post.events_sent_to_recipients@[k2]@
}

/// An input whose signature did not verify and whose record the store does
/// not hold always fails the batch.
pub open spec fn unverified_unheld_record_fails(
    post: EventStore,
    inputs: Seq<ReceivedEventSentToRecipients>,
    r: Result<(), EngineError>,
) -> bool {
    forall|i: int|
        0 <= i < inputs.len() && !(#[trigger] inputs[i]).signature_valid && !holds_sent_record(
            post,
            inputs[i].event_sent_to_recipients@,
        ) ==> r is Err
}

/// Take received delivery-attempt records in: skip ones already held, refuse
/// ones whose signature does not verify, hold ones whose event is locally
/// present, and park the rest until their event arrives. One bad record does
/// not sink the batch; it is reported after the rest were processed.
pub fn receive_events_sent_to_recipients(
    store: &mut EventStore,
    _provenance: AgentId,
    events_sent_to_recipients: Vec<ReceivedEventSentToRecipients>,
) -> (r: Result<(), EngineError>)
    requires
        old(store).wf(),
    ensures
        final(store).wf(),
        record_receipt_frame(*old(store), *final(store)),
        records_and_parked_appended(*old(store), *final(store)),
        new_records_are_verified_inputs(
            final(store).events_sent_to_recipients@,
            final(store).event_ids(),
            old(store).events_sent_to_recipients@.len() as int,
            events_sent_to_recipients@,
        ),
        new_parked_are_awaiting_records(
            final(store).awaiting_dependencies@,
            final(store).event_ids(),
            old(store).awaiting_dependencies@.len() as int,
            events_sent_to_recipients@,
        ),
        verified_records_disposed(*final(store), events_sent_to_recipients@),
        appended_records_are_new(*old(store), *final(store)),
        r is Err ==> r == Result::<(), EngineError>::Err(EngineError::SignatureInvalid),
        unverified_unheld_record_fails(*final(store), events_sent_to_recipients@, r),
{
    let mut failed: bool = false;
    let n: usize = events_sent_to_recipients.len();
    for i in 0..n
        invariant
            n == events_sent_to_recipients@.len(),
            store.wf(),
            record_receipt_frame(*old(store), *store),
            records_and_parked_appended(*old(store), *store),
            new_records_are_verified_inputs(
                store.events_sent_to_recipients@,
                store.event_ids(),
                old(store).events_sent_to_recipients@.len() as int,
                events_sent_to_recipients@,
            ),
            new_parked_are_awaiting_records(
                store.awaiting_dependencies@,
                store.event_ids(),
                old(store).awaiting_dependencies@.len() as int,
                events_sent_to_recipients@,
            ),
            forall|j: int|
                0 <= j < i && (#[trigger] events_sent_to_recipients@[j]).signature_valid
                    ==> record_disposed(
                    *store,
                    events_sent_to_recipients@[j].event_sent_to_recipients@,
                ),
            appended_records_are_new(*old(store), *store),
            forall|j: int|
                0 <= j < i && !(#[trigger] events_sent_to_recipients@[j]).signature_valid
                    && !holds_sent_record(
                    *store,
                    events_sent_to_recipients@[j].event_sent_to_recipients@,
                ) ==> failed,
    {
        let ghost store_at_top = *store;
        let received = &events_sent_to_recipients[i];
        if contains_event_sent(store, &received.event_sent_to_recipients) {
            // Already held: ignore the duplicate.
            proof {
                assert(record_disposed(*store, received.event_sent_to_recipients@));
            }
        } else if !received.signature_valid {
            failed = true;
        } else {
            let event_hash = received.event_sent_to_recipients.0.payload.content.event_hash;
            let record = received.event_sent_to_recipients.clone();
            if store.contains_event(&event_hash) {
                let ghost pre = store.events_sent_to_recipients@;
                store.record_event_sent(record);
                proof {
                    assert(store.events_sent_to_recipients@.last()@
                        == received.event_sent_to_recipients@);
                    assert(holds_sent_record(*store, received.event_sent_to_recipients@));
                    assert(record_disposed(*store, received.event_sent_to_recipients@));
                    assert forall|j: int|
                        0 <= j < n && holds_sent_record_in(
                            pre,
                            (#[trigger] events_sent_to_recipients@[j]).event_sent_to_recipients@,
                        ) implies holds_sent_record(
                        *store,
                        events_sent_to_recipients@[j].event_sent_to_recipients@,
                    ) by {
                        let w = choose|w: int|
                            0 <= w < pre.len() && (#[trigger] pre[w])@
                                == events_sent_to_recipients@[j].event_sent_to_recipients@;
                        assert(store.events_sent_to_recipients@[w]@
                            == events_sent_to_recipients@[j].event_sent_to_recipients@);
                    }
                }
            } else {
                store.park_awaiting(
                    AwaitingDependencies::EventsSentToRecipients {
                        event_sent_to_recipients: record,
                    },
                );
                proof {
                    assert(store.awaiting_dependencies@.last()@ == parked_record(
                        received.event_sent_to_recipients@,
                    ));
                    assert(record_parked(*store, received.event_sent_to_recipients@));
                    assert(record_disposed(*store, received.event_sent_to_recipients@));
                }
            }
        }
        proof {
            assert forall|j: int|
                0 <= j < i + 1 && (#[trigger] events_sent_to_recipients@[j]).signature_valid
                implies record_disposed(
                *store,
                events_sent_to_recipients@[j].event_sent_to_recipients@,
            ) by {
                if j < i {
                    let rv = events_sent_to_recipients@[j].event_sent_to_recipients@;
                    assert(record_disposed(store_at_top, rv));
                    if holds_sent_record(store_at_top, rv) {
                        let w = choose|w: int|
                            0 <= w < store_at_top.events_sent_to_recipients@.len()
                                && (#[trigger] store_at_top.events_sent_to_recipients@[w])@ == rv;
                        assert(store.events_sent_to_recipients@[w]@ == rv);
                    } else {
                        let w = choose|w: int|
                            0 <= w < store_at_top.awaiting_dependencies@.len()
                                && (#[trigger] store_at_top.awaiting_dependencies@[w])@
                                == parked_record(rv);
                        assert(store.awaiting_dependencies@[w]@ == parked_record(rv));
                    }
                }
            }
        }
    }
    if failed {
        Err(EngineError::SignatureInvalid)
    } else {
        Ok(())
    }
}

/// Some record in the sequence is this very signed value.
pub open spec fn holds_sent_record_in(
    records: Seq<EventSentToRecipients>,
    record: EventSentToRecipientsV,
) -> bool {
    exists|i: int| 0 <= i < records.len() && (#[trigger] records[i])@ == record
}

/// The last claimed delivery time of one event to each of the given agents.
pub fn query_events_sent_to_recipients(
    store: &EventStore,
    event_hash: &EventId,
    agents: &Vec<AgentId>,
) -> (r: Vec<(AgentId, Option<crate::types::Timestamp>)>)
    ensures
        r@.len() == agents@.len(),
        forall|k: int|
            0 <= k < r@.len() ==> (#[trigger] r@[k]).0 == agents@[k] && r@[k].1
                == store.last_time_sent(*event_hash, agents@[k]),
{
    let mut r: Vec<(AgentId, Option<crate::types::Timestamp>)> = Vec::new();
    let n: usize = agents.len();
    for i in 0..n
        invariant
            n == agents@.len(),
            r@.len() == i,
            forall|k: int|
                0 <= k < i ==> (#[trigger] r@[k]).0 == agents@[k] && r@[k].1
                    == store.last_time_sent(*event_hash, agents@[k]),
    {
        let agent = agents[i];
        r.push((agent, store.query_last_time_sent(event_hash, &agent)));
    }
    r
}

/// Copy the held delivery-attempt records out, in arrival order.
pub fn query_events_sent_to_recipients_entries(store: &EventStore) -> (r: Vec<
    EventSentToRecipients,
>)
    ensures
        r@.len() == store.events_sent_to_recipients@.len(),
        forall|k: int|
            0 <= k < r@.len() ==> (#[trigger] r@[k])@ == store.events_sent_to_recipients@[k]@,
{
    let mut r: Vec<EventSentToRecipients> = Vec::new();
    let n: usize = store.events_sent_to_recipients.len();
    for i in 0..n
        invariant
            n == store.events_sent_to_recipients@.len(),
            r@.len() == i,
            forall|k: int|
                0 <= k < i ==> (#[trigger] r@[k])@ == store.events_sent_to_recipients@[k]@,
    {
        r.push(store.events_sent_to_recipients[i].clone());
    }
    r
}

} // verus!
