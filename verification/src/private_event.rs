//! The application capability interface and the admission path.
//!
//! The application supplies the event type set behind the [`PrivateEvent`]
//! trait; the engine is generic over it and never looks inside an event.
//! Admission of received entries is idempotent (duplicates are skipped by
//! content hash), in deterministic order (ascending timestamp, ties by hash),
//! isolated per entry (one bad entry does not sink the batch), and guarded:
//! an entry whose signature the host could not verify is never admitted.

use vstd::prelude::*;
use vstd::multiset::Multiset;

use crate::store::{EventStore, StoredEvent};
use crate::types::{
    AgentId, Acknowledgement, AwaitingDependencies, AwaitingDependenciesV, EngineError, EventId,
    PrivateEventContent, PrivateEventEntry, SignedContent, SignedEntry, SignedEvent, Timestamp,
    ValidationOutcome,
};

verus! {

/// The application's event capability. The engine calls these and promises
/// nothing about their results; its own contracts hold whatever they return.
pub trait PrivateEvent: Sized {
    /// Encode this event into the opaque bytes the envelope carries.
    fn encode(&self) -> Vec<u8>;

    /// Decode an event of the given declared type from its opaque encoding.
    fn decode(event_type: &String, event: &Vec<u8>) -> Option<Self>;

    /// The application's type tag for this event.
    fn event_type(&self) -> String;

    /// Whether the event is to be accepted into the local log, judged
    /// against the local store.
    fn validate(
        &self,
        event_hash: &EventId,
        author: &AgentId,
        timestamp: Timestamp,
        store: &EventStore,
    ) -> ValidationOutcome;

    /// The agents, beyond the author's linked devices, that are to receive
    /// this event.
    fn recipients(
        &self,
        event_hash: &EventId,
        author: &AgentId,
        timestamp: Timestamp,
        store: &EventStore,
    ) -> Vec<AgentId>;

    /// Whether creating this event widens the recipient sets of previously
    /// admitted events.
    fn adds_new_recipients_for_other_events(
        &self,
        event_hash: &EventId,
        author: &AgentId,
        timestamp: Timestamp,
    ) -> bool;
}

/// An inbound entry together with the host facts about it: the content hash
/// the host computed for it, and whether its signature verifies over the
/// canonical encoding of its payload under its claimed author's key.
#[derive(Debug)]
pub struct ReceivedEntry {
    pub event_hash: EventId,
    pub entry: PrivateEventEntry,
    pub signature_valid: bool,
}

/// Check one entry, self-authored or received: the host's signature verdict
/// first, then decoding, then the declared type tag, then the application's
/// own judgement. An entry with an unverified signature is invalid whatever
/// the application would say.
pub fn validate_private_event_entry<T: PrivateEvent>(
    private_event_entry: &PrivateEventEntry,
    event_hash: &EventId,
    signature_valid: bool,
    store: &EventStore,
) -> (outcome: ValidationOutcome)
    ensures
        !signature_valid ==> outcome matches ValidationOutcome::Invalid(_),
{
    if !signature_valid {
        return ValidationOutcome::Invalid(
            "Invalid private event entry: invalid signature.".to_owned(),
        );
    }
    let decoded = T::decode(
        &private_event_entry.0.payload.content.event_type,
        &private_event_entry.0.payload.content.event,
    );
    let Some(private_event) = decoded else {
        return ValidationOutcome::Invalid(
            "Failed to deserialize the private event.".to_owned(),
        );
    };
    if !string_equals(&private_event.event_type(), &private_event_entry.0.payload.content.event_type) {
        return ValidationOutcome::Invalid(
            "Invalid event type: the decoded event does not match the declared tag.".to_owned(),
        );
    }
    private_event.validate(
        event_hash,
        &private_event_entry.0.author,
        private_event_entry.0.payload.timestamp,
        store,
    )
}

/// Whether two strings hold the same characters.
pub fn string_equals(a: &String, b: &String) -> (r: bool)
    ensures
        r == (a@ == b@),
{
    a.eq(b)
}

/// The processing order of received entries: ascending timestamp, ties
/// broken by content hash, so that merges are deterministic.
pub open spec fn entry_key_le(a: ReceivedEntry, b: ReceivedEntry) -> bool {
    a.entry.timestamp().0 < b.entry.timestamp().0 || (a.entry.timestamp().0
        == b.entry.timestamp().0 && a.event_hash.0 <= b.event_hash.0)
}

/// Pairwise sorted under the processing order.
pub open spec fn sorted_by_timestamp(s: Seq<ReceivedEntry>) -> bool {
    forall|i: int, j: int| 0 <= i < j < s.len() ==> entry_key_le(s[i], s[j])
}

/// Order received entries by ascending timestamp, ties by content hash. The
/// result holds exactly the given entries.
pub fn sort_received_entries(entries: Vec<ReceivedEntry>) -> (r: Vec<ReceivedEntry>)
    ensures
        r@.to_multiset() == entries@.to_multiset(),
        sorted_by_timestamp(r@),
{
    broadcast use vstd::seq_lib::group_to_multiset_ensures;

    let mut rest = entries;
    let mut out: Vec<ReceivedEntry> = Vec::new();
    while rest.len() > 0
        invariant
            out@.to_multiset().add(rest@.to_multiset()) == entries@.to_multiset(),
            sorted_by_timestamp(out@),
            forall|i: int, j: int|
                0 <= i < out@.len() && 0 <= j < rest@.len() ==> entry_key_le(out@[i], rest@[j]),
        decreases rest.len(),
    {
        let n: usize = rest.len();
        let mut m: usize = 0;
        for i in 1..n
            invariant
                n == rest@.len(),
                m < i <= n,
                forall|j: int| 0 <= j < i ==> entry_key_le(rest@[m as int], rest@[j]),
        {
            if !key_le(&rest[m], &rest[i]) {
                m = i;
            }
        }
        let ghost prev_rest = rest@;
        let ghost prev_out = out@;
        let e = rest.remove(m);
        out.push(e);
        proof {
            prev_rest.to_multiset_ensures();
            prev_out.to_multiset_ensures();
            assert(prev_rest.contains(prev_rest[m as int]));
            assert(rest@ == prev_rest.remove(m as int));
            assert(prev_rest.remove(m as int).to_multiset() =~= prev_rest.to_multiset().remove(
                prev_rest[m as int],
            ));
            assert(out@ == prev_out.push(e));
            assert(prev_out.push(e).to_multiset() =~= prev_out.to_multiset().insert(e));
            assert(out@.to_multiset().add(rest@.to_multiset()) =~= prev_out.to_multiset().add(
                prev_rest.to_multiset(),
            ));
        }
    }
    proof {
        assert(rest@.to_multiset() =~= Multiset::<ReceivedEntry>::empty());
        assert(out@.to_multiset() =~= out@.to_multiset().add(rest@.to_multiset()));
    }
    out
}

/// Decide the processing order between two received entries.
fn key_le(a: &ReceivedEntry, b: &ReceivedEntry) -> (r: bool)
    ensures
        r == entry_key_le(*a, *b),
{
    a.entry.0.payload.timestamp.0 < b.entry.0.payload.timestamp.0 || (a.entry.0.payload.timestamp.0
        == b.entry.0.payload.timestamp.0 && a.event_hash.0 <= b.event_hash.0)
}

/// An acknowledgement to hand back over the transport.
#[derive(Clone, Copy, Debug)]
pub struct AcknowledgementDelivery {
    pub recipient: AgentId,
    pub acknowledgement: Acknowledgement,
}

/// The aggregate result of receiving a batch: one bad entry does not sink
/// the batch, it is reported here beside the rest.
#[derive(Debug)]
pub struct ReceiveReport {
    pub admitted: Vec<EventId>,
    pub rejected: Vec<EventId>,
    pub parked: Vec<EventId>,
    pub acknowledgements_to_send: Vec<AcknowledgementDelivery>,
}

/// Receiving events touches nothing but the event log, the parked values
/// and nothing else.
pub open spec fn event_receipt_frame(pre: EventStore, post: EventStore) -> bool {
    &&& post.my_pub_key == pre.my_pub_key
    &&& post.acknowledgements == pre.acknowledgements
    &&& post.events_sent_to_recipients == pre.events_sent_to_recipients
}

/// The log is append-only: every admitted event stays admitted, unchanged.
pub open spec fn events_preserved(pre: EventStore, post: EventStore) -> bool {
    forall|id: EventId|
        pre.event_ids().contains(id) ==> #[trigger] post.event_ids().contains(id)
            && post.events_map()[id] == pre.events_map()[id]
}

/// Every event admitted beyond `pre` is one of the inputs, stored under its
/// own content hash, and its signature was verified. In particular an entry
/// whose signature the host refused is never admitted.
pub open spec fn new_events_are_verified_inputs(
    pre: EventStore,
    post: EventStore,
    inputs: Seq<ReceivedEntry>,
) -> bool {
    forall|id: EventId|
        #[trigger] post.event_ids().contains(id) && !pre.event_ids().contains(id) ==> exists|i: int|
            0 <= i < inputs.len() && (#[trigger] inputs[i]).event_hash == id
                && inputs[i].signature_valid && post.events_map()[id] == inputs[i].entry@
}

/// Parked values are only appended, never dropped or changed.
pub open spec fn awaiting_appended(pre: EventStore, post: EventStore) -> bool {
    &&& post.awaiting_dependencies@.len() >= pre.awaiting_dependencies@.len()
    &&& forall|k: int|
        0 <= k < pre.awaiting_dependencies@.len() ==> post.awaiting_dependencies@[k]
            == pre.awaiting_dependencies@[k]
}

/// The parked value holds one of the input entries, and only an entry whose
/// signature was verified is parked.
pub open spec fn parks_an_input_event(
    aw: AwaitingDependenciesV,
    inputs: Seq<ReceivedEntry>,
) -> bool {
    exists|i: int|
        0 <= i < inputs.len() && (#[trigger] inputs[i]).signature_valid && (aw matches
        AwaitingDependenciesV::Event { event_hash, event, unresolved_dependencies: _ }
            && event_hash == inputs[i].event_hash && event == inputs[i].entry@)
}

/// Every value parked beyond the first `parked` parks one of the inputs.
pub open spec fn new_parked_park_input_events(
    post: EventStore,
    parked: int,
    inputs: Seq<ReceivedEntry>,
) -> bool {
    forall|k: int|
        parked <= k < post.awaiting_dependencies@.len() ==> parks_an_input_event(
            (#[trigger] post.awaiting_dependencies@[k])@,
            inputs,
        )
}

/// Every acknowledgement handed back for sending goes to the sender of the
/// batch and is this agent's own, held acknowledgement.
pub open spec fn ack_deliveries_are_own_held(
    post: EventStore,
    provenance: AgentId,
    deliveries: Seq<AcknowledgementDelivery>,
) -> bool {
    forall|k: int|
        0 <= k < deliveries.len() ==> (#[trigger] deliveries[k]).recipient == provenance
            && post.acknowledgements@.contains(deliveries[k].acknowledgement)
            && deliveries[k].acknowledgement.acker() == post.my_pub_key
}

/// An acknowledgement is owed back for an input entry when the entry was
/// already admitted, someone else authored it, and this agent holds its own
/// acknowledgement for it.
pub open spec fn duplicate_ack_owed_for(pre: EventStore, input: ReceivedEntry) -> bool {
    &&& pre.event_ids().contains(input.event_hash)
    &&& pre.events_map()[input.event_hash].author != pre.my_pub_key
    &&& pre.has_acknowledgement(pre.my_pub_key, input.event_hash)
}

/// Some handed-back acknowledgement covers the event.
pub open spec fn ack_delivery_exists(
    deliveries: Seq<AcknowledgementDelivery>,
    event_hash: EventId,
) -> bool {
    exists|k: int|
        0 <= k < deliveries.len() && (#[trigger] deliveries[k]).acknowledgement.event_hash()
            == event_hash
}

/// "Already have it" is not "already acknowledged it to this peer": for every
/// input entry that is owed an acknowledgement, one is handed back.
pub open spec fn duplicate_acks_owed(
    pre: EventStore,
    inputs: Seq<ReceivedEntry>,
    deliveries: Seq<AcknowledgementDelivery>,
) -> bool {
    forall|i: int|
        0 <= i < inputs.len() && duplicate_ack_owed_for(pre, #[trigger] inputs[i])
            ==> ack_delivery_exists(deliveries, inputs[i].event_hash)
}

/// Every listed hash names one of the inputs.
pub open spec fn report_ids_from_inputs(ids: Seq<EventId>, inputs: Seq<ReceivedEntry>) -> bool {
    forall|k: int|
        0 <= k < ids.len() ==> exists|i: int|
            0 <= i < inputs.len() && (#[trigger] inputs[i]).event_hash == #[trigger] ids[k]
}

/// The input entry was dealt with: its event is admitted, or its hash was
/// rejected or parked.
pub open spec fn input_disposed(
    store: EventStore,
    rejected: Seq<EventId>,
    parked: Seq<EventId>,
    input: ReceivedEntry,
) -> bool {
    ||| store.event_ids().contains(input.event_hash)
    ||| rejected.contains(input.event_hash)
    ||| parked.contains(input.event_hash)
}

/// No input entry is dropped silently: each ends admitted, rejected or
/// parked.
pub open spec fn every_input_disposed(
    store: EventStore,
    rejected: Seq<EventId>,
    parked: Seq<EventId>,
    inputs: Seq<ReceivedEntry>,
) -> bool {
    forall|i: int|
        0 <= i < inputs.len() ==> input_disposed(store, rejected, parked, #[trigger] inputs[i])
}

/// The listed admissions are exactly the events admitted by the call.
pub open spec fn admitted_ids_exact(
    pre: EventStore,
    post: EventStore,
    admitted: Seq<EventId>,
) -> bool {
    &&& forall|k: int|
        0 <= k < admitted.len() ==> post.event_ids().contains(#[trigger] admitted[k])
            && !pre.event_ids().contains(admitted[k])
    &&& forall|id: EventId|
        #[trigger] post.event_ids().contains(id) && !pre.event_ids().contains(id)
            ==> admitted.contains(id)
}

/// Take a batch of received entries in, in ascending timestamp order (ties
/// by content hash): skip entries already admitted — handing back an
/// acknowledgement for the sender where one is held, since "already have it"
/// is not "already acknowledged it to this peer" — admit valid ones, park
/// ones with unresolved dependencies, and reject invalid ones in the report
/// without sinking the rest of the batch.
pub fn receive_private_events<T: PrivateEvent>(
    store: &mut EventStore,
    provenance: AgentId,
    private_event_entries: Vec<ReceivedEntry>,
) -> (report: ReceiveReport)
    requires
        old(store).wf(),
    ensures
        final(store).wf(),
        event_receipt_frame(*old(store), *final(store)),
        events_preserved(*old(store), *final(store)),
        new_events_are_verified_inputs(*old(store), *final(store), private_event_entries@),
        awaiting_appended(*old(store), *final(store)),
        new_parked_park_input_events(
            *final(store),
            old(store).awaiting_dependencies@.len() as int,
            private_event_entries@,
        ),
        ack_deliveries_are_own_held(
            *final(store),
            provenance,
            report.acknowledgements_to_send@,
        ),
        duplicate_acks_owed(
            *old(store),
            private_event_entries@,
            report.acknowledgements_to_send@,
        ),
        admitted_ids_exact(*old(store), *final(store), report.admitted@),
        report_ids_from_inputs(report.rejected@, private_event_entries@),
        report_ids_from_inputs(report.parked@, private_event_entries@),
        every_input_disposed(
            *final(store),
            report.rejected@,
            report.parked@,
            private_event_entries@,
        ),
{
    broadcast use vstd::seq_lib::group_to_multiset_ensures;

    let ghost inputs = private_event_entries@;
    let mut rest = sort_received_entries(private_event_entries);
    let ghost full = rest@;
    proof {
        assert forall|x: ReceivedEntry| full.contains(x) implies inputs.contains(x) by {
            full.to_multiset_ensures();
            inputs.to_multiset_ensures();
            assert(full.to_multiset().count(x) > 0);
        }
    }
    let mut admitted: Vec<EventId> = Vec::new();
    let mut rejected: Vec<EventId> = Vec::new();
    let mut parked: Vec<EventId> = Vec::new();
    let mut acknowledgements_to_send: Vec<AcknowledgementDelivery> = Vec::new();
    let ghost mut processed: int = 0;
    proof {
        assert(full.skip(0) =~= full);
        assert(full.take(0) =~= Seq::<ReceivedEntry>::empty());
    }
    while rest.len() > 0
        invariant
            store.wf(),
            0 <= processed <= full.len(),
            processed == full.len() - rest@.len(),
            rest@ == full.skip(processed),
            forall|x: ReceivedEntry| full.contains(x) ==> inputs.contains(x),
            event_receipt_frame(*old(store), *store),
            events_preserved(*old(store), *store),
            new_events_are_verified_inputs(*old(store), *store, inputs),
            awaiting_appended(*old(store), *store),
            new_parked_park_input_events(
                *store,
                old(store).awaiting_dependencies@.len() as int,
                inputs,
            ),
            ack_deliveries_are_own_held(*store, provenance, acknowledgements_to_send@),
            duplicate_acks_owed(*old(store), full.take(processed), acknowledgements_to_send@),
            admitted_ids_exact(*old(store), *store, admitted@),
            report_ids_from_inputs(rejected@, inputs),
            report_ids_from_inputs(parked@, inputs),
            every_input_disposed(*store, rejected@, parked@, full.take(processed)),
        decreases rest@.len(),
    {
        let ghost store_at_top = *store;
        let ghost prev_deliveries = acknowledgements_to_send@;
        let ghost prev_admitted = admitted@;
        let ghost prev_rejected = rejected@;
        let ghost prev_parked = parked@;
        let ghost prev_rest = rest@;
        let e = rest.remove(0);
        let ghost ge = e;
        proof {
            assert(prev_rest.len() > 0);
            assert(0 <= processed < full.len());
            assert(prev_rest[0] == full.skip(processed)[0]);
            assert(full.skip(processed)[0] == full[processed]);
            assert(ge == full[processed]);
            assert(full.contains(ge));
            assert(rest@ =~= full.skip(processed + 1));
            processed = processed + 1;
        }
        let is_duplicate = store.contains_event(&e.event_hash);
        if is_duplicate {
            // Idempotent dedup: the event is already admitted. If someone
            // else authored it, hand the sender this agent's own
            // acknowledgement, if one is held.
            let stored = store.query_private_event_entry(&e.event_hash);
            if let Some(stored_entry) = stored {
                if stored_entry.0.author != store.my_pub_key {
                    let my_ack = crate::acknowledgements::query_my_acknowledgement_for(
                        store,
                        &e.event_hash,
                    );
                    if let Some(acknowledgement) = my_ack {
                        acknowledgements_to_send.push(
                            AcknowledgementDelivery { recipient: provenance, acknowledgement },
                        );
                        proof {
                            assert(acknowledgements_to_send@.last().acknowledgement.event_hash()
                                == ge.event_hash);
                            assert(ack_delivery_exists(acknowledgements_to_send@, ge.event_hash));
                        }
                    } else {
                        proof {
                            if duplicate_ack_owed_for(*old(store), ge) {
                                assert(false);
                            }
                        }
                    }
                } else {
                    proof {
                        if duplicate_ack_owed_for(*old(store), ge) {
                            assert(stored_entry@.author == old(store).events_map()[
                                ge.event_hash
                            ].author);
                            assert(false);
                        }
                    }
                }
            } else {
                proof {
                    if duplicate_ack_owed_for(*old(store), ge) {
                        assert(false);
                    }
                }
            }
            proof {
                if duplicate_ack_owed_for(*old(store), ge) {
                    assert(ack_delivery_exists(acknowledgements_to_send@, ge.event_hash));
                }
                assert(input_disposed(*store, rejected@, parked@, ge));
            }
        } else {
            let outcome = validate_private_event_entry::<T>(
                &e.entry,
                &e.event_hash,
                e.signature_valid,
                store,
            );
            match outcome {
                ValidationOutcome::Valid => {
                    let ghost pre_ids = store.event_ids();
                    store.admit_event(e.event_hash, e.entry);
                    admitted.push(e.event_hash);
                    proof {
                        assert(inputs.contains(ge));
                        let i = choose|i: int| 0 <= i < inputs.len() && inputs[i] == ge;
                        assert(inputs[i].event_hash == e.event_hash);
                        assert forall|id: EventId|
                            #[trigger] store.event_ids().contains(id) && !old(
                                store,
                            ).event_ids().contains(id) implies exists|i: int|
                            0 <= i < inputs.len() && (#[trigger] inputs[i]).event_hash == id
                                && inputs[i].signature_valid && store.events_map()[id]
                                == inputs[i].entry@ by {
                            if id != ge.event_hash {
                                assert(pre_ids.contains(id));
                            }
                        }
                        assert forall|id: EventId|
                            #[trigger] store.event_ids().contains(id) && !old(
                                store,
                            ).event_ids().contains(id) implies admitted@.contains(id) by {
                            if id == ge.event_hash {
                                assert(admitted@.last() == id);
                            } else {
                                assert(pre_ids.contains(id));
                                assert(prev_admitted.contains(id));
                                let k = choose|k: int|
                                    0 <= k < prev_admitted.len() && prev_admitted[k] == id;
                                assert(admitted@[k] == id);
                            }
                        }
                        assert(store.event_ids().contains(ge.event_hash));
                        assert(input_disposed(*store, rejected@, parked@, ge));
                    }
                },
                ValidationOutcome::Invalid(_) => {
                    rejected.push(e.event_hash);
                    proof {
                        assert(inputs.contains(ge));
                        let i = choose|i: int| 0 <= i < inputs.len() && inputs[i] == ge;
                        assert(inputs[i].event_hash == ge.event_hash);
                        assert(rejected@.last() == ge.event_hash);
                        assert(input_disposed(*store, rejected@, parked@, ge));
                    }
                },
                ValidationOutcome::UnresolvedDependencies(unresolved_dependencies) => {
                    store.park_awaiting(
                        AwaitingDependencies::Event {
                            event_hash: e.event_hash,
                            event: e.entry,
                            unresolved_dependencies,
                        },
                    );
                    parked.push(e.event_hash);
                    proof {
                        assert(inputs.contains(ge));
                        let i = choose|i: int| 0 <= i < inputs.len() && inputs[i] == ge;
                        assert(inputs[i].event_hash == e.event_hash);
                        assert(parks_an_input_event(
                            store.awaiting_dependencies@.last()@,
                            inputs,
                        ));
                        assert(parked@.last() == ge.event_hash);
                        assert(input_disposed(*store, rejected@, parked@, ge));
                    }
                },
            }
            proof {
                if duplicate_ack_owed_for(*old(store), ge) {
                    assert(store_at_top.event_ids().contains(ge.event_hash));
                    assert(false);
                }
            }
        }
        proof {
            assert(full.take(processed).len() == processed);
            assert(full.take(processed).drop_last() =~= full.take(processed - 1));
            assert(full.take(processed)[processed - 1] == ge);
            assert forall|ii: int|
                0 <= ii < processed && duplicate_ack_owed_for(
                    *old(store),
                    #[trigger] full.take(processed)[ii],
                ) implies ack_delivery_exists(
                acknowledgements_to_send@,
                full.take(processed)[ii].event_hash,
            ) by {
                if ii < processed - 1 {
                    assert(full.take(processed)[ii] == full.take(processed - 1)[ii]);
                    assert(ack_delivery_exists(
                        prev_deliveries,
                        full.take(processed - 1)[ii].event_hash,
                    ));
                    let k = choose|k: int|
                        0 <= k < prev_deliveries.len()
                            && (#[trigger] prev_deliveries[k]).acknowledgement.event_hash()
                            == full.take(processed)[ii].event_hash;
                    assert(acknowledgements_to_send@[k] == prev_deliveries[k]);
                } else {
                    assert(full.take(processed)[ii] == ge);
                }
            }
            assert forall|ii: int|
                0 <= ii < processed implies input_disposed(
                *store,
                rejected@,
                parked@,
                #[trigger] full.take(processed)[ii],
            ) by {
                if ii < processed - 1 {
                    let x = full.take(processed - 1)[ii];
                    assert(full.take(processed)[ii] == x);
                    assert(input_disposed(store_at_top, prev_rejected, prev_parked, x));
                    if store_at_top.event_ids().contains(x.event_hash) {
                        assert(store.event_ids().contains(x.event_hash));
                    } else if prev_rejected.contains(x.event_hash) {
                        let k = choose|k: int|
                            0 <= k < prev_rejected.len() && prev_rejected[k] == x.event_hash;
                        assert(rejected@[k] == x.event_hash);
                    } else {
                        let k = choose|k: int|
                            0 <= k < prev_parked.len() && prev_parked[k] == x.event_hash;
                        assert(parked@[k] == x.event_hash);
                    }
                } else {
                    assert(full.take(processed)[ii] == ge);
                    assert(input_disposed(*store, rejected@, parked@, ge));
                }
            }
        }
    }
    proof {
        assert(full.take(processed) =~= full);
        assert forall|i: int|
            0 <= i < inputs.len() && old(store).event_ids().contains(
                (#[trigger] inputs[i]).event_hash,
            ) && old(store).events_map()[inputs[i].event_hash].author != old(store).my_pub_key
            && old(store).has_acknowledgement(old(store).my_pub_key, inputs[i].event_hash)
            implies exists|k: int|
            0 <= k < acknowledgements_to_send@.len()
                && (#[trigger] acknowledgements_to_send@[k]).acknowledgement.event_hash()
                == inputs[i].event_hash by {
            assert(inputs.contains(inputs[i]));
            inputs.to_multiset_ensures();
            full.to_multiset_ensures();
            assert(full.to_multiset() == inputs.to_multiset());
            assert(inputs.to_multiset().count(inputs[i]) > 0);
            assert(full.contains(inputs[i]));
            let j = choose|j: int| 0 <= j < full.len() && full[j] == inputs[i];
            assert(full.take(processed)[j] == inputs[i]);
            assert(duplicate_ack_owed_for(*old(store), full.take(processed)[j]));
            assert(ack_delivery_exists(acknowledgements_to_send@, inputs[i].event_hash));
        }
        assert forall|i: int|
            0 <= i < inputs.len() implies input_disposed(
            *store,
            rejected@,
            parked@,
            #[trigger] inputs[i],
        ) by {
            assert(inputs.contains(inputs[i]));
            inputs.to_multiset_ensures();
            full.to_multiset_ensures();
            assert(full.to_multiset() == inputs.to_multiset());
            assert(inputs.to_multiset().count(inputs[i]) > 0);
            assert(full.contains(inputs[i]));
            let j = choose|j: int| 0 <= j < full.len() && full[j] == inputs[i];
            assert(full.take(processed)[j] == inputs[i]);
            assert(input_disposed(*store, rejected@, parked@, full.take(processed)[j]));
        }
    }
    ReceiveReport { admitted, rejected, parked, acknowledgements_to_send }
}

/// Record a locally authored event: check the declared type tag, run the
/// application's own validation, and admit the signed envelope on success.
/// A locally authored event must satisfy its own validator: it is never
/// parked, and on any failure nothing is stored.
pub fn create_private_event<T: PrivateEvent>(
    store: &mut EventStore,
    private_event: &T,
    private_event_entry: PrivateEventEntry,
    event_hash: EventId,
) -> (r: Result<EventId, EngineError>)
    requires
        old(store).wf(),
        private_event_entry.author() == old(store).my_pub_key,
    ensures
        final(store).wf(),
        event_receipt_frame(*old(store), *final(store)),
        final(store).awaiting_dependencies == old(store).awaiting_dependencies,
        events_preserved(*old(store), *final(store)),
        match r {
            Ok(id) => id == event_hash && final(store).event_ids().contains(event_hash) && (
            old(store).event_ids().contains(event_hash) ==> *final(store) == *old(store)) && (!old(
                store,
            ).event_ids().contains(event_hash) ==> final(store).events_map() == old(
                store,
            ).events_map().insert(event_hash, private_event_entry@)),
            Err(_) => *final(store) == *old(store),
        },
{
    if !string_equals(
        &private_event.event_type(),
        &private_event_entry.0.payload.content.event_type,
    ) {
        return Err(
            EngineError::MalformedEnvelope(
                "The event's type does not match the envelope's declared tag.".to_owned(),
            ),
        );
    }
    let outcome = private_event.validate(
        &event_hash,
        &private_event_entry.0.author,
        private_event_entry.0.payload.timestamp,
        store,
    );
    match outcome {
        ValidationOutcome::Valid => {
            if store.contains_event(&event_hash) {
                Ok(event_hash)
            } else {
                store.admit_event(event_hash, private_event_entry);
                Ok(event_hash)
            }
        },
        ValidationOutcome::Invalid(reason) => Err(EngineError::ApplicationRejected(reason)),
        ValidationOutcome::UnresolvedDependencies(_) => Err(EngineError::UnresolvedDependency),
    }
}

/// Copy the admitted events out, in admission order.
pub fn query_private_event_entries(store: &EventStore) -> (r: Vec<StoredEvent>)
    ensures
        r@.len() == store.events@.len(),
        forall|k: int|
            0 <= k < r@.len() ==> (#[trigger] r@[k]).event_hash == store.events@[k].event_hash
                && r@[k].entry@ == store.events@[k].entry@,
{
    let mut r: Vec<StoredEvent> = Vec::new();
    let n: usize = store.events.len();
    for i in 0..n
        invariant
            n == store.events@.len(),
            r@.len() == i,
            forall|k: int|
                0 <= k < i ==> (#[trigger] r@[k]).event_hash == store.events@[k].event_hash
                    && r@[k].entry@ == store.events@[k].entry@,
    {
        r.push(store.events[i].clone());
    }
    r
}

/// Copy the admitted events whose declared type tag is the given one: each
/// returned event carries that tag and is admitted, and every admitted event
/// with that tag is returned.
pub fn query_private_event_entries_by_type(store: &EventStore, event_type: &String) -> (r: Vec<
    StoredEvent,
>)
    requires
        store.wf(),
    ensures
        forall|k: int|
            0 <= k < r@.len() ==> (#[trigger] r@[k]).entry@.event_type == event_type@
                && store.event_ids().contains(r@[k].event_hash) && store.events_map()[
                r@[k].event_hash
            ] == r@[k].entry@,
        forall|j: int|
            0 <= j < store.events@.len() && (#[trigger] store.events@[j]).entry@.event_type
                == event_type@ ==> exists|k: int|
                0 <= k < r@.len() && (#[trigger] r@[k]).event_hash == store.events@[j].event_hash,
{
    let mut r: Vec<StoredEvent> = Vec::new();
    let n: usize = store.events.len();
    for i in 0..n
        invariant
            store.wf(),
            n == store.events@.len(),
            forall|k: int|
                0 <= k < r@.len() ==> (#[trigger] r@[k]).entry@.event_type == event_type@
                    && store.event_ids().contains(r@[k].event_hash) && store.events_map()[
                    r@[k].event_hash
                ] == r@[k].entry@,
            forall|j: int|
                0 <= j < i && (#[trigger] store.events@[j]).entry@.event_type == event_type@
                    ==> exists|k: int|
                    0 <= k < r@.len() && (#[trigger] r@[k]).event_hash
                        == store.events@[j].event_hash,
    {
        let stored = &store.events[i];
        if string_equals(&stored.entry.0.payload.content.event_type, event_type) {
            proof {
                crate::store::lemma_events_map_index(store.events@, i as int);
            }
            let ghost prev_r = r@;
            r.push(stored.clone());
            proof {
                assert(r@.last().event_hash == store.events@[i as int].event_hash);
                assert forall|j: int|
                    0 <= j < i + 1 && (#[trigger] store.events@[j]).entry@.event_type
                        == event_type@ implies exists|k: int|
                    0 <= k < r@.len() && (#[trigger] r@[k]).event_hash
                        == store.events@[j].event_hash by {
                    if j < i {
                        let k = choose|k: int|
                            0 <= k < prev_r.len() && (#[trigger] prev_r[k]).event_hash
                                == store.events@[j].event_hash;
                        assert(r@[k] == prev_r[k]);
                    } else {
                        assert(r@[r@.len() - 1].event_hash == store.events@[j].event_hash);
                    }
                }
            }
        }
    }
    r
}

/// Rebuild the signed envelope around the decoded application event. The
/// author, timestamp and declared tag carry over unchanged.
pub fn private_event_entry_to_signed_event<T: PrivateEvent>(
    private_event_entry: PrivateEventEntry,
) -> (r: Result<SignedEvent<T>, EngineError>)
    ensures
        match r {
            Ok(signed) => signed.author == private_event_entry.author() && signed.signature
                == private_event_entry.0.signature && signed.payload.timestamp
                == private_event_entry.timestamp() && signed.payload.content.event_type@
                == private_event_entry.event_type(),
            Err(e) => e matches EngineError::MalformedEnvelope(_),
        },
{
    let decoded = T::decode(
        &private_event_entry.0.payload.content.event_type,
        &private_event_entry.0.payload.content.event,
    );
    let Some(private_event) = decoded else {
        return Err(
            EngineError::MalformedEnvelope("Failed to deserialize the private event.".to_owned()),
        );
    };
    Ok(
        SignedEntry {
            author: private_event_entry.0.author,
            signature: private_event_entry.0.signature,
            payload: SignedContent {
                timestamp: private_event_entry.0.payload.timestamp,
                content: PrivateEventContent {
                    event_type: private_event_entry.0.payload.content.event_type,
                    event: private_event,
                },
            },
        },
    )
}

/// Look one admitted event up and decode it.
pub fn query_private_event<T: PrivateEvent>(store: &EventStore, event_hash: &EventId) -> (r:
    Option<SignedEvent<T>>)
    requires
        store.wf(),
    ensures
        r is Some ==> store.event_ids().contains(*event_hash),
{
    let Some(private_event_entry) = store.query_private_event_entry(event_hash) else {
        return None;
    };
    match private_event_entry_to_signed_event::<T>(private_event_entry) {
        Ok(signed_event) => Some(signed_event),
        Err(_) => None,
    }
}

/// Decode the admitted events of one declared type, each under its content
/// hash.
pub fn query_private_events_by_type<T: PrivateEvent>(store: &EventStore, event_type: &String) -> (r:
    Vec<(EventId, SignedEvent<T>)>)
    requires
        store.wf(),
    ensures
        forall|k: int|
            0 <= k < r@.len() ==> store.event_ids().contains((#[trigger] r@[k]).0)
                && store.events_map()[r@[k].0].event_type == event_type@,
{
    let entries = query_private_event_entries_by_type(store, event_type);
    let mut r: Vec<(EventId, SignedEvent<T>)> = Vec::new();
    let n: usize = entries.len();
    for i in 0..n
        invariant
            store.wf(),
            n == entries@.len(),
            forall|k: int|
                0 <= k < entries@.len() ==> (#[trigger] entries@[k]).entry@.event_type
                    == event_type@ && store.event_ids().contains(entries@[k].event_hash)
                    && store.events_map()[entries@[k].event_hash] == entries@[k].entry@,
            forall|k: int|
                0 <= k < r@.len() ==> store.event_ids().contains((#[trigger] r@[k]).0)
                    && store.events_map()[r@[k].0].event_type == event_type@,
    {
        let stored = &entries[i];
        match private_event_entry_to_signed_event::<T>(stored.entry.clone()) {
            Ok(signed_event) => {
                r.push((stored.event_hash, signed_event));
            },
            Err(_) => {},
        }
    }
    r
}

/// Decode every admitted event that the application's type set can decode,
/// each under its content hash.
pub fn query_private_events<T: PrivateEvent>(store: &EventStore) -> (r: Vec<(EventId, SignedEvent<
    T,
>)>)
    requires
        store.wf(),
    ensures
        forall|k: int|
            0 <= k < r@.len() ==> store.event_ids().contains((#[trigger] r@[k]).0),
{
    let mut r: Vec<(EventId, SignedEvent<T>)> = Vec::new();
    let n: usize = store.events.len();
    for i in 0..n
        invariant
            store.wf(),
            n == store.events@.len(),
            forall|k: int| 0 <= k < r@.len() ==> store.event_ids().contains((#[trigger] r@[k]).0),
    {
        let stored = &store.events[i];
        match private_event_entry_to_signed_event::<T>(stored.entry.clone()) {
            Ok(signed_event) => {
                proof {
                    crate::store::lemma_events_map_index(store.events@, i as int);
                }
                r.push((stored.event_hash, signed_event));
            },
            Err(_) => {},
        }
    }
    r
}

} // verus!
