//! The awaiting-dependencies queue and its draining pass.
//!
//! Anything received that referenced a not-yet-present event is parked. The
//! pass below runs periodically and after admissions: parked events whose
//! hash is still missing are re-validated in timestamp order and admitted
//! when their dependencies have arrived; parked events that fail validation
//! even then are discarded for good; parked acknowledgements and
//! delivery-attempt records are promoted into the primary stores once their
//! event is locally present. Afterwards everything left in the queue still
//! references a missing event.

use vstd::prelude::*;

use crate::acknowledgements::{acknowledgement_parked, appended_acks_are_new, parked_ack};
use crate::events_sent::{
    appended_records_are_new, contains_event_sent, holds_sent_record, parked_record, record_parked,
};
use crate::private_event::{
    events_preserved, sort_received_entries, validate_private_event_entry, PrivateEvent,
    ReceivedEntry,
};
use crate::store::EventStore;
use crate::types::{
    Acknowledgement, AwaitingDependencies, AwaitingDependenciesV, EventId, EventSentToRecipientsV,
    PrivateEventEntryV, ValidationOutcome,
};

verus! {

/// The parked value holds this event under this hash.
pub open spec fn parks_event_with(
    aw: AwaitingDependenciesV,
    event_hash: EventId,
    event: PrivateEventEntryV,
) -> bool {
    aw matches AwaitingDependenciesV::Event {
        event_hash: h,
        event: v,
        unresolved_dependencies: _,
    } && h == event_hash && v == event
}

/// The parked value holds this acknowledgement.
pub open spec fn parks_acknowledgement(
    aw: AwaitingDependenciesV,
    acknowledgement: Acknowledgement,
) -> bool {
    aw == (AwaitingDependenciesV::Acknowledgement { acknowledgement })
}

/// The parked value holds this delivery-attempt record.
pub open spec fn parks_sent_record(
    aw: AwaitingDependenciesV,
    record: EventSentToRecipientsV,
) -> bool {
    aw == (AwaitingDependenciesV::EventsSentToRecipients { event_sent_to_recipients: record })
}

/// The parked value references an event the store does not hold: the
/// acknowledged or delivered event for a parked acknowledgement or record,
/// and the parked event's own hash for a parked event. A parked event's
/// unresolved dependencies are judged by the application's validator, which
/// the store cannot read; what the store itself can guarantee is that a
/// parked event is retired the moment its own hash is admitted, so the queue
/// never shadows the log.
pub open spec fn references_missing_event(store: EventStore, aw: AwaitingDependenciesV) -> bool {
    match aw {
        AwaitingDependenciesV::Event { event_hash, event: _, unresolved_dependencies: _ } => {
            !store.event_ids().contains(event_hash)
        },
        AwaitingDependenciesV::Acknowledgement { acknowledgement } => {
            !store.event_ids().contains(acknowledgement.event_hash())
        },
        AwaitingDependenciesV::EventsSentToRecipients { event_sent_to_recipients } => {
            !store.event_ids().contains(event_sent_to_recipients.event_hash)
        },
    }
}

/// Copy the parked values out, in arrival order.
pub fn query_awaiting_deps(store: &EventStore) -> (r: Vec<AwaitingDependencies>)
    ensures
        r@.len() == store.awaiting_dependencies@.len(),
        forall|k: int| 0 <= k < r@.len() ==> (#[trigger] r@[k])@ == store.awaiting_dependencies@[k]@,
{
    let mut r: Vec<AwaitingDependencies> = Vec::new();
    let n: usize = store.awaiting_dependencies.len();
    for i in 0..n
        invariant
            n == store.awaiting_dependencies@.len(),
            r@.len() == i,
            forall|k: int|
                0 <= k < i ==> (#[trigger] r@[k])@ == store.awaiting_dependencies@[k]@,
    {
        r.push(store.awaiting_dependencies[i].clone());
    }
    r
}

/// Copy out the parked events whose hash the store does not yet hold. Each
/// returned entry comes from the queue; every parked event still missing is
/// returned.
pub fn query_awaiting_deps_private_event_entries(store: &EventStore) -> (r: Vec<ReceivedEntry>)
    ensures
        forall|k: int|
            0 <= k < r@.len() ==> (#[trigger] r@[k]).signature_valid && !store.event_ids().contains(
                r@[k].event_hash,
            ) && exists|k0: int|
                0 <= k0 < store.awaiting_dependencies@.len() && parks_event_with(
                    (#[trigger] store.awaiting_dependencies@[k0])@,
                    r@[k].event_hash,
                    r@[k].entry@,
                ),
        forall|k0: int, h: EventId, v: PrivateEventEntryV|
            0 <= k0 < store.awaiting_dependencies@.len() && #[trigger] parks_event_with(
                store.awaiting_dependencies@[k0]@,
                h,
                v,
            ) && !store.event_ids().contains(h) ==> exists|k: int|
                0 <= k < r@.len() && (#[trigger] r@[k]).event_hash == h && r@[k].entry@ == v,
{
    let mut r: Vec<ReceivedEntry> = Vec::new();
    let n: usize = store.awaiting_dependencies.len();
    for i in 0..n
        invariant
            n == store.awaiting_dependencies@.len(),
            forall|k: int|
                0 <= k < r@.len() ==> (#[trigger] r@[k]).signature_valid
                    && !store.event_ids().contains(r@[k].event_hash) && exists|k0: int|
                    0 <= k0 < store.awaiting_dependencies@.len() && parks_event_with(
                        (#[trigger] store.awaiting_dependencies@[k0])@,
                        r@[k].event_hash,
                        r@[k].entry@,
                    ),
            forall|k0: int, h: EventId, v: PrivateEventEntryV|
                0 <= k0 < i && #[trigger] parks_event_with(
                    store.awaiting_dependencies@[k0]@,
                    h,
                    v,
                ) && !store.event_ids().contains(h) ==> exists|k: int|
                    0 <= k < r@.len() && (#[trigger] r@[k]).event_hash == h && r@[k].entry@ == v,
    {
        let aw = &store.awaiting_dependencies[i];
        if let AwaitingDependencies::Event { event_hash, event, unresolved_dependencies: _ } = aw {
            if !store.contains_event(event_hash) {
                let ghost prev_r = r@;
                r.push(
                    ReceivedEntry {
                        event_hash: *event_hash,
                        entry: event.clone(),
                        signature_valid: true,
                    },
                );
                proof {
                    assert(parks_event_with(
                        store.awaiting_dependencies@[i as int]@,
                        r@.last().event_hash,
                        r@.last().entry@,
                    ));
                    assert forall|k0: int, h: EventId, v: PrivateEventEntryV|
                        0 <= k0 < i + 1 && #[trigger] parks_event_with(
                            store.awaiting_dependencies@[k0]@,
                            h,
                            v,
                        ) && !store.event_ids().contains(h) implies exists|k: int|
                        0 <= k < r@.len() && (#[trigger] r@[k]).event_hash == h && r@[k].entry@
                            == v by {
                        if k0 < i {
                            let k = choose|k: int|
                                0 <= k < prev_r.len() && (#[trigger] prev_r[k]).event_hash == h
                                    && prev_r[k].entry@ == v;
                            assert(r@[k] == prev_r[k]);
                        } else {
                            assert(r@[r@.len() - 1].event_hash == h);
                            assert(r@[r@.len() - 1].entry@ == v);
                        }
                    }
                }
            }
        }
    }
    r
}

/// The acknowledgement sits parked in the queue and is not yet held.
pub open spec fn parked_ack_pending(store: EventStore, acknowledgement: Acknowledgement) -> bool {
    &&& !store.acknowledgements@.contains(acknowledgement)
    &&& exists|k0: int|
        0 <= k0 < store.awaiting_dependencies@.len() && parks_acknowledgement(
            (#[trigger] store.awaiting_dependencies@[k0])@,
            acknowledgement,
        )
}

/// Copy out the parked acknowledgements not already held.
pub fn query_awaiting_deps_acknowledgements(store: &EventStore) -> (r: Vec<Acknowledgement>)
    ensures
        forall|k: int| 0 <= k < r@.len() ==> #[trigger] parked_ack_pending(*store, r@[k]),
{
    let mut r: Vec<Acknowledgement> = Vec::new();
    let n: usize = store.awaiting_dependencies.len();
    for i in 0..n
        invariant
            n == store.awaiting_dependencies@.len(),
            forall|k: int| 0 <= k < r@.len() ==> #[trigger] parked_ack_pending(*store, r@[k]),
    {
        let aw = &store.awaiting_dependencies[i];
        if let AwaitingDependencies::Acknowledgement { acknowledgement } = aw {
            if !crate::acknowledgements::contains_acknowledgement(store, acknowledgement) {
                r.push(*acknowledgement);
                proof {
                    assert(parks_acknowledgement(
                        store.awaiting_dependencies@[i as int]@,
                        r@.last(),
                    ));
                    assert(parked_ack_pending(*store, r@.last()));
                }
            }
        }
    }
    r
}

/// The delivery-attempt record sits parked in the queue and is not yet held.
pub open spec fn parked_record_pending(store: EventStore, record: EventSentToRecipientsV) -> bool {
    &&& !holds_sent_record(store, record)
    &&& exists|k0: int|
        0 <= k0 < store.awaiting_dependencies@.len() && parks_sent_record(
            (#[trigger] store.awaiting_dependencies@[k0])@,
            record,
        )
}

/// Copy out the parked delivery-attempt records not already held.
pub fn query_awaiting_deps_events_sent_to_recipients(store: &EventStore) -> (r: Vec<
    crate::types::EventSentToRecipients,
>)
    ensures
        forall|k: int| 0 <= k < r@.len() ==> #[trigger] parked_record_pending(*store, r@[k]@),
{
    let mut r: Vec<crate::types::EventSentToRecipients> = Vec::new();
    let n: usize = store.awaiting_dependencies.len();
    for i in 0..n
        invariant
            n == store.awaiting_dependencies@.len(),
            forall|k: int| 0 <= k < r@.len() ==> #[trigger] parked_record_pending(*store, r@[k]@),
    {
        let aw = &store.awaiting_dependencies[i];
        if let AwaitingDependencies::EventsSentToRecipients { event_sent_to_recipients } = aw {
            if !contains_event_sent(store, event_sent_to_recipients) {
                let ghost prev_r = r@;
                r.push(event_sent_to_recipients.clone());
                proof {
                    assert(r@.last()@ == event_sent_to_recipients@);
                    assert(store.awaiting_dependencies@[i as int]@
                        == (AwaitingDependenciesV::EventsSentToRecipients {
                        event_sent_to_recipients: event_sent_to_recipients@,
                    }));
                    assert(parks_sent_record(
                        store.awaiting_dependencies@[i as int]@,
                        r@.last()@,
                    ));
                    assert(parked_record_pending(*store, r@.last()@));
                    assert forall|k: int|
                        0 <= k < r@.len() implies #[trigger] parked_record_pending(
                        *store,
                        r@[k]@,
                    ) by {
                        if k < prev_r.len() {
                            assert(r@[k] == prev_r[k]);
                        }
                    }
                }
            }
        }
    }
    r
}

/// Whether the hash appears in the list.
pub fn contains_event_id(hashes: &Vec<EventId>, event_hash: &EventId) -> (r: bool)
    ensures
        r == hashes@.contains(*event_hash),
{
    let n: usize = hashes.len();
    for i in 0..n
        invariant
            n == hashes@.len(),
            forall|j: int| 0 <= j < i ==> hashes@[j] != *event_hash,
    {
        if hashes[i] == *event_hash {
            return true;
        }
    }
    false
}

/// Every event admitted beyond `pre` was parked in `pre`'s queue, and is
/// stored under the hash it was parked under.
pub open spec fn new_events_from_queue(pre: EventStore, post: EventStore) -> bool {
    forall|id: EventId|
        #[trigger] post.event_ids().contains(id) && !pre.event_ids().contains(id) ==> exists|
            k0: int,
        |
            0 <= k0 < pre.awaiting_dependencies@.len() && parks_event_with(
                (#[trigger] pre.awaiting_dependencies@[k0])@,
                id,
                post.events_map()[id],
            )
}

/// Held acknowledgements and delivery-attempt records are only appended.
pub open spec fn primary_stores_appended(pre: EventStore, post: EventStore) -> bool {
    &&& post.acknowledgements@.len() >= pre.acknowledgements@.len()
    &&& forall|k: int|
        0 <= k < pre.acknowledgements@.len() ==> post.acknowledgements@[k]
            == pre.acknowledgements@[k]
    &&& post.events_sent_to_recipients@.len() >= pre.events_sent_to_recipients@.len()
    &&& forall|k: int|
        0 <= k < pre.events_sent_to_recipients@.len() ==> post.events_sent_to_recipients@[k]
            == pre.events_sent_to_recipients@[k]
}

/// Every acknowledgement held beyond `pre` was parked in `pre`'s queue, and
/// its event is locally present.
pub open spec fn promoted_acks_from_queue(pre: EventStore, post: EventStore) -> bool {
    forall|k: int|
        pre.acknowledgements@.len() <= k < post.acknowledgements@.len() ==> exists|k0: int|
            0 <= k0 < pre.awaiting_dependencies@.len() && parks_acknowledgement(
                (#[trigger] pre.awaiting_dependencies@[k0])@,
                #[trigger] post.acknowledgements@[k],
            ) && post.event_ids().contains(post.acknowledgements@[k].event_hash())
}

/// Every delivery-attempt record held beyond `pre` was parked in `pre`'s
/// queue, and its event is locally present.
pub open spec fn promoted_records_from_queue(pre: EventStore, post: EventStore) -> bool {
    forall|k: int|
        pre.events_sent_to_recipients@.len() <= k < post.events_sent_to_recipients@.len()
            ==> exists|k0: int|
            0 <= k0 < pre.awaiting_dependencies@.len() && parks_sent_record(
                (#[trigger] pre.awaiting_dependencies@[k0])@,
                (#[trigger] post.events_sent_to_recipients@[k])@,
            ) && post.event_ids().contains(post.events_sent_to_recipients@[k].event_hash())
}

/// Everything still parked afterwards was parked before.
pub open spec fn remaining_queue_from_queue(pre: EventStore, post: EventStore) -> bool {
    forall|k: int|
        0 <= k < post.awaiting_dependencies@.len() ==> exists|k0: int|
            0 <= k0 < pre.awaiting_dependencies@.len()
                && (#[trigger] post.awaiting_dependencies@[k])@
                == (#[trigger] pre.awaiting_dependencies@[k0])@
}

/// Everything parked references an event the store does not hold.
pub open spec fn queue_references_missing(store: EventStore) -> bool {
    forall|k: int|
        0 <= k < store.awaiting_dependencies@.len() ==> references_missing_event(
            store,
            (#[trigger] store.awaiting_dependencies@[k])@,
        )
}

/// Every acknowledgement that was parked and whose event is now locally
/// present is held afterwards: parked acknowledgements are retired by
/// promotion, never lost.
pub open spec fn parked_acks_promoted(pre: EventStore, post: EventStore) -> bool {
    forall|k0: int, a: Acknowledgement|
        0 <= k0 < pre.awaiting_dependencies@.len() && #[trigger] parks_acknowledgement(
            pre.awaiting_dependencies@[k0]@,
            a,
        ) && post.event_ids().contains(a.event_hash()) ==> post.acknowledgements@.contains(a)
}

/// Every delivery-attempt record that was parked and whose event is now
/// locally present is held afterwards.
pub open spec fn parked_records_promoted(pre: EventStore, post: EventStore) -> bool {
    forall|k0: int, r: EventSentToRecipientsV|
        0 <= k0 < pre.awaiting_dependencies@.len() && #[trigger] parks_sent_record(
            pre.awaiting_dependencies@[k0]@,
            r,
        ) && post.event_ids().contains(r.event_hash) ==> holds_sent_record(post, r)
}

/// Some parked event in the queue carries this hash.
pub open spec fn parked_event_hash_in(store: EventStore, event_hash: EventId) -> bool {
    exists|k0: int, v: PrivateEventEntryV|
        0 <= k0 < store.awaiting_dependencies@.len() && #[trigger] parks_event_with(
            store.awaiting_dependencies@[k0]@,
            event_hash,
            v,
        )
}

/// Every hash the pass dropped names an event that was parked beforehand.
pub open spec fn dropped_were_parked_events(pre: EventStore, dropped: Seq<EventId>) -> bool {
    forall|k: int|
        0 <= k < dropped.len() ==> parked_event_hash_in(pre, #[trigger] dropped[k])
}

/// The event is parked afterwards, under this hash and with this value.
pub open spec fn event_still_parked(
    store: EventStore,
    event_hash: EventId,
    event: PrivateEventEntryV,
) -> bool {
    exists|k: int|
        0 <= k < store.awaiting_dependencies@.len() && parks_event_with(
            (#[trigger] store.awaiting_dependencies@[k])@,
            event_hash,
            event,
        )
}

/// A parked acknowledgement whose event is still absent stays parked.
pub open spec fn unresolved_acks_retained(pre: EventStore, post: EventStore) -> bool {
    forall|k0: int, a: Acknowledgement|
        0 <= k0 < pre.awaiting_dependencies@.len() && #[trigger] parks_acknowledgement(
            pre.awaiting_dependencies@[k0]@,
            a,
        ) && !post.event_ids().contains(a.event_hash()) ==> acknowledgement_parked(post, a)
}

/// A parked delivery-attempt record whose event is still absent stays parked.
pub open spec fn unresolved_records_retained(pre: EventStore, post: EventStore) -> bool {
    forall|k0: int, rv: EventSentToRecipientsV|
        0 <= k0 < pre.awaiting_dependencies@.len() && #[trigger] parks_sent_record(
            pre.awaiting_dependencies@[k0]@,
            rv,
        ) && !post.event_ids().contains(rv.event_hash) ==> record_parked(post, rv)
}

/// A parked event neither admitted nor dropped as invalid stays parked.
pub open spec fn unresolved_events_retained(
    pre: EventStore,
    post: EventStore,
    dropped: Seq<EventId>,
) -> bool {
    forall|k0: int, h: EventId, v: PrivateEventEntryV|
        0 <= k0 < pre.awaiting_dependencies@.len() && #[trigger] parks_event_with(
            pre.awaiting_dependencies@[k0]@,
            h,
            v,
        ) && !post.event_ids().contains(h) && !dropped.contains(h) ==> event_still_parked(
            post,
            h,
            v,
        )
}

/// Drain the queue: re-validate parked events in timestamp order and admit
/// the ones whose dependencies have arrived, discard for good the ones that
/// fail validation even then — their hashes are returned for the caller to
/// log — promote parked acknowledgements and delivery-attempt records whose
/// event is now present, and keep the rest parked. Afterwards everything
/// still parked references a missing event, nothing still unresolved was
/// lost, and no promotion duplicates a value already held.
pub fn attempt_commit_awaiting_deps_entries<T: PrivateEvent>(store: &mut EventStore) -> (dropped:
    Vec<EventId>)
    requires
        old(store).wf(),
    ensures
        final(store).wf(),
        final(store).my_pub_key == old(store).my_pub_key,
        events_preserved(*old(store), *final(store)),
        new_events_from_queue(*old(store), *final(store)),
        primary_stores_appended(*old(store), *final(store)),
        promoted_acks_from_queue(*old(store), *final(store)),
        promoted_records_from_queue(*old(store), *final(store)),
        remaining_queue_from_queue(*old(store), *final(store)),
        queue_references_missing(*final(store)),
        parked_acks_promoted(*old(store), *final(store)),
        parked_records_promoted(*old(store), *final(store)),
        dropped_were_parked_events(*old(store), dropped@),
        unresolved_acks_retained(*old(store), *final(store)),
        unresolved_records_retained(*old(store), *final(store)),
        unresolved_events_retained(*old(store), *final(store), dropped@),
        appended_acks_are_new(*old(store), *final(store)),
        appended_records_are_new(*old(store), *final(store)),
{
    broadcast use vstd::seq_lib::group_to_multiset_ensures;
    // Re-validate the parked events that are still missing, oldest first.
    let pending = query_awaiting_deps_private_event_entries(store);
    let ghost pending_seq = pending@;
    let mut rest = sort_received_entries(pending);
    let ghost full = rest@;
    proof {
        assert forall|x: ReceivedEntry| full.contains(x) implies exists|k0: int|
            0 <= k0 < old(store).awaiting_dependencies@.len() && parks_event_with(
                (#[trigger] old(store).awaiting_dependencies@[k0])@,
                x.event_hash,
                x.entry@,
            ) by {
            full.to_multiset_ensures();
            pending_seq.to_multiset_ensures();
            assert(full.to_multiset() == pending_seq.to_multiset());
            assert(full.to_multiset().count(x) > 0);
            assert(pending_seq.contains(x));
            let k = choose|k: int| 0 <= k < pending_seq.len() && pending_seq[k] == x;
            assert(pending_seq[k].event_hash == x.event_hash);
        }
        assert(full.skip(0) =~= full);
    }
    let mut invalid_hashes: Vec<EventId> = Vec::new();
    let ghost mut processed: int = 0;
    while rest.len() > 0
        invariant
            store.wf(),
            0 <= processed <= full.len(),
            processed == full.len() - rest@.len(),
            rest@ == full.skip(processed),
            forall|x: ReceivedEntry|
                full.contains(x) ==> exists|k0: int|
                    0 <= k0 < old(store).awaiting_dependencies@.len() && parks_event_with(
                        (#[trigger] old(store).awaiting_dependencies@[k0])@,
                        x.event_hash,
                        x.entry@,
                    ),
            store.my_pub_key == old(store).my_pub_key,
            store.acknowledgements == old(store).acknowledgements,
            store.events_sent_to_recipients == old(store).events_sent_to_recipients,
            store.awaiting_dependencies == old(store).awaiting_dependencies,
            events_preserved(*old(store), *store),
            new_events_from_queue(*old(store), *store),
            dropped_were_parked_events(*old(store), invalid_hashes@),
        decreases rest@.len(),
    {
        let ghost prev_rest = rest@;
        let e = rest.remove(0);
        let ghost ge = e;
        proof {
            assert(prev_rest.len() > 0);
            assert(0 <= processed < full.len());
            assert(prev_rest[0] == full.skip(processed)[0]);
            assert(full.skip(processed)[0] == full[processed]);
            assert(ge == full[processed]);
            assert(full.contains(ge));
            assert(rest@ =~= full.skip(processed + 1));
            processed = processed + 1;
        }
        if !store.contains_event(&e.event_hash) {
            let outcome = validate_private_event_entry::<T>(
                &e.entry,
                &e.event_hash,
                true,
                store,
            );
            match outcome {
                ValidationOutcome::Valid => {
                    let ghost pre_ids = store.event_ids();
                    let ghost pre_map = store.events_map();
                    store.admit_event(e.event_hash, e.entry);
                    proof {
                        assert forall|id: EventId|
                            old(store).event_ids().contains(id) implies #[trigger] store.event_ids().contains(
                            id,
                        ) && store.events_map()[id] == old(store).events_map()[id] by {
                            assert(pre_ids.contains(id));
                            assert(id != ge.event_hash);
                            assert(pre_map[id] == old(store).events_map()[id]);
                        }
                        assert forall|id: EventId|
                            #[trigger] store.event_ids().contains(id) && !old(
                                store,
                            ).event_ids().contains(id) implies exists|k0: int|
                            0 <= k0 < old(store).awaiting_dependencies@.len() && parks_event_with(
                                (#[trigger] old(store).awaiting_dependencies@[k0])@,
                                id,
                                store.events_map()[id],
                            ) by {
                            if id != ge.event_hash {
                                assert(pre_ids.contains(id));
                            }
                        }
                    }
                },
                ValidationOutcome::Invalid(_) => {
                    let ghost prev_invalid = invalid_hashes@;
                    invalid_hashes.push(e.event_hash);
                    proof {
                        assert(parked_event_hash_in(*old(store), ge.event_hash));
                        assert forall|k: int|
                            0 <= k < invalid_hashes@.len() implies parked_event_hash_in(
                            *old(store),
                            #[trigger] invalid_hashes@[k],
                        ) by {
                            if k < prev_invalid.len() {
                                assert(invalid_hashes@[k] == prev_invalid[k]);
                            } else {
                                assert(invalid_hashes@[k] == ge.event_hash);
                            }
                        }
                    }
                },
                ValidationOutcome::UnresolvedDependencies(_) => {},
            }
        }
    }
    // Rebuild the queue in place: promote and retire what resolved, drop
    // what failed validation for good, keep what still awaits.
    let queue = query_awaiting_deps(store);
    let ghost cleared = *store;
    store.awaiting_dependencies = Vec::new();
    proof {
        assert forall|id: EventId|
            old(store).event_ids().contains(id) implies #[trigger] store.event_ids().contains(id)
            && store.events_map()[id] == old(store).events_map()[id] by {
            assert(cleared.event_ids().contains(id));
        }
        assert forall|id: EventId|
            #[trigger] store.event_ids().contains(id) && !old(store).event_ids().contains(id)
            implies exists|k0: int|
            0 <= k0 < old(store).awaiting_dependencies@.len() && parks_event_with(
                (#[trigger] old(store).awaiting_dependencies@[k0])@,
                id,
                store.events_map()[id],
            ) by {
            assert(cleared.event_ids().contains(id));
            let k0 = choose|k0: int|
                0 <= k0 < old(store).awaiting_dependencies@.len() && parks_event_with(
                    (#[trigger] old(store).awaiting_dependencies@[k0])@,
                    id,
                    cleared.events_map()[id],
                );
            assert(parks_event_with(
                old(store).awaiting_dependencies@[k0]@,
                id,
                store.events_map()[id],
            ));
        }
    }
    let qn: usize = queue.len();
    for i in 0..qn
        invariant
            store.wf(),
            qn == queue@.len(),
            queue@.len() == old(store).awaiting_dependencies@.len(),
            forall|k: int|
                0 <= k < queue@.len() ==> (#[trigger] queue@[k])@ == old(
                    store,
                ).awaiting_dependencies@[k]@,
            store.my_pub_key == old(store).my_pub_key,
            store.events == cleared.events,
            events_preserved(*old(store), cleared),
            events_preserved(*old(store), *store),
            new_events_from_queue(*old(store), *store),
            primary_stores_appended(*old(store), *store),
            promoted_acks_from_queue(*old(store), *store),
            promoted_records_from_queue(*old(store), *store),
            remaining_queue_from_queue(*old(store), *store),
            queue_references_missing(*store),
            forall|k0: int, a: Acknowledgement|
                0 <= k0 < i && #[trigger] parks_acknowledgement(
                    old(store).awaiting_dependencies@[k0]@,
                    a,
                ) && store.event_ids().contains(a.event_hash())
                    ==> store.acknowledgements@.contains(a),
            forall|k0: int, rv: EventSentToRecipientsV|
                0 <= k0 < i && #[trigger] parks_sent_record(
                    old(store).awaiting_dependencies@[k0]@,
                    rv,
                ) && store.event_ids().contains(rv.event_hash) ==> holds_sent_record(*store, rv),
            forall|k0: int, a: Acknowledgement|
                0 <= k0 < i && #[trigger] parks_acknowledgement(
                    old(store).awaiting_dependencies@[k0]@,
                    a,
                ) && !store.event_ids().contains(a.event_hash()) ==> acknowledgement_parked(
                    *store,
                    a,
                ),
            forall|k0: int, rv: EventSentToRecipientsV|
                0 <= k0 < i && #[trigger] parks_sent_record(
                    old(store).awaiting_dependencies@[k0]@,
                    rv,
                ) && !store.event_ids().contains(rv.event_hash) ==> record_parked(*store, rv),
            forall|k0: int, h: EventId, v: PrivateEventEntryV|
                0 <= k0 < i && #[trigger] parks_event_with(
                    old(store).awaiting_dependencies@[k0]@,
                    h,
                    v,
                ) && !store.event_ids().contains(h) && !invalid_hashes@.contains(h)
                    ==> event_still_parked(*store, h, v),
            appended_acks_are_new(*old(store), *store),
            appended_records_are_new(*old(store), *store),
    {
        let aw = &queue[i];
        let keep: bool = match aw {
            AwaitingDependencies::Event { event_hash, event: _, unresolved_dependencies: _ } => {
                let missing = !store.contains_event(event_hash);
                let keep = missing && !contains_event_id(&invalid_hashes, event_hash);
                proof {
                    if keep {
                        assert(references_missing_event(*store, queue@[i as int]@));
                    }
                }
                keep
            },
            AwaitingDependencies::Acknowledgement { acknowledgement } => {
                if store.contains_event(&acknowledgement.0.payload.content.private_event_hash) {
                    if !crate::acknowledgements::contains_acknowledgement(store, acknowledgement) {
                        let ghost pre_acks = store.acknowledgements@;
                        store.record_acknowledgement(*acknowledgement);
                        proof {
                            assert(store.acknowledgements@.last() == *acknowledgement);
                            assert(store.acknowledgements@.contains(*acknowledgement));
                            assert forall|x: Acknowledgement| pre_acks.contains(x)
                                implies store.acknowledgements@.contains(x) by {
                                let w = choose|w: int| 0 <= w < pre_acks.len() && pre_acks[w] == x;
                                assert(store.acknowledgements@[w] == x);
                            }
                            assert(!old(store).acknowledgements@.contains(*acknowledgement)) by {
                                if old(store).acknowledgements@.contains(*acknowledgement) {
                                    let w = choose|w: int|
                                        0 <= w < old(store).acknowledgements@.len() && old(
                                            store,
                                        ).acknowledgements@[w] == *acknowledgement;
                                    assert(pre_acks[w] == *acknowledgement);
                                    assert(pre_acks.contains(*acknowledgement));
                                }
                            }
                            assert forall|k1: int, k2: int|
                                old(store).acknowledgements@.len() <= k1 < k2
                                    < store.acknowledgements@.len() implies store.acknowledgements@[k1]
                                != store.acknowledgements@[k2] by {
                                if k2 == pre_acks.len() {
                                    assert(store.acknowledgements@[k1] == pre_acks[k1]);
                                    assert(pre_acks.contains(pre_acks[k1]));
                                    assert(store.acknowledgements@[k2] == *acknowledgement);
                                } else {
                                    assert(store.acknowledgements@[k1] == pre_acks[k1]);
                                    assert(store.acknowledgements@[k2] == pre_acks[k2]);
                                }
                            }
                        }
                    }
                    proof {
                        assert(store.acknowledgements@.contains(*acknowledgement));
                    }
                    false
                } else {
                    proof {
                        assert(references_missing_event(*store, queue@[i as int]@));
                    }
                    true
                }
            },
            AwaitingDependencies::EventsSentToRecipients { event_sent_to_recipients } => {
                if store.contains_event(&event_sent_to_recipients.0.payload.content.event_hash) {
                    if !contains_event_sent(store, event_sent_to_recipients) {
                        let ghost pre_store = *store;
                        store.record_event_sent(event_sent_to_recipients.clone());
                        proof {
                            assert(store.events_sent_to_recipients@.last()@
                                == event_sent_to_recipients@);
                            assert(holds_sent_record(*store, event_sent_to_recipients@));
                            assert forall|rv: EventSentToRecipientsV|
                                holds_sent_record(pre_store, rv) implies holds_sent_record(
                                *store,
                                rv,
                            ) by {
                                let w = choose|w: int|
                                    0 <= w < pre_store.events_sent_to_recipients@.len()
                                        && pre_store.events_sent_to_recipients@[w]@ == rv;
                                assert(store.events_sent_to_recipients@[w]@ == rv);
                            }
                            assert(!crate::events_sent::holds_sent_record_in(
                                old(store).events_sent_to_recipients@,
                                event_sent_to_recipients@,
                            )) by {
                                if crate::events_sent::holds_sent_record_in(
                                    old(store).events_sent_to_recipients@,
                                    event_sent_to_recipients@,
                                ) {
                                    let w = choose|w: int|
                                        0 <= w < old(store).events_sent_to_recipients@.len() && (
                                        #[trigger] old(store).events_sent_to_recipients@[w])@
                                            == event_sent_to_recipients@;
                                    assert(pre_store.events_sent_to_recipients@[w]@
                                        == event_sent_to_recipients@);
                                    assert(holds_sent_record(pre_store, event_sent_to_recipients@));
                                }
                            }
                            assert forall|k1: int, k2: int|
                                old(store).events_sent_to_recipients@.len() <= k1 < k2
                                    < store.events_sent_to_recipients@.len()
                                implies store.events_sent_to_recipients@[k1]@
                                != store.events_sent_to_recipients@[k2]@ by {
                                if k2 == pre_store.events_sent_to_recipients@.len() {
                                    assert(store.events_sent_to_recipients@[k1]
                                        == pre_store.events_sent_to_recipients@[k1]);
                                    assert(holds_sent_record(
                                        pre_store,
                                        pre_store.events_sent_to_recipients@[k1]@,
                                    ));
                                    assert(store.events_sent_to_recipients@[k2]@
                                        == event_sent_to_recipients@);
                                } else {
                                    assert(store.events_sent_to_recipients@[k1]
                                        == pre_store.events_sent_to_recipients@[k1]);
                                    assert(store.events_sent_to_recipients@[k2]
                                        == pre_store.events_sent_to_recipients@[k2]);
                                }
                            }
                        }
                    }
                    proof {
                        assert(holds_sent_record(*store, event_sent_to_recipients@));
                    }
                    false
                } else {
                    proof {
                        assert(references_missing_event(*store, queue@[i as int]@));
                    }
                    true
                }
            },
        };
        if keep {
            let ghost prev_queue = store.awaiting_dependencies@;
            store.park_awaiting(aw.clone());
            proof {
                assert(store.awaiting_dependencies@.last()@ == queue@[i as int]@);
                assert forall|k: int|
                    0 <= k < store.awaiting_dependencies@.len() implies exists|k0: int|
                    0 <= k0 < old(store).awaiting_dependencies@.len()
                        && (#[trigger] store.awaiting_dependencies@[k])@
                        == (#[trigger] old(store).awaiting_dependencies@[k0])@ by {
                    if k < prev_queue.len() {
                        assert(store.awaiting_dependencies@[k] == prev_queue[k]);
                        let k0 = choose|k0: int|
                            0 <= k0 < old(store).awaiting_dependencies@.len() && prev_queue[k]@
                                == old(store).awaiting_dependencies@[k0]@;
                        assert(store.awaiting_dependencies@[k]@ == old(
                            store,
                        ).awaiting_dependencies@[k0]@);
                    } else {
                        assert(store.awaiting_dependencies@[k]@ == queue@[i as int]@);
                        assert(queue@[i as int]@ == old(store).awaiting_dependencies@[i as int]@);
                    }
                }
                assert forall|k: int|
                    0 <= k < store.awaiting_dependencies@.len() implies references_missing_event(
                    *store,
                    (#[trigger] store.awaiting_dependencies@[k])@,
                ) by {
                    if k < prev_queue.len() {
                        assert(store.awaiting_dependencies@[k] == prev_queue[k]);
                    } else {
                        assert(store.awaiting_dependencies@[k]@ == queue@[i as int]@);
                    }
                }
                assert(queue@[i as int]@ == old(store).awaiting_dependencies@[i as int]@);
                assert forall|k0: int, a: Acknowledgement|
                    0 <= k0 < i + 1 && #[trigger] parks_acknowledgement(
                        old(store).awaiting_dependencies@[k0]@,
                        a,
                    ) && !store.event_ids().contains(a.event_hash())
                    implies acknowledgement_parked(*store, a) by {
                    if k0 < i {
                        let w = choose|w: int|
                            0 <= w < prev_queue.len() && (#[trigger] prev_queue[w])@ == parked_ack(
                                a,
                            );
                        assert(store.awaiting_dependencies@[w]@ == parked_ack(a));
                    } else {
                        assert(store.awaiting_dependencies@.last()@ == parked_ack(a));
                    }
                }
                assert forall|k0: int, rv: EventSentToRecipientsV|
                    0 <= k0 < i + 1 && #[trigger] parks_sent_record(
                        old(store).awaiting_dependencies@[k0]@,
                        rv,
                    ) && !store.event_ids().contains(rv.event_hash) implies record_parked(
                    *store,
                    rv,
                ) by {
                    if k0 < i {
                        let w = choose|w: int|
                            0 <= w < prev_queue.len() && (#[trigger] prev_queue[w])@
                                == parked_record(rv);
                        assert(store.awaiting_dependencies@[w]@ == parked_record(rv));
                    } else {
                        assert(store.awaiting_dependencies@.last()@ == parked_record(rv));
                    }
                }
                assert forall|k0: int, h: EventId, v: PrivateEventEntryV|
                    0 <= k0 < i + 1 && #[trigger] parks_event_with(
                        old(store).awaiting_dependencies@[k0]@,
                        h,
                        v,
                    ) && !store.event_ids().contains(h) && !invalid_hashes@.contains(h)
                    implies event_still_parked(*store, h, v) by {
                    if k0 < i {
                        let w = choose|w: int|
                            0 <= w < prev_queue.len() && parks_event_with(
                                (#[trigger] prev_queue[w])@,
                                h,
                                v,
                            );
                        assert(parks_event_with(store.awaiting_dependencies@[w]@, h, v));
                    } else {
                        assert(parks_event_with(store.awaiting_dependencies@.last()@, h, v));
                    }
                }
            }
        }
        proof {
            assert(store.events_map() == cleared.events_map());
            assert forall|id: EventId|
                old(store).event_ids().contains(id) implies #[trigger] store.event_ids().contains(
                id,
            ) && store.events_map()[id] == old(store).events_map()[id] by {
                assert(cleared.event_ids().contains(id));
                assert(cleared.events_map()[id] == old(store).events_map()[id]);
            }
        }
    }
    invalid_hashes
}

} // verus!
