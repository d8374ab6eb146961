//! Bulk history export and import.
//!
//! A full-history bundle moves an agent's state between cells when an
//! identity migrates. It is not part of steady-state operation, and an
//! imported bundle is merged leniently: the exporting agent is trusted as
//! the bundle's origin, so nothing is re-validated, only deduplicated.

use vstd::prelude::*;

use crate::events_sent::holds_sent_record;
use crate::private_event::events_preserved;
use crate::store::{EventStore, StoredEvent};
use crate::types::{Acknowledgement, AwaitingDependencies, EventSentToRecipients};

verus! {

/// A snapshot of one agent's full state.
#[derive(Debug)]
pub struct EventHistory {
    pub events: Vec<StoredEvent>,
    pub events_sent_to_recipients: Vec<EventSentToRecipients>,
    pub acknowledgements: Vec<Acknowledgement>,
    pub awaiting_deps: Vec<AwaitingDependencies>,
}

/// Snapshot the whole store for export.
pub fn export_event_history(store: &EventStore) -> (history: EventHistory)
    ensures
        history.events@.len() == store.events@.len(),
        forall|k: int|
            0 <= k < history.events@.len() ==> (#[trigger] history.events@[k]).event_hash
                == store.events@[k].event_hash && history.events@[k].entry@
                == store.events@[k].entry@,
        history.events_sent_to_recipients@.len() == store.events_sent_to_recipients@.len(),
        forall|k: int|
            0 <= k < history.events_sent_to_recipients@.len() ==> (
            #[trigger] history.events_sent_to_recipients@[k])@
                == store.events_sent_to_recipients@[k]@,
        history.acknowledgements@ == store.acknowledgements@,
        history.awaiting_deps@.len() == store.awaiting_dependencies@.len(),
        forall|k: int|
            0 <= k < history.awaiting_deps@.len() ==> (#[trigger] history.awaiting_deps@[k])@
                == store.awaiting_dependencies@[k]@,
{
    EventHistory {
        events: crate::private_event::query_private_event_entries(store),
        events_sent_to_recipients: crate::events_sent::query_events_sent_to_recipients_entries(
            store,
        ),
        acknowledgements: crate::acknowledgements::query_acknowledgement_entries(store),
        awaiting_deps: crate::awaiting_dependencies::query_awaiting_deps(store),
    }
}

/// A public digest of which events an agent holds, read during catch-up to
/// avoid re-sending what a recipient demonstrably has.
#[derive(Debug)]
pub struct EventHistorySummary {
    pub events_hashes: Vec<crate::types::EventId>,
}

/// Every event of the history is admitted in the store.
pub open spec fn history_events_admitted(history: Seq<StoredEvent>, store: EventStore) -> bool {
    forall|k: int|
        0 <= k < history.len() ==> store.event_ids().contains(
            (#[trigger] history[k]).event_hash,
        )
}

/// Every event admitted beyond `pre` came from the history, under the hash
/// it carried there.
pub open spec fn new_events_from_history(
    pre: EventStore,
    post: EventStore,
    history: Seq<StoredEvent>,
) -> bool {
    forall|id: crate::types::EventId|
        #[trigger] post.event_ids().contains(id) && !pre.event_ids().contains(id) ==> exists|
            k: int,
        |
            0 <= k < history.len() && (#[trigger] history[k]).event_hash == id
                && post.events_map()[id] == history[k].entry@
}

/// Merge an exported bundle into the local state: admit each bundled event
/// not already present, hold each bundled acknowledgement and
/// delivery-attempt record not already held, and park each bundled parked
/// value. Nothing is re-validated: the bundle's origin is trusted.
pub fn import_event_history(store: &mut EventStore, history: EventHistory)
    requires
        old(store).wf(),
    ensures
        final(store).wf(),
        final(store).my_pub_key == old(store).my_pub_key,
        events_preserved(*old(store), *final(store)),
        history_events_admitted(history.events@, *final(store)),
        new_events_from_history(*old(store), *final(store), history.events@),
        forall|k: int|
            0 <= k < history.acknowledgements@.len() ==> final(store).acknowledgements@.contains(
                #[trigger] history.acknowledgements@[k],
            ),
        forall|k: int|
            0 <= k < history.events_sent_to_recipients@.len() ==> holds_sent_record(
                *final(store),
                (#[trigger] history.events_sent_to_recipients@[k])@,
            ),
        final(store).acknowledgements@.len() >= old(store).acknowledgements@.len(),
        forall|k: int|
            0 <= k < old(store).acknowledgements@.len() ==> final(store).acknowledgements@[k]
                == old(store).acknowledgements@[k],
        final(store).events_sent_to_recipients@.len()
            >= old(store).events_sent_to_recipients@.len(),
        forall|k: int|
            0 <= k < old(store).events_sent_to_recipients@.len()
                ==> final(store).events_sent_to_recipients@[k] == old(
                store,
            ).events_sent_to_recipients@[k],
        final(store).awaiting_dependencies@.len() == old(store).awaiting_dependencies@.len()
            + history.awaiting_deps@.len(),
        forall|k: int|
            0 <= k < old(store).awaiting_dependencies@.len()
                ==> final(store).awaiting_dependencies@[k] == old(
                store,
            ).awaiting_dependencies@[k],
        forall|k: int|
            0 <= k < history.awaiting_deps@.len() ==> final(store).awaiting_dependencies@[old(
                store,
            ).awaiting_dependencies@.len() + k] == history.awaiting_deps@[k],
{
    let EventHistory { events, events_sent_to_recipients, acknowledgements, awaiting_deps } =
        history;
    let ghost history_events = events@;

    let mut rest = events;
    let ghost full = rest@;
    proof {
        assert(full.skip(0) =~= full);
    }
    let ghost mut processed: int = 0;
    while rest.len() > 0
        invariant
            store.wf(),
            0 <= processed <= full.len(),
            processed == full.len() - rest@.len(),
            rest@ == full.skip(processed),
            store.my_pub_key == old(store).my_pub_key,
            store.acknowledgements == old(store).acknowledgements,
            store.events_sent_to_recipients == old(store).events_sent_to_recipients,
            store.awaiting_dependencies == old(store).awaiting_dependencies,
            events_preserved(*old(store), *store),
            new_events_from_history(*old(store), *store, full),
            forall|k: int|
                0 <= k < processed ==> store.event_ids().contains(
                    (#[trigger] full[k]).event_hash,
                ),
        decreases rest@.len(),
    {
        let ghost prev_rest = rest@;
        let e = rest.remove(0);
        let ghost ge = e;
        proof {
            assert(prev_rest.len() > 0);
            assert(0 <= processed < full.len());
            assert(prev_rest[0] == full.skip(processed)[0]);
            assert(full.skip(processed)[0] == full[processed]);
            assert(ge == full[processed]);
            assert(rest@ =~= full.skip(processed + 1));
            processed = processed + 1;
        }
        if !store.contains_event(&e.event_hash) {
            let ghost pre_ids = store.event_ids();
            let ghost pre_map = store.events_map();
            store.admit_event(e.event_hash, e.entry);
            proof {
                assert forall|id: crate::types::EventId|
                    old(store).event_ids().contains(id) implies #[trigger] store.event_ids().contains(
                    id,
                ) && store.events_map()[id] == old(store).events_map()[id] by {
                    assert(pre_ids.contains(id));
                    assert(id != ge.event_hash);
                    assert(pre_map[id] == old(store).events_map()[id]);
                }
                assert forall|id: crate::types::EventId|
                    #[trigger] store.event_ids().contains(id) && !old(
                        store,
                    ).event_ids().contains(id) implies exists|k: int|
                    0 <= k < full.len() && (#[trigger] full[k]).event_hash == id
                        && store.events_map()[id] == full[k].entry@ by {
                    if id == ge.event_hash {
                        assert(full[processed - 1].event_hash == id);
                        assert(store.events_map()[id] == full[processed - 1].entry@);
                    } else {
                        assert(pre_ids.contains(id));
                        let k = choose|k: int|
                            0 <= k < full.len() && (#[trigger] full[k]).event_hash == id
                                && pre_map[id] == full[k].entry@;
                        assert(store.events_map()[id] == pre_map[id]);
                    }
                }
            }
        }
        proof {
            assert forall|k: int|
                0 <= k < processed implies store.event_ids().contains(
                (#[trigger] full[k]).event_hash,
            ) by {
                if k == processed - 1 {
                    assert(full[k] == ge);
                }
            }
        }
    }

    let ghost mid = *store;
    let an: usize = acknowledgements.len();
    for i in 0..an
        invariant
            store.wf(),
            an == acknowledgements@.len(),
            store.my_pub_key == old(store).my_pub_key,
            store.events == mid.events,
            store.events_sent_to_recipients == old(store).events_sent_to_recipients,
            store.awaiting_dependencies == old(store).awaiting_dependencies,
            store.acknowledgements@.len() >= old(store).acknowledgements@.len(),
            forall|k: int|
                0 <= k < old(store).acknowledgements@.len() ==> store.acknowledgements@[k] == old(
                    store,
                ).acknowledgements@[k],
            forall|k: int|
                0 <= k < i ==> store.acknowledgements@.contains(
                    #[trigger] acknowledgements@[k],
                ),
    {
        let a = &acknowledgements[i];
        if !crate::acknowledgements::contains_acknowledgement(store, a) {
            let ghost pre_acks = store.acknowledgements@;
            store.record_acknowledgement(*a);
            proof {
                assert(store.acknowledgements@.last() == acknowledgements@[i as int]);
                assert forall|x: Acknowledgement| pre_acks.contains(x)
                    implies store.acknowledgements@.contains(x) by {
                    let w = choose|w: int| 0 <= w < pre_acks.len() && pre_acks[w] == x;
                    assert(store.acknowledgements@[w] == x);
                }
            }
        }
    }

    let rn: usize = events_sent_to_recipients.len();
    for i in 0..rn
        invariant
            store.wf(),
            rn == events_sent_to_recipients@.len(),
            store.my_pub_key == old(store).my_pub_key,
            store.events == mid.events,
            store.awaiting_dependencies == old(store).awaiting_dependencies,
            store.acknowledgements@.len() >= old(store).acknowledgements@.len(),
            forall|k: int|
                0 <= k < old(store).acknowledgements@.len() ==> store.acknowledgements@[k] == old(
                    store,
                ).acknowledgements@[k],
            store.events_sent_to_recipients@.len() >= old(store).events_sent_to_recipients@.len(),
            forall|k: int|
                0 <= k < old(store).events_sent_to_recipients@.len()
                    ==> store.events_sent_to_recipients@[k] == old(
                    store,
                ).events_sent_to_recipients@[k],
            forall|k: int|
                0 <= k < acknowledgements@.len() ==> store.acknowledgements@.contains(
                    #[trigger] acknowledgements@[k],
                ),
            forall|k: int|
                0 <= k < i ==> holds_sent_record(
                    *store,
                    (#[trigger] events_sent_to_recipients@[k])@,
                ),
    {
        let record = &events_sent_to_recipients[i];
        if !crate::events_sent::contains_event_sent(store, record) {
            let ghost pre_store = *store;
            store.record_event_sent(record.clone());
            proof {
                assert(store.events_sent_to_recipients@.last()@
                    == events_sent_to_recipients@[i as int]@);
                assert(holds_sent_record(*store, events_sent_to_recipients@[i as int]@));
                assert forall|rv: crate::types::EventSentToRecipientsV|
                    holds_sent_record(pre_store, rv) implies holds_sent_record(*store, rv) by {
                    let w = choose|w: int|
                        0 <= w < pre_store.events_sent_to_recipients@.len()
                            && pre_store.events_sent_to_recipients@[w]@ == rv;
                    assert(store.events_sent_to_recipients@[w]@ == rv);
                }
            }
        }
    }

    let ghost acks_snapshot = store.acknowledgements@;
    let ghost records_snapshot = store.events_sent_to_recipients@;
    let pn: usize = awaiting_deps.len();
    let mut parked = awaiting_deps;
    let ghost parked_full = parked@;
    proof {
        assert(parked_full.skip(0) =~= parked_full);
    }
    for i in 0..pn
        invariant
            store.wf(),
            pn == parked_full.len(),
            pn == parked@.len() + i,
            parked@ == parked_full.skip(i as int),
            store.my_pub_key == old(store).my_pub_key,
            store.events == mid.events,
            store.acknowledgements@ == acks_snapshot,
            store.events_sent_to_recipients@ == records_snapshot,
            store.awaiting_dependencies@.len() == old(store).awaiting_dependencies@.len() + i,
            forall|k: int|
                0 <= k < old(store).awaiting_dependencies@.len()
                    ==> store.awaiting_dependencies@[k] == old(store).awaiting_dependencies@[k],
            forall|k: int|
                0 <= k < i ==> store.awaiting_dependencies@[old(
                    store,
                ).awaiting_dependencies@.len() + k] == parked_full[k],
    {
        let ghost prev_parked = parked@;
        let aw = parked.remove(0);
        proof {
            assert(prev_parked[0] == parked_full.skip(i as int)[0]);
            assert(parked_full.skip(i as int)[0] == parked_full[i as int]);
            assert(aw == parked_full[i as int]);
            assert(parked@ =~= parked_full.skip(i + 1 as int));
        }
        store.park_awaiting(aw);
    }
    proof {
        assert(store.events_map() == mid.events_map());
        assert forall|id: crate::types::EventId|
            old(store).event_ids().contains(id) implies #[trigger] store.event_ids().contains(id)
            && store.events_map()[id] == old(store).events_map()[id] by {
            assert(mid.event_ids().contains(id));
        }
        assert forall|id: crate::types::EventId|
            #[trigger] store.event_ids().contains(id) && !old(store).event_ids().contains(id)
            implies exists|k: int|
            0 <= k < full.len() && (#[trigger] full[k]).event_hash == id && store.events_map()[id]
                == full[k].entry@ by {
            assert(mid.event_ids().contains(id));
            let k = choose|k: int|
                0 <= k < full.len() && (#[trigger] full[k]).event_hash == id && mid.events_map()[id]
                    == full[k].entry@;
            assert(store.events_map()[id] == full[k].entry@);
        }
        assert forall|k: int|
            0 <= k < full.len() implies store.event_ids().contains(
            (#[trigger] full[k]).event_hash,
        ) by {
            assert(mid.event_ids().contains(full[k].event_hash));
        }
        assert forall|k: int|
            0 <= k < records_snapshot.len() implies holds_sent_record(
            *store,
            (#[trigger] records_snapshot[k])@,
        ) by {
            assert(store.events_sent_to_recipients@[k]@ == records_snapshot[k]@);
        }
    }
}

} // verus!
