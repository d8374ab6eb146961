//! The engine's laws, stated and proved once over the contracts of the
//! functions they govern.

use vstd::prelude::*;
use vstd::seq_lib::group_to_multiset_ensures;

use crate::private_event::{new_events_are_verified_inputs, ReceivedEntry};
use crate::send_events::{
    needs_resend, plan_covers, resend_due, send_plan_sound, SendPlanItem, RESEND_INTERVAL_MS,
};
use crate::store::{lemma_events_map_domain, lemma_events_map_index, EventStore};
use crate::types::{AgentId, EventId, Timestamp};

verus! {

/// Idempotent admission: however often an event is received, a well-formed
/// store holds exactly one entry under its hash — one stored event carries
/// it, and no other does.
pub proof fn lemma_admitted_event_is_stored_once(store: EventStore, event_hash: EventId)
    requires
        store.wf(),
        store.event_ids().contains(event_hash),
    ensures
        exists|i: int|
            0 <= i < store.events@.len() && (#[trigger] store.events@[i]).event_hash == event_hash,
        forall|i: int, j: int|
            0 <= i < store.events@.len() && 0 <= j < store.events@.len()
                && (#[trigger] store.events@[i]).event_hash == event_hash
                && (#[trigger] store.events@[j]).event_hash == event_hash ==> i == j,
{
    lemma_events_map_domain(store.events@, event_hash);
}

/// Order-independent merge: two well-formed stores that admitted the same
/// events — in whatever order — denote the same map from hash to event.
pub proof fn lemma_order_independent_merge(a: EventStore, b: EventStore)
    requires
        a.wf(),
        b.wf(),
        a.events@.to_multiset() == b.events@.to_multiset(),
    ensures
        a.events_map() == b.events_map(),
{
    broadcast use group_to_multiset_ensures;

    assert forall|id: EventId| #[trigger] a.event_ids().contains(id) implies b.event_ids().contains(
        id,
    ) && b.events_map()[id] == a.events_map()[id] by {
        lemma_events_map_domain(a.events@, id);
        let i = choose|i: int| 0 <= i < a.events@.len() && a.events@[i].event_hash == id;
        lemma_events_map_index(a.events@, i);
        assert(a.events@.contains(a.events@[i]));
        a.events@.to_multiset_ensures();
        b.events@.to_multiset_ensures();
        assert(a.events@.to_multiset().count(a.events@[i]) > 0);
        assert(b.events@.contains(a.events@[i]));
        let j = choose|j: int| 0 <= j < b.events@.len() && b.events@[j] == a.events@[i];
        lemma_events_map_index(b.events@, j);
        lemma_events_map_domain(b.events@, id);
    }
    assert forall|id: EventId| #[trigger] b.event_ids().contains(id) implies a.event_ids().contains(
        id,
    ) by {
        lemma_events_map_domain(b.events@, id);
        let j = choose|j: int| 0 <= j < b.events@.len() && b.events@[j].event_hash == id;
        assert(b.events@.contains(b.events@[j]));
        a.events@.to_multiset_ensures();
        b.events@.to_multiset_ensures();
        assert(b.events@.to_multiset().count(b.events@[j]) > 0);
        assert(a.events@.contains(b.events@[j]));
        let i = choose|i: int| 0 <= i < a.events@.len() && a.events@[i] == b.events@[j];
        lemma_events_map_domain(a.events@, id);
    }
    assert forall|id: EventId| #[trigger] a.events_map().dom().contains(id)
        <==> b.events_map().dom().contains(id) by {
        assert(a.events_map().dom().contains(id) == a.event_ids().contains(id));
        assert(b.events_map().dom().contains(id) == b.event_ids().contains(id));
    }
    assert(a.events_map().dom() =~= b.events_map().dom());
    assert forall|id: EventId|
        #[trigger] a.events_map().dom().contains(id) implies a.events_map()[id]
        == b.events_map()[id] by {
        assert(a.event_ids().contains(id));
    }
    assert(a.events_map() =~= b.events_map());
}

/// Signature rejection: if no received copy of an event carried a verified
/// signature, the event is not admitted by the receipt, whatever the
/// application's own verdict would have been.
pub proof fn lemma_signature_rejection(
    pre: EventStore,
    post: EventStore,
    inputs: Seq<ReceivedEntry>,
    event_hash: EventId,
)
    requires
        new_events_are_verified_inputs(pre, post, inputs),
        !pre.event_ids().contains(event_hash),
        forall|i: int|
            0 <= i < inputs.len() && (#[trigger] inputs[i]).event_hash == event_hash
                ==> !inputs[i].signature_valid,
    ensures
        !post.event_ids().contains(event_hash),
{
    if post.event_ids().contains(event_hash) {
        let i = choose|i: int|
            0 <= i < inputs.len() && (#[trigger] inputs[i]).event_hash == event_hash
                && inputs[i].signature_valid && post.events_map()[event_hash] == inputs[i].entry@;
        assert(!inputs[i].signature_valid);
    }
}

/// No resend after acknowledgement: once an acknowledgement from a recipient
/// for an event is held, no sound resend plan ever sends that event to that
/// recipient again.
pub proof fn lemma_no_resend_after_acknowledgement(
    store: EventStore,
    plan: Seq<SendPlanItem>,
    now: Timestamp,
    event_hash: EventId,
    agent: AgentId,
)
    requires
        send_plan_sound(store, plan, now),
        store.has_acknowledgement(agent, event_hash),
    ensures
        !plan_covers(plan, event_hash, agent),
{
    if plan_covers(plan, event_hash, agent) {
        let p = choose|p: int|
            0 <= p < plan.len() && (#[trigger] plan[p]).event_hash == event_hash
                && plan[p].recipients@.contains(agent);
        let k = choose|k: int|
            0 <= k < plan[p].recipients@.len() && plan[p].recipients@[k] == agent;
        assert(needs_resend(
            store,
            event_hash,
            store.events_map()[event_hash].author,
            agent,
            now,
        ));
    }
}

/// Bounded resend: while the last claimed delivery of an event to a
/// recipient is younger than the resend interval, no sound resend plan sends
/// it to that recipient again.
pub proof fn lemma_resend_throttled(
    store: EventStore,
    plan: Seq<SendPlanItem>,
    now: Timestamp,
    event_hash: EventId,
    agent: AgentId,
    last: Timestamp,
)
    requires
        send_plan_sound(store, plan, now),
        store.last_time_sent(event_hash, agent) == Some(last),
        now.0 <= last.0 + RESEND_INTERVAL_MS,
    ensures
        !plan_covers(plan, event_hash, agent),
{
    if plan_covers(plan, event_hash, agent) {
        let p = choose|p: int|
            0 <= p < plan.len() && (#[trigger] plan[p]).event_hash == event_hash
                && plan[p].recipients@.contains(agent);
        let k = choose|k: int|
            0 <= k < plan[p].recipients@.len() && plan[p].recipients@[k] == agent;
        assert(needs_resend(
            store,
            event_hash,
            store.events_map()[event_hash].author,
            agent,
            now,
        ));
        assert(resend_due(now, Some(last)));
    }
}

/// Deferred admission: an event the draining pass admits was already parked
/// in the queue — it is re-validated locally and admitted from there, never
/// re-delivered over the network — and it is admitted under the hash and
/// with the value it was parked with.
pub proof fn lemma_deferred_admission_from_queue(
    pre: EventStore,
    post: EventStore,
    event_hash: EventId,
)
    requires
        crate::awaiting_dependencies::new_events_from_queue(pre, post),
        post.event_ids().contains(event_hash),
        !pre.event_ids().contains(event_hash),
    ensures
        exists|k0: int|
            0 <= k0 < pre.awaiting_dependencies@.len()
                && crate::awaiting_dependencies::parks_event_with(
                (#[trigger] pre.awaiting_dependencies@[k0])@,
                event_hash,
                post.events_map()[event_hash],
            ),
{
}

} // verus!
