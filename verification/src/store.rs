//! The local store: one agent's bookkeeping state.
//!
//! The durable append-only log itself is an outside collaborator; this module
//! is the engine's working image of it. Admitted events are keyed by their
//! content hash and never removed. Acknowledgements, delivery-attempt records
//! and parked values accumulate beside them.

use vstd::prelude::*;

use crate::types::{
    Acknowledgement, AgentId, AwaitingDependencies, EventId, EventSentToRecipients,
    PrivateEventEntry, PrivateEventEntryV, Timestamp,
};

verus! {

/// An admitted event together with the content hash the host computed for it.
#[derive(Debug)]
pub struct StoredEvent {
    pub event_hash: EventId,
    pub entry: PrivateEventEntry,
}

impl Clone for StoredEvent {
    fn clone(&self) -> (r: Self)
        ensures
            r.event_hash == self.event_hash,
            r.entry@ == self.entry@,
    {
        StoredEvent { event_hash: self.event_hash, entry: self.entry.clone() }
    }
}

/// The map an event sequence denotes: each stored hash to the value of its
/// entry.
pub open spec fn events_map_of(s: Seq<StoredEvent>) -> Map<EventId, PrivateEventEntryV>
    decreases s.len(),
{
    if s.len() == 0 {
        Map::empty()
    } else {
        events_map_of(s.drop_last()).insert(s.last().event_hash, s.last().entry@)
    }
}

/// A hash is in the denoted map exactly when some stored event carries it.
pub proof fn lemma_events_map_domain(s: Seq<StoredEvent>, event_hash: EventId)
    ensures
        events_map_of(s).dom().contains(event_hash) <==> exists|i: int|
            0 <= i < s.len() && s[i].event_hash == event_hash,
    decreases s.len(),
{
    if s.len() > 0 {
        lemma_events_map_domain(s.drop_last(), event_hash);
        if s.last().event_hash == event_hash {
            assert(s[s.len() - 1].event_hash == event_hash);
        } else {
            if events_map_of(s).dom().contains(event_hash) {
                let i = choose|i: int|
                    0 <= i < s.drop_last().len() && s.drop_last()[i].event_hash == event_hash;
                assert(s[i].event_hash == event_hash);
            }
            if exists|i: int| 0 <= i < s.len() && s[i].event_hash == event_hash {
                let i = choose|i: int| 0 <= i < s.len() && s[i].event_hash == event_hash;
                assert(i < s.len() - 1);
                assert(s.drop_last()[i].event_hash == event_hash);
            }
        }
    }
}

/// Under unique hashes, the denoted map sends each stored hash to the value
/// of its entry.
pub proof fn lemma_events_map_index(s: Seq<StoredEvent>, i: int)
    requires
        unique_event_hashes(s),
        0 <= i < s.len(),
    ensures
        events_map_of(s).dom().contains(s[i].event_hash),
        events_map_of(s)[s[i].event_hash] == s[i].entry@,
    decreases s.len(),
{
    lemma_events_map_domain(s, s[i].event_hash);
    if i < s.len() - 1 {
        lemma_events_map_index(s.drop_last(), i);
        lemma_events_map_domain(s.drop_last(), s[i].event_hash);
    }
}

/// Appending one stored event inserts exactly its pair into the denoted map.
pub proof fn lemma_events_map_push(s: Seq<StoredEvent>, e: StoredEvent)
    ensures
        events_map_of(s.push(e)) == events_map_of(s).insert(e.event_hash, e.entry@),
{
    assert(s.push(e).drop_last() =~= s);
    assert(s.push(e).last() == e);
}

/// No two stored events carry the same hash.
pub open spec fn unique_event_hashes(s: Seq<StoredEvent>) -> bool {
    forall|i: int, j: int| 0 <= i < j < s.len() ==> s[i].event_hash != s[j].event_hash
}

/// One agent's bookkeeping state: its own key, the admitted events, the
/// delivery-attempt records, the acknowledgements it holds (its own and
/// received ones), and the parked values awaiting dependencies.
#[derive(Debug)]
pub struct EventStore {
    pub my_pub_key: AgentId,
    pub events: Vec<StoredEvent>,
    pub events_sent_to_recipients: Vec<EventSentToRecipients>,
    pub acknowledgements: Vec<Acknowledgement>,
    pub awaiting_dependencies: Vec<AwaitingDependencies>,
}

impl EventStore {
    /// The admitted events as a map from content hash to entry value.
    pub open spec fn events_map(self) -> Map<EventId, PrivateEventEntryV> {
        events_map_of(self.events@)
    }

    /// The set of admitted event hashes.
    pub open spec fn event_ids(self) -> Set<EventId> {
        self.events_map().dom()
    }

    /// Well-formed: every admitted hash appears once.
    pub open spec fn wf(self) -> bool {
        unique_event_hashes(self.events@)
    }

    /// Some held acknowledgement from this agent covers this event.
    pub open spec fn has_acknowledgement(self, acker: AgentId, event_hash: EventId) -> bool {
        exists|i: int|
            0 <= i < self.acknowledgements@.len() && self.acknowledgements@[i].acker() == acker
                && self.acknowledgements@[i].event_hash() == event_hash
    }

    /// A fresh store: an agent that has authored and received nothing.
    pub fn new(my_pub_key: AgentId) -> (store: EventStore)
        ensures
            store.my_pub_key == my_pub_key,
            store.events@ =~= Seq::<StoredEvent>::empty(),
            store.events_sent_to_recipients@ =~= Seq::<EventSentToRecipients>::empty(),
            store.acknowledgements@ =~= Seq::<Acknowledgement>::empty(),
            store.awaiting_dependencies@ =~= Seq::<AwaitingDependencies>::empty(),
            store.wf(),
            store.event_ids() =~= Set::<EventId>::empty(),
    {
        EventStore {
            my_pub_key,
            events: Vec::new(),
            events_sent_to_recipients: Vec::new(),
            acknowledgements: Vec::new(),
            awaiting_dependencies: Vec::new(),
        }
    }

    /// Whether an event with this hash is already admitted.
    pub fn contains_event(&self, event_hash: &EventId) -> (r: bool)
        ensures
            r == self.event_ids().contains(*event_hash),
    {
        let n: usize = self.events.len();
        for i in 0..n
            invariant
                n == self.events@.len(),
                forall|j: int| 0 <= j < i ==> self.events@[j].event_hash != *event_hash,
        {
            if self.events[i].event_hash == *event_hash {
                proof {
                    lemma_events_map_domain(self.events@, *event_hash);
                }
                return true;
            }
        }
        proof {
            lemma_events_map_domain(self.events@, *event_hash);
        }
        false
    }

    /// Look one admitted event up by its hash.
    pub fn query_private_event_entry(&self, event_hash: &EventId) -> (r: Option<
        PrivateEventEntry,
    >)
        requires
            self.wf(),
        ensures
            match r {
                Some(entry) => self.event_ids().contains(*event_hash) && self.events_map()[
                    *event_hash
                ] == entry@,
                None => !self.event_ids().contains(*event_hash),
            },
    {
        let n: usize = self.events.len();
        for i in 0..n
            invariant
                self.wf(),
                n == self.events@.len(),
                forall|j: int| 0 <= j < i ==> self.events@[j].event_hash != *event_hash,
        {
            if self.events[i].event_hash == *event_hash {
                proof {
                    lemma_events_map_index(self.events@, i as int);
                }
                return Some(self.events[i].entry.clone());
            }
        }
        proof {
            lemma_events_map_domain(self.events@, *event_hash);
        }
        None
    }

    /// Admit a not-yet-present event: append it to the local log.
    pub fn admit_event(&mut self, event_hash: EventId, entry: PrivateEventEntry)
        requires
            old(self).wf(),
            !old(self).event_ids().contains(event_hash),
        ensures
            final(self).wf(),
            final(self).events@.len() == old(self).events@.len() + 1,
            final(self).events@ == old(self).events@.push(
                final(self).events@.last(),
            ),
            final(self).events@.last().event_hash == event_hash,
            final(self).events@.last().entry@ == entry@,
            final(self).events_map() == old(self).events_map().insert(event_hash, entry@),
            final(self).event_ids() == old(self).event_ids().insert(event_hash),
            final(self).my_pub_key == old(self).my_pub_key,
            final(self).events_sent_to_recipients == old(self).events_sent_to_recipients,
            final(self).acknowledgements == old(self).acknowledgements,
            final(self).awaiting_dependencies == old(self).awaiting_dependencies,
    {
        proof {
            let stored = StoredEvent { event_hash, entry };
            lemma_events_map_push(self.events@, stored);
            assert forall|i: int, j: int| 0 <= i < j < self.events@.push(stored).len() implies self.events@.push(
                stored,
            )[i].event_hash != self.events@.push(stored)[j].event_hash by {
                if j == self.events@.len() {
                    assert(self.events@[i].event_hash != event_hash) by {
                        lemma_events_map_domain(self.events@, self.events@[i].event_hash);
                        lemma_events_map_domain(self.events@, event_hash);
                    }
                }
            }
            assert(events_map_of(self.events@).insert(event_hash, entry@).dom()
                =~= events_map_of(self.events@).dom().insert(event_hash));
        }
        self.events.push(StoredEvent { event_hash, entry });
    }

    /// Hold a received or freshly signed acknowledgement.
    pub fn record_acknowledgement(&mut self, acknowledgement: Acknowledgement)
        ensures
            final(self).acknowledgements@ == old(self).acknowledgements@.push(acknowledgement),
            final(self).my_pub_key == old(self).my_pub_key,
            final(self).events == old(self).events,
            final(self).events_sent_to_recipients == old(self).events_sent_to_recipients,
            final(self).awaiting_dependencies == old(self).awaiting_dependencies,
    {
        self.acknowledgements.push(acknowledgement);
    }

    /// Hold a received or freshly signed delivery-attempt record.
    pub fn record_event_sent(&mut self, record: EventSentToRecipients)
        ensures
            final(self).events_sent_to_recipients@ == old(
                self,
            ).events_sent_to_recipients@.push(record),
            final(self).my_pub_key == old(self).my_pub_key,
            final(self).events == old(self).events,
            final(self).acknowledgements == old(self).acknowledgements,
            final(self).awaiting_dependencies == old(self).awaiting_dependencies,
    {
        self.events_sent_to_recipients.push(record);
    }

    /// Park a value that references a not-yet-present event.
    pub fn park_awaiting(&mut self, awaiting: AwaitingDependencies)
        ensures
            final(self).awaiting_dependencies@ == old(self).awaiting_dependencies@.push(awaiting),
            final(self).my_pub_key == old(self).my_pub_key,
            final(self).events == old(self).events,
            final(self).events_sent_to_recipients == old(self).events_sent_to_recipients,
            final(self).acknowledgements == old(self).acknowledgements,
    {
        self.awaiting_dependencies.push(awaiting);
    }

    /// Whether this agent has already acknowledged this event, judged over
    /// every held acknowledgement.
    pub fn has_acknowledgement_from(&self, acker: &AgentId, event_hash: &EventId) -> (r: bool)
        ensures
            r == self.has_acknowledgement(*acker, *event_hash),
    {
        let n: usize = self.acknowledgements.len();
        for i in 0..n
            invariant
                n == self.acknowledgements@.len(),
                forall|j: int|
                    0 <= j < i ==> !(self.acknowledgements@[j].acker() == *acker
                        && self.acknowledgements@[j].event_hash() == *event_hash),
        {
            if self.acknowledgements[i].0.author == *acker
                && self.acknowledgements[i].0.payload.content.private_event_hash == *event_hash {
                return true;
            }
        }
        false
    }
}

/// The latest claimed delivery time to one agent for one event, over a
/// sequence of delivery-attempt records.
pub open spec fn last_sent_of(
    s: Seq<EventSentToRecipients>,
    event_hash: EventId,
    agent: AgentId,
) -> Option<Timestamp>
    decreases s.len(),
{
    if s.len() == 0 {
        None::<Timestamp>
    } else {
        let rest = last_sent_of(s.drop_last(), event_hash, agent);
        let l = s.last();
        if l.event_hash() == event_hash && l.recipients().contains(agent) {
            match rest {
                None => Some(l.timestamp()),
                Some(t) => if l.timestamp().0 >= t.0 {
                    Some(l.timestamp())
                } else {
                    Some(t)
                },
            }
        } else {
            rest
        }
    }
}

impl EventStore {
    /// The last time this store claims the event was sent to this agent.
    pub open spec fn last_time_sent(self, event_hash: EventId, agent: AgentId) -> Option<
        Timestamp,
    > {
        last_sent_of(self.events_sent_to_recipients@, event_hash, agent)
    }

    /// Compute the last claimed delivery time for an (event, agent) pair.
    pub fn query_last_time_sent(&self, event_hash: &EventId, agent: &AgentId) -> (r: Option<
        Timestamp,
    >)
        ensures
            r == self.last_time_sent(*event_hash, *agent),
    {
        let mut last: Option<Timestamp> = None;
        let n: usize = self.events_sent_to_recipients.len();
        for i in 0..n
            invariant
                n == self.events_sent_to_recipients@.len(),
                last == last_sent_of(
                    self.events_sent_to_recipients@.subrange(0, i as int),
                    *event_hash,
                    *agent,
                ),
        {
            let record = &self.events_sent_to_recipients[i];
            proof {
                assert(self.events_sent_to_recipients@.subrange(0, i + 1 as int).drop_last()
                    =~= self.events_sent_to_recipients@.subrange(0, i as int));
            }
            if record.0.payload.content.event_hash == *event_hash && contains_agent(
                &record.0.payload.content.recipients,
                agent,
            ) {
                match last {
                    None => {
                        last = Some(record.0.payload.timestamp);
                    },
                    Some(t) => {
                        if record.0.payload.timestamp.0 >= t.0 {
                            last = Some(record.0.payload.timestamp);
                        }
                    },
                }
            }
        }
        proof {
            assert(self.events_sent_to_recipients@.subrange(
                0,
                self.events_sent_to_recipients@.len() as int,
            ) =~= self.events_sent_to_recipients@);
        }
        last
    }
}

/// Some event before position `j` in the log carries this hash.
pub open spec fn hash_among_first(store: EventStore, j: int, event_hash: EventId) -> bool {
    exists|jj: int|
        0 <= jj < j && (#[trigger] store.events@[jj]).event_hash == event_hash
}

/// Whether the agent appears in the list.
pub fn contains_agent(agents: &Vec<AgentId>, agent: &AgentId) -> (r: bool)
    ensures
        r == agents@.contains(*agent),
{
    let n: usize = agents.len();
    for i in 0..n
        invariant
            n == agents@.len(),
            forall|j: int| 0 <= j < i ==> agents@[j] != *agent,
    {
        if agents[i] == *agent {
            return true;
        }
    }
    false
}

} // verus!
