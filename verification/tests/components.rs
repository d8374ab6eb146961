//! The chunking layer, the integrity rules, history bundles and catch-up.

use private_event_sourcing::awaiting_dependencies::contains_event_id;
use private_event_sourcing::encrypted_messages::{
    assemble_message_bytes, choose_message_storage, chunk_message_bytes, get_message, LinkTarget,
    MessageLink, MessageLocation, MessageStorage, CHUNK_SIZE, INLINE_THRESHOLD,
};
use private_event_sourcing::event_history::{export_event_history, import_event_history};
use private_event_sourcing::integrity::{
    validate_delete_awaiting_dependencies, validate_delete_link_agent_encrypted_message,
    validate_create_link_agent_encrypted_message, validate_op, EntryTypes, StoreOp,
};
use private_event_sourcing::linked_devices::{get_all_agents_for, query_all_my_agents};
use private_event_sourcing::store::{EventStore, StoredEvent};
use private_event_sourcing::synchronize::{
    catch_up_targets, knows_received, missing_entries_for, syncronize_with_recipients,
    PeerKnowledge,
};
use private_event_sourcing::private_event::PrivateEvent;
use private_event_sourcing::types::{
    Acknowledgement, AcknowledgementContent, AgentId, EventId, PrivateEventContent,
    PrivateEventEntry, Signature, SignedContent, SignedEntry, Timestamp, ValidationOutcome,
};

fn make_entry(author: u64, timestamp: u64, recipient: u64) -> PrivateEventEntry {
    let mut event = recipient.to_le_bytes().to_vec();
    event.push(7);
    PrivateEventEntry(SignedEntry {
        author: AgentId(author),
        signature: Signature(author.wrapping_mul(97).wrapping_add(timestamp)),
        payload: SignedContent {
            timestamp: Timestamp(timestamp),
            content: PrivateEventContent { event_type: "shared".to_string(), event },
        },
    })
}

#[derive(Clone, Debug)]
struct SharedOnly {
    recipient: u64,
}

impl PrivateEvent for SharedOnly {
    fn encode(&self) -> Vec<u8> {
        self.recipient.to_le_bytes().to_vec()
    }

    fn decode(event_type: &String, event: &Vec<u8>) -> Option<Self> {
        if event_type.as_str() != "shared" || event.len() < 8 {
            return None;
        }
        let mut id_bytes = [0u8; 8];
        id_bytes.copy_from_slice(&event[0..8]);
        Some(SharedOnly { recipient: u64::from_le_bytes(id_bytes) })
    }

    fn event_type(&self) -> String {
        "shared".to_string()
    }

    fn validate(
        &self,
        _event_hash: &EventId,
        _author: &AgentId,
        _timestamp: Timestamp,
        _store: &EventStore,
    ) -> ValidationOutcome {
        ValidationOutcome::Valid
    }

    fn recipients(
        &self,
        _event_hash: &EventId,
        _author: &AgentId,
        _timestamp: Timestamp,
        _store: &EventStore,
    ) -> Vec<AgentId> {
        vec![AgentId(self.recipient)]
    }

    fn adds_new_recipients_for_other_events(
        &self,
        _event_hash: &EventId,
        _author: &AgentId,
        _timestamp: Timestamp,
    ) -> bool {
        false
    }
}

#[test]
fn chunking_round_trip() {
    // A payload of several chunk sizes plus a remainder.
    let mut payload: Vec<u8> = Vec::new();
    for i in 0..(2 * CHUNK_SIZE + 123) {
        payload.push((i % 251) as u8);
    }
    let chunks = chunk_message_bytes(&payload);
    assert_eq!(chunks.len(), 3);
    assert_eq!(chunks[0].len(), CHUNK_SIZE);
    assert_eq!(chunks[1].len(), CHUNK_SIZE);
    assert_eq!(chunks[2].len(), 123);
    let assembled = assemble_message_bytes(&chunks);
    assert_eq!(assembled, payload);
}

#[test]
fn chunking_edge_sizes() {
    let empty: Vec<u8> = Vec::new();
    assert!(chunk_message_bytes(&empty).is_empty());
    assert!(assemble_message_bytes(&chunk_message_bytes(&empty)).is_empty());

    let exact: Vec<u8> = vec![5; CHUNK_SIZE];
    let chunks = chunk_message_bytes(&exact);
    assert_eq!(chunks.len(), 1);
    assert_eq!(assemble_message_bytes(&chunks), exact);

    let one_over: Vec<u8> = vec![5; CHUNK_SIZE + 1];
    let chunks = chunk_message_bytes(&one_over);
    assert_eq!(chunks.len(), 2);
    assert_eq!(chunks[1].len(), 1);
    assert_eq!(assemble_message_bytes(&chunks), one_over);
}

#[test]
fn storage_decision_threshold() {
    assert_eq!(choose_message_storage(0), MessageStorage::InlineInTag);
    assert_eq!(choose_message_storage(INLINE_THRESHOLD), MessageStorage::InlineInTag);
    assert_eq!(choose_message_storage(INLINE_THRESHOLD + 1), MessageStorage::SeparateEntry);
}

#[test]
fn message_pointer_locations() {
    let inline = MessageLink {
        author: AgentId(1),
        base: AgentId(2),
        target: LinkTarget::Agent(AgentId(2)),
        tag: vec![1, 2, 3],
    };
    match get_message(&inline).unwrap() {
        MessageLocation::InlineBytes(bytes) => assert_eq!(bytes, vec![1, 2, 3]),
        MessageLocation::Pointer(_) => panic!("an inline pointer must carry its bytes"),
    }

    let stored = MessageLink {
        author: AgentId(1),
        base: AgentId(2),
        target: LinkTarget::Entry(EventId(77)),
        tag: Vec::new(),
    };
    match get_message(&stored).unwrap() {
        MessageLocation::Pointer(entry_hash) => assert_eq!(entry_hash, EventId(77)),
        MessageLocation::InlineBytes(_) => panic!("a stored pointer must name the entry"),
    }

    let foreign = MessageLink {
        author: AgentId(1),
        base: AgentId(2),
        target: LinkTarget::Agent(AgentId(3)),
        tag: Vec::new(),
    };
    assert!(get_message(&foreign).is_err());
}

#[test]
fn integrity_rules() {
    let entry = make_entry(1, 10, 2);
    let create = StoreOp::CreateEntry { entry: EntryTypes::PrivateEvent(entry) };
    assert!(matches!(validate_op(&create), ValidationOutcome::Valid));

    let entry = make_entry(1, 10, 2);
    let update = StoreOp::UpdateEntry { entry: EntryTypes::PrivateEvent(entry) };
    assert!(matches!(validate_op(&update), ValidationOutcome::Invalid(_)));

    let entry = make_entry(1, 10, 2);
    let delete_event = StoreOp::DeleteEntry {
        original: EntryTypes::PrivateEvent(entry),
        author: AgentId(1),
        original_author: AgentId(1),
    };
    assert!(matches!(validate_op(&delete_event), ValidationOutcome::Invalid(_)));

    let ack = Acknowledgement(SignedEntry {
        author: AgentId(2),
        signature: Signature(5),
        payload: SignedContent {
            timestamp: Timestamp(5),
            content: AcknowledgementContent { private_event_hash: EventId(1) },
        },
    });
    let delete_ack = StoreOp::DeleteEntry {
        original: EntryTypes::Acknowledgement(ack),
        author: AgentId(2),
        original_author: AgentId(2),
    };
    assert!(matches!(validate_op(&delete_ack), ValidationOutcome::Invalid(_)));

    // Only a parked value may be retired, and only by its own author.
    assert!(matches!(
        validate_delete_awaiting_dependencies(AgentId(4), AgentId(4)),
        ValidationOutcome::Valid
    ));
    assert!(matches!(
        validate_delete_awaiting_dependencies(AgentId(4), AgentId(5)),
        ValidationOutcome::Invalid(_)
    ));
}

#[test]
fn encrypted_link_rules() {
    assert!(matches!(
        validate_create_link_agent_encrypted_message(AgentId(2), &LinkTarget::Agent(AgentId(2))),
        ValidationOutcome::Valid
    ));
    assert!(matches!(
        validate_create_link_agent_encrypted_message(AgentId(2), &LinkTarget::Agent(AgentId(3))),
        ValidationOutcome::Invalid(_)
    ));
    assert!(matches!(
        validate_create_link_agent_encrypted_message(AgentId(2), &LinkTarget::Entry(EventId(8))),
        ValidationOutcome::Valid
    ));
    assert!(matches!(
        validate_delete_link_agent_encrypted_message(AgentId(2), AgentId(2)),
        ValidationOutcome::Valid
    ));
    assert!(matches!(
        validate_delete_link_agent_encrypted_message(AgentId(2), AgentId(3)),
        ValidationOutcome::Invalid(_)
    ));
}

#[test]
fn history_export_import_round_trip() {
    let mut store = EventStore::new(AgentId(1));
    let entry = make_entry(1, 10, 2);
    let event_hash = EventId(900);
    store.admit_event(event_hash, entry);
    store.record_acknowledgement(Acknowledgement(SignedEntry {
        author: AgentId(2),
        signature: Signature(5),
        payload: SignedContent {
            timestamp: Timestamp(5),
            content: AcknowledgementContent { private_event_hash: event_hash },
        },
    }));

    let history = export_event_history(&store);
    assert_eq!(history.events.len(), 1);
    assert_eq!(history.acknowledgements.len(), 1);

    let mut migrated = EventStore::new(AgentId(9));
    import_event_history(&mut migrated, history);
    assert!(migrated.contains_event(&event_hash));
    assert_eq!(migrated.acknowledgements.len(), 1);

    // Importing the same bundle again changes nothing: the merge
    // deduplicates.
    let second = export_event_history(&store);
    import_event_history(&mut migrated, second);
    assert_eq!(migrated.events.len(), 1);
    assert_eq!(migrated.acknowledgements.len(), 1);
}

#[test]
fn missing_entries_for_a_peer() {
    let mut store = EventStore::new(AgentId(1));
    store.admit_event(EventId(10), make_entry(1, 10, 2));
    store.admit_event(EventId(20), make_entry(1, 20, 2));
    store.admit_event(EventId(30), make_entry(1, 30, 2));

    let missing = missing_entries_for(&store, &vec![EventId(20)]);
    let hashes: Vec<EventId> = missing.iter().map(|s: &StoredEvent| s.event_hash).collect();
    assert_eq!(hashes, vec![EventId(10), EventId(30)]);
}

#[test]
fn catch_up_skips_proven_recipients() {
    let mut store = EventStore::new(AgentId(1));
    let event_hash = EventId(10);
    store.admit_event(event_hash, make_entry(1, 10, 4));

    let knowledge = vec![PeerKnowledge { agent: AgentId(4), received: vec![event_hash] }];
    let plan = syncronize_with_recipients::<SharedOnly>(
        &store,
        &vec![AgentId(1)],
        &knowledge,
    );
    assert_eq!(plan.len(), 1);
    assert_eq!(plan[0].event_hash, event_hash);
    assert_eq!(plan[0].candidates, vec![AgentId(4)]);
    assert!(plan[0].recipients.is_empty());

    let unaware = vec![PeerKnowledge { agent: AgentId(4), received: Vec::new() }];
    let plan = syncronize_with_recipients::<SharedOnly>(&store, &vec![AgentId(1)], &unaware);
    assert_eq!(plan.len(), 1);
    assert_eq!(plan[0].recipients, vec![AgentId(4)]);
    assert_eq!(plan[0].event_hash, event_hash);

    assert!(knows_received(&knowledge, &AgentId(4), &event_hash));
    assert!(!knows_received(&unaware, &AgentId(4), &event_hash));
}

#[test]
fn catch_up_targets_filter_exactly() {
    let my_agents = vec![AgentId(1), AgentId(5)];
    let knowledge = vec![PeerKnowledge { agent: AgentId(3), received: vec![EventId(10)] }];
    let candidates = vec![AgentId(2), AgentId(3), AgentId(5), AgentId(2), AgentId(4)];
    let targets = catch_up_targets(&my_agents, &knowledge, &EventId(10), &candidates);
    // Agent 3 provably has the event, agent 5 is one of this principal's
    // own, and agent 2 appears once despite being named twice.
    assert_eq!(targets, vec![AgentId(2), AgentId(4)]);

    let other_event = catch_up_targets(&my_agents, &knowledge, &EventId(11), &candidates);
    assert_eq!(other_event, vec![AgentId(2), AgentId(3), AgentId(4)]);
}

#[test]
fn all_agents_of_a_principal() {
    let store = EventStore::new(AgentId(1));
    let mine = query_all_my_agents(&store, &vec![AgentId(5), AgentId(6)]);
    assert_eq!(mine, vec![AgentId(5), AgentId(6), AgentId(1)]);
    let theirs = get_all_agents_for(&vec![AgentId(8)], AgentId(7));
    assert_eq!(theirs, vec![AgentId(8), AgentId(7)]);
    assert!(contains_event_id(&vec![EventId(1), EventId(2)], &EventId(2)));
    assert!(!contains_event_id(&vec![EventId(1)], &EventId(2)));
}
