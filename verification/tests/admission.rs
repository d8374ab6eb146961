//! Admission behaviour: idempotence, deferred admission, order-independent
//! merge, and signature rejection.

use private_event_sourcing::acknowledgements::{receive_acknowledgements, ReceivedAcknowledgement};
use private_event_sourcing::awaiting_dependencies::attempt_commit_awaiting_deps_entries;
use private_event_sourcing::private_event::{
    create_private_event, private_event_entry_to_signed_event, query_private_event_entries_by_type,
    query_private_events, receive_private_events, sort_received_entries,
    validate_private_event_entry, PrivateEvent, ReceivedEntry,
};
use private_event_sourcing::store::EventStore;
use private_event_sourcing::types::{
    Acknowledgement, AcknowledgementContent, AgentId, EngineError, EventId, PrivateEventContent,
    PrivateEventEntry, Signature, SignedContent, SignedEntry, Timestamp, ValidationOutcome,
};

#[derive(Clone, Debug)]
enum TestEvent {
    Note { body: Vec<u8> },
    Shared { recipient: u64, body: Vec<u8> },
    Dependent { depends_on: u64 },
    Picky { depends_on: u64 },
    Refused,
}

impl PrivateEvent for TestEvent {
    fn encode(&self) -> Vec<u8> {
        encode(self)
    }

    fn decode(event_type: &String, event: &Vec<u8>) -> Option<Self> {
        match event_type.as_str() {
            "note" => Some(TestEvent::Note { body: event.clone() }),
            "shared" => {
                if event.len() < 8 {
                    return None;
                }
                let mut id_bytes = [0u8; 8];
                id_bytes.copy_from_slice(&event[0..8]);
                Some(TestEvent::Shared {
                    recipient: u64::from_le_bytes(id_bytes),
                    body: event[8..].to_vec(),
                })
            }
            "dependent" => {
                if event.len() != 8 {
                    return None;
                }
                let mut id_bytes = [0u8; 8];
                id_bytes.copy_from_slice(&event[0..8]);
                Some(TestEvent::Dependent { depends_on: u64::from_le_bytes(id_bytes) })
            }
            "picky" => {
                if event.len() != 8 {
                    return None;
                }
                let mut id_bytes = [0u8; 8];
                id_bytes.copy_from_slice(&event[0..8]);
                Some(TestEvent::Picky { depends_on: u64::from_le_bytes(id_bytes) })
            }
            "refused" => Some(TestEvent::Refused),
            _ => None,
        }
    }

    fn event_type(&self) -> String {
        match self {
            TestEvent::Note { .. } => "note".to_string(),
            TestEvent::Shared { .. } => "shared".to_string(),
            TestEvent::Dependent { .. } => "dependent".to_string(),
            TestEvent::Picky { .. } => "picky".to_string(),
            TestEvent::Refused => "refused".to_string(),
        }
    }

    fn validate(
        &self,
        _event_hash: &EventId,
        _author: &AgentId,
        _timestamp: Timestamp,
        store: &EventStore,
    ) -> ValidationOutcome {
        match self {
            TestEvent::Note { .. } | TestEvent::Shared { .. } => ValidationOutcome::Valid,
            TestEvent::Dependent { depends_on } => {
                if store.contains_event(&EventId(*depends_on)) {
                    ValidationOutcome::Valid
                } else {
                    ValidationOutcome::UnresolvedDependencies(vec![EventId(*depends_on)])
                }
            }
            TestEvent::Picky { depends_on } => {
                // Turns invalid once its dependency arrives: exercises the
                // drop-for-good path of the draining pass.
                if store.contains_event(&EventId(*depends_on)) {
                    ValidationOutcome::Invalid("stale by the time it resolved".to_string())
                } else {
                    ValidationOutcome::UnresolvedDependencies(vec![EventId(*depends_on)])
                }
            }
            TestEvent::Refused => {
                ValidationOutcome::Invalid("the application refuses this event".to_string())
            }
        }
    }

    fn recipients(
        &self,
        _event_hash: &EventId,
        _author: &AgentId,
        _timestamp: Timestamp,
        _store: &EventStore,
    ) -> Vec<AgentId> {
        match self {
            TestEvent::Shared { recipient, .. } => vec![AgentId(*recipient)],
            _ => Vec::new(),
        }
    }

    fn adds_new_recipients_for_other_events(
        &self,
        _event_hash: &EventId,
        _author: &AgentId,
        _timestamp: Timestamp,
    ) -> bool {
        false
    }
}

fn encode(event: &TestEvent) -> Vec<u8> {
    match event {
        TestEvent::Note { body } => body.clone(),
        TestEvent::Shared { recipient, body } => {
            let mut bytes = recipient.to_le_bytes().to_vec();
            bytes.extend_from_slice(body);
            bytes
        }
        TestEvent::Dependent { depends_on } => depends_on.to_le_bytes().to_vec(),
        TestEvent::Picky { depends_on } => depends_on.to_le_bytes().to_vec(),
        TestEvent::Refused => Vec::new(),
    }
}

fn make_entry(author: u64, timestamp: u64, event: &TestEvent) -> PrivateEventEntry {
    PrivateEventEntry(SignedEntry {
        author: AgentId(author),
        signature: Signature(author.wrapping_mul(97).wrapping_add(timestamp)),
        payload: SignedContent {
            timestamp: Timestamp(timestamp),
            content: PrivateEventContent { event_type: event.event_type(), event: encode(event) },
        },
    })
}

/// The test host's content hash: deterministic in the canonical fields.
fn fake_hash(entry: &PrivateEventEntry) -> EventId {
    let mut h: u64 = entry.0.author.0.wrapping_mul(1_000_003)
        ^ entry.0.payload.timestamp.0.wrapping_mul(7_919);
    for b in entry.0.payload.content.event_type.bytes() {
        h = h.wrapping_mul(131).wrapping_add(b as u64);
    }
    for b in entry.0.payload.content.event.iter() {
        h = h.wrapping_mul(31).wrapping_add(*b as u64 + 1);
    }
    EventId(h)
}

fn received(entry: PrivateEventEntry, signature_valid: bool) -> ReceivedEntry {
    ReceivedEntry { event_hash: fake_hash(&entry), entry, signature_valid }
}

fn clone_entry(entry: &PrivateEventEntry) -> PrivateEventEntry {
    entry.clone()
}

#[test]
fn idempotent_admission_within_one_batch() {
    let mut store = EventStore::new(AgentId(9));
    let event = TestEvent::Note { body: vec![1, 2, 3] };
    let entry = make_entry(1, 100, &event);
    let id = fake_hash(&entry);

    let report = receive_private_events::<TestEvent>(
        &mut store,
        AgentId(1),
        vec![received(clone_entry(&entry), true), received(clone_entry(&entry), true)],
    );

    assert_eq!(report.admitted, vec![id]);
    let copies = store.events.iter().filter(|s| s.event_hash == id).count();
    assert_eq!(copies, 1);
}

#[test]
fn idempotent_admission_across_two_receipts() {
    let mut store = EventStore::new(AgentId(9));
    let event = TestEvent::Note { body: vec![4] };
    let entry = make_entry(1, 100, &event);
    let id = fake_hash(&entry);

    let first = receive_private_events::<TestEvent>(
        &mut store,
        AgentId(1),
        vec![received(clone_entry(&entry), true)],
    );
    let second = receive_private_events::<TestEvent>(
        &mut store,
        AgentId(1),
        vec![received(clone_entry(&entry), true)],
    );

    assert_eq!(first.admitted, vec![id]);
    assert!(second.admitted.is_empty());
    let copies = store.events.iter().filter(|s| s.event_hash == id).count();
    assert_eq!(copies, 1);
}

#[test]
fn deferred_admission_after_dependency_arrives() {
    let mut store = EventStore::new(AgentId(9));
    let base = make_entry(1, 50, &TestEvent::Note { body: vec![7] });
    let base_id = fake_hash(&base);
    let dependent = make_entry(1, 60, &TestEvent::Dependent { depends_on: base_id.0 });
    let dependent_id = fake_hash(&dependent);

    // The dependent event arrives first and is parked, not admitted.
    let report = receive_private_events::<TestEvent>(
        &mut store,
        AgentId(1),
        vec![received(clone_entry(&dependent), true)],
    );
    assert_eq!(report.parked, vec![dependent_id]);
    assert!(!store.contains_event(&dependent_id));
    assert_eq!(store.awaiting_dependencies.len(), 1);

    // Its dependency is admitted; the draining pass then admits the parked
    // event from the queue, without any new delivery.
    receive_private_events::<TestEvent>(
        &mut store,
        AgentId(1),
        vec![received(clone_entry(&base), true)],
    );
    let dropped = attempt_commit_awaiting_deps_entries::<TestEvent>(&mut store);
    assert!(dropped.is_empty());
    assert!(store.contains_event(&base_id));
    assert!(store.contains_event(&dependent_id));
    assert!(store.awaiting_dependencies.is_empty());
}

#[test]
fn parked_event_invalid_after_resolution_is_dropped_for_good() {
    let mut store = EventStore::new(AgentId(9));
    let base = make_entry(1, 50, &TestEvent::Note { body: vec![7] });
    let base_id = fake_hash(&base);
    let picky = make_entry(1, 60, &TestEvent::Picky { depends_on: base_id.0 });
    let picky_id = fake_hash(&picky);

    let report = receive_private_events::<TestEvent>(
        &mut store,
        AgentId(1),
        vec![received(clone_entry(&picky), true)],
    );
    assert_eq!(report.parked, vec![picky_id]);

    receive_private_events::<TestEvent>(
        &mut store,
        AgentId(1),
        vec![received(clone_entry(&base), true)],
    );
    let dropped = attempt_commit_awaiting_deps_entries::<TestEvent>(&mut store);
    assert_eq!(dropped, vec![picky_id]);
    assert!(!store.contains_event(&picky_id));
    assert!(store.awaiting_dependencies.is_empty());
}

#[test]
fn order_independent_merge() {
    let e1 = make_entry(1, 100, &TestEvent::Note { body: vec![1] });
    let e2 = make_entry(2, 50, &TestEvent::Note { body: vec![2] });
    let id1 = fake_hash(&e1);
    let id2 = fake_hash(&e2);

    let mut forward = EventStore::new(AgentId(9));
    receive_private_events::<TestEvent>(
        &mut forward,
        AgentId(1),
        vec![received(clone_entry(&e1), true), received(clone_entry(&e2), true)],
    );

    let mut backward = EventStore::new(AgentId(9));
    receive_private_events::<TestEvent>(
        &mut backward,
        AgentId(1),
        vec![received(clone_entry(&e2), true), received(clone_entry(&e1), true)],
    );

    for store in [&forward, &backward] {
        assert!(store.contains_event(&id1));
        assert!(store.contains_event(&id2));
        assert_eq!(store.events.len(), 2);
    }
    // The deterministic processing order (ascending timestamp) even makes the
    // logs identical, not just equal as sets.
    assert_eq!(forward.events[0].event_hash, backward.events[0].event_hash);
    assert_eq!(forward.events[1].event_hash, backward.events[1].event_hash);
}

#[test]
fn signature_rejection() {
    let mut store = EventStore::new(AgentId(9));
    // The event itself would be perfectly valid; only the signature fails.
    let entry = make_entry(1, 100, &TestEvent::Note { body: vec![1] });
    let id = fake_hash(&entry);

    let report = receive_private_events::<TestEvent>(
        &mut store,
        AgentId(1),
        vec![received(clone_entry(&entry), false)],
    );

    assert!(!store.contains_event(&id));
    assert!(store.events.is_empty());
    assert_eq!(report.rejected, vec![id]);
    assert!(report.admitted.is_empty());

    // A verdict straight from the validator: an unverified signature is
    // invalid whatever the application would say.
    let outcome = validate_private_event_entry::<TestEvent>(&entry, &id, false, &store);
    assert!(matches!(outcome, ValidationOutcome::Invalid(_)));
}

#[test]
fn application_rejection_is_isolated_per_entry() {
    let mut store = EventStore::new(AgentId(9));
    let bad = make_entry(1, 10, &TestEvent::Refused);
    let good = make_entry(1, 20, &TestEvent::Note { body: vec![5] });
    let bad_id = fake_hash(&bad);
    let good_id = fake_hash(&good);

    let report = receive_private_events::<TestEvent>(
        &mut store,
        AgentId(1),
        vec![received(bad, true), received(good, true)],
    );

    assert_eq!(report.rejected, vec![bad_id]);
    assert_eq!(report.admitted, vec![good_id]);
    assert!(store.contains_event(&good_id));
    assert!(!store.contains_event(&bad_id));
}

#[test]
fn create_private_event_admits_and_rejects() {
    let mut store = EventStore::new(AgentId(7));
    let event = TestEvent::Note { body: vec![9] };
    let entry = make_entry(7, 500, &event);
    let id = fake_hash(&entry);

    let created = create_private_event::<TestEvent>(&mut store, &event, entry, id);
    assert_eq!(created.unwrap(), id);
    assert!(store.contains_event(&id));

    // A locally authored event must satisfy its own validator.
    let refused = TestEvent::Refused;
    let refused_entry = make_entry(7, 501, &refused);
    let refused_id = fake_hash(&refused_entry);
    let result = create_private_event::<TestEvent>(&mut store, &refused, refused_entry, refused_id);
    assert!(matches!(result, Err(EngineError::ApplicationRejected(_))));
    assert!(!store.contains_event(&refused_id));

    // A locally authored event is never parked.
    let dangling = TestEvent::Dependent { depends_on: 424_242 };
    let dangling_entry = make_entry(7, 502, &dangling);
    let dangling_id = fake_hash(&dangling_entry);
    let result =
        create_private_event::<TestEvent>(&mut store, &dangling, dangling_entry, dangling_id);
    assert!(matches!(result, Err(EngineError::UnresolvedDependency)));
    assert!(store.awaiting_dependencies.is_empty());

    // A declared tag that does not match the event is malformed.
    let note = TestEvent::Note { body: vec![1] };
    let mistagged = make_entry(7, 503, &TestEvent::Refused);
    let mistagged_id = fake_hash(&mistagged);
    let result = create_private_event::<TestEvent>(&mut store, &note, mistagged, mistagged_id);
    assert!(matches!(result, Err(EngineError::MalformedEnvelope(_))));
}

#[test]
fn sort_orders_by_timestamp_then_hash() {
    let e1 = make_entry(1, 300, &TestEvent::Note { body: vec![1] });
    let e2 = make_entry(2, 100, &TestEvent::Note { body: vec![2] });
    let e3 = make_entry(3, 200, &TestEvent::Note { body: vec![3] });
    let sorted = sort_received_entries(vec![
        received(e1, true),
        received(e2, true),
        received(e3, true),
    ]);
    assert_eq!(sorted.len(), 3);
    assert_eq!(sorted[0].entry.0.payload.timestamp, Timestamp(100));
    assert_eq!(sorted[1].entry.0.payload.timestamp, Timestamp(200));
    assert_eq!(sorted[2].entry.0.payload.timestamp, Timestamp(300));
}

#[test]
fn query_by_type_filters_exactly() {
    let mut store = EventStore::new(AgentId(9));
    let note = make_entry(1, 10, &TestEvent::Note { body: vec![1] });
    let shared = make_entry(1, 20, &TestEvent::Shared { recipient: 5, body: vec![2] });
    let note_id = fake_hash(&note);
    receive_private_events::<TestEvent>(
        &mut store,
        AgentId(1),
        vec![received(note, true), received(shared, true)],
    );

    let notes = query_private_event_entries_by_type(&store, &"note".to_string());
    assert_eq!(notes.len(), 1);
    assert_eq!(notes[0].event_hash, note_id);
    let none = query_private_event_entries_by_type(&store, &"missing".to_string());
    assert!(none.is_empty());
}

#[test]
fn decoding_keeps_the_envelope_fields() {
    let event = TestEvent::Shared { recipient: 4, body: vec![1, 2] };
    let entry = make_entry(3, 250, &event);
    let signed = private_event_entry_to_signed_event::<TestEvent>(entry).unwrap();
    assert_eq!(signed.author, AgentId(3));
    assert_eq!(signed.payload.timestamp, Timestamp(250));
    assert_eq!(signed.payload.content.event_type, "shared".to_string());
    assert!(matches!(
        signed.payload.content.event,
        TestEvent::Shared { recipient: 4, .. }
    ));

    // An envelope whose bytes do not decode is malformed.
    let garbled = PrivateEventEntry(SignedEntry {
        author: AgentId(3),
        signature: Signature(1),
        payload: SignedContent {
            timestamp: Timestamp(250),
            content: PrivateEventContent { event_type: "shared".to_string(), event: vec![1] },
        },
    });
    let result = private_event_entry_to_signed_event::<TestEvent>(garbled);
    assert!(matches!(result, Err(EngineError::MalformedEnvelope(_))));
}

#[test]
fn receiving_nothing_changes_nothing() {
    let mut store = EventStore::new(AgentId(9));
    let report = receive_private_events::<TestEvent>(&mut store, AgentId(1), Vec::new());
    assert!(report.admitted.is_empty());
    assert!(report.rejected.is_empty());
    assert!(report.parked.is_empty());
    assert!(report.acknowledgements_to_send.is_empty());
    assert!(store.events.is_empty());

    let decoded = query_private_events::<TestEvent>(&store);
    assert!(decoded.is_empty());
}

#[test]
fn unverified_acknowledgement_fails_the_batch() {
    let mut store = EventStore::new(AgentId(9));
    let ack = Acknowledgement(SignedEntry {
        author: AgentId(2),
        signature: Signature(77),
        payload: SignedContent {
            timestamp: Timestamp(5),
            content: AcknowledgementContent { private_event_hash: EventId(1234) },
        },
    });
    let result = receive_acknowledgements(
        &mut store,
        AgentId(2),
        vec![ReceivedAcknowledgement { acknowledgement: ack, signature_valid: false }],
    );
    assert!(matches!(result, Err(EngineError::SignatureInvalid)));
    assert!(store.acknowledgements.is_empty());
    assert!(store.awaiting_dependencies.is_empty());
}
