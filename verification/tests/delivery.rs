//! Delivery: fan-out, the acknowledgement protocol, resend throttling, and
//! the end-to-end exchange between two agents.

use private_event_sourcing::acknowledgements::ReceivedAcknowledgement;
use private_event_sourcing::awaiting_dependencies::{
    query_awaiting_deps_acknowledgements, query_awaiting_deps_events_sent_to_recipients,
};
use private_event_sourcing::event_history::{export_event_history, import_event_history};
use private_event_sourcing::events_sent::{
    query_events_sent_to_recipients, ReceivedEventSentToRecipients,
};
use private_event_sourcing::messages::{receive_message, scheduled_tasks, ReceiveMessageInput};
use private_event_sourcing::private_event::{create_private_event, PrivateEvent, ReceivedEntry};
use private_event_sourcing::send_events::{
    resend_events_if_necessary, send_new_events, synchronize_with_linked_device,
    RESEND_INTERVAL_MS,
};
use private_event_sourcing::store::EventStore;
use private_event_sourcing::types::{
    Acknowledgement, AcknowledgementContent, AgentId, EventId, EventSentToRecipients,
    EventSentToRecipientsContent, Message, PrivateEventContent, PrivateEventEntry, Signature,
    SignedContent, SignedEntry, Timestamp, ValidationOutcome,
};

#[derive(Clone, Debug)]
enum TestEvent {
    Shared { recipient: u64, body: Vec<u8> },
}

impl PrivateEvent for TestEvent {
    fn encode(&self) -> Vec<u8> {
        encode(self)
    }

    fn decode(event_type: &String, event: &Vec<u8>) -> Option<Self> {
        match event_type.as_str() {
            "shared" => {
                if event.len() < 8 {
                    return None;
                }
                let mut id_bytes = [0u8; 8];
                id_bytes.copy_from_slice(&event[0..8]);
                Some(TestEvent::Shared {
                    recipient: u64::from_le_bytes(id_bytes),
                    body: event[8..].to_vec(),
                })
            }
            _ => None,
        }
    }

    fn event_type(&self) -> String {
        "shared".to_string()
    }

    fn validate(
        &self,
        _event_hash: &EventId,
        _author: &AgentId,
        _timestamp: Timestamp,
        _store: &EventStore,
    ) -> ValidationOutcome {
        ValidationOutcome::Valid
    }

    fn recipients(
        &self,
        _event_hash: &EventId,
        _author: &AgentId,
        _timestamp: Timestamp,
        _store: &EventStore,
    ) -> Vec<AgentId> {
        let TestEvent::Shared { recipient, .. } = self;
        vec![AgentId(*recipient)]
    }

    fn adds_new_recipients_for_other_events(
        &self,
        _event_hash: &EventId,
        _author: &AgentId,
        _timestamp: Timestamp,
    ) -> bool {
        false
    }
}

fn encode(event: &TestEvent) -> Vec<u8> {
    let TestEvent::Shared { recipient, body } = event;
    let mut bytes = recipient.to_le_bytes().to_vec();
    bytes.extend_from_slice(body);
    bytes
}

fn make_entry(author: u64, timestamp: u64, event: &TestEvent) -> PrivateEventEntry {
    PrivateEventEntry(SignedEntry {
        author: AgentId(author),
        signature: Signature(author.wrapping_mul(97).wrapping_add(timestamp)),
        payload: SignedContent {
            timestamp: Timestamp(timestamp),
            content: PrivateEventContent { event_type: event.event_type(), event: encode(event) },
        },
    })
}

fn fake_hash(entry: &PrivateEventEntry) -> EventId {
    let mut h: u64 = entry.0.author.0.wrapping_mul(1_000_003)
        ^ entry.0.payload.timestamp.0.wrapping_mul(7_919);
    for b in entry.0.payload.content.event_type.bytes() {
        h = h.wrapping_mul(131).wrapping_add(b as u64);
    }
    for b in entry.0.payload.content.event.iter() {
        h = h.wrapping_mul(31).wrapping_add(*b as u64 + 1);
    }
    EventId(h)
}

/// The test host turns a wire bundle into verified receive input.
fn as_input(provenance: u64, message: Message) -> ReceiveMessageInput {
    ReceiveMessageInput {
        provenance: AgentId(provenance),
        private_events: message
            .private_events
            .into_iter()
            .map(|entry| ReceivedEntry { event_hash: fake_hash(&entry), entry, signature_valid: true })
            .collect(),
        events_sent_to_recipients: message
            .events_sent_to_recipients
            .into_iter()
            .map(|event_sent_to_recipients| ReceivedEventSentToRecipients {
                event_sent_to_recipients,
                signature_valid: true,
            })
            .collect(),
        acknowledgements: message
            .acknowledgements
            .into_iter()
            .map(|acknowledgement| ReceivedAcknowledgement { acknowledgement, signature_valid: true })
            .collect(),
    }
}

fn sign_record(
    author: u64,
    now: u64,
    content: EventSentToRecipientsContent,
) -> EventSentToRecipients {
    EventSentToRecipients(SignedEntry {
        author: AgentId(author),
        signature: Signature(author.wrapping_mul(11).wrapping_add(now)),
        payload: SignedContent { timestamp: Timestamp(now), content },
    })
}

fn sign_ack(author: u64, now: u64, content: AcknowledgementContent) -> Acknowledgement {
    Acknowledgement(SignedEntry {
        author: AgentId(author),
        signature: Signature(author.wrapping_mul(13).wrapping_add(now)),
        payload: SignedContent { timestamp: Timestamp(now), content },
    })
}

#[test]
fn exchange_between_author_and_recipient() {
    // Agent A authors an event for recipient B; A's tick plans the delivery;
    // B receives, admits and acknowledges; A's next tick plans no resend.
    let a = 1u64;
    let b = 2u64;
    let mut store_a = EventStore::new(AgentId(a));
    let mut store_b = EventStore::new(AgentId(b));

    let event = TestEvent::Shared { recipient: b, body: vec![42] };
    let entry = make_entry(a, 100, &event);
    let event_hash = fake_hash(&entry);
    create_private_event::<TestEvent>(&mut store_a, &event, entry, event_hash).unwrap();

    // A's tick: one delivery is due, to B, and a delivery-attempt record is
    // signed and held once the durable channel accepted the bundle.
    let now1 = Timestamp(200);
    let plan = scheduled_tasks::<TestEvent>(&mut store_a, &Vec::new(), now1);
    assert_eq!(plan.resend.len(), 1);
    assert_eq!(plan.resend[0].event_hash, event_hash);
    assert_eq!(plan.resend[0].recipients, vec![AgentId(b)]);
    assert!(plan.acknowledgements.is_empty());

    let record = sign_record(a, now1.0, EventSentToRecipientsContent {
        event_hash,
        recipients: vec![AgentId(b)],
    });
    store_a.record_event_sent(record.clone());

    // The bundle travels to B over the transport.
    let mut message = plan.resend.into_iter().next().unwrap().message;
    message.events_sent_to_recipients.push(record);
    let outcome = receive_message::<TestEvent>(&mut store_b, as_input(a, message));
    assert!(outcome.events_sent_result.is_ok());
    assert!(outcome.acknowledgements_result.is_ok());
    assert_eq!(outcome.report.admitted, vec![event_hash]);
    assert!(store_b.contains_event(&event_hash));

    // B's tick: one acknowledgement is owed, back to the author A.
    let now2 = Timestamp(300);
    let plan_b = scheduled_tasks::<TestEvent>(&mut store_b, &Vec::new(), now2);
    assert_eq!(plan_b.acknowledgements.len(), 1);
    let item = &plan_b.acknowledgements[0];
    assert_eq!(item.private_event_hash, event_hash);
    assert!(item.recipients.contains(&AgentId(a)));
    assert!(!item.recipients.contains(&AgentId(b)));
    // B resends nothing: it is not the event's author.
    assert!(plan_b.resend.is_empty());

    let ack = sign_ack(b, now2.0, item.content);
    store_b.record_acknowledgement(ack);

    // The acknowledgement travels back to A.
    let ack_bundle = Message {
        private_events: Vec::new(),
        events_sent_to_recipients: Vec::new(),
        acknowledgements: vec![ack],
    };
    receive_message::<TestEvent>(&mut store_a, as_input(b, ack_bundle));
    assert!(store_a.has_acknowledgement_from(&AgentId(b), &event_hash));

    // A's next tick: the recipient acknowledged, so nothing is resent, and
    // no acknowledgement is planned for A's own event.
    let now3 = Timestamp(400);
    let plan_a2 = scheduled_tasks::<TestEvent>(&mut store_a, &Vec::new(), now3);
    assert!(plan_a2.resend.is_empty());
    assert!(plan_a2.acknowledgements.is_empty());

    // End state: A holds the event and B's acknowledgement; B holds the
    // event and its own acknowledgement.
    assert!(store_a.contains_event(&event_hash));
    assert_eq!(store_a.acknowledgements.len(), 1);
    assert!(store_b.contains_event(&event_hash));
    assert_eq!(store_b.acknowledgements.len(), 1);
    assert_eq!(store_b.acknowledgements[0].0.author, AgentId(b));
}

#[test]
fn resend_throttled_within_interval_and_due_after() {
    let a = 1u64;
    let b = 2u64;
    let mut store_a = EventStore::new(AgentId(a));
    let event = TestEvent::Shared { recipient: b, body: vec![1] };
    let entry = make_entry(a, 100, &event);
    let event_hash = fake_hash(&entry);
    create_private_event::<TestEvent>(&mut store_a, &event, entry, event_hash).unwrap();

    // A delivery was attempted at t = 1000 and never acknowledged.
    let sent_at = 1000u64;
    store_a.record_event_sent(sign_record(a, sent_at, EventSentToRecipientsContent {
        event_hash,
        recipients: vec![AgentId(b)],
    }));

    // Within the interval nothing is resent.
    let soon = Timestamp(sent_at + RESEND_INTERVAL_MS);
    let plan = resend_events_if_necessary::<TestEvent>(&store_a, &Vec::new(), soon);
    assert!(plan.is_empty());

    // One tick past the interval the resend is due again.
    let late = Timestamp(sent_at + RESEND_INTERVAL_MS + 1);
    let plan = resend_events_if_necessary::<TestEvent>(&store_a, &Vec::new(), late);
    assert_eq!(plan.len(), 1);
    assert_eq!(plan[0].recipients, vec![AgentId(b)]);
}

#[test]
fn linked_devices_are_implicit_recipients() {
    let a = 1u64;
    let device = 5u64;
    let mut store_a = EventStore::new(AgentId(a));
    let event = TestEvent::Shared { recipient: 2, body: vec![1] };
    let entry = make_entry(a, 100, &event);
    let event_hash = fake_hash(&entry);
    create_private_event::<TestEvent>(&mut store_a, &event, entry, event_hash).unwrap();

    let plan = resend_events_if_necessary::<TestEvent>(
        &store_a,
        &vec![AgentId(device), AgentId(a)],
        Timestamp(200),
    );
    assert_eq!(plan.len(), 1);
    assert!(plan[0].recipients.contains(&AgentId(2)));
    assert!(plan[0].recipients.contains(&AgentId(device)));
    // An agent never sends to itself.
    assert!(!plan[0].recipients.contains(&AgentId(a)));
}

#[test]
fn send_new_events_fans_out_only_own_events() {
    let a = 1u64;
    let b = 2u64;
    let mut store_a = EventStore::new(AgentId(a));

    let own = TestEvent::Shared { recipient: b, body: vec![1] };
    let own_entry = make_entry(a, 100, &own);
    let own_hash = fake_hash(&own_entry);
    create_private_event::<TestEvent>(&mut store_a, &own, own_entry, own_hash).unwrap();

    // An event someone else authored is admitted but not fanned out.
    let foreign_entry = make_entry(3, 50, &TestEvent::Shared { recipient: b, body: vec![9] });
    let foreign_hash = fake_hash(&foreign_entry);
    let input = ReceiveMessageInput {
        provenance: AgentId(3),
        private_events: vec![ReceivedEntry {
            event_hash: foreign_hash,
            entry: foreign_entry,
            signature_valid: true,
        }],
        events_sent_to_recipients: Vec::new(),
        acknowledgements: Vec::new(),
    };
    receive_message::<TestEvent>(&mut store_a, input);

    let plan = send_new_events::<TestEvent>(
        &store_a,
        &Vec::new(),
        &vec![own_hash, foreign_hash, EventId(777)],
    );
    assert_eq!(plan.len(), 1);
    assert_eq!(plan[0].event_hash, own_hash);
    assert_eq!(plan[0].recipients, vec![AgentId(b)]);
    assert_eq!(plan[0].message.private_events.len(), 1);
    assert!(plan[0].message.acknowledgements.is_empty());
}

#[test]
fn duplicate_receipt_hands_back_the_held_acknowledgement() {
    let a = 1u64;
    let b = 2u64;
    let mut store_b = EventStore::new(AgentId(b));
    let entry = make_entry(a, 100, &TestEvent::Shared { recipient: b, body: vec![1] });
    let event_hash = fake_hash(&entry);

    // First receipt admits; B signs and holds its acknowledgement.
    let first = Message {
        private_events: vec![entry],
        events_sent_to_recipients: Vec::new(),
        acknowledgements: Vec::new(),
    };
    receive_message::<TestEvent>(&mut store_b, as_input(a, first));
    let plan = scheduled_tasks::<TestEvent>(&mut store_b, &Vec::new(), Timestamp(200));
    let ack = sign_ack(b, 200, plan.acknowledgements[0].content);
    store_b.record_acknowledgement(ack);

    // The author resends the same event: already have it, but the sender
    // still gets the acknowledgement again.
    let again = make_entry(a, 100, &TestEvent::Shared { recipient: b, body: vec![1] });
    let second = Message {
        private_events: vec![again],
        events_sent_to_recipients: Vec::new(),
        acknowledgements: Vec::new(),
    };
    let outcome = receive_message::<TestEvent>(&mut store_b, as_input(a, second));
    assert!(outcome.report.admitted.is_empty());
    assert_eq!(outcome.report.acknowledgements_to_send.len(), 1);
    let delivery = &outcome.report.acknowledgements_to_send[0];
    assert_eq!(delivery.recipient, AgentId(a));
    assert_eq!(delivery.acknowledgement.0.payload.content.private_event_hash, event_hash);
}

#[test]
fn acknowledgement_for_missing_event_is_parked_then_promoted() {
    let b = 2u64;
    let mut store = EventStore::new(AgentId(1));
    let entry = make_entry(1, 100, &TestEvent::Shared { recipient: b, body: vec![1] });
    let event_hash = fake_hash(&entry);
    let ack = sign_ack(b, 150, AcknowledgementContent { private_event_hash: event_hash });

    // The acknowledgement arrives before the event it acknowledges.
    let early = Message {
        private_events: Vec::new(),
        events_sent_to_recipients: Vec::new(),
        acknowledgements: vec![ack],
    };
    receive_message::<TestEvent>(&mut store, as_input(b, early));
    assert!(store.acknowledgements.is_empty());
    assert_eq!(store.awaiting_dependencies.len(), 1);

    // Once the event is admitted, the tick promotes the parked
    // acknowledgement into the primary store.
    let with_event = Message {
        private_events: vec![entry],
        events_sent_to_recipients: Vec::new(),
        acknowledgements: Vec::new(),
    };
    receive_message::<TestEvent>(&mut store, as_input(b, with_event));
    scheduled_tasks::<TestEvent>(&mut store, &Vec::new(), Timestamp(300));
    assert_eq!(store.acknowledgements.len(), 1);
    assert!(store.awaiting_dependencies.is_empty());
}

#[test]
fn record_for_missing_event_is_parked_then_promoted() {
    let a = 1u64;
    let mut store = EventStore::new(AgentId(9));
    let entry = make_entry(a, 100, &TestEvent::Shared { recipient: 2, body: vec![1] });
    let event_hash = fake_hash(&entry);
    let record = sign_record(a, 150, EventSentToRecipientsContent {
        event_hash,
        recipients: vec![AgentId(2)],
    });

    // The delivery-attempt record arrives before the event it references.
    let early = Message {
        private_events: Vec::new(),
        events_sent_to_recipients: vec![record],
        acknowledgements: Vec::new(),
    };
    let outcome = receive_message::<TestEvent>(&mut store, as_input(a, early));
    assert!(outcome.events_sent_result.is_ok());
    assert!(store.events_sent_to_recipients.is_empty());
    assert_eq!(store.awaiting_dependencies.len(), 1);

    // Once the event arrives, the tick promotes the parked record.
    let with_event = Message {
        private_events: vec![entry],
        events_sent_to_recipients: Vec::new(),
        acknowledgements: Vec::new(),
    };
    receive_message::<TestEvent>(&mut store, as_input(a, with_event));
    scheduled_tasks::<TestEvent>(&mut store, &Vec::new(), Timestamp(300));
    assert_eq!(store.events_sent_to_recipients.len(), 1);
    assert!(store.awaiting_dependencies.is_empty());
    assert_eq!(store.query_last_time_sent(&event_hash, &AgentId(2)), Some(Timestamp(150)));
}

#[test]
fn pending_parked_values_are_queryable() {
    let a = 1u64;
    let mut store = EventStore::new(AgentId(9));
    let entry = make_entry(a, 100, &TestEvent::Shared { recipient: 2, body: vec![1] });
    let event_hash = fake_hash(&entry);
    let ack = sign_ack(2, 150, AcknowledgementContent { private_event_hash: event_hash });
    let record = sign_record(a, 150, EventSentToRecipientsContent {
        event_hash,
        recipients: vec![AgentId(2)],
    });

    let early = Message {
        private_events: Vec::new(),
        events_sent_to_recipients: vec![record],
        acknowledgements: vec![ack],
    };
    receive_message::<TestEvent>(&mut store, as_input(a, early));

    let pending_acks = query_awaiting_deps_acknowledgements(&store);
    assert_eq!(pending_acks.len(), 1);
    assert_eq!(pending_acks[0].0.payload.content.private_event_hash, event_hash);
    let pending_records = query_awaiting_deps_events_sent_to_recipients(&store);
    assert_eq!(pending_records.len(), 1);
    assert_eq!(pending_records[0].0.payload.content.event_hash, event_hash);
}

#[test]
fn last_sent_per_recipient_listing() {
    let mut store = EventStore::new(AgentId(1));
    let event_hash = EventId(10);
    store.record_event_sent(sign_record(1, 100, EventSentToRecipientsContent {
        event_hash,
        recipients: vec![AgentId(2)],
    }));
    let listing = query_events_sent_to_recipients(
        &store,
        &event_hash,
        &vec![AgentId(2), AgentId(3)],
    );
    assert_eq!(listing, vec![(AgentId(2), Some(Timestamp(100))), (AgentId(3), None)]);
}

#[test]
fn duplicate_acknowledgements_are_not_reappended() {
    let a = 1u64;
    let b = 2u64;
    let mut store = EventStore::new(AgentId(a));
    let entry = make_entry(a, 100, &TestEvent::Shared { recipient: b, body: vec![1] });
    let event_hash = fake_hash(&entry);
    let ack = sign_ack(b, 150, AcknowledgementContent { private_event_hash: event_hash });

    let with_event = Message {
        private_events: vec![entry],
        events_sent_to_recipients: Vec::new(),
        acknowledgements: vec![ack, ack],
    };
    receive_message::<TestEvent>(&mut store, as_input(b, with_event));
    assert_eq!(store.acknowledgements.len(), 1);

    // The same signed value arrives again later: ignored, not re-appended.
    let again = Message {
        private_events: Vec::new(),
        events_sent_to_recipients: Vec::new(),
        acknowledgements: vec![ack],
    };
    let outcome = receive_message::<TestEvent>(&mut store, as_input(b, again));
    assert!(outcome.acknowledgements_result.is_ok());
    assert_eq!(store.acknowledgements.len(), 1);
}

#[test]
fn repeated_pass_commits_nothing_new() {
    let a = 1u64;
    let b = 2u64;
    let mut store = EventStore::new(AgentId(9));
    let entry = make_entry(a, 100, &TestEvent::Shared { recipient: b, body: vec![1] });
    let event_hash = fake_hash(&entry);
    let ack = sign_ack(b, 150, AcknowledgementContent { private_event_hash: event_hash });
    let record = sign_record(a, 150, EventSentToRecipientsContent {
        event_hash,
        recipients: vec![AgentId(b)],
    });

    // An acknowledgement and a record arrive before their event and park.
    let early = Message {
        private_events: Vec::new(),
        events_sent_to_recipients: vec![record],
        acknowledgements: vec![ack],
    };
    receive_message::<TestEvent>(&mut store, as_input(a, early));
    let with_event = Message {
        private_events: vec![entry],
        events_sent_to_recipients: Vec::new(),
        acknowledgements: Vec::new(),
    };
    receive_message::<TestEvent>(&mut store, as_input(a, with_event));

    let first = scheduled_tasks::<TestEvent>(&mut store, &Vec::new(), Timestamp(300));
    assert!(first.dropped.is_empty());
    assert_eq!(store.acknowledgements.len(), 1);
    assert_eq!(store.events_sent_to_recipients.len(), 1);
    assert!(store.awaiting_dependencies.is_empty());

    // A second pass right away promotes and admits nothing further.
    let events_before = store.events.len();
    let second = scheduled_tasks::<TestEvent>(&mut store, &Vec::new(), Timestamp(301));
    assert!(second.dropped.is_empty());
    assert_eq!(store.events.len(), events_before);
    assert_eq!(store.acknowledgements.len(), 1);
    assert_eq!(store.events_sent_to_recipients.len(), 1);
    assert!(store.awaiting_dependencies.is_empty());
}

#[test]
fn import_preserves_prior_state() {
    let a = 1u64;
    let b = 2u64;

    // The exporting cell holds one event and one acknowledgement.
    let mut exporter = EventStore::new(AgentId(a));
    let entry = make_entry(a, 100, &TestEvent::Shared { recipient: b, body: vec![1] });
    let event_hash = fake_hash(&entry);
    create_private_event::<TestEvent>(
        &mut exporter,
        &TestEvent::Shared { recipient: b, body: vec![1] },
        entry,
        event_hash,
    )
    .unwrap();
    exporter.record_acknowledgement(sign_ack(b, 150, AcknowledgementContent {
        private_event_hash: event_hash,
    }));
    let history = export_event_history(&exporter);

    // The importing cell already has state of its own, including a parked
    // acknowledgement.
    let mut importer = EventStore::new(AgentId(9));
    let own_entry = make_entry(9, 50, &TestEvent::Shared { recipient: b, body: vec![2] });
    let own_hash = fake_hash(&own_entry);
    create_private_event::<TestEvent>(
        &mut importer,
        &TestEvent::Shared { recipient: b, body: vec![2] },
        own_entry,
        own_hash,
    )
    .unwrap();
    let stray = sign_ack(b, 10, AcknowledgementContent { private_event_hash: EventId(777) });
    let orphan = Message {
        private_events: Vec::new(),
        events_sent_to_recipients: Vec::new(),
        acknowledgements: vec![stray],
    };
    receive_message::<TestEvent>(&mut importer, as_input(b, orphan));
    assert_eq!(importer.awaiting_dependencies.len(), 1);

    import_event_history(&mut importer, history);

    // Prior state is preserved, the bundle is merged.
    assert!(importer.contains_event(&own_hash));
    assert!(importer.contains_event(&event_hash));
    assert_eq!(importer.awaiting_dependencies.len(), 1);
    assert_eq!(importer.acknowledgements.len(), 1);
}

#[test]
fn last_time_sent_is_the_latest_claim() {
    let mut store = EventStore::new(AgentId(1));
    let event_hash = EventId(10);
    store.record_event_sent(sign_record(1, 100, EventSentToRecipientsContent {
        event_hash,
        recipients: vec![AgentId(2)],
    }));
    store.record_event_sent(sign_record(1, 300, EventSentToRecipientsContent {
        event_hash,
        recipients: vec![AgentId(2), AgentId(3)],
    }));
    store.record_event_sent(sign_record(1, 200, EventSentToRecipientsContent {
        event_hash,
        recipients: vec![AgentId(2)],
    }));

    assert_eq!(store.query_last_time_sent(&event_hash, &AgentId(2)), Some(Timestamp(300)));
    assert_eq!(store.query_last_time_sent(&event_hash, &AgentId(3)), Some(Timestamp(300)));
    assert_eq!(store.query_last_time_sent(&event_hash, &AgentId(4)), None);
    assert_eq!(store.query_last_time_sent(&EventId(11), &AgentId(2)), None);
}

#[test]
fn full_store_bundle_for_a_new_linked_device() {
    let a = 1u64;
    let mut store = EventStore::new(AgentId(a));
    let event = TestEvent::Shared { recipient: 2, body: vec![1] };
    let entry = make_entry(a, 100, &event);
    let event_hash = fake_hash(&entry);
    create_private_event::<TestEvent>(&mut store, &event, entry, event_hash).unwrap();
    store.record_event_sent(sign_record(a, 150, EventSentToRecipientsContent {
        event_hash,
        recipients: vec![AgentId(2)],
    }));
    store.record_acknowledgement(sign_ack(2, 160, AcknowledgementContent {
        private_event_hash: event_hash,
    }));

    let message = synchronize_with_linked_device(&store);
    assert_eq!(message.private_events.len(), 1);
    assert_eq!(message.events_sent_to_recipients.len(), 1);
    assert_eq!(message.acknowledgements.len(), 1);

    // A fresh linked device that receives the bundle converges.
    let mut device = EventStore::new(AgentId(9));
    receive_message::<TestEvent>(&mut device, as_input(a, message));
    assert!(device.contains_event(&event_hash));
    assert_eq!(device.events_sent_to_recipients.len(), 1);
    assert_eq!(device.acknowledgements.len(), 1);
}
