//! The data model: signed envelopes and the records the engine keeps.
//!
//! Keys, hashes, signatures and clock readings are produced by outside
//! collaborators (the host's key store, hasher, signer and clock). The engine
//! never computes them; it carries them as opaque plain values and decides
//! from them. Accordingly each is modelled as a newtype over an integer.

use vstd::prelude::*;

verus! {

/// An agent's public key, as an opaque identifier handed out by the host's
/// key store.
#[derive(Clone, Copy, Debug, PartialEq, Eq, Structural)]
pub struct AgentId(pub u64);

/// The content hash of an entry's canonical encoding, as computed by the
/// host's hasher. Identity of an event: two envelopes are the same event
/// exactly when their canonical encodings hash alike.
#[derive(Clone, Copy, Debug, PartialEq, Eq, Structural)]
pub struct EventId(pub u64);

/// A detached signature produced by the host's signer. Opaque: only the
/// host can verify it.
#[derive(Clone, Copy, Debug, PartialEq, Eq, Structural)]
pub struct Signature(pub u64);

/// A host clock reading, in milliseconds.
#[derive(Clone, Copy, Debug, PartialEq, Eq, Structural)]
pub struct Timestamp(pub u64);

/// What an agent signs: a clock reading plus the content itself.
#[derive(Clone, Copy, Debug)]
pub struct SignedContent<T> {
    pub timestamp: Timestamp,
    pub content: T,
}

/// A signed envelope: the author, the author's detached signature over the
/// canonical encoding of the payload, and the payload.
#[derive(Clone, Copy, Debug)]
pub struct SignedEntry<T> {
    pub author: AgentId,
    pub signature: Signature,
    pub payload: SignedContent<T>,
}

/// An application event as the envelope carries it: the application's type
/// tag and the event itself, encoded or decoded.
#[derive(Debug)]
pub struct PrivateEventContent<T> {
    pub event_type: String,
    pub event: T,
}

/// A signed envelope around a decoded application event.
pub type SignedEvent<T> = SignedEntry<PrivateEventContent<T>>;

/// A private event as stored: a signed envelope around an encoded event.
/// Immutable once created; never deleted.
#[derive(Debug)]
pub struct PrivateEventEntry(pub SignedEntry<PrivateEventContent<Vec<u8>>>);

/// The mathematical value of a stored private event.
pub struct PrivateEventEntryV {
    pub author: AgentId,
    pub signature: Signature,
    pub timestamp: Timestamp,
    pub event_type: Seq<char>,
    pub event: Seq<u8>,
}

impl View for PrivateEventEntry {
    type V = PrivateEventEntryV;

    open spec fn view(&self) -> PrivateEventEntryV {
        PrivateEventEntryV {
            author: self.0.author,
            signature: self.0.signature,
            timestamp: self.0.payload.timestamp,
            event_type: self.0.payload.content.event_type@,
            event: self.0.payload.content.event@,
        }
    }
}

impl Clone for PrivateEventEntry {
    fn clone(&self) -> (r: Self)
        ensures
            r@ == self@,
    {
        PrivateEventEntry(
            SignedEntry {
                author: self.0.author,
                signature: self.0.signature,
                payload: SignedContent {
                    timestamp: self.0.payload.timestamp,
                    content: PrivateEventContent {
                        event_type: self.0.payload.content.event_type.clone(),
                        event: clone_bytes(&self.0.payload.content.event),
                    },
                },
            },
        )
    }
}

impl PrivateEventEntry {
    /// The event's author.
    pub open spec fn author(self) -> AgentId {
        self.0.author
    }

    /// The author's clock reading when the event was signed.
    pub open spec fn timestamp(self) -> Timestamp {
        self.0.payload.timestamp
    }

    /// The application's type tag on the event.
    pub open spec fn event_type(self) -> Seq<char> {
        self.0.payload.content.event_type@
    }
}

/// The claim "I attempted delivery of this event to these recipients at the
/// enclosing envelope's timestamp", signed by the sender.
#[derive(Debug)]
pub struct EventSentToRecipientsContent {
    pub event_hash: EventId,
    pub recipients: Vec<AgentId>,
}

/// A signed delivery-attempt record. Drives resend throttling: the latest
/// record for an (event, recipient) pair gives the last time it was sent.
#[derive(Debug)]
pub struct EventSentToRecipients(pub SignedEntry<EventSentToRecipientsContent>);

/// The mathematical value of a delivery-attempt record.
pub struct EventSentToRecipientsV {
    pub author: AgentId,
    pub signature: Signature,
    pub timestamp: Timestamp,
    pub event_hash: EventId,
    pub recipients: Seq<AgentId>,
}

impl View for EventSentToRecipients {
    type V = EventSentToRecipientsV;

    open spec fn view(&self) -> EventSentToRecipientsV {
        EventSentToRecipientsV {
            author: self.0.author,
            signature: self.0.signature,
            timestamp: self.0.payload.timestamp,
            event_hash: self.0.payload.content.event_hash,
            recipients: self.0.payload.content.recipients@,
        }
    }
}

impl Clone for EventSentToRecipients {
    fn clone(&self) -> (r: Self)
        ensures
            r@ == self@,
    {
        EventSentToRecipients(
            SignedEntry {
                author: self.0.author,
                signature: self.0.signature,
                payload: SignedContent {
                    timestamp: self.0.payload.timestamp,
                    content: EventSentToRecipientsContent {
                        event_hash: self.0.payload.content.event_hash,
                        recipients: clone_agents(&self.0.payload.content.recipients),
                    },
                },
            },
        )
    }
}

impl EventSentToRecipients {
    /// The event whose delivery this record claims.
    pub open spec fn event_hash(self) -> EventId {
        self.0.payload.content.event_hash
    }

    /// When the delivery was attempted.
    pub open spec fn timestamp(self) -> Timestamp {
        self.0.payload.timestamp
    }

    /// Who the delivery was attempted to.
    pub open spec fn recipients(self) -> Seq<AgentId> {
        self.0.payload.content.recipients@
    }
}

/// The claim "I hold the event with this hash", signed by the acknowledging
/// agent (not the event's author).
#[derive(Clone, Copy, Debug)]
pub struct AcknowledgementContent {
    pub private_event_hash: EventId,
}

/// A signed acknowledgement. Once the author of an event holds one from a
/// recipient, it never resends the event to that recipient.
#[derive(Clone, Copy, Debug)]
pub struct Acknowledgement(pub SignedEntry<AcknowledgementContent>);

impl Acknowledgement {
    /// The acknowledging agent.
    pub open spec fn acker(self) -> AgentId {
        self.0.author
    }

    /// The event being acknowledged.
    pub open spec fn event_hash(self) -> EventId {
        self.0.payload.content.private_event_hash
    }
}

/// The verdict on an entry: admit it, reject it for the given reason, or
/// park it until the listed events are locally present.
#[derive(Debug)]
pub enum ValidationOutcome {
    Valid,
    Invalid(String),
    UnresolvedDependencies(Vec<EventId>),
}

/// Anything received that referenced an event not yet locally present. Every
/// parked value is retried once its referenced event arrives.
#[derive(Debug)]
pub enum AwaitingDependencies {
    Event { event_hash: EventId, event: PrivateEventEntry, unresolved_dependencies: Vec<EventId> },
    Acknowledgement { acknowledgement: Acknowledgement },
    EventsSentToRecipients { event_sent_to_recipients: EventSentToRecipients },
}

/// The mathematical value of a parked value.
pub enum AwaitingDependenciesV {
    Event { event_hash: EventId, event: PrivateEventEntryV, unresolved_dependencies: Seq<EventId> },
    Acknowledgement { acknowledgement: Acknowledgement },
    EventsSentToRecipients { event_sent_to_recipients: EventSentToRecipientsV },
}

impl View for AwaitingDependencies {
    type V = AwaitingDependenciesV;

    open spec fn view(&self) -> AwaitingDependenciesV {
        match self {
            AwaitingDependencies::Event { event_hash, event, unresolved_dependencies } => {
                AwaitingDependenciesV::Event {
                    event_hash: *event_hash,
                    event: event@,
                    unresolved_dependencies: unresolved_dependencies@,
                }
            },
            AwaitingDependencies::Acknowledgement { acknowledgement } => {
                AwaitingDependenciesV::Acknowledgement { acknowledgement: *acknowledgement }
            },
            AwaitingDependencies::EventsSentToRecipients { event_sent_to_recipients } => {
                AwaitingDependenciesV::EventsSentToRecipients {
                    event_sent_to_recipients: event_sent_to_recipients@,
                }
            },
        }
    }
}

impl Clone for AwaitingDependencies {
    fn clone(&self) -> (r: Self)
        ensures
            r@ == self@,
    {
        match self {
            AwaitingDependencies::Event { event_hash, event, unresolved_dependencies } => {
                AwaitingDependencies::Event {
                    event_hash: *event_hash,
                    event: event.clone(),
                    unresolved_dependencies: clone_event_ids(unresolved_dependencies),
                }
            },
            AwaitingDependencies::Acknowledgement { acknowledgement } => {
                AwaitingDependencies::Acknowledgement { acknowledgement: *acknowledgement }
            },
            AwaitingDependencies::EventsSentToRecipients { event_sent_to_recipients } => {
                AwaitingDependencies::EventsSentToRecipients {
                    event_sent_to_recipients: event_sent_to_recipients.clone(),
                }
            },
        }
    }
}

/// The bundle one agent sends another: events, the delivery-attempt records
/// that reference them, and the acknowledgements it already holds for them.
#[derive(Debug)]
pub struct Message {
    pub private_events: Vec<PrivateEventEntry>,
    pub events_sent_to_recipients: Vec<EventSentToRecipients>,
    pub acknowledgements: Vec<Acknowledgement>,
}

/// The mathematical value of a message bundle.
pub struct MessageV {
    pub private_events: Seq<PrivateEventEntryV>,
    pub events_sent_to_recipients: Seq<EventSentToRecipientsV>,
    pub acknowledgements: Seq<Acknowledgement>,
}

impl View for Message {
    type V = MessageV;

    open spec fn view(&self) -> MessageV {
        MessageV {
            private_events: self.private_events@.map_values(|e: PrivateEventEntry| e@),
            events_sent_to_recipients: self.events_sent_to_recipients@.map_values(
                |r: EventSentToRecipients| r@,
            ),
            acknowledgements: self.acknowledgements@,
        }
    }
}

/// How a received entry failed, per the propagation policy: failures on
/// received entries are surfaced, never silently absorbed.
#[derive(Debug)]
pub enum EngineError {
    /// The signature does not verify against the claimed author.
    SignatureInvalid,
    /// The content does not decode as the application's event type, or its
    /// decoded type tag differs from the envelope's declared tag.
    MalformedEnvelope(String),
    /// The application's own validation rejected the event.
    ApplicationRejected(String),
    /// A locally authored event may not await dependencies; only received
    /// entries are parked.
    UnresolvedDependency,
}

/// Copy a byte vector. Ghostwise the copy is the same sequence.
pub fn clone_bytes(v: &Vec<u8>) -> (r: Vec<u8>)
    ensures
        r@ == v@,
{
    let mut r: Vec<u8> = Vec::new();
    let n: usize = v.len();
    for i in 0..n
        invariant
            n == v@.len(),
            r@ == v@.subrange(0, i as int),
    {
        r.push(v[i]);
        proof {
            assert(v@.subrange(0, i + 1 as int) =~= v@.subrange(0, i as int).push(v@[i as int]));
        }
    }
    proof {
        assert(v@.subrange(0, n as int) =~= v@);
    }
    r
}

/// Copy a list of agents. Ghostwise the copy is the same sequence.
pub fn clone_agents(v: &Vec<AgentId>) -> (r: Vec<AgentId>)
    ensures
        r@ == v@,
{
    let mut r: Vec<AgentId> = Vec::new();
    let n: usize = v.len();
    for i in 0..n
        invariant
            n == v@.len(),
            r@ == v@.subrange(0, i as int),
    {
        r.push(v[i]);
        proof {
            assert(v@.subrange(0, i + 1 as int) =~= v@.subrange(0, i as int).push(v@[i as int]));
        }
    }
    proof {
        assert(v@.subrange(0, n as int) =~= v@);
    }
    r
}

/// Copy a list of event hashes. Ghostwise the copy is the same sequence.
pub fn clone_event_ids(v: &Vec<EventId>) -> (r: Vec<EventId>)
    ensures
        r@ == v@,
{
    let mut r: Vec<EventId> = Vec::new();
    let n: usize = v.len();
    for i in 0..n
        invariant
            n == v@.len(),
            r@ == v@.subrange(0, i as int),
    {
        r.push(v[i]);
        proof {
            assert(v@.subrange(0, i + 1 as int) =~= v@.subrange(0, i as int).push(v@[i as int]));
        }
    }
    proof {
        assert(v@.subrange(0, n as int) =~= v@);
    }
    r
}

} // verus!
