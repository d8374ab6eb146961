//! The store's integrity rules: what writes the append-only log accepts.
//!
//! Every entry kind may be created; none may be updated; none may be deleted
//! but a parked awaiting-dependencies value, and that only by its own
//! author. Deleting an event, an acknowledgement or a delivery-attempt
//! record is an invalid operation by design: the log only grows.

use vstd::prelude::*;

use crate::encrypted_messages::{EncryptedMessage, LinkTarget};
use crate::event_history::EventHistory;
use crate::types::{
    Acknowledgement, AgentId, AwaitingDependencies, EventSentToRecipients, PrivateEventEntry,
    ValidationOutcome,
};

verus! {

/// The kinds of entry the store holds.
#[derive(Debug)]
pub enum EntryTypes {
    AwaitingDependencies(AwaitingDependencies),
    PrivateEvent(PrivateEventEntry),
    EventHistory(EventHistory),
    Acknowledgement(Acknowledgement),
    EventSentToRecipients(EventSentToRecipients),
}

/// A write against the append-only log, as the integrity rules judge it.
#[derive(Debug)]
pub enum StoreOp {
    CreateEntry { entry: EntryTypes },
    UpdateEntry { entry: EntryTypes },
    DeleteEntry { original: EntryTypes, author: AgentId, original_author: AgentId },
}

/// Creating a private event is always accepted here; its content is judged
/// at admission, not by the store.
pub fn validate_create_private_event(_event: &PrivateEventEntry) -> (outcome: ValidationOutcome)
    ensures
        outcome is Valid,
{
    ValidationOutcome::Valid
}

/// Private events are immutable: updating one is invalid.
pub fn validate_update_private_event(_event: &PrivateEventEntry) -> (outcome: ValidationOutcome)
    ensures
        outcome matches ValidationOutcome::Invalid(_),
{
    ValidationOutcome::Invalid("PrivateEvents cannot be updated".to_owned())
}

/// Private events are never deleted: delete is an invalid operation by
/// design.
pub fn validate_delete_private_event() -> (outcome: ValidationOutcome)
    ensures
        outcome matches ValidationOutcome::Invalid(_),
{
    ValidationOutcome::Invalid("PrivateEvents cannot be deleted".to_owned())
}

/// Parking a value is always accepted.
pub fn validate_create_awaiting_dependencies(_awaiting: &AwaitingDependencies) -> (outcome:
    ValidationOutcome)
    ensures
        outcome is Valid,
{
    ValidationOutcome::Valid
}

/// Parked values are immutable: updating one is invalid.
pub fn validate_update_awaiting_dependencies(_awaiting: &AwaitingDependencies) -> (outcome:
    ValidationOutcome)
    ensures
        outcome matches ValidationOutcome::Invalid(_),
{
    ValidationOutcome::Invalid("AwaitingDependencies cannot be updated".to_owned())
}

/// A parked value may be retired, but only by the agent that parked it.
pub fn validate_delete_awaiting_dependencies(author: AgentId, original_author: AgentId) -> (outcome:
    ValidationOutcome)
    ensures
        (outcome is Valid) <==> author == original_author,
        !(outcome is Valid) ==> outcome matches ValidationOutcome::Invalid(_),
{
    if author == original_author {
        ValidationOutcome::Valid
    } else {
        ValidationOutcome::Invalid(
            "AwaitingDependencies can only be deleted by their authors".to_owned(),
        )
    }
}

/// Holding an acknowledgement is always accepted.
pub fn validate_create_acknowledgement(_acknowledgement: &Acknowledgement) -> (outcome:
    ValidationOutcome)
    ensures
        outcome is Valid,
{
    ValidationOutcome::Valid
}

/// Acknowledgements are immutable: updating one is invalid.
pub fn validate_update_acknowledgement(_acknowledgement: &Acknowledgement) -> (outcome:
    ValidationOutcome)
    ensures
        outcome matches ValidationOutcome::Invalid(_),
{
    ValidationOutcome::Invalid("Acknowledgements cannot be updated".to_owned())
}

/// Acknowledgements are never deleted.
pub fn validate_delete_acknowledgement() -> (outcome: ValidationOutcome)
    ensures
        outcome matches ValidationOutcome::Invalid(_),
{
    ValidationOutcome::Invalid("Acknowledgements cannot be deleted".to_owned())
}

/// Holding a delivery-attempt record is always accepted.
pub fn validate_create_events_sent_to_recipients(_record: &EventSentToRecipients) -> (outcome:
    ValidationOutcome)
    ensures
        outcome is Valid,
{
    ValidationOutcome::Valid
}

/// Delivery-attempt records are immutable: updating one is invalid.
pub fn validate_update_events_sent_to_recipients(_record: &EventSentToRecipients) -> (outcome:
    ValidationOutcome)
    ensures
        outcome matches ValidationOutcome::Invalid(_),
{
    ValidationOutcome::Invalid("EventsSentToRecipients cannot be updated".to_owned())
}

/// Delivery-attempt records are never deleted.
pub fn validate_delete_events_sent_to_recipients() -> (outcome: ValidationOutcome)
    ensures
        outcome matches ValidationOutcome::Invalid(_),
{
    ValidationOutcome::Invalid("EventsSentToRecipients cannot be deleted".to_owned())
}

/// Importing a history bundle is always accepted: the bundle's origin is
/// trusted.
pub fn validate_create_event_history(_history: &EventHistory) -> (outcome: ValidationOutcome)
    ensures
        outcome is Valid,
{
    ValidationOutcome::Valid
}

/// History bundles are immutable: updating one is invalid.
pub fn validate_update_event_history() -> (outcome: ValidationOutcome)
    ensures
        outcome matches ValidationOutcome::Invalid(_),
{
    ValidationOutcome::Invalid("EventHistories cannot be updated.".to_owned())
}

/// History bundles are never deleted.
pub fn validate_delete_event_history() -> (outcome: ValidationOutcome)
    ensures
        outcome matches ValidationOutcome::Invalid(_),
{
    ValidationOutcome::Invalid("EventHistories cannot be deleted.".to_owned())
}

/// Publishing a history digest is always accepted.
pub fn validate_create_event_history_summary(
    _summary: &crate::event_history::EventHistorySummary,
) -> (outcome: ValidationOutcome)
    ensures
        outcome is Valid,
{
    ValidationOutcome::Valid
}

/// History digests are immutable: updating one is invalid.
pub fn validate_update_event_history_summary() -> (outcome: ValidationOutcome)
    ensures
        outcome matches ValidationOutcome::Invalid(_),
{
    ValidationOutcome::Invalid("EventHistorySummaries cannot be updated.".to_owned())
}

/// History digests are never deleted.
pub fn validate_delete_event_history_summary() -> (outcome: ValidationOutcome)
    ensures
        outcome matches ValidationOutcome::Invalid(_),
{
    ValidationOutcome::Invalid("EventHistorySummaries cannot be deleted.".to_owned())
}

/// Whether the deleted original was a parked awaiting-dependencies value.
pub open spec fn deletes_awaiting(original: EntryTypes) -> bool {
    original matches EntryTypes::AwaitingDependencies(_)
}

/// Judge one write against the append-only log: every create is accepted,
/// no update is, and the only delete accepted retires a parked value by the
/// agent that parked it.
pub fn validate_op(op: &StoreOp) -> (outcome: ValidationOutcome)
    ensures
        (*op matches StoreOp::CreateEntry { .. }) ==> outcome is Valid,
        (*op matches StoreOp::UpdateEntry { .. }) ==> outcome matches ValidationOutcome::Invalid(
            _,
        ),
        (*op matches StoreOp::DeleteEntry { original, author, original_author } ==> ((outcome
            is Valid) <==> (deletes_awaiting(original) && author == original_author))),
        !(outcome is Valid) ==> outcome matches ValidationOutcome::Invalid(_),
{
    match op {
        StoreOp::CreateEntry { entry } => match entry {
            EntryTypes::PrivateEvent(event) => validate_create_private_event(event),
            EntryTypes::AwaitingDependencies(awaiting) => validate_create_awaiting_dependencies(
                awaiting,
            ),
            EntryTypes::EventSentToRecipients(record) => validate_create_events_sent_to_recipients(
                record,
            ),
            EntryTypes::Acknowledgement(acknowledgement) => validate_create_acknowledgement(
                acknowledgement,
            ),
            EntryTypes::EventHistory(history) => validate_create_event_history(history),
        },
        StoreOp::UpdateEntry { entry } => match entry {
            EntryTypes::PrivateEvent(event) => validate_update_private_event(event),
            EntryTypes::AwaitingDependencies(awaiting) => validate_update_awaiting_dependencies(
                awaiting,
            ),
            EntryTypes::EventSentToRecipients(record) => validate_update_events_sent_to_recipients(
                record,
            ),
            EntryTypes::Acknowledgement(acknowledgement) => validate_update_acknowledgement(
                acknowledgement,
            ),
            EntryTypes::EventHistory(_) => validate_update_event_history(),
        },
        StoreOp::DeleteEntry { original, author, original_author } => match original {
            EntryTypes::PrivateEvent(_) => validate_delete_private_event(),
            EntryTypes::AwaitingDependencies(_) => validate_delete_awaiting_dependencies(
                *author,
                *original_author,
            ),
            EntryTypes::EventSentToRecipients(_) => validate_delete_events_sent_to_recipients(),
            EntryTypes::Acknowledgement(_) => validate_delete_acknowledgement(),
            EntryTypes::EventHistory(_) => validate_delete_event_history(),
        },
    }
}

/// Storing an encrypted message is always accepted.
pub fn validate_create_encrypted_message(_message: &EncryptedMessage) -> (outcome:
    ValidationOutcome)
    ensures
        outcome is Valid,
{
    ValidationOutcome::Valid
}

/// Encrypted messages are immutable: updating one is invalid.
pub fn validate_update_encrypted_message(_message: &EncryptedMessage) -> (outcome:
    ValidationOutcome)
    ensures
        outcome matches ValidationOutcome::Invalid(_),
{
    ValidationOutcome::Invalid("EncryptedMessages cannot be updated".to_owned())
}

/// Encrypted messages are never deleted; their pointers are retired instead.
pub fn validate_delete_encrypted_message() -> (outcome: ValidationOutcome)
    ensures
        outcome matches ValidationOutcome::Invalid(_),
{
    ValidationOutcome::Invalid("EncryptedMessages cannot be deleted".to_owned())
}

/// An encrypted-message pointer must sit in an agent's inbox and point at
/// that same agent — the inline marker — or at a stored encrypted message.
pub fn validate_create_link_agent_encrypted_message(base: AgentId, target: &LinkTarget) -> (outcome:
    ValidationOutcome)
    ensures
        (outcome is Valid) <==> (target == LinkTarget::Agent(base) || target matches
            LinkTarget::Entry(_)),
{
    match target {
        LinkTarget::Agent(agent) => {
            if *agent == base {
                ValidationOutcome::Valid
            } else {
                ValidationOutcome::Invalid(
                    "Target for an agent encrypted link must equal the base.".to_owned(),
                )
            }
        },
        LinkTarget::Entry(_) => ValidationOutcome::Valid,
    }
}

/// Only the recipient whose inbox a pointer sits in may retire it.
pub fn validate_delete_link_agent_encrypted_message(base: AgentId, author: AgentId) -> (outcome:
    ValidationOutcome)
    ensures
        (outcome is Valid) <==> base == author,
{
    if base == author {
        ValidationOutcome::Valid
    } else {
        ValidationOutcome::Invalid(
            "Encrypted messages can only be deleted by their recipients".to_owned(),
        )
    }
}

} // verus!
