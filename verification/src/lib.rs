//! A private event sourcing and reliable-delivery engine.
//!
//! An agent records events into its own append-only store, computes the
//! recipients of each event, and delivers the events to those recipients and
//! to the agent's own linked devices. Delivery is at-least-once: every event
//! is resent on a schedule until the recipient acknowledges it, and receipt
//! is idempotent under loss, duplication and reordering.
//!
//! The engine is pure: it owns the bookkeeping and the decisions. The outside
//! collaborators — the durable store, the signer and hasher, the transport,
//! the linked-devices directory and the clock — act through the caller, which
//! hands the engine their results as plain values and carries out the plans
//! the engine returns.

pub mod acknowledgements;
pub mod awaiting_dependencies;
pub mod encrypted_messages;
pub mod event_history;
pub mod events_sent;
pub mod integrity;
pub mod laws;
pub mod linked_devices;
pub mod messages;
pub mod private_event;
pub mod send_events;
pub mod store;
pub mod synchronize;
pub mod types;
