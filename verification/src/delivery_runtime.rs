//! Adapters between the versioned logical delivery model and the runtime's
//! mailbox and address types.
//!
//! The mailbox message does not store `MessageMeta`: converting an envelope
//! into a mailbox message returns the metadata as a separate value.

use crate::delivery::{DeliveryEnvelope, DeliveryPriority, DeliveryTarget};
use crate::message::MessageMeta;
use crate::text::{self, clone_opt, text};
use crate::value_layout::{self, tag_int};
use std::sync::Arc;
use vstd::prelude::*;

verus! {

/// Identity of a node.
#[derive(Debug, Clone, Copy, PartialEq, Eq, Structural)]
pub struct NodeId(pub u64);

/// Where an actor lives.
#[derive(Debug, Clone, Copy, PartialEq, Eq, Structural)]
pub enum ActorAddress {
    Local { actor_id: u64 },
    Remote { node_id: NodeId, actor_id: u64 },
}

impl ActorAddress {
    pub fn remote(node_id: NodeId, actor_id: u64) -> (r: Self)
        ensures
            r == (ActorAddress::Remote { node_id, actor_id }),
    {
        ActorAddress::Remote { node_id, actor_id }
    }
}

/// Mailbox priority.
#[derive(Debug, Clone, Copy, PartialEq, Eq, Structural)]
pub enum MessagePriority {
    System,
    Normal,
    Bulk,
}

/// A tagged runtime value.
#[derive(Debug, Clone, Copy, PartialEq, Eq, Structural)]
pub struct Value {
    pub raw: u64,
}

impl Value {
    pub fn from_int(n: i64) -> (r: Self)
        ensures
            r.raw == value_layout::int_value(n as int),
    {
        Value { raw: tag_int(n) }
    }
}

/// A mailbox message.
#[derive(Debug, Clone, PartialEq, Eq)]
pub struct Message {
    pub behavior_id: u16,
    pub payload: Arc<Vec<Value>>,
    pub sender: u64,
    pub priority: MessagePriority,
    pub trace_id: Option<String>,
}

/// Envelope shape matching the payload representation of mailboxes.
pub type MailboxDelivery = DeliveryEnvelope<Arc<Vec<Value>>>;

/// `Arc::clone`: another handle to the same payload.
#[verifier::external_body]
fn share(payload: &Arc<Vec<Value>>) -> (r: Arc<Vec<Value>>)
    ensures
        r == *payload,
{
    Arc::clone(payload)
}

/// The logical priority of a mailbox priority.
pub open spec fn logical_priority(p: MessagePriority) -> DeliveryPriority {
    match p {
        MessagePriority::System => DeliveryPriority::System,
        MessagePriority::Normal => DeliveryPriority::Normal,
        MessagePriority::Bulk => DeliveryPriority::Bulk,
    }
}

/// The mailbox priority of a logical priority.
pub open spec fn mailbox_priority(p: DeliveryPriority) -> MessagePriority {
    match p {
        DeliveryPriority::System => MessagePriority::System,
        DeliveryPriority::Normal => MessagePriority::Normal,
        DeliveryPriority::Bulk => MessagePriority::Bulk,
    }
}

impl From<MessagePriority> for DeliveryPriority {
    fn from(value: MessagePriority) -> (r: Self) {
        match value {
            MessagePriority::System => DeliveryPriority::System,
            MessagePriority::Normal => DeliveryPriority::Normal,
            MessagePriority::Bulk => DeliveryPriority::Bulk,
        }
    }
}

impl vstd::std_specs::convert::FromSpecImpl<MessagePriority> for DeliveryPriority {
    open spec fn obeys_from_spec() -> bool {
        true
    }

    open spec fn from_spec(value: MessagePriority) -> Self {
        logical_priority(value)
    }
}

impl From<DeliveryPriority> for MessagePriority {
    fn from(value: DeliveryPriority) -> (r: Self) {
        match value {
            DeliveryPriority::System => MessagePriority::System,
            DeliveryPriority::Normal => MessagePriority::Normal,
            DeliveryPriority::Bulk => MessagePriority::Bulk,
        }
    }
}

impl vstd::std_specs::convert::FromSpecImpl<DeliveryPriority> for MessagePriority {
    open spec fn obeys_from_spec() -> bool {
        true
    }

    open spec fn from_spec(value: DeliveryPriority) -> Self {
        mailbox_priority(value)
    }
}

/// The delivery target of an address.
pub open spec fn address_target(a: ActorAddress) -> DeliveryTarget {
    match a {
        ActorAddress::Local { actor_id } => DeliveryTarget::LocalActor { actor_id },
        ActorAddress::Remote { node_id, actor_id } => DeliveryTarget::RemoteActor {
            node_id: node_id.0,
            actor_id,
        },
    }
}

impl From<ActorAddress> for DeliveryTarget {
    fn from(value: ActorAddress) -> (r: Self) {
        match value {
            ActorAddress::Local { actor_id } => DeliveryTarget::LocalActor { actor_id },
            ActorAddress::Remote { node_id, actor_id } => DeliveryTarget::RemoteActor {
                node_id: node_id.0,
                actor_id,
            },
        }
    }
}

impl vstd::std_specs::convert::FromSpecImpl<ActorAddress> for DeliveryTarget {
    open spec fn obeys_from_spec() -> bool {
        true
    }

    open spec fn from_spec(value: ActorAddress) -> Self {
        address_target(value)
    }
}

/// Project a mailbox message into the logical envelope.
pub fn envelope_from_message(
    meta: MessageMeta,
    target: DeliveryTarget,
    behavior: &str,
    message: &Message,
) -> (r: MailboxDelivery)
    ensures
        r.meta == meta,
        r.sender_actor == message.sender,
        r.target == target,
        r.behavior@ == behavior@,
        r.priority == logical_priority(message.priority),
        text::opt_view(r.trace_context) == text::opt_view(message.trace_id),
        r.payload == message.payload,
{
    DeliveryEnvelope {
        meta,
        sender_actor: message.sender,
        target,
        behavior: text(behavior),
        priority: DeliveryPriority::from(message.priority),
        trace_context: clone_opt(&message.trace_id),
        payload: share(&message.payload),
    }
}

/// Adapt a logical envelope to the mailbox representation. Metadata is
/// returned alongside the message instead of being dropped.
pub fn message_from_envelope(envelope: MailboxDelivery, behavior_id: u16) -> (r: (
    MessageMeta,
    Message,
))
    ensures
        r.0 == envelope.meta,
        r.1 == (Message {
            behavior_id,
            payload: envelope.payload,
            sender: envelope.sender_actor,
            priority: mailbox_priority(envelope.priority),
            trace_id: envelope.trace_context,
        }),
{
    (
        envelope.meta,
        Message {
            behavior_id,
            payload: envelope.payload,
            sender: envelope.sender_actor,
            priority: MessagePriority::from(envelope.priority),
            trace_id: envelope.trace_context,
        },
    )
}

/// Priorities survive the way to the logical model and back.
pub proof fn priorities_round_trip(m: MessagePriority, d: DeliveryPriority)
    ensures
        mailbox_priority(logical_priority(m)) == m,
        logical_priority(mailbox_priority(d)) == d,
{
}

/// Priorities keep their meaning in both directions.
pub proof fn priorities_keep_their_meaning(m: MessagePriority, d: DeliveryPriority)
    ensures
        logical_priority(m) is System <==> m is System,
        logical_priority(m) is Bulk <==> m is Bulk,
        mailbox_priority(d) is System <==> d is System,
        mailbox_priority(d) is Bulk <==> d is Bulk,
{
}

/// A delivery goes to the addressed actor, on the addressed node where there is
/// one.
pub proof fn addresses_keep_their_actor(a: ActorAddress)
    ensures
        match a {
            ActorAddress::Local { actor_id } => address_target(a) is LocalActor && address_target(
                a,
            ).actor() == actor_id,
            ActorAddress::Remote { node_id, actor_id } => address_target(
                a,
            ) matches DeliveryTarget::RemoteActor { node_id: n, actor_id: t } && n == node_id.0
                && t == actor_id,
        },
{
}

} // verus!
