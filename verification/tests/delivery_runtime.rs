use nulang::delivery::{DeliveryPriority, DeliveryTarget};
use nulang::delivery_runtime::{
    envelope_from_message, message_from_envelope, ActorAddress, Message, MessagePriority, NodeId,
    Value,
};
use nulang::message::{MessageId, MessageMeta};
use std::sync::Arc;

fn runtime_message() -> Message {
    Message {
        behavior_id: 4,
        payload: Arc::new(vec![Value::from_int(42)]),
        sender: 11,
        priority: MessagePriority::Bulk,
        trace_id: Some("00-abc-def-01".into()),
    }
}

#[test]
fn runtime_message_round_trip_keeps_metadata_out_of_band() {
    let meta = MessageMeta::root(MessageId::new(3, 9));
    let original = runtime_message();
    let envelope = envelope_from_message(
        meta.clone(),
        DeliveryTarget::LocalActor { actor_id: 99 },
        "Counter.add",
        &original,
    );

    assert_eq!(envelope.meta, meta);
    assert_eq!(envelope.sender_actor, original.sender);
    assert_eq!(envelope.priority, DeliveryPriority::Bulk);
    assert_eq!(envelope.trace_context, original.trace_id);
    assert_eq!(*envelope.payload, *original.payload);

    let (returned_meta, returned) = message_from_envelope(envelope, 4);
    assert_eq!(returned_meta, meta);
    assert_eq!(returned, original);
}

#[test]
fn address_conversion_preserves_remote_location() {
    let target: DeliveryTarget = ActorAddress::remote(NodeId(7), 42).into();
    assert_eq!(
        target,
        DeliveryTarget::RemoteActor {
            node_id: 7,
            actor_id: 42,
        }
    );
}

#[test]
fn priorities_round_trip_without_reordering_semantics() {
    for runtime_priority in [
        MessagePriority::System,
        MessagePriority::Normal,
        MessagePriority::Bulk,
    ] {
        let logical: DeliveryPriority = runtime_priority.into();
        let restored: MessagePriority = logical.into();
        assert_eq!(restored, runtime_priority);
    }
}
