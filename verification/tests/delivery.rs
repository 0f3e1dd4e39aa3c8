use nulang::delivery::{
    decode_message_meta, encode_message_meta, DeadLetterPush, DeadLetterQueue, DeadLetterReason,
    DeliveryEnvelope, DeliveryPriority, DeliveryTarget, MessageMetaCodecError,
    MESSAGE_META_MAGIC, MESSAGE_META_WIRE_LEN, MESSAGE_META_WIRE_VERSION,
};
use nulang::message::{MessageId, MessageMeta};

fn meta() -> MessageMeta {
    MessageMeta {
        id: MessageId::new(7, 11),
        correlation_id: MessageId::new(7, 1),
        causation_id: Some(MessageId::new(7, 10)),
        attempt: 3,
        deadline_unix_ms: Some(55_000),
    }
}

fn envelope(sequence: u64) -> DeliveryEnvelope<Vec<u8>> {
    DeliveryEnvelope {
        meta: MessageMeta::root(MessageId::new(9, sequence)),
        sender_actor: 5,
        target: DeliveryTarget::RemoteActor {
            node_id: 2,
            actor_id: 99,
        },
        behavior: "Order.submit".into(),
        priority: DeliveryPriority::Normal,
        trace_context: Some("00-trace-parent-01".into()),
        payload: vec![1, 2, 3],
    }
}

#[test]
fn metadata_wire_round_trip_preserves_identity_and_causality() {
    let expected = meta();
    let encoded = encode_message_meta(&expected);
    assert_eq!(encoded.len(), MESSAGE_META_WIRE_LEN);
    assert_eq!(decode_message_meta(&encoded).unwrap(), expected);
}

#[test]
fn metadata_codec_supports_absent_optional_fields() {
    let expected = MessageMeta::root(MessageId::new(1, 2));
    let encoded = encode_message_meta(&expected);
    assert_eq!(decode_message_meta(&encoded).unwrap(), expected);
}

#[test]
fn metadata_codec_fails_closed_on_future_version_and_unknown_flags() {
    let mut encoded = encode_message_meta(&meta());
    encoded[4] = MESSAGE_META_WIRE_VERSION + 1;
    assert_eq!(
        decode_message_meta(&encoded),
        Err(MessageMetaCodecError::UnsupportedVersion(2))
    );

    let mut encoded = encode_message_meta(&meta());
    encoded[5] |= 0x80;
    assert_eq!(
        decode_message_meta(&encoded),
        Err(MessageMetaCodecError::UnknownFlags(encoded[5]))
    );
}

#[test]
fn metadata_codec_rejects_truncated_frame() {
    let encoded = encode_message_meta(&meta());
    assert_eq!(
        decode_message_meta(&encoded[..MESSAGE_META_WIRE_LEN - 1]),
        Err(MessageMetaCodecError::WrongLength {
            expected: MESSAGE_META_WIRE_LEN,
            actual: MESSAGE_META_WIRE_LEN - 1,
        })
    );
}

#[test]
fn retry_keeps_logical_identity_and_increments_attempt() {
    let original = envelope(1);
    let retry = original.retry();
    assert_eq!(retry.meta.id, original.meta.id);
    assert_eq!(retry.meta.correlation_id, original.meta.correlation_id);
    assert_eq!(retry.meta.attempt, original.meta.attempt + 1);
    assert_eq!(retry.target, original.target);
    assert_eq!(retry.payload, original.payload);
}

#[test]
fn deadline_boundary_is_expired() {
    let mut delivery = envelope(1);
    delivery.meta.deadline_unix_ms = Some(100);
    assert!(!delivery.is_expired_at(99));
    assert!(delivery.is_expired_at(100));
    assert!(delivery.is_expired_at(101));
}

#[test]
fn structured_dead_letter_keeps_original_message_identity() {
    let delivery = envelope(44);
    let id = delivery.meta.id;
    let letter = delivery.into_dead_letter(DeadLetterReason::MailboxFull, 123);
    assert_eq!(letter.meta.id, id);
    assert_eq!(letter.reason, DeadLetterReason::MailboxFull);
    assert_eq!(letter.failed_at_unix_ms, 123);
}

#[test]
fn dead_letter_queue_is_bounded_fifo() {
    let mut queue = DeadLetterQueue::new(2);
    let a = envelope(1).into_dead_letter(DeadLetterReason::Unresolvable, 1);
    let b = envelope(2).into_dead_letter(DeadLetterReason::NodeUnavailable, 2);
    let c = envelope(3).into_dead_letter(DeadLetterReason::MailboxFull, 3);

    assert_eq!(
        queue.push(a.clone()),
        DeadLetterPush::Recorded { evicted: None }
    );
    assert_eq!(
        queue.push(b.clone()),
        DeadLetterPush::Recorded { evicted: None }
    );
    assert_eq!(
        queue.push(c.clone()),
        DeadLetterPush::Recorded {
            evicted: Some(a.clone())
        }
    );
    assert_eq!(queue.iter().into_iter().cloned().collect::<Vec<_>>(), vec![b, c]);
}

#[test]
fn zero_capacity_disables_dead_letter_retention() {
    let mut queue = DeadLetterQueue::new(0);
    let letter = envelope(1).into_dead_letter(DeadLetterReason::Unresolvable, 1);
    assert_eq!(queue.push(letter), DeadLetterPush::TrackingDisabled);
    assert!(queue.is_empty());
}

#[test]
fn metadata_frame_has_the_documented_bytes() {
    let encoded = encode_message_meta(&MessageMeta::root(MessageId::new(1, 2)));
    assert_eq!(&encoded[..4], &MESSAGE_META_MAGIC);
    assert_eq!(encoded[4], MESSAGE_META_WIRE_VERSION);
    assert_eq!(encoded[5], 0);
    assert_eq!(&encoded[6..14], &1u64.to_be_bytes());
    assert_eq!(&encoded[14..22], &2u64.to_be_bytes());
}

#[test]
fn message_ids_round_trip_through_bytes() {
    let id = MessageId::new(0x0102, 0xfffe);
    assert_eq!(MessageId::from_bytes(id.to_bytes()), id);
}

#[test]
fn bad_magic_is_reported_with_the_bytes_found() {
    let mut encoded = encode_message_meta(&meta());
    encoded[0] = b'Z';
    assert_eq!(
        decode_message_meta(&encoded),
        Err(MessageMetaCodecError::BadMagic([
            b'Z',
            MESSAGE_META_MAGIC[1],
            MESSAGE_META_MAGIC[2],
            MESSAGE_META_MAGIC[3],
        ]))
    );
}

#[test]
fn retries_saturate_at_the_largest_attempt() {
    let mut last = meta();
    last.attempt = u32::MAX;
    assert_eq!(last.retry().attempt, u32::MAX);
}

#[test]
fn drained_queue_hands_letters_over_in_order() {
    let mut queue = DeadLetterQueue::new(3);
    assert_eq!(queue.capacity(), 3);
    let a = envelope(1).into_dead_letter(DeadLetterReason::Unresolvable, 1);
    let b = envelope(2).into_dead_letter(DeadLetterReason::DeadlineExpired, 2);
    queue.push(a.clone());
    queue.push(b.clone());
    assert_eq!(queue.len(), 2);
    assert_eq!(queue.drain(), vec![a, b]);
    assert!(queue.is_empty());
}

#[test]
fn targets_name_their_actor() {
    assert_eq!(DeliveryTarget::LocalActor { actor_id: 3 }.actor_id(), 3);
    let remote = DeliveryTarget::RemoteActor { node_id: 1, actor_id: 4 };
    assert_eq!(remote.actor_id(), 4);
}
