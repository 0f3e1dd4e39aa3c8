use nulang::delivery::MessageMetaCodecError;
use nulang::delivery_wire::{
    decode_actor_message_v2, encode_actor_message_v2, ActorMessageV2CodecError,
    ACTOR_MESSAGE_V2_META_PREFIX_LEN,
};
use nulang::message::{MessageId, MessageMeta};

fn meta() -> MessageMeta {
    MessageMeta {
        id: MessageId::new(9, 44),
        correlation_id: MessageId::new(9, 1),
        causation_id: Some(MessageId::new(9, 43)),
        attempt: 2,
        deadline_unix_ms: Some(123_456),
    }
}

#[test]
fn v2_prefix_round_trip_leaves_legacy_payload_unchanged() {
    let legacy = b"legacy-actor-message-payload\x00\x01\xff";
    let expected_meta = meta();
    let encoded = encode_actor_message_v2(&expected_meta, legacy);
    let (decoded_meta, decoded_legacy) = decode_actor_message_v2(&encoded).unwrap();
    assert_eq!(decoded_meta, expected_meta);
    assert_eq!(decoded_legacy, legacy);
}

#[test]
fn retry_metadata_round_trip_keeps_same_logical_id() {
    let original = meta();
    let retry = original.retry();
    let encoded = encode_actor_message_v2(&retry, b"payload");
    let (decoded, _) = decode_actor_message_v2(&encoded).unwrap();
    assert_eq!(decoded.id, original.id);
    assert_eq!(decoded.correlation_id, original.correlation_id);
    assert_eq!(decoded.attempt, original.attempt + 1);
}

#[test]
fn truncated_prefix_fails_closed() {
    let bytes = vec![0u8; ACTOR_MESSAGE_V2_META_PREFIX_LEN - 1];
    assert_eq!(
        decode_actor_message_v2(&bytes),
        Err(ActorMessageV2CodecError::TooShort {
            minimum: ACTOR_MESSAGE_V2_META_PREFIX_LEN,
            actual: ACTOR_MESSAGE_V2_META_PREFIX_LEN - 1,
        })
    );
}

#[test]
fn corrupt_metadata_is_not_treated_as_legacy_payload() {
    let mut encoded = encode_actor_message_v2(&meta(), b"payload");
    encoded[0] = b'X';
    assert!(matches!(
        decode_actor_message_v2(&encoded),
        Err(ActorMessageV2CodecError::Metadata(
            MessageMetaCodecError::BadMagic(_)
        ))
    ));
}
