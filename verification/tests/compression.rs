use nulang::compression::{
    decode_blob, decode_blob_or_raw, encode_blob, encode_blob_with_threshold, envelope_codec,
    BlobCodec, DecodedBlob, BLOB_HEADER_LEN, BLOB_MAGIC, BLOB_VERSION,
    DEFAULT_COMPRESSION_THRESHOLD,
};
use nulang::runtime::StorageErrorKind;

#[test]
fn small_payload_uses_raw_codec_and_round_trips() {
    let input = b"small actor continuation";
    let encoded = encode_blob_with_threshold(input, 1024).unwrap();

    assert_eq!(envelope_codec(&encoded), Some(BlobCodec::Raw));
    assert_eq!(decode_blob(&encoded).unwrap(), input);
}

#[test]
fn repetitive_large_payload_uses_zstd_and_round_trips() {
    let input = vec![b'x'; 64 * 1024];
    let encoded = encode_blob_with_threshold(&input, 1024).unwrap();

    assert_eq!(envelope_codec(&encoded), Some(BlobCodec::Zstd));
    assert!(encoded.len() < input.len() / 4);
    assert_eq!(decode_blob(&encoded).unwrap(), input);
}

#[test]
fn legacy_unwrapped_payload_is_borrowed_without_copy() {
    let legacy = b"NHS0 legacy continuation bytes";
    let decoded = decode_blob_or_raw(legacy).unwrap();

    assert!(matches!(decoded, DecodedBlob::Borrowed(_)));
    assert_eq!(decoded.as_bytes(), legacy);
}

#[test]
fn truncated_envelope_fails_closed() {
    let truncated = [BLOB_MAGIC.as_slice(), &[BLOB_VERSION, BlobCodec::Raw.as_u8()]].concat();
    let error = decode_blob(&truncated).unwrap_err();

    assert_eq!(error.kind(), StorageErrorKind::InvalidData);
}

#[test]
fn wrapped_payload_is_decoded_into_an_owned_value() {
    let encoded = encode_blob(b"state").unwrap();
    let decoded = decode_blob_or_raw(&encoded).unwrap();
    assert!(matches!(decoded, DecodedBlob::Owned(_)));
    assert_eq!(decoded.as_bytes(), b"state");
}

#[test]
fn raw_envelope_is_header_and_payload() {
    let encoded = encode_blob(b"abc").unwrap();
    assert_eq!(encoded.len(), BLOB_HEADER_LEN + 3);
    assert_eq!(&encoded[..4], &BLOB_MAGIC);
    assert_eq!(encoded[4], BLOB_VERSION);
    assert_eq!(encoded[5], BlobCodec::Raw.as_u8());
    assert_eq!(&encoded[BLOB_HEADER_LEN..], b"abc");
}

#[test]
fn payload_at_the_threshold_is_compressed_only_when_it_shrinks() {
    let zeros = vec![0u8; DEFAULT_COMPRESSION_THRESHOLD];
    let encoded = encode_blob(&zeros).unwrap();
    assert_eq!(envelope_codec(&encoded), Some(BlobCodec::Zstd));
    assert_eq!(decode_blob(&encoded).unwrap(), zeros);

    let below = vec![0u8; DEFAULT_COMPRESSION_THRESHOLD - 1];
    let encoded = encode_blob(&below).unwrap();
    assert_eq!(envelope_codec(&encoded), Some(BlobCodec::Raw));
}

#[test]
fn unknown_version_and_codec_fail_closed() {
    let mut encoded = encode_blob(b"abc").unwrap();
    encoded[4] = BLOB_VERSION + 1;
    assert_eq!(decode_blob(&encoded).unwrap_err().kind(), StorageErrorKind::InvalidData);

    let mut encoded = encode_blob(b"abc").unwrap();
    encoded[5] = 9;
    assert_eq!(decode_blob(&encoded).unwrap_err().kind(), StorageErrorKind::InvalidData);
}

#[test]
fn broken_frame_is_reported() {
    let mut encoded = encode_blob(&vec![b'x'; 64 * 1024]).unwrap();
    assert_eq!(envelope_codec(&encoded), Some(BlobCodec::Zstd));
    encoded[BLOB_HEADER_LEN] ^= 0xff;
    assert!(decode_blob(&encoded).is_err());
}

#[test]
fn recorded_length_must_match_the_payload() {
    let mut encoded = encode_blob(b"abc").unwrap();
    encoded.push(b'd');
    assert!(decode_blob(&encoded).is_err());
}
