//! Versioned compression envelope for runtime blobs.
//!
//! The envelope is independent from the payload format.
//!
//! Layout (big-endian):
//!   magic[4] = "NUZ0"
//!   version  = u8
//!   codec    = u8 (0 = raw, 1 = zstd)
//!   reserved = u16
//!   original_len = u64
//!   payload  = remaining bytes

use crate::bytes::{self, push_all, push_be, read_be, sub_bytes};
use crate::runtime::{StorageError, StorageErrorKind};
use vstd::prelude::*;

verus! {

pub const BLOB_MAGIC: [u8; 4] = [0x4e, 0x55, 0x5a, 0x30];

pub const BLOB_VERSION: u8 = 1;

pub const BLOB_HEADER_LEN: usize = 16;

pub const DEFAULT_ZSTD_LEVEL: i32 = 3;

pub const DEFAULT_COMPRESSION_THRESHOLD: usize = 4096;

#[derive(Debug, Clone, Copy, PartialEq, Eq, Structural)]
pub enum BlobCodec {
    Raw,
    Zstd,
}

impl BlobCodec {
    /// The codec byte.
    pub open spec fn byte(self) -> u8 {
        match self {
            BlobCodec::Raw => 0,
            BlobCodec::Zstd => 1,
        }
    }

    pub fn as_u8(self) -> (r: u8)
        ensures
            r == self.byte(),
    {
        match self {
            BlobCodec::Raw => 0,
            BlobCodec::Zstd => 1,
        }
    }
}

/// The zstd frame of a byte string at a compression level, if it can be
/// compressed.
pub uninterp spec fn zstd_frame(input: Seq<u8>, level: i32) -> Option<Seq<u8>>;

/// What zstd frames decompress to, if they are sound.
pub uninterp spec fn zstd_content(frames: Seq<u8>) -> Option<Seq<u8>>;

/// `zstd::stream::encode_all` at a level: the frame of the input, which
/// decompresses to the input, or nothing when it cannot be compressed. As
/// everywhere, running out of memory is left aside.
#[verifier::external_body]
fn zstd_encode(input: &[u8], level: i32) -> (r: Option<Vec<u8>>)
    requires
        1 <= level <= 22,
    ensures
        match r {
            Some(v) => zstd_frame(input@, level) == Some(v@) && zstd_content(v@) == Some(input@),
            None => zstd_frame(input@, level) is None,
        },
{
    zstd::stream::encode_all(input, level).ok()
}

/// `zstd::stream::decode_all`: the content of zstd frames, or nothing when
/// they cannot be decompressed. Running out of memory is left aside.
#[verifier::external_body]
fn zstd_decode(frames: &[u8]) -> (r: Option<Vec<u8>>)
    ensures
        match r {
            Some(v) => zstd_content(frames@) == Some(v@),
            None => zstd_content(frames@) is None,
        },
{
    zstd::stream::decode_all(frames).ok()
}

/// The bytes `NUZ0`.
pub open spec fn magic() -> Seq<u8> {
    seq![0x4eu8, 0x55u8, 0x5au8, 0x30u8]
}

/// The envelope of a payload.
pub open spec fn envelope(codec: BlobCodec, original_len: nat, payload: Seq<u8>) -> Seq<u8> {
    magic() + seq![BLOB_VERSION, codec.byte(), 0u8, 0u8] + bytes::be_bytes(original_len, 8)
        + payload
}

/// Whether bytes start with the envelope magic.
pub open spec fn has_magic(b: Seq<u8>) -> bool {
    b.len() >= 4 && b.take(4) == magic()
}

/// The codec of a sound envelope header.
pub open spec fn codec_of(b: Seq<u8>) -> Option<BlobCodec> {
    if b.len() < 16 || !has_magic(b) || b[4] != BLOB_VERSION || b[6] != 0 || b[7] != 0 {
        None
    } else if b[5] == 0 {
        Some(BlobCodec::Raw)
    } else if b[5] == 1 {
        Some(BlobCodec::Zstd)
    } else {
        None
    }
}

/// What an envelope holds, if it is sound.
pub open spec fn blob_content(b: Seq<u8>) -> Option<Seq<u8>> {
    match codec_of(b) {
        None => None,
        Some(BlobCodec::Raw) => if b.skip(16).len() == bytes::be_value(b.subrange(8, 16)) {
            Some(b.skip(16))
        } else {
            None
        },
        Some(BlobCodec::Zstd) => match zstd_content(b.skip(16)) {
            Some(v) => if v.len() == bytes::be_value(b.subrange(8, 16)) {
                Some(v)
            } else {
                None
            },
            None => None,
        },
    }
}

fn write_envelope(codec: BlobCodec, original_len: u64, payload: &[u8]) -> (r: Vec<u8>)
    ensures
        r@ == envelope(codec, original_len as nat, payload@),
{
    let mut out: Vec<u8> = Vec::new();
    out.push(0x4e);
    out.push(0x55);
    out.push(0x5a);
    out.push(0x30);
    out.push(BLOB_VERSION);
    out.push(codec.as_u8());
    out.push(0);
    out.push(0);
    push_be(&mut out, original_len, 8);
    push_all(&mut out, payload);
    assert(out@ =~= envelope(codec, original_len as nat, payload@));
    out
}

/// Which envelope a payload gets: it is compressed when it reaches the
/// threshold and its frame is shorter.
pub open spec fn wrapped(input: Seq<u8>, frame: Seq<u8>) -> Seq<u8> {
    if frame.len() < input.len() {
        envelope(BlobCodec::Zstd, input.len(), frame)
    } else {
        envelope(BlobCodec::Raw, input.len(), input)
    }
}

/// Wraps a payload, given its compressed frame.
pub fn wrap_blob(input: &[u8], frame: &[u8]) -> (r: Vec<u8>)
    ensures
        r@ == wrapped(input@, frame@),
{
    if frame.len() < input.len() {
        write_envelope(BlobCodec::Zstd, input.len() as u64, frame)
    } else {
        write_envelope(BlobCodec::Raw, input.len() as u64, input)
    }
}

/// Wraps a payload with the default threshold.
pub fn encode_blob(input: &[u8]) -> (r: Result<Vec<u8>, StorageError>)
    ensures
        r is Ok <==> input@.len() < DEFAULT_COMPRESSION_THRESHOLD || zstd_frame(
            input@,
            DEFAULT_ZSTD_LEVEL,
        ) is Some,
        r matches Ok(v) ==> blob_content(v@) == Some(input@) && v@ == (if input@.len()
            < DEFAULT_COMPRESSION_THRESHOLD {
            envelope(BlobCodec::Raw, input@.len(), input@)
        } else {
            wrapped(input@, zstd_frame(input@, DEFAULT_ZSTD_LEVEL)->0)
        }),
        r matches Err(e) ==> e.code == StorageErrorKind::Other && e.message@
            == "zstd compression failed"@,
{
    encode_blob_with_threshold(input, DEFAULT_COMPRESSION_THRESHOLD)
}

/// Wraps a payload, compressing it when it reaches the threshold.
pub fn encode_blob_with_threshold(input: &[u8], threshold: usize) -> (r: Result<
    Vec<u8>,
    StorageError,
>)
    ensures
        r is Ok <==> input@.len() < threshold || zstd_frame(
            input@,
            DEFAULT_ZSTD_LEVEL,
        ) is Some,
        r matches Ok(v) ==> blob_content(v@) == Some(input@) && v@ == (if input@.len()
            < threshold {
            envelope(BlobCodec::Raw, input@.len(), input@)
        } else {
            wrapped(input@, zstd_frame(input@, DEFAULT_ZSTD_LEVEL)->0)
        }),
        r matches Err(e) ==> e.code == StorageErrorKind::Other && e.message@
            == "zstd compression failed"@,
{
    let n: usize = input.len();
    proof {
        assert(n as nat <= u64::MAX);
        raw_round_trip(input@);
    }
    if n < threshold {
        return Ok(write_envelope(BlobCodec::Raw, n as u64, input));
    }
    match zstd_encode(input, DEFAULT_ZSTD_LEVEL) {
        Some(frame) => {
            proof {
                zstd_round_trip(input@, frame@);
            }
            Ok(wrap_blob(input, frame.as_slice()))
        },
        None => Err(StorageError::new(StorageErrorKind::Other, "zstd compression failed")),
    }
}

fn starts_with_magic(b: &[u8]) -> (r: bool)
    ensures
        r == has_magic(b@),
{
    if b.len() < 4 {
        return false;
    }
    let r: bool = b[0] == 0x4e && b[1] == 0x55 && b[2] == 0x5a && b[3] == 0x30;
    proof {
        let t = b@.take(4);
        if r {
            assert(t =~= magic());
        } else if t == magic() {
            assert(t[0] == 0x4e && t[1] == 0x55 && t[2] == 0x5a && t[3] == 0x30);
        }
    }
    r
}

fn invalid(message: &str) -> (r: StorageError)
    ensures
        r.code == StorageErrorKind::InvalidData,
        r.message@ == message@,
{
    StorageError::new(StorageErrorKind::InvalidData, message)
}

/// Why bytes are no sound envelope.
pub open spec fn blob_fault(b: Seq<u8>) -> Seq<char> {
    if codec_of(b) is None {
        "blob envelope header is not supported"@
    } else if codec_of(b) == Some(BlobCodec::Zstd) && zstd_content(b.skip(16)) is None {
        "blob payload is not a sound zstd frame"@
    } else {
        "blob payload does not have the recorded length"@
    }
}

/// Unwraps an envelope. Anything unsound fails closed.
pub fn decode_blob(encoded: &[u8]) -> (r: Result<Vec<u8>, StorageError>)
    ensures
        match r {
            Ok(v) => blob_content(encoded@) == Some(v@),
            Err(e) => blob_content(encoded@) is None && e.code == StorageErrorKind::InvalidData
                && e.message@ == blob_fault(encoded@),
        },
{
    let codec: BlobCodec = match envelope_codec(encoded) {
        Some(c) => c,
        None => {
            return Err(invalid("blob envelope header is not supported"));
        },
    };
    let original_len: u64 = read_be(encoded, 8, 8);
    let payload: Vec<u8> = sub_bytes(encoded, BLOB_HEADER_LEN, encoded.len());
    assert(payload@ =~= encoded@.skip(16));
    let content: Vec<u8> = match codec {
        BlobCodec::Raw => payload,
        BlobCodec::Zstd => match zstd_decode(payload.as_slice()) {
            Some(v) => v,
            None => {
                return Err(invalid("blob payload is not a sound zstd frame"));
            },
        },
    };
    if content.len() as u64 != original_len {
        return Err(invalid("blob payload does not have the recorded length"));
    }
    Ok(content)
}

/// Unwrapped bytes: those of an envelope, or the given bytes themselves.
#[derive(Debug, Clone, PartialEq, Eq)]
pub enum DecodedBlob<'a> {
    Borrowed(&'a [u8]),
    Owned(Vec<u8>),
}

impl<'a> DecodedBlob<'a> {
    pub open spec fn content(self) -> Seq<u8> {
        match self {
            DecodedBlob::Borrowed(b) => b@,
            DecodedBlob::Owned(v) => v@,
        }
    }

    pub fn as_bytes(&self) -> (r: &[u8])
        ensures
            r@ == self.content(),
    {
        match self {
            DecodedBlob::Borrowed(b) => b,
            DecodedBlob::Owned(v) => v.as_slice(),
        }
    }
}

/// Unwraps an envelope; bytes without one are handed back as they are.
pub fn decode_blob_or_raw<'a>(b: &'a [u8]) -> (r: Result<DecodedBlob<'a>, StorageError>)
    ensures
        !has_magic(b@) ==> r == Ok::<DecodedBlob<'a>, StorageError>(DecodedBlob::Borrowed(b)),
        has_magic(b@) ==> match r {
            Ok(d) => d is Owned && blob_content(b@) == Some(d.content()),
            Err(e) => blob_content(b@) is None && e.code == StorageErrorKind::InvalidData
                && e.message@ == blob_fault(b@),
        },
{
    if !starts_with_magic(b) {
        return Ok(DecodedBlob::Borrowed(b));
    }
    match decode_blob(b) {
        Ok(v) => Ok(DecodedBlob::Owned(v)),
        Err(e) => Err(e),
    }
}

/// The codec of an envelope; nothing when the header is not a sound one.
pub fn envelope_codec(b: &[u8]) -> (r: Option<BlobCodec>)
    ensures
        r == codec_of(b@),
{
    if b.len() < BLOB_HEADER_LEN || !starts_with_magic(b) || b[4] != BLOB_VERSION || b[6] != 0
        || b[7] != 0 {
        return None;
    }
    if b[5] == 0 {
        Some(BlobCodec::Raw)
    } else if b[5] == 1 {
        Some(BlobCodec::Zstd)
    } else {
        None
    }
}

proof fn header_reads(codec: BlobCodec, n: nat, payload: Seq<u8>)
    requires
        n <= u64::MAX,
    ensures
        codec_of(envelope(codec, n, payload)) == Some(codec),
        bytes::be_value(envelope(codec, n, payload).subrange(8, 16)) == n,
        envelope(codec, n, payload).skip(16) == payload,
        has_magic(envelope(codec, n, payload)),
{
    let e = envelope(codec, n, payload);
    bytes::pow256_values();
    bytes::be_round_trip(n, 8);
    bytes::be_len(n, 8);
    assert(e.take(4) =~= magic());
    assert(e.subrange(8, 16) =~= bytes::be_bytes(n, 8));
    assert(e.skip(16) =~= payload);
}

/// Unwrapping a raw envelope gives the payload back.
pub proof fn raw_round_trip(input: Seq<u8>)
    requires
        input.len() <= u64::MAX,
    ensures
        blob_content(envelope(BlobCodec::Raw, input.len(), input)) == Some(input),
{
    header_reads(BlobCodec::Raw, input.len(), input);
}

/// Unwrapping gives the payload back, whichever envelope it got.
pub proof fn zstd_round_trip(input: Seq<u8>, frame: Seq<u8>)
    requires
        input.len() <= u64::MAX,
        zstd_content(frame) == Some(input),
    ensures
        blob_content(wrapped(input, frame)) == Some(input),
        has_magic(wrapped(input, frame)),
{
    header_reads(BlobCodec::Raw, input.len(), input);
    header_reads(BlobCodec::Zstd, input.len(), frame);
}

/// A refused blob is refused for its header, its frame or its length, in this
/// order, and a blob with a sound header of the plain kind only for its length.
pub proof fn refused_blobs_tell_why(b: Seq<u8>)
    requires
        blob_content(b) is None,
    ensures
        blob_fault(b) == "blob envelope header is not supported"@ <==> codec_of(b) is None,
        codec_of(b) == Some(BlobCodec::Raw) ==> blob_fault(b)
            == "blob payload does not have the recorded length"@ && b.len() - 16
            != bytes::be_value(b.subrange(8, 16)),
{
    reveal_strlit("blob envelope header is not supported");
    reveal_strlit("blob payload is not a sound zstd frame");
    reveal_strlit("blob payload does not have the recorded length");
    assert("blob envelope header is not supported"@.len() == 37);
    assert("blob payload is not a sound zstd frame"@.len() == 38);
    assert("blob payload does not have the recorded length"@.len() == 46);
}

/// Wrapping never takes more than the plain form: it takes the frame exactly
/// where that is shorter.
pub proof fn wrapping_takes_the_shorter_form(input: Seq<u8>, frame: Seq<u8>)
    requires
        input.len() <= u64::MAX,
    ensures
        wrapped(input, frame).len() == 16 + (if frame.len() < input.len() {
            frame.len()
        } else {
            input.len()
        }),
{
    bytes::be_len(input.len(), 8);
}

} // verus!
