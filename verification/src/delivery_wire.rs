//! ActorMessage v2 framing: a fixed metadata block in front of an unchanged
//! payload.

use crate::bytes::push_all;
use crate::delivery::{self, decode_message_meta, encode_message_meta, MessageMetaCodecError, MESSAGE_META_WIRE_LEN};
use crate::message::MessageMeta;
use crate::text::{self, cat2, cat4, dec_of};
use vstd::prelude::*;
use vstd::slice::slice_subrange;

verus! {

pub const ACTOR_MESSAGE_V2_META_PREFIX_LEN: usize = MESSAGE_META_WIRE_LEN;

#[derive(Debug, Clone, PartialEq, Eq)]
pub enum ActorMessageV2CodecError {
    TooShort { minimum: usize, actual: usize },
    Metadata(MessageMetaCodecError),
}

impl ActorMessageV2CodecError {
    pub fn to_string(&self) -> (r: String)
        ensures
            r@ == match self {
                ActorMessageV2CodecError::TooShort { minimum, actual } =>
                    "actor-message v2 payload is "@ + text::dec(*actual as nat)
                    + " bytes, minimum is "@ + text::dec(*minimum as nat),
                ActorMessageV2CodecError::Metadata(e) => "actor-message v2 metadata: "@
                    + e.spec_text(),
            },
    {
        match self {
            ActorMessageV2CodecError::TooShort { minimum, actual } => cat4(
                "actor-message v2 payload is ",
                dec_of(*actual as u64).as_str(),
                " bytes, minimum is ",
                dec_of(*minimum as u64).as_str(),
            ),
            ActorMessageV2CodecError::Metadata(e) => cat2(
                "actor-message v2 metadata: ",
                e.to_string().as_str(),
            ),
        }
    }
}

impl From<MessageMetaCodecError> for ActorMessageV2CodecError {
    fn from(value: MessageMetaCodecError) -> (r: Self) {
        ActorMessageV2CodecError::Metadata(value)
    }
}

impl vstd::std_specs::convert::FromSpecImpl<MessageMetaCodecError> for ActorMessageV2CodecError {
    open spec fn obeys_from_spec() -> bool {
        true
    }

    open spec fn from_spec(value: MessageMetaCodecError) -> Self {
        ActorMessageV2CodecError::Metadata(value)
    }
}

/// The frame of a message: metadata, then the payload byte for byte.
pub open spec fn frame(meta: MessageMeta, payload: Seq<u8>) -> Seq<u8> {
    delivery::meta_wire(meta) + payload
}

/// Prefix an already-encoded payload with stable logical delivery metadata.
pub fn encode_actor_message_v2(meta: &MessageMeta, legacy_payload: &[u8]) -> (r: Vec<u8>)
    ensures
        r@ == frame(*meta, legacy_payload@),
{
    let mut out: Vec<u8> = encode_message_meta(meta);
    push_all(&mut out, legacy_payload);
    out
}

/// Decode the fixed metadata prefix and return the untouched payload.
pub fn decode_actor_message_v2<'a>(s: &'a [u8]) -> (r: Result<
    (MessageMeta, &'a [u8]),
    ActorMessageV2CodecError,
>)
    ensures
        match r {
            Err(ActorMessageV2CodecError::TooShort { minimum, actual }) => s@.len()
                < ACTOR_MESSAGE_V2_META_PREFIX_LEN && minimum == ACTOR_MESSAGE_V2_META_PREFIX_LEN
                && actual == s@.len(),
            Err(ActorMessageV2CodecError::Metadata(e)) => s@.len()
                >= ACTOR_MESSAGE_V2_META_PREFIX_LEN && delivery::meta_decodes(s@.take(66), Err(e)),
            Ok((meta, payload)) => s@.len() >= ACTOR_MESSAGE_V2_META_PREFIX_LEN
                && delivery::meta_decodes(s@.take(66), Ok(meta)) && payload@ == s@.skip(66),
        },
{
    if s.len() < ACTOR_MESSAGE_V2_META_PREFIX_LEN {
        return Err(
            ActorMessageV2CodecError::TooShort {
                minimum: ACTOR_MESSAGE_V2_META_PREFIX_LEN,
                actual: s.len(),
            },
        );
    }
    let head: &[u8] = slice_subrange(s, 0, ACTOR_MESSAGE_V2_META_PREFIX_LEN);
    assert(head@ =~= s@.take(66));
    match decode_message_meta(head) {
        Err(e) => Err(ActorMessageV2CodecError::from(e)),
        Ok(meta) => {
            let tail: &'a [u8] = slice_subrange(s, ACTOR_MESSAGE_V2_META_PREFIX_LEN, s.len());
            assert(tail@ =~= s@.skip(66));
            Ok((meta, tail))
        },
    }
}

/// Decoding a frame gives back the metadata and the payload unchanged.
pub proof fn frame_round_trip(meta: MessageMeta, payload: Seq<u8>)
    ensures
        frame(meta, payload).len() >= ACTOR_MESSAGE_V2_META_PREFIX_LEN,
        delivery::wire_accepted(frame(meta, payload).take(66)),
        delivery::wire_meta(frame(meta, payload).take(66)) == meta,
        frame(meta, payload).skip(66) == payload,
{
    delivery::meta_round_trip(meta);
    assert(frame(meta, payload).take(66) =~= delivery::meta_wire(meta));
    assert(frame(meta, payload).skip(66) =~= payload);
}

} // verus!
