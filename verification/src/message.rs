//! Logical message identity, causality and delivery attempts.

use crate::bytes::{self, array16, push_be, read_be};
use vstd::prelude::*;

verus! {

/// Globally unique logical message identity: the originating node and its
/// local sequence number.
#[derive(Debug, Clone, Copy, PartialEq, Eq, PartialOrd, Ord, Hash, Structural)]
pub struct MessageId {
    pub origin: u64,
    pub sequence: u64,
}

impl MessageId {
    /// The sixteen-byte form: origin, then sequence, both big-endian.
    pub open spec fn wire(self) -> Seq<u8> {
        bytes::be_bytes(self.origin as nat, 8) + bytes::be_bytes(self.sequence as nat, 8)
    }

    /// The identity whose sixteen-byte form is `s`.
    pub open spec fn of_wire(s: Seq<u8>) -> MessageId {
        MessageId {
            origin: bytes::be_value(s.subrange(0, 8)) as u64,
            sequence: bytes::be_value(s.subrange(8, 16)) as u64,
        }
    }

    pub fn new(origin: u64, sequence: u64) -> (r: Self)
        ensures
            r == (MessageId { origin, sequence }),
    {
        MessageId { origin, sequence }
    }

    pub fn to_bytes(self) -> (r: [u8; 16])
        ensures
            r@ == self.wire(),
    {
        let mut out: Vec<u8> = Vec::new();
        push_be(&mut out, self.origin, 8);
        push_be(&mut out, self.sequence, 8);
        proof {
            crate::bytes::be_len(self.origin as nat, 8);
            crate::bytes::be_len(self.sequence as nat, 8);
            assert(out@ =~= self.wire());
            assert(out@.subrange(0, 16) =~= out@);
        }
        array16(out.as_slice(), 0)
    }

    pub fn from_bytes(bytes: [u8; 16]) -> (r: Self)
        ensures
            r == MessageId::of_wire(bytes@),
    {
        let s: &[u8] = bytes.as_slice();
        MessageId { origin: read_be(s, 0, 8), sequence: read_be(s, 8, 8) }
    }
}

/// Reading the sixteen-byte form of an identity gives the identity back.
pub proof fn message_id_round_trip(id: MessageId)
    ensures
        MessageId::of_wire(id.wire()) == id,
        id.wire().len() == 16,
{
    crate::bytes::pow256_values();
    bytes::be_round_trip(id.origin as nat, 8);
    bytes::be_round_trip(id.sequence as nat, 8);
    assert(id.wire().subrange(0, 8) =~= bytes::be_bytes(id.origin as nat, 8));
    assert(id.wire().subrange(8, 16) =~= bytes::be_bytes(id.sequence as nat, 8));
}

/// Every sixteen bytes are the form of exactly the identity they decode to.
pub proof fn message_id_wire_is_onto(s: Seq<u8>)
    requires
        s.len() == 16,
    ensures
        MessageId::of_wire(s).wire() == s,
{
    crate::bytes::pow256_values();
    bytes::be_value_bytes(s.subrange(0, 8));
    bytes::be_value_bytes(s.subrange(8, 16));
    assert(s =~= s.subrange(0, 8) + s.subrange(8, 16));
}

/// Identity, causality and attempt metadata of one logical message.
#[derive(Debug, Clone, Copy, PartialEq, Eq, Structural)]
pub struct MessageMeta {
    pub id: MessageId,
    pub correlation_id: MessageId,
    pub causation_id: Option<MessageId>,
    pub attempt: u32,
    pub deadline_unix_ms: Option<u64>,
}

impl MessageMeta {
    /// The same logical message with the given attempt number.
    pub open spec fn at_attempt(self, attempt: u32) -> MessageMeta {
        MessageMeta { attempt, ..self }
    }

    /// The attempt after this one; the counter stays at its maximum.
    pub open spec fn next_attempt(self) -> u32 {
        if self.attempt == u32::MAX {
            u32::MAX
        } else {
            (self.attempt + 1) as u32
        }
    }

    /// Metadata of a message that starts a conversation.
    pub fn root(id: MessageId) -> (r: Self)
        ensures
            r == (MessageMeta {
                id,
                correlation_id: id,
                causation_id: None,
                attempt: 0,
                deadline_unix_ms: None,
            }),
    {
        MessageMeta {
            id,
            correlation_id: id,
            causation_id: None,
            attempt: 0,
            deadline_unix_ms: None,
        }
    }

    /// Another attempt to deliver the same logical message.
    pub fn retry(&self) -> (r: Self)
        ensures
            r == self.at_attempt(self.next_attempt()),
    {
        MessageMeta {
            id: self.id,
            correlation_id: self.correlation_id,
            causation_id: self.causation_id,
            attempt: self.attempt.saturating_add(1),
            deadline_unix_ms: self.deadline_unix_ms,
        }
    }
}

/// Each attempt has the next number, until the numbers end.
pub proof fn attempts_count_up(meta: MessageMeta, attempt: u32)
    ensures
        meta.attempt < u32::MAX ==> meta.next_attempt() == meta.attempt + 1,
        meta.attempt == u32::MAX ==> meta.next_attempt() == u32::MAX,
        meta.at_attempt(attempt).attempt == attempt,
        meta.at_attempt(attempt).at_attempt(meta.attempt) == meta,
{
}

} // verus!
