//! Versioned delivery metadata and structured dead-letter primitives.

use crate::bytes::{self, array16, push_all, push_be, read_be};
use crate::message::{self, MessageId, MessageMeta};
use crate::text::{self, cat2, cat4, dec_of, push_dec, text};
use std::collections::VecDeque;
use vstd::prelude::*;

verus! {

/// First stable binary representation of [`MessageMeta`].
pub const MESSAGE_META_WIRE_VERSION: u8 = 1;

/// `NDM1`: Nulang Delivery Metadata, version 1.
pub const MESSAGE_META_MAGIC: [u8; 4] = [0x4e, 0x44, 0x4d, 0x31];

/// Fixed encoded length for delivery metadata v1.
pub const MESSAGE_META_WIRE_LEN: usize = 66;

/// Location-transparent logical delivery target.
#[derive(Debug, Clone, Copy, PartialEq, Eq, Hash, Structural)]
pub enum DeliveryTarget {
    LocalActor { actor_id: u64 },
    RemoteActor { node_id: u64, actor_id: u64 },
}

impl DeliveryTarget {
    /// The actor that the target names.
    pub open spec fn actor(self) -> u64 {
        match self {
            DeliveryTarget::LocalActor { actor_id } => actor_id,
            DeliveryTarget::RemoteActor { node_id, actor_id } => actor_id,
        }
    }

    pub fn actor_id(self) -> (r: u64)
        ensures
            r == self.actor(),
    {
        match self {
            DeliveryTarget::LocalActor { actor_id } => actor_id,
            DeliveryTarget::RemoteActor { node_id: _, actor_id } => actor_id,
        }
    }
}

/// Priority carried by a logical delivery independently of mailbox layout.
#[derive(Debug, Clone, Copy, PartialEq, Eq, Structural)]
pub enum DeliveryPriority {
    System,
    Normal,
    Bulk,
}

/// Logical message envelope shared by local, remote, durable, and retry paths.
#[derive(Debug, Clone, PartialEq, Eq)]
pub struct DeliveryEnvelope<T> {
    pub meta: MessageMeta,
    pub sender_actor: u64,
    pub target: DeliveryTarget,
    pub behavior: String,
    pub priority: DeliveryPriority,
    pub trace_context: Option<String>,
    pub payload: T,
}

impl<T> DeliveryEnvelope<T> {
    /// Whether the deadline, if there is one, has been reached.
    pub open spec fn expired(self, now_unix_ms: u64) -> bool {
        self.meta.deadline_unix_ms matches Some(deadline) && now_unix_ms >= deadline
    }

    pub fn is_expired_at(&self, now_unix_ms: u64) -> (r: bool)
        ensures
            r == self.expired(now_unix_ms),
    {
        match self.meta.deadline_unix_ms {
            Some(deadline) => now_unix_ms >= deadline,
            None => false,
        }
    }

    pub fn into_dead_letter(self, reason: DeadLetterReason, failed_at_unix_ms: u64) -> (r:
        DeadLetter)
        ensures
            r == (DeadLetter {
                meta: self.meta,
                sender_actor: self.sender_actor,
                target: self.target,
                behavior: self.behavior,
                reason,
                failed_at_unix_ms,
                trace_context: self.trace_context,
            }),
    {
        DeadLetter {
            meta: self.meta,
            sender_actor: self.sender_actor,
            target: self.target,
            behavior: self.behavior,
            reason,
            failed_at_unix_ms,
            trace_context: self.trace_context,
        }
    }
}

impl<T: Clone> DeliveryEnvelope<T> {
    /// Another attempt to deliver the same logical message: only the attempt
    /// counter changes.
    pub fn retry(&self) -> (r: Self)
        ensures
            r.meta == self.meta.at_attempt(self.meta.next_attempt()),
            r.sender_actor == self.sender_actor,
            r.target == self.target,
            r.behavior == self.behavior,
            r.priority == self.priority,
            r.trace_context == self.trace_context,
            cloned(self.payload, r.payload),
    {
        DeliveryEnvelope {
            meta: self.meta.retry(),
            sender_actor: self.sender_actor,
            target: self.target,
            behavior: self.behavior.clone(),
            priority: self.priority,
            trace_context: crate::text::clone_opt(&self.trace_context),
            payload: self.payload.clone(),
        }
    }
}

/// Once expired, a delivery stays expired.
pub proof fn expiry_is_monotone<T>(envelope: DeliveryEnvelope<T>, now: u64, later: u64)
    requires
        now <= later,
        envelope.expired(now),
    ensures
        envelope.expired(later),
{
}

/// Binary codec failure for versioned logical delivery metadata.
#[derive(Debug, Clone, PartialEq, Eq)]
pub enum MessageMetaCodecError {
    WrongLength { expected: usize, actual: usize },
    BadMagic([u8; 4]),
    UnsupportedVersion(u8),
    UnknownFlags(u8),
}

impl MessageMetaCodecError {
    /// Human-readable description.
    pub open spec fn spec_text(self) -> Seq<char> {
        match self {
            MessageMetaCodecError::WrongLength { expected, actual } => "delivery metadata length "@
                + text::dec(actual as nat) + ", expected "@ + text::dec(expected as nat),
            MessageMetaCodecError::BadMagic(m) => "invalid delivery metadata magic "@ + "["@
                + text::dec(m@[0] as nat) + ", "@ + text::dec(m@[1] as nat) + ", "@ + text::dec(
                m@[2] as nat,
            ) + ", "@ + text::dec(m@[3] as nat) + "]"@,
            MessageMetaCodecError::UnsupportedVersion(v) =>
                "unsupported delivery metadata version "@ + text::dec(v as nat),
            MessageMetaCodecError::UnknownFlags(f) =>
                "delivery metadata contains unknown flags 0x"@ + crate::hashing::hex_text(seq![f]),
        }
    }

    pub fn to_string(&self) -> (r: String)
        ensures
            r@ == self.spec_text(),
    {
        match self {
            MessageMetaCodecError::WrongLength { expected, actual } => cat4(
                "delivery metadata length ",
                dec_of(*actual as u64).as_str(),
                ", expected ",
                dec_of(*expected as u64).as_str(),
            ),
            MessageMetaCodecError::BadMagic(m) => {
                let mut out: String = text("invalid delivery metadata magic ");
                out.append("[");
                push_dec(&mut out, m[0] as u64);
                out.append(", ");
                push_dec(&mut out, m[1] as u64);
                out.append(", ");
                push_dec(&mut out, m[2] as u64);
                out.append(", ");
                push_dec(&mut out, m[3] as u64);
                out.append("]");
                out
            },
            MessageMetaCodecError::UnsupportedVersion(v) => cat2(
                "unsupported delivery metadata version ",
                dec_of(*v as u64).as_str(),
            ),
            MessageMetaCodecError::UnknownFlags(f) => {
                let mut one: Vec<u8> = Vec::new();
                one.push(*f);
                assert(one@ =~= seq![*f]);
                let hex: String = crate::hashing::hex_encode(one.as_slice());
                cat2("delivery metadata contains unknown flags 0x", hex.as_str())
            },
        }
    }
}

/// The flag byte: bit 0 for a causation identity, bit 1 for a deadline.
pub open spec fn meta_flags(meta: MessageMeta) -> u8 {
    (if meta.causation_id is Some {
        1int
    } else {
        0int
    } + if meta.deadline_unix_ms is Some {
        2int
    } else {
        0int
    }) as u8
}

/// Sixteen zero bytes.
pub open spec fn zeros(n: nat) -> Seq<u8> {
    Seq::new(n, |i: int| 0u8)
}

/// The magic bytes as a sequence.
pub open spec fn meta_magic() -> Seq<u8> {
    seq![0x4eu8, 0x44, 0x4d, 0x31]
}

/// The fixed-length form of delivery metadata; absent optional fields leave
/// their slot zero.
pub open spec fn meta_wire(meta: MessageMeta) -> Seq<u8> {
    meta_magic() + seq![1u8, meta_flags(meta)] + meta.id.wire() + meta.correlation_id.wire() + (
    match meta.causation_id {
        Some(id) => id.wire(),
        None => zeros(16),
    }) + bytes::be_bytes(meta.attempt as nat, 4) + (match meta.deadline_unix_ms {
        Some(d) => bytes::be_bytes(d as nat, 8),
        None => zeros(8),
    })
}

/// The metadata that a fixed-length form describes.
pub open spec fn wire_meta(s: Seq<u8>) -> MessageMeta {
    MessageMeta {
        id: MessageId::of_wire(s.subrange(6, 22)),
        correlation_id: MessageId::of_wire(s.subrange(22, 38)),
        causation_id: if s[5] % 2 == 1 {
            Some(MessageId::of_wire(s.subrange(38, 54)))
        } else {
            None
        },
        attempt: bytes::be_value(s.subrange(54, 58)) as u32,
        deadline_unix_ms: if s[5] / 2 == 1 {
            Some(bytes::be_value(s.subrange(58, 66)) as u64)
        } else {
            None
        },
    }
}

/// Whether bytes are acceptable metadata of version 1.
pub open spec fn wire_accepted(s: Seq<u8>) -> bool {
    &&& s.len() == MESSAGE_META_WIRE_LEN
    &&& s.subrange(0, 4) == meta_magic()
    &&& s[4] == MESSAGE_META_WIRE_VERSION
    &&& s[5] <= 3
}

/// What decoding gives: the error of the first check that fails, or the
/// metadata.
pub open spec fn meta_decodes(s: Seq<u8>, r: Result<MessageMeta, MessageMetaCodecError>) -> bool {
    match r {
        Err(MessageMetaCodecError::WrongLength { expected, actual }) => s.len()
            != MESSAGE_META_WIRE_LEN && expected == MESSAGE_META_WIRE_LEN && actual == s.len(),
        Err(MessageMetaCodecError::BadMagic(m)) => s.len() == MESSAGE_META_WIRE_LEN && s.subrange(
            0,
            4,
        ) != meta_magic() && m@ == s.subrange(0, 4),
        Err(MessageMetaCodecError::UnsupportedVersion(v)) => s.len() == MESSAGE_META_WIRE_LEN
            && s.subrange(0, 4) == meta_magic() && v == s[4] && v != MESSAGE_META_WIRE_VERSION,
        Err(MessageMetaCodecError::UnknownFlags(f)) => s.len() == MESSAGE_META_WIRE_LEN
            && s.subrange(0, 4) == meta_magic() && s[4] == MESSAGE_META_WIRE_VERSION && f == s[5]
            && f > 3,
        Ok(m) => wire_accepted(s) && m == wire_meta(s),
    }
}

fn push_zeros(out: &mut Vec<u8>, n: usize)
    ensures
        final(out)@ == old(out)@ + zeros(n as nat),
{
    let mut i: usize = 0;
    while i < n
        invariant
            i <= n,
            out@ == old(out)@ + zeros(i as nat),
        decreases n - i,
    {
        out.push(0);
        i += 1;
        assert(out@ =~= old(out)@ + zeros(i as nat));
    }
    assert(out@ =~= old(out)@ + zeros(n as nat));
}

/// Encode logical message metadata into the fixed v1 representation.
pub fn encode_message_meta(meta: &MessageMeta) -> (r: Vec<u8>)
    ensures
        r@ == meta_wire(*meta),
        r@.len() == MESSAGE_META_WIRE_LEN,
{
    let mut out: Vec<u8> = Vec::new();
    push_all(&mut out, MESSAGE_META_MAGIC.as_slice());
    out.push(MESSAGE_META_WIRE_VERSION);
    let mut flags: u8 = 0;
    if meta.causation_id.is_some() {
        flags = flags + 1;
    }
    if meta.deadline_unix_ms.is_some() {
        flags = flags + 2;
    }
    out.push(flags);
    push_all(&mut out, meta.id.to_bytes().as_slice());
    push_all(&mut out, meta.correlation_id.to_bytes().as_slice());
    match meta.causation_id {
        Some(id) => push_all(&mut out, id.to_bytes().as_slice()),
        None => push_zeros(&mut out, 16),
    }
    push_be(&mut out, meta.attempt as u64, 4);
    match meta.deadline_unix_ms {
        Some(d) => push_be(&mut out, d, 8),
        None => push_zeros(&mut out, 8),
    }
    proof {
        assert(MESSAGE_META_MAGIC@ =~= meta_magic());
        assert(out@ =~= meta_wire(*meta));
        meta_wire_len(*meta);
    }
    out
}

/// Decode delivery metadata, failing closed on unknown versions/flags.
pub fn decode_message_meta(s: &[u8]) -> (r: Result<MessageMeta, MessageMetaCodecError>)
    ensures
        meta_decodes(s@, r),
{
    if s.len() != MESSAGE_META_WIRE_LEN {
        return Err(
            MessageMetaCodecError::WrongLength {
                expected: MESSAGE_META_WIRE_LEN,
                actual: s.len(),
            },
        );
    }
    let magic: [u8; 4] = [s[0], s[1], s[2], s[3]];
    assert(magic@ =~= s@.subrange(0, 4));
    if magic[0] != 0x4e || magic[1] != 0x44 || magic[2] != 0x4d || magic[3] != 0x31 {
        return Err(MessageMetaCodecError::BadMagic(magic));
    }
    assert(s@.subrange(0, 4) =~= meta_magic());
    if s[4] != MESSAGE_META_WIRE_VERSION {
        return Err(MessageMetaCodecError::UnsupportedVersion(s[4]));
    }
    let flags: u8 = s[5];
    if flags > 3 {
        return Err(MessageMetaCodecError::UnknownFlags(flags));
    }
    let id: MessageId = MessageId::from_bytes(array16(s, 6));
    let correlation_id: MessageId = MessageId::from_bytes(array16(s, 22));
    let causation_id: Option<MessageId> = if flags % 2 == 1 {
        Some(MessageId::from_bytes(array16(s, 38)))
    } else {
        None
    };
    let attempt: u64 = read_be(s, 54, 4);
    let deadline_unix_ms: Option<u64> = if flags / 2 == 1 {
        Some(read_be(s, 58, 8))
    } else {
        None
    };
    proof {
        bytes::pow256_values();
        bytes::be_value_bytes(s@.subrange(54, 58));
    }
    Ok(
        MessageMeta {
            id,
            correlation_id,
            causation_id,
            attempt: attempt as u32,
            deadline_unix_ms,
        },
    )
}

/// Every encoding has the fixed length.
pub proof fn meta_wire_len(meta: MessageMeta)
    ensures
        meta_wire(meta).len() == MESSAGE_META_WIRE_LEN,
{
    message::message_id_round_trip(meta.id);
    message::message_id_round_trip(meta.correlation_id);
    if let Some(id) = meta.causation_id {
        message::message_id_round_trip(id);
    }
    bytes::be_len(meta.attempt as nat, 4);
    if let Some(d) = meta.deadline_unix_ms {
        bytes::be_len(d as nat, 8);
    }
}

/// Decoding an encoding is accepted and gives the same metadata: identity,
/// correlation, causation, attempt and deadline all survive the wire.
pub proof fn meta_round_trip(meta: MessageMeta)
    ensures
        wire_accepted(meta_wire(meta)),
        wire_meta(meta_wire(meta)) == meta,
{
    meta_wire_len(meta);
    bytes::pow256_values();
    message::message_id_round_trip(meta.id);
    message::message_id_round_trip(meta.correlation_id);
    bytes::be_round_trip(meta.attempt as nat, 4);
    let w = meta_wire(meta);
    assert(w.subrange(0, 4) =~= meta_magic());
    assert(w[4] == 1);
    assert(w[5] == meta_flags(meta));
    assert(w.subrange(6, 22) =~= meta.id.wire());
    assert(w.subrange(22, 38) =~= meta.correlation_id.wire());
    if let Some(id) = meta.causation_id {
        message::message_id_round_trip(id);
        assert(w.subrange(38, 54) =~= id.wire());
    }
    assert(w.subrange(54, 58) =~= bytes::be_bytes(meta.attempt as nat, 4));
    if let Some(d) = meta.deadline_unix_ms {
        bytes::be_round_trip(d as nat, 8);
        assert(w.subrange(58, 66) =~= bytes::be_bytes(d as nat, 8));
    }
}

/// Machine-readable reason an otherwise valid logical delivery was not
/// processed by its intended recipient.
#[derive(Debug, Clone, PartialEq, Eq)]
pub enum DeadLetterReason {
    Unresolvable,
    NodeUnavailable,
    TargetActorMissing,
    MailboxFull,
    DeadlineExpired,
    ProtocolIncompatible,
    CapabilityDenied,
    PayloadEncoding,
    BehaviorUnavailable,
    RetryExhausted,
    SpawnRejected,
    Other(String),
}

/// Structured dead-letter record.
#[derive(Debug, Clone, PartialEq, Eq)]
pub struct DeadLetter {
    pub meta: MessageMeta,
    pub sender_actor: u64,
    pub target: DeliveryTarget,
    pub behavior: String,
    pub reason: DeadLetterReason,
    pub failed_at_unix_ms: u64,
    pub trace_context: Option<String>,
}

#[derive(Debug, Clone, PartialEq, Eq)]
pub enum DeadLetterPush {
    TrackingDisabled,
    Recorded { evicted: Option<DeadLetter> },
}

/// Exact bounded FIFO of structured dead letters. Capacity zero disables
/// retention.
#[derive(Debug, Clone)]
pub struct DeadLetterQueue {
    capacity: usize,
    entries: VecDeque<DeadLetter>,
}

impl View for DeadLetterQueue {
    type V = Seq<DeadLetter>;

    /// The retained letters, oldest first.
    closed spec fn view(&self) -> Seq<DeadLetter> {
        self.entries@
    }
}

/// What a push does to a bounded queue: the retained letters afterwards and
/// the letter that had to leave.
pub open spec fn queue_push(
    capacity: nat,
    entries: Seq<DeadLetter>,
    letter: DeadLetter,
) -> (Seq<DeadLetter>, Option<DeadLetter>) {
    if capacity == 0 {
        (entries, None)
    } else if entries.len() == capacity {
        (entries.skip(1).push(letter), Some(entries[0]))
    } else {
        (entries.push(letter), None)
    }
}

impl DeadLetterQueue {
    /// The retention limit.
    pub closed spec fn limit(&self) -> nat {
        self.capacity as nat
    }

    /// No more letters than the limit are retained.
    pub open spec fn wf(&self) -> bool {
        self@.len() <= self.limit()
    }

    pub fn new(capacity: usize) -> (r: Self)
        ensures
            r.wf(),
            r.limit() == capacity,
            r@ == Seq::<DeadLetter>::empty(),
    {
        DeadLetterQueue { capacity, entries: VecDeque::new() }
    }

    pub fn capacity(&self) -> (r: usize)
        ensures
            r == self.limit(),
    {
        self.capacity
    }

    pub fn len(&self) -> (r: usize)
        ensures
            r == self@.len(),
    {
        self.entries.len()
    }

    pub fn is_empty(&self) -> (r: bool)
        ensures
            r == (self@.len() == 0),
    {
        self.entries.len() == 0
    }

    pub fn push(&mut self, letter: DeadLetter) -> (r: DeadLetterPush)
        requires
            old(self).wf(),
        ensures
            final(self).wf(),
            final(self).limit() == old(self).limit(),
            final(self)@ == queue_push(old(self).limit(), old(self)@, letter).0,
            r == (if old(self).limit() == 0 {
                DeadLetterPush::TrackingDisabled
            } else {
                DeadLetterPush::Recorded {
                    evicted: queue_push(old(self).limit(), old(self)@, letter).1,
                }
            }),
    {
        if self.capacity == 0 {
            return DeadLetterPush::TrackingDisabled;
        }
        let evicted: Option<DeadLetter> = if self.entries.len() == self.capacity {
            self.entries.pop_front()
        } else {
            None
        };
        self.entries.push_back(letter);
        assert(self.entries@ =~= queue_push(old(self).limit(), old(self)@, letter).0);
        DeadLetterPush::Recorded { evicted }
    }

    /// The retained letters, oldest first.
    pub fn iter(&self) -> (r: Vec<&DeadLetter>)
        ensures
            r@.len() == self@.len(),
            forall|i: int| 0 <= i < self@.len() ==> *(#[trigger] r@[i]) == self@[i],
    {
        let mut out: Vec<&DeadLetter> = Vec::new();
        let mut i: usize = 0;
        while i < self.entries.len()
            invariant
                i <= self.entries@.len(),
                out@.len() == i,
                forall|j: int| 0 <= j < i ==> *(#[trigger] out@[j]) == self.entries@[j],
            decreases self.entries@.len() - i,
        {
            out.push(&self.entries[i]);
            i += 1;
        }
        out
    }

    /// Takes every retained letter out, oldest first.
    pub fn drain(&mut self) -> (r: Vec<DeadLetter>)
        requires
            old(self).wf(),
        ensures
            r@ == old(self)@,
            final(self)@ == Seq::<DeadLetter>::empty(),
            final(self).limit() == old(self).limit(),
            final(self).wf(),
    {
        let mut out: Vec<DeadLetter> = Vec::new();
        let ghost all = self.entries@;
        loop
            invariant
                out@ + self.entries@ == all,
                self.capacity == old(self).capacity,
            ensures
                self.entries@.len() == 0,
                out@ + self.entries@ == all,
                self.capacity == old(self).capacity,
            decreases self.entries@.len(),
        {
            let ghost before = self.entries@;
            match self.entries.pop_front() {
                Some(letter) => {
                    out.push(letter);
                    assert(out@ + self.entries@ =~= all);
                },
                None => {
                    break;
                },
            }
        }
        assert(out@ =~= all);
        out
    }
}

/// Pushing a run of letters retains exactly the last ones that fit: the queue
/// is a FIFO bounded by its capacity.
pub open spec fn push_run(capacity: nat, entries: Seq<DeadLetter>, run: Seq<DeadLetter>) -> Seq<
    DeadLetter,
>
    decreases run.len(),
{
    if run.len() == 0 {
        entries
    } else {
        queue_push(capacity, push_run(capacity, entries, run.drop_last()), run.last()).0
    }
}

/// After any run of pushes on an empty queue, the queue holds the most recent
/// letters in arrival order, as many as the capacity allows.
pub proof fn queue_keeps_latest(capacity: nat, run: Seq<DeadLetter>)
    ensures
        push_run(capacity, Seq::empty(), run) == if run.len() <= capacity {
            run
        } else {
            run.skip(run.len() - capacity)
        },
    decreases run.len(),
{
    if run.len() > 0 {
        queue_keeps_latest(capacity, run.drop_last());
        let prev = push_run(capacity, Seq::empty(), run.drop_last());
        let now = push_run(capacity, Seq::empty(), run);
        if capacity == 0 {
            assert(now =~= run.skip(run.len() as int));
        } else if run.len() <= capacity {
            assert(now =~= run);
        } else {
            assert(now =~= run.skip(run.len() - capacity));
        }
    } else {
        assert(run =~= Seq::<DeadLetter>::empty());
    }
}

/// An envelope expires exactly when its deadline is reached, and never without
/// one.
pub proof fn expiry_comes_with_the_deadline<T>(envelope: DeliveryEnvelope<T>, now: u64)
    ensures
        envelope.meta.deadline_unix_ms is None ==> !envelope.expired(now),
        envelope.meta.deadline_unix_ms matches Some(deadline) ==> envelope.expired(deadline) && (
        now < deadline ==> !envelope.expired(now)),
{
}

/// Metadata is decoded exactly where its length, magic, version and flags are
/// right; what is refused is refused for the first of them that is not.
pub proof fn sound_metadata_is_decoded(s: Seq<u8>, r: Result<MessageMeta, MessageMetaCodecError>)
    requires
        meta_decodes(s, r),
    ensures
        r is Ok <==> s.len() == MESSAGE_META_WIRE_LEN && s.subrange(0, 4) == meta_magic() && s[4]
            == MESSAGE_META_WIRE_VERSION && s[5] < 4,
        s.len() != MESSAGE_META_WIRE_LEN <==> (r matches Err(e) && e is WrongLength),
{
}

} // verus!
