//! Durable side-effect identity and crash-recovery semantics.
//!
//! 1. derive one stable [`DurableEffectId`] before dispatch;
//! 2. journal a [`DurableEffectRecord::Prepared`] with that ID;
//! 3. execute the operation, passing the same ID as the deduplication key;
//! 4. journal [`DurableEffectRecord::Completed`] with the result;
//! 5. on recovery, replay a completed result without redispatch, otherwise
//!    follow the declared [`DeliverySemantics`].

use crate::bytes::{self, array32, bytes_eq, push_all, push_le, sub_bytes};
use crate::hashing::{self, blake3_hash, hex_encode};
use crate::text::{self, cat2, dec_of, str_eq, text};
use vstd::prelude::*;
use vstd::utf8::*;

verus! {

/// Who owns an effect's boundary.
#[derive(Debug, Clone, Copy, PartialEq, Eq, Structural)]
pub enum EffectBoundary {
    RuntimeOwned,
    BackendOwned,
    External,
}

/// What a dependency promises about repeated delivery.
#[derive(Debug, Clone, Copy, PartialEq, Eq, Structural)]
pub enum DeliverySemantics {
    AtLeastOnce,
    EffectivelyOnceWithDeduplication,
    BackendDefined,
}

/// Stable identity for one logical durable side effect.
#[derive(Debug, Clone, Copy, PartialEq, Eq, PartialOrd, Ord, Hash)]
pub struct DurableEffectId(pub [u8; 32]);

/// A byte string behind its length as eight little-endian bytes.
pub open spec fn sized64(s: Seq<u8>) -> Seq<u8> {
    bytes::le_bytes(s.len(), 8) + s
}

/// What is hashed for an effect identity.
pub open spec fn effect_preimage(
    actor_id: u64,
    execution_key: Seq<char>,
    effect_ordinal: u32,
    effect_operation: Seq<char>,
) -> Seq<u8> {
    encode_utf8("nulang.durable-effect.v1\0"@) + bytes::le_bytes(actor_id as nat, 8) + sized64(
        encode_utf8(execution_key),
    ) + bytes::le_bytes(effect_ordinal as nat, 4) + sized64(encode_utf8(effect_operation))
}

/// What is hashed for the identity of a compensation.
pub open spec fn compensation_preimage(
    original: Seq<u8>,
    compensation_ordinal: u32,
    effect_operation: Seq<char>,
) -> Seq<u8> {
    encode_utf8("nulang.durable-compensation.v1\0"@) + original + bytes::le_bytes(
        compensation_ordinal as nat,
        4,
    ) + sized64(encode_utf8(effect_operation))
}

/// Appends a byte string behind its eight-byte length.
pub fn push_sized64(out: &mut Vec<u8>, s: &[u8])
    ensures
        final(out)@ == old(out)@ + sized64(s@),
{
    push_le(out, s.len() as u64, 8);
    push_all(out, s);
    assert(out@ =~= old(out)@ + sized64(s@));
}

#[derive(Debug, Clone, Copy, PartialEq, Eq, Structural)]
pub enum DurableEffectIdParseError {
    InvalidLength { actual: usize },
    InvalidHex { index: usize },
}

impl DurableEffectIdParseError {
    pub fn to_string(&self) -> (r: String)
        ensures
            r@ == match self {
                DurableEffectIdParseError::InvalidLength { actual } =>
                    "durable effect id must contain exactly 64 hex characters, got "@ + text::dec(
                    *actual as nat,
                ),
                DurableEffectIdParseError::InvalidHex { index } =>
                    "invalid durable effect id hex at byte "@ + text::dec(*index as nat),
            },
    {
        match self {
            DurableEffectIdParseError::InvalidLength { actual } => cat2(
                "durable effect id must contain exactly 64 hex characters, got ",
                dec_of(*actual as u64).as_str(),
            ),
            DurableEffectIdParseError::InvalidHex { index } => cat2(
                "invalid durable effect id hex at byte ",
                dec_of(*index as u64).as_str(),
            ),
        }
    }
}

/// The value of a hexadecimal digit of either case.
fn decode_hex(byte: u8) -> (r: Option<u8>)
    ensures
        match r {
            Some(v) => hashing::is_hex_byte(byte) && v == hashing::hex_value(byte) && v < 16,
            None => !hashing::is_hex_byte(byte),
        },
{
    if 0x30 <= byte && byte <= 0x39 {
        Some(byte - 0x30)
    } else if 0x61 <= byte && byte <= 0x66 {
        Some(byte - 0x61 + 10)
    } else if 0x41 <= byte && byte <= 0x46 {
        Some(byte - 0x41 + 10)
    } else {
        None
    }
}

impl DurableEffectId {
    pub fn derive(
        actor_id: u64,
        execution_key: &str,
        effect_ordinal: u32,
        effect_operation: &str,
    ) -> (r: Self)
        ensures
            r.0@ == hashing::blake3_digest(
                effect_preimage(actor_id, execution_key@, effect_ordinal, effect_operation@),
            ),
    {
        let mut pre: Vec<u8> = Vec::new();
        push_all(&mut pre, "nulang.durable-effect.v1\0".as_bytes());
        push_le(&mut pre, actor_id, 8);
        push_sized64(&mut pre, execution_key.as_bytes());
        push_le(&mut pre, effect_ordinal as u64, 4);
        push_sized64(&mut pre, effect_operation.as_bytes());
        assert(pre@ =~= effect_preimage(
            actor_id,
            execution_key@,
            effect_ordinal,
            effect_operation@,
        ));
        DurableEffectId(blake3_hash(pre.as_slice()))
    }

    /// Identity of the compensation of this effect.
    pub fn derive_compensation(&self, compensation_ordinal: u32, effect_operation: &str) -> (r:
        Self)
        ensures
            r.0@ == hashing::blake3_digest(
                compensation_preimage(self.0@, compensation_ordinal, effect_operation@),
            ),
    {
        let mut pre: Vec<u8> = Vec::new();
        push_all(&mut pre, "nulang.durable-compensation.v1\0".as_bytes());
        push_all(&mut pre, self.0.as_slice());
        push_le(&mut pre, compensation_ordinal as u64, 4);
        push_sized64(&mut pre, effect_operation.as_bytes());
        assert(pre@ =~= compensation_preimage(self.0@, compensation_ordinal, effect_operation@));
        DurableEffectId(blake3_hash(pre.as_slice()))
    }

    pub fn as_bytes(&self) -> (r: &[u8; 32])
        ensures
            *r == self.0,
    {
        &self.0
    }

    /// Lower-case hexadecimal text.
    pub fn to_string(&self) -> (r: String)
        ensures
            r@ == hashing::hex_text(self.0@),
    {
        hex_encode(self.0.as_slice())
    }

    /// Canonical lowercase idempotency key suitable for an external API.
    pub fn idempotency_key(self) -> (r: String)
        ensures
            r@ == hashing::hex_text(self.0@),
    {
        self.to_string()
    }

    /// Reads an identity back from its hexadecimal text.
    pub fn parse(value: &str) -> (r: Result<Self, DurableEffectIdParseError>)
        ensures
            match r {
                Ok(id) => encode_utf8(value@).len() == 64 && hashing::hex_decoded(
                    encode_utf8(value@),
                ) == Some(id.0@),
                Err(DurableEffectIdParseError::InvalidLength { actual }) => encode_utf8(
                    value@,
                ).len() != 64 && actual == encode_utf8(value@).len(),
                Err(DurableEffectIdParseError::InvalidHex { index }) => encode_utf8(value@).len()
                    == 64 && index < 64 && !hashing::is_hex_byte(encode_utf8(value@)[index as int])
                    && forall|k: int|
                    0 <= k < index ==> hashing::is_hex_byte(#[trigger] encode_utf8(value@)[k]),
            },
    {
        let s: &[u8] = value.as_bytes();
        if s.len() != 64 {
            return Err(DurableEffectIdParseError::InvalidLength { actual: s.len() });
        }
        let ghost w = encode_utf8(value@);
        let mut out: Vec<u8> = Vec::new();
        let mut i: usize = 0;
        while i < 32
            invariant
                i <= 32,
                s@ == w,
                w == encode_utf8(value@),
                w.len() == 64,
                out@.len() == i,
                forall|k: int| 0 <= k < 2 * i ==> hashing::is_hex_byte(#[trigger] w[k]),
                forall|k: int|
                    0 <= k < i ==> #[trigger] out@[k] == (hashing::hex_value(w[2 * k]) * 16
                        + hashing::hex_value(w[2 * k + 1])) as u8,
            decreases 32 - i,
        {
            let hi: u8 = match decode_hex(s[2 * i]) {
                Some(v) => v,
                None => {
                    return Err(DurableEffectIdParseError::InvalidHex { index: 2 * i });
                },
            };
            let lo: u8 = match decode_hex(s[2 * i + 1]) {
                Some(v) => v,
                None => {
                    return Err(DurableEffectIdParseError::InvalidHex { index: 2 * i + 1 });
                },
            };
            out.push(hi * 16 + lo);
            i += 1;
        }
        let digest: [u8; 32] = array32(out.as_slice(), 0);
        assert(out@.subrange(0, 32) =~= out@);
        assert(hashing::hex_decoded(w)->0 =~= digest@);
        Ok(DurableEffectId(digest))
    }

    /// Whether two identities are equal.
    pub fn same(&self, other: &Self) -> (r: bool)
        ensures
            r == (self.0@ == other.0@),
    {
        bytes_eq(self.0.as_slice(), other.0.as_slice())
    }
}

/// Reading the text of an identity gives the identity back.
pub proof fn effect_id_round_trip(id: DurableEffectId)
    ensures
        encode_utf8(hashing::hex_text(id.0@)).len() == 64,
        hashing::hex_decoded(encode_utf8(hashing::hex_text(id.0@))) == Some(id.0@),
{
    hashing::hex_round_trip(id.0@);
    hashing::hex_text_bytes(id.0@);
}

/// The preimages of effect identities tell apart everything that identity
/// depends on.
#[verifier::spinoff_prover]
#[verifier::rlimit(60)]
pub proof fn effect_preimage_injective(
    actor_a: u64,
    key_a: Seq<char>,
    ordinal_a: u32,
    op_a: Seq<char>,
    actor_b: u64,
    key_b: Seq<char>,
    ordinal_b: u32,
    op_b: Seq<char>,
)
    requires
        encode_utf8(key_a).len() < 0x1_0000_0000_0000_0000,
        encode_utf8(key_b).len() < 0x1_0000_0000_0000_0000,
        effect_preimage(actor_a, key_a, ordinal_a, op_a) == effect_preimage(
            actor_b,
            key_b,
            ordinal_b,
            op_b,
        ),
    ensures
        actor_a == actor_b,
        key_a == key_b,
        ordinal_a == ordinal_b,
        op_a == op_b,
{
    let d = encode_utf8("nulang.durable-effect.v1\0"@);
    let ka = encode_utf8(key_a);
    let kb = encode_utf8(key_b);
    let oa = encode_utf8(op_a);
    let ob = encode_utf8(op_b);
    bytes::pow256_values();
    bytes::le_round_trip(actor_a as nat, 8);
    bytes::le_round_trip(actor_b as nat, 8);
    bytes::le_round_trip(ka.len(), 8);
    bytes::le_round_trip(kb.len(), 8);
    bytes::le_round_trip(ordinal_a as nat, 4);
    bytes::le_round_trip(ordinal_b as nat, 4);
    bytes::le_len(oa.len(), 8);
    bytes::le_len(ob.len(), 8);
    let x = effect_preimage(actor_a, key_a, ordinal_a, op_a).skip(d.len() as int);
    let y = effect_preimage(actor_b, key_b, ordinal_b, op_b).skip(d.len() as int);
    assert(x.take(8) =~= bytes::le_bytes(actor_a as nat, 8));
    assert(y.take(8) =~= bytes::le_bytes(actor_b as nat, 8));
    let x1 = x.skip(8);
    let y1 = y.skip(8);
    assert(x1.take(8) =~= bytes::le_bytes(ka.len(), 8));
    assert(y1.take(8) =~= bytes::le_bytes(kb.len(), 8));
    assert(ka.len() == kb.len());
    let x2 = x1.skip(8);
    let y2 = y1.skip(8);
    assert(x2.take(ka.len() as int) =~= ka);
    assert(y2.take(kb.len() as int) =~= kb);
    let x3 = x2.skip(ka.len() as int);
    let y3 = y2.skip(kb.len() as int);
    assert(x3.take(4) =~= bytes::le_bytes(ordinal_a as nat, 4));
    assert(y3.take(4) =~= bytes::le_bytes(ordinal_b as nat, 4));
    assert(x3.skip(4).skip(8) =~= oa);
    assert(y3.skip(4).skip(8) =~= ob);
    encode_utf8_decode_utf8(key_a);
    encode_utf8_decode_utf8(key_b);
    encode_utf8_decode_utf8(op_a);
    encode_utf8_decode_utf8(op_b);
}

/// The name of a boundary.
pub open spec fn boundary_name(b: EffectBoundary) -> Seq<char> {
    match b {
        EffectBoundary::RuntimeOwned => "RuntimeOwned"@,
        EffectBoundary::BackendOwned => "BackendOwned"@,
        EffectBoundary::External => "External"@,
    }
}

/// The name of a delivery guarantee.
pub open spec fn delivery_name(d: DeliverySemantics) -> Seq<char> {
    match d {
        DeliverySemantics::AtLeastOnce => "AtLeastOnce"@,
        DeliverySemantics::EffectivelyOnceWithDeduplication => "EffectivelyOnceWithDeduplication"@,
        DeliverySemantics::BackendDefined => "BackendDefined"@,
    }
}

/// The name of an effect boundary, see [`boundary_name`].
pub fn name_of_boundary(b: EffectBoundary) -> (r: &'static str)
    ensures
        r@ == boundary_name(b),
{
    match b {
        EffectBoundary::RuntimeOwned => "RuntimeOwned",
        EffectBoundary::BackendOwned => "BackendOwned",
        EffectBoundary::External => "External",
    }
}

/// The name of a delivery guarantee, see [`delivery_name`].
pub fn name_of_delivery(d: DeliverySemantics) -> (r: &'static str)
    ensures
        r@ == delivery_name(d),
{
    match d {
        DeliverySemantics::AtLeastOnce => "AtLeastOnce",
        DeliverySemantics::EffectivelyOnceWithDeduplication => "EffectivelyOnceWithDeduplication",
        DeliverySemantics::BackendDefined => "BackendDefined",
    }
}

/// Replay-stable description of one durable effect operation.
#[derive(Debug, Clone, PartialEq, Eq)]
pub struct DurableEffectSpec {
    pub id: DurableEffectId,
    pub effect_operation: String,
    pub boundary: EffectBoundary,
    pub delivery: DeliverySemantics,
}

/// What a specification says.
#[verifier::ext_equal]
pub struct SpecView {
    pub id: Seq<u8>,
    pub operation: Seq<char>,
    pub boundary: EffectBoundary,
    pub delivery: DeliverySemantics,
}

/// What a journal record says: a record without a result is prepared.
#[verifier::ext_equal]
pub struct RecordView {
    pub spec: SpecView,
    pub digest: Seq<u8>,
    pub result: Option<Seq<u8>>,
}

impl View for DurableEffectSpec {
    type V = SpecView;

    open spec fn view(&self) -> SpecView {
        SpecView {
            id: self.id.0@,
            operation: self.effect_operation@,
            boundary: self.boundary,
            delivery: self.delivery,
        }
    }
}

impl DurableEffectSpec {
    pub fn new(
        id: DurableEffectId,
        effect_operation: &str,
        boundary: EffectBoundary,
        delivery: DeliverySemantics,
    ) -> (r: Self)
        ensures
            r.id == id,
            r@ == (SpecView { id: id.0@, operation: effect_operation@, boundary, delivery }),
    {
        DurableEffectSpec { id, effect_operation: text(effect_operation), boundary, delivery }
    }

    /// Owned copy.
    pub fn copied(&self) -> (r: Self)
        ensures
            r == *self,
    {
        DurableEffectSpec {
            id: self.id,
            effect_operation: self.effect_operation.clone(),
            boundary: self.boundary,
            delivery: self.delivery,
        }
    }

    /// Whether two specifications say the same.
    pub fn same(&self, other: &Self) -> (r: bool)
        ensures
            r == (self@ == other@),
    {
        let r: bool = self.id.same(&other.id) && str_eq(
            self.effect_operation.as_str(),
            other.effect_operation.as_str(),
        ) && self.boundary == other.boundary && self.delivery == other.delivery;
        assert(r ==> self@ =~= other@);
        r
    }
}

/// Durable journal state for one logical effect.
///
/// There is no `Dispatched` state: `Prepared` means "completion is not durably
/// known".
#[derive(Debug, Clone, PartialEq, Eq)]
pub enum DurableEffectRecord {
    Prepared { spec: DurableEffectSpec, request_digest: [u8; 32] },
    Completed { spec: DurableEffectSpec, request_digest: [u8; 32], result: Vec<u8> },
}

impl View for DurableEffectRecord {
    type V = RecordView;

    open spec fn view(&self) -> RecordView {
        match self {
            DurableEffectRecord::Prepared { spec, request_digest } => RecordView {
                spec: spec@,
                digest: request_digest@,
                result: None,
            },
            DurableEffectRecord::Completed { spec, request_digest, result } => RecordView {
                spec: spec@,
                digest: request_digest@,
                result: Some(result@),
            },
        }
    }
}

/// Recovery decision for a durable effect journal record.
#[derive(Debug, Clone, Copy, PartialEq, Eq)]
pub enum DurableEffectRecoveryAction<'a> {
    /// Completion is already journaled: return the recorded bytes and do not
    /// execute the side effect again.
    ReplayRecordedResult(&'a [u8]),
    /// Completion is unknown and duplicates are permitted.
    RetryAtLeastOnce { operation_id: DurableEffectId },
    /// Completion is unknown but the dependency deduplicates by this identity.
    RetryWithDeduplication { operation_id: DurableEffectId },
    /// The configured backend owns the recovery guarantee and must decide.
    DelegateToBackend,
}

/// A recovery decision by what it says.
pub enum ActionView {
    Replay(Seq<u8>),
    RetryAtLeastOnce(Seq<u8>),
    RetryWithDeduplication(Seq<u8>),
    DelegateToBackend,
}

impl<'a> DurableEffectRecoveryAction<'a> {
    pub open spec fn what(self) -> ActionView {
        match self {
            DurableEffectRecoveryAction::ReplayRecordedResult(r) => ActionView::Replay(r@),
            DurableEffectRecoveryAction::RetryAtLeastOnce { operation_id } =>
                ActionView::RetryAtLeastOnce(operation_id.0@),
            DurableEffectRecoveryAction::RetryWithDeduplication { operation_id } =>
                ActionView::RetryWithDeduplication(operation_id.0@),
            DurableEffectRecoveryAction::DelegateToBackend => ActionView::DelegateToBackend,
        }
    }
}

/// What recovery is allowed to do: a completed result is replayed; otherwise
/// the declared delivery semantics decide.
pub open spec fn recovery(record: RecordView) -> ActionView {
    match record.result {
        Some(result) => ActionView::Replay(result),
        None => match record.spec.delivery {
            DeliverySemantics::BackendDefined => ActionView::DelegateToBackend,
            DeliverySemantics::AtLeastOnce => ActionView::RetryAtLeastOnce(record.spec.id),
            DeliverySemantics::EffectivelyOnceWithDeduplication =>
                ActionView::RetryWithDeduplication(record.spec.id),
        },
    }
}

/// The record with a result.
pub open spec fn completed(record: RecordView, result: Seq<u8>) -> RecordView {
    RecordView { result: Some(result), ..record }
}

/// The prepared record of a request.
pub open spec fn prepared(spec: SpecView, request: Seq<u8>) -> RecordView {
    RecordView { spec, digest: hashing::blake3_digest(request), result: None }
}

/// A request that differs from the journaled one.
#[derive(Debug, Clone, Copy, PartialEq, Eq)]
pub struct DurableEffectRequestMismatch {
    pub effect_id: DurableEffectId,
    pub expected_digest: [u8; 32],
    pub actual_digest: [u8; 32],
}

impl DurableEffectRequestMismatch {
    pub open spec fn spec_text(self) -> Seq<char> {
        "durable effect "@ + hashing::hex_text(self.effect_id.0@)
            + " request does not match its journaled request"@
    }

    pub fn to_string(&self) -> (r: String)
        ensures
            r@ == self.spec_text(),
    {
        crate::text::cat3(
            "durable effect ",
            self.effect_id.to_string().as_str(),
            " request does not match its journaled request",
        )
    }
}

/// Why an effect cannot be compensated.
#[derive(Debug, Clone, Copy, PartialEq, Eq, Structural)]
pub enum DurableCompensationError {
    /// Completion of the original effect is not durably known.
    OriginalNotCompleted,
}

/// Journal record of an effect that undoes an earlier one.
#[derive(Debug, Clone, PartialEq, Eq)]
pub struct DurableCompensationRecord {
    pub original: DurableEffectId,
    pub ordinal: u32,
    pub effect: DurableEffectRecord,
}

impl DurableCompensationRecord {
    pub fn original_effect_id(&self) -> (r: DurableEffectId)
        ensures
            r == self.original,
    {
        self.original
    }

    pub fn compensation_ordinal(&self) -> (r: u32)
        ensures
            r == self.ordinal,
    {
        self.ordinal
    }

    pub fn effect(&self) -> (r: &DurableEffectRecord)
        ensures
            *r == self.effect,
    {
        &self.effect
    }

    pub fn compensation_id(&self) -> (r: DurableEffectId)
        ensures
            r.0@ == self.effect@.spec.id,
    {
        self.effect.spec().id
    }
}

impl DurableEffectRecord {
    pub fn prepare(spec: DurableEffectSpec, request: &[u8]) -> (r: Self)
        ensures
            r@ == prepared(spec@, request@),
            r is Prepared,
            r->Prepared_spec == spec,
    {
        DurableEffectRecord::Prepared { spec, request_digest: blake3_hash(request) }
    }

    pub fn spec(&self) -> (r: &DurableEffectSpec)
        ensures
            r@ == self@.spec,
            self matches DurableEffectRecord::Prepared { spec, .. } ==> *r == spec,
            self matches DurableEffectRecord::Completed { spec, .. } ==> *r == spec,
    {
        match self {
            DurableEffectRecord::Prepared { spec, .. } => spec,
            DurableEffectRecord::Completed { spec, .. } => spec,
        }
    }

    pub fn request_digest(&self) -> (r: &[u8; 32])
        ensures
            r@ == self@.digest,
    {
        match self {
            DurableEffectRecord::Prepared { request_digest, .. } => request_digest,
            DurableEffectRecord::Completed { request_digest, .. } => request_digest,
        }
    }

    /// Commit a result for the already-prepared logical operation.
    pub fn complete(self, result: Vec<u8>) -> (r: Self)
        ensures
            r@ == completed(self@, result@),
            r is Completed,
    {
        match self {
            DurableEffectRecord::Prepared { spec, request_digest } =>
                DurableEffectRecord::Completed { spec, request_digest, result },
            DurableEffectRecord::Completed { spec, request_digest, result: _ } =>
                DurableEffectRecord::Completed { spec, request_digest, result },
        }
    }

    /// Owned copy.
    pub fn copied(&self) -> (r: Self)
        ensures
            r@ == self@,
    {
        match self {
            DurableEffectRecord::Prepared { spec, request_digest } =>
                DurableEffectRecord::Prepared {
                spec: spec.copied(),
                request_digest: *request_digest,
            },
            DurableEffectRecord::Completed { spec, request_digest, result } => {
                let copy: Vec<u8> = sub_bytes(result.as_slice(), 0, result.len());
                assert(copy@ =~= result@);
                DurableEffectRecord::Completed {
                    spec: spec.copied(),
                    request_digest: *request_digest,
                    result: copy,
                }
            },
        }
    }

    /// Decide what recovery is allowed to do after a crash.
    pub fn recovery_action<'a>(&'a self) -> (r: DurableEffectRecoveryAction<'a>)
        ensures
            r.what() == recovery(self@),
    {
        match self {
            DurableEffectRecord::Completed { result, .. } =>
                DurableEffectRecoveryAction::ReplayRecordedResult(result.as_slice()),
            DurableEffectRecord::Prepared { spec, .. } => match spec.delivery {
                DeliverySemantics::BackendDefined =>
                    DurableEffectRecoveryAction::DelegateToBackend,
                DeliverySemantics::AtLeastOnce => DurableEffectRecoveryAction::RetryAtLeastOnce {
                    operation_id: spec.id,
                },
                DeliverySemantics::EffectivelyOnceWithDeduplication =>
                    DurableEffectRecoveryAction::RetryWithDeduplication { operation_id: spec.id },
            },
        }
    }

    /// Check that a request is the journaled one.
    pub fn validate_request(&self, request: &[u8]) -> (r: Result<(), DurableEffectRequestMismatch>)
        ensures
            r is Ok <==> hashing::blake3_digest(request@) == self@.digest,
            r matches Err(e) ==> e.effect_id.0@ == self@.spec.id && e.expected_digest@
                == self@.digest && e.actual_digest@ == hashing::blake3_digest(request@),
    {
        let actual: [u8; 32] = blake3_hash(request);
        let expected: [u8; 32] = *self.request_digest();
        if bytes_eq(actual.as_slice(), expected.as_slice()) {
            Ok(())
        } else {
            Err(
                DurableEffectRequestMismatch {
                    effect_id: self.spec().id,
                    expected_digest: expected,
                    actual_digest: actual,
                },
            )
        }
    }

    /// Recovery decision for a request, failing closed when the request is not
    /// the journaled one.
    pub fn recovery_action_for_request<'a>(&'a self, request: &[u8]) -> (r: Result<
        DurableEffectRecoveryAction<'a>,
        DurableEffectRequestMismatch,
    >)
        ensures
            r is Ok <==> hashing::blake3_digest(request@) == self@.digest,
            r matches Ok(a) ==> a.what() == recovery(self@),
            r matches Err(e) ==> e.effect_id.0@ == self@.spec.id && e.expected_digest@
                == self@.digest && e.actual_digest@ == hashing::blake3_digest(request@),
    {
        match self.validate_request(request) {
            Ok(_) => Ok(self.recovery_action()),
            Err(e) => Err(e),
        }
    }

    /// Prepare the effect that undoes this completed one.
    pub fn prepare_compensation(
        &self,
        compensation_ordinal: u32,
        effect_operation: &str,
        boundary: EffectBoundary,
        delivery: DeliverySemantics,
        request: &[u8],
    ) -> (r: Result<DurableCompensationRecord, DurableCompensationError>)
        ensures
            r is Ok <==> self@.result is Some,
            r matches Ok(c) ==> c.original.0@ == self@.spec.id && c.ordinal == compensation_ordinal
                && c.effect@ == prepared(
                SpecView {
                    id: hashing::blake3_digest(
                        compensation_preimage(
                            self@.spec.id,
                            compensation_ordinal,
                            effect_operation@,
                        ),
                    ),
                    operation: effect_operation@,
                    boundary,
                    delivery,
                },
                request@,
            ),
    {
        match self {
            DurableEffectRecord::Prepared { .. } => Err(
                DurableCompensationError::OriginalNotCompleted,
            ),
            DurableEffectRecord::Completed { spec, .. } => {
                let id: DurableEffectId = spec.id.derive_compensation(
                    compensation_ordinal,
                    effect_operation,
                );
                let effect: DurableEffectRecord = DurableEffectRecord::prepare(
                    DurableEffectSpec::new(id, effect_operation, boundary, delivery),
                    request,
                );
                Ok(
                    DurableCompensationRecord {
                        original: spec.id,
                        ordinal: compensation_ordinal,
                        effect,
                    },
                )
            },
        }
    }
}

/// Completion keeps identity and request, and from then on recovery replays
/// the recorded result instead of dispatching again.
pub proof fn completed_effect_is_replayed(record: RecordView, result: Seq<u8>)
    ensures
        completed(record, result).spec == record.spec,
        completed(record, result).digest == record.digest,
        recovery(completed(record, result)) == ActionView::Replay(result),
{
}

/// A retry always reuses the operation identity of the prepared effect.
pub proof fn retry_reuses_operation_id(record: RecordView)
    requires
        record.result is None,
    ensures
        match recovery(record) {
            ActionView::RetryAtLeastOnce(id) => id == record.spec.id,
            ActionView::RetryWithDeduplication(id) => id == record.spec.id,
            ActionView::DelegateToBackend => record.spec.delivery
                == DeliverySemantics::BackendDefined,
            ActionView::Replay(_) => false,
        },
{
}

/// What is done about an effect after a restart follows from what was promised: a
/// recorded result is replayed, an effect promised at least once is tried again,
/// one with deduplication is tried again under its identity, and one that its
/// backend defines is left to the backend.
pub proof fn recovery_follows_the_promise(record: RecordView)
    ensures
        recovery(record) is Replay <==> record.result is Some,
        recovery(record) matches ActionView::Replay(r) ==> record.result == Some(r),
        recovery(record) is RetryAtLeastOnce <==> record.result is None
            && record.spec.delivery is AtLeastOnce,
        recovery(record) is RetryWithDeduplication <==> record.result is None
            && record.spec.delivery is EffectivelyOnceWithDeduplication,
        recovery(record) is DelegateToBackend <==> record.result is None
            && record.spec.delivery is BackendDefined,
{
}

/// A prepared effect has no result and the digest of its request; completing it
/// adds the result and changes nothing else.
pub proof fn completing_adds_the_result(spec: SpecView, request: Seq<u8>, result: Seq<u8>)
    ensures
        ({
            let p = prepared(spec, request);
            let c = completed(p, result);
            &&& p.result is None && p.spec == spec && p.digest == hashing::blake3_digest(request)
            &&& c.result == Some(result) && c.spec == spec && c.digest == p.digest
            &&& !(recovery(p) is Replay) && recovery(c) == ActionView::Replay(result)
        }),
{
}

/// Compensations that are derived from the same bytes undo the same effect, at
/// the same place and by the same operation.
pub proof fn compensations_have_their_own_identity(
    original_a: Seq<u8>,
    ordinal_a: u32,
    op_a: Seq<char>,
    original_b: Seq<u8>,
    ordinal_b: u32,
    op_b: Seq<char>,
)
    requires
        original_a.len() == original_b.len(),
        compensation_preimage(original_a, ordinal_a, op_a) == compensation_preimage(
            original_b,
            ordinal_b,
            op_b,
        ),
    ensures
        original_a == original_b,
        ordinal_a == ordinal_b,
        op_a == op_b,
{
    let d = encode_utf8("nulang.durable-compensation.v1\0"@);
    let n = original_a.len() as int;
    let (oa, ob) = (encode_utf8(op_a), encode_utf8(op_b));
    bytes::pow256_values();
    bytes::le_round_trip(ordinal_a as nat, 4);
    bytes::le_round_trip(ordinal_b as nat, 4);
    bytes::le_len(oa.len(), 8);
    bytes::le_len(ob.len(), 8);
    let x = compensation_preimage(original_a, ordinal_a, op_a).skip(d.len() as int);
    let y = compensation_preimage(original_b, ordinal_b, op_b).skip(d.len() as int);
    assert(x.take(n) =~= original_a);
    assert(y.take(n) =~= original_b);
    let (x1, y1) = (x.skip(n), y.skip(n));
    assert(x1.take(4) =~= bytes::le_bytes(ordinal_a as nat, 4));
    assert(y1.take(4) =~= bytes::le_bytes(ordinal_b as nat, 4));
    assert(x1.skip(12) =~= oa);
    assert(y1.skip(12) =~= ob);
    encode_utf8_decode_utf8(op_a);
    encode_utf8_decode_utf8(op_b);
}

} // verus!
