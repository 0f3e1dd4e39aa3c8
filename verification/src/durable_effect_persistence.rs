//! Versioned persistence envelope for durable external-effect records.
//!
//! The types here are the durable shape of a record. Its JSON text is written
//! here; reading untrusted JSON into the shape is left to the storage
//! integration.

use crate::bytes::{push_all, sub_bytes};
use crate::durable_effect::{self, DeliverySemantics, DurableCompensationRecord, DurableEffectId, DurableEffectRecord, DurableEffectSpec, EffectBoundary};
use crate::hashing;
use crate::json::{self, push_number_field, push_text_field};
use crate::text::{self, cat2, cat4, dec_of, join, text};
use vstd::prelude::*;
use vstd::utf8::*;

verus! {

pub const DURABLE_EFFECT_PERSISTENCE_VERSION: u16 = 1;

/// A durable effect restored from the versioned persistence envelope.
#[derive(Debug, Clone, PartialEq, Eq)]
pub enum DurableEffectPersistenceRecord {
    Effect(DurableEffectRecord),
    Compensation {
        original_effect_id: DurableEffectId,
        compensation_ordinal: u32,
        effect: DurableEffectRecord,
    },
}

/// What a persistence record says: the effect and, for a compensation, the
/// original effect and the ordinal.
#[verifier::ext_equal]
pub struct PersistView {
    pub effect: durable_effect::RecordView,
    pub compensates: Option<(Seq<u8>, u32)>,
}

impl View for DurableEffectPersistenceRecord {
    type V = PersistView;

    open spec fn view(&self) -> PersistView {
        match self {
            DurableEffectPersistenceRecord::Effect(effect) => PersistView {
                effect: effect@,
                compensates: None,
            },
            DurableEffectPersistenceRecord::Compensation {
                original_effect_id,
                compensation_ordinal,
                effect,
            } => PersistView {
                effect: effect@,
                compensates: Some((original_effect_id.0@, *compensation_ordinal)),
            },
        }
    }
}

#[derive(Debug, Clone, PartialEq, Eq)]
pub enum DurableEffectPersistenceError {
    Json(String),
    UnsupportedVersion { actual: u16 },
    InvalidEffectId(String),
    CompensationIdentityMismatch { expected: DurableEffectId, actual: DurableEffectId },
}

impl DurableEffectPersistenceError {
    pub fn to_string(&self) -> (r: String)
        ensures
            r@ == match self {
                DurableEffectPersistenceError::Json(m) =>
                    "invalid durable effect persistence data: "@ + m@,
                DurableEffectPersistenceError::UnsupportedVersion { actual } =>
                    "unsupported durable effect persistence version "@ + text::dec(*actual as nat)
                    + "; runtime supports version "@ + text::dec(1),
                DurableEffectPersistenceError::InvalidEffectId(v) =>
                    "invalid durable effect id in persistence data: "@ + v@,
                DurableEffectPersistenceError::CompensationIdentityMismatch { expected, actual } =>
                    "persisted compensation identity mismatch: expected "@ + hashing::hex_text(
                    expected.0@,
                ) + ", got "@ + hashing::hex_text(actual.0@),
            },
    {
        match self {
            DurableEffectPersistenceError::Json(m) => cat2(
                "invalid durable effect persistence data: ",
                m.as_str(),
            ),
            DurableEffectPersistenceError::UnsupportedVersion { actual } => cat4(
                "unsupported durable effect persistence version ",
                dec_of(*actual as u64).as_str(),
                "; runtime supports version ",
                dec_of(DURABLE_EFFECT_PERSISTENCE_VERSION as u64).as_str(),
            ),
            DurableEffectPersistenceError::InvalidEffectId(v) => cat2(
                "invalid durable effect id in persistence data: ",
                v.as_str(),
            ),
            DurableEffectPersistenceError::CompensationIdentityMismatch { expected, actual } => cat4(
                "persisted compensation identity mismatch: expected ",
                expected.to_string().as_str(),
                ", got ",
                actual.to_string().as_str(),
            ),
        }
    }
}

/// Byte values as a JSON list.
pub open spec fn bytes_json(b: Seq<u8>) -> Seq<char> {
    "["@ + text::joined(b.map_values(|x: u8| text::dec(x as nat)), ","@) + "]"@
}

/// A specification as compact JSON.
pub open spec fn spec_json(s: durable_effect::SpecView) -> Seq<char> {
    json::text_field("{\"id\""@, hashing::hex_text(s.id)) + json::text_field(
        ",\"effect_operation\""@,
        s.operation,
    ) + json::text_field(",\"boundary\""@, durable_effect::boundary_name(s.boundary))
        + json::text_field(",\"delivery\""@, durable_effect::delivery_name(s.delivery)) + "}"@
}

/// An effect record as compact JSON, tagged with its state.
pub open spec fn effect_json(e: durable_effect::RecordView) -> Seq<char> {
    (if e.result is Some {
        "{\"state\":\"Completed\",\"value\":{\"spec\":"@
    } else {
        "{\"state\":\"Prepared\",\"value\":{\"spec\":"@
    }) + spec_json(e.spec) + ",\"request_digest\":"@ + bytes_json(e.digest) + (match e.result {
        Some(v) => ",\"result\":"@ + bytes_json(v),
        None => Seq::empty(),
    }) + "}}"@
}

/// A persistence record as versioned compact JSON, tagged with its kind.
pub open spec fn record_json(p: PersistView) -> Seq<char> {
    json::number_field("{\"version\""@, DURABLE_EFFECT_PERSISTENCE_VERSION as nat)
        + ",\"record\":"@ + (match p.compensates {
        None => "{\"kind\":\"Effect\",\"value\":"@ + effect_json(p.effect) + "}"@,
        Some((original, ordinal)) => json::text_field(
            "{\"kind\":\"Compensation\",\"value\":{\"original_effect_id\""@,
            hashing::hex_text(original),
        ) + json::number_field(",\"compensation_ordinal\""@, ordinal as nat) + ",\"effect\":"@
            + effect_json(p.effect) + "}}"@,
    }) + "}"@
}

fn push_bytes(out: &mut String, b: &[u8])
    ensures
        final(out)@ == old(out)@ + bytes_json(b@),
{
    let ghost want = b@.map_values(|x: u8| text::dec(x as nat));
    let mut items: Vec<String> = Vec::new();
    let mut i: usize = 0;
    assert(text::views(items@) =~= want.take(0));
    while i < b.len()
        invariant
            i <= b@.len(),
            want == b@.map_values(|x: u8| text::dec(x as nat)),
            text::views(items@) == want.take(i as int),
        decreases b@.len() - i,
    {
        let ghost before = text::views(items@);
        items.push(dec_of(b[i] as u64));
        i += 1;
        assert(text::views(items@) =~= before.push(want[i - 1]));
        assert(text::views(items@) =~= want.take(i as int));
    }
    assert(want.take(i as int) =~= want);
    out.append("[");
    out.append(join(&items, ",").as_str());
    out.append("]");
    assert(out@ =~= old(out)@ + bytes_json(b@));
}

fn push_spec(out: &mut String, s: &DurableEffectSpec)
    ensures
        final(out)@ == old(out)@ + spec_json(s@),
{
    push_text_field(out, "{\"id\"", s.id.to_string().as_str());
    push_text_field(out, ",\"effect_operation\"", s.effect_operation.as_str());
    push_text_field(out, ",\"boundary\"", durable_effect::name_of_boundary(s.boundary));
    push_text_field(out, ",\"delivery\"", durable_effect::name_of_delivery(s.delivery));
    out.append("}");
    assert(out@ =~= old(out)@ + spec_json(s@));
}

fn push_effect(out: &mut String, record: &DurableEffectRecord)
    ensures
        final(out)@ == old(out)@ + effect_json(record@),
{
    match record {
        DurableEffectRecord::Prepared { spec, request_digest } => {
            out.append("{\"state\":\"Prepared\",\"value\":{\"spec\":");
            push_spec(out, spec);
            out.append(",\"request_digest\":");
            push_bytes(out, request_digest.as_slice());
        },
        DurableEffectRecord::Completed { spec, request_digest, result } => {
            out.append("{\"state\":\"Completed\",\"value\":{\"spec\":");
            push_spec(out, spec);
            out.append(",\"request_digest\":");
            push_bytes(out, request_digest.as_slice());
            out.append(",\"result\":");
            push_bytes(out, result.as_slice());
        },
    }
    out.append("}}");
    assert(out@ =~= old(out)@ + effect_json(record@));
}

/// The durable shape of a specification.
#[derive(Debug, Clone, PartialEq, Eq)]
pub struct PersistedEffectSpecV1 {
    pub id: String,
    pub effect_operation: String,
    pub boundary: EffectBoundary,
    pub delivery: DeliverySemantics,
}

/// The durable shape of an effect record.
#[derive(Debug, Clone, PartialEq, Eq)]
pub struct PersistedEffectRecordV1 {
    pub spec: PersistedEffectSpecV1,
    pub request_digest: [u8; 32],
    /// The result of a completed effect; absent while it is prepared.
    pub result: Option<Vec<u8>>,
}

/// The durable shape of a persistence record.
#[derive(Debug, Clone, PartialEq, Eq)]
pub enum PersistedRecordKindV1 {
    Effect(PersistedEffectRecordV1),
    Compensation {
        original_effect_id: String,
        compensation_ordinal: u32,
        effect: PersistedEffectRecordV1,
    },
}

/// The durable envelope.
#[derive(Debug, Clone, PartialEq, Eq)]
pub struct PersistedEnvelopeV1 {
    pub version: u16,
    pub record: PersistedRecordKindV1,
}

/// The identity that a text of 64 hexadecimal characters stands for.
pub open spec fn id_of_text(s: Seq<char>) -> Option<Seq<u8>> {
    if encode_utf8(s).len() == 64 {
        hashing::hex_decoded(encode_utf8(s))
    } else {
        None
    }
}

impl PersistedEffectSpecV1 {
    /// Whether this is the durable shape of `spec`.
    pub open spec fn shapes(self, spec: durable_effect::SpecView) -> bool {
        &&& self.id@ == hashing::hex_text(spec.id)
        &&& self.effect_operation@ == spec.operation
        &&& self.boundary == spec.boundary
        &&& self.delivery == spec.delivery
    }

    fn from_runtime(spec: &DurableEffectSpec) -> (r: Self)
        ensures
            r.shapes(spec@),
    {
        PersistedEffectSpecV1 {
            id: spec.id.to_string(),
            effect_operation: spec.effect_operation.clone(),
            boundary: spec.boundary,
            delivery: spec.delivery,
        }
    }

    /// The specification that this shape stands for.
    pub open spec fn meaning(self) -> Option<durable_effect::SpecView> {
        match id_of_text(self.id@) {
            Some(id) => Some(
                durable_effect::SpecView {
                    id,
                    operation: self.effect_operation@,
                    boundary: self.boundary,
                    delivery: self.delivery,
                },
            ),
            None => None,
        }
    }

    fn into_runtime(self) -> (r: Result<DurableEffectSpec, DurableEffectPersistenceError>)
        ensures
            match r {
                Ok(spec) => self.meaning() == Some(spec@),
                Err(e) => self.meaning() is None && (e matches
                    DurableEffectPersistenceError::InvalidEffectId(v) && v@ == self.id@),
            },
    {
        match DurableEffectId::parse(self.id.as_str()) {
            Ok(id) => Ok(
                DurableEffectSpec::new(
                    id,
                    self.effect_operation.as_str(),
                    self.boundary,
                    self.delivery,
                ),
            ),
            Err(_) => Err(DurableEffectPersistenceError::InvalidEffectId(self.id)),
        }
    }
}

impl PersistedEffectRecordV1 {
    /// Whether this is the durable shape of `record`.
    pub open spec fn shapes(self, record: durable_effect::RecordView) -> bool {
        &&& self.spec.shapes(record.spec)
        &&& self.request_digest@ == record.digest
        &&& record.result == match self.result {
            Some(v) => Some(v@),
            None => None,
        }
    }

    /// The record that this shape stands for.
    pub open spec fn meaning(self) -> Option<durable_effect::RecordView> {
        match self.spec.meaning() {
            Some(spec) => Some(
                durable_effect::RecordView {
                    spec,
                    digest: self.request_digest@,
                    result: match self.result {
                        Some(v) => Some(v@),
                        None => None,
                    },
                },
            ),
            None => None,
        }
    }

    fn from_runtime(record: &DurableEffectRecord) -> (r: Self)
        ensures
            r.shapes(record@),
    {
        match record {
            DurableEffectRecord::Prepared { spec, request_digest } => PersistedEffectRecordV1 {
                spec: PersistedEffectSpecV1::from_runtime(spec),
                request_digest: *request_digest,
                result: None,
            },
            DurableEffectRecord::Completed { spec, request_digest, result } => {
                let copy: Vec<u8> = sub_bytes(result.as_slice(), 0, result.len());
                assert(copy@ =~= result@);
                PersistedEffectRecordV1 {
                    spec: PersistedEffectSpecV1::from_runtime(spec),
                    request_digest: *request_digest,
                    result: Some(copy),
                }
            },
        }
    }

    fn into_runtime(self) -> (r: Result<DurableEffectRecord, DurableEffectPersistenceError>)
        ensures
            match r {
                Ok(record) => self.meaning() == Some(record@),
                Err(e) => self.meaning() is None && (e matches
                    DurableEffectPersistenceError::InvalidEffectId(v) && v@ == self.spec.id@),
            },
    {
        let spec: DurableEffectSpec = match self.spec.into_runtime() {
            Ok(s) => s,
            Err(e) => {
                return Err(e);
            },
        };
        match self.result {
            None => Ok(
                DurableEffectRecord::Prepared { spec, request_digest: self.request_digest },
            ),
            Some(result) => Ok(
                DurableEffectRecord::Completed {
                    spec,
                    request_digest: self.request_digest,
                    result,
                },
            ),
        }
    }
}

/// Whether a compensation carries the identity derived from its original
/// effect, its ordinal and its operation.
pub open spec fn compensation_identity_holds(
    original: Seq<u8>,
    ordinal: u32,
    effect: durable_effect::RecordView,
) -> bool {
    effect.spec.id == hashing::blake3_digest(
        durable_effect::compensation_preimage(original, ordinal, effect.spec.operation),
    )
}

impl PersistedRecordKindV1 {
    /// Whether this is the durable shape of `record`.
    pub open spec fn shapes(self, record: PersistView) -> bool {
        match self {
            PersistedRecordKindV1::Effect(effect) => record.compensates is None && effect.shapes(
                record.effect,
            ),
            PersistedRecordKindV1::Compensation {
                original_effect_id,
                compensation_ordinal,
                effect,
            } => record.compensates is Some && original_effect_id@ == hashing::hex_text(
                (record.compensates->0).0,
            ) && compensation_ordinal == (record.compensates->0).1 && effect.shapes(record.effect),
        }
    }

    /// The record that this shape stands for, if every identity in it is sound.
    pub open spec fn meaning(self) -> Option<PersistView> {
        match self {
            PersistedRecordKindV1::Effect(effect) => match effect.meaning() {
                Some(m) => Some(PersistView { effect: m, compensates: None }),
                None => None,
            },
            PersistedRecordKindV1::Compensation {
                original_effect_id,
                compensation_ordinal,
                effect,
            } => match (id_of_text(original_effect_id@), effect.meaning()) {
                (Some(original), Some(m)) => if compensation_identity_holds(
                    original,
                    compensation_ordinal,
                    m,
                ) {
                    Some(
                        PersistView { effect: m, compensates: Some((original, compensation_ordinal)) },
                    )
                } else {
                    None
                },
                _ => None,
            },
        }
    }

    fn from_runtime(record: &DurableEffectPersistenceRecord) -> (r: Self)
        ensures
            r.shapes(record@),
    {
        match record {
            DurableEffectPersistenceRecord::Effect(effect) => PersistedRecordKindV1::Effect(
                PersistedEffectRecordV1::from_runtime(effect),
            ),
            DurableEffectPersistenceRecord::Compensation {
                original_effect_id,
                compensation_ordinal,
                effect,
            } => PersistedRecordKindV1::Compensation {
                original_effect_id: original_effect_id.to_string(),
                compensation_ordinal: *compensation_ordinal,
                effect: PersistedEffectRecordV1::from_runtime(effect),
            },
        }
    }

    /// Whether an error is the one that reading this shape gives.
    pub open spec fn explains(self, e: DurableEffectPersistenceError) -> bool {
        match self {
            PersistedRecordKindV1::Effect(effect) => e matches
                DurableEffectPersistenceError::InvalidEffectId(v) && v@ == effect.spec.id@,
            PersistedRecordKindV1::Compensation {
                original_effect_id,
                compensation_ordinal,
                effect,
            } => if id_of_text(original_effect_id@) is None {
                e matches DurableEffectPersistenceError::InvalidEffectId(v) && v@
                    == original_effect_id@
            } else if effect.meaning() is None {
                e matches DurableEffectPersistenceError::InvalidEffectId(v) && v@ == effect.spec.id@
            } else {
                e matches DurableEffectPersistenceError::CompensationIdentityMismatch {
                    expected,
                    actual,
                } && actual.0@ == (effect.meaning()->0).spec.id && expected.0@
                    == hashing::blake3_digest(
                    durable_effect::compensation_preimage(
                        id_of_text(original_effect_id@)->0,
                        compensation_ordinal,
                        (effect.meaning()->0).spec.operation,
                    ),
                )
            },
        }
    }

    fn into_runtime(self) -> (r: Result<
        DurableEffectPersistenceRecord,
        DurableEffectPersistenceError,
    >)
        ensures
            match r {
                Ok(record) => self.meaning() == Some(record@),
                Err(e) => self.meaning() is None && self.explains(e),
            },
    {
        match self {
            PersistedRecordKindV1::Effect(effect) => match effect.into_runtime() {
                Ok(e) => Ok(DurableEffectPersistenceRecord::Effect(e)),
                Err(e) => Err(e),
            },
            PersistedRecordKindV1::Compensation {
                original_effect_id,
                compensation_ordinal,
                effect,
            } => {
                let original: DurableEffectId = match DurableEffectId::parse(
                    original_effect_id.as_str(),
                ) {
                    Ok(id) => id,
                    Err(_) => {
                        return Err(
                            DurableEffectPersistenceError::InvalidEffectId(original_effect_id),
                        );
                    },
                };
                let effect: DurableEffectRecord = match effect.into_runtime() {
                    Ok(e) => e,
                    Err(e) => {
                        return Err(e);
                    },
                };
                let actual: DurableEffectId = effect.spec().id;
                let expected: DurableEffectId = original.derive_compensation(
                    compensation_ordinal,
                    effect.spec().effect_operation.as_str(),
                );
                if !actual.same(&expected) {
                    return Err(
                        DurableEffectPersistenceError::CompensationIdentityMismatch {
                            expected,
                            actual,
                        },
                    );
                }
                Ok(
                    DurableEffectPersistenceRecord::Compensation {
                        original_effect_id: original,
                        compensation_ordinal,
                        effect,
                    },
                )
            },
        }
    }
}

impl DurableEffectPersistenceRecord {
    pub fn from_effect(record: DurableEffectRecord) -> (r: Self)
        ensures
            r@ == (PersistView { effect: record@, compensates: None }),
            r == DurableEffectPersistenceRecord::Effect(record),
    {
        DurableEffectPersistenceRecord::Effect(record)
    }

    pub fn from_compensation(record: &DurableCompensationRecord) -> (r: Self)
        ensures
            r@ == (PersistView {
                effect: record.effect@,
                compensates: Some((record.original.0@, record.ordinal)),
            }),
    {
        DurableEffectPersistenceRecord::Compensation {
            original_effect_id: record.original_effect_id(),
            compensation_ordinal: record.compensation_ordinal(),
            effect: record.effect().copied(),
        }
    }

    pub fn effect(&self) -> (r: &DurableEffectRecord)
        ensures
            r@ == self@.effect,
    {
        match self {
            DurableEffectPersistenceRecord::Effect(effect) => effect,
            DurableEffectPersistenceRecord::Compensation { effect, .. } => effect,
        }
    }

    pub fn original_effect_id(&self) -> (r: Option<DurableEffectId>)
        ensures
            match r {
                Some(id) => self@.compensates is Some && id.0@ == (self@.compensates->0).0,
                None => self@.compensates is None,
            },
    {
        match self {
            DurableEffectPersistenceRecord::Effect(_) => None,
            DurableEffectPersistenceRecord::Compensation { original_effect_id, .. } => Some(
                *original_effect_id,
            ),
        }
    }

    pub fn compensation_ordinal(&self) -> (r: Option<u32>)
        ensures
            r == match self@.compensates {
                Some(c) => Some(c.1),
                None => None::<u32>,
            },
    {
        match self {
            DurableEffectPersistenceRecord::Effect(_) => None,
            DurableEffectPersistenceRecord::Compensation { compensation_ordinal, .. } => Some(
                *compensation_ordinal,
            ),
        }
    }

    /// Owned copy.
    pub fn copied(&self) -> (r: Self)
        ensures
            r@ == self@,
    {
        match self {
            DurableEffectPersistenceRecord::Effect(e) => DurableEffectPersistenceRecord::Effect(
                e.copied(),
            ),
            DurableEffectPersistenceRecord::Compensation {
                original_effect_id,
                compensation_ordinal,
                effect,
            } => DurableEffectPersistenceRecord::Compensation {
                original_effect_id: *original_effect_id,
                compensation_ordinal: *compensation_ordinal,
                effect: effect.copied(),
            },
        }
    }

    /// The stable versioned shape.
    pub fn to_envelope(&self) -> (r: PersistedEnvelopeV1)
        ensures
            r.version == DURABLE_EFFECT_PERSISTENCE_VERSION,
            r.record.shapes(self@),
    {
        PersistedEnvelopeV1 {
            version: DURABLE_EFFECT_PERSISTENCE_VERSION,
            record: PersistedRecordKindV1::from_runtime(self),
        }
    }

    /// Encodes the stable versioned JSON representation.
    pub fn to_json(&self) -> (r: Result<Vec<u8>, DurableEffectPersistenceError>)
        ensures
            r matches Ok(bytes) && bytes@ == encode_utf8(record_json(self@)),
    {
        let mut out: String = String::new();
        push_number_field(&mut out, "{\"version\"", DURABLE_EFFECT_PERSISTENCE_VERSION as u64);
        out.append(",\"record\":");
        match self {
            DurableEffectPersistenceRecord::Effect(effect) => {
                out.append("{\"kind\":\"Effect\",\"value\":");
                push_effect(&mut out, effect);
                out.append("}");
            },
            DurableEffectPersistenceRecord::Compensation {
                original_effect_id,
                compensation_ordinal,
                effect,
            } => {
                push_text_field(
                    &mut out,
                    "{\"kind\":\"Compensation\",\"value\":{\"original_effect_id\"",
                    original_effect_id.to_string().as_str(),
                );
                push_number_field(
                    &mut out,
                    ",\"compensation_ordinal\"",
                    *compensation_ordinal as u64,
                );
                out.append(",\"effect\":");
                push_effect(&mut out, effect);
                out.append("}}");
            },
        }
        out.append("}");
        assert(out@ =~= record_json(self@));
        let mut bytes: Vec<u8> = Vec::new();
        push_all(&mut bytes, out.as_str().as_bytes());
        assert(bytes@ =~= encode_utf8(record_json(self@)));
        Ok(bytes)
    }

    /// Reads a versioned durable-effect record. Unknown versions fail closed,
    /// and the identity of a compensation is derived again.
    pub fn from_envelope(envelope: PersistedEnvelopeV1) -> (r: Result<
        Self,
        DurableEffectPersistenceError,
    >)
        ensures
            envelope.version != DURABLE_EFFECT_PERSISTENCE_VERSION ==> r == Err::<
                Self,
                DurableEffectPersistenceError,
            >(
                DurableEffectPersistenceError::UnsupportedVersion { actual: envelope.version },
            ),
            envelope.version == DURABLE_EFFECT_PERSISTENCE_VERSION ==> match r {
                Ok(record) => envelope.record.meaning() == Some(record@),
                Err(e) => envelope.record.meaning() is None && envelope.record.explains(e),
            },
    {
        if envelope.version != DURABLE_EFFECT_PERSISTENCE_VERSION {
            return Err(
                DurableEffectPersistenceError::UnsupportedVersion { actual: envelope.version },
            );
        }
        envelope.record.into_runtime()
    }
}

/// Whether a persistence record can be stored: its identities are digests and
/// a compensation carries its derived identity.
pub open spec fn storable(record: PersistView) -> bool {
    &&& record.effect.spec.id.len() == 32
    &&& record.compensates matches Some((original, ordinal)) ==> original.len() == 32
        && compensation_identity_holds(original, ordinal, record.effect)
}

/// Reading the durable shape of a record gives the record back.
pub proof fn persistence_round_trip(shape: PersistedRecordKindV1, record: PersistView)
    requires
        storable(record),
        shape.shapes(record),
    ensures
        shape.meaning() == Some(record),
{
    let spec = record.effect.spec;
    hashing::hex_round_trip(spec.id);
    hashing::hex_text_bytes(spec.id);
    if let Some((original, ordinal)) = record.compensates {
        hashing::hex_round_trip(original);
        hashing::hex_text_bytes(original);
    }
    match shape {
        PersistedRecordKindV1::Effect(effect) => {
            assert(effect.meaning()->0 =~= record.effect);
            assert(shape.meaning()->0 =~= record);
        },
        PersistedRecordKindV1::Compensation { original_effect_id, compensation_ordinal, effect } => {
            assert(effect.meaning()->0 =~= record.effect);
            assert(shape.meaning()->0 =~= record);
        },
    }
}

/// A compensation whose ordinal was altered in storage is rejected, as long as
/// the digest tells the two preimages apart.
pub proof fn altered_compensation_is_rejected(
    original: Seq<u8>,
    ordinal: u32,
    stored_ordinal: u32,
    effect: durable_effect::RecordView,
)
    requires
        compensation_identity_holds(original, ordinal, effect),
        hashing::blake3_digest(
            durable_effect::compensation_preimage(original, ordinal, effect.spec.operation),
        ) != hashing::blake3_digest(
            durable_effect::compensation_preimage(original, stored_ordinal, effect.spec.operation),
        ),
    ensures
        !compensation_identity_holds(original, stored_ordinal, effect),
{
}

} // verus!
