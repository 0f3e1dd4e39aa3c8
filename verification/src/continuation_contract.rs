//! Backend-independent continuation identity and resume compatibility.

use crate::bytes::{self, array32, bytes_eq, push_all, push_be, push_le, read_be};
use crate::content_identity::{self, put_bytes, SemanticId};
use crate::hashing::{self, blake3_hash};
use crate::text::{self, push_dec, text};
use vstd::prelude::*;
use vstd::utf8::*;

verus! {

/// Length of the portable metadata on the wire.
pub const WIRE_LEN: usize = 122;

/// Wire version of the portable metadata.
pub const WIRE_VERSION: u16 = 1;

/// Compiler-owned kind of logical suspension boundary.
#[derive(Debug, Clone, Copy, PartialEq, Eq, Hash, Structural)]
pub enum ContinuationBoundary {
    Effect,
    Receive,
    Await,
    Timer,
    WorkflowCheckpoint,
    DebugSafepoint,
}

impl ContinuationBoundary {
    /// The stable number of the boundary kind.
    pub open spec fn code(self) -> u8 {
        match self {
            ContinuationBoundary::Effect => 1,
            ContinuationBoundary::Receive => 2,
            ContinuationBoundary::Await => 3,
            ContinuationBoundary::Timer => 4,
            ContinuationBoundary::WorkflowCheckpoint => 5,
            ContinuationBoundary::DebugSafepoint => 6,
        }
    }

    pub fn as_u8(self) -> (r: u8)
        ensures
            r == self.code(),
    {
        match self {
            ContinuationBoundary::Effect => 1,
            ContinuationBoundary::Receive => 2,
            ContinuationBoundary::Await => 3,
            ContinuationBoundary::Timer => 4,
            ContinuationBoundary::WorkflowCheckpoint => 5,
            ContinuationBoundary::DebugSafepoint => 6,
        }
    }
}

/// Stable logical identity of a suspension site.
#[derive(Debug, Clone, Copy, PartialEq, Eq, PartialOrd, Ord, Hash)]
pub struct ContinuationPointId(pub [u8; 32]);

/// What is hashed for a suspension site: neither program counters nor the
/// whole-program identity take part.
pub open spec fn point_preimage(
    definition_name: Seq<char>,
    callable_name: Seq<char>,
    boundary: ContinuationBoundary,
    suspension_ordinal: u32,
) -> Seq<u8> {
    encode_utf8("nulang.continuation-point.v1\0"@) + content_identity::sized(
        encode_utf8(definition_name),
    ) + content_identity::sized(encode_utf8(callable_name)) + seq![boundary.code()]
        + bytes::le_bytes(suspension_ordinal as nat, 4)
}

impl ContinuationPointId {
    pub fn derive(
        definition_name: &str,
        callable_name: &str,
        boundary: ContinuationBoundary,
        suspension_ordinal: u32,
    ) -> (r: Self)
        ensures
            r.0@ == hashing::blake3_digest(
                point_preimage(definition_name@, callable_name@, boundary, suspension_ordinal),
            ),
    {
        let mut pre: Vec<u8> = Vec::new();
        push_all(&mut pre, "nulang.continuation-point.v1\0".as_bytes());
        put_bytes(&mut pre, definition_name.as_bytes());
        put_bytes(&mut pre, callable_name.as_bytes());
        pre.push(boundary.as_u8());
        push_le(&mut pre, suspension_ordinal as u64, 4);
        assert(pre@ =~= point_preimage(
            definition_name@,
            callable_name@,
            boundary,
            suspension_ordinal,
        ));
        ContinuationPointId(blake3_hash(pre.as_slice()))
    }

    pub fn as_bytes(&self) -> (r: &[u8; 32])
        ensures
            *r == self.0,
    {
        &self.0
    }
}

/// Hash of the values that must be materializable at a continuation point.
#[derive(Debug, Clone, Copy, PartialEq, Eq, PartialOrd, Ord, Hash)]
pub struct ContinuationLayoutId(pub [u8; 32]);

/// What is hashed for a live layout.
pub open spec fn layout_preimage(
    point: Seq<u8>,
    resume_type: Seq<char>,
    canonical_live_layout: Seq<u8>,
) -> Seq<u8> {
    encode_utf8("nulang.continuation-layout.v1\0"@) + point + content_identity::sized(
        encode_utf8(resume_type),
    ) + content_identity::sized(canonical_live_layout)
}

impl ContinuationLayoutId {
    pub fn derive(
        point: ContinuationPointId,
        resume_type: &str,
        canonical_live_layout: &[u8],
    ) -> (r: Self)
        ensures
            r.0@ == hashing::blake3_digest(
                layout_preimage(point.0@, resume_type@, canonical_live_layout@),
            ),
    {
        let mut pre: Vec<u8> = Vec::new();
        push_all(&mut pre, "nulang.continuation-layout.v1\0".as_bytes());
        push_all(&mut pre, point.0.as_slice());
        put_bytes(&mut pre, resume_type.as_bytes());
        put_bytes(&mut pre, canonical_live_layout);
        assert(pre@ =~= layout_preimage(point.0@, resume_type@, canonical_live_layout@));
        ContinuationLayoutId(blake3_hash(pre.as_slice()))
    }

    pub fn as_bytes(&self) -> (r: &[u8; 32])
        ensures
            *r == self.0,
    {
        &self.0
    }
}

/// Semantic contract attached to one captured logical continuation.
#[derive(Debug, Clone, Copy, PartialEq, Eq)]
pub struct ContinuationContract {
    /// Exact code semantics that originally captured the continuation.
    pub code_semantic_id: SemanticId,
    /// Stable logical suspension site.
    pub point_id: ContinuationPointId,
    /// Portable live-value/resume ABI at that site.
    pub layout_id: ContinuationLayoutId,
}

#[derive(Debug, Clone, Copy, PartialEq, Eq, Structural)]
pub enum ContinuationCompatibilityError {
    PointChanged,
    LayoutChanged,
}

impl ContinuationCompatibilityError {
    pub fn to_string(&self) -> (r: String)
        ensures
            r@ == match self {
                ContinuationCompatibilityError::PointChanged => "continuation point changed"@,
                ContinuationCompatibilityError::LayoutChanged =>
                    "continuation live layout changed"@,
            },
    {
        match self {
            ContinuationCompatibilityError::PointChanged => text("continuation point changed"),
            ContinuationCompatibilityError::LayoutChanged => text(
                "continuation live layout changed",
            ),
        }
    }
}

impl ContinuationContract {
    /// Whether state captured under `self` may resume under `replacement`. The
    /// code identity takes no part.
    pub open spec fn resume_check(self, replacement: Self) -> Result<
        (),
        ContinuationCompatibilityError,
    > {
        if self.point_id.0@ != replacement.point_id.0@ {
            Err(ContinuationCompatibilityError::PointChanged)
        } else if self.layout_id.0@ != replacement.layout_id.0@ {
            Err(ContinuationCompatibilityError::LayoutChanged)
        } else {
            Ok(())
        }
    }

    /// Check whether suspended state captured by `self` may resume in
    /// `replacement`.
    pub fn check_resume_compatibility(&self, replacement: &Self) -> (r: Result<
        (),
        ContinuationCompatibilityError,
    >)
        ensures
            r == self.resume_check(*replacement),
    {
        if !bytes_eq(self.point_id.0.as_slice(), replacement.point_id.0.as_slice()) {
            return Err(ContinuationCompatibilityError::PointChanged);
        }
        if !bytes_eq(self.layout_id.0.as_slice(), replacement.layout_id.0.as_slice()) {
            return Err(ContinuationCompatibilityError::LayoutChanged);
        }
        Ok(())
    }
}

/// A hot patch that keeps the suspension site and its live layout can always
/// resume, whatever code it brings.
pub proof fn code_patch_keeps_resumability(
    captured: ContinuationContract,
    replacement: ContinuationContract,
)
    requires
        captured.point_id.0@ == replacement.point_id.0@,
        captured.layout_id.0@ == replacement.layout_id.0@,
    ensures
        captured.resume_check(replacement) is Ok,
{
}

/// Resume compatibility is an equivalence: reflexive, symmetric and transitive.
pub proof fn resume_compatibility_is_equivalence(
    a: ContinuationContract,
    b: ContinuationContract,
    c: ContinuationContract,
)
    ensures
        a.resume_check(a) is Ok,
        a.resume_check(b) is Ok <==> b.resume_check(a) is Ok,
        a.resume_check(b) is Ok && b.resume_check(c) is Ok ==> a.resume_check(c) is Ok,
{
}

/// Pointer-free metadata persisted beside a portable continuation payload.
#[derive(Debug, Clone, Copy, PartialEq, Eq)]
pub struct PortableContinuationMetadata {
    pub contract: ContinuationContract,
    pub activation_sequence: u64,
    pub message_sequence: u64,
    pub effect_cursor: u32,
}

#[derive(Debug, Clone, Copy, PartialEq, Eq, Structural)]
pub enum PortableContinuationDecodeError {
    InvalidLength { actual: usize },
    InvalidMagic,
    UnsupportedVersion { actual: u16 },
}

impl PortableContinuationDecodeError {
    pub fn to_string(&self) -> (r: String)
        ensures
            r@ == match self {
                PortableContinuationDecodeError::InvalidLength { actual } =>
                    "portable continuation metadata must be 122 bytes, got "@ + text::dec(
                    *actual as nat,
                ),
                PortableContinuationDecodeError::InvalidMagic =>
                    "invalid portable continuation metadata magic"@,
                PortableContinuationDecodeError::UnsupportedVersion { actual } =>
                    "unsupported portable continuation metadata version "@ + text::dec(
                    *actual as nat,
                ),
            },
    {
        match self {
            PortableContinuationDecodeError::InvalidLength { actual } => {
                let mut out: String = text("portable continuation metadata must be 122 bytes, got ");
                push_dec(&mut out, *actual as u64);
                out
            },
            PortableContinuationDecodeError::InvalidMagic => text(
                "invalid portable continuation metadata magic",
            ),
            PortableContinuationDecodeError::UnsupportedVersion { actual } => {
                let mut out: String = text("unsupported portable continuation metadata version ");
                push_dec(&mut out, *actual as u64);
                out
            },
        }
    }
}

/// The magic bytes `NUCT`.
pub open spec fn wire_magic() -> Seq<u8> {
    seq![0x4eu8, 0x55, 0x43, 0x54]
}

impl PortableContinuationMetadata {
    /// The bytes of the metadata.
    pub open spec fn wire(self) -> Seq<u8> {
        wire_magic() + bytes::be_bytes(1, 2) + self.contract.code_semantic_id.0@
            + self.contract.point_id.0@ + self.contract.layout_id.0@ + bytes::be_bytes(
            self.activation_sequence as nat,
            8,
        ) + bytes::be_bytes(self.message_sequence as nat, 8) + bytes::be_bytes(
            self.effect_cursor as nat,
            4,
        )
    }

    /// Whether the fields are the ones that stand in `s`.
    pub open spec fn stands_in(self, s: Seq<u8>) -> bool {
        &&& self.contract.code_semantic_id.0@ == s.subrange(6, 38)
        &&& self.contract.point_id.0@ == s.subrange(38, 70)
        &&& self.contract.layout_id.0@ == s.subrange(70, 102)
        &&& self.activation_sequence == bytes::be_value(s.subrange(102, 110))
        &&& self.message_sequence == bytes::be_value(s.subrange(110, 118))
        &&& self.effect_cursor == bytes::be_value(s.subrange(118, 122))
    }

    pub fn encode(self) -> (r: Vec<u8>)
        ensures
            r@ == self.wire(),
            r@.len() == WIRE_LEN,
    {
        let mut out: Vec<u8> = Vec::new();
        out.push(0x4e);
        out.push(0x55);
        out.push(0x43);
        out.push(0x54);
        push_be(&mut out, WIRE_VERSION as u64, 2);
        push_all(&mut out, self.contract.code_semantic_id.0.as_slice());
        push_all(&mut out, self.contract.point_id.0.as_slice());
        push_all(&mut out, self.contract.layout_id.0.as_slice());
        push_be(&mut out, self.activation_sequence, 8);
        push_be(&mut out, self.message_sequence, 8);
        push_be(&mut out, self.effect_cursor as u64, 4);
        proof {
            assert(out@ =~= self.wire());
            metadata_wire_len(self);
        }
        out
    }

    pub fn decode(s: &[u8]) -> (r: Result<Self, PortableContinuationDecodeError>)
        ensures
            match r {
                Err(PortableContinuationDecodeError::InvalidLength { actual }) => s@.len()
                    != WIRE_LEN && actual == s@.len(),
                Err(PortableContinuationDecodeError::InvalidMagic) => s@.len() == WIRE_LEN
                    && s@.subrange(0, 4) != wire_magic(),
                Err(PortableContinuationDecodeError::UnsupportedVersion { actual }) => s@.len()
                    == WIRE_LEN && s@.subrange(0, 4) == wire_magic() && actual == bytes::be_value(
                    s@.subrange(4, 6),
                ) && actual != WIRE_VERSION,
                Ok(m) => s@.len() == WIRE_LEN && s@.subrange(0, 4) == wire_magic()
                    && bytes::be_value(s@.subrange(4, 6)) == WIRE_VERSION && m.stands_in(s@),
            },
    {
        if s.len() != WIRE_LEN {
            return Err(PortableContinuationDecodeError::InvalidLength { actual: s.len() });
        }
        if s[0] != 0x4e || s[1] != 0x55 || s[2] != 0x43 || s[3] != 0x54 {
            assert(s@.subrange(0, 4)[0] == s@[0]);
            assert(s@.subrange(0, 4)[1] == s@[1]);
            assert(s@.subrange(0, 4)[2] == s@[2]);
            assert(s@.subrange(0, 4)[3] == s@[3]);
            return Err(PortableContinuationDecodeError::InvalidMagic);
        }
        assert(s@.subrange(0, 4) =~= wire_magic());
        let raw_version: u64 = read_be(s, 4, 2);
        let cursor: u64 = read_be(s, 118, 4);
        proof {
            bytes::pow256_values();
            bytes::be_value_bytes(s@.subrange(4, 6));
            bytes::be_value_bytes(s@.subrange(118, 122));
        }
        let version: u16 = raw_version as u16;
        if version != WIRE_VERSION {
            return Err(PortableContinuationDecodeError::UnsupportedVersion { actual: version });
        }
        Ok(
            PortableContinuationMetadata {
                contract: ContinuationContract {
                    code_semantic_id: SemanticId(array32(s, 6)),
                    point_id: ContinuationPointId(array32(s, 38)),
                    layout_id: ContinuationLayoutId(array32(s, 70)),
                },
                activation_sequence: read_be(s, 102, 8),
                message_sequence: read_be(s, 110, 8),
                effect_cursor: cursor as u32,
            },
        )
    }
}

/// Every encoding has the fixed length.
pub proof fn metadata_wire_len(m: PortableContinuationMetadata)
    ensures
        m.wire().len() == WIRE_LEN,
{
    bytes::be_len(1, 2);
    bytes::be_len(m.activation_sequence as nat, 8);
    bytes::be_len(m.message_sequence as nat, 8);
    bytes::be_len(m.effect_cursor as nat, 4);
}

/// Decoding an encoding succeeds and gives the same metadata back.
pub proof fn portable_metadata_round_trip(m: PortableContinuationMetadata)
    ensures
        m.wire().len() == WIRE_LEN,
        m.wire().subrange(0, 4) == wire_magic(),
        bytes::be_value(m.wire().subrange(4, 6)) == WIRE_VERSION,
        m.stands_in(m.wire()),
{
    metadata_wire_len(m);
    bytes::pow256_values();
    bytes::be_round_trip(1, 2);
    bytes::be_round_trip(m.activation_sequence as nat, 8);
    bytes::be_round_trip(m.message_sequence as nat, 8);
    bytes::be_round_trip(m.effect_cursor as nat, 4);
    let w = m.wire();
    assert(w.subrange(0, 4) =~= wire_magic());
    assert(w.subrange(4, 6) =~= bytes::be_bytes(1, 2));
    assert(w.subrange(6, 38) =~= m.contract.code_semantic_id.0@);
    assert(w.subrange(38, 70) =~= m.contract.point_id.0@);
    assert(w.subrange(70, 102) =~= m.contract.layout_id.0@);
    assert(w.subrange(102, 110) =~= bytes::be_bytes(m.activation_sequence as nat, 8));
    assert(w.subrange(110, 118) =~= bytes::be_bytes(m.message_sequence as nat, 8));
    assert(w.subrange(118, 122) =~= bytes::be_bytes(m.effect_cursor as nat, 4));
}

/// A refused resumption tells what changed: the point where the points differ,
/// and the layout where only the layouts do.
pub proof fn refused_resumptions_tell_what_changed(
    captured: ContinuationContract,
    replacement: ContinuationContract,
)
    ensures
        captured.resume_check(replacement) == Err::<(), ContinuationCompatibilityError>(
            ContinuationCompatibilityError::PointChanged,
        ) <==> captured.point_id.0@ != replacement.point_id.0@,
        captured.resume_check(replacement) == Err::<(), ContinuationCompatibilityError>(
            ContinuationCompatibilityError::LayoutChanged,
        ) <==> captured.point_id.0@ == replacement.point_id.0@ && captured.layout_id.0@
            != replacement.layout_id.0@,
        captured.resume_check(replacement) is Ok <==> captured.point_id.0@
            == replacement.point_id.0@ && captured.layout_id.0@ == replacement.layout_id.0@,
{
}

/// Boundaries of different kinds have different codes, none of them zero.
pub proof fn boundary_codes_are_distinct(a: ContinuationBoundary, b: ContinuationBoundary)
    ensures
        a.code() == b.code() ==> a == b,
        a.code() != 0,
{
}

/// The identity of a suspension site is derived from its definition, callable,
/// kind and place, and from nothing that two sites could share.
pub proof fn points_have_their_own_identity(
    def_a: Seq<char>,
    call_a: Seq<char>,
    kind_a: ContinuationBoundary,
    ordinal_a: u32,
    def_b: Seq<char>,
    call_b: Seq<char>,
    kind_b: ContinuationBoundary,
    ordinal_b: u32,
)
    requires
        encode_utf8(def_a).len() < 0x1_0000_0000,
        encode_utf8(call_a).len() < 0x1_0000_0000,
        encode_utf8(def_b).len() < 0x1_0000_0000,
        encode_utf8(call_b).len() < 0x1_0000_0000,
        point_preimage(def_a, call_a, kind_a, ordinal_a) == point_preimage(
            def_b,
            call_b,
            kind_b,
            ordinal_b,
        ),
    ensures
        def_a == def_b,
        call_a == call_b,
        kind_a == kind_b,
        ordinal_a == ordinal_b,
{
    let d = encode_utf8("nulang.continuation-point.v1\0"@);
    let (da, ca) = (encode_utf8(def_a), encode_utf8(call_a));
    let (db, cb) = (encode_utf8(def_b), encode_utf8(call_b));
    let ta = seq![kind_a.code()] + bytes::le_bytes(ordinal_a as nat, 4);
    let tb = seq![kind_b.code()] + bytes::le_bytes(ordinal_b as nat, 4);
    let x = point_preimage(def_a, call_a, kind_a, ordinal_a);
    let y = point_preimage(def_b, call_b, kind_b, ordinal_b);
    let ra = content_identity::sized(ca) + ta;
    let rb = content_identity::sized(cb) + tb;
    assert(x.skip(d.len() as int) =~= content_identity::sized(da) + ra);
    assert(y.skip(d.len() as int) =~= content_identity::sized(db) + rb);
    content_identity::sized_parts(da, ra, db, rb);
    content_identity::sized_parts(ca, ta, cb, tb);
    bytes::pow256_values();
    bytes::le_round_trip(ordinal_a as nat, 4);
    bytes::le_round_trip(ordinal_b as nat, 4);
    assert(ta[0] == kind_a.code() && tb[0] == kind_b.code());
    boundary_codes_are_distinct(kind_a, kind_b);
    assert(ta.skip(1) =~= bytes::le_bytes(ordinal_a as nat, 4));
    assert(tb.skip(1) =~= bytes::le_bytes(ordinal_b as nat, 4));
    encode_utf8_decode_utf8(def_a);
    encode_utf8_decode_utf8(def_b);
    encode_utf8_decode_utf8(call_a);
    encode_utf8_decode_utf8(call_b);
}

/// The identity of a live layout is derived from its point, resume type and
/// layout, and from nothing that two layouts could share.
pub proof fn layouts_have_their_own_identity(
    point_a: Seq<u8>,
    type_a: Seq<char>,
    layout_a: Seq<u8>,
    point_b: Seq<u8>,
    type_b: Seq<char>,
    layout_b: Seq<u8>,
)
    requires
        point_a.len() == point_b.len(),
        encode_utf8(type_a).len() < 0x1_0000_0000,
        encode_utf8(type_b).len() < 0x1_0000_0000,
        layout_a.len() < 0x1_0000_0000,
        layout_b.len() < 0x1_0000_0000,
        layout_preimage(point_a, type_a, layout_a) == layout_preimage(point_b, type_b, layout_b),
    ensures
        point_a == point_b,
        type_a == type_b,
        layout_a == layout_b,
{
    let d = encode_utf8("nulang.continuation-layout.v1\0"@);
    let x = layout_preimage(point_a, type_a, layout_a).skip(d.len() as int);
    let y = layout_preimage(point_b, type_b, layout_b).skip(d.len() as int);
    let n = point_a.len() as int;
    assert(x.take(n) =~= point_a);
    assert(y.take(n) =~= point_b);
    let e = Seq::<u8>::empty();
    let ra = content_identity::sized(layout_a) + e;
    let rb = content_identity::sized(layout_b) + e;
    assert(x.skip(n) =~= content_identity::sized(encode_utf8(type_a)) + ra);
    assert(y.skip(n) =~= content_identity::sized(encode_utf8(type_b)) + rb);
    content_identity::sized_parts(encode_utf8(type_a), ra, encode_utf8(type_b), rb);
    content_identity::sized_parts(layout_a, e, layout_b, e);
    encode_utf8_decode_utf8(type_a);
    encode_utf8_decode_utf8(type_b);
}

} // verus!
