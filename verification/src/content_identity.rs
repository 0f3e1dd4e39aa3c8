//! Separated content identities for source, semantics and compiled artifacts.
//!
//! - [`SourceId`] changes when source or package input bytes change.
//! - [`SemanticId`] changes when canonical typed semantics change.
//! - [`ArtifactId`] changes when target, compiler, backend or codegen inputs
//!   change.
//!
//! All three are domain-separated BLAKE3 digests.

use crate::bytes::{self, array32, push_all, push_le};
use crate::hashing::{self, blake3_hash, hex_decode, hex_encode};
use crate::text::{self, sorted_set, text};
use vstd::prelude::*;
use vstd::utf8::*;

verus! {

/// Digest of exact source or package input bytes.
#[derive(Debug, Clone, Copy, PartialEq, Eq, PartialOrd, Ord, Hash)]
pub struct SourceId(pub [u8; 32]);

/// Digest of canonical typed semantics.
#[derive(Debug, Clone, Copy, PartialEq, Eq, PartialOrd, Ord, Hash)]
pub struct SemanticId(pub [u8; 32]);

/// Digest of one compiled artifact configuration.
#[derive(Debug, Clone, Copy, PartialEq, Eq, PartialOrd, Ord, Hash)]
pub struct ArtifactId(pub [u8; 32]);

/// Why a text is no content identity.
#[derive(Debug, Clone, PartialEq, Eq)]
pub enum ContentIdentityParseError {
    InvalidLength(usize),
    InvalidHex(String),
}

impl ContentIdentityParseError {
    /// Human-readable description.
    pub fn to_string(&self) -> (r: String)
        ensures
            r@ == match self {
                ContentIdentityParseError::InvalidLength(n) =>
                    "content identity must contain 64 hex characters, got "@
                    + crate::text::dec(*n as nat),
                ContentIdentityParseError::InvalidHex(v) => "content identity is not valid hex: "@
                    + v@,
            },
    {
        match self {
            ContentIdentityParseError::InvalidLength(n) => {
                let mut out: String = text("content identity must contain 64 hex characters, got ");
                crate::text::push_dec(&mut out, *n as u64);
                out
            },
            ContentIdentityParseError::InvalidHex(v) => crate::text::cat2(
                "content identity is not valid hex: ",
                v.as_str(),
            ),
        }
    }
}

/// A byte string behind its length as four little-endian bytes.
pub open spec fn sized(s: Seq<u8>) -> Seq<u8> {
    bytes::le_bytes(s.len(), 4) + s
}

/// What is hashed for a source identity.
pub open spec fn source_preimage(bytes: Seq<u8>) -> Seq<u8> {
    encode_utf8("nulang.source-id.v1\0"@) + sized(bytes)
}

/// Concatenation of byte strings.
pub open spec fn concat(parts: Seq<Seq<u8>>) -> Seq<u8>
    decreases parts.len(),
{
    if parts.len() == 0 {
        Seq::empty()
    } else {
        concat(parts.drop_last()) + parts.last()
    }
}

/// What is hashed for a semantic identity: `refs` are the referenced digests in
/// ascending order, each once.
pub open spec fn semantic_preimage(bytes: Seq<u8>, refs: Seq<Seq<u8>>) -> Seq<u8> {
    encode_utf8("nulang.semantic-id.v1\0"@) + sized(bytes) + bytes::le_bytes(refs.len(), 4) + concat(refs)
}

/// What is hashed for an artifact identity: `flags` in ascending order, each
/// once.
pub open spec fn artifact_preimage(
    semantic: Seq<u8>,
    compiler_version: Seq<char>,
    target: Seq<char>,
    abi: Seq<char>,
    backend: Seq<char>,
    flags: Seq<Seq<char>>,
) -> Seq<u8> {
    encode_utf8("nulang.artifact-id.v1\0"@) + semantic + sized(encode_utf8(compiler_version))
        + sized(encode_utf8(target)) + sized(encode_utf8(abi)) + sized(encode_utf8(backend))
        + bytes::le_bytes(flags.len(), 4) + concat(
        flags.map_values(|f: Seq<char>| sized(encode_utf8(f))),
    )
}

/// Appends a byte string behind its length.
pub fn put_bytes(out: &mut Vec<u8>, s: &[u8])
    ensures
        final(out)@ == old(out)@ + sized(s@),
{
    push_le(out, s.len() as u64, 4);
    push_all(out, s);
    assert(out@ =~= old(out)@ + sized(s@));
}

/// Lexicographic order of byte strings.
pub open spec fn bytes_lt(a: Seq<u8>, b: Seq<u8>) -> bool
    decreases a.len(),
{
    if b.len() == 0 {
        false
    } else if a.len() == 0 {
        true
    } else if a[0] != b[0] {
        a[0] < b[0]
    } else {
        bytes_lt(a.skip(1), b.skip(1))
    }
}

proof fn bytes_lt_irreflexive(a: Seq<u8>)
    ensures
        !bytes_lt(a, a),
    decreases a.len(),
{
    if a.len() > 0 {
        bytes_lt_irreflexive(a.skip(1));
    }
}

proof fn bytes_lt_transitive(a: Seq<u8>, b: Seq<u8>, c: Seq<u8>)
    requires
        bytes_lt(a, b),
        bytes_lt(b, c),
    ensures
        bytes_lt(a, c),
    decreases a.len(),
{
    if a.len() > 0 && a[0] == b[0] && b[0] == c[0] {
        bytes_lt_transitive(a.skip(1), b.skip(1), c.skip(1));
    }
}

proof fn bytes_lt_total(a: Seq<u8>, b: Seq<u8>)
    ensures
        a == b || bytes_lt(a, b) || bytes_lt(b, a),
    decreases a.len(),
{
    if a.len() > 0 && b.len() > 0 && a[0] == b[0] {
        bytes_lt_total(a.skip(1), b.skip(1));
        if a.skip(1) == b.skip(1) {
            assert(a =~= seq![a[0]] + a.skip(1));
            assert(b =~= seq![b[0]] + b.skip(1));
        }
    } else if a.len() == 0 && b.len() == 0 {
        assert(a =~= b);
    }
}

/// Whether every byte string comes strictly before all later ones.
pub open spec fn ascending(s: Seq<Seq<u8>>) -> bool {
    forall|i: int, j: int| 0 <= i < j < s.len() ==> bytes_lt(#[trigger] s[i], #[trigger] s[j])
}

/// The ascending sequence that holds exactly the given byte strings.
pub open spec fn is_ascending_set(r: Seq<Seq<u8>>, of: Seq<Seq<u8>>) -> bool {
    &&& ascending(r)
    &&& forall|x: Seq<u8>| #[trigger] r.contains(x) == of.contains(x)
}

/// An ascending set of byte strings has one representation.
pub proof fn ascending_unique(a: Seq<Seq<u8>>, b: Seq<Seq<u8>>)
    requires
        ascending(a),
        ascending(b),
        forall|x: Seq<u8>| a.contains(x) == #[trigger] b.contains(x),
    ensures
        a == b,
    decreases a.len() + b.len(),
{
    if a.len() == 0 {
        if b.len() > 0 {
            assert(b.contains(b[0]));
            assert(a.contains(b[0]));
        }
        assert(a =~= b);
    } else if b.len() == 0 {
        assert(a.contains(a[0]));
        assert(b.contains(a[0]));
    } else {
        assert(a.contains(a.last()));
        assert(b.contains(b.last()));
        assert(b.contains(a.last()));
        assert(a.contains(b.last()));
        let i = choose|i: int| 0 <= i < a.len() && a[i] == b.last();
        let j = choose|j: int| 0 <= j < b.len() && b[j] == a.last();
        if a.last() != b.last() {
            assert(bytes_lt(a[i], a[a.len() - 1]));
            assert(bytes_lt(b[j], b[b.len() - 1]));
            bytes_lt_transitive(a.last(), b.last(), a.last());
            bytes_lt_irreflexive(a.last());
        }
        let x = a.drop_last();
        let y = b.drop_last();
        assert forall|t: Seq<u8>| x.contains(t) == #[trigger] y.contains(t) by {
            bytes_lt_irreflexive(a.last());
            assert(b.contains(t) == a.contains(t));
            if x.contains(t) {
                let p = choose|p: int| 0 <= p < x.len() && x[p] == t;
                assert(a[p] == t);
                assert(a.contains(t));
                assert(bytes_lt(a[p], a[a.len() - 1]));
                let q = choose|q: int| 0 <= q < b.len() && b[q] == t;
                assert(q != b.len() - 1);
                assert(y[q] == t);
            }
            if y.contains(t) {
                let p = choose|p: int| 0 <= p < y.len() && y[p] == t;
                assert(b[p] == t);
                assert(b.contains(t));
                assert(bytes_lt(b[p], b[b.len() - 1]));
                let q = choose|q: int| 0 <= q < a.len() && a[q] == t;
                assert(q != a.len() - 1);
                assert(x[q] == t);
            }
        }
        ascending_unique(x, y);
        assert(a =~= x.push(a.last()));
        assert(b =~= y.push(b.last()));
    }
}

fn digest_lt(a: &[u8; 32], b: &[u8; 32]) -> (r: bool)
    ensures
        r == bytes_lt(a@, b@),
{
    let mut i: usize = 0;
    assert(a@.skip(0) =~= a@);
    assert(b@.skip(0) =~= b@);
    while i < 32
        invariant
            i <= 32,
            bytes_lt(a@, b@) == bytes_lt(a@.skip(i as int), b@.skip(i as int)),
        decreases 32 - i,
    {
        if a[i] != b[i] {
            return a[i] < b[i];
        }
        assert(a@.skip(i as int).skip(1) =~= a@.skip(i + 1));
        assert(b@.skip(i as int).skip(1) =~= b@.skip(i + 1));
        i += 1;
    }
    false
}

/// The digests of a sequence of identities.
pub open spec fn digests(v: Seq<SemanticId>) -> Seq<Seq<u8>> {
    v.map_values(|s: SemanticId| s.0@)
}

/// Where `t` belongs in the ordered sequence `s`, looking from `from` on.
pub open spec fn digest_slot(s: Seq<Seq<u8>>, t: Seq<u8>, from: int) -> int
    decreases s.len() - from,
{
    if from < 0 || from >= s.len() || !bytes_lt(s[from], t) {
        from
    } else {
        digest_slot(s, t, from + 1)
    }
}

proof fn digest_slot_bounds(s: Seq<Seq<u8>>, t: Seq<u8>, from: int)
    requires
        0 <= from <= s.len(),
        forall|j: int| 0 <= j < from ==> bytes_lt(#[trigger] s[j], t),
    ensures
        from <= digest_slot(s, t, from) <= s.len(),
        forall|j: int| 0 <= j < digest_slot(s, t, from) ==> bytes_lt(#[trigger] s[j], t),
        digest_slot(s, t, from) < s.len() ==> !bytes_lt(s[digest_slot(s, t, from)], t),
    decreases s.len() - from,
{
    if from < s.len() && bytes_lt(s[from], t) {
        digest_slot_bounds(s, t, from + 1);
    }
}

proof fn digest_insert_keeps_order(before: Seq<Seq<u8>>, i: int, t: Seq<u8>)
    requires
        ascending(before),
        0 <= i <= before.len(),
        forall|j: int| 0 <= j < i ==> bytes_lt(#[trigger] before[j], t),
        i < before.len() ==> before[i] != t && !bytes_lt(before[i], t),
    ensures
        ascending(before.insert(i, t)),
        forall|x: Seq<u8>| #[trigger]
            before.insert(i, t).contains(x) == (before.contains(x) || x == t),
{
    let after = before.insert(i, t);
    if i < before.len() {
        bytes_lt_total(before[i], t);
    }
    assert forall|p: int, q: int| 0 <= p < q < after.len() implies bytes_lt(
        #[trigger] after[p],
        #[trigger] after[q],
    ) by {
        if p == i {
            if q > i + 1 {
                assert(bytes_lt(before[i], before[q - 1]));
                bytes_lt_transitive(t, before[i], before[q - 1]);
            }
        } else if p < i && q > i {
            assert(after[q] == before[q - 1]);
            assert(bytes_lt(before[p], before[q - 1]));
        } else if p > i {
            assert(bytes_lt(before[p - 1], before[q - 1]));
        }
    }
    assert forall|x: Seq<u8>| #[trigger]
        after.contains(x) == (before.contains(x) || x == t) by {
        if after.contains(x) {
            let p = choose|p: int| 0 <= p < after.len() && after[p] == x;
            if p < i {
                assert(before[p] == x);
            } else if p > i {
                assert(before[p - 1] == x);
            }
        }
        if before.contains(x) {
            let p = choose|p: int| 0 <= p < before.len() && before[p] == x;
            if p < i {
                assert(after[p] == x);
            } else {
                assert(after[p + 1] == x);
            }
        }
        if x == t {
            assert(after[i] == x);
        }
    }
}

proof fn digest_push_contains(prev: Seq<Seq<u8>>, t: Seq<u8>)
    ensures
        forall|x: Seq<u8>| #[trigger] prev.push(t).contains(x) == (prev.contains(x) || x == t),
{
    let next = prev.push(t);
    assert forall|x: Seq<u8>| #[trigger] next.contains(x) == (prev.contains(x) || x == t) by {
        if prev.contains(x) {
            let p = choose|p: int| 0 <= p < prev.len() && prev[p] == x;
            assert(next[p] == x);
        }
        if x == t {
            assert(next[prev.len() as int] == x);
        }
        if next.contains(x) {
            let p = choose|p: int| 0 <= p < next.len() && next[p] == x;
            if p < prev.len() {
                assert(prev[p] == x);
            }
        }
    }
}

/// The given items in ascending order, each once.
pub open spec fn ascending_of(v: Seq<Seq<u8>>) -> Seq<Seq<u8>>
    decreases v.len(),
{
    if v.len() == 0 {
        Seq::empty()
    } else {
        let s = ascending_of(v.drop_last());
        let i = digest_slot(s, v.last(), 0);
        if i < s.len() && s[i] == v.last() {
            s
        } else {
            s.insert(i, v.last())
        }
    }
}

/// [`ascending_of`] is ascending and keeps exactly the given items.
pub proof fn ascending_of_holds(v: Seq<Seq<u8>>)
    ensures
        is_ascending_set(ascending_of(v), v),
    decreases v.len(),
{
    if v.len() > 0 {
        let s = ascending_of(v.drop_last());
        let t = v.last();
        ascending_of_holds(v.drop_last());
        digest_slot_bounds(s, t, 0);
        let i = digest_slot(s, t, 0);
        digest_push_contains(v.drop_last(), t);
        assert(v =~= v.drop_last().push(t));
        if i < s.len() && s[i] == t {
        } else {
            digest_insert_keeps_order(s, i, t);
        }
    }
}

/// Collections with the same members have the same ascending form: order and
/// repetition do not matter.
pub proof fn ascending_of_ignores_order(v: Seq<Seq<u8>>, w: Seq<Seq<u8>>)
    requires
        forall|x: Seq<u8>| v.contains(x) == #[trigger] w.contains(x),
    ensures
        ascending_of(v) == ascending_of(w),
{
    ascending_of_holds(v);
    ascending_of_holds(w);
    let a = ascending_of(v);
    let b = ascending_of(w);
    assert forall|x: Seq<u8>| a.contains(x) == #[trigger] b.contains(x) by {
        assert(a.contains(x) == v.contains(x));
        assert(b.contains(x) == w.contains(x));
    }
    ascending_unique(a, b);
}

fn insert_digest(v: &mut Vec<SemanticId>, s: SemanticId)
    requires
        ascending(digests(old(v)@)),
    ensures
        ascending(digests(final(v)@)),
        forall|x: Seq<u8>| #[trigger]
            digests(final(v)@).contains(x) == (digests(old(v)@).contains(x) || x == s.0@),
{
    let ghost before = digests(v@);
    let mut i: usize = 0;
    while i < v.len() && digest_lt(&v[i].0, &s.0)
        invariant
            i <= v@.len(),
            before == digests(v@),
            forall|j: int| 0 <= j < i ==> bytes_lt(#[trigger] before[j], s.0@),
        decreases v@.len() - i,
    {
        i += 1;
    }
    if i < v.len() && crate::bytes::bytes_eq(v[i].0.as_slice(), s.0.as_slice()) {
        assert(before[i as int] == s.0@);
        return ;
    }
    let ghost t = s.0@;
    v.insert(i, s);
    proof {
        assert(digests(v@) =~= before.insert(i as int, t));
        digest_insert_keeps_order(before, i as int, t);
    }
}

fn ascending_digests(v: &Vec<SemanticId>) -> (r: Vec<SemanticId>)
    ensures
        digests(r@) == ascending_of(digests(v@)),
{
    let mut out: Vec<SemanticId> = Vec::new();
    let mut i: usize = 0;
    while i < v.len()
        invariant
            i <= v@.len(),
            is_ascending_set(digests(out@), digests(v@.take(i as int))),
        decreases v@.len() - i,
    {
        let ghost prev = digests(v@.take(i as int));
        insert_digest(&mut out, v[i]);
        proof {
            let next = digests(v@.take(i + 1));
            assert(next =~= prev.push(v@[i as int].0@));
            digest_push_contains(prev, v@[i as int].0@);
        }
        i += 1;
    }
    proof {
        assert(v@.take(v@.len() as int) =~= v@);
        ascending_of_holds(digests(v@));
        let a = digests(out@);
        let b = ascending_of(digests(v@));
        assert forall|x: Seq<u8>| a.contains(x) == #[trigger] b.contains(x) by {
            assert(a.contains(x) == digests(v@).contains(x));
        }
        ascending_unique(a, b);
    }
    out
}

/// The digest that a text of 64 hexadecimal characters stands for.
pub open spec fn parsed_digest(value: &str) -> Option<Seq<u8>> {
    if encode_utf8(value@).len() == 64 {
        hashing::hex_decoded(encode_utf8(value@))
    } else {
        None
    }
}

/// Reads a digest written as 64 hexadecimal characters.
fn parse_hash(value: &str) -> (r: Result<[u8; 32], ContentIdentityParseError>)
    ensures
        match r {
            Ok(digest) => parsed_digest(value) == Some(digest@),
            Err(ContentIdentityParseError::InvalidLength(n)) => encode_utf8(value@).len() != 64 && n
                == encode_utf8(value@).len(),
            Err(ContentIdentityParseError::InvalidHex(v)) => encode_utf8(value@).len() == 64
                && parsed_digest(value) is None && v@ == value@,
        },
{
    let raw: &[u8] = value.as_bytes();
    if raw.len() != 64 {
        return Err(ContentIdentityParseError::InvalidLength(raw.len()));
    }
    match hex_decode(value) {
        None => Err(ContentIdentityParseError::InvalidHex(text(value))),
        Some(decoded) => {
            let digest: [u8; 32] = array32(decoded.as_slice(), 0);
            assert(decoded@.subrange(0, 32) =~= decoded@);
            Ok(digest)
        },
    }
}

/// The outcome of reading an identity from text.
pub open spec fn parse_outcome(
    value: &str,
    digest: Option<Seq<u8>>,
    error: Option<ContentIdentityParseError>,
) -> bool {
    match error {
        None => digest is Some && parsed_digest(value) == digest,
        Some(ContentIdentityParseError::InvalidLength(n)) => encode_utf8(value@).len() != 64 && n
            == encode_utf8(value@).len(),
        Some(ContentIdentityParseError::InvalidHex(v)) => encode_utf8(value@).len() == 64
            && parsed_digest(value) is None && v@ == value@,
    }
}

impl SourceId {
    /// Hash exact source/package input bytes.
    pub fn from_bytes(bytes: &[u8]) -> (r: Self)
        ensures
            r.0@ == hashing::blake3_digest(source_preimage(bytes@)),
    {
        let mut pre: Vec<u8> = Vec::new();
        push_all(&mut pre, "nulang.source-id.v1\0".as_bytes());
        put_bytes(&mut pre, bytes);
        assert(pre@ =~= source_preimage(bytes@));
        SourceId(blake3_hash(pre.as_slice()))
    }

    pub fn as_bytes(&self) -> (r: &[u8; 32])
        ensures
            *r == self.0,
    {
        &self.0
    }

    /// Lower-case hexadecimal text of the digest.
    pub fn to_hex(self) -> (r: String)
        ensures
            r@ == hashing::hex_text(self.0@),
    {
        hex_encode(self.0.as_slice())
    }

    /// Reads an identity back from its hexadecimal text.
    pub fn parse(value: &str) -> (r: Result<Self, ContentIdentityParseError>)
        ensures
            r matches Ok(id) ==> parse_outcome(value, Some(id.0@), None),
            r matches Err(e) ==> parse_outcome(value, None, Some(e)),
    {
        match parse_hash(value) {
            Ok(d) => Ok(SourceId(d)),
            Err(e) => Err(e),
        }
    }
}

impl SemanticId {
    /// Hash canonical typed/lowered semantic bytes plus referenced semantic
    /// identities. Reference order and duplicates do not matter.
    pub fn from_canonical_bytes(bytes: &[u8], referenced: &Vec<SemanticId>) -> (r: Self)
        ensures
            r.0@ == hashing::blake3_digest(
                semantic_preimage(bytes@, ascending_of(digests(referenced@))),
            ),
    {
        let refs: Vec<SemanticId> = ascending_digests(referenced);
        let mut pre: Vec<u8> = Vec::new();
        push_all(&mut pre, "nulang.semantic-id.v1\0".as_bytes());
        put_bytes(&mut pre, bytes);
        push_le(&mut pre, refs.len() as u64, 4);
        let ghost head = pre@;
        let mut i: usize = 0;
        while i < refs.len()
            invariant
                i <= refs@.len(),
                pre@ == head + concat(digests(refs@.take(i as int))),
            decreases refs@.len() - i,
        {
            push_all(&mut pre, refs[i].0.as_slice());
            i += 1;
            proof {
                let now = digests(refs@.take(i as int));
                assert(now.drop_last() =~= digests(refs@.take(i - 1)));
                assert(now.last() == refs@[i - 1].0@);
                assert(pre@ =~= head + concat(now));
            }
        }
        proof {
            let all = digests(refs@);
            assert(refs@.take(refs@.len() as int) =~= refs@);
            assert(pre@ =~= semantic_preimage(bytes@, all));
        }
        SemanticId(blake3_hash(pre.as_slice()))
    }

    /// The identity with the given digest.
    pub fn from_digest_bytes(bytes: [u8; 32]) -> (r: Self)
        ensures
            r.0 == bytes,
    {
        SemanticId(bytes)
    }

    pub fn as_bytes(&self) -> (r: &[u8; 32])
        ensures
            *r == self.0,
    {
        &self.0
    }

    /// Lower-case hexadecimal text of the digest.
    pub fn to_hex(self) -> (r: String)
        ensures
            r@ == hashing::hex_text(self.0@),
    {
        hex_encode(self.0.as_slice())
    }

    /// Reads an identity back from its hexadecimal text.
    pub fn parse(value: &str) -> (r: Result<Self, ContentIdentityParseError>)
        ensures
            r matches Ok(id) ==> parse_outcome(value, Some(id.0@), None),
            r matches Err(e) ==> parse_outcome(value, None, Some(e)),
    {
        match parse_hash(value) {
            Ok(d) => Ok(SemanticId(d)),
            Err(e) => Err(e),
        }
    }
}

impl ArtifactId {
    /// Hash one compiled artifact configuration derived from semantic identity.
    /// Flags are a set: order and duplicates do not matter.
    pub fn from_semantic(
        semantic: SemanticId,
        compiler_version: &str,
        target: &str,
        abi: &str,
        backend: &str,
        flags: &Vec<String>,
    ) -> (r: Self)
        ensures
            r.0@ == hashing::blake3_digest(
                artifact_preimage(
                    semantic.0@,
                    compiler_version@,
                    target@,
                    abi@,
                    backend@,
                    text::sorted_of(text::views(flags@)),
                ),
            ),
    {
        let set: Vec<String> = sorted_set(flags);
        let mut pre: Vec<u8> = Vec::new();
        push_all(&mut pre, "nulang.artifact-id.v1\0".as_bytes());
        push_all(&mut pre, semantic.0.as_slice());
        put_bytes(&mut pre, compiler_version.as_bytes());
        put_bytes(&mut pre, target.as_bytes());
        put_bytes(&mut pre, abi.as_bytes());
        put_bytes(&mut pre, backend.as_bytes());
        push_le(&mut pre, set.len() as u64, 4);
        let ghost head = pre@;
        let ghost piece = |f: Seq<char>| sized(encode_utf8(f));
        let mut i: usize = 0;
        while i < set.len()
            invariant
                i <= set@.len(),
                piece == (|f: Seq<char>| sized(encode_utf8(f))),
                pre@ == head + concat(text::views(set@.take(i as int)).map_values(piece)),
            decreases set@.len() - i,
        {
            put_bytes(&mut pre, set[i].as_str().as_bytes());
            i += 1;
            proof {
                let now = text::views(set@.take(i as int)).map_values(piece);
                assert(now.drop_last() =~= text::views(set@.take(i - 1)).map_values(piece));
                assert(now.last() == piece(set@[i - 1]@));
                assert(pre@ =~= head + concat(now));
            }
        }
        proof {
            let all = text::views(set@);
            assert(set@.take(set@.len() as int) =~= set@);
            assert(pre@ =~= artifact_preimage(
                semantic.0@,
                compiler_version@,
                target@,
                abi@,
                backend@,
                all,
            ));
        }
        ArtifactId(blake3_hash(pre.as_slice()))
    }

    pub fn as_bytes(&self) -> (r: &[u8; 32])
        ensures
            *r == self.0,
    {
        &self.0
    }

    /// Lower-case hexadecimal text of the digest.
    pub fn to_hex(self) -> (r: String)
        ensures
            r@ == hashing::hex_text(self.0@),
    {
        hex_encode(self.0.as_slice())
    }

    /// Reads an identity back from its hexadecimal text.
    pub fn parse(value: &str) -> (r: Result<Self, ContentIdentityParseError>)
        ensures
            r matches Ok(id) ==> parse_outcome(value, Some(id.0@), None),
            r matches Err(e) ==> parse_outcome(value, None, Some(e)),
    {
        match parse_hash(value) {
            Ok(d) => Ok(ArtifactId(d)),
            Err(e) => Err(e),
        }
    }
}

/// Reading the hexadecimal text of a digest gives the digest back.
pub proof fn identity_hex_round_trip(digest: Seq<u8>, value: &str)
    requires
        digest.len() == 32,
        value@ == hashing::hex_text(digest),
    ensures
        parsed_digest(value) == Some(digest),
{
    hashing::hex_round_trip(digest);
    crate::hashing::hex_text_bytes(digest);
}

/// The preimage of a source identity tells the source bytes apart, as long as
/// their lengths fit the four-byte length field.
pub proof fn source_preimage_injective(a: Seq<u8>, b: Seq<u8>)
    requires
        a.len() < 0x1_0000_0000,
        b.len() < 0x1_0000_0000,
        source_preimage(a) == source_preimage(b),
    ensures
        a == b,
{
    let d = encode_utf8("nulang.source-id.v1\0"@);
    crate::bytes::pow256_values();
    crate::bytes::le_round_trip(a.len(), 4);
    crate::bytes::le_round_trip(b.len(), 4);
    let x = source_preimage(a);
    assert(x.skip(d.len() as int).skip(4) =~= a);
    assert(source_preimage(b).skip(d.len() as int).skip(4) =~= b);
}

/// A text is the identity of a digest exactly where it has the right length and
/// consists of hexadecimal digits.
pub proof fn identities_are_hexadecimal(
    value: &str,
    digest: Option<Seq<u8>>,
    error: Option<ContentIdentityParseError>,
)
    requires
        parse_outcome(value, digest, error),
    ensures
        error is None <==> encode_utf8(value@).len() == 64 && (forall|i: int|
            0 <= i < 64 ==> hashing::is_hex_byte(#[trigger] encode_utf8(value@)[i])),
        error is None ==> (digest matches Some(d) && d.len() == 32),
{
}

/// A sized byte string is found again in front of what follows it.
pub proof fn sized_parts(a: Seq<u8>, rest_a: Seq<u8>, b: Seq<u8>, rest_b: Seq<u8>)
    requires
        a.len() < 0x1_0000_0000,
        b.len() < 0x1_0000_0000,
        sized(a) + rest_a == sized(b) + rest_b,
    ensures
        a == b,
        rest_a == rest_b,
{
    bytes::pow256_values();
    bytes::le_round_trip(a.len(), 4);
    bytes::le_round_trip(b.len(), 4);
    let x = sized(a) + rest_a;
    let y = sized(b) + rest_b;
    assert(x.take(4) =~= bytes::le_bytes(a.len(), 4));
    assert(y.take(4) =~= bytes::le_bytes(b.len(), 4));
    assert(x.skip(4).take(a.len() as int) =~= a);
    assert(y.skip(4).take(b.len() as int) =~= b);
    assert(x.skip(4).skip(a.len() as int) =~= rest_a);
    assert(y.skip(4).skip(b.len() as int) =~= rest_b);
}

proof fn concat_front(parts: Seq<Seq<u8>>)
    requires
        parts.len() > 0,
    ensures
        concat(parts) == parts[0] + concat(parts.skip(1)),
    decreases parts.len(),
{
    if parts.len() == 1 {
        assert(concat(parts.drop_last()) =~= Seq::<u8>::empty());
        assert(concat(parts.skip(1)) =~= Seq::<u8>::empty());
        assert(concat(parts) =~= parts[0] + concat(parts.skip(1)));
    } else {
        let front = parts.drop_last();
        concat_front(front);
        assert(front.skip(1) =~= parts.skip(1).drop_last());
        assert(concat(parts.skip(1)) == concat(parts.skip(1).drop_last()) + parts.last());
        assert(concat(parts) =~= parts[0] + concat(parts.skip(1)));
    }
}

proof fn listed_texts(a: Seq<Seq<char>>, b: Seq<Seq<char>>)
    requires
        a.len() == b.len(),
        forall|i: int| 0 <= i < a.len() ==> encode_utf8(#[trigger] a[i]).len() < 0x1_0000_0000,
        forall|i: int| 0 <= i < b.len() ==> encode_utf8(#[trigger] b[i]).len() < 0x1_0000_0000,
        concat(a.map_values(|f: Seq<char>| sized(encode_utf8(f)))) == concat(
            b.map_values(|f: Seq<char>| sized(encode_utf8(f))),
        ),
    ensures
        a == b,
    decreases a.len(),
{
    if a.len() == 0 {
        assert(a =~= b);
    } else {
        let f = |f: Seq<char>| sized(encode_utf8(f));
        let (x, y) = (a.map_values(f), b.map_values(f));
        concat_front(x);
        concat_front(y);
        sized_parts(encode_utf8(a[0]), concat(x.skip(1)), encode_utf8(b[0]), concat(y.skip(1)));
        encode_utf8_decode_utf8(a[0]);
        encode_utf8_decode_utf8(b[0]);
        assert(x.skip(1) =~= a.skip(1).map_values(f));
        assert(y.skip(1) =~= b.skip(1).map_values(f));
        assert forall|i: int| 0 <= i < a.skip(1).len() implies encode_utf8(
            #[trigger] a.skip(1)[i],
        ).len() < 0x1_0000_0000 by {
            assert(a.skip(1)[i] == a[i + 1]);
        }
        assert forall|i: int| 0 <= i < b.skip(1).len() implies encode_utf8(
            #[trigger] b.skip(1)[i],
        ).len() < 0x1_0000_0000 by {
            assert(b.skip(1)[i] == b[i + 1]);
        }
        listed_texts(a.skip(1), b.skip(1));
        assert(a =~= seq![a[0]] + a.skip(1));
        assert(b =~= seq![b[0]] + b.skip(1));
    }
}

/// What an artifact is made from and by.
#[verifier::ext_equal]
pub struct Making {
    pub semantic: Seq<u8>,
    pub compiler_version: Seq<char>,
    pub target: Seq<char>,
    pub abi: Seq<char>,
    pub backend: Seq<char>,
    pub flags: Seq<Seq<char>>,
}

impl Making {
    /// Whether every length fits its four-byte field.
    pub open spec fn fits(self) -> bool {
        &&& self.semantic.len() == 32
        &&& encode_utf8(self.compiler_version).len() < 0x1_0000_0000
        &&& encode_utf8(self.target).len() < 0x1_0000_0000
        &&& encode_utf8(self.abi).len() < 0x1_0000_0000
        &&& encode_utf8(self.backend).len() < 0x1_0000_0000
        &&& self.flags.len() < 0x1_0000_0000
        &&& forall|i: int|
            0 <= i < self.flags.len() ==> encode_utf8(#[trigger] self.flags[i]).len()
                < 0x1_0000_0000
    }

    /// What is hashed for the artifact.
    pub open spec fn preimage(self) -> Seq<u8> {
        artifact_preimage(
            self.semantic,
            self.compiler_version,
            self.target,
            self.abi,
            self.backend,
            self.flags,
        )
    }
}

/// Artifacts that are derived from the same bytes have the same semantics,
/// compiler, target, interface, backend and flags.
#[verifier::spinoff_prover]
#[verifier::rlimit(60)]
pub proof fn artifacts_have_their_own_identity(a: Making, b: Making)
    requires
        a.fits(),
        b.fits(),
        a.preimage() == b.preimage(),
    ensures
        a == b,
{
    let d = encode_utf8("nulang.artifact-id.v1\0"@);
    let f = |f: Seq<char>| sized(encode_utf8(f));
    let ta = bytes::le_bytes(a.flags.len(), 4) + concat(a.flags.map_values(f));
    let tb = bytes::le_bytes(b.flags.len(), 4) + concat(b.flags.map_values(f));
    let ba = sized(encode_utf8(a.backend)) + ta;
    let bb = sized(encode_utf8(b.backend)) + tb;
    let aa = sized(encode_utf8(a.abi)) + ba;
    let ab = sized(encode_utf8(b.abi)) + bb;
    let ga = sized(encode_utf8(a.target)) + aa;
    let gb = sized(encode_utf8(b.target)) + ab;
    let x = a.preimage().skip(d.len() as int);
    let y = b.preimage().skip(d.len() as int);
    assert(x =~= a.semantic + (sized(encode_utf8(a.compiler_version)) + ga));
    assert(y =~= b.semantic + (sized(encode_utf8(b.compiler_version)) + gb));
    assert(x.take(32) =~= a.semantic);
    assert(y.take(32) =~= b.semantic);
    assert(x.skip(32) =~= sized(encode_utf8(a.compiler_version)) + ga);
    assert(y.skip(32) =~= sized(encode_utf8(b.compiler_version)) + gb);
    sized_parts(encode_utf8(a.compiler_version), ga, encode_utf8(b.compiler_version), gb);
    sized_parts(encode_utf8(a.target), aa, encode_utf8(b.target), ab);
    sized_parts(encode_utf8(a.abi), ba, encode_utf8(b.abi), bb);
    sized_parts(encode_utf8(a.backend), ta, encode_utf8(b.backend), tb);
    bytes::pow256_values();
    bytes::le_round_trip(a.flags.len(), 4);
    bytes::le_round_trip(b.flags.len(), 4);
    assert(ta.take(4) =~= bytes::le_bytes(a.flags.len(), 4));
    assert(tb.take(4) =~= bytes::le_bytes(b.flags.len(), 4));
    assert(ta.skip(4) =~= concat(a.flags.map_values(f)));
    assert(tb.skip(4) =~= concat(b.flags.map_values(f)));
    listed_texts(a.flags, b.flags);
    encode_utf8_decode_utf8(a.compiler_version);
    encode_utf8_decode_utf8(b.compiler_version);
    encode_utf8_decode_utf8(a.target);
    encode_utf8_decode_utf8(b.target);
    encode_utf8_decode_utf8(a.abi);
    encode_utf8_decode_utf8(b.abi);
    encode_utf8_decode_utf8(a.backend);
    encode_utf8_decode_utf8(b.backend);
}

proof fn listed_digests(a: Seq<Seq<u8>>, b: Seq<Seq<u8>>)
    requires
        a.len() == b.len(),
        forall|i: int| 0 <= i < a.len() ==> (#[trigger] a[i]).len() == 32,
        forall|i: int| 0 <= i < b.len() ==> (#[trigger] b[i]).len() == 32,
        concat(a) == concat(b),
    ensures
        a == b,
    decreases a.len(),
{
    if a.len() == 0 {
        assert(a =~= b);
    } else {
        concat_front(a);
        concat_front(b);
        let (x, y) = (concat(a), concat(b));
        assert(x.take(32) =~= a[0]);
        assert(y.take(32) =~= b[0]);
        assert(x.skip(32) =~= concat(a.skip(1)));
        assert(y.skip(32) =~= concat(b.skip(1)));
        listed_digests(a.skip(1), b.skip(1));
        assert(a =~= seq![a[0]] + a.skip(1));
        assert(b =~= seq![b[0]] + b.skip(1));
    }
}

/// Semantics that are derived from the same bytes have the same canonical form
/// and the same references.
pub proof fn semantics_have_their_own_identity(
    a: Seq<u8>,
    refs_a: Seq<Seq<u8>>,
    b: Seq<u8>,
    refs_b: Seq<Seq<u8>>,
)
    requires
        a.len() < 0x1_0000_0000,
        b.len() < 0x1_0000_0000,
        refs_a.len() < 0x1_0000_0000,
        refs_b.len() < 0x1_0000_0000,
        forall|i: int| 0 <= i < refs_a.len() ==> (#[trigger] refs_a[i]).len() == 32,
        forall|i: int| 0 <= i < refs_b.len() ==> (#[trigger] refs_b[i]).len() == 32,
        semantic_preimage(a, refs_a) == semantic_preimage(b, refs_b),
    ensures
        a == b,
        refs_a == refs_b,
{
    let d = encode_utf8("nulang.semantic-id.v1\0"@);
    let ta = bytes::le_bytes(refs_a.len(), 4) + concat(refs_a);
    let tb = bytes::le_bytes(refs_b.len(), 4) + concat(refs_b);
    assert(semantic_preimage(a, refs_a).skip(d.len() as int) =~= sized(a) + ta);
    assert(semantic_preimage(b, refs_b).skip(d.len() as int) =~= sized(b) + tb);
    sized_parts(a, ta, b, tb);
    bytes::pow256_values();
    bytes::le_round_trip(refs_a.len(), 4);
    bytes::le_round_trip(refs_b.len(), 4);
    assert(ta.take(4) =~= bytes::le_bytes(refs_a.len(), 4));
    assert(tb.take(4) =~= bytes::le_bytes(refs_b.len(), 4));
    assert(ta.skip(4) =~= concat(refs_a));
    assert(tb.skip(4) =~= concat(refs_b));
    listed_digests(refs_a, refs_b);
}

} // verus!
