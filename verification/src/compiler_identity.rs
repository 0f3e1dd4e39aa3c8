//! Compiler-facing identity assembly for typed Nulang programs.
//!
//! Keeps exact source identity, canonical typed semantics and artifact identity
//! apart, so that formatting changes do not invalidate caches.

use crate::artifact_identity::ArtifactIdentityManifest;
use crate::content_identity::{self, SemanticId, SourceId};
use crate::hashing;
use crate::text::{self};
use vstd::prelude::*;

verus! {

/// Assemble the artifact identity of one typed program.
///
/// - `source_bytes` are optional exact input bytes used only for the source
///   identity.
/// - `program_encoding` is the canonical encoding of the typed program.
/// - artifact identity comes from semantic identity and compiler inputs.
pub fn artifact_identity_for_typed_program(
    source_bytes: Option<&[u8]>,
    program_encoding: &[u8],
    dependency_semantic_ids: &Vec<SemanticId>,
    compiler_version: &str,
    target: &str,
    abi: &str,
    backend: &str,
    flags: &Vec<String>,
) -> (r: ArtifactIdentityManifest)
    ensures
        match source_bytes {
            Some(b) => r.source matches Some(id) && id.0@ == hashing::blake3_digest(
                content_identity::source_preimage(b@),
            ),
            None => r.source is None,
        },
        r.semantic.0@ == hashing::blake3_digest(
            content_identity::semantic_preimage(
                program_encoding@,
                content_identity::ascending_of(content_identity::digests(dependency_semantic_ids@)),
            ),
        ),
        r.compiler@ == compiler_version@,
        r.target_triple@ == target@,
        r.abi_name@ == abi@,
        r.backend_name@ == backend@,
        text::views(r.flag_set@) == text::sorted_of(text::views(flags@)),
{
    let source_id: Option<SourceId> = match source_bytes {
        Some(b) => Some(SourceId::from_bytes(b)),
        None => None,
    };
    let semantic_id: SemanticId = SemanticId::from_canonical_bytes(
        program_encoding,
        dependency_semantic_ids,
    );
    ArtifactIdentityManifest::new(
        source_id,
        semantic_id,
        compiler_version,
        target,
        abi,
        backend,
        flags,
    )
}

/// The source bytes reach neither the semantic nor the artifact identity.
pub proof fn source_does_not_reach_artifact(
    a: ArtifactIdentityManifest,
    b: ArtifactIdentityManifest,
)
    requires
        a.semantic == b.semantic,
        a.compiler@ == b.compiler@,
        a.target_triple@ == b.target_triple@,
        a.abi_name@ == b.abi_name@,
        a.backend_name@ == b.backend_name@,
        text::views(a.flag_set@) == text::views(b.flag_set@),
    ensures
        a.artifact_digest() == b.artifact_digest(),
{
}

} // verus!
