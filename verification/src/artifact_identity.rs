//! Identity of one compiled artifact and what it was derived from.

use crate::content_identity::{self, ArtifactId, SemanticId, SourceId};
use crate::hashing;
use crate::text::{self, clone_strings, sorted_set, text};
use vstd::prelude::*;

verus! {

/// What a compiler produced, and from what. Flags are kept as an ordered set.
#[derive(Debug, Clone, PartialEq, Eq)]
pub struct ArtifactIdentityManifest {
    pub source: Option<SourceId>,
    pub semantic: SemanticId,
    pub compiler: String,
    pub target_triple: String,
    pub abi_name: String,
    pub backend_name: String,
    pub flag_set: Vec<String>,
}

impl ArtifactIdentityManifest {
    pub fn new(
        source_id: Option<SourceId>,
        semantic_id: SemanticId,
        compiler_version: &str,
        target: &str,
        abi: &str,
        backend: &str,
        flags: &Vec<String>,
    ) -> (r: Self)
        ensures
            r.source == source_id,
            r.semantic == semantic_id,
            r.compiler@ == compiler_version@,
            r.target_triple@ == target@,
            r.abi_name@ == abi@,
            r.backend_name@ == backend@,
            text::views(r.flag_set@) == text::sorted_of(text::views(flags@)),
    {
        ArtifactIdentityManifest {
            source: source_id,
            semantic: semantic_id,
            compiler: text(compiler_version),
            target_triple: text(target),
            abi_name: text(abi),
            backend_name: text(backend),
            flag_set: sorted_set(flags),
        }
    }

    /// The artifact identity derived from the rest.
    pub open spec fn artifact_digest(&self) -> Seq<u8> {
        hashing::blake3_digest(
            content_identity::artifact_preimage(
                self.semantic.0@,
                self.compiler@,
                self.target_triple@,
                self.abi_name@,
                self.backend_name@,
                text::sorted_of(text::views(self.flag_set@)),
            ),
        )
    }

    pub fn artifact_id(&self) -> (r: ArtifactId)
        ensures
            r.0@ == self.artifact_digest(),
    {
        ArtifactId::from_semantic(
            self.semantic,
            self.compiler.as_str(),
            self.target_triple.as_str(),
            self.abi_name.as_str(),
            self.backend_name.as_str(),
            &self.flag_set,
        )
    }

    pub fn flags(&self) -> (r: Vec<String>)
        ensures
            text::views(r@) == text::views(self.flag_set@),
    {
        clone_strings(&self.flag_set)
    }
}

} // verus!
