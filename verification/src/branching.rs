//! Durable-branch lifecycle metadata.
//!
//! A `BranchManifest` pins the execution identity that an activated branch
//! must use. Keeping it apart from the debugger representation lets tooling
//! inspect historical branches without making them executable.

use crate::bytes::sub_bytes;
use crate::dap::rewind::DurableBranch;
use crate::hashing::{self, blake3_hex};
use crate::json::{self, json_string, push_number_field, push_text_field};
use crate::text::{self, blank, cat2, cat3, dec_of, str_eq, text};
use crate::text_map::TextMap;
use vstd::prelude::*;
use vstd::utf8::*;

verus! {

/// Current serialized manifest schema version.
pub const BRANCH_MANIFEST_VERSION: u16 = 1;

/// Content and version identity required before a durable branch can be
/// considered for activation or shadow replay.
#[derive(Debug, PartialEq, Eq)]
pub struct BranchManifest {
    pub manifest_version: u16,
    pub branch_id: String,
    pub parent_entity_id: u64,
    pub fork_sequence: u64,
    /// BLAKE3 content identity of the compiled artifact.
    pub code_hash: String,
    pub schema_version: u32,
    pub runtime_version: String,
    pub journal_format_version: u32,
    /// Hybrid or logical timestamp serialized by the caller.
    pub created_at_hlc: String,
    pub created_by_principal: String,
    /// Capability restrictions inherited or attenuated for the branch.
    pub capability_envelope: TextMap<String>,
    /// Hash of the provenance record that created the branch.
    pub provenance_hash: Option<String>,
}

#[derive(Debug, Clone, PartialEq, Eq)]
pub enum BranchManifestError {
    UnsupportedManifestVersion(u16),
    Missing(&'static str),
}

impl BranchManifestError {
    pub fn to_string(&self) -> (r: String)
        ensures
            r@ == match self {
                BranchManifestError::UnsupportedManifestVersion(v) =>
                    "unsupported branch manifest version "@ + text::dec(*v as nat),
                BranchManifestError::Missing(field) =>
                    "branch manifest is missing required field '"@ + field@ + "'"@,
            },
    {
        match self {
            BranchManifestError::UnsupportedManifestVersion(v) => cat2(
                "unsupported branch manifest version ",
                dec_of(*v as u64).as_str(),
            ),
            BranchManifestError::Missing(field) => cat3(
                "branch manifest is missing required field '",
                field,
                "'",
            ),
        }
    }
}

/// A capability map by its texts.
pub open spec fn constraint_views(m: Map<Seq<char>, String>) -> Map<Seq<char>, Seq<char>> {
    m.map_values(|s: String| s@)
}

/// The members of the capability object, for the first `n` keys.
pub open spec fn capability_members(
    keys: Seq<Seq<char>>,
    m: Map<Seq<char>, Seq<char>>,
    n: nat,
) -> Seq<char>
    decreases n,
{
    if n == 0 {
        Seq::empty()
    } else if n == 1 {
        json::text_field(json::json_text(keys[0]), m[keys[0]])
    } else {
        capability_members(keys, m, (n - 1) as nat) + ","@ + json::text_field(
            json::json_text(keys[n - 1]),
            m[keys[n - 1]],
        )
    }
}

impl BranchManifest {
    /// The first invariant that fails, if any.
    pub open spec fn fault(&self) -> Option<BranchManifestError> {
        if self.manifest_version != BRANCH_MANIFEST_VERSION {
            Some(BranchManifestError::UnsupportedManifestVersion(self.manifest_version))
        } else if text::is_blank(self.branch_id@) {
            Some(BranchManifestError::Missing("branch_id"))
        } else if text::is_blank(self.code_hash@) {
            Some(BranchManifestError::Missing("code_hash"))
        } else if text::is_blank(self.runtime_version@) {
            Some(BranchManifestError::Missing("runtime_version"))
        } else if text::is_blank(self.created_at_hlc@) {
            Some(BranchManifestError::Missing("created_at_hlc"))
        } else if text::is_blank(self.created_by_principal@) {
            Some(BranchManifestError::Missing("created_by_principal"))
        } else {
            None
        }
    }

    /// Construct a version-pinned manifest from an immutable historical branch.
    pub fn from_branch(
        branch: &DurableBranch,
        code_hash: &str,
        schema_version: u32,
        runtime_version: &str,
        journal_format_version: u32,
        created_at_hlc: &str,
        created_by_principal: &str,
    ) -> (r: Self)
        ensures
            r.manifest_version == BRANCH_MANIFEST_VERSION,
            r.branch_id@ == branch.branch_id@,
            r.parent_entity_id == branch.parent_actor_id,
            r.fork_sequence == branch.fork_sequence,
            r.code_hash@ == code_hash@,
            r.schema_version == schema_version,
            r.runtime_version@ == runtime_version@,
            r.journal_format_version == journal_format_version,
            r.created_at_hlc@ == created_at_hlc@,
            r.created_by_principal@ == created_by_principal@,
            r.capability_envelope@ == Map::<Seq<char>, String>::empty(),
            r.provenance_hash is None,
    {
        BranchManifest {
            manifest_version: BRANCH_MANIFEST_VERSION,
            branch_id: branch.branch_id.clone(),
            parent_entity_id: branch.parent_actor_id,
            fork_sequence: branch.fork_sequence,
            code_hash: text(code_hash),
            schema_version,
            runtime_version: text(runtime_version),
            journal_format_version,
            created_at_hlc: text(created_at_hlc),
            created_by_principal: text(created_by_principal),
            capability_envelope: TextMap::new(),
            provenance_hash: None,
        }
    }

    /// The same manifest but for its capabilities and provenance.
    pub open spec fn same_identity(&self, other: &Self) -> bool {
        &&& self.manifest_version == other.manifest_version
        &&& self.branch_id == other.branch_id
        &&& self.parent_entity_id == other.parent_entity_id
        &&& self.fork_sequence == other.fork_sequence
        &&& self.code_hash == other.code_hash
        &&& self.schema_version == other.schema_version
        &&& self.runtime_version == other.runtime_version
        &&& self.journal_format_version == other.journal_format_version
        &&& self.created_at_hlc == other.created_at_hlc
        &&& self.created_by_principal == other.created_by_principal
    }

    pub fn with_capability(self, capability: &str, constraint: &str) -> (r: Self)
        ensures
            r.same_identity(&self),
            r.provenance_hash == self.provenance_hash,
            constraint_views(r.capability_envelope@) == constraint_views(
                self.capability_envelope@,
            ).insert(capability@, constraint@),
    {
        let mut r: BranchManifest = self;
        let added: String = text(constraint);
        let ghost value = added;
        r.capability_envelope.insert(text(capability), added);
        assert(constraint_views(r.capability_envelope@) =~= constraint_views(
            self.capability_envelope@,
        ).insert(capability@, value@));
        r
    }

    pub fn with_provenance_hash(self, hash: &str) -> (r: Self)
        ensures
            r.same_identity(&self),
            r.capability_envelope == self.capability_envelope,
            text::opt_view(r.provenance_hash) == Some(hash@),
    {
        let mut r: BranchManifest = self;
        r.provenance_hash = Some(text(hash));
        r
    }

    /// Validate invariants that must hold before shadow replay or activation.
    pub fn validate(&self) -> (r: Result<(), BranchManifestError>)
        ensures
            r == (match self.fault() {
                Some(e) => Err(e),
                None => Ok(()),
            }),
    {
        if self.manifest_version != BRANCH_MANIFEST_VERSION {
            return Err(BranchManifestError::UnsupportedManifestVersion(self.manifest_version));
        }
        if blank(self.branch_id.as_str()) {
            return Err(BranchManifestError::Missing("branch_id"));
        }
        if blank(self.code_hash.as_str()) {
            return Err(BranchManifestError::Missing("code_hash"));
        }
        if blank(self.runtime_version.as_str()) {
            return Err(BranchManifestError::Missing("runtime_version"));
        }
        if blank(self.created_at_hlc.as_str()) {
            return Err(BranchManifestError::Missing("created_at_hlc"));
        }
        if blank(self.created_by_principal.as_str()) {
            return Err(BranchManifestError::Missing("created_by_principal"));
        }
        Ok(())
    }

    /// The fields before the capabilities, as JSON members.
    pub open spec fn head_json(&self) -> Seq<char> {
        json::number_field("{\"manifest_version\""@, self.manifest_version as nat)
            + json::text_field(",\"branch_id\""@, self.branch_id@) + json::number_field(
            ",\"parent_entity_id\""@,
            self.parent_entity_id as nat,
        ) + json::number_field(",\"fork_sequence\""@, self.fork_sequence as nat)
            + json::text_field(",\"code_hash\""@, self.code_hash@) + json::number_field(
            ",\"schema_version\""@,
            self.schema_version as nat,
        ) + json::text_field(",\"runtime_version\""@, self.runtime_version@) + json::number_field(
            ",\"journal_format_version\""@,
            self.journal_format_version as nat,
        ) + json::text_field(",\"created_at_hlc\""@, self.created_at_hlc@) + json::text_field(
            ",\"created_by_principal\""@,
            self.created_by_principal@,
        )
    }

    /// The manifest as JSON: members in declaration order, capabilities in
    /// ascending order.
    pub open spec fn json(&self) -> Seq<char> {
        self.head_json() + ",\"capability_envelope\":{"@ + capability_members(
            self.capability_envelope.keys(),
            constraint_views(self.capability_envelope@),
            self.capability_envelope.keys().len(),
        ) + match self.provenance_hash {
            Some(h) => json::text_field("},\"provenance_hash\""@, h@),
            None => "},\"provenance_hash\":null"@,
        } + "}"@
    }

    fn push_head(&self, out: &mut String)
        ensures
            final(out)@ == old(out)@ + self.head_json(),
    {
        push_number_field(out, "{\"manifest_version\"", self.manifest_version as u64);
        push_text_field(out, ",\"branch_id\"", self.branch_id.as_str());
        push_number_field(out, ",\"parent_entity_id\"", self.parent_entity_id);
        push_number_field(out, ",\"fork_sequence\"", self.fork_sequence);
        push_text_field(out, ",\"code_hash\"", self.code_hash.as_str());
        push_number_field(out, ",\"schema_version\"", self.schema_version as u64);
        push_text_field(out, ",\"runtime_version\"", self.runtime_version.as_str());
        push_number_field(out, ",\"journal_format_version\"", self.journal_format_version as u64);
        push_text_field(out, ",\"created_at_hlc\"", self.created_at_hlc.as_str());
        push_text_field(out, ",\"created_by_principal\"", self.created_by_principal.as_str());
        assert(out@ =~= old(out)@ + self.head_json());
    }

    fn push_capabilities(&self, out: &mut String)
        ensures
            final(out)@ == old(out)@ + capability_members(
                self.capability_envelope.keys(),
                constraint_views(self.capability_envelope@),
                self.capability_envelope.keys().len(),
            ),
    {
        let n: usize = self.capability_envelope.len();
        let ghost keys = self.capability_envelope.keys();
        let ghost m = constraint_views(self.capability_envelope@);
        let ghost start = out@;
        let mut i: usize = 0;
        assert(out@ =~= start + capability_members(keys, m, 0));
        while i < n
            invariant
                i <= n,
                n == keys.len(),
                keys == self.capability_envelope.keys(),
                m == constraint_views(self.capability_envelope@),
                out@ == start + capability_members(keys, m, i as nat),
            decreases n - i,
        {
            let ghost before = out@;
            let (k, v) = self.capability_envelope.at(i);
            if i > 0 {
                out.append(",");
            }
            push_text_field(out, json_string(k.as_str()).as_str(), v.as_str());
            i += 1;
            assert(out@ =~= start + capability_members(keys, m, i as nat));
        }
    }

    /// Canonical bytes used for content identity and provenance binding.
    pub fn canonical_bytes(&self) -> (r: Result<Vec<u8>, BranchManifestError>)
        ensures
            match r {
                Ok(bytes) => self.fault() is None && bytes@ == encode_utf8(self.json()),
                Err(e) => self.fault() == Some(e),
            },
    {
        match self.validate() {
            Ok(_) => {},
            Err(e) => {
                return Err(e);
            },
        }
        let mut out: String = String::new();
        self.push_head(&mut out);
        out.append(",\"capability_envelope\":{");
        self.push_capabilities(&mut out);
        match &self.provenance_hash {
            Some(h) => push_text_field(&mut out, "},\"provenance_hash\"", h.as_str()),
            None => out.append("},\"provenance_hash\":null"),
        }
        out.append("}");
        assert(out@ =~= self.json());
        let bytes: &[u8] = out.as_str().as_bytes();
        let copy: Vec<u8> = sub_bytes(bytes, 0, bytes.len());
        assert(copy@ =~= bytes@);
        Ok(copy)
    }

    /// BLAKE3 content identity for the manifest itself.
    pub fn digest(&self) -> (r: Result<String, BranchManifestError>)
        ensures
            match r {
                Ok(d) => self.fault() is None && d@ == hashing::hex_text(
                    hashing::blake3_digest(encode_utf8(self.json())),
                ),
                Err(e) => self.fault() == Some(e),
            },
    {
        match self.canonical_bytes() {
            Ok(bytes) => Ok(blake3_hex(bytes.as_slice())),
            Err(e) => Err(e),
        }
    }

    /// Check whether a runtime and artifact exactly match this manifest.
    pub fn matches_execution_identity(
        &self,
        code_hash: &str,
        schema_version: u32,
        runtime_version: &str,
        journal_format_version: u32,
    ) -> (r: bool)
        ensures
            r == (self.code_hash@ == code_hash@ && self.schema_version == schema_version
                && self.runtime_version@ == runtime_version@ && self.journal_format_version
                == journal_format_version),
    {
        str_eq(self.code_hash.as_str(), code_hash) && self.schema_version == schema_version
            && str_eq(self.runtime_version.as_str(), runtime_version)
            && self.journal_format_version == journal_format_version
    }
}

/// The canonical form does not depend on the order in which capabilities were
/// added: manifests that say the same have the same bytes.
pub proof fn canonical_form_is_deterministic(a: BranchManifest, b: BranchManifest)
    requires
        a.same_identity(&b),
        a.capability_envelope.ordered(),
        b.capability_envelope.ordered(),
        constraint_views(a.capability_envelope@) == constraint_views(b.capability_envelope@),
        text::opt_view(a.provenance_hash) == text::opt_view(b.provenance_hash),
    ensures
        a.json() == b.json(),
{
    let ka = a.capability_envelope.keys();
    let kb = b.capability_envelope.keys();
    let ma = a.capability_envelope@;
    let mb = b.capability_envelope@;
    assert forall|x: Seq<char>| ka.contains(x) == kb.contains(x) by {
        assert(constraint_views(ma).contains_key(x) == ma.contains_key(x));
        assert(constraint_views(mb).contains_key(x) == mb.contains_key(x));
    }
    text::strictly_sorted_unique(ka, kb);
}

/// A branch manifest is accepted exactly where it is of the known version and
/// names its branch, code, runtime, time and author.
pub proof fn accepted_branches_name_their_origin(m: BranchManifest)
    ensures
        m.fault() is None <==> {
            &&& m.manifest_version == BRANCH_MANIFEST_VERSION
            &&& !text::is_blank(m.branch_id@)
            &&& !text::is_blank(m.code_hash@)
            &&& !text::is_blank(m.runtime_version@)
            &&& !text::is_blank(m.created_at_hlc@)
            &&& !text::is_blank(m.created_by_principal@)
        },
        m.manifest_version != BRANCH_MANIFEST_VERSION <==> m.fault() == Some(
            BranchManifestError::UnsupportedManifestVersion(m.manifest_version),
        ),
{
}

} // verus!
