//! Compiled deployment manifest for Nulang artifacts.
//!
//! The manifest is derived from the exact artifact bytes that will be deployed,
//! not from source text.

use crate::bytecode::{self, CodeModule, ForeignFunctionDef, NbcReader};
use crate::hashing::{self, blake3_hex};
use crate::json::{self, json_string, push_number_field, push_text_field};
use crate::text::{self, cat3, clone_strings, join, sorted_set};
use vstd::prelude::*;
use vstd::utf8::*;

verus! {

/// Current compiled execution manifest schema.
pub const DEPLOYMENT_MANIFEST_SCHEMA_VERSION: u32 = 1;

/// What an analysis of a module found about the runtime it needs.
#[derive(Debug, Clone, PartialEq, Eq)]
pub struct ExecutionProfile {
    pub feature_names: Vec<String>,
    pub external_effects: Vec<String>,
    pub external_effect_roots: Vec<String>,
    pub reaches_host_boundary: bool,
    pub ephemeral: bool,
    pub local_only: bool,
}

/// Security- and scheduling-relevant metadata derived from a compiled artifact.
#[derive(Debug, Clone, PartialEq, Eq)]
pub struct CompiledExecutionManifest {
    pub schema_version: u32,
    /// BLAKE3 digest of the exact artifact bytes this manifest describes.
    pub artifact_blake3: String,
    pub runtime_features: Vec<String>,
    pub external_effects: Vec<String>,
    pub external_effect_roots: Vec<String>,
    /// Explicit authority tokens attached to compiled spawn sites.
    pub spawn_capabilities: Vec<String>,
    pub ffi_libraries: Vec<String>,
    /// Exact native call authorities in `library::symbol` form.
    pub ffi_functions: Vec<String>,
    pub reaches_host_boundary: bool,
    pub ephemeral: bool,
    pub local_only: bool,
}

/// What a manifest says.
#[verifier::ext_equal]
pub struct ManifestView {
    pub schema_version: u32,
    pub artifact_blake3: Seq<char>,
    pub runtime_features: Seq<Seq<char>>,
    pub external_effects: Seq<Seq<char>>,
    pub external_effect_roots: Seq<Seq<char>>,
    pub spawn_capabilities: Seq<Seq<char>>,
    pub ffi_libraries: Seq<Seq<char>>,
    pub ffi_functions: Seq<Seq<char>>,
    pub reaches_host_boundary: bool,
    pub ephemeral: bool,
    pub local_only: bool,
}

impl View for CompiledExecutionManifest {
    type V = ManifestView;

    open spec fn view(&self) -> ManifestView {
        ManifestView {
            schema_version: self.schema_version,
            artifact_blake3: self.artifact_blake3@,
            runtime_features: text::views(self.runtime_features@),
            external_effects: text::views(self.external_effects@),
            external_effect_roots: text::views(self.external_effect_roots@),
            spawn_capabilities: text::views(self.spawn_capabilities@),
            ffi_libraries: text::views(self.ffi_libraries@),
            ffi_functions: text::views(self.ffi_functions@),
            reaches_host_boundary: self.reaches_host_boundary,
            ephemeral: self.ephemeral,
            local_only: self.local_only,
        }
    }
}

/// All grants of the first `n` spawn sites.
pub open spec fn all_grants(sites: Seq<(usize, Vec<String>)>, n: nat) -> Seq<Seq<char>>
    decreases n,
{
    if n == 0 {
        Seq::empty()
    } else {
        all_grants(sites, (n - 1) as nat) + text::views(sites[n - 1].1@)
    }
}

/// The libraries of foreign functions.
pub open spec fn libraries(f: Seq<ForeignFunctionDef>) -> Seq<Seq<char>> {
    f.map_values(|x: ForeignFunctionDef| x.library@)
}

/// The call authorities of foreign functions.
pub open spec fn authorities(f: Seq<ForeignFunctionDef>) -> Seq<Seq<char>> {
    f.map_values(|x: ForeignFunctionDef| x.library@ + "::"@ + x.symbol@)
}

/// The manifest of a module with its analysis and its exact bytes.
pub open spec fn manifest_of(
    module: CodeModule,
    bytes: Seq<u8>,
    profile: ExecutionProfile,
) -> ManifestView {
    ManifestView {
        schema_version: DEPLOYMENT_MANIFEST_SCHEMA_VERSION,
        artifact_blake3: hashing::hex_text(hashing::blake3_digest(bytes)),
        runtime_features: text::views(profile.feature_names@),
        external_effects: text::views(profile.external_effects@),
        external_effect_roots: text::views(profile.external_effect_roots@),
        spawn_capabilities: text::sorted_of(
            all_grants(
                module.spawn_capability_grants@,
                module.spawn_capability_grants@.len(),
            ),
        ),
        ffi_libraries: text::sorted_of(libraries(module.foreign_functions@)),
        ffi_functions: text::sorted_of(authorities(module.foreign_functions@)),
        reaches_host_boundary: profile.reaches_host_boundary,
        ephemeral: profile.ephemeral,
        local_only: profile.local_only,
    }
}

/// The analysis that finds what runtime a module needs.
pub trait ModuleProfiler: Sized {
    /// Analyses a module.
    fn profile(&self, module: &CodeModule) -> ExecutionProfile;
}

/// Whether `answer` is what the profiler returned for a module.
pub open spec fn profiled<P: ModuleProfiler>(
    profiler: &P,
    module: CodeModule,
    answer: ExecutionProfile,
) -> bool {
    call_ensures(P::profile, (profiler, &module), answer)
}

/// Whether `answer` is the manifest of exactly these artifact bytes, as the
/// tools decode and analyse them.
pub open spec fn manifest_derived<T: NbcReader + ModuleProfiler>(
    tools: &T,
    bytes: Seq<u8>,
    answer: Result<CompiledExecutionManifest, String>,
) -> bool {
    exists|decoded: Result<CodeModule, String>| #[trigger]
        bytecode::nbc_decoded(tools, bytes, decoded) && match decoded {
            Err(m) => answer == Err::<CompiledExecutionManifest, String>(m),
            Ok(module) => answer matches Ok(manifest) && exists|profile: ExecutionProfile|
                #[trigger] profiled(tools, module, profile) && manifest@ == manifest_of(
                    module,
                    bytes,
                    profile,
                ),
        }
}

/// A derived manifest carries the digest of the bytes that it was derived
/// from: two artifacts with different digests have different manifests.
pub proof fn manifest_names_its_bytes<T: NbcReader + ModuleProfiler>(
    tools: &T,
    bytes: Seq<u8>,
    manifest: CompiledExecutionManifest,
)
    requires
        manifest_derived(tools, bytes, Ok(manifest)),
    ensures
        manifest@.artifact_blake3 == hashing::hex_text(hashing::blake3_digest(bytes)),
        manifest@.schema_version == DEPLOYMENT_MANIFEST_SCHEMA_VERSION,
{
}

/// A JSON list of texts.
pub open spec fn texts_json(items: Seq<Seq<char>>) -> Seq<char> {
    "["@ + text::joined(items.map_values(|s: Seq<char>| json::json_text(s)), ","@) + "]"@
}

/// A named truth value.
pub open spec fn flag_field(name: Seq<char>, b: bool) -> Seq<char> {
    name + (if b {
        ":true"@
    } else {
        ":false"@
    })
}

/// A manifest as compact JSON, members in declaration order.
pub open spec fn manifest_json(m: ManifestView) -> Seq<char> {
    json::number_field("{\"schema_version\""@, m.schema_version as nat) + json::text_field(
        ",\"artifact_blake3\""@,
        m.artifact_blake3,
    ) + ",\"runtime_features\":"@ + texts_json(m.runtime_features) + ",\"external_effects\":"@
        + texts_json(m.external_effects) + ",\"external_effect_roots\":"@ + texts_json(
        m.external_effect_roots,
    ) + ",\"spawn_capabilities\":"@ + texts_json(m.spawn_capabilities) + ",\"ffi_libraries\":"@
        + texts_json(m.ffi_libraries) + ",\"ffi_functions\":"@ + texts_json(m.ffi_functions)
        + flag_field(",\"reaches_host_boundary\""@, m.reaches_host_boundary) + flag_field(
        ",\"ephemeral\""@,
        m.ephemeral,
    ) + flag_field(",\"local_only\""@, m.local_only) + "}"@
}

fn push_texts(out: &mut String, items: &Vec<String>)
    ensures
        final(out)@ == old(out)@ + texts_json(text::views(items@)),
{
    let mut literals: Vec<String> = Vec::new();
    let ghost want = text::views(items@).map_values(|s: Seq<char>| json::json_text(s));
    let mut i: usize = 0;
    assert(text::views(literals@) =~= want.take(0));
    while i < items.len()
        invariant
            i <= items@.len(),
            want == text::views(items@).map_values(|s: Seq<char>| json::json_text(s)),
            text::views(literals@) == want.take(i as int),
        decreases items@.len() - i,
    {
        let ghost before = text::views(literals@);
        literals.push(json_string(items[i].as_str()));
        i += 1;
        assert(text::views(literals@) =~= before.push(want[i - 1]));
        assert(text::views(literals@) =~= want.take(i as int));
    }
    assert(want.take(i as int) =~= want);
    out.append("[");
    out.append(join(&literals, ",").as_str());
    out.append("]");
    assert(out@ =~= old(out)@ + texts_json(text::views(items@)));
}

fn push_flag(out: &mut String, name: &str, b: bool)
    ensures
        final(out)@ == old(out)@ + flag_field(name@, b),
{
    out.append(name);
    if b {
        out.append(":true");
    } else {
        out.append(":false");
    }
    assert(out@ =~= old(out)@ + flag_field(name@, b));
}

fn collect_grants(sites: &Vec<(usize, Vec<String>)>) -> (r: Vec<String>)
    ensures
        text::views(r@) == all_grants(sites@, sites@.len()),
{
    let mut out: Vec<String> = Vec::new();
    let mut i: usize = 0;
    assert(text::views(out@) =~= all_grants(sites@, 0));
    while i < sites.len()
        invariant
            i <= sites@.len(),
            text::views(out@) == all_grants(sites@, i as nat),
        decreases sites@.len() - i,
    {
        let grants: &Vec<String> = &sites[i].1;
        let ghost start = text::views(out@);
        let ghost want = text::views(grants@);
        let mut k: usize = 0;
        assert(text::views(out@) =~= start + want.take(0));
        while k < grants.len()
            invariant
                k <= grants@.len(),
                want == text::views(grants@),
                text::views(out@) == start + want.take(k as int),
            decreases grants@.len() - k,
        {
            let ghost before = text::views(out@);
            out.push(grants[k].clone());
            k += 1;
            assert(text::views(out@) =~= before.push(want[k - 1]));
            assert(text::views(out@) =~= start + want.take(k as int));
        }
        assert(want.take(k as int) =~= want);
        i += 1;
    }
    out
}

fn collect_libraries(functions: &Vec<ForeignFunctionDef>) -> (r: (Vec<String>, Vec<String>))
    ensures
        text::views(r.0@) == libraries(functions@),
        text::views(r.1@) == authorities(functions@),
{
    let mut names: Vec<String> = Vec::new();
    let mut calls: Vec<String> = Vec::new();
    let ghost a = libraries(functions@);
    let ghost b = authorities(functions@);
    let mut i: usize = 0;
    assert(text::views(names@) =~= a.take(0));
    assert(text::views(calls@) =~= b.take(0));
    while i < functions.len()
        invariant
            i <= functions@.len(),
            a == libraries(functions@),
            b == authorities(functions@),
            text::views(names@) == a.take(i as int),
            text::views(calls@) == b.take(i as int),
        decreases functions@.len() - i,
    {
        let ghost x = text::views(names@);
        let ghost y = text::views(calls@);
        names.push(functions[i].library.clone());
        calls.push(cat3(functions[i].library.as_str(), "::", functions[i].symbol.as_str()));
        i += 1;
        assert(text::views(names@) =~= x.push(a[i - 1]));
        assert(text::views(calls@) =~= y.push(b[i - 1]));
        assert(text::views(names@) =~= a.take(i as int));
        assert(text::views(calls@) =~= b.take(i as int));
    }
    assert(a.take(i as int) =~= a);
    assert(b.take(i as int) =~= b);
    (names, calls)
}

impl CompiledExecutionManifest {
    /// Decode an `.nbc` artifact and derive a manifest bound to those exact
    /// bytes.
    pub fn from_nbc_bytes<T: NbcReader + ModuleProfiler>(bytes: &[u8], tools: &T) -> (r: Result<
        Self,
        String,
    >)
        ensures
            manifest_derived(tools, bytes@, r),
    {
        let decoded: Result<CodeModule, String> = tools.decode(bytes);
        assert(call_ensures(T::decode, (tools, bytes), decoded));
        assert(bytecode::nbc_decoded(tools, bytes@, decoded));
        match decoded {
            Err(m) => Err(m),
            Ok(module) => {
                let profile: ExecutionProfile = tools.profile(&module);
                assert(profiled(tools, module, profile));
                Ok(CompiledExecutionManifest::from_module_and_bytes(&module, bytes, &profile))
            },
        }
    }

    /// Derive a manifest from a decoded module, its original artifact bytes
    /// and its analysis.
    pub fn from_module_and_bytes(
        module: &CodeModule,
        bytes: &[u8],
        profile: &ExecutionProfile,
    ) -> (r: Self)
        ensures
            r@ == manifest_of(*module, bytes@, *profile),
    {
        let grants: Vec<String> = collect_grants(&module.spawn_capability_grants);
        let (names, calls) = collect_libraries(&module.foreign_functions);
        CompiledExecutionManifest {
            schema_version: DEPLOYMENT_MANIFEST_SCHEMA_VERSION,
            artifact_blake3: blake3_hex(bytes),
            runtime_features: clone_strings(&profile.feature_names),
            external_effects: clone_strings(&profile.external_effects),
            external_effect_roots: clone_strings(&profile.external_effect_roots),
            spawn_capabilities: sorted_set(&grants),
            ffi_libraries: sorted_set(&names),
            ffi_functions: sorted_set(&calls),
            reaches_host_boundary: profile.reaches_host_boundary,
            ephemeral: profile.ephemeral,
            local_only: profile.local_only,
        }
    }

    /// Compact JSON of the manifest.
    pub fn compact_json(&self) -> (r: String)
        ensures
            r@ == manifest_json(self@),
    {
        let mut out: String = String::new();
        push_number_field(&mut out, "{\"schema_version\"", self.schema_version as u64);
        push_text_field(&mut out, ",\"artifact_blake3\"", self.artifact_blake3.as_str());
        out.append(",\"runtime_features\":");
        push_texts(&mut out, &self.runtime_features);
        out.append(",\"external_effects\":");
        push_texts(&mut out, &self.external_effects);
        out.append(",\"external_effect_roots\":");
        push_texts(&mut out, &self.external_effect_roots);
        out.append(",\"spawn_capabilities\":");
        push_texts(&mut out, &self.spawn_capabilities);
        out.append(",\"ffi_libraries\":");
        push_texts(&mut out, &self.ffi_libraries);
        out.append(",\"ffi_functions\":");
        push_texts(&mut out, &self.ffi_functions);
        push_flag(&mut out, ",\"reaches_host_boundary\"", self.reaches_host_boundary);
        push_flag(&mut out, ",\"ephemeral\"", self.ephemeral);
        push_flag(&mut out, ",\"local_only\"", self.local_only);
        out.append("}");
        assert(out@ =~= manifest_json(self@));
        out
    }

    /// The manifest as JSON laid out in lines.
    pub fn to_json(&self) -> (r: String)
        ensures
            r@ == json::pretty(manifest_json(self@)),
    {
        json::pretty_json(self.compact_json().as_str())
    }

    /// Content address of the manifest.
    pub fn json_blake3(&self) -> (r: String)
        ensures
            r@ == hashing::hex_text(
                hashing::blake3_digest(encode_utf8(manifest_json(self@))),
            ),
    {
        let json: String = self.compact_json();
        blake3_hex(json.as_str().as_bytes())
    }

    /// Owned copy.
    pub fn copied(&self) -> (r: Self)
        ensures
            r@ == self@,
    {
        CompiledExecutionManifest {
            schema_version: self.schema_version,
            artifact_blake3: self.artifact_blake3.clone(),
            runtime_features: clone_strings(&self.runtime_features),
            external_effects: clone_strings(&self.external_effects),
            external_effect_roots: clone_strings(&self.external_effect_roots),
            spawn_capabilities: clone_strings(&self.spawn_capabilities),
            ffi_libraries: clone_strings(&self.ffi_libraries),
            ffi_functions: clone_strings(&self.ffi_functions),
            reaches_host_boundary: self.reaches_host_boundary,
            ephemeral: self.ephemeral,
            local_only: self.local_only,
        }
    }
}

/// Spawn authority depends on which grants there are, not on where, in which
/// order or how often they occur.
pub proof fn spawn_authority_is_a_set(
    a: CodeModule,
    b: CodeModule,
    bytes: Seq<u8>,
    profile: ExecutionProfile,
)
    requires
        forall|x: Seq<char>|
            all_grants(
                a.spawn_capability_grants@,
                a.spawn_capability_grants@.len(),
            ).contains(x) == #[trigger] all_grants(
                b.spawn_capability_grants@,
                b.spawn_capability_grants@.len(),
            ).contains(x),
    ensures
        manifest_of(a, bytes, profile).spawn_capabilities == manifest_of(
            b,
            bytes,
            profile,
        ).spawn_capabilities,
{
    text::sorted_of_ignores_order(
        all_grants(a.spawn_capability_grants@, a.spawn_capability_grants@.len()),
        all_grants(b.spawn_capability_grants@, b.spawn_capability_grants@.len()),
    );
}

proof fn grants_are_of_a_site(sites: Seq<(usize, Vec<String>)>, n: nat, x: Seq<char>)
    requires
        n <= sites.len(),
    ensures
        all_grants(sites, n).contains(x) <==> exists|i: int|
            0 <= i < n && text::views((#[trigger] sites[i]).1@).contains(x),
    decreases n,
{
    if n > 0 {
        let p = (n - 1) as nat;
        grants_are_of_a_site(sites, p, x);
        let a = all_grants(sites, p);
        let b = text::views(sites[n - 1].1@);
        if a.contains(x) {
            let k = choose|k: int| 0 <= k < a.len() && a[k] == x;
            assert((a + b)[k] == x);
        }
        if b.contains(x) {
            let k = choose|k: int| 0 <= k < b.len() && b[k] == x;
            assert((a + b)[a.len() + k] == x);
        }
        if (a + b).contains(x) {
            let k = choose|k: int| 0 <= k < (a + b).len() && (a + b)[k] == x;
            if k < a.len() {
                assert(a[k] == x);
            } else {
                assert(b[k - a.len()] == x);
            }
        }
    }
}

/// A manifest lists exactly the authority of its module, in order and each once:
/// what some spawn site grants, the libraries of its foreign functions, and the
/// functions by library and symbol.
pub proof fn manifests_list_the_authority(
    module: CodeModule,
    bytes: Seq<u8>,
    profile: ExecutionProfile,
    x: Seq<char>,
)
    ensures
        ({
            let m = manifest_of(module, bytes, profile);
            let sites = module.spawn_capability_grants@;
            let foreign = module.foreign_functions@;
            &&& m.spawn_capabilities.contains(x) <==> exists|i: int|
                0 <= i < sites.len() && text::views((#[trigger] sites[i]).1@).contains(x)
            &&& m.ffi_libraries.contains(x) <==> exists|i: int|
                0 <= i < foreign.len() && (#[trigger] foreign[i]).library@ == x
            &&& m.ffi_functions.contains(x) <==> exists|i: int|
                0 <= i < foreign.len() && (#[trigger] foreign[i]).library@ + "::"@
                    + foreign[i].symbol@ == x
            &&& text::strictly_sorted(m.spawn_capabilities)
            &&& text::strictly_sorted(m.ffi_libraries)
            &&& text::strictly_sorted(m.ffi_functions)
            &&& m.reaches_host_boundary == profile.reaches_host_boundary
            &&& m.ephemeral == profile.ephemeral
            &&& m.local_only == profile.local_only
        }),
{
    let sites = module.spawn_capability_grants@;
    let foreign = module.foreign_functions@;
    grants_are_of_a_site(sites, sites.len(), x);
    text::sorted_of_holds(all_grants(sites, sites.len()));
    let libs = libraries(foreign);
    let auth = authorities(foreign);
    text::sorted_of_holds(libs);
    text::sorted_of_holds(auth);
    if libs.contains(x) {
        let i = choose|i: int| 0 <= i < libs.len() && libs[i] == x;
        assert(foreign[i].library@ == x);
    }
    if exists|i: int| 0 <= i < foreign.len() && (#[trigger] foreign[i]).library@ == x {
        let i = choose|i: int| 0 <= i < foreign.len() && (#[trigger] foreign[i]).library@ == x;
        assert(libs[i] == x);
    }
    if auth.contains(x) {
        let i = choose|i: int| 0 <= i < auth.len() && auth[i] == x;
        assert(foreign[i].library@ + "::"@ + foreign[i].symbol@ == x);
    }
    if exists|i: int|
        0 <= i < foreign.len() && (#[trigger] foreign[i]).library@ + "::"@ + foreign[i].symbol@
            == x {
        let i = choose|i: int|
            0 <= i < foreign.len() && (#[trigger] foreign[i]).library@ + "::"@ + foreign[i].symbol@
                == x;
        assert(auth[i] == x);
    }
}

} // verus!
