//! The command lines of the two programs that write behavior manifests: the
//! builder, which also writes the compiled module, and the emitter, which takes
//! an artifact that is there already.

use vstd::prelude::*;

use crate::ast::Decl;
use crate::compiler_api::{self, find_import};
use crate::paths::{self, last_name, path_has_extension, replace_extension, replace_file_name};
use crate::text::{self, cat2, cat3, push_listed, str_eq, text};

verus! {

/// The kind of an artifact.
#[derive(Debug, Clone, Copy, PartialEq, Eq, Structural)]
pub enum ArtifactKind {
    Bytecode,
    Native,
    WasmModule,
    WasmComponent,
}

/// The kind that a word names.
pub open spec fn kind_named(s: Seq<char>) -> Option<ArtifactKind> {
    if s == "bytecode"@ {
        Some(ArtifactKind::Bytecode)
    } else if s == "native"@ {
        Some(ArtifactKind::Native)
    } else if s == "wasm-module"@ {
        Some(ArtifactKind::WasmModule)
    } else if s == "wasm-component"@ {
        Some(ArtifactKind::WasmComponent)
    } else {
        None
    }
}

/// The message on a word that names no kind.
pub open spec fn kind_message(s: Seq<char>) -> Seq<char> {
    "invalid --artifact-kind '"@ + s
        + "'; expected bytecode|native|wasm-module|wasm-component"@
}

/// The kind that a word names, see [`kind_named`].
pub fn parse_artifact_kind(value: &str) -> (r: Result<ArtifactKind, String>)
    ensures
        match r {
            Ok(k) => kind_named(value@) == Some(k),
            Err(m) => kind_named(value@) is None && m@ == kind_message(value@),
        },
{
    if str_eq(value, "bytecode") {
        Ok(ArtifactKind::Bytecode)
    } else if str_eq(value, "native") {
        Ok(ArtifactKind::Native)
    } else if str_eq(value, "wasm-module") {
        Ok(ArtifactKind::WasmModule)
    } else if str_eq(value, "wasm-component") {
        Ok(ArtifactKind::WasmComponent)
    } else {
        Err(
            cat3(
                "invalid --artifact-kind '",
                value,
                "'; expected bytecode|native|wasm-module|wasm-component",
            ),
        )
    }
}

/// The program that is run.
#[derive(Debug, Clone, Copy, PartialEq, Eq, Structural)]
pub enum Tool {
    Builder,
    Emitter,
}

/// What was read of the arguments so far. A flag that is given again replaces
/// the value before, but grants add up.
#[derive(Debug, PartialEq, Eq)]
pub struct Draft {
    pub source: Option<String>,
    pub artifact: Option<String>,
    pub artifact_kind: Option<ArtifactKind>,
    pub package_name: Option<String>,
    pub package_version: Option<String>,
    pub dependency_lock: Option<String>,
    pub compiler: Option<String>,
    pub out: Option<String>,
    pub manifest_out: Option<String>,
    pub grants: Vec<String>,
    pub aot: bool,
    pub deny_warnings: bool,
}

/// The content of a [`Draft`].
#[verifier::ext_equal]
pub struct DraftView {
    pub source: Option<Seq<char>>,
    pub artifact: Option<Seq<char>>,
    pub artifact_kind: Option<ArtifactKind>,
    pub package_name: Option<Seq<char>>,
    pub package_version: Option<Seq<char>>,
    pub dependency_lock: Option<Seq<char>>,
    pub compiler: Option<Seq<char>>,
    pub out: Option<Seq<char>>,
    pub manifest_out: Option<Seq<char>>,
    pub grants: Seq<Seq<char>>,
    pub aot: bool,
    pub deny_warnings: bool,
}

impl View for Draft {
    type V = DraftView;

    open spec fn view(&self) -> DraftView {
        DraftView {
            source: text::opt_view(self.source),
            artifact: text::opt_view(self.artifact),
            artifact_kind: self.artifact_kind,
            package_name: text::opt_view(self.package_name),
            package_version: text::opt_view(self.package_version),
            dependency_lock: text::opt_view(self.dependency_lock),
            compiler: text::opt_view(self.compiler),
            out: text::opt_view(self.out),
            manifest_out: text::opt_view(self.manifest_out),
            grants: text::views(self.grants@),
            aot: self.aot,
            deny_warnings: self.deny_warnings,
        }
    }
}

/// Nothing read yet.
pub open spec fn empty_draft() -> DraftView {
    DraftView {
        source: None,
        artifact: None,
        artifact_kind: None,
        package_name: None,
        package_version: None,
        dependency_lock: None,
        compiler: None,
        out: None,
        manifest_out: None,
        grants: Seq::empty(),
        aot: false,
        deny_warnings: false,
    }
}

/// Whether a flag of the program takes a value.
pub open spec fn takes_value(tool: Tool, flag: Seq<char>) -> bool {
    ||| flag == "--source"@
    ||| flag == "--package-name"@
    ||| flag == "--package-version"@
    ||| flag == "--dependency-lock"@
    ||| flag == "--out"@
    ||| flag == "--with"@
    ||| (tool == Tool::Builder && flag == "--manifest-out"@)
    ||| (tool == Tool::Emitter && (flag == "--artifact"@ || flag == "--artifact-kind"@ || flag
        == "--compiler"@))
}

/// The draft after a flag with its value.
pub open spec fn with_value(d: DraftView, flag: Seq<char>, v: Seq<char>) -> DraftView {
    if flag == "--source"@ {
        DraftView { source: Some(v), ..d }
    } else if flag == "--package-name"@ {
        DraftView { package_name: Some(v), ..d }
    } else if flag == "--package-version"@ {
        DraftView { package_version: Some(v), ..d }
    } else if flag == "--dependency-lock"@ {
        DraftView { dependency_lock: Some(v), ..d }
    } else if flag == "--out"@ {
        DraftView { out: Some(v), ..d }
    } else if flag == "--with"@ {
        DraftView { grants: d.grants + text::listed(v), ..d }
    } else if flag == "--manifest-out"@ {
        DraftView { manifest_out: Some(v), ..d }
    } else if flag == "--artifact"@ {
        DraftView { artifact: Some(v), ..d }
    } else if flag == "--artifact-kind"@ {
        DraftView { artifact_kind: kind_named(v), ..d }
    } else {
        DraftView { compiler: Some(v), ..d }
    }
}

/// What the arguments from `i` on add to a draft, or what is wrong with them.
pub open spec fn drafted(tool: Tool, args: Seq<Seq<char>>, i: int, d: DraftView) -> Result<
    DraftView,
    Seq<char>,
>
    decreases args.len() - i,
{
    if i >= args.len() {
        Ok(d)
    } else if takes_value(tool, args[i]) {
        if i + 1 >= args.len() {
            Err(args[i] + " requires a value"@)
        } else if args[i] == "--artifact-kind"@ && kind_named(args[i + 1]) is None {
            Err(kind_message(args[i + 1]))
        } else {
            drafted(tool, args, i + 2, with_value(d, args[i], args[i + 1]))
        }
    } else if tool == Tool::Builder && args[i] == "--aot"@ {
        drafted(tool, args, i + 1, DraftView { aot: true, ..d })
    } else if tool == Tool::Builder && args[i] == "--deny-warnings"@ {
        drafted(tool, args, i + 1, DraftView { deny_warnings: true, ..d })
    } else {
        Err("unknown option '"@ + args[i] + "' (run with --help)"@)
    }
}

/// Whether the arguments ask for help.
pub open spec fn asks_help(args: Seq<Seq<char>>) -> bool {
    args.contains("-h"@) || args.contains("--help"@)
}

/// The first required flag that a draft lacks.
pub open spec fn lacking(tool: Tool, d: DraftView) -> Option<Seq<char>> {
    if d.source is None {
        Some("--source"@)
    } else if tool == Tool::Emitter && d.artifact is None {
        Some("--artifact"@)
    } else if tool == Tool::Emitter && d.artifact_kind is None {
        Some("--artifact-kind"@)
    } else if d.package_name is None {
        Some("--package-name"@)
    } else if d.package_version is None {
        Some("--package-version"@)
    } else if d.dependency_lock is None {
        Some("--dependency-lock"@)
    } else if tool == Tool::Emitter && d.compiler is None {
        Some("--compiler"@)
    } else if tool == Tool::Builder && d.out is None {
        Some("--out"@)
    } else {
        None
    }
}

/// The draft that the arguments of a program give when nothing is lacking, or
/// what is wrong with them.
pub open spec fn complete(tool: Tool, args: Seq<Seq<char>>) -> Result<DraftView, Seq<char>> {
    match drafted(tool, args, 0, empty_draft()) {
        Err(m) => Err(m),
        Ok(d) => match lacking(tool, d) {
            Some(flag) => Err("missing required "@ + flag),
            None => Ok(d),
        },
    }
}

fn value_flag(tool: Tool, flag: &str) -> (r: bool)
    ensures
        r == takes_value(tool, flag@),
{
    str_eq(flag, "--source") || str_eq(flag, "--package-name") || str_eq(flag, "--package-version")
        || str_eq(flag, "--dependency-lock") || str_eq(flag, "--out") || str_eq(flag, "--with") || (
    tool == Tool::Builder && str_eq(flag, "--manifest-out")) || (tool == Tool::Emitter && (str_eq(
        flag,
        "--artifact",
    ) || str_eq(flag, "--artifact-kind") || str_eq(flag, "--compiler")))
}

impl Draft {
    fn new() -> (r: Self)
        ensures
            r@ == empty_draft(),
    {
        let r: Draft = Draft {
            source: None,
            artifact: None,
            artifact_kind: None,
            package_name: None,
            package_version: None,
            dependency_lock: None,
            compiler: None,
            out: None,
            manifest_out: None,
            grants: Vec::new(),
            aot: false,
            deny_warnings: false,
        };
        assert(r@ =~= empty_draft());
        r
    }

    fn set(&mut self, flag: &str, v: &str) -> (r: Result<(), String>)
        ensures
            match r {
                Ok(_) => !(flag@ == "--artifact-kind"@ && kind_named(v@) is None) && final(self)@
                    == with_value(old(self)@, flag@, v@),
                Err(m) => flag@ == "--artifact-kind"@ && kind_named(v@) is None && m@
                    == kind_message(v@),
            },
    {
        proof {
            reveal_strlit("--source");
            reveal_strlit("--package-name");
            reveal_strlit("--package-version");
            reveal_strlit("--dependency-lock");
            reveal_strlit("--out");
            reveal_strlit("--with");
            reveal_strlit("--manifest-out");
            reveal_strlit("--artifact");
            reveal_strlit("--artifact-kind");
            assert("--source"@.len() == 8);
            assert("--package-name"@.len() == 14);
            assert("--package-version"@.len() == 17);
            assert("--dependency-lock"@.len() == 17);
            assert("--out"@.len() == 5);
            assert("--with"@.len() == 6);
            assert("--manifest-out"@.len() == 14);
            assert("--artifact"@.len() == 10);
            assert("--artifact-kind"@.len() == 15);
        }
        if str_eq(flag, "--source") {
            self.source = Some(text(v));
        } else if str_eq(flag, "--package-name") {
            self.package_name = Some(text(v));
        } else if str_eq(flag, "--package-version") {
            self.package_version = Some(text(v));
        } else if str_eq(flag, "--dependency-lock") {
            self.dependency_lock = Some(text(v));
        } else if str_eq(flag, "--out") {
            self.out = Some(text(v));
        } else if str_eq(flag, "--with") {
            push_listed(&mut self.grants, v);
        } else if str_eq(flag, "--manifest-out") {
            self.manifest_out = Some(text(v));
        } else if str_eq(flag, "--artifact") {
            self.artifact = Some(text(v));
        } else if str_eq(flag, "--artifact-kind") {
            match parse_artifact_kind(v) {
                Ok(k) => {
                    self.artifact_kind = Some(k);
                },
                Err(m) => {
                    return Err(m);
                },
            }
        } else {
            self.compiler = Some(text(v));
        }
        Ok(())
    }

    fn lacks(&self, tool: Tool) -> (r: Option<&'static str>)
        ensures
            (match r {
                Some(f) => Some(f@),
                None => None,
            }) == lacking(tool, self@),
    {
        if self.source.is_none() {
            Some("--source")
        } else if tool == Tool::Emitter && self.artifact.is_none() {
            Some("--artifact")
        } else if tool == Tool::Emitter && self.artifact_kind.is_none() {
            Some("--artifact-kind")
        } else if self.package_name.is_none() {
            Some("--package-name")
        } else if self.package_version.is_none() {
            Some("--package-version")
        } else if self.dependency_lock.is_none() {
            Some("--dependency-lock")
        } else if tool == Tool::Emitter && self.compiler.is_none() {
            Some("--compiler")
        } else if tool == Tool::Builder && self.out.is_none() {
            Some("--out")
        } else {
            None
        }
    }
}

fn wants_help(args: &Vec<String>) -> (r: bool)
    ensures
        r == asks_help(text::views(args@)),
{
    let ghost all = text::views(args@);
    let mut i: usize = 0;
    while i < args.len()
        invariant
            all == text::views(args@),
            i <= args@.len(),
            forall|j: int| 0 <= j < i ==> all[j] != "-h"@ && all[j] != "--help"@,
        decreases args@.len() - i,
    {
        assert(all[i as int] == args@[i as int]@);
        if str_eq(args[i].as_str(), "-h") || str_eq(args[i].as_str(), "--help") {
            return true;
        }
        i = i + 1;
    }
    false
}

fn draft(tool: Tool, args: &Vec<String>) -> (r: Result<Draft, String>)
    ensures
        match r {
            Ok(d) => complete(tool, text::views(args@)) == Ok::<DraftView, Seq<char>>(d@),
            Err(m) => complete(tool, text::views(args@)) == Err::<DraftView, Seq<char>>(m@),
        },
{
    let ghost all = text::views(args@);
    let ghost goal = drafted(tool, all, 0, empty_draft());
    let mut d: Draft = Draft::new();
    let mut i: usize = 0;
    while i < args.len()
        invariant
            all == text::views(args@),
            i <= args@.len(),
            goal == drafted(tool, all, 0, empty_draft()),
            goal == drafted(tool, all, i as int, d@),
        decreases args@.len() - i,
    {
        assert(all[i as int] == args@[i as int]@);
        let flag: &str = args[i].as_str();
        if value_flag(tool, flag) {
            if args.len() - i < 2 {
                return Err(cat2(flag, " requires a value"));
            }
            assert(all[i + 1] == args@[i + 1]@);
            match d.set(flag, args[i + 1].as_str()) {
                Ok(_) => {},
                Err(m) => {
                    return Err(m);
                },
            }
            i = i + 2;
        } else if tool == Tool::Builder && str_eq(flag, "--aot") {
            d.aot = true;
            i = i + 1;
        } else if tool == Tool::Builder && str_eq(flag, "--deny-warnings") {
            d.deny_warnings = true;
            i = i + 1;
        } else {
            return Err(cat3("unknown option '", flag, "' (run with --help)"));
        }
    }
    match d.lacks(tool) {
        Some(flag) => Err(cat2("missing required ", flag)),
        None => Ok(d),
    }
}

/// The options of the builder.
#[derive(Debug, PartialEq, Eq)]
pub struct BuildOptions {
    pub source: String,
    pub package_name: String,
    pub package_version: String,
    pub dependency_lock: String,
    pub out: String,
    pub manifest_out: String,
    pub grants: Vec<String>,
    pub aot: bool,
    pub deny_warnings: bool,
}

/// Whether options are those of a complete draft; the manifest goes beside the
/// module where nothing else is said.
pub open spec fn builds(o: BuildOptions, d: DraftView) -> bool {
    &&& d.source == Some(o.source@)
    &&& d.package_name == Some(o.package_name@)
    &&& d.package_version == Some(o.package_version@)
    &&& d.dependency_lock == Some(o.dependency_lock@)
    &&& d.out == Some(o.out@)
    &&& o.manifest_out@ == (match d.manifest_out {
        Some(m) => m,
        None => paths::with_extension(o.out@, "behavior.json"@),
    })
    &&& text::views(o.grants@) == d.grants
    &&& o.aot == d.aot
    &&& o.deny_warnings == d.deny_warnings
}

fn must(o: &Option<String>) -> (r: String)
    requires
        *o is Some,
    ensures
        Some(r@) == text::opt_view(*o),
{
    match o {
        Some(s) => text(s.as_str()),
        None => String::new(),
    }
}

/// The path of the manifest beside a module.
pub fn default_manifest_path(wasm: &str) -> (r: String)
    ensures
        r@ == paths::with_extension(wasm@, "behavior.json"@),
{
    replace_extension(wasm, "behavior.json")
}

/// The path of the precompiled form of a module: its extension is replaced if it
/// is `wasm`, else one is added.
pub fn cwasm_path(wasm: &str) -> (r: String)
    ensures
        r@ == (if paths::extension(wasm@) == Some("wasm"@) {
            paths::with_extension(wasm@, "cwasm"@)
        } else {
            wasm@ + ".cwasm"@
        }),
{
    if path_has_extension(wasm, "wasm") {
        replace_extension(wasm, "cwasm")
    } else {
        cat2(wasm, ".cwasm")
    }
}

/// The options that the arguments of the builder give: `None` where they ask for
/// help, an error where something is wrong or lacking.
pub fn parse_build_args(args: &Vec<String>) -> (r: Result<Option<BuildOptions>, String>)
    ensures
        match r {
            Ok(None) => asks_help(text::views(args@)),
            Ok(Some(o)) => !asks_help(text::views(args@)) && (complete(
                Tool::Builder,
                text::views(args@),
            ) matches Ok(d) && builds(o, d)),
            Err(m) => !asks_help(text::views(args@)) && complete(Tool::Builder, text::views(args@))
                == Err::<DraftView, Seq<char>>(m@),
        },
{
    if wants_help(args) {
        return Ok(None);
    }
    match draft(Tool::Builder, args) {
        Err(m) => Err(m),
        Ok(d) => {
            let ghost v = d@;
            let out: String = must(&d.out);
            let manifest_out: String = match &d.manifest_out {
                Some(m) => text(m.as_str()),
                None => default_manifest_path(out.as_str()),
            };
            let o: BuildOptions = BuildOptions {
                source: must(&d.source),
                package_name: must(&d.package_name),
                package_version: must(&d.package_version),
                dependency_lock: must(&d.dependency_lock),
                out,
                manifest_out,
                grants: d.grants,
                aot: d.aot,
                deny_warnings: d.deny_warnings,
            };
            assert(builds(o, v));
            Ok(Some(o))
        },
    }
}

/// The options of the emitter.
#[derive(Debug, PartialEq, Eq)]
pub struct EmitOptions {
    pub source: String,
    pub artifact: String,
    pub artifact_kind: ArtifactKind,
    pub package_name: String,
    pub package_version: String,
    pub dependency_lock: String,
    pub compiler: String,
    pub out: String,
    pub grants: Vec<String>,
}

/// The path of the manifest beside an artifact: its file name with an extension
/// added.
pub open spec fn beside(artifact: Seq<char>) -> Seq<char> {
    paths::with_file_name(
        artifact,
        (match paths::file_name(artifact) {
            Some(n) => n,
            None => "artifact"@,
        }) + ".behavior.json"@,
    )
}

/// Whether options are those of a complete draft; the manifest goes beside the
/// artifact where nothing else is said.
pub open spec fn emits(o: EmitOptions, d: DraftView) -> bool {
    &&& d.source == Some(o.source@)
    &&& d.artifact == Some(o.artifact@)
    &&& d.artifact_kind == Some(o.artifact_kind)
    &&& d.package_name == Some(o.package_name@)
    &&& d.package_version == Some(o.package_version@)
    &&& d.dependency_lock == Some(o.dependency_lock@)
    &&& d.compiler == Some(o.compiler@)
    &&& o.out@ == (match d.out {
        Some(m) => m,
        None => beside(o.artifact@),
    })
    &&& text::views(o.grants@) == d.grants
}

/// The path of the manifest beside an artifact, see [`beside`].
pub fn default_output_path(artifact: &str) -> (r: String)
    ensures
        r@ == beside(artifact@),
{
    let name: String = match last_name(artifact) {
        Some(n) => n,
        None => text("artifact"),
    };
    replace_file_name(artifact, cat2(name.as_str(), ".behavior.json").as_str())
}

/// The options that the arguments of the emitter give: `None` where they ask for
/// help, an error where something is wrong or lacking.
pub fn parse_emit_args(args: &Vec<String>) -> (r: Result<Option<EmitOptions>, String>)
    ensures
        match r {
            Ok(None) => asks_help(text::views(args@)),
            Ok(Some(o)) => !asks_help(text::views(args@)) && (complete(
                Tool::Emitter,
                text::views(args@),
            ) matches Ok(d) && emits(o, d)),
            Err(m) => !asks_help(text::views(args@)) && complete(Tool::Emitter, text::views(args@))
                == Err::<DraftView, Seq<char>>(m@),
        },
{
    if wants_help(args) {
        return Ok(None);
    }
    match draft(Tool::Emitter, args) {
        Err(m) => Err(m),
        Ok(d) => {
            let ghost v = d@;
            let artifact: String = must(&d.artifact);
            let out: String = match &d.out {
                Some(m) => text(m.as_str()),
                None => default_output_path(artifact.as_str()),
            };
            let artifact_kind: ArtifactKind = match d.artifact_kind {
                Some(k) => k,
                None => ArtifactKind::Bytecode,
            };
            let o: EmitOptions = EmitOptions {
                source: must(&d.source),
                artifact,
                artifact_kind,
                package_name: must(&d.package_name),
                package_version: must(&d.package_version),
                dependency_lock: must(&d.dependency_lock),
                compiler: must(&d.compiler),
                out,
                grants: d.grants,
            };
            assert(emits(o, v));
            Ok(Some(o))
        },
    }
}

/// Whether a module imports another one, at any depth.
pub fn contains_import(decls: &Vec<Decl>) -> (r: bool)
    ensures
        r == (compiler_api::first_import(decls@, decls@.len()) is Some),
{
    find_import(decls).is_some()
}

/// Nothing is built or emitted without provenance: where the arguments are
/// complete, the lock of the dependencies is named, and for the emitter the
/// compiler too.
pub proof fn provenance_is_required(tool: Tool, args: Seq<Seq<char>>)
    ensures
        complete(tool, args) matches Ok(d) ==> d.dependency_lock is Some && (tool == Tool::Emitter
            ==> d.compiler is Some && d.artifact is Some && d.artifact_kind is Some),
{
}

/// An option with a value sets what it names and nothing else; the option for
/// grants adds to them.
pub proof fn options_set_what_they_name(d: DraftView, flag: Seq<char>, v: Seq<char>)
    ensures
        ({
            let e = with_value(d, flag, v);
            &&& e.source == (if flag == "--source"@ { Some(v) } else { d.source })
            &&& e.package_name == (if flag == "--package-name"@ { Some(v) } else { d.package_name })
            &&& e.package_version == (if flag == "--package-version"@ {
                Some(v)
            } else {
                d.package_version
            })
            &&& e.dependency_lock == (if flag == "--dependency-lock"@ {
                Some(v)
            } else {
                d.dependency_lock
            })
            &&& e.out == (if flag == "--out"@ { Some(v) } else { d.out })
            &&& e.manifest_out == (if flag == "--manifest-out"@ { Some(v) } else { d.manifest_out })
            &&& e.artifact == (if flag == "--artifact"@ { Some(v) } else { d.artifact })
            &&& e.artifact_kind == (if flag == "--artifact-kind"@ {
                kind_named(v)
            } else {
                d.artifact_kind
            })
            &&& flag != "--with"@ ==> e.grants == d.grants
            &&& flag == "--with"@ ==> d.grants.is_prefix_of(e.grants)
            &&& e.aot == d.aot && e.deny_warnings == d.deny_warnings
        }),
{
    reveal_strlit("--source");
    reveal_strlit("--package-name");
    reveal_strlit("--package-version");
    reveal_strlit("--dependency-lock");
    reveal_strlit("--out");
    reveal_strlit("--with");
    reveal_strlit("--manifest-out");
    reveal_strlit("--artifact");
    reveal_strlit("--artifact-kind");
    assert("--source"@.len() == 8 && "--package-name"@.len() == 14 && "--package-version"@.len()
        == 17 && "--dependency-lock"@.len() == 17 && "--out"@.len() == 5 && "--with"@.len() == 6
        && "--manifest-out"@.len() == 14 && "--artifact"@.len() == 10 && "--artifact-kind"@.len()
        == 15);
    assert("--package-version"@[2] != "--dependency-lock"@[2]);
    assert("--package-name"@[2] != "--manifest-out"@[2]);
    assert((d.grants + text::listed(v)).take(d.grants.len() as int) =~= d.grants);
}

/// A manifest for which no path is given stands beside the artifact, under its
/// name and one more extension; a given path is kept.
pub proof fn manifests_stand_beside_their_artifact(o: EmitOptions, d: DraftView)
    requires
        emits(o, d),
        paths::file_name(o.artifact@) matches Some(n) && paths::is_file_name(n),
    ensures
        d.out is None ==> paths::file_name(o.out@) == Some(
            paths::file_name(o.artifact@)->0 + ".behavior.json"@,
        ),
        d.out matches Some(p) ==> o.out@ == p,
{
    let n = paths::file_name(o.artifact@)->0;
    let m = n + ".behavior.json"@;
    reveal_strlit(".behavior.json");
    reveal_strlit(".");
    reveal_strlit("..");
    assert(m.len() > 2);
    assert forall|i: int| 0 <= i < m.len() implies #[trigger] m[i] != '/' by {
        if i < n.len() {
            assert(m[i] == n[i]);
        } else {
            assert(m[i] == ".behavior.json"@[i - n.len()]);
        }
    }
    paths::replaced_names_are_found(o.artifact@, m);
}

} // verus!
