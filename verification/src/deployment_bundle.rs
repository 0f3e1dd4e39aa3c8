//! Hardened parser for the gzip/tar deployment bundle.
//!
//! The parser never extracts archive contents to disk. It validates archive
//! paths and entry types, enforces compressed, expanded and resource limits,
//! and binds the package identity to exactly one packaged artifact.

use crate::admission_policy::{self, AdmissionDecision, AdmissionEnvironment, AdmissionEvaluator, AdmissionPolicy};
use crate::bytecode::NbcReader;
use crate::deployment_manifest::{self, CompiledExecutionManifest, ModuleProfiler};
use crate::hashing;
use crate::paths::{self, extension_is, path_components, plain_path};
use crate::text::{self, cat2, cat3, cat4, dec_of, str_eq, text};
use std::io::Read;
use vstd::prelude::*;
use vstd::utf8::*;

verus! {

pub const MAX_DEPLOYMENT_BUNDLE_BYTES: usize = 268_435_456;

pub const MAX_DEPLOYMENT_EXPANDED_BYTES: u64 = 2_147_483_648;

pub const MAX_DEPLOYMENT_ENTRIES: usize = 100_000;

pub const MAX_NBC_ARTIFACT_BYTES: u64 = 268_435_456;

pub const MAX_PACKAGE_MANIFEST_BYTES: u64 = 1_048_576;

pub const MAX_DEPLOYMENT_IR_BYTES: u64 = 8_388_608;

// ---------------------------------------------------------------------------
// The archive
// ---------------------------------------------------------------------------

/// What the header of an archive entry says.
#[derive(Debug, PartialEq, Eq)]
pub struct EntryHead {
    pub is_file: bool,
    pub is_dir: bool,
    /// The path, or why it cannot be read.
    pub path: Result<String, String>,
    pub size: u64,
}

/// An entry header as plain values: whether it is a file, whether it is a
/// directory, its path or why there is none, its size.
pub type EntryFacts = (bool, bool, Result<Seq<char>, Seq<char>>, u64);

/// A text or a message.
pub open spec fn text_result(r: Result<String, String>) -> Result<Seq<char>, Seq<char>> {
    match r {
        Ok(s) => Ok(s@),
        Err(e) => Err(e@),
    }
}

impl View for EntryHead {
    type V = EntryFacts;

    open spec fn view(&self) -> EntryFacts {
        (self.is_file, self.is_dir, text_result(self.path), self.size)
    }
}

/// Listed entries as plain values.
pub open spec fn entry_views(s: Seq<Result<EntryHead, String>>) -> Seq<
    Result<EntryFacts, Seq<char>>,
> {
    s.map_values(
        |e: Result<EntryHead, String>|
            match e {
                Ok(h) => Ok::<EntryFacts, Seq<char>>(h@),
                Err(m) => Err::<EntryFacts, Seq<char>>(m@),
            },
    )
}

/// The first `count` entries of a gzip-compressed tar archive.
pub uninterp spec fn archive_listing(archive: Seq<u8>, count: usize) -> Seq<
    Result<(bool, bool, Result<Seq<char>, Seq<char>>, u64), Seq<char>>,
>;

/// The first bytes, `max` of them at most, of the content of the entry at a
/// position, or why they cannot be read.
pub uninterp spec fn archive_content(archive: Seq<u8>, index: usize, max: u64) -> Result<
    Seq<u8>,
    Seq<char>,
>;

/// `tar::Archive::entries` over `flate2::read::GzDecoder`: the headers of the
/// first `count` entries, in order, an unreadable one with its message. A path
/// is read from its bytes, which are the same on every platform; what is no
/// UTF-8 in it is shown by replacement characters.
#[verifier::external_body]
fn list_archive(archive: &[u8], count: usize) -> (r: Vec<Result<EntryHead, String>>)
    ensures
        entry_views(r@) == archive_listing(archive@, count),
{
    let mut tar = tar::Archive::new(flate2::read::GzDecoder::new(archive));
    match tar.entries() {
        Ok(all) => all.take(count).map(|next| next.map(|e| EntryHead {
            is_file: e.header().entry_type().is_file(),
            is_dir: e.header().entry_type().is_dir(),
            path: Ok(String::from_utf8_lossy(&e.path_bytes()).into_owned()),
            size: e.size(),
        }).map_err(|x| x.to_string())).collect(),
        Err(x) => vec![Err(x.to_string())],
    }
}

/// `tar::Entry` read through `Read::take`: at most `max` bytes of the content
/// of the entry at `index`.
#[verifier::external_body]
fn read_archive(archive: &[u8], index: usize, max: u64) -> (r: Result<
    Vec<u8>,
    String,
>)
    ensures
        match r {
            Ok(v) => archive_content(archive@, index, max) == Ok::<Seq<u8>, Seq<char>>(
                v@,
            ) && v@.len() <= max,
            Err(e) => archive_content(archive@, index, max) == Err::<Seq<u8>, Seq<char>>(
                e@,
            ),
        },
{
    let mut tar = tar::Archive::new(flate2::read::GzDecoder::new(archive));
    let mut data = Vec::new();
    let mut entries = tar.entries().map_err(|x| x.to_string())?;
    let entry = entries.nth(index).ok_or_else(|| String::new())?.map_err(|x| x.to_string())?;
    entry.take(max).read_to_end(&mut data).map_err(|x| x.to_string())?;
    Ok(data)
}

// ---------------------------------------------------------------------------
// Errors
// ---------------------------------------------------------------------------

#[derive(Debug, Clone, PartialEq, Eq)]
pub enum DeploymentBundleError {
    CompressedTooLarge { actual: usize, max: usize },
    ExpandedTooLarge { actual: u64, max: u64 },
    TooManyEntries { actual: usize, max: usize },
    UnsafePath { path: String },
    UnsupportedEntryType { path: String },
    MissingPackageManifest,
    MultiplePackageManifests,
    PackageManifestTooLarge { actual: u64, max: u64 },
    InvalidPackageManifest(String),
    MissingArtifact,
    MultipleArtifacts,
    ArtifactNameMismatch { expected: String, actual: String },
    ArtifactTooLarge { actual: u64, max: u64 },
    InvalidArtifact(String),
    MultipleDeploymentIr,
    DeploymentIrTooLarge { actual: u64, max: u64 },
    InvalidDeploymentIr(String),
    IncompleteDeploymentMetadata,
    Archive(String),
}

/// What a bundle error says.
#[verifier::ext_equal]
pub enum BundleFault {
    CompressedTooLarge(usize, usize),
    ExpandedTooLarge(u64, u64),
    TooManyEntries(usize, usize),
    UnsafePath(Seq<char>),
    UnsupportedEntryType(Seq<char>),
    MissingPackageManifest,
    MultiplePackageManifests,
    PackageManifestTooLarge(u64, u64),
    InvalidPackageManifest(Seq<char>),
    MissingArtifact,
    MultipleArtifacts,
    ArtifactNameMismatch(Seq<char>, Seq<char>),
    ArtifactTooLarge(u64, u64),
    InvalidArtifact(Seq<char>),
    MultipleDeploymentIr,
    DeploymentIrTooLarge(u64, u64),
    InvalidDeploymentIr(Seq<char>),
    IncompleteDeploymentMetadata,
    Archive(Seq<char>),
}

impl View for DeploymentBundleError {
    type V = BundleFault;

    open spec fn view(&self) -> BundleFault {
        match self {
            DeploymentBundleError::CompressedTooLarge { actual, max } =>
                BundleFault::CompressedTooLarge(*actual, *max),
            DeploymentBundleError::ExpandedTooLarge { actual, max } =>
                BundleFault::ExpandedTooLarge(*actual, *max),
            DeploymentBundleError::TooManyEntries { actual, max } => BundleFault::TooManyEntries(
                *actual,
                *max,
            ),
            DeploymentBundleError::UnsafePath { path } => BundleFault::UnsafePath(path@),
            DeploymentBundleError::UnsupportedEntryType { path } =>
                BundleFault::UnsupportedEntryType(path@),
            DeploymentBundleError::MissingPackageManifest => BundleFault::MissingPackageManifest,
            DeploymentBundleError::MultiplePackageManifests =>
                BundleFault::MultiplePackageManifests,
            DeploymentBundleError::PackageManifestTooLarge { actual, max } =>
                BundleFault::PackageManifestTooLarge(*actual, *max),
            DeploymentBundleError::InvalidPackageManifest(m) =>
                BundleFault::InvalidPackageManifest(m@),
            DeploymentBundleError::MissingArtifact => BundleFault::MissingArtifact,
            DeploymentBundleError::MultipleArtifacts => BundleFault::MultipleArtifacts,
            DeploymentBundleError::ArtifactNameMismatch { expected, actual } =>
                BundleFault::ArtifactNameMismatch(expected@, actual@),
            DeploymentBundleError::ArtifactTooLarge { actual, max } =>
                BundleFault::ArtifactTooLarge(*actual, *max),
            DeploymentBundleError::InvalidArtifact(m) => BundleFault::InvalidArtifact(m@),
            DeploymentBundleError::MultipleDeploymentIr => BundleFault::MultipleDeploymentIr,
            DeploymentBundleError::DeploymentIrTooLarge { actual, max } =>
                BundleFault::DeploymentIrTooLarge(*actual, *max),
            DeploymentBundleError::InvalidDeploymentIr(m) => BundleFault::InvalidDeploymentIr(m@),
            DeploymentBundleError::IncompleteDeploymentMetadata =>
                BundleFault::IncompleteDeploymentMetadata,
            DeploymentBundleError::Archive(m) => BundleFault::Archive(m@),
        }
    }
}

/// A size and its limit in a sentence.
pub open spec fn size_text(what: Seq<char>, actual: nat, unit: Seq<char>, max: nat) -> Seq<char> {
    what + text::dec(actual) + unit + text::dec(max)
}

fn sized_text(what: &str, actual: u64, unit: &str, max: u64) -> (r: String)
    ensures
        r@ == size_text(what@, actual as nat, unit@, max as nat),
{
    cat4(what, dec_of(actual).as_str(), unit, dec_of(max).as_str())
}

/// The text of a bundle error.
pub open spec fn fault_text(f: BundleFault) -> Seq<char> {
    match f {
        BundleFault::CompressedTooLarge(a, m) => size_text(
            "deployment bundle is "@,
            a as nat,
            " bytes; maximum is "@,
            m as nat,
        ),
        BundleFault::ExpandedTooLarge(a, m) => size_text(
            "expanded deployment is "@,
            a as nat,
            " bytes; maximum is "@,
            m as nat,
        ),
        BundleFault::TooManyEntries(a, m) => size_text(
            "deployment bundle has "@,
            a as nat,
            " entries; maximum is "@,
            m as nat,
        ),
        BundleFault::UnsafePath(p) => "unsafe archive path: "@ + p,
        BundleFault::UnsupportedEntryType(p) => "unsupported archive entry type at "@ + p,
        BundleFault::MissingPackageManifest => "deployment bundle is missing Nulang.toml"@,
        BundleFault::MultiplePackageManifests =>
            "deployment bundle contains multiple Nulang.toml entries"@,
        BundleFault::PackageManifestTooLarge(a, m) => size_text(
            "Nulang.toml is "@,
            a as nat,
            " bytes; maximum is "@,
            m as nat,
        ),
        BundleFault::InvalidPackageManifest(m) => "invalid Nulang.toml: "@ + m,
        BundleFault::MissingArtifact => "deployment bundle contains no .nula/dist/*.nbc"@,
        BundleFault::MultipleArtifacts =>
            "deployment bundle contains multiple .nula/dist/*.nbc artifacts"@,
        BundleFault::ArtifactNameMismatch(e, a) => "compiled artifact path "@ + a
            + " does not match package manifest; expected "@ + e,
        BundleFault::ArtifactTooLarge(a, m) => size_text(
            ".nbc artifact is "@,
            a as nat,
            " bytes; maximum is "@,
            m as nat,
        ),
        BundleFault::InvalidArtifact(m) => "invalid .nbc artifact: "@ + m,
        BundleFault::MultipleDeploymentIr =>
            "deployment bundle contains duplicate nulang-app.ir.json"@,
        BundleFault::DeploymentIrTooLarge(a, m) => size_text(
            "deployment IR is "@,
            a as nat,
            " bytes; maximum is "@,
            m as nat,
        ),
        BundleFault::InvalidDeploymentIr(m) => "invalid deployment IR: "@ + m,
        BundleFault::IncompleteDeploymentMetadata =>
            "deployment IR contains incomplete semantic metadata and cannot be admitted"@,
        BundleFault::Archive(m) => "invalid deployment archive: "@ + m,
    }
}

impl DeploymentBundleError {
    pub fn to_string(&self) -> (r: String)
        ensures
            r@ == fault_text(self@),
    {
        match self {
            DeploymentBundleError::CompressedTooLarge { actual, max } => sized_text(
                "deployment bundle is ",
                *actual as u64,
                " bytes; maximum is ",
                *max as u64,
            ),
            DeploymentBundleError::ExpandedTooLarge { actual, max } => sized_text(
                "expanded deployment is ",
                *actual,
                " bytes; maximum is ",
                *max,
            ),
            DeploymentBundleError::TooManyEntries { actual, max } => sized_text(
                "deployment bundle has ",
                *actual as u64,
                " entries; maximum is ",
                *max as u64,
            ),
            DeploymentBundleError::UnsafePath { path } => cat2(
                "unsafe archive path: ",
                path.as_str(),
            ),
            DeploymentBundleError::UnsupportedEntryType { path } => cat2(
                "unsupported archive entry type at ",
                path.as_str(),
            ),
            DeploymentBundleError::MissingPackageManifest => text(
                "deployment bundle is missing Nulang.toml",
            ),
            DeploymentBundleError::MultiplePackageManifests => text(
                "deployment bundle contains multiple Nulang.toml entries",
            ),
            DeploymentBundleError::PackageManifestTooLarge { actual, max } => sized_text(
                "Nulang.toml is ",
                *actual,
                " bytes; maximum is ",
                *max,
            ),
            DeploymentBundleError::InvalidPackageManifest(m) => cat2(
                "invalid Nulang.toml: ",
                m.as_str(),
            ),
            DeploymentBundleError::MissingArtifact => text(
                "deployment bundle contains no .nula/dist/*.nbc",
            ),
            DeploymentBundleError::MultipleArtifacts => text(
                "deployment bundle contains multiple .nula/dist/*.nbc artifacts",
            ),
            DeploymentBundleError::ArtifactNameMismatch { expected, actual } => cat4(
                "compiled artifact path ",
                actual.as_str(),
                " does not match package manifest; expected ",
                expected.as_str(),
            ),
            DeploymentBundleError::ArtifactTooLarge { actual, max } => sized_text(
                ".nbc artifact is ",
                *actual,
                " bytes; maximum is ",
                *max,
            ),
            DeploymentBundleError::InvalidArtifact(m) => cat2(
                "invalid .nbc artifact: ",
                m.as_str(),
            ),
            DeploymentBundleError::MultipleDeploymentIr => text(
                "deployment bundle contains duplicate nulang-app.ir.json",
            ),
            DeploymentBundleError::DeploymentIrTooLarge { actual, max } => sized_text(
                "deployment IR is ",
                *actual,
                " bytes; maximum is ",
                *max,
            ),
            DeploymentBundleError::InvalidDeploymentIr(m) => cat2(
                "invalid deployment IR: ",
                m.as_str(),
            ),
            DeploymentBundleError::IncompleteDeploymentMetadata => text(
                "deployment IR contains incomplete semantic metadata and cannot be admitted",
            ),
            DeploymentBundleError::Archive(m) => cat2(
                "invalid deployment archive: ",
                m.as_str(),
            ),
        }
    }
}

// ---------------------------------------------------------------------------
// Paths
// ---------------------------------------------------------------------------

/// Only relative paths that never climb up are safe.
pub fn validate_archive_path(path: &str) -> (r: Result<(), DeploymentBundleError>)
    ensures
        match r {
            Ok(_) => paths::is_plain(path@),
            Err(e) => !paths::is_plain(path@) && e@ == BundleFault::UnsafePath(path@),
        },
{
    if plain_path(path) {
        Ok(())
    } else {
        Err(DeploymentBundleError::UnsafePath { path: text(path) })
    }
}

/// Whether a path is that of the package manifest.
pub open spec fn is_package_path(path: Seq<char>) -> bool {
    paths::components(path) == seq!["Nulang.toml"@]
}

/// Whether a path is that of the deployment IR.
pub open spec fn is_ir_path(path: Seq<char>) -> bool {
    paths::components(path) == seq!["dist"@, "nulang-app.ir.json"@]
}

/// Whether a path is that of a packaged artifact.
pub open spec fn is_artifact_path(path: Seq<char>) -> bool {
    let c = paths::components(path);
    c.len() > 2 && c[0] == ".nula"@ && c[1] == "dist"@ && paths::has_extension(c.last(), "nbc"@)
}

fn is_package_manifest(path: &str) -> (r: bool)
    ensures
        r == is_package_path(path@),
{
    let c: Vec<String> = path_components(path);
    let ghost want = seq!["Nulang.toml"@];
    if c.len() != 1 {
        assert(text::views(c@).len() != want.len());
        return false;
    }
    let r: bool = str_eq(c[0].as_str(), "Nulang.toml");
    assert(text::views(c@)[0] == c@[0]@);
    assert(want[0] == "Nulang.toml"@);
    assert(r ==> text::views(c@) =~= want);
    r
}

fn is_deployment_ir(path: &str) -> (r: bool)
    ensures
        r == is_ir_path(path@),
{
    let c: Vec<String> = path_components(path);
    let ghost want = seq!["dist"@, "nulang-app.ir.json"@];
    if c.len() != 2 {
        assert(text::views(c@).len() != want.len());
        return false;
    }
    let r: bool = str_eq(c[0].as_str(), "dist") && str_eq(c[1].as_str(), "nulang-app.ir.json");
    assert(text::views(c@)[0] == c@[0]@);
    assert(text::views(c@)[1] == c@[1]@);
    assert(want[0] == "dist"@ && want[1] == "nulang-app.ir.json"@);
    assert(r ==> text::views(c@) =~= want);
    r
}

fn is_packaged_nbc(path: &str) -> (r: bool)
    ensures
        r == is_artifact_path(path@),
{
    let c: Vec<String> = path_components(path);
    assert(text::views(c@).len() == c@.len());
    if c.len() <= 2 {
        return false;
    }
    assert(text::views(c@)[0] == c@[0]@);
    assert(text::views(c@)[1] == c@[1]@);
    assert(text::views(c@).last() == c@[c@.len() - 1]@);
    str_eq(c[0].as_str(), ".nula") && str_eq(c[1].as_str(), "dist") && extension_is(
        c[c.len() - 1].as_str(),
        "nbc",
    )
}

/// The path that the artifact of a package must have.
pub open spec fn artifact_path_of(package: Seq<char>) -> Seq<char> {
    if package.len() > 0 && package[0] == '/' {
        package + ".nbc"@
    } else {
        ".nula/dist/"@ + package + ".nbc"@
    }
}

fn expected_artifact(package: &str) -> (r: String)
    ensures
        r@ == artifact_path_of(package@),
{
    if package.unicode_len() > 0 && package.get_char(0) == '/' {
        cat2(package, ".nbc")
    } else {
        cat3(".nula/dist/", package, ".nbc")
    }
}

// ---------------------------------------------------------------------------
// Scanning
// ---------------------------------------------------------------------------

/// What is known after some entries.
#[derive(Debug, Clone, PartialEq, Eq)]
pub struct BundleScan {
    pub entry_count: usize,
    pub expanded_bytes: u64,
    pub has_package: bool,
    pub artifact: Option<(String, Vec<u8>)>,
    pub has_ir: bool,
}

/// What is known after some entries, by content.
#[verifier::ext_equal]
pub struct ScanView {
    pub entry_count: int,
    pub expanded_bytes: u64,
    pub has_package: bool,
    pub artifact: Option<(Seq<char>, Seq<u8>)>,
    pub has_ir: bool,
}

impl View for BundleScan {
    type V = ScanView;

    open spec fn view(&self) -> ScanView {
        ScanView {
            entry_count: self.entry_count as int,
            expanded_bytes: self.expanded_bytes,
            has_package: self.has_package,
            artifact: match self.artifact {
                Some(a) => Some((a.0@, a.1@)),
                None => None,
            },
            has_ir: self.has_ir,
        }
    }
}

/// What an entry leaves to be read by others.
#[derive(Debug, Clone, PartialEq, Eq)]
pub enum EntryNeed {
    Nothing,
    /// The text of the package manifest.
    Package(Vec<u8>),
    /// The encoded deployment IR.
    WebIr(Vec<u8>),
}

/// What an entry leaves to be read by others, by content.
#[verifier::ext_equal]
pub enum NeedView {
    Nothing,
    Package(Seq<u8>),
    WebIr(Seq<u8>),
}

impl View for EntryNeed {
    type V = NeedView;

    open spec fn view(&self) -> NeedView {
        match self {
            EntryNeed::Nothing => NeedView::Nothing,
            EntryNeed::Package(v) => NeedView::Package(v@),
            EntryNeed::WebIr(v) => NeedView::WebIr(v@),
        }
    }
}

/// The content of an entry of limited size, or the error of reading it.
pub open spec fn limited(
    content: Result<Seq<u8>, Seq<char>>,
    path: Seq<char>,
    max: u64,
) -> Result<Seq<u8>, BundleFault> {
    match content {
        Err(m) => Err(BundleFault::Archive("cannot read "@ + path + ": "@ + m)),
        Ok(data) => if data.len() > max {
            Err(
                BundleFault::Archive(
                    "cannot read "@ + path + ": "@ + "entry exceeds configured size limit"@,
                ),
            )
        } else {
            Ok(data)
        },
    }
}

/// What a file entry adds.
pub open spec fn file_step(
    s: ScanView,
    path: Seq<char>,
    size: u64,
    package_data: Result<Seq<u8>, Seq<char>>,
    artifact_data: Result<Seq<u8>, Seq<char>>,
    ir_data: Result<Seq<u8>, Seq<char>>,
) -> Result<(ScanView, NeedView), BundleFault> {
    if is_package_path(path) {
        if s.has_package {
            Err(BundleFault::MultiplePackageManifests)
        } else if size > MAX_PACKAGE_MANIFEST_BYTES {
            Err(BundleFault::PackageManifestTooLarge(size, MAX_PACKAGE_MANIFEST_BYTES))
        } else {
            match limited(package_data, path, MAX_PACKAGE_MANIFEST_BYTES) {
                Err(e) => Err(e),
                Ok(d) => Ok((ScanView { has_package: true, ..s }, NeedView::Package(d))),
            }
        }
    } else if is_artifact_path(path) {
        if s.artifact is Some {
            Err(BundleFault::MultipleArtifacts)
        } else if size > MAX_NBC_ARTIFACT_BYTES {
            Err(BundleFault::ArtifactTooLarge(size, MAX_NBC_ARTIFACT_BYTES))
        } else {
            match limited(artifact_data, path, MAX_NBC_ARTIFACT_BYTES) {
                Err(e) => Err(e),
                Ok(d) => Ok((ScanView { artifact: Some((path, d)), ..s }, NeedView::Nothing)),
            }
        }
    } else if is_ir_path(path) {
        if s.has_ir {
            Err(BundleFault::MultipleDeploymentIr)
        } else if size > MAX_DEPLOYMENT_IR_BYTES {
            Err(BundleFault::DeploymentIrTooLarge(size, MAX_DEPLOYMENT_IR_BYTES))
        } else {
            match limited(ir_data, path, MAX_DEPLOYMENT_IR_BYTES) {
                Err(e) => Err(e),
                Ok(d) => Ok((ScanView { has_ir: true, ..s }, NeedView::WebIr(d))),
            }
        }
    } else {
        Ok((s, NeedView::Nothing))
    }
}

/// The size limits and path rules that an entry must keep: the scan after it,
/// and its path if it is a file.
pub open spec fn head_step(s: ScanView, entry: Result<EntryFacts, Seq<char>>) -> Result<
    (ScanView, Option<Seq<char>>),
    BundleFault,
> {
    if s.entry_count + 1 > MAX_DEPLOYMENT_ENTRIES {
        Err(
            BundleFault::TooManyEntries((s.entry_count + 1) as usize, MAX_DEPLOYMENT_ENTRIES),
        )
    } else {
        match entry {
            Err(m) => Err(BundleFault::Archive(m)),
            Ok((is_file, is_dir, path, size)) => if !is_file && !is_dir {
                Err(
                    BundleFault::UnsupportedEntryType(
                        match path {
                            Ok(p) => p,
                            Err(_) => "<invalid-path>"@,
                        },
                    ),
                )
            } else {
                match path {
                    Err(m) => Err(BundleFault::Archive(m)),
                    Ok(p) => if !paths::is_plain(p) {
                        Err(BundleFault::UnsafePath(p))
                    } else if s.expanded_bytes + size > u64::MAX {
                        Err(
                            BundleFault::ExpandedTooLarge(u64::MAX, MAX_DEPLOYMENT_EXPANDED_BYTES),
                        )
                    } else if s.expanded_bytes + size > MAX_DEPLOYMENT_EXPANDED_BYTES {
                        Err(
                            BundleFault::ExpandedTooLarge(
                                (s.expanded_bytes + size) as u64,
                                MAX_DEPLOYMENT_EXPANDED_BYTES,
                            ),
                        )
                    } else {
                        Ok(
                            (
                                ScanView {
                                    entry_count: s.entry_count + 1,
                                    expanded_bytes: (s.expanded_bytes + size) as u64,
                                    ..s
                                },
                                if is_file {
                                    Some(p)
                                } else {
                                    None
                                },
                            ),
                        )
                    },
                }
            },
        }
    }
}

/// The scan after one more entry of the archive.
pub open spec fn entry_step(
    archive: Seq<u8>,
    s: ScanView,
    entry: Result<EntryFacts, Seq<char>>,
) -> Result<(ScanView, NeedView), BundleFault> {
    match head_step(s, entry) {
        Err(e) => Err(e),
        Ok((t, None)) => Ok((t, NeedView::Nothing)),
        Ok((t, Some(path))) => file_step(
            t,
            path,
            (entry->Ok_0).3,
            archive_content(
                archive,
                s.entry_count as usize,
                (MAX_PACKAGE_MANIFEST_BYTES + 1) as u64,
            ),
            archive_content(
                archive,
                s.entry_count as usize,
                (MAX_NBC_ARTIFACT_BYTES + 1) as u64,
            ),
            archive_content(
                archive,
                s.entry_count as usize,
                (MAX_DEPLOYMENT_IR_BYTES + 1) as u64,
            ),
        ),
    }
}

/// The scan of no entries.
pub open spec fn scan_start() -> ScanView {
    ScanView {
        entry_count: 0,
        expanded_bytes: 0,
        has_package: false,
        artifact: None,
        has_ir: false,
    }
}

/// What the readers of the packed formats answer: about the package manifest,
/// the deployment IR and the artifact.
pub struct ReaderAnswers {
    pub package: Result<PackageIdentity, String>,
    pub web_ir: Result<DeploymentIr, String>,
    pub manifest: Result<CompiledExecutionManifest, String>,
}

/// The fault that an answer raises where it is needed.
pub open spec fn answer_fault(need: NeedView, answers: ReaderAnswers) -> Option<BundleFault> {
    match need {
        NeedView::Nothing => None,
        NeedView::Package(_) => match answers.package {
            Err(m) => Some(BundleFault::InvalidPackageManifest(m@)),
            Ok(_) => None,
        },
        NeedView::WebIr(_) => match answers.web_ir {
            Err(m) => Some(BundleFault::InvalidDeploymentIr(m@)),
            Ok(ir) => if is_complete(ir) {
                None
            } else {
                Some(BundleFault::IncompleteDeploymentMetadata)
            },
        },
    }
}

/// The scan of the first `n` entries, or the first fault among them.
pub open spec fn scanned(
    archive: Seq<u8>,
    listing: Seq<Result<EntryFacts, Seq<char>>>,
    answers: ReaderAnswers,
    n: nat,
) -> Result<ScanView, BundleFault>
    decreases n,
{
    if n == 0 {
        Ok(scan_start())
    } else {
        match scanned(archive, listing, answers, (n - 1) as nat) {
            Err(e) => Err(e),
            Ok(s) => match entry_step(archive, s, listing[n - 1]) {
                Err(e) => Err(e),
                Ok((t, need)) => match answer_fault(need, answers) {
                    Some(e) => Err(e),
                    None => Ok(t),
                },
            },
        }
    }
}

fn read_limited(archive: &[u8], index: usize, path: &str, max: u64) -> (r: Result<
    Vec<u8>,
    DeploymentBundleError,
>)
    requires
        max < u64::MAX,
    ensures
        match r {
            Ok(v) => limited(
                archive_content(
                    archive@,
                    index,
                    (max + 1) as u64,
                ),
                path@,
                max,
            ) == Ok::<Seq<u8>, BundleFault>(v@),
            Err(e) => limited(
                archive_content(
                    archive@,
                    index,
                    (max + 1) as u64,
                ),
                path@,
                max,
            ) == Err::<Seq<u8>, BundleFault>(e@),
        },
{
    match read_archive(archive, index, max + 1) {
        Err(m) => Err(
            DeploymentBundleError::Archive(cat4("cannot read ", path, ": ", m.as_str())),
        ),
        Ok(data) => {
            if data.len() as u64 > max {
                Err(
                    DeploymentBundleError::Archive(
                        cat4("cannot read ", path, ": ", "entry exceeds configured size limit"),
                    ),
                )
            } else {
                Ok(data)
            }
        },
    }
}

impl BundleScan {
    pub fn new() -> (r: Self)
        ensures
            r@ == scan_start(),
    {
        BundleScan {
            entry_count: 0,
            expanded_bytes: 0,
            has_package: false,
            artifact: None,
            has_ir: false,
        }
    }

    fn check_head(&mut self, entry: &Result<EntryHead, String>) -> (r: Result<
        Option<String>,
        DeploymentBundleError,
    >)
        requires
            old(self).entry_count <= MAX_DEPLOYMENT_ENTRIES,
        ensures
            match r {
                Ok(p) => head_step(old(self)@, entry_views(seq![*entry])[0]) == Ok::<
                    (ScanView, Option<Seq<char>>),
                    BundleFault,
                >((final(self)@, text::opt_view(p))),
                Err(e) => head_step(old(self)@, entry_views(seq![*entry])[0]) == Err::<
                    (ScanView, Option<Seq<char>>),
                    BundleFault,
                >(e@),
            },
    {
        let count: usize = self.entry_count + 1;
        if count > MAX_DEPLOYMENT_ENTRIES {
            return Err(
                DeploymentBundleError::TooManyEntries {
                    actual: count,
                    max: MAX_DEPLOYMENT_ENTRIES,
                },
            );
        }
        let head: &EntryHead = match entry {
            Ok(h) => h,
            Err(m) => {
                return Err(DeploymentBundleError::Archive(m.clone()));
            },
        };
        if !head.is_file && !head.is_dir {
            let path: String = match &head.path {
                Ok(p) => p.clone(),
                Err(_) => text("<invalid-path>"),
            };
            return Err(DeploymentBundleError::UnsupportedEntryType { path });
        }
        let path: &String = match &head.path {
            Ok(p) => p,
            Err(m) => {
                return Err(DeploymentBundleError::Archive(m.clone()));
            },
        };
        match validate_archive_path(path.as_str()) {
            Ok(_) => {},
            Err(e) => {
                return Err(e);
            },
        }
        let expanded: u64 = match self.expanded_bytes.checked_add(head.size) {
            Some(n) => n,
            None => {
                return Err(
                    DeploymentBundleError::ExpandedTooLarge {
                        actual: u64::MAX,
                        max: MAX_DEPLOYMENT_EXPANDED_BYTES,
                    },
                );
            },
        };
        if expanded > MAX_DEPLOYMENT_EXPANDED_BYTES {
            return Err(
                DeploymentBundleError::ExpandedTooLarge {
                    actual: expanded,
                    max: MAX_DEPLOYMENT_EXPANDED_BYTES,
                },
            );
        }
        self.entry_count = count;
        self.expanded_bytes = expanded;
        if head.is_file {
            Ok(Some(path.clone()))
        } else {
            Ok(None)
        }
    }

    fn take_file(&mut self, archive: &[u8], index: usize, path: &str, size: u64) -> (r: Result<
        EntryNeed,
        DeploymentBundleError,
    >)
        ensures
            match r {
                Ok(need) => file_step(
                    old(self)@,
                    path@,
                    size,
                    archive_content(
                        archive@,
                        index,
                        (MAX_PACKAGE_MANIFEST_BYTES + 1) as u64,
                    ),
                    archive_content(
                        archive@,
                        index,
                        (MAX_NBC_ARTIFACT_BYTES + 1) as u64,
                    ),
                    archive_content(
                        archive@,
                        index,
                        (MAX_DEPLOYMENT_IR_BYTES + 1) as u64,
                    ),
                ) == Ok::<(ScanView, NeedView), BundleFault>((final(self)@, need@)),
                Err(e) => file_step(
                    old(self)@,
                    path@,
                    size,
                    archive_content(
                        archive@,
                        index,
                        (MAX_PACKAGE_MANIFEST_BYTES + 1) as u64,
                    ),
                    archive_content(
                        archive@,
                        index,
                        (MAX_NBC_ARTIFACT_BYTES + 1) as u64,
                    ),
                    archive_content(
                        archive@,
                        index,
                        (MAX_DEPLOYMENT_IR_BYTES + 1) as u64,
                    ),
                ) == Err::<(ScanView, NeedView), BundleFault>(e@),
            },
    {
        if is_package_manifest(path) {
            if self.has_package {
                return Err(DeploymentBundleError::MultiplePackageManifests);
            }
            if size > MAX_PACKAGE_MANIFEST_BYTES {
                return Err(
                    DeploymentBundleError::PackageManifestTooLarge {
                        actual: size,
                        max: MAX_PACKAGE_MANIFEST_BYTES,
                    },
                );
            }
            match read_limited(archive, index, path, MAX_PACKAGE_MANIFEST_BYTES) {
                Err(e) => Err(e),
                Ok(data) => {
                    self.has_package = true;
                    Ok(EntryNeed::Package(data))
                },
            }
        } else if is_packaged_nbc(path) {
            if self.artifact.is_some() {
                return Err(DeploymentBundleError::MultipleArtifacts);
            }
            if size > MAX_NBC_ARTIFACT_BYTES {
                return Err(
                    DeploymentBundleError::ArtifactTooLarge {
                        actual: size,
                        max: MAX_NBC_ARTIFACT_BYTES,
                    },
                );
            }
            match read_limited(archive, index, path, MAX_NBC_ARTIFACT_BYTES) {
                Err(e) => Err(e),
                Ok(data) => {
                    self.artifact = Some((text(path), data));
                    Ok(EntryNeed::Nothing)
                },
            }
        } else if is_deployment_ir(path) {
            if self.has_ir {
                return Err(DeploymentBundleError::MultipleDeploymentIr);
            }
            if size > MAX_DEPLOYMENT_IR_BYTES {
                return Err(
                    DeploymentBundleError::DeploymentIrTooLarge {
                        actual: size,
                        max: MAX_DEPLOYMENT_IR_BYTES,
                    },
                );
            }
            match read_limited(archive, index, path, MAX_DEPLOYMENT_IR_BYTES) {
                Err(e) => Err(e),
                Ok(data) => {
                    self.has_ir = true;
                    Ok(EntryNeed::WebIr(data))
                },
            }
        } else {
            Ok(EntryNeed::Nothing)
        }
    }

    /// Check one more entry and take what it holds.
    pub fn take_entry(&mut self, archive: &[u8], entry: &Result<EntryHead, String>) -> (r: Result<
        EntryNeed,
        DeploymentBundleError,
    >)
        requires
            old(self).entry_count <= MAX_DEPLOYMENT_ENTRIES,
        ensures
            match r {
                Ok(need) => entry_step(
                    archive@,
                    old(self)@,
                    entry_views(seq![*entry])[0],
                ) == Ok::<(ScanView, NeedView), BundleFault>((final(self)@, need@))
                    && final(self).entry_count <= MAX_DEPLOYMENT_ENTRIES,
                Err(e) => entry_step(
                    archive@,
                    old(self)@,
                    entry_views(seq![*entry])[0],
                ) == Err::<(ScanView, NeedView), BundleFault>(e@),
            },
    {
        let index: usize = self.entry_count;
        let size: u64 = match entry {
            Ok(h) => h.size,
            Err(_) => 0,
        };
        match self.check_head(entry) {
            Err(e) => Err(e),
            Ok(None) => Ok(EntryNeed::Nothing),
            Ok(Some(path)) => self.take_file(archive, index, path.as_str(), size),
        }
    }
}

// ---------------------------------------------------------------------------
// Bundles
// ---------------------------------------------------------------------------

/// The identity that a package manifest declares.
#[derive(Debug, Clone, PartialEq, Eq)]
pub struct PackageIdentity {
    pub name: String,
    pub version: String,
}

/// What a deployment IR says about itself.
#[derive(Debug, Clone, PartialEq, Eq)]
pub struct DeploymentIr {
    pub capabilities: Vec<String>,
    /// The encoded IR.
    pub encoded: Vec<u8>,
}

/// Capability that marks metadata which could not be derived in full.
pub const INCOMPLETE_METADATA_CAPABILITY: &'static str = "nulang.metadata.incomplete";

/// Readers for the formats that a bundle packs.
pub trait BundleReaders: NbcReader + ModuleProfiler {
    /// Reads a package manifest.
    fn package(&self, source: &[u8]) -> Result<PackageIdentity, String>;

    /// Reads an encoded deployment IR.
    fn web_ir(&self, encoded: &[u8]) -> Result<DeploymentIr, String>;
}

/// Validated deployment inputs taken from a bundle without writing to disk.
#[derive(Debug, Clone, PartialEq, Eq)]
pub struct DeploymentBundle {
    pub package_manifest: PackageIdentity,
    pub artifact_path: String,
    pub artifact_bytes: Vec<u8>,
    pub execution_manifest: CompiledExecutionManifest,
    pub web_ir: Option<DeploymentIr>,
    pub entry_count: usize,
    pub expanded_bytes: u64,
}

/// Whether an IR is complete.
pub open spec fn is_complete(ir: DeploymentIr) -> bool {
    !text::views(ir.capabilities@).contains(INCOMPLETE_METADATA_CAPABILITY@)
}

/// Accepts an IR that was read, unless its metadata is incomplete.
pub fn check_ir(read: Result<DeploymentIr, String>) -> (r: Result<
    DeploymentIr,
    DeploymentBundleError,
>)
    ensures
        match read {
            Err(m) => r matches Err(e) && e@ == BundleFault::InvalidDeploymentIr(m@),
            Ok(ir) => match r {
                Ok(x) => x == ir && is_complete(ir),
                Err(e) => !is_complete(ir) && e@ == BundleFault::IncompleteDeploymentMetadata,
            },
        },
{
    match read {
        Err(m) => Err(DeploymentBundleError::InvalidDeploymentIr(m)),
        Ok(ir) => {
            if text::contains_text(&ir.capabilities, INCOMPLETE_METADATA_CAPABILITY) {
                Err(DeploymentBundleError::IncompleteDeploymentMetadata)
            } else {
                Ok(ir)
            }
        },
    }
}

/// Accepts a package manifest that was read.
pub fn check_package(read: Result<PackageIdentity, String>) -> (r: Result<
    PackageIdentity,
    DeploymentBundleError,
>)
    ensures
        match read {
            Err(m) => r matches Err(e) && e@ == BundleFault::InvalidPackageManifest(m@),
            Ok(p) => r == Ok::<PackageIdentity, DeploymentBundleError>(p),
        },
{
    match read {
        Ok(p) => Ok(p),
        Err(m) => Err(DeploymentBundleError::InvalidPackageManifest(m)),
    }
}

/// Binds the artifact of a complete scan to the package that was read.
pub fn bind_artifact(
    artifact: Option<(String, Vec<u8>)>,
    package: Option<PackageIdentity>,
) -> (r: Result<(PackageIdentity, String, Vec<u8>), DeploymentBundleError>)
    ensures
        match r {
            Ok((p, path, data)) => package == Some(p) && artifact == Some((path, data)) && path@
                == artifact_path_of(p.name@),
            Err(e) => match package {
                None => e@ == BundleFault::MissingPackageManifest,
                Some(p) => match artifact {
                    None => e@ == BundleFault::MissingArtifact,
                    Some((path, _)) => path@ != artifact_path_of(p.name@) && e@
                        == BundleFault::ArtifactNameMismatch(artifact_path_of(p.name@), path@),
                },
            },
        },
{
    let package: PackageIdentity = match package {
        Some(p) => p,
        None => {
            return Err(DeploymentBundleError::MissingPackageManifest);
        },
    };
    let (path, data) = match artifact {
        Some(a) => a,
        None => {
            return Err(DeploymentBundleError::MissingArtifact);
        },
    };
    let expected: String = expected_artifact(package.name.as_str());
    if !str_eq(path.as_str(), expected.as_str()) {
        return Err(DeploymentBundleError::ArtifactNameMismatch { expected, actual: path });
    }
    Ok((package, path, data))
}

/// The listing that a bundle is checked against.
pub open spec fn bundle_listing(archive: Seq<u8>) -> Seq<Result<EntryFacts, Seq<char>>> {
    archive_listing(archive, (MAX_DEPLOYMENT_ENTRIES + 1) as usize)
}

/// The scan of a whole bundle whose package, artifact and manifest fit
/// together, or the fault that is found first.
pub open spec fn checked_bundle(archive: Seq<u8>, answers: ReaderAnswers) -> Result<
    ScanView,
    BundleFault,
> {
    let listing = bundle_listing(archive);
    if archive.len() > MAX_DEPLOYMENT_BUNDLE_BYTES {
        Err(
            BundleFault::CompressedTooLarge(archive.len() as usize, MAX_DEPLOYMENT_BUNDLE_BYTES),
        )
    } else {
        match scanned(archive, listing, answers, listing.len()) {
            Err(f) => Err(f),
            Ok(scan) => if !scan.has_package {
                Err(BundleFault::MissingPackageManifest)
            } else {
                match scan.artifact {
                    None => Err(BundleFault::MissingArtifact),
                    Some((path, _)) => {
                        let expected = artifact_path_of((answers.package->Ok_0).name@);
                        if path != expected {
                            Err(BundleFault::ArtifactNameMismatch(expected, path))
                        } else {
                            match answers.manifest {
                                Err(m) => Err(BundleFault::InvalidArtifact(m@)),
                                Ok(_) => Ok(scan),
                            }
                        }
                    },
                }
            },
        }
    }
}

/// Whether a result is the one that an archive and the readers' answers give.
pub open spec fn parse_agrees(
    archive: Seq<u8>,
    answers: ReaderAnswers,
    r: Result<DeploymentBundle, DeploymentBundleError>,
) -> bool {
    match checked_bundle(archive, answers) {
        Err(f) => r matches Err(e) && e@ == f,
        Ok(scan) => r matches Ok(b) && {
            &&& answers.package == Ok::<PackageIdentity, String>(b.package_manifest)
            &&& scan.artifact == Some((b.artifact_path@, b.artifact_bytes@))
            &&& answers.manifest == Ok::<CompiledExecutionManifest, String>(b.execution_manifest)
            &&& b.entry_count == scan.entry_count
            &&& b.expanded_bytes == scan.expanded_bytes
            &&& b.web_ir == (if scan.has_ir {
                Some(answers.web_ir->Ok_0)
            } else {
                None
            })
        },
    }
}

proof fn scan_counts(
    archive: Seq<u8>,
    listing: Seq<Result<EntryFacts, Seq<char>>>,
    answers: ReaderAnswers,
    n: nat,
)
    requires
        scanned(archive, listing, answers, n) is Ok,
    ensures
        (scanned(archive, listing, answers, n)->Ok_0).entry_count == n,
        n <= MAX_DEPLOYMENT_ENTRIES,
    decreases n,
{
    if n > 0 {
        scan_counts(archive, listing, answers, (n - 1) as nat);
    }
}

/// A fault of some entries is the fault of all.
pub proof fn scan_fault_persists(
    archive: Seq<u8>,
    listing: Seq<Result<EntryFacts, Seq<char>>>,
    answers: ReaderAnswers,
    n: nat,
    m: nat,
)
    requires
        n <= m,
        scanned(archive, listing, answers, n) is Err,
    ensures
        scanned(archive, listing, answers, m) == scanned(archive, listing, answers, n),
    decreases m,
{
    if n < m {
        scan_fault_persists(archive, listing, answers, n, (m - 1) as nat);
    }
}

/// A scan depends only on the answers that were asked for: on the one about
/// the package if a package manifest was found, and likewise for the IR.
proof fn scan_uses_answers(
    archive: Seq<u8>,
    listing: Seq<Result<EntryFacts, Seq<char>>>,
    a: ReaderAnswers,
    b: ReaderAnswers,
    n: nat,
)
    requires
        scanned(archive, listing, a, n) matches Ok(s) && (s.has_package ==> a.package
            == b.package) && (s.has_ir ==> a.web_ir == b.web_ir),
    ensures
        scanned(archive, listing, b, n) == scanned(archive, listing, a, n),
    decreases n,
{
    if n > 0 {
        scan_uses_answers(archive, listing, a, b, (n - 1) as nat);
    }
}

/// What the entry at `i` leaves to be read, once all entries before it are
/// accepted.
pub open spec fn need_at(
    archive: Seq<u8>,
    listing: Seq<Result<EntryFacts, Seq<char>>>,
    answers: ReaderAnswers,
    i: int,
) -> NeedView {
    match scanned(archive, listing, answers, i as nat) {
        Err(_) => NeedView::Nothing,
        Ok(s) => match entry_step(archive, s, listing[i]) {
            Err(_) => NeedView::Nothing,
            Ok((_, need)) => need,
        },
    }
}

/// Whether `answer` is what the readers returned for a package manifest.
pub open spec fn package_read<R: BundleReaders>(
    readers: &R,
    source: Seq<u8>,
    answer: Result<PackageIdentity, String>,
) -> bool {
    exists|given: &[u8]|
        given@ == source && #[trigger] call_ensures(R::package, (readers, given), answer)
}

/// Whether `answer` is what the readers returned for an encoded IR.
pub open spec fn ir_read<R: BundleReaders>(
    readers: &R,
    encoded: Seq<u8>,
    answer: Result<DeploymentIr, String>,
) -> bool {
    exists|given: &[u8]|
        given@ == encoded && #[trigger] call_ensures(R::web_ir, (readers, given), answer)
}

/// Whether the answer about the entry at `i` came from the readers.
pub open spec fn asked_at<R: BundleReaders>(
    readers: &R,
    archive: Seq<u8>,
    listing: Seq<Result<EntryFacts, Seq<char>>>,
    answers: ReaderAnswers,
    i: int,
) -> bool {
    match need_at(archive, listing, answers, i) {
        NeedView::Nothing => true,
        NeedView::Package(source) => package_read(readers, source, answers.package),
        NeedView::WebIr(encoded) => ir_read(readers, encoded, answers.web_ir),
    }
}

/// Whether every answer that counts came from the readers, given the bytes of
/// the bundle that it is about.
pub open spec fn answers_come_from<R: BundleReaders>(
    readers: &R,
    archive: Seq<u8>,
    answers: ReaderAnswers,
) -> bool {
    let listing = bundle_listing(archive);
    &&& archive.len() <= MAX_DEPLOYMENT_BUNDLE_BYTES ==> forall|i: int|
        0 <= i < listing.len() ==> #[trigger] asked_at(readers, archive, listing, answers, i)
    &&& match checked_bundle(archive, answers) {
        Ok(scan) => deployment_manifest::manifest_derived(readers, (scan.artifact->0).1, answers.manifest),
        Err(f) => f is InvalidArtifact ==> {
            let scan = scanned(archive, listing, answers, listing.len())->Ok_0;
            deployment_manifest::manifest_derived(readers, (scan.artifact->0).1, answers.manifest)
        },
    }
}

/// What was found stays found.
proof fn scan_grows(
    archive: Seq<u8>,
    listing: Seq<Result<EntryFacts, Seq<char>>>,
    answers: ReaderAnswers,
    k: nat,
    n: nat,
)
    requires
        k <= n,
        scanned(archive, listing, answers, n) is Ok,
    ensures
        scanned(archive, listing, answers, k) matches Ok(s) && {
            let t = scanned(archive, listing, answers, n)->Ok_0;
            &&& s.has_package ==> t.has_package
            &&& s.has_ir ==> t.has_ir
        },
    decreases n - k,
{
    if k < n {
        scan_grows(archive, listing, answers, k + 1, n);
    }
}

/// Earlier entries keep their answers when one is added that none of them
/// asked for.
proof fn asked_carries_over<R: BundleReaders>(
    readers: &R,
    archive: Seq<u8>,
    listing: Seq<Result<EntryFacts, Seq<char>>>,
    a: ReaderAnswers,
    b: ReaderAnswers,
    n: nat,
)
    requires
        scanned(archive, listing, a, n) matches Ok(s) && (s.has_package ==> a.package
            == b.package) && (s.has_ir ==> a.web_ir == b.web_ir),
        forall|i: int| 0 <= i < n ==> #[trigger] asked_at(readers, archive, listing, a, i),
    ensures
        forall|i: int| 0 <= i < n ==> #[trigger] asked_at(readers, archive, listing, b, i),
{
    assert forall|i: int| 0 <= i < n implies #[trigger] asked_at(
        readers,
        archive,
        listing,
        b,
        i,
    ) by {
        assert(asked_at(readers, archive, listing, a, i));
        scan_grows(archive, listing, a, i as nat, n);
        scan_grows(archive, listing, a, (i + 1) as nat, n);
        scan_uses_answers(archive, listing, a, b, i as nat);
    }
}

/// Entries after a fault ask for nothing.
proof fn nothing_asked_after_fault<R: BundleReaders>(
    readers: &R,
    archive: Seq<u8>,
    listing: Seq<Result<EntryFacts, Seq<char>>>,
    answers: ReaderAnswers,
    n: nat,
)
    requires
        scanned(archive, listing, answers, n) is Err,
        forall|i: int| 0 <= i < n ==> #[trigger] asked_at(readers, archive, listing, answers, i),
    ensures
        forall|i: int| 0 <= i ==> #[trigger] asked_at(readers, archive, listing, answers, i),
{
    assert forall|i: int| 0 <= i implies #[trigger] asked_at(
        readers,
        archive,
        listing,
        answers,
        i,
    ) by {
        if i >= n {
            scan_fault_persists(archive, listing, answers, n, i as nat);
        }
    }
}

impl DeploymentBundle {
    /// Parse and validate a bundle; the packed formats are read by `readers`.
    pub fn parse<R: BundleReaders>(archive: &[u8], readers: &R) -> (r: Result<
        Self,
        DeploymentBundleError,
    >)
        ensures
            exists|answers: ReaderAnswers| #[trigger]
                parse_agrees(archive@, answers, r) && answers_come_from(
                    readers,
                    archive@,
                    answers,
                ),
            r matches Ok(b) ==> b.execution_manifest@.artifact_blake3 == hashing::hex_text(
                hashing::blake3_digest(b.artifact_bytes@),
            ),
    {
        let ghost mut answers = ReaderAnswers {
            package: arbitrary(),
            web_ir: arbitrary(),
            manifest: arbitrary(),
        };
        if archive.len() > MAX_DEPLOYMENT_BUNDLE_BYTES {
            let e: DeploymentBundleError = DeploymentBundleError::CompressedTooLarge {
                actual: archive.len(),
                max: MAX_DEPLOYMENT_BUNDLE_BYTES,
            };
            assert(parse_agrees(archive@, answers, Err(e)));
            return Err(e);
        }
        let entries: Vec<Result<EntryHead, String>> = list_archive(
            archive,
            MAX_DEPLOYMENT_ENTRIES + 1,
        );
        let ghost listing = entry_views(entries@);
        let mut scan: BundleScan = BundleScan::new();
        let mut package: Option<PackageIdentity> = None;
        let mut web_ir: Option<DeploymentIr> = None;
        let mut i: usize = 0;
        while i < entries.len()
            invariant
                i <= entries@.len(),
                listing == entry_views(entries@),
                listing == bundle_listing(archive@),
                listing.len() == entries@.len(),
                archive@.len() <= MAX_DEPLOYMENT_BUNDLE_BYTES,
                scan.entry_count <= MAX_DEPLOYMENT_ENTRIES,
                scanned(archive@, listing, answers, i as nat) == Ok::<ScanView, BundleFault>(scan@),
                package is Some <==> scan.has_package,
                package matches Some(p) ==> answers.package == Ok::<PackageIdentity, String>(p),
                web_ir is Some <==> scan.has_ir,
                web_ir matches Some(ir) ==> answers.web_ir == Ok::<DeploymentIr, String>(ir),
                forall|k: int|
                    0 <= k < i ==> #[trigger] asked_at(readers, archive@, listing, answers, k),
            decreases entries@.len() - i,
        {
            assert(entry_views(seq![entries@[i as int]])[0] == listing[i as int]);
            let ghost before = scan@;
            match scan.take_entry(archive, &entries[i]) {
                Err(e) => {
                    proof {
                        assert(asked_at(readers, archive@, listing, answers, i as int));
                        nothing_asked_after_fault(readers, archive@, listing, answers, (i + 1) as nat);
                        scan_fault_persists(archive@, listing, answers, (i + 1) as nat, listing.len());
                        assert(parse_agrees(archive@, answers, Err(e)));
                    }
                    return Err(e);
                },
                Ok(EntryNeed::Nothing) => {
                    assert(asked_at(readers, archive@, listing, answers, i as int));
                },
                Ok(EntryNeed::Package(source)) => {
                    let given: &[u8] = source.as_slice();
                    let read: Result<PackageIdentity, String> = readers.package(given);
                    proof {
                        let asked = ReaderAnswers { package: read, ..answers };
                        asked_carries_over(readers, archive@, listing, answers, asked, i as nat);
                        scan_uses_answers(archive@, listing, answers, asked, i as nat);
                        answers = asked;
                        assert(call_ensures(R::package, (readers, given), read));
                        assert(asked_at(readers, archive@, listing, answers, i as int));
                    }
                    match check_package(read) {
                        Ok(p) => {
                            package = Some(p);
                        },
                        Err(e) => {
                            proof {
                                nothing_asked_after_fault(
                                    readers,
                                    archive@,
                                    listing,
                                    answers,
                                    (i + 1) as nat,
                                );
                                scan_fault_persists(
                                    archive@,
                                    listing,
                                    answers,
                                    (i + 1) as nat,
                                    listing.len(),
                                );
                                assert(parse_agrees(archive@, answers, Err(e)));
                            }
                            return Err(e);
                        },
                    }
                },
                Ok(EntryNeed::WebIr(encoded)) => {
                    let given: &[u8] = encoded.as_slice();
                    let read: Result<DeploymentIr, String> = readers.web_ir(given);
                    proof {
                        let asked = ReaderAnswers { web_ir: read, ..answers };
                        asked_carries_over(readers, archive@, listing, answers, asked, i as nat);
                        scan_uses_answers(archive@, listing, answers, asked, i as nat);
                        answers = asked;
                        assert(call_ensures(R::web_ir, (readers, given), read));
                        assert(asked_at(readers, archive@, listing, answers, i as int));
                    }
                    match check_ir(read) {
                        Ok(ir) => {
                            web_ir = Some(ir);
                        },
                        Err(e) => {
                            proof {
                                nothing_asked_after_fault(
                                    readers,
                                    archive@,
                                    listing,
                                    answers,
                                    (i + 1) as nat,
                                );
                                scan_fault_persists(
                                    archive@,
                                    listing,
                                    answers,
                                    (i + 1) as nat,
                                    listing.len(),
                                );
                                assert(parse_agrees(archive@, answers, Err(e)));
                            }
                            return Err(e);
                        },
                    }
                },
            }
            i += 1;
        }
        let (package_manifest, artifact_path, artifact_bytes) = match bind_artifact(
            scan.artifact,
            package,
        ) {
            Ok(x) => x,
            Err(e) => {
                assert(parse_agrees(archive@, answers, Err(e)));
                return Err(e);
            },
        };
        let given: &[u8] = artifact_bytes.as_slice();
        let read: Result<CompiledExecutionManifest, String> =
            CompiledExecutionManifest::from_nbc_bytes(given, readers);
        proof {
            let asked = ReaderAnswers { manifest: read, ..answers };
            asked_carries_over(readers, archive@, listing, answers, asked, listing.len());
            scan_uses_answers(archive@, listing, answers, asked, listing.len());
            answers = asked;
        }
        match read {
            Err(m) => {
                let e: DeploymentBundleError = DeploymentBundleError::InvalidArtifact(m);
                assert(parse_agrees(archive@, answers, Err(e)));
                Err(e)
            },
            Ok(execution_manifest) => {
                let b: DeploymentBundle = DeploymentBundle {
                    package_manifest,
                    artifact_path,
                    artifact_bytes,
                    execution_manifest,
                    web_ir,
                    entry_count: scan.entry_count,
                    expanded_bytes: scan.expanded_bytes,
                };
                assert(parse_agrees(archive@, answers, Ok(b)));
                Ok(b)
            },
        }
    }

    /// Run admission on the exact artifact bytes of this bundle; the rules
    /// derive the manifest from those bytes again.
    pub fn evaluate_admission<E: AdmissionEvaluator>(
        &self,
        policy: &AdmissionPolicy,
        environment: &AdmissionEnvironment,
        rules: &E,
    ) -> (r: AdmissionDecision)
        ensures
            admission_policy::evaluated(rules, self.artifact_bytes@, *policy, *environment, r),
    {
        let given: &[u8] = self.artifact_bytes.as_slice();
        let decision: AdmissionDecision = rules.evaluate(given, policy, environment);
        assert(call_ensures(E::evaluate, (rules, given, policy, environment), decision));
        decision
    }

    pub fn package_name(&self) -> (r: &str)
        ensures
            r@ == self.package_manifest.name@,
    {
        self.package_manifest.name.as_str()
    }
}

/// A scan that succeeds has seen only safe paths of files and directories and
/// keeps every limit.
pub proof fn scanned_bundle_is_bounded(
    archive: Seq<u8>,
    listing: Seq<Result<EntryFacts, Seq<char>>>,
    answers: ReaderAnswers,
    n: nat,
)
    requires
        n <= listing.len(),
        scanned(archive, listing, answers, n) is Ok,
    ensures
        n <= MAX_DEPLOYMENT_ENTRIES,
        (scanned(archive, listing, answers, n)->Ok_0).expanded_bytes <= MAX_DEPLOYMENT_EXPANDED_BYTES,
        forall|i: int|
            0 <= i < n ==> {
                &&& (#[trigger] listing[i]) is Ok
                &&& (listing[i]->Ok_0).0 || (listing[i]->Ok_0).1
                &&& (listing[i]->Ok_0).2 is Ok
                &&& paths::is_plain((listing[i]->Ok_0).2->Ok_0)
            },
    decreases n,
{
    scan_counts(archive, listing, answers, n);
    if n > 0 {
        scanned_bundle_is_bounded(archive, listing, answers, (n - 1) as nat);
    }
}

/// Whether entry `i` is a file at a path.
pub open spec fn file_at(
    listing: Seq<Result<EntryFacts, Seq<char>>>,
    i: int,
    path: Seq<char>,
) -> bool {
    listing[i] matches Ok((is_file, is_dir, p, size)) && is_file && p == Ok::<Seq<char>, Seq<char>>(
        path,
    )
}

/// The size of all entries of the first `n`.
pub open spec fn total_size(listing: Seq<Result<EntryFacts, Seq<char>>>, n: nat) -> int
    decreases n,
{
    if n == 0 {
        0
    } else {
        total_size(listing, (n - 1) as nat) + (listing[n - 1]->Ok_0).3
    }
}

/// Whether exactly one of the first `n` entries is a file of a kind.
pub open spec fn only_file(
    listing: Seq<Result<EntryFacts, Seq<char>>>,
    n: nat,
    kind: spec_fn(Seq<char>) -> bool,
    i: int,
    path: Seq<char>,
) -> bool {
    &&& 0 <= i < n
    &&& file_at(listing, i, path)
    &&& kind(path)
    &&& forall|j: int, p: Seq<char>|
        0 <= j < n && #[trigger] file_at(listing, j, p) && kind(p) ==> j == i
}

/// Whether none of the first `n` entries is a file of a kind.
pub open spec fn no_file(
    listing: Seq<Result<EntryFacts, Seq<char>>>,
    n: nat,
    kind: spec_fn(Seq<char>) -> bool,
) -> bool {
    forall|j: int, p: Seq<char>| 0 <= j < n && #[trigger] file_at(listing, j, p) ==> !kind(p)
}

/// Whether one of the first `n` entries is the only file of a kind.
pub open spec fn one_file(
    listing: Seq<Result<EntryFacts, Seq<char>>>,
    n: nat,
    kind: spec_fn(Seq<char>) -> bool,
) -> bool {
    exists|i: int, path: Seq<char>| #[trigger] only_file(listing, n, kind, i, path)
}

/// Whether entry `i` is the only artifact among the first `n` entries.
pub open spec fn only_artifact(
    listing: Seq<Result<EntryFacts, Seq<char>>>,
    n: nat,
    i: int,
    path: Seq<char>,
) -> bool {
    only_file(listing, n, |p: Seq<char>| is_artifact_path(p), i, path)
}

proof fn one_more_file(
    listing: Seq<Result<EntryFacts, Seq<char>>>,
    n: nat,
    kind: spec_fn(Seq<char>) -> bool,
    found: bool,
)
    requires
        if found {
            one_file(listing, n, kind)
        } else {
            no_file(listing, n, kind)
        },
    ensures
        (forall|p: Seq<char>| #[trigger] file_at(listing, n as int, p) ==> !kind(p)) ==> if found {
            one_file(listing, n + 1, kind)
        } else {
            no_file(listing, n + 1, kind)
        },
        !found ==> forall|p: Seq<char>| #[trigger]
            file_at(listing, n as int, p) && kind(p) ==> only_file(
                listing,
                n + 1,
                kind,
                n as int,
                p,
            ),
{
    if found {
        let (i, path) = choose|i: int, path: Seq<char>| #[trigger]
            only_file(listing, n, kind, i, path);
        if forall|p: Seq<char>| #[trigger] file_at(listing, n as int, p) ==> !kind(p) {
            assert(only_file(listing, n + 1, kind, i, path));
        }
    }
}

/// A scan that succeeds has counted every entry and its size, and has found the
/// package manifest, the artifact and the deployment metadata exactly where one
/// file is at such a path; two of a kind do not pass.
pub proof fn scans_find_one_of_each(
    archive: Seq<u8>,
    listing: Seq<Result<EntryFacts, Seq<char>>>,
    answers: ReaderAnswers,
    n: nat,
)
    requires
        n <= listing.len(),
        scanned(archive, listing, answers, n) is Ok,
    ensures
        ({
            let s = scanned(archive, listing, answers, n)->Ok_0;
            let package = |p: Seq<char>| is_package_path(p);
            let artifact = |p: Seq<char>| is_artifact_path(p);
            let ir = |p: Seq<char>| is_ir_path(p);
            &&& s.entry_count == n
            &&& s.expanded_bytes == total_size(listing, n)
            &&& if s.has_package {
                one_file(listing, n, package)
            } else {
                no_file(listing, n, package)
            }
            &&& if s.has_ir {
                one_file(listing, n, ir)
            } else {
                no_file(listing, n, ir)
            }
            &&& match s.artifact {
                Some((path, _)) => exists|i: int| #[trigger] only_artifact(listing, n, i, path),
                None => no_file(listing, n, artifact),
            }
        }),
    decreases n,
{
    if n > 0 {
        let p = (n - 1) as nat;
        scans_find_one_of_each(archive, listing, answers, p);
        let s = scanned(archive, listing, answers, p)->Ok_0;
        let t = scanned(archive, listing, answers, n)->Ok_0;
        let package = |p: Seq<char>| is_package_path(p);
        let artifact = |p: Seq<char>| is_artifact_path(p);
        let ir = |p: Seq<char>| is_ir_path(p);
        if let Some((path, _)) = s.artifact {
            let i = choose|i: int| #[trigger] only_artifact(listing, p, i, path);
            assert(only_file(listing, p, artifact, i, path));
        }
        one_more_file(listing, p, package, s.has_package);
        one_more_file(listing, p, artifact, s.artifact is Some);
        one_more_file(listing, p, ir, s.has_ir);
        kinds_are_apart();
        let facts = listing[p as int]->Ok_0;
        let path = facts.2->Ok_0;
        assert forall|q: Seq<char>| #[trigger] file_at(listing, p as int, q) implies facts.0 && q
            == path by {}
        if !facts.0 || !is_package_path(path) {
            assert forall|q: Seq<char>| #[trigger] file_at(listing, p as int, q) implies !package(
                q,
            ) by {}
        }
        if !facts.0 || !is_artifact_path(path) {
            assert forall|q: Seq<char>| #[trigger] file_at(listing, p as int, q) implies !artifact(
                q,
            ) by {}
        }
        if !facts.0 || !is_ir_path(path) {
            assert forall|q: Seq<char>| #[trigger] file_at(listing, p as int, q) implies !ir(q) by {}
        }
        if facts.0 {
            let path = facts.2->Ok_0;
            assert(file_at(listing, p as int, path));
            if is_package_path(path) {
                assert(only_file(listing, n, package, p as int, path));
            }
            if is_artifact_path(path) {
                assert(only_artifact(listing, n, p as int, path));
            }
            if is_ir_path(path) {
                assert(only_file(listing, n, ir, p as int, path));
            }
        }
        if facts.0 && is_artifact_path(path) {
            assert((t.artifact->0).0 == path);
        } else if t.artifact is Some {
            assert(t.artifact == s.artifact);
            let path = (s.artifact->0).0;
            let i = choose|i: int| #[trigger] only_artifact(listing, p, i, path);
            assert(only_artifact(listing, n, i, path));
        }
        assert(t.entry_count == n);
        assert(t.expanded_bytes == total_size(listing, n));
        assert(if t.has_package {
            one_file(listing, n, package)
        } else {
            no_file(listing, n, package)
        });
        assert(if t.has_ir {
            one_file(listing, n, ir)
        } else {
            no_file(listing, n, ir)
        });
        assert(t.artifact is None ==> no_file(listing, n, artifact));
        assert(t.artifact is Some ==> exists|i: int| #[trigger]
            only_artifact(listing, n, i, (t.artifact->0).0));
    } else {
        assert(scanned(archive, listing, answers, n)->Ok_0 == scan_start());
    }
}

/// No path is of two kinds.
proof fn kinds_are_apart()
    ensures
        forall|p: Seq<char>| #[trigger] is_package_path(p) ==> !is_artifact_path(p) && !is_ir_path(p),
        forall|p: Seq<char>| #[trigger] is_artifact_path(p) ==> !is_ir_path(p),
{
    assert forall|p: Seq<char>| #[trigger] is_package_path(p) implies !is_artifact_path(p)
        && !is_ir_path(p) by {
        assert(paths::components(p).len() == 1);
        assert(seq!["dist"@, "nulang-app.ir.json"@].len() == 2);
    }
    assert forall|p: Seq<char>| #[trigger] is_artifact_path(p) implies !is_ir_path(p) by {
        assert(seq!["dist"@, "nulang-app.ir.json"@].len() == 2);
    }
}

/// An accepted bundle is small enough, has exactly one package manifest that
/// could be read, and exactly one artifact, at the path that the package's name
/// asks for, from which a manifest was derived.
pub proof fn accepted_bundles_are_whole(archive: Seq<u8>, answers: ReaderAnswers, scan: ScanView)
    requires
        checked_bundle(archive, answers) == Ok::<ScanView, BundleFault>(scan),
    ensures
        archive.len() <= MAX_DEPLOYMENT_BUNDLE_BYTES,
        answers.manifest is Ok,
        one_file(
            bundle_listing(archive),
            bundle_listing(archive).len(),
            |p: Seq<char>| is_package_path(p),
        ),
        exists|i: int| #[trigger]
            only_artifact(
                bundle_listing(archive),
                bundle_listing(archive).len(),
                i,
                artifact_path_of((answers.package->Ok_0).name@),
            ),
        scan.entry_count == bundle_listing(archive).len(),
        scan.expanded_bytes == total_size(bundle_listing(archive), bundle_listing(archive).len()),
{
    let listing = bundle_listing(archive);
    scans_find_one_of_each(archive, listing, answers, listing.len());
}

} // verus!
