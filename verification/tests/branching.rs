use nulang::branching::{BranchManifest, BranchManifestError, BRANCH_MANIFEST_VERSION};
use nulang::dap::rewind::DurableBranch;
use nulang::runtime::{EventEntry, JournalEntry, PersistedValue};
use nulang::text_map::TextMap;

fn branch() -> DurableBranch {
    let mut state = TextMap::new();
    state.insert("count".to_string(), PersistedValue::Int(7));
    DurableBranch {
        branch_id: "branch-1".into(),
        parent_actor_id: 42,
        fork_sequence: 9,
        parent_latest_sequence: 12,
        snapshot_sequence: 8,
        state,
        journal: vec![JournalEntry {
            sequence: 9,
            behavior_id: 1,
            payload: vec![],
        }],
        events: vec![EventEntry {
            sequence: 9,
            field_name: "count".into(),
            event_name: "Changed".into(),
            args: vec![],
            value: PersistedValue::Int(7),
        }],
    }
}

fn manifest() -> BranchManifest {
    BranchManifest::from_branch(
        &branch(),
        "blake3:abc123",
        4,
        "nulang-runtime/0.1.0",
        1,
        "1700000000:4:node-a",
        "principal:user-7",
    )
}

#[test]
fn manifest_captures_branch_lineage_and_versions() {
    let m = manifest();
    assert_eq!(m.branch_id, "branch-1");
    assert_eq!(m.parent_entity_id, 42);
    assert_eq!(m.fork_sequence, 9);
    assert_eq!(m.schema_version, 4);
    assert_eq!(m.journal_format_version, 1);
    assert!(m.validate().is_ok());
}

#[test]
fn manifest_digest_is_deterministic() {
    let a = manifest()
        .with_capability("Payments.capture", "amount<=500")
        .with_capability("Net.fetch", "host=example.com");
    let b = manifest()
        .with_capability("Net.fetch", "host=example.com")
        .with_capability("Payments.capture", "amount<=500");
    assert_eq!(a.digest().unwrap(), b.digest().unwrap());
}

#[test]
fn execution_identity_must_match_exactly() {
    let m = manifest();
    assert!(m.matches_execution_identity("blake3:abc123", 4, "nulang-runtime/0.1.0", 1));
    assert!(!m.matches_execution_identity("blake3:different", 4, "nulang-runtime/0.1.0", 1));
    assert!(!m.matches_execution_identity("blake3:abc123", 5, "nulang-runtime/0.1.0", 1));
}

#[test]
fn manifest_rejects_missing_code_identity() {
    let mut m = manifest();
    m.code_hash.clear();
    assert_eq!(m.validate(), Err(BranchManifestError::Missing("code_hash")));
}

#[test]
fn provenance_is_part_of_the_digest() {
    let plain = manifest();
    let with = manifest().with_provenance_hash("prov:deadbeef");
    assert_eq!(with.provenance_hash.as_deref(), Some("prov:deadbeef"));
    assert_ne!(plain.digest().unwrap(), with.digest().unwrap());
}

#[test]
fn every_required_field_is_checked() {
    let mut m = manifest();
    m.branch_id = String::new();
    assert_eq!(m.validate(), Err(BranchManifestError::Missing("branch_id")));
    let mut m = manifest();
    m.runtime_version = "  ".to_string();
    assert!(m.validate().is_err());
    let mut m = manifest();
    m.manifest_version = BRANCH_MANIFEST_VERSION + 1;
    assert_eq!(
        m.validate(),
        Err(BranchManifestError::UnsupportedManifestVersion(BRANCH_MANIFEST_VERSION + 1))
    );
    assert!(m.digest().is_err());
}

#[test]
fn manifest_digest_is_the_hash_of_its_canonical_bytes() {
    let m = manifest().with_capability("Net.fetch", "host=example.com");
    let bytes = m.canonical_bytes().unwrap();
    assert_eq!(m.digest().unwrap(), blake3::hash(&bytes).to_hex().to_string());
}
