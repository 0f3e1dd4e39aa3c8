use nulang::content_identity::{ArtifactId, ContentIdentityParseError, SemanticId, SourceId};

fn flags(names: &[&str]) -> Vec<String> {
    names.iter().map(|name| name.to_string()).collect()
}

#[test]
fn source_identity_tracks_exact_input() {
    let first = SourceId::from_bytes(b"fn main() { 1 }");
    let same = SourceId::from_bytes(b"fn main() { 1 }");
    let formatted = SourceId::from_bytes(b"fn main() {\n  1\n}");
    assert_eq!(first, same);
    assert_ne!(first, formatted);
}

#[test]
fn semantic_identity_canonicalizes_reference_order_and_duplicates() {
    let dep_a = SemanticId::from_canonical_bytes(b"dep-a", &vec![]);
    let dep_b = SemanticId::from_canonical_bytes(b"dep-b", &vec![]);
    let first = SemanticId::from_canonical_bytes(b"core", &vec![dep_a, dep_b]);
    let reordered = SemanticId::from_canonical_bytes(b"core", &vec![dep_b, dep_a, dep_b]);
    assert_eq!(first, reordered);
}

#[test]
fn semantic_identity_changes_with_semantics_or_dependencies() {
    let dep_a = SemanticId::from_canonical_bytes(b"dep-a", &vec![]);
    let dep_b = SemanticId::from_canonical_bytes(b"dep-b", &vec![]);
    assert_ne!(
        SemanticId::from_canonical_bytes(b"core-a", &vec![dep_a]),
        SemanticId::from_canonical_bytes(b"core-b", &vec![dep_a])
    );
    assert_ne!(
        SemanticId::from_canonical_bytes(b"core", &vec![dep_a]),
        SemanticId::from_canonical_bytes(b"core", &vec![dep_b])
    );
}

#[test]
fn artifact_identity_separates_target_backend_compiler_and_flags() {
    let semantic = SemanticId::from_canonical_bytes(b"core", &vec![]);
    let base = ArtifactId::from_semantic(
        semantic,
        "nulangc-0.1.0",
        "x86_64-unknown-linux-gnu",
        "abi-v1",
        "native",
        &flags(&["opt=3"]),
    );
    let wasm = ArtifactId::from_semantic(
        semantic,
        "nulangc-0.1.0",
        "wasm32-wasi",
        "abi-v1",
        "wasm",
        &flags(&["opt=3"]),
    );
    let new_compiler = ArtifactId::from_semantic(
        semantic,
        "nulangc-0.2.0",
        "x86_64-unknown-linux-gnu",
        "abi-v1",
        "native",
        &flags(&["opt=3"]),
    );
    assert_ne!(base, wasm);
    assert_ne!(base, new_compiler);
}

#[test]
fn artifact_flag_order_and_duplicates_are_canonical() {
    let semantic = SemanticId::from_canonical_bytes(b"core", &vec![]);
    let first = ArtifactId::from_semantic(
        semantic,
        "compiler",
        "target",
        "abi",
        "backend",
        &flags(&["lto", "opt=3"]),
    );
    let reordered = ArtifactId::from_semantic(
        semantic,
        "compiler",
        "target",
        "abi",
        "backend",
        &flags(&["opt=3", "lto", "lto"]),
    );
    assert_eq!(first, reordered);
}

#[test]
fn all_identity_types_round_trip_hex() {
    let source = SourceId::from_bytes(b"source");
    let semantic = SemanticId::from_canonical_bytes(b"semantic", &vec![]);
    let artifact = ArtifactId::from_semantic(
        semantic,
        "compiler",
        "target",
        "abi",
        "backend",
        &vec![],
    );
    assert_eq!(SourceId::parse(&source.to_hex()).unwrap(), source);
    assert_eq!(SemanticId::parse(&semantic.to_hex()).unwrap(), semantic);
    assert_eq!(ArtifactId::parse(&artifact.to_hex()).unwrap(), artifact);
    assert!(ArtifactId::parse("abcd").is_err());
}

#[test]
fn malformed_identities_say_why() {
    assert_eq!(SourceId::parse("abcd"), Err(ContentIdentityParseError::InvalidLength(4)));
    let text = "g".repeat(64);
    assert!(matches!(
        SemanticId::parse(&text),
        Err(ContentIdentityParseError::InvalidHex(_))
    ));
}

#[test]
fn digest_bytes_are_kept() {
    let id = SemanticId::from_digest_bytes([7; 32]);
    assert_eq!(id.as_bytes(), &[7u8; 32]);
    assert_eq!(id.to_hex(), "07".repeat(32));
}
