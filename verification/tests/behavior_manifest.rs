use nulang::artifact_identity::ArtifactIdentityManifest;
use nulang::behavior_manifest::{
    artifact_digest, ActorStateSchema, BehaviorActor, BehaviorAdmissionError, BehaviorArtifact,
    BehaviorManifest, BehaviorManifestError, BehaviorMigrationEvent, BehaviorMigrationStep,
    BehaviorOwnerKind, BehaviorPackage, BehaviorPersistence, BehaviorWorkflow,
    BehaviorWorkflowStep, MigrationIdentityCoverage, SchemaMigration,
    BEHAVIOR_ARTIFACT_KIND_NBC_V1, BEHAVIOR_ARTIFACT_KIND_WASM_MODULE, BEHAVIOR_MANIFEST_SCHEMA,
};
use nulang::content_identity::{ArtifactId, SemanticId, SourceId};
use nulang::hir::{ActorDef, BehaviorDef, Decl, Module, StateField, StateModel};

const LANGUAGE_VERSION_STR: &str = "0.1";

fn flags(names: &[&str]) -> Vec<String> {
    names.iter().map(|name| name.to_string()).collect()
}

fn typed_hir() -> Module {
    Module {
        name: "test".to_string(),
        decls: vec![Decl::Actor(ActorDef {
            name: "Counter".to_string(),
            persistent: true,
            state_fields: vec![StateField {
                name: "count".to_string(),
                model: StateModel::Durable,
            }],
            indexes: Vec::new(),
            behaviors: Vec::new(),
            is_organization: false,
            is_workflow: false,
            is_agent: false,
        })],
    }
}

/// The state schema of the one actor of a module.
fn schemas(name: &str, version: u32) -> Vec<ActorStateSchema> {
    let migrations = if version > 1 {
        vec![SchemaMigration {
            from_version: 1,
            to_version: 2,
            has_state_migration: true,
            event_handlers: Vec::new(),
        }]
    } else {
        Vec::new()
    };
    vec![ActorStateSchema {
        actor_name: name.to_string(),
        version,
        state_encoding: b"count:Int".to_vec(),
        migrations,
    }]
}

fn artifact() -> ArtifactIdentityManifest {
    ArtifactIdentityManifest::new(
        Some(SourceId::from_bytes(b"entity Counter {}")),
        SemanticId::from_canonical_bytes(b"program", &vec![]),
        "nulang-rust-0.1.0",
        "nulang-bytecode-v1",
        "nulang-vm-v1",
        "bytecode",
        &flags(&["opt=0"]),
    )
}

fn wasm_artifact() -> ArtifactIdentityManifest {
    ArtifactIdentityManifest::new(
        Some(SourceId::from_bytes(b"actor Counter {}")),
        SemanticId::from_canonical_bytes(b"program", &vec![]),
        "nulang-rust-0.1.0",
        "wasm32",
        "nulang-host-effects-v0alpha1",
        "wasm",
        &flags(&["opt=0"]),
    )
}

fn schema_id(seed: &[u8]) -> String {
    SemanticId::from_canonical_bytes(seed, &vec![]).to_hex()
}

fn base_manifest(actor: BehaviorActor) -> BehaviorManifest {
    BehaviorManifest {
        schema: BEHAVIOR_MANIFEST_SCHEMA.to_string(),
        package: BehaviorPackage {
            name: "payments".to_string(),
            version: "1.0.0".to_string(),
            language_version: LANGUAGE_VERSION_STR.to_string(),
        },
        artifact: BehaviorArtifact {
            kind: BEHAVIOR_ARTIFACT_KIND_NBC_V1.to_string(),
            digest: artifact_digest(b"artifact-bytes"),
            source_id: None,
            semantic_id: schema_id(b"program"),
            artifact_id: ArtifactId::from_semantic(
                SemanticId::from_canonical_bytes(b"program", &vec![]),
                "compiler",
                "target",
                "abi",
                "bytecode",
                &vec![],
            )
            .to_hex(),
            compiler_version: "compiler".to_string(),
            target: "target".to_string(),
            abi: "abi".to_string(),
            backend: "bytecode".to_string(),
            flags: Vec::new(),
        },
        actors: vec![actor],
    }
}

fn actor(version: u32, schema_seed: &[u8]) -> BehaviorActor {
    BehaviorActor {
        name: "payments::Account".to_string(),
        kind: BehaviorOwnerKind::Actor,
        persistence: BehaviorPersistence::Durable,
        schema_version: version,
        state_schema_semantic_id: schema_id(schema_seed),
        migration_identity: MigrationIdentityCoverage::TopologyOnly,
        migrations: if version == 1 {
            Vec::new()
        } else {
            (1..version)
                .map(|from| BehaviorMigrationStep {
                    from,
                    to: from + 1,
                    state: true,
                    events: Vec::new(),
                })
                .collect()
        },
        workflow: None,
    }
}

#[test]
fn typed_hir_binds_wasm_artifact_kind_to_exact_bytes() {
    let manifest = BehaviorManifest::from_typed_hir(
        "demo",
        "0.1.0",
        LANGUAGE_VERSION_STR,
        &wasm_artifact(),
        b"canonical-wasm-bytes",
        &typed_hir(),
        &schemas("test::Counter", 1),
    )
    .unwrap();

    assert_eq!(manifest.artifact.kind, BEHAVIOR_ARTIFACT_KIND_WASM_MODULE);
    manifest
        .verify_artifact_bytes(b"canonical-wasm-bytes")
        .unwrap();
}

#[test]
fn typed_hir_emits_ordered_workflow_step_metadata() {
    let mut module = typed_hir();
    let Decl::Actor(actor) = &mut module.decls[0] else {
        panic!("expected actor");
    };
    actor.name = "ApprovalFlow".into();
    actor.is_workflow = true;
    actor.behaviors = vec![
        BehaviorDef {
            name: "reserve".into(),
            compensates: true,
            parallel_branches: None,
        },
        BehaviorDef {
            name: "parallel_0".into(),
            compensates: false,
            parallel_branches: Some(vec!["email".into(), "sms".into()]),
        },
    ];

    let manifest = BehaviorManifest::from_typed_hir(
        "demo",
        "0.1.0",
        LANGUAGE_VERSION_STR,
        &artifact(),
        b"compiled-nbc",
        &module,
        &schemas("test::ApprovalFlow", 1),
    )
    .unwrap();

    let owner = &manifest.actors[0];
    assert_eq!(owner.kind, BehaviorOwnerKind::Workflow);
    assert_eq!(
        owner.workflow,
        Some(BehaviorWorkflow {
            steps: vec![
                BehaviorWorkflowStep {
                    name: "reserve".into(),
                    compensation: true,
                    parallel_branches: Vec::new(),
                },
                BehaviorWorkflowStep {
                    name: "parallel_0".into(),
                    compensation: false,
                    parallel_branches: vec!["email".into(), "sms".into()],
                },
            ],
        })
    );
}

#[test]
fn non_workflow_actor_omits_workflow_metadata() {
    let manifest = BehaviorManifest::from_typed_hir(
        "demo",
        "0.1.0",
        LANGUAGE_VERSION_STR,
        &artifact(),
        b"compiled-nbc",
        &typed_hir(),
        &schemas("test::Counter", 1),
    )
    .unwrap();

    assert_eq!(manifest.actors[0].kind, BehaviorOwnerKind::Actor);
    assert_eq!(manifest.actors[0].workflow, None);
}

#[test]
fn typed_hir_emits_durable_schema_and_migration_metadata() {
    let manifest = BehaviorManifest::from_typed_hir(
        "demo",
        "0.1.0",
        LANGUAGE_VERSION_STR,
        &artifact(),
        b"compiled-nbc",
        &typed_hir(),
        &schemas("test::Counter", 2),
    )
    .unwrap();
    assert_eq!(manifest.actors.len(), 1);
    let actor = &manifest.actors[0];
    assert_eq!(actor.name, "test::Counter");
    assert_eq!(actor.persistence, BehaviorPersistence::Durable);
    assert_eq!(actor.schema_version, 2);
    assert_eq!(actor.migrations.len(), 1);
    assert_eq!(actor.migrations[0].from, 1);
    assert_eq!(actor.migrations[0].to, 2);
    assert!(actor.migrations[0].state);
}

#[test]
fn canonical_json_and_digest_ignore_input_ordering_noise() {
    let mut first = base_manifest(actor(2, b"v2"));
    first.artifact.flags = vec!["z".to_string(), "a".to_string(), "z".to_string()];
    first.artifact.artifact_id = ArtifactId::from_semantic(
        SemanticId::from_canonical_bytes(b"program", &vec![]),
        "compiler",
        "target",
        "abi",
        "bytecode",
        &first.artifact.flags,
    )
    .to_hex();
    first.actors[0].migrations[0].events = vec![
        BehaviorMigrationEvent {
            name: "Zed".to_string(),
            arity: 0,
        },
        BehaviorMigrationEvent {
            name: "Alpha".to_string(),
            arity: 1,
        },
    ];

    let mut second = first.clone();
    second.artifact.flags.reverse();
    second.actors[0].migrations[0].events.reverse();

    assert_eq!(first.to_json().unwrap(), second.to_json().unwrap());
    assert_eq!(first.digest().unwrap(), second.digest().unwrap());
    assert_eq!(
        first.into_checked().unwrap(),
        second.into_checked().unwrap()
    );
}

#[test]
fn same_version_schema_change_is_rejected() {
    let previous = base_manifest(actor(1, b"schema-a"));
    let incoming = base_manifest(actor(1, b"schema-b"));

    assert!(matches!(
        incoming.validate_upgrade_from(&previous),
        Err(BehaviorAdmissionError::UnversionedSchemaChange {
            actor: _,
            version: 1
        })
    ));
}

#[test]
fn versioned_upgrade_with_complete_chain_is_admitted() {
    let previous = base_manifest(actor(1, b"schema-v1"));
    let incoming = base_manifest(actor(3, b"schema-v3"));
    incoming.validate_upgrade_from(&previous).unwrap();
}

#[test]
fn downgrade_and_missing_durable_owner_are_rejected() {
    let previous = base_manifest(actor(2, b"schema-v2"));
    let incoming = base_manifest(actor(1, b"schema-v1"));
    assert!(matches!(
        incoming.validate_upgrade_from(&previous),
        Err(BehaviorAdmissionError::SchemaDowngrade { .. })
    ));

    let mut removed = base_manifest(actor(2, b"schema-v2"));
    removed.actors.clear();
    assert!(matches!(
        removed.validate_upgrade_from(&previous),
        Err(BehaviorAdmissionError::DurableOwnerRemoved { .. })
    ));
}

#[test]
fn executable_digest_binds_sidecar_to_exact_bytes() {
    let manifest = base_manifest(actor(1, b"schema-v1"));
    manifest.verify_artifact_bytes(b"artifact-bytes").unwrap();
    assert!(matches!(
        manifest.verify_artifact_bytes(b"different-bytes"),
        Err(BehaviorManifestError::ArtifactDigestMismatch { .. })
    ));
}

#[test]
fn durable_persistence_model_changes_fail_closed() {
    let previous = base_manifest(actor(1, b"schema-v1"));
    let mut incoming = previous.clone();
    incoming.actors[0].persistence = BehaviorPersistence::EventSourced;

    assert!(matches!(
        incoming.validate_upgrade_from(&previous),
        Err(BehaviorAdmissionError::PersistenceClassChanged { .. })
    ));
}

#[test]
fn existing_migration_topology_cannot_be_rewritten_during_upgrade() {
    let previous = base_manifest(actor(2, b"schema-v2"));
    let mut incoming = base_manifest(actor(3, b"schema-v3"));
    incoming.actors[0].migrations[0].state = false;

    assert!(matches!(
        incoming.validate_upgrade_from(&previous),
        Err(BehaviorAdmissionError::ExistingMigrationTopologyChanged { .. })
    ));
}

#[test]
fn tampered_artifact_binding_fails_closed() {
    let valid = base_manifest(actor(1, b"schema-v1"));
    let mut value = valid.into_checked().unwrap();
    value.artifact.target = "different-target".to_string();

    assert!(matches!(
        value.into_checked(),
        Err(BehaviorManifestError::ArtifactIdentityMismatch { .. })
    ));
}

#[test]
fn malformed_or_unknown_manifests_fail_closed() {
    let valid = base_manifest(actor(1, b"schema-v1"));
    let mut value = valid.clone();
    value.schema = "nulang.behavior/v9".to_string();
    assert!(matches!(
        value.into_checked(),
        Err(BehaviorManifestError::UnsupportedSchema(_))
    ));

    let mut value = valid.clone();
    value.actors[0].schema_version = 2;
    assert!(matches!(
        value.into_checked(),
        Err(BehaviorManifestError::InvalidActor { .. })
    ));
}

#[test]
fn digest_is_the_domain_separated_hash_of_the_canonical_text() {
    let manifest = base_manifest(actor(1, b"schema-v1"));
    let text = manifest.canonical_json().unwrap();
    let mut hasher = blake3::Hasher::new();
    hasher.update(b"nulang.behavior-manifest.v0alpha1\0");
    hasher.update(text.as_bytes());
    let hash = hasher.finalize().to_hex().to_string();
    assert_eq!(manifest.digest().unwrap(), format!("blake3:{hash}"));
}

#[test]
fn unknown_artifact_kind_and_package_faults_are_told_apart() {
    let mut m = base_manifest(actor(1, b"schema-v1"));
    m.artifact.kind = "elf".to_string();
    assert!(matches!(
        m.validate(),
        Err(BehaviorManifestError::UnsupportedArtifactKind(_))
    ));
    let mut m = base_manifest(actor(1, b"schema-v1"));
    m.package.name = String::new();
    assert!(matches!(m.validate(), Err(BehaviorManifestError::InvalidPackage(_))));
    let mut m = base_manifest(actor(1, b"schema-v1"));
    m.artifact.semantic_id = "abc".to_string();
    assert!(matches!(m.validate(), Err(BehaviorManifestError::InvalidIdentity { .. })));
    let mut m = base_manifest(actor(1, b"schema-v1"));
    m.actors.push(actor(1, b"schema-v1"));
    assert!(matches!(m.validate(), Err(BehaviorManifestError::DuplicateActor(_))));
    let mut m = base_manifest(actor(1, b"schema-v1"));
    m.artifact.digest = "blake3:xyz".to_string();
    assert!(matches!(m.validate(), Err(BehaviorManifestError::InvalidDigest { .. })));
}

#[test]
fn every_manifest_upgrades_itself() {
    let manifest = base_manifest(actor(3, b"schema-v3"));
    manifest.validate_upgrade_from(&manifest).unwrap();
    let mut other = manifest.clone();
    other.package.name = "orders".to_string();
    assert!(matches!(
        other.validate_upgrade_from(&manifest),
        Err(BehaviorAdmissionError::PackageMismatch { .. })
    ));
    let mut dropped = manifest.clone();
    dropped.actors[0].persistence = BehaviorPersistence::Ephemeral;
    assert!(matches!(
        dropped.validate_upgrade_from(&manifest),
        Err(BehaviorAdmissionError::DurabilityRemoved { .. })
    ));
}

#[test]
fn a_sidecar_is_the_canonical_document_in_lines() {
    let manifest = base_manifest(actor(1, b"schema-v1"));
    let bytes = manifest.to_json().unwrap();
    let text = String::from_utf8(bytes.clone()).unwrap();
    assert!(text.starts_with("{\n  \"schema\": \""));
    assert!(text.ends_with("\n}"));
    let shown: serde_json::Value = serde_json::from_slice(&bytes).expect("a document");
    let compact: serde_json::Value =
        serde_json::from_str(&manifest.canonical_json().unwrap()).expect("a document");
    assert_eq!(shown, compact);
    assert_eq!(shown["package"]["name"], manifest.package.name.as_str());
}
