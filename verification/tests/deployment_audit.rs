use nulang::admission_policy::{
    AdmissionDecision, AdmissionEnvironment, AdmissionEvaluator, AdmissionPolicy,
};
use nulang::bytecode::CodeModule;
use nulang::deployment_audit::{
    DeploymentAdmissionRecord, DeploymentAuditError, DEPLOYMENT_AUDIT_SCHEMA_VERSION,
};
use nulang::deployment_bundle::{DeploymentBundle, PackageIdentity};
use nulang::deployment_manifest::{CompiledExecutionManifest, ExecutionProfile};

fn hash(bytes: &[u8]) -> String {
    blake3::hash(bytes).to_hex().to_string()
}

fn fixture_manifest(artifact: &[u8]) -> CompiledExecutionManifest {
    let profile = ExecutionProfile {
        feature_names: Vec::new(),
        external_effects: Vec::new(),
        external_effect_roots: Vec::new(),
        reaches_host_boundary: false,
        ephemeral: true,
        local_only: true,
    };
    CompiledExecutionManifest::from_module_and_bytes(
        &CodeModule::new("audit-test"),
        artifact,
        &profile,
    )
}

fn fixture_bundle() -> DeploymentBundle {
    let artifact = b"NBC audit-test".to_vec();
    DeploymentBundle {
        package_manifest: PackageIdentity {
            name: "app".to_string(),
            version: "0.1.0".to_string(),
        },
        artifact_path: ".nula/dist/app.nbc".to_string(),
        execution_manifest: fixture_manifest(&artifact),
        artifact_bytes: artifact,
        web_ir: None,
        entry_count: 2,
        expanded_bytes: 64,
    }
}

fn policy(id: &str, version: u64, encoded: &str) -> AdmissionPolicy {
    AdmissionPolicy {
        policy_id: id.to_string(),
        policy_version: version,
        encoded: encoded.to_string(),
    }
}

fn environment() -> AdmissionEnvironment {
    AdmissionEnvironment {
        isolation_level: 0,
        encoded: "{}".to_string(),
    }
}

/// Rules that object when a policy does not name a root that is needed.
struct Rules {
    needs: Option<&'static str>,
}

impl AdmissionEvaluator for Rules {
    fn evaluate(
        &self,
        artifact: &[u8],
        policy: &AdmissionPolicy,
        environment: &AdmissionEnvironment,
    ) -> AdmissionDecision {
        let manifest = fixture_manifest(artifact);
        let reason_count = match self.needs {
            Some(root) if !policy.encoded.contains(root) => 1,
            _ => 0,
        };
        AdmissionDecision {
            admitted: reason_count == 0,
            artifact_blake3: manifest.artifact_blake3.clone(),
            derived_manifest_blake3: Some(manifest.json_blake3()),
            policy_id: policy.policy_id.clone(),
            policy_version: policy.policy_version,
            actual_isolation_level: environment.isolation_level,
            reason_count,
            encoded: format!("{{\"reasons\":{reason_count}}}"),
        }
    }
}

const OPEN: Rules = Rules { needs: None };

#[test]
fn records_complete_immutable_admission_evidence() {
    let bundle = fixture_bundle();
    let policy = policy("tenant/default", 7, "{\"version\":7}");
    let environment = environment();
    let decision = bundle.evaluate_admission(&policy, &environment, &OPEN);

    let record = DeploymentAdmissionRecord::new(
        "dep_123",
        &bundle,
        &policy,
        &environment,
        &decision,
        &OPEN,
    )
    .expect("build audit record");

    assert!(record.admitted());
    assert_eq!(record.schema_version(), DEPLOYMENT_AUDIT_SCHEMA_VERSION);
    assert_eq!(record.deployment_id(), "dep_123");
    assert_eq!(record.package_name(), "app");
    assert_eq!(record.artifact_path(), ".nula/dist/app.nbc");
    assert_eq!(record.policy().policy_id, "tenant/default");
    assert_eq!(
        record.artifact_blake3(),
        bundle.execution_manifest.artifact_blake3
    );
    assert_eq!(
        record.manifest_blake3(),
        bundle.execution_manifest.json_blake3()
    );
    assert_eq!(record.policy_blake3(), hash(policy.encoded.as_bytes()));
    assert_eq!(
        record.environment_blake3(),
        hash(environment.encoded.as_bytes())
    );
    assert_eq!(record.decision_blake3(), hash(decision.encoded.as_bytes()));
    assert_eq!(record.execution_manifest(), &bundle.execution_manifest);
    assert_eq!(record.environment(), &environment);
    assert_eq!(record.decision(), &decision);
    assert_eq!(record.record_blake3(), record.record_blake3());
}

#[test]
fn policy_content_changes_are_visible_even_when_version_is_reused() {
    let bundle = fixture_bundle();
    let environment = environment();
    let policy_a = policy("tenant/default", 1, "{\"roots\":[]}");
    let mut policy_b = policy_a.clone();
    policy_b.encoded = "{\"roots\":[\"Net\"]}".to_string();

    assert_ne!(hash(policy_a.encoded.as_bytes()), hash(policy_b.encoded.as_bytes()));

    let decision = bundle.evaluate_admission(&policy_a, &environment, &OPEN);
    let record = DeploymentAdmissionRecord::new(
        "dep_policy",
        &bundle,
        &policy_a,
        &environment,
        &decision,
        &OPEN,
    )
    .unwrap();
    assert_ne!(record.policy_blake3(), hash(policy_b.encoded.as_bytes()));
}

#[test]
fn rejects_decision_from_different_policy_contents_with_same_identity() {
    let bundle = fixture_bundle();
    let policy_allowed = policy("tenant/shared", 1, "{\"roots\":[\"Net\"]}");
    let mut policy_denied = policy_allowed.clone();
    policy_denied.encoded = "{\"roots\":[]}".to_string();
    let environment = environment();
    let rules = Rules { needs: Some("Net") };

    let allowed_decision = bundle.evaluate_admission(&policy_allowed, &environment, &rules);
    assert!(allowed_decision.admitted);
    assert!(!bundle.evaluate_admission(&policy_denied, &environment, &rules).admitted);

    assert!(matches!(
        DeploymentAdmissionRecord::new(
            "dep_relabel",
            &bundle,
            &policy_denied,
            &environment,
            &allowed_decision,
            &rules,
        ),
        Err(DeploymentAuditError::DecisionReevaluationMismatch { .. })
    ));
}

#[test]
fn rejects_a_decision_for_a_different_artifact() {
    let bundle = fixture_bundle();
    let policy = policy("tenant/default", 1, "{}");
    let environment = environment();
    let mut decision = bundle.evaluate_admission(&policy, &environment, &OPEN);
    decision.artifact_blake3 = "0".repeat(64);

    assert!(matches!(
        DeploymentAdmissionRecord::new(
            "dep_forged",
            &bundle,
            &policy,
            &environment,
            &decision,
            &OPEN,
        ),
        Err(DeploymentAuditError::DecisionArtifactMismatch { .. })
    ));
}

#[test]
fn rejects_a_decision_for_a_different_policy_identity() {
    let bundle = fixture_bundle();
    let policy = policy("tenant/default", 1, "{}");
    let environment = environment();
    let mut decision = bundle.evaluate_admission(&policy, &environment, &OPEN);
    decision.policy_version = 2;

    assert!(matches!(
        DeploymentAdmissionRecord::new(
            "dep_policy_mismatch",
            &bundle,
            &policy,
            &environment,
            &decision,
            &OPEN,
        ),
        Err(DeploymentAuditError::DecisionPolicyMismatch { .. })
    ));
}

fn refused(
    deployment_id: &str,
    bundle: &DeploymentBundle,
    decision: &AdmissionDecision,
) -> DeploymentAuditError {
    let policy = policy("tenant/default", 1, "{}");
    DeploymentAdmissionRecord::new(
        deployment_id,
        bundle,
        &policy,
        &environment(),
        decision,
        &OPEN,
    )
    .unwrap_err()
}

#[test]
fn each_inconsistency_has_its_own_error() {
    let bundle = fixture_bundle();
    let good = bundle.evaluate_admission(
        &policy("tenant/default", 1, "{}"),
        &environment(),
        &OPEN,
    );

    assert!(matches!(refused("  ", &bundle, &good), DeploymentAuditError::EmptyDeploymentId));

    let mut swapped = fixture_bundle();
    swapped.artifact_bytes.push(0);
    assert!(matches!(
        refused("d", &swapped, &good),
        DeploymentAuditError::ArtifactManifestMismatch { .. }
    ));

    let mut decision = good.clone();
    decision.actual_isolation_level = 3;
    assert!(matches!(
        refused("d", &bundle, &decision),
        DeploymentAuditError::DecisionEnvironmentMismatch { .. }
    ));

    let mut decision = good.clone();
    decision.derived_manifest_blake3 = None;
    assert!(matches!(
        refused("d", &bundle, &decision),
        DeploymentAuditError::DecisionManifestMismatch { .. }
    ));

    let mut decision = good.clone();
    decision.reason_count = 2;
    assert!(matches!(
        refused("d", &bundle, &decision),
        DeploymentAuditError::InconsistentDecision { admitted: true, reason_count: 2 }
    ));
}

#[test]
fn record_hash_covers_the_record_text() {
    let bundle = fixture_bundle();
    let policy = policy("tenant/default", 1, "{}");
    let decision = bundle.evaluate_admission(&policy, &environment(), &OPEN);
    let build = |id: &str| {
        DeploymentAdmissionRecord::new(id, &bundle, &policy, &environment(), &decision, &OPEN)
            .unwrap()
    };
    let record = build("dep_1");
    assert_eq!(record.record_blake3(), hash(record.compact_json().as_bytes()));
    assert_ne!(record.record_blake3(), build("dep_2").record_blake3());
}

#[test]
fn a_reevaluated_decision_must_say_the_same() {
    let bundle = fixture_bundle();
    let policy = policy("tenant/default", 1, "{}");
    let decision = bundle.evaluate_admission(&policy, &environment(), &OPEN);
    let mut other = decision.clone();
    other.encoded = "other".to_string();
    let build = |recomputed: &AdmissionDecision| {
        DeploymentAdmissionRecord::from_reevaluation(
            "dep_1",
            &bundle,
            &policy,
            &environment(),
            &decision,
            recomputed,
        )
    };
    assert!(build(&decision).is_ok());
    match build(&other) {
        Err(DeploymentAuditError::DecisionReevaluationMismatch {
            expected_blake3,
            actual_blake3,
        }) => {
            assert_eq!(expected_blake3, hash(b"other"));
            assert_eq!(actual_blake3, hash(decision.encoded.as_bytes()));
        }
        other => panic!("unexpected result {other:?}"),
    }
}

#[test]
fn a_record_is_laid_out_in_lines() {
    let bundle = fixture_bundle();
    let policy = policy("tenant/default", 1, "{\"roots\":[]}");
    let decision = bundle.evaluate_admission(&policy, &environment(), &OPEN);
    let record =
        DeploymentAdmissionRecord::new("dep_1", &bundle, &policy, &environment(), &decision, &OPEN)
            .unwrap();
    let json = record.to_json();
    assert!(json.starts_with("{\n  \"schema_version\": 1,\n  \"deployment_id\": \"dep_1\",\n"));
    assert!(json.contains("  \"policy\": {\n    \"roots\": []\n  },\n  \"environment\": {},\n"));
    let shown: serde_json::Value = serde_json::from_str(&json).expect("a document");
    let compact: serde_json::Value =
        serde_json::from_str(&record.compact_json()).expect("a document");
    assert_eq!(shown, compact);
}
