//! Immutable evidence record for deployment admission.
//!
//! The record snapshots the derived execution manifest, tenant policy,
//! candidate environment and admission decision, while content-addressing each
//! component independently.

use crate::admission_policy::{self, AdmissionDecision, AdmissionEnvironment, AdmissionEvaluator, AdmissionPolicy};
use crate::deployment_bundle::DeploymentBundle;
use crate::deployment_manifest::{self, CompiledExecutionManifest};
use crate::hashing::{self, blake3_hex};
use crate::json::{self, push_number_field, push_text_field};
use crate::text::{self, blank, cat3, cat4, clone_opt, debug_string, dec_of, opt_eq, str_eq, text};
use vstd::prelude::*;
use vstd::utf8::*;

verus! {

pub const DEPLOYMENT_AUDIT_SCHEMA_VERSION: u32 = 1;

/// Immutable evidence for one admission decision.
///
/// Its fields are private so that a record comes from
/// [`DeploymentAdmissionRecord::new`] alone.
#[derive(Debug, PartialEq, Eq)]
pub struct DeploymentAdmissionRecord {
    schema_version: u32,
    deployment_id: String,
    package_name: String,
    artifact_path: String,
    artifact_blake3: String,
    manifest_blake3: String,
    policy_blake3: String,
    environment_blake3: String,
    decision_blake3: String,
    admitted: bool,
    execution_manifest: CompiledExecutionManifest,
    policy: AdmissionPolicy,
    environment: AdmissionEnvironment,
    decision: AdmissionDecision,
}

/// What a record says.
#[verifier::ext_equal]
pub struct RecordView {
    pub deployment_id: Seq<char>,
    pub package_name: Seq<char>,
    pub artifact_path: Seq<char>,
    pub artifact_blake3: Seq<char>,
    pub manifest: deployment_manifest::ManifestView,
    pub policy_id: Seq<char>,
    pub policy_version: u64,
    pub policy: Seq<char>,
    pub isolation_level: u8,
    pub environment: Seq<char>,
    pub decision: admission_policy::DecisionView,
}

/// The digest text of bytes.
pub open spec fn digest_text(b: Seq<u8>) -> Seq<char> {
    hashing::hex_text(hashing::blake3_digest(b))
}

/// The content address of a document.
pub open spec fn document_digest(s: Seq<char>) -> Seq<char> {
    digest_text(encode_utf8(s))
}

/// The content address of a manifest.
pub open spec fn manifest_digest(m: deployment_manifest::ManifestView) -> Seq<char> {
    document_digest(deployment_manifest::manifest_json(m))
}

impl View for DeploymentAdmissionRecord {
    type V = RecordView;

    closed spec fn view(&self) -> RecordView {
        RecordView {
            deployment_id: self.deployment_id@,
            package_name: self.package_name@,
            artifact_path: self.artifact_path@,
            artifact_blake3: self.artifact_blake3@,
            manifest: self.execution_manifest@,
            policy_id: self.policy.policy_id@,
            policy_version: self.policy.policy_version,
            policy: self.policy.encoded@,
            isolation_level: self.environment.isolation_level,
            environment: self.environment.encoded@,
            decision: self.decision@,
        }
    }
}

#[derive(Debug, Clone, PartialEq, Eq)]
pub enum DeploymentAuditError {
    EmptyDeploymentId,
    ArtifactManifestMismatch { artifact: String, manifest_artifact: String },
    DecisionArtifactMismatch { expected: String, actual: String },
    DecisionPolicyMismatch {
        expected_id: String,
        expected_version: u64,
        actual_id: String,
        actual_version: u64,
    },
    DecisionEnvironmentMismatch { expected_isolation_level: u8, actual_isolation_level: u8 },
    DecisionManifestMismatch { expected: String, actual: Option<String> },
    DecisionReevaluationMismatch { expected_blake3: String, actual_blake3: String },
    InconsistentDecision { admitted: bool, reason_count: usize },
}

/// What an audit error says.
#[verifier::ext_equal]
pub enum AuditFault {
    EmptyDeploymentId,
    ArtifactManifestMismatch(Seq<char>, Seq<char>),
    DecisionArtifactMismatch(Seq<char>, Seq<char>),
    DecisionPolicyMismatch(Seq<char>, u64, Seq<char>, u64),
    DecisionEnvironmentMismatch(u8, u8),
    DecisionManifestMismatch(Seq<char>, Option<Seq<char>>),
    DecisionReevaluationMismatch(Seq<char>, Seq<char>),
    InconsistentDecision(bool, usize),
}

impl View for DeploymentAuditError {
    type V = AuditFault;

    open spec fn view(&self) -> AuditFault {
        match self {
            DeploymentAuditError::EmptyDeploymentId => AuditFault::EmptyDeploymentId,
            DeploymentAuditError::ArtifactManifestMismatch { artifact, manifest_artifact } =>
                AuditFault::ArtifactManifestMismatch(artifact@, manifest_artifact@),
            DeploymentAuditError::DecisionArtifactMismatch { expected, actual } =>
                AuditFault::DecisionArtifactMismatch(expected@, actual@),
            DeploymentAuditError::DecisionPolicyMismatch {
                expected_id,
                expected_version,
                actual_id,
                actual_version,
            } => AuditFault::DecisionPolicyMismatch(
                expected_id@,
                *expected_version,
                actual_id@,
                *actual_version,
            ),
            DeploymentAuditError::DecisionEnvironmentMismatch {
                expected_isolation_level,
                actual_isolation_level,
            } => AuditFault::DecisionEnvironmentMismatch(
                *expected_isolation_level,
                *actual_isolation_level,
            ),
            DeploymentAuditError::DecisionManifestMismatch { expected, actual } =>
                AuditFault::DecisionManifestMismatch(expected@, text::opt_view(*actual)),
            DeploymentAuditError::DecisionReevaluationMismatch {
                expected_blake3,
                actual_blake3,
            } => AuditFault::DecisionReevaluationMismatch(expected_blake3@, actual_blake3@),
            DeploymentAuditError::InconsistentDecision { admitted, reason_count } =>
                AuditFault::InconsistentDecision(*admitted, *reason_count),
        }
    }
}

/// The text of an audit error; a manifest digest is shown quoted.
pub open spec fn fault_text(f: AuditFault) -> Seq<char> {
    match f {
        AuditFault::EmptyDeploymentId => "deployment id must not be empty"@,
        AuditFault::ArtifactManifestMismatch(a, m) => "artifact digest "@ + a
            + " does not match artifact digest recorded by derived manifest "@ + m,
        AuditFault::DecisionArtifactMismatch(e, a) => "decision artifact digest "@ + a
            + " does not match admitted artifact "@ + e,
        AuditFault::DecisionPolicyMismatch(ei, ev, ai, av) => "decision policy "@ + version_text(
            ai,
            av,
        ) + " does not match evaluated policy "@ + version_text(ei, ev),
        AuditFault::DecisionEnvironmentMismatch(e, a) => "decision isolation level "@ + text::dec(
            a as nat,
        ) + " does not match candidate environment "@ + text::dec(e as nat),
        AuditFault::DecisionManifestMismatch(e, a) => "decision derived-manifest digest "@ + (
        match a {
            Some(s) => "Some("@ + text::debug_text(s) + ")"@,
            None => "None"@,
        }) + " does not match validated manifest "@ + e,
        AuditFault::DecisionReevaluationMismatch(e, a) => "admission decision digest "@ + a
            + " does not match decision recomputed from exact policy/environment inputs "@ + e,
        AuditFault::InconsistentDecision(b, n) =>
            "admission decision is internally inconsistent: admitted="@ + (if b {
            "true"@
        } else {
            "false"@
        }) + ", denial reasons="@ + text::dec(n as nat),
    }
}

/// A policy identity with its version.
pub open spec fn version_text(id: Seq<char>, version: u64) -> Seq<char> {
    id + "@"@ + text::dec(version as nat)
}

fn versioned(id: &str, version: u64) -> (r: String)
    ensures
        r@ == version_text(id@, version),
{
    cat3(id, "@", dec_of(version).as_str())
}

impl DeploymentAuditError {
    pub fn to_string(&self) -> (r: String)
        ensures
            r@ == fault_text(self@),
    {
        match self {
            DeploymentAuditError::EmptyDeploymentId => text("deployment id must not be empty"),
            DeploymentAuditError::ArtifactManifestMismatch { artifact, manifest_artifact } => cat4(
                "artifact digest ",
                artifact.as_str(),
                " does not match artifact digest recorded by derived manifest ",
                manifest_artifact.as_str(),
            ),
            DeploymentAuditError::DecisionArtifactMismatch { expected, actual } => cat4(
                "decision artifact digest ",
                actual.as_str(),
                " does not match admitted artifact ",
                expected.as_str(),
            ),
            DeploymentAuditError::DecisionPolicyMismatch {
                expected_id,
                expected_version,
                actual_id,
                actual_version,
            } => cat4(
                "decision policy ",
                versioned(actual_id.as_str(), *actual_version).as_str(),
                " does not match evaluated policy ",
                versioned(expected_id.as_str(), *expected_version).as_str(),
            ),
            DeploymentAuditError::DecisionEnvironmentMismatch {
                expected_isolation_level,
                actual_isolation_level,
            } => cat4(
                "decision isolation level ",
                dec_of(*actual_isolation_level as u64).as_str(),
                " does not match candidate environment ",
                dec_of(*expected_isolation_level as u64).as_str(),
            ),
            DeploymentAuditError::DecisionManifestMismatch { expected, actual } => {
                let shown: String = match actual {
                    Some(s) => cat3("Some(", debug_string(s.as_str()).as_str(), ")"),
                    None => text("None"),
                };
                cat4(
                    "decision derived-manifest digest ",
                    shown.as_str(),
                    " does not match validated manifest ",
                    expected.as_str(),
                )
            },
            DeploymentAuditError::DecisionReevaluationMismatch {
                expected_blake3,
                actual_blake3,
            } => cat4(
                "admission decision digest ",
                actual_blake3.as_str(),
                " does not match decision recomputed from exact policy/environment inputs ",
                expected_blake3.as_str(),
            ),
            DeploymentAuditError::InconsistentDecision { admitted, reason_count } => {
                let shown: String = if *admitted {
                    text("true")
                } else {
                    text("false")
                };
                cat4(
                    "admission decision is internally inconsistent: admitted=",
                    shown.as_str(),
                    ", denial reasons=",
                    dec_of(*reason_count as u64).as_str(),
                )
            },
        }
    }
}

/// Why a decision cannot be recorded, if it cannot.
pub open spec fn audit_fault(
    deployment_id: Seq<char>,
    artifact: Seq<u8>,
    manifest: deployment_manifest::ManifestView,
    policy: AdmissionPolicy,
    environment: AdmissionEnvironment,
    decision: admission_policy::DecisionView,
    recomputed: admission_policy::DecisionView,
) -> Option<AuditFault> {
    if text::is_blank(deployment_id) {
        Some(AuditFault::EmptyDeploymentId)
    } else if digest_text(artifact) != manifest.artifact_blake3 {
        Some(
            AuditFault::ArtifactManifestMismatch(digest_text(artifact), manifest.artifact_blake3),
        )
    } else if decision.artifact_blake3 != manifest.artifact_blake3 {
        Some(
            AuditFault::DecisionArtifactMismatch(
                manifest.artifact_blake3,
                decision.artifact_blake3,
            ),
        )
    } else if decision.policy_id != policy.policy_id@ || decision.policy_version
        != policy.policy_version {
        Some(
            AuditFault::DecisionPolicyMismatch(
                policy.policy_id@,
                policy.policy_version,
                decision.policy_id,
                decision.policy_version,
            ),
        )
    } else if decision.actual_isolation_level != environment.isolation_level {
        Some(
            AuditFault::DecisionEnvironmentMismatch(
                environment.isolation_level,
                decision.actual_isolation_level,
            ),
        )
    } else if decision.admitted != (decision.reason_count == 0) {
        Some(AuditFault::InconsistentDecision(decision.admitted, decision.reason_count))
    } else if decision.derived_manifest_blake3 != Some(manifest_digest(manifest)) {
        Some(
            AuditFault::DecisionManifestMismatch(
                manifest_digest(manifest),
                decision.derived_manifest_blake3,
            ),
        )
    } else if recomputed != decision {
        Some(
            AuditFault::DecisionReevaluationMismatch(
                document_digest(recomputed.encoded),
                document_digest(decision.encoded),
            ),
        )
    } else {
        None
    }
}

/// Whether a result is the record of a decision, or the first objection to it.
pub open spec fn record_agrees(
    deployment_id: Seq<char>,
    bundle: DeploymentBundle,
    policy: AdmissionPolicy,
    environment: AdmissionEnvironment,
    decision: admission_policy::DecisionView,
    recomputed: admission_policy::DecisionView,
    r: Result<DeploymentAdmissionRecord, DeploymentAuditError>,
) -> bool {
    let fault = audit_fault(
        deployment_id,
        bundle.artifact_bytes@,
        bundle.execution_manifest@,
        policy,
        environment,
        decision,
        recomputed,
    );
    match r {
        Err(e) => fault == Some(e@),
        Ok(record) => fault is None && record.wf() && record@ == (RecordView {
            deployment_id,
            package_name: bundle.package_manifest.name@,
            artifact_path: bundle.artifact_path@,
            artifact_blake3: bundle.execution_manifest@.artifact_blake3,
            manifest: bundle.execution_manifest@,
            policy_id: policy.policy_id@,
            policy_version: policy.policy_version,
            policy: policy.encoded@,
            isolation_level: environment.isolation_level,
            environment: environment.encoded@,
            decision,
        }),
    }
}

fn check_decision(
    manifest: &CompiledExecutionManifest,
    policy: &AdmissionPolicy,
    environment: &AdmissionEnvironment,
    decision: &AdmissionDecision,
) -> (r: Result<(), DeploymentAuditError>)
    ensures
        match r {
            Ok(_) => decision@.artifact_blake3 == manifest@.artifact_blake3 && decision@.policy_id
                == policy.policy_id@ && decision@.policy_version == policy.policy_version
                && decision@.actual_isolation_level == environment.isolation_level
                && decision@.admitted == (decision@.reason_count == 0),
            Err(e) => e@ == (if decision@.artifact_blake3 != manifest@.artifact_blake3 {
                AuditFault::DecisionArtifactMismatch(
                    manifest@.artifact_blake3,
                    decision@.artifact_blake3,
                )
            } else if decision@.policy_id != policy.policy_id@ || decision@.policy_version
                != policy.policy_version {
                AuditFault::DecisionPolicyMismatch(
                    policy.policy_id@,
                    policy.policy_version,
                    decision@.policy_id,
                    decision@.policy_version,
                )
            } else if decision@.actual_isolation_level != environment.isolation_level {
                AuditFault::DecisionEnvironmentMismatch(
                    environment.isolation_level,
                    decision@.actual_isolation_level,
                )
            } else {
                AuditFault::InconsistentDecision(decision@.admitted, decision@.reason_count)
            }) && !(decision@.artifact_blake3 == manifest@.artifact_blake3 && decision@.policy_id
                == policy.policy_id@ && decision@.policy_version == policy.policy_version
                && decision@.actual_isolation_level == environment.isolation_level
                && decision@.admitted == (decision@.reason_count == 0)),
        },
{
    if !str_eq(decision.artifact_blake3.as_str(), manifest.artifact_blake3.as_str()) {
        return Err(
            DeploymentAuditError::DecisionArtifactMismatch {
                expected: manifest.artifact_blake3.clone(),
                actual: decision.artifact_blake3.clone(),
            },
        );
    }
    if !str_eq(decision.policy_id.as_str(), policy.policy_id.as_str()) || decision.policy_version
        != policy.policy_version {
        return Err(
            DeploymentAuditError::DecisionPolicyMismatch {
                expected_id: policy.policy_id.clone(),
                expected_version: policy.policy_version,
                actual_id: decision.policy_id.clone(),
                actual_version: decision.policy_version,
            },
        );
    }
    if decision.actual_isolation_level != environment.isolation_level {
        return Err(
            DeploymentAuditError::DecisionEnvironmentMismatch {
                expected_isolation_level: environment.isolation_level,
                actual_isolation_level: decision.actual_isolation_level,
            },
        );
    }
    if decision.admitted != (decision.reason_count == 0) {
        return Err(
            DeploymentAuditError::InconsistentDecision {
                admitted: decision.admitted,
                reason_count: decision.reason_count,
            },
        );
    }
    Ok(())
}

impl DeploymentAdmissionRecord {
    /// Whether the digests of a record are those of what it holds.
    pub closed spec fn wf(&self) -> bool {
        &&& self.schema_version == DEPLOYMENT_AUDIT_SCHEMA_VERSION
        &&& self.manifest_blake3@ == manifest_digest(self.execution_manifest@)
        &&& self.policy_blake3@ == document_digest(self.policy.encoded@)
        &&& self.environment_blake3@ == document_digest(self.environment.encoded@)
        &&& self.decision_blake3@ == document_digest(self.decision.encoded@)
        &&& self.admitted == self.decision.admitted
    }

    /// Build and cross-check a record. The decision is evaluated again from the
    /// exact artifact, policy and environment; any mismatch is rejected rather
    /// than recorded as authoritative.
    pub fn new<E: AdmissionEvaluator>(
        deployment_id: &str,
        bundle: &DeploymentBundle,
        policy: &AdmissionPolicy,
        environment: &AdmissionEnvironment,
        decision: &AdmissionDecision,
        rules: &E,
    ) -> (r: Result<Self, DeploymentAuditError>)
        ensures
            exists|recomputed: AdmissionDecision| #[trigger]
                admission_policy::evaluated(
                    rules,
                    bundle.artifact_bytes@,
                    *policy,
                    *environment,
                    recomputed,
                ) && record_agrees(
                    deployment_id@,
                    *bundle,
                    *policy,
                    *environment,
                    decision@,
                    recomputed@,
                    r,
                ),
    {
        let recomputed: AdmissionDecision = bundle.evaluate_admission(policy, environment, rules);
        DeploymentAdmissionRecord::from_reevaluation(
            deployment_id,
            bundle,
            policy,
            environment,
            decision,
            &recomputed,
        )
    }

    /// Build and cross-check a record against the decision that was evaluated
    /// again.
    pub fn from_reevaluation(
        deployment_id: &str,
        bundle: &DeploymentBundle,
        policy: &AdmissionPolicy,
        environment: &AdmissionEnvironment,
        decision: &AdmissionDecision,
        recomputed: &AdmissionDecision,
    ) -> (r: Result<Self, DeploymentAuditError>)
        ensures
            record_agrees(
                deployment_id@,
                *bundle,
                *policy,
                *environment,
                decision@,
                recomputed@,
                r,
            ),
    {
        if blank(deployment_id) {
            return Err(DeploymentAuditError::EmptyDeploymentId);
        }
        let manifest: &CompiledExecutionManifest = &bundle.execution_manifest;
        let artifact_blake3: String = blake3_hex(bundle.artifact_bytes.as_slice());
        if !str_eq(artifact_blake3.as_str(), manifest.artifact_blake3.as_str()) {
            return Err(
                DeploymentAuditError::ArtifactManifestMismatch {
                    artifact: artifact_blake3,
                    manifest_artifact: manifest.artifact_blake3.clone(),
                },
            );
        }
        match check_decision(manifest, policy, environment, decision) {
            Ok(_) => {},
            Err(e) => {
                return Err(e);
            },
        }
        let manifest_blake3: String = manifest.json_blake3();
        let wanted: Option<String> = Some(manifest_blake3.clone());
        if !opt_eq(&decision.derived_manifest_blake3, &wanted) {
            return Err(
                DeploymentAuditError::DecisionManifestMismatch {
                    expected: manifest_blake3,
                    actual: clone_opt(&decision.derived_manifest_blake3),
                },
            );
        }
        if !recomputed.same(decision) {
            return Err(
                DeploymentAuditError::DecisionReevaluationMismatch {
                    expected_blake3: blake3_hex(recomputed.encoded.as_str().as_bytes()),
                    actual_blake3: blake3_hex(decision.encoded.as_str().as_bytes()),
                },
            );
        }
        Ok(
            DeploymentAdmissionRecord {
                schema_version: DEPLOYMENT_AUDIT_SCHEMA_VERSION,
                deployment_id: text(deployment_id),
                package_name: bundle.package_manifest.name.clone(),
                artifact_path: bundle.artifact_path.clone(),
                artifact_blake3: manifest.artifact_blake3.clone(),
                manifest_blake3,
                policy_blake3: blake3_hex(policy.encoded.as_str().as_bytes()),
                environment_blake3: blake3_hex(environment.encoded.as_str().as_bytes()),
                decision_blake3: blake3_hex(decision.encoded.as_str().as_bytes()),
                admitted: decision.admitted,
                execution_manifest: manifest.copied(),
                policy: policy.copied(),
                environment: environment.copied(),
                decision: decision.copied(),
            },
        )
    }

    pub fn schema_version(&self) -> (r: u32)
        ensures
            self.wf() ==> r == DEPLOYMENT_AUDIT_SCHEMA_VERSION,
    {
        self.schema_version
    }

    pub fn deployment_id(&self) -> (r: &str)
        ensures
            r@ == self@.deployment_id,
    {
        self.deployment_id.as_str()
    }

    pub fn package_name(&self) -> (r: &str)
        ensures
            r@ == self@.package_name,
    {
        self.package_name.as_str()
    }

    pub fn artifact_path(&self) -> (r: &str)
        ensures
            r@ == self@.artifact_path,
    {
        self.artifact_path.as_str()
    }

    pub fn artifact_blake3(&self) -> (r: &str)
        ensures
            r@ == self@.artifact_blake3,
    {
        self.artifact_blake3.as_str()
    }

    pub fn manifest_blake3(&self) -> (r: &str)
        ensures
            self.wf() ==> r@ == manifest_digest(self@.manifest),
    {
        self.manifest_blake3.as_str()
    }

    pub fn policy_blake3(&self) -> (r: &str)
        ensures
            self.wf() ==> r@ == document_digest(self@.policy),
    {
        self.policy_blake3.as_str()
    }

    pub fn environment_blake3(&self) -> (r: &str)
        ensures
            self.wf() ==> r@ == document_digest(self@.environment),
    {
        self.environment_blake3.as_str()
    }

    pub fn decision_blake3(&self) -> (r: &str)
        ensures
            self.wf() ==> r@ == document_digest(self@.decision.encoded),
    {
        self.decision_blake3.as_str()
    }

    pub fn admitted(&self) -> (r: bool)
        ensures
            self.wf() ==> r == self@.decision.admitted,
    {
        self.admitted
    }

    pub fn execution_manifest(&self) -> (r: &CompiledExecutionManifest)
        ensures
            r@ == self@.manifest,
    {
        &self.execution_manifest
    }

    pub fn policy(&self) -> (r: &AdmissionPolicy)
        ensures
            r.policy_id@ == self@.policy_id,
            r.policy_version == self@.policy_version,
            r.encoded@ == self@.policy,
    {
        &self.policy
    }

    pub fn environment(&self) -> (r: &AdmissionEnvironment)
        ensures
            r.isolation_level == self@.isolation_level,
            r.encoded@ == self@.environment,
    {
        &self.environment
    }

    pub fn decision(&self) -> (r: &AdmissionDecision)
        ensures
            r@ == self@.decision,
    {
        &self.decision
    }

    fn head_json(&self) -> (r: String)
        requires
            self.wf(),
        ensures
            r@ == record_head(self@),
    {
        let mut out: String = String::new();
        push_number_field(&mut out, "{\"schema_version\"", self.schema_version as u64);
        push_text_field(&mut out, ",\"deployment_id\"", self.deployment_id.as_str());
        push_text_field(&mut out, ",\"package_name\"", self.package_name.as_str());
        push_text_field(&mut out, ",\"artifact_path\"", self.artifact_path.as_str());
        push_text_field(&mut out, ",\"artifact_blake3\"", self.artifact_blake3.as_str());
        push_text_field(&mut out, ",\"manifest_blake3\"", self.manifest_blake3.as_str());
        push_text_field(&mut out, ",\"policy_blake3\"", self.policy_blake3.as_str());
        push_text_field(&mut out, ",\"environment_blake3\"", self.environment_blake3.as_str());
        push_text_field(&mut out, ",\"decision_blake3\"", self.decision_blake3.as_str());
        if self.admitted {
            out.append(",\"admitted\":true");
        } else {
            out.append(",\"admitted\":false");
        }
        out.append(",\"execution_manifest\":");
        out.append(self.execution_manifest.compact_json().as_str());
        out.append(",\"policy\":");
        assert(out@ =~= record_head(self@));
        out
    }

    /// The complete record as compact JSON.
    pub fn compact_json(&self) -> (r: String)
        requires
            self.wf(),
        ensures
            r@ == record_json(self@),
    {
        let mut out: String = self.head_json();
        out.append(self.policy.encoded.as_str());
        out.append(",\"environment\":");
        out.append(self.environment.encoded.as_str());
        out.append(",\"decision\":");
        out.append(self.decision.encoded.as_str());
        out.append("}");
        assert(out@ =~= record_json(self@));
        out
    }

    /// Content address the complete immutable record.
    pub fn record_blake3(&self) -> (r: String)
        requires
            self.wf(),
        ensures
            r@ == document_digest(record_json(self@)),
    {
        let json: String = self.compact_json();
        blake3_hex(json.as_str().as_bytes())
    }

    /// The complete record as JSON laid out in lines.
    pub fn to_json(&self) -> (r: String)
        requires
            self.wf(),
        ensures
            r@ == json::pretty(record_json(self@)),
    {
        json::pretty_json(self.compact_json().as_str())
    }
}

/// The members of a record up to its encoded policy.
pub open spec fn record_head(r: RecordView) -> Seq<char> {
    json::number_field("{\"schema_version\""@, DEPLOYMENT_AUDIT_SCHEMA_VERSION as nat)
        + json::text_field(",\"deployment_id\""@, r.deployment_id) + json::text_field(
        ",\"package_name\""@,
        r.package_name,
    ) + json::text_field(",\"artifact_path\""@, r.artifact_path) + json::text_field(
        ",\"artifact_blake3\""@,
        r.artifact_blake3,
    ) + json::text_field(",\"manifest_blake3\""@, manifest_digest(r.manifest)) + json::text_field(
        ",\"policy_blake3\""@,
        document_digest(r.policy),
    ) + json::text_field(",\"environment_blake3\""@, document_digest(r.environment))
        + json::text_field(",\"decision_blake3\""@, document_digest(r.decision.encoded)) + (
    if r.decision.admitted {
        ",\"admitted\":true"@
    } else {
        ",\"admitted\":false"@
    }) + ",\"execution_manifest\":"@ + deployment_manifest::manifest_json(r.manifest)
        + ",\"policy\":"@
}

/// A record as compact JSON, members in declaration order.
pub open spec fn record_json(r: RecordView) -> Seq<char> {
    record_head(r) + r.policy + ",\"environment\":"@ + r.environment + ",\"decision\":"@
        + r.decision.encoded + "}"@
}

/// A decision that was made under other policy contents is never recorded,
/// even when it carries the same policy identity and version.
pub proof fn relabeled_decision_is_rejected(
    deployment_id: Seq<char>,
    artifact: Seq<u8>,
    manifest: deployment_manifest::ManifestView,
    policy: AdmissionPolicy,
    environment: AdmissionEnvironment,
    decision: admission_policy::DecisionView,
    recomputed: admission_policy::DecisionView,
)
    requires
        recomputed != decision,
    ensures
        audit_fault(
            deployment_id,
            artifact,
            manifest,
            policy,
            environment,
            decision,
            recomputed,
        ) is Some,
{
}

/// A decision is recorded exactly where everything agrees: a deployment with a
/// name, the artifact with the manifest, the decision with artifact, policy,
/// environment and manifest, admission with the absence of reasons against it,
/// and the decision with the one that the rules give again.
pub proof fn recorded_decisions_agree(
    deployment_id: Seq<char>,
    artifact: Seq<u8>,
    manifest: deployment_manifest::ManifestView,
    policy: AdmissionPolicy,
    environment: AdmissionEnvironment,
    decision: admission_policy::DecisionView,
    recomputed: admission_policy::DecisionView,
)
    ensures
        audit_fault(
            deployment_id,
            artifact,
            manifest,
            policy,
            environment,
            decision,
            recomputed,
        ) is None <==> {
            &&& exists|i: int|
                0 <= i < deployment_id.len() && !text::is_white(#[trigger] deployment_id[i])
            &&& manifest.artifact_blake3 == hashing::hex_text(hashing::blake3_digest(artifact))
            &&& decision.artifact_blake3 == manifest.artifact_blake3
            &&& decision.policy_id == policy.policy_id@
            &&& decision.policy_version == policy.policy_version
            &&& decision.actual_isolation_level == environment.isolation_level
            &&& decision.admitted <==> decision.reason_count == 0
            &&& decision.derived_manifest_blake3 == Some(manifest_digest(manifest))
            &&& recomputed == decision
        },
{
}

} // verus!
