//! What a deployment record keeps of admission: policy, candidate environment
//! and decision, each with its encoded form.

use crate::text::{self, clone_opt};
use vstd::prelude::*;

verus! {

/// A tenant policy.
#[derive(Debug, Clone, PartialEq, Eq)]
pub struct AdmissionPolicy {
    pub policy_id: String,
    pub policy_version: u64,
    /// The complete policy as JSON.
    pub encoded: String,
}

/// A candidate execution environment.
#[derive(Debug, Clone, PartialEq, Eq)]
pub struct AdmissionEnvironment {
    pub isolation_level: u8,
    /// The complete environment as JSON.
    pub encoded: String,
}

/// An admission decision.
#[derive(Debug, Clone, PartialEq, Eq)]
pub struct AdmissionDecision {
    pub admitted: bool,
    pub artifact_blake3: String,
    pub derived_manifest_blake3: Option<String>,
    pub policy_id: String,
    pub policy_version: u64,
    pub actual_isolation_level: u8,
    pub reason_count: usize,
    /// The complete decision as JSON.
    pub encoded: String,
}

/// What a decision says.
#[verifier::ext_equal]
pub struct DecisionView {
    pub admitted: bool,
    pub artifact_blake3: Seq<char>,
    pub derived_manifest_blake3: Option<Seq<char>>,
    pub policy_id: Seq<char>,
    pub policy_version: u64,
    pub actual_isolation_level: u8,
    pub reason_count: usize,
    pub encoded: Seq<char>,
}

impl View for AdmissionDecision {
    type V = DecisionView;

    open spec fn view(&self) -> DecisionView {
        DecisionView {
            admitted: self.admitted,
            artifact_blake3: self.artifact_blake3@,
            derived_manifest_blake3: text::opt_view(self.derived_manifest_blake3),
            policy_id: self.policy_id@,
            policy_version: self.policy_version,
            actual_isolation_level: self.actual_isolation_level,
            reason_count: self.reason_count,
            encoded: self.encoded@,
        }
    }
}

/// The rules by which an artifact is admitted.
pub trait AdmissionEvaluator: Sized {
    /// Decides on exact artifact bytes under a policy in an environment.
    fn evaluate(
        &self,
        artifact: &[u8],
        policy: &AdmissionPolicy,
        environment: &AdmissionEnvironment,
    ) -> AdmissionDecision;
}

/// Whether `answer` is what the rules decided on an artifact.
pub open spec fn evaluated<E: AdmissionEvaluator>(
    rules: &E,
    artifact: Seq<u8>,
    policy: AdmissionPolicy,
    environment: AdmissionEnvironment,
    answer: AdmissionDecision,
) -> bool {
    exists|given: &[u8]|
        given@ == artifact && #[trigger] call_ensures(
            E::evaluate,
            (rules, given, &policy, &environment),
            answer,
        )
}

impl AdmissionDecision {
    /// Whether two decisions say the same.
    pub fn same(&self, other: &Self) -> (r: bool)
        ensures
            r == (self@ == other@),
    {
        let r: bool = self.admitted == other.admitted && text::str_eq(
            self.artifact_blake3.as_str(),
            other.artifact_blake3.as_str(),
        ) && text::opt_eq(&self.derived_manifest_blake3, &other.derived_manifest_blake3)
            && text::str_eq(self.policy_id.as_str(), other.policy_id.as_str())
            && self.policy_version == other.policy_version && self.actual_isolation_level
            == other.actual_isolation_level && self.reason_count == other.reason_count && text::str_eq(
            self.encoded.as_str(),
            other.encoded.as_str(),
        );
        assert(r ==> self@ =~= other@);
        r
    }

    /// Owned copy.
    pub fn copied(&self) -> (r: Self)
        ensures
            r@ == self@,
    {
        AdmissionDecision {
            admitted: self.admitted,
            artifact_blake3: self.artifact_blake3.clone(),
            derived_manifest_blake3: clone_opt(&self.derived_manifest_blake3),
            policy_id: self.policy_id.clone(),
            policy_version: self.policy_version,
            actual_isolation_level: self.actual_isolation_level,
            reason_count: self.reason_count,
            encoded: self.encoded.clone(),
        }
    }
}

impl AdmissionPolicy {
    /// Owned copy.
    pub fn copied(&self) -> (r: Self)
        ensures
            r.policy_id@ == self.policy_id@,
            r.policy_version == self.policy_version,
            r.encoded@ == self.encoded@,
    {
        AdmissionPolicy {
            policy_id: self.policy_id.clone(),
            policy_version: self.policy_version,
            encoded: self.encoded.clone(),
        }
    }
}

impl AdmissionEnvironment {
    /// Owned copy.
    pub fn copied(&self) -> (r: Self)
        ensures
            r.isolation_level == self.isolation_level,
            r.encoded@ == self.encoded@,
    {
        AdmissionEnvironment { isolation_level: self.isolation_level, encoded: self.encoded.clone() }
    }
}

} // verus!
