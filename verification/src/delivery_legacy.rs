//! Adapter for the runtime's string and integer delivery failure
//! notifications.

use crate::delivery::DeadLetterReason;
use crate::text::{self, str_eq, text, text_starts_with};
use vstd::prelude::*;

verus! {

/// Actor-visible delivery failure classification plus the structured reason.
#[derive(Debug, Clone, PartialEq, Eq)]
pub struct LegacyDeliveryFailure {
    pub code: i64,
    pub reason: DeadLetterReason,
}

/// The reasons that have a dedicated code.
pub open spec fn historical_code(reason: Seq<char>) -> Option<i64> {
    if reason == "unresolvable"@ {
        Some(0i64)
    } else if reason == "target node left cluster"@ {
        Some(1i64)
    } else if reason == "string payload unresolvable"@ {
        Some(2i64)
    } else if reason == "string intern failed on receiver"@ {
        Some(3i64)
    } else if reason == "target actor not found"@ {
        Some(4i64)
    } else if reason == "object ref unresolvable"@ {
        Some(6i64)
    } else if reason == "object intern failed on receiver"@ {
        Some(7i64)
    } else {
        None
    }
}

/// The code of a failure reason; reasons without a dedicated code have 5.
pub open spec fn failure_code(reason: Seq<char>) -> i64 {
    match historical_code(reason) {
        Some(code) => code,
        None => 5i64,
    }
}

/// Whether `structured` is the classification of a failure reason.
pub open spec fn classifies(reason: Seq<char>, structured: DeadLetterReason) -> bool {
    if reason == "unresolvable"@ {
        structured is Unresolvable
    } else if reason == "target node left cluster"@ {
        structured is NodeUnavailable
    } else if reason == "string payload unresolvable"@ || reason
        == "string intern failed on receiver"@ {
        structured is PayloadEncoding
    } else if reason == "target actor not found"@ {
        structured is TargetActorMissing
    } else if reason == "object ref unresolvable"@ || reason
        == "object intern failed on receiver"@ {
        structured is PayloadEncoding
    } else if reason == "target actor not found on retry"@ {
        structured is TargetActorMissing
    } else if reason == "spawn request rejected"@ {
        structured is SpawnRejected
    } else if reason == "spawn target node not in cluster"@ {
        structured is NodeUnavailable
    } else if reason == "string intern failed on retry"@ || reason
        == "object intern failed on retry"@ {
        structured is PayloadEncoding
    } else if reason == "behavior content hash still mismatched after fetch"@ || text::begins_with(
        reason,
        "bytecode fetch failed:"@,
    ) {
        structured is BehaviorUnavailable
    } else if text::begins_with(reason, "capability denied:"@) {
        structured is CapabilityDenied
    } else {
        structured matches DeadLetterReason::Other(s) && s@ == reason
    }
}

fn failure(code: i64, reason: DeadLetterReason) -> (r: LegacyDeliveryFailure)
    ensures
        r.code == code,
        r.reason == reason,
{
    LegacyDeliveryFailure { code, reason }
}

/// Convert a runtime reason string into both its integer code and the
/// structured dead-letter vocabulary.
///
/// - 0: unresolvable
/// - 1: target node left cluster
/// - 2: sender string payload cannot be resolved
/// - 3: receiver string interning failed
/// - 4: target actor missing
/// - 5: unknown/other
/// - 6: sender object ref cannot be resolved
/// - 7: receiver object interning failed
pub fn classify_legacy_delivery_failure(reason: &str) -> (r: LegacyDeliveryFailure)
    ensures
        r.code == failure_code(reason@),
        classifies(reason@, r.reason),
{
    if str_eq(reason, "unresolvable") {
        failure(0, DeadLetterReason::Unresolvable)
    } else if str_eq(reason, "target node left cluster") {
        failure(1, DeadLetterReason::NodeUnavailable)
    } else if str_eq(reason, "string payload unresolvable") {
        failure(2, DeadLetterReason::PayloadEncoding)
    } else if str_eq(reason, "string intern failed on receiver") {
        failure(3, DeadLetterReason::PayloadEncoding)
    } else if str_eq(reason, "target actor not found") {
        failure(4, DeadLetterReason::TargetActorMissing)
    } else if str_eq(reason, "object ref unresolvable") {
        failure(6, DeadLetterReason::PayloadEncoding)
    } else if str_eq(reason, "object intern failed on receiver") {
        failure(7, DeadLetterReason::PayloadEncoding)
    } else if str_eq(reason, "target actor not found on retry") {
        failure(5, DeadLetterReason::TargetActorMissing)
    } else if str_eq(reason, "spawn request rejected") {
        failure(5, DeadLetterReason::SpawnRejected)
    } else if str_eq(reason, "spawn target node not in cluster") {
        failure(5, DeadLetterReason::NodeUnavailable)
    } else if str_eq(reason, "string intern failed on retry") || str_eq(
        reason,
        "object intern failed on retry",
    ) {
        failure(5, DeadLetterReason::PayloadEncoding)
    } else if str_eq(reason, "behavior content hash still mismatched after fetch") {
        failure(5, DeadLetterReason::BehaviorUnavailable)
    } else if text_starts_with(reason, "bytecode fetch failed:") {
        failure(5, DeadLetterReason::BehaviorUnavailable)
    } else if text_starts_with(reason, "capability denied:") {
        failure(5, DeadLetterReason::CapabilityDenied)
    } else {
        failure(5, DeadLetterReason::Other(text(reason)))
    }
}

/// A reason that the classification does not know is kept word for word.
pub proof fn unknown_reason_is_retained(reason: Seq<char>, structured: DeadLetterReason)
    requires
        classifies(reason, structured),
        structured is Other,
    ensures
        (structured->Other_0)@ == reason,
        failure_code(reason) == 5,
{
}

/// No two reasons share a dedicated code, none takes the code of the rest, and
/// a reason with a code of its own is always classified.
pub proof fn dedicated_codes_are_distinct(a: Seq<char>, b: Seq<char>, structured: DeadLetterReason)
    ensures
        historical_code(a) is Some && historical_code(a) == historical_code(b) ==> a == b,
        historical_code(a) is Some ==> failure_code(a) != 5,
        historical_code(a) is Some && classifies(a, structured) ==> !(structured is Other),
{
}

} // verus!
