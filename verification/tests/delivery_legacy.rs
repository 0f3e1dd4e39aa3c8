use nulang::delivery::DeadLetterReason;
use nulang::delivery_legacy::{classify_legacy_delivery_failure, LegacyDeliveryFailure};

#[test]
fn preserves_all_historical_codes() {
    let cases = [
        ("unresolvable", 0),
        ("target node left cluster", 1),
        ("string payload unresolvable", 2),
        ("string intern failed on receiver", 3),
        ("target actor not found", 4),
        ("object ref unresolvable", 6),
        ("object intern failed on receiver", 7),
        ("something old does not recognize", 5),
    ];

    for (reason, code) in cases {
        assert_eq!(classify_legacy_delivery_failure(reason).code, code);
    }
}

#[test]
fn groups_encoding_failures_without_losing_legacy_code() {
    assert_eq!(
        classify_legacy_delivery_failure("string payload unresolvable"),
        LegacyDeliveryFailure {
            code: 2,
            reason: DeadLetterReason::PayloadEncoding,
        }
    );
    assert_eq!(
        classify_legacy_delivery_failure("object ref unresolvable"),
        LegacyDeliveryFailure {
            code: 6,
            reason: DeadLetterReason::PayloadEncoding,
        }
    );
}

#[test]
fn classifies_newer_failure_strings_structurally() {
    assert_eq!(
        classify_legacy_delivery_failure("spawn request rejected").reason,
        DeadLetterReason::SpawnRejected
    );
    assert_eq!(
        classify_legacy_delivery_failure(
            "bytecode fetch failed: sender does not have the requested behavior"
        )
        .reason,
        DeadLetterReason::BehaviorUnavailable
    );
    assert_eq!(
        classify_legacy_delivery_failure("capability denied: Net::TcpOut(api.example:443)")
            .reason,
        DeadLetterReason::CapabilityDenied
    );
}

#[test]
fn unknown_reason_is_retained_for_diagnostics() {
    assert_eq!(
        classify_legacy_delivery_failure("custom failure"),
        LegacyDeliveryFailure {
            code: 5,
            reason: DeadLetterReason::Other("custom failure".into()),
        }
    );
}
