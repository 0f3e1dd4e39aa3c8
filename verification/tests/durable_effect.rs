use nulang::durable_effect::{
    DeliverySemantics, DurableCompensationError, DurableEffectId, DurableEffectIdParseError,
    DurableEffectRecord, DurableEffectRecoveryAction, DurableEffectSpec, EffectBoundary,
};

fn spec(delivery: DeliverySemantics) -> DurableEffectSpec {
    DurableEffectSpec::new(
        DurableEffectId::derive(42, "charge-order-7", 0, "Payment.charge"),
        "Payment.charge",
        EffectBoundary::External,
        delivery,
    )
}

#[test]
fn operation_id_is_stable_for_replay() {
    let first = DurableEffectId::derive(42, "charge-order-7", 0, "Payment.charge");
    let replay = DurableEffectId::derive(42, "charge-order-7", 0, "Payment.charge");
    assert_eq!(first, replay);
    assert_eq!(first.to_string().len(), 64);
    assert_eq!(DurableEffectId::parse(&first.to_string()).unwrap(), first);
}

#[test]
fn operation_identity_changes_when_logical_effect_changes() {
    let base = DurableEffectId::derive(42, "step", 0, "Payment.charge");
    assert_ne!(
        base,
        DurableEffectId::derive(42, "step", 1, "Payment.charge")
    );
    assert_ne!(
        base,
        DurableEffectId::derive(42, "step", 0, "Email.send")
    );
    assert_ne!(
        base,
        DurableEffectId::derive(43, "step", 0, "Payment.charge")
    );
}

#[test]
fn crash_after_prepare_retries_at_least_once_with_same_operation_id() {
    let record = DurableEffectRecord::prepare(spec(DeliverySemantics::AtLeastOnce), b"$10");
    let id = record.spec().id;
    assert_eq!(
        record.recovery_action(),
        DurableEffectRecoveryAction::RetryAtLeastOnce { operation_id: id }
    );
}

#[test]
fn crash_after_external_dispatch_uses_same_deduplication_key() {
    // There is deliberately no `Dispatched` journal state. A crash after
    // the remote system commits but before Nulang records completion still
    // recovers from Prepared and MUST retry the same logical operation ID.
    let record = DurableEffectRecord::prepare(
        spec(DeliverySemantics::EffectivelyOnceWithDeduplication),
        b"$10",
    );
    let id = record.spec().id;
    assert_eq!(
        record.recovery_action(),
        DurableEffectRecoveryAction::RetryWithDeduplication { operation_id: id }
    );
    assert_eq!(id.idempotency_key(), record.spec().id.to_string());
}

#[test]
fn completed_result_is_replayed_without_redispatch() {
    let record = DurableEffectRecord::prepare(
        spec(DeliverySemantics::EffectivelyOnceWithDeduplication),
        b"$10",
    )
    .complete(b"charged".to_vec());
    assert_eq!(
        record.recovery_action(),
        DurableEffectRecoveryAction::ReplayRecordedResult(b"charged")
    );
}

#[test]
fn request_digest_is_preserved_when_result_commits() {
    let prepared = DurableEffectRecord::prepare(spec(DeliverySemantics::AtLeastOnce), b"body");
    let digest = *prepared.request_digest();
    let completed = prepared.complete(b"result".to_vec());
    assert_eq!(*completed.request_digest(), digest);
}

#[test]
fn backend_defined_recovery_is_not_strengthened_by_runtime() {
    let backend_spec = DurableEffectSpec::new(
        DurableEffectId::derive(9, "publish", 0, "Queue.publish"),
        "Queue.publish",
        EffectBoundary::BackendOwned,
        DeliverySemantics::BackendDefined,
    );
    let record = DurableEffectRecord::prepare(backend_spec, b"message");
    assert_eq!(
        record.recovery_action(),
        DurableEffectRecoveryAction::DelegateToBackend
    );
}

#[test]
fn another_request_is_turned_away_with_both_digests() {
    let record = DurableEffectRecord::prepare(spec(DeliverySemantics::AtLeastOnce), b"$10");
    let mismatch = record.validate_request(b"$11").unwrap_err();
    assert_eq!(mismatch.effect_id, record.spec().id);
    assert_eq!(&mismatch.expected_digest, record.request_digest());
    assert_ne!(mismatch.expected_digest, mismatch.actual_digest);
    assert!(record.validate_request(b"$10").is_ok());
}

#[test]
fn only_completed_effects_are_compensated() {
    let prepared = DurableEffectRecord::prepare(spec(DeliverySemantics::AtLeastOnce), b"$10");
    assert_eq!(
        prepared
            .prepare_compensation(
                0,
                "Payment.refund",
                EffectBoundary::External,
                DeliverySemantics::AtLeastOnce,
                b"$10",
            )
            .unwrap_err(),
        DurableCompensationError::OriginalNotCompleted
    );
}

#[test]
fn malformed_operation_ids_say_where() {
    assert_eq!(
        DurableEffectId::parse("ab"),
        Err(DurableEffectIdParseError::InvalidLength { actual: 2 })
    );
    let mut text = "0".repeat(64);
    text.replace_range(5..6, "x");
    assert!(matches!(
        DurableEffectId::parse(&text),
        Err(DurableEffectIdParseError::InvalidHex { .. })
    ));
}

#[test]
fn compensations_of_one_effect_are_told_apart() {
    let id = DurableEffectId::derive(42, "step", 0, "Payment.charge");
    assert_ne!(
        id.derive_compensation(0, "Payment.refund"),
        id.derive_compensation(1, "Payment.refund")
    );
    assert_ne!(id, id.derive_compensation(0, "Payment.charge"));
}
