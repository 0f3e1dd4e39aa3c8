use nulang::durable_effect::{
    DeliverySemantics, DurableEffectId, DurableEffectRecord, DurableEffectRecoveryAction,
    DurableEffectSpec, EffectBoundary,
};
use nulang::durable_effect_persistence::{
    DurableEffectPersistenceError, DurableEffectPersistenceRecord, PersistedRecordKindV1,
    DURABLE_EFFECT_PERSISTENCE_VERSION,
};

fn completed_effect() -> DurableEffectRecord {
    let spec = DurableEffectSpec::new(
        DurableEffectId::derive(42, "charge-order-7", 0, "Payment.charge"),
        "Payment.charge",
        EffectBoundary::External,
        DeliverySemantics::EffectivelyOnceWithDeduplication,
    );
    DurableEffectRecord::prepare(spec, b"order=7&amount=10").complete(b"charged".to_vec())
}

#[test]
fn completed_effect_round_trips_without_losing_replay_contract() {
    let persisted = DurableEffectPersistenceRecord::from_effect(completed_effect());
    let envelope = persisted.to_envelope();
    let restored = DurableEffectPersistenceRecord::from_envelope(envelope).unwrap();

    assert_eq!(restored.original_effect_id(), None);
    assert_eq!(restored.compensation_ordinal(), None);
    assert_eq!(
        restored
            .effect()
            .recovery_action_for_request(b"order=7&amount=10")
            .unwrap(),
        DurableEffectRecoveryAction::ReplayRecordedResult(b"charged")
    );
    assert!(restored
        .effect()
        .recovery_action_for_request(b"order=7&amount=11")
        .is_err());
}

#[test]
fn compensation_round_trip_preserves_original_linkage() {
    let original = completed_effect();
    let original_id = original.spec().id;
    let compensation = original
        .prepare_compensation(
            0,
            "Payment.refund",
            EffectBoundary::External,
            DeliverySemantics::EffectivelyOnceWithDeduplication,
            b"order=7&refund=10",
        )
        .unwrap();
    let compensation_id = compensation.compensation_id();
    let persisted = DurableEffectPersistenceRecord::from_compensation(&compensation);
    let envelope = persisted.to_envelope();
    let restored = DurableEffectPersistenceRecord::from_envelope(envelope).unwrap();

    assert_eq!(restored.original_effect_id(), Some(original_id));
    assert_eq!(restored.compensation_ordinal(), Some(0));
    assert_eq!(restored.effect().spec().id, compensation_id);
    assert_eq!(
        restored
            .effect()
            .recovery_action_for_request(b"order=7&refund=10")
            .unwrap(),
        DurableEffectRecoveryAction::RetryWithDeduplication {
            operation_id: compensation_id,
        }
    );
}

#[test]
fn corrupted_compensation_ordinal_fails_identity_validation() {
    let original = completed_effect();
    let compensation = original
        .prepare_compensation(
            0,
            "Payment.refund",
            EffectBoundary::External,
            DeliverySemantics::EffectivelyOnceWithDeduplication,
            b"order=7&refund=10",
        )
        .unwrap();
    let persisted = DurableEffectPersistenceRecord::from_compensation(&compensation);
    let mut envelope = persisted.to_envelope();
    match &mut envelope.record {
        PersistedRecordKindV1::Compensation { compensation_ordinal, .. } => {
            *compensation_ordinal = 1;
        }
        PersistedRecordKindV1::Effect(_) => panic!("expected a compensation"),
    }

    assert!(matches!(
        DurableEffectPersistenceRecord::from_envelope(envelope),
        Err(DurableEffectPersistenceError::CompensationIdentityMismatch { .. })
    ));
}

#[test]
fn unknown_persistence_version_fails_closed() {
    let persisted = DurableEffectPersistenceRecord::from_effect(completed_effect());
    let mut envelope = persisted.to_envelope();
    envelope.version = 999;

    assert_eq!(
        DurableEffectPersistenceRecord::from_envelope(envelope).unwrap_err(),
        DurableEffectPersistenceError::UnsupportedVersion { actual: 999 }
    );
}

#[test]
fn persistence_format_carries_an_explicit_version() {
    let persisted = DurableEffectPersistenceRecord::from_effect(completed_effect());
    assert_eq!(persisted.to_envelope().version, DURABLE_EFFECT_PERSISTENCE_VERSION);
}

#[test]
fn malformed_operation_id_is_rejected() {
    let mut envelope =
        DurableEffectPersistenceRecord::from_effect(completed_effect()).to_envelope();
    match &mut envelope.record {
        PersistedRecordKindV1::Effect(record) => record.spec.id = "not-an-id".to_string(),
        PersistedRecordKindV1::Compensation { .. } => panic!("expected an effect"),
    }
    assert!(matches!(
        DurableEffectPersistenceRecord::from_envelope(envelope),
        Err(DurableEffectPersistenceError::InvalidEffectId(_))
    ));
}

#[test]
fn a_record_is_written_as_versioned_json() {
    let effect = completed_effect();
    let id = effect.spec().id.to_string();
    let digest = match &effect {
        DurableEffectRecord::Completed { request_digest, .. } => {
            let bytes: Vec<String> = request_digest.iter().map(|b| b.to_string()).collect();
            bytes.join(",")
        }
        other => panic!("unexpected record {other:?}"),
    };
    let bytes = DurableEffectPersistenceRecord::from_effect(effect).to_json().unwrap();
    assert_eq!(
        String::from_utf8(bytes).unwrap(),
        format!(
            "{{\"version\":1,\"record\":{{\"kind\":\"Effect\",\"value\":{{\"state\":\"Completed\",\
             \"value\":{{\"spec\":{{\"id\":\"{id}\",\"effect_operation\":\"Payment.charge\",\
             \"boundary\":\"External\",\"delivery\":\"EffectivelyOnceWithDeduplication\"}},\
             \"request_digest\":[{digest}],\"result\":[99,104,97,114,103,101,100]}}}}}}}}"
        )
    );
}

#[test]
fn a_compensation_is_written_with_its_linkage() {
    let original = completed_effect();
    let original_id = original.spec().id.to_string();
    let compensation = original
        .prepare_compensation(
            2,
            "Payment.refund",
            EffectBoundary::External,
            DeliverySemantics::AtLeastOnce,
            b"order=7&refund=10",
        )
        .unwrap();
    let bytes =
        DurableEffectPersistenceRecord::from_compensation(&compensation).to_json().unwrap();
    let value: serde_json::Value = serde_json::from_slice(&bytes).expect("a document");
    assert_eq!(value["record"]["kind"], "Compensation");
    assert_eq!(value["record"]["value"]["original_effect_id"], original_id.as_str());
    assert_eq!(value["record"]["value"]["compensation_ordinal"], 2);
    assert_eq!(value["record"]["value"]["effect"]["state"], "Prepared");
    assert_eq!(value["record"]["value"]["effect"]["value"]["spec"]["delivery"], "AtLeastOnce");
    assert!(value["record"]["value"]["effect"]["value"].get("result").is_none());
}
