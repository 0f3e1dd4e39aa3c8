use nulang::durable_effect::{
    DeliverySemantics, DurableEffectId, DurableEffectRecord, DurableEffectSpec, EffectBoundary,
};
use nulang::durable_effect_runtime::{
    DurableEffectCoordinator, DurableEffectDispatchDecision, DurableEffectRuntimeError,
};
use nulang::runtime::{JournalEntry, MemoryStore, PersistenceStore, StorageErrorKind};

fn spec(actor_id: u64, key: &str, delivery: DeliverySemantics) -> DurableEffectSpec {
    let id = DurableEffectId::derive(actor_id, key, 0, "Provider.ask");
    DurableEffectSpec::new(id, "Provider.ask", EffectBoundary::External, delivery)
}

#[test]
fn begin_persists_prepared_before_dispatch_and_reuses_it_on_recovery() {
    let mut store = MemoryStore::new();
    let expected = spec(42, "workflow:research:step:lookup", DeliverySemantics::AtLeastOnce);
    let id = expected.id;

    {
        let mut coordinator = DurableEffectCoordinator::new(&mut store, 42, 1);
        assert_eq!(
            coordinator.begin(expected.clone(), b"prompt").unwrap(),
            DurableEffectDispatchDecision::DispatchAtLeastOnce { operation_id: id }
        );
    }

    assert_eq!(store.latest_sequence(42), 1);
    assert!(matches!(
        store.load_durable_effect(42, id).unwrap().unwrap().effect(),
        DurableEffectRecord::Prepared { .. }
    ));

    {
        let mut coordinator = DurableEffectCoordinator::new(&mut store, 42, 1);
        assert_eq!(
            coordinator.begin(expected, b"prompt").unwrap(),
            DurableEffectDispatchDecision::DispatchAtLeastOnce { operation_id: id }
        );
    }

    // Recovery observes the existing intent rather than creating another
    // transition.
    assert_eq!(store.latest_sequence(42), 1);
}

#[test]
fn completed_effect_replays_without_redispatch() {
    let mut store = MemoryStore::new();
    let expected = spec(
        42,
        "workflow:research:step:lookup",
        DeliverySemantics::EffectivelyOnceWithDeduplication,
    );
    let id = expected.id;

    {
        let mut coordinator = DurableEffectCoordinator::new(&mut store, 42, 1);
        coordinator.begin(expected.clone(), b"prompt").unwrap();
        assert_eq!(
            coordinator
                .complete(id, b"prompt", b"answer".to_vec())
                .unwrap(),
            b"answer"
        );
    }

    assert_eq!(store.latest_sequence(42), 2);

    let mut coordinator = DurableEffectCoordinator::new(&mut store, 42, 1);
    assert_eq!(
        coordinator.begin(expected, b"prompt").unwrap(),
        DurableEffectDispatchDecision::ReplayRecordedResult(b"answer".to_vec())
    );
    assert_eq!(store.latest_sequence(42), 2);
}

#[test]
fn completion_is_monotonic_when_duplicate_result_arrives() {
    let mut store = MemoryStore::new();
    let expected = spec(42, "turn:7:site:a", DeliverySemantics::AtLeastOnce);
    let id = expected.id;

    let mut coordinator = DurableEffectCoordinator::new(&mut store, 42, 1);
    coordinator.begin(expected, b"prompt").unwrap();
    coordinator
        .complete(id, b"prompt", b"first".to_vec())
        .unwrap();
    assert_eq!(
        coordinator
            .complete(id, b"prompt", b"different-late-result".to_vec())
            .unwrap(),
        b"first"
    );
    assert_eq!(store.latest_sequence(42), 2);
}

#[test]
fn request_drift_fails_closed_without_advancing_history() {
    let mut store = MemoryStore::new();
    let expected = spec(42, "turn:7:site:a", DeliverySemantics::AtLeastOnce);

    {
        let mut coordinator = DurableEffectCoordinator::new(&mut store, 42, 1);
        coordinator.begin(expected.clone(), b"prompt-a").unwrap();
    }

    let mut coordinator = DurableEffectCoordinator::new(&mut store, 42, 1);
    assert!(matches!(
        coordinator.begin(expected, b"prompt-b"),
        Err(DurableEffectRuntimeError::RequestMismatch(_))
    ));
    assert_eq!(store.latest_sequence(42), 1);
}

#[test]
fn stale_activation_cannot_prepare_new_effect() {
    let mut store = MemoryStore::new();

    {
        let mut current = DurableEffectCoordinator::new(&mut store, 42, 2);
        current
            .begin(
                spec(42, "turn:1", DeliverySemantics::AtLeastOnce),
                b"first",
            )
            .unwrap();
    }

    let mut stale = DurableEffectCoordinator::new(&mut store, 42, 1);
    let error = stale
        .begin(
            spec(42, "turn:2", DeliverySemantics::AtLeastOnce),
            b"second",
        )
        .unwrap_err();

    assert!(matches!(
        error,
        DurableEffectRuntimeError::Storage(ref source)
            if source.kind() == StorageErrorKind::PermissionDenied
    ));
    assert_eq!(store.latest_sequence(42), 1);
}

#[test]
fn stale_activation_cannot_complete_an_effect() {
    let mut store = MemoryStore::new();
    let expected = spec(42, "turn:1", DeliverySemantics::AtLeastOnce);
    let id = expected.id;
    DurableEffectCoordinator::new(&mut store, 42, 2).begin(expected, b"first").unwrap();

    let error = DurableEffectCoordinator::new(&mut store, 42, 1)
        .complete(id, b"first", b"late".to_vec())
        .unwrap_err();
    assert!(matches!(
        error,
        DurableEffectRuntimeError::Storage(ref source)
            if source.kind() == StorageErrorKind::PermissionDenied
    ));
    assert_eq!(store.latest_sequence(42), 1);

    assert_eq!(
        DurableEffectCoordinator::new(&mut store, 42, 3)
            .complete(id, b"first", b"done".to_vec())
            .unwrap(),
        b"done"
    );
    // What is stored is returned under any activation, and nothing is written.
    assert_eq!(
        DurableEffectCoordinator::new(&mut store, 42, 1)
            .complete(id, b"first", b"other".to_vec())
            .unwrap(),
        b"done"
    );
    assert_eq!(store.latest_sequence(42), 2);
}

#[test]
fn a_full_history_takes_no_more_effects() {
    let mut store = MemoryStore::new();
    store.append_journal(
        42,
        JournalEntry {
            sequence: u64::MAX,
            behavior_id: 0,
            payload: Vec::new(),
        },
    );
    let error = DurableEffectCoordinator::new(&mut store, 42, 1)
        .begin(spec(42, "turn:1", DeliverySemantics::AtLeastOnce), b"first")
        .unwrap_err();
    assert_eq!(
        error.to_string(),
        "durable effect storage error: durable effect transition sequence overflow"
    );
}

#[test]
fn changed_specification_fails_closed() {
    let mut store = MemoryStore::new();
    let first = spec(42, "turn:7", DeliverySemantics::AtLeastOnce);
    let mut second = first.clone();
    second.delivery = DeliverySemantics::BackendDefined;
    let mut coordinator = DurableEffectCoordinator::new(&mut store, 42, 1);
    coordinator.begin(first, b"prompt").unwrap();
    assert!(matches!(
        coordinator.begin(second, b"prompt"),
        Err(DurableEffectRuntimeError::SpecMismatch { .. })
    ));
}

#[test]
fn completion_needs_an_intent() {
    let mut store = MemoryStore::new();
    let id = DurableEffectId::derive(42, "turn:7", 0, "Provider.ask");
    let mut coordinator = DurableEffectCoordinator::new(&mut store, 42, 1);
    assert!(matches!(
        coordinator.complete(id, b"prompt", b"answer".to_vec()),
        Err(DurableEffectRuntimeError::MissingPreparedEffect { .. })
    ));
    assert_eq!(store.latest_sequence(42), 0);
}

#[test]
fn a_spec_mismatch_is_shown_in_full() {
    let expected = spec(42, "k", DeliverySemantics::AtLeastOnce);
    let mut actual = expected.clone();
    actual.effect_operation = "Provider.\"ask\"\n".to_string();
    actual.boundary = EffectBoundary::RuntimeOwned;
    actual.delivery = DeliverySemantics::BackendDefined;
    let error = DurableEffectRuntimeError::SpecMismatch {
        effect_id: expected.id,
        expected: expected.clone(),
        actual: actual.clone(),
    };
    assert_eq!(
        error.to_string(),
        format!(
            "durable effect {} specification mismatch: expected {:?}, got {:?}",
            expected.id.to_string(),
            expected,
            actual
        )
    );
    let missing = DurableEffectRuntimeError::MissingPreparedEffect { effect_id: expected.id };
    assert_eq!(
        missing.to_string(),
        format!(
            "durable effect {} cannot complete because no prepared record exists",
            expected.id.to_string()
        )
    );
}
