use nulang::dap::rewind::{
    diff_branch_from_parent_head, diff_states, fork_entity_view, rewind_entity, step_forward,
    store_dir, StateDiff,
};
use nulang::dap::view::persisted_value_json;
use nulang::json::JsonValue;
use nulang::runtime::{ActorSnapshot, EventEntry, JournalEntry, MemoryStore, PersistedValue};
use nulang::text_map::TextMap;

fn fields(entries: Vec<(&str, PersistedValue)>) -> TextMap<PersistedValue> {
    let mut map = TextMap::new();
    for (name, value) in entries {
        map.insert(name.to_string(), value);
    }
    map
}

/// Build a store with a snapshot at seq 2 (counter=10) and events
/// 3..=5 incrementing `count` (recorded values 11, 12, 13).
fn sample_store() -> MemoryStore {
    let mut store = MemoryStore::new();
    let mut snap = ActorSnapshot::new(7, 2);
    snap.state
        .insert("count".to_string(), PersistedValue::Int(10));
    snap.state
        .insert("name".to_string(), PersistedValue::String("c".to_string()));
    store.save_snapshot(snap);
    for (seq, val) in [(3u64, 11i64), (4, 12), (5, 13)] {
        store
            .append_event(
                7,
                EventEntry {
                    sequence: seq,
                    field_name: "count".to_string(),
                    event_name: "Incremented".to_string(),
                    args: vec![PersistedValue::Int(1)],
                    value: PersistedValue::Int(val),
                },
            );
        store
            .append_journal(
                7,
                JournalEntry {
                    sequence: seq,
                    behavior_id: 0,
                    payload: vec![PersistedValue::Int(1)],
                },
            );
    }
    store
}

#[test]
fn rewind_to_latest_uses_snapshot_plus_all_events() {
    let store = sample_store();
    let st = rewind_entity(&store, 7, 5);
    assert_eq!(st.sequence, 5);
    assert_eq!(st.snapshot_sequence, 2);
    assert_eq!(st.state.get("count"), Some(&PersistedValue::Int(13)));
    assert_eq!(
        st.state.get("name"),
        Some(&PersistedValue::String("c".to_string()))
    );
    assert_eq!(st.journal.len(), 3);
}

#[test]
fn rewind_to_n_replays_events_up_to_n() {
    let store = sample_store();
    // Rewind to message #3: events 1..=3 replayed -> count = 11.
    let st = rewind_entity(&store, 7, 3);
    assert_eq!(st.sequence, 3);
    assert_eq!(st.state.get("count"), Some(&PersistedValue::Int(11)));
    assert_eq!(st.journal.len(), 1);
    assert_eq!(st.events.len(), 1);
}

#[test]
fn rewind_to_snapshot_sequence_uses_snapshot_only() {
    let store = sample_store();
    let st = rewind_entity(&store, 7, 2);
    assert_eq!(st.state.get("count"), Some(&PersistedValue::Int(10)));
    assert!(st.events.is_empty());
    assert!(st.journal.is_empty());
}

#[test]
fn rewind_beyond_latest_clamps() {
    let store = sample_store();
    let st = rewind_entity(&store, 7, 999);
    assert_eq!(st.sequence, 5);
    assert_eq!(st.latest_sequence, 5);
    assert_eq!(st.state.get("count"), Some(&PersistedValue::Int(13)));
}

#[test]
fn forward_step_after_rewind_replays_next_event() {
    let store = sample_store();
    let st = rewind_entity(&store, 7, 3);
    let fwd = step_forward(&store, &st);
    assert_eq!(fwd.sequence, 4);
    assert_eq!(fwd.state.get("count"), Some(&PersistedValue::Int(12)));
    let fwd2 = step_forward(&store, &fwd);
    assert_eq!(fwd2.state.get("count"), Some(&PersistedValue::Int(13)));
    // Stepping at the head is a no-op.
    let fwd3 = step_forward(&store, &fwd2);
    assert_eq!(fwd3.sequence, 5);
    assert_eq!(fwd3.state.get("count"), Some(&PersistedValue::Int(13)));
}

#[test]
fn rewind_without_snapshot_replays_from_defaults() {
    let mut store = MemoryStore::new();
    store
        .append_event(
            9,
            EventEntry {
                sequence: 1,
                field_name: "seen".to_string(),
                event_name: "Custom".to_string(),
                args: vec![],
                value: PersistedValue::Bool(true),
            },
        );
    let st = rewind_entity(&store, 9, 1);
    assert_eq!(st.snapshot_sequence, 0);
    assert_eq!(st.state.get("seen"), Some(&PersistedValue::Bool(true)));
}

#[test]
fn fork_view_captures_lineage_without_mutating_parent() {
    let store = sample_store();
    let branch = fork_entity_view(&store, 7, 3, "candidate-a");

    assert_eq!(branch.branch_id, "candidate-a");
    assert_eq!(branch.parent_actor_id, 7);
    assert_eq!(branch.fork_sequence, 3);
    assert_eq!(branch.parent_latest_sequence, 5);
    assert_eq!(branch.snapshot_sequence, 2);
    assert_eq!(branch.state.get("count"), Some(&PersistedValue::Int(11)));
    assert_eq!(branch.journal.len(), 1);
    assert_eq!(branch.events.len(), 1);

    // Capturing a branch is read-only: the parent remains at its head.
    let parent = rewind_entity(&store, 7, u64::MAX);
    assert_eq!(parent.sequence, 5);
    assert_eq!(parent.state.get("count"), Some(&PersistedValue::Int(13)));
}

#[test]
fn branch_diff_reports_parent_changes_after_divergence() {
    let store = sample_store();
    let branch = fork_entity_view(&store, 7, 3, "candidate-a");
    let diff = diff_branch_from_parent_head(&store, &branch);

    assert_eq!(
        diff,
        vec![StateDiff {
            field: "count".to_string(),
            before: Some(PersistedValue::Int(11)),
            after: Some(PersistedValue::Int(13)),
        }]
    );
}

#[test]
fn diff_states_reports_added_removed_and_changed_fields_in_order() {
    let before = fields(vec![
        ("changed", PersistedValue::Int(1)),
        ("removed", PersistedValue::Bool(true)),
        ("same", PersistedValue::String("x".to_string())),
    ]);
    let after = fields(vec![
        ("added", PersistedValue::Int(9)),
        ("changed", PersistedValue::Int(2)),
        ("same", PersistedValue::String("x".to_string())),
    ]);

    let diff = diff_states(&before, &after);
    assert_eq!(
        diff,
        vec![
            StateDiff {
                field: "added".to_string(),
                before: None,
                after: Some(PersistedValue::Int(9)),
            },
            StateDiff {
                field: "changed".to_string(),
                before: Some(PersistedValue::Int(1)),
                after: Some(PersistedValue::Int(2)),
            },
            StateDiff {
                field: "removed".to_string(),
                before: Some(PersistedValue::Bool(true)),
                after: None,
            },
        ]
    );
}

#[test]
fn history_below_the_snapshot_starts_from_nothing() {
    let store = sample_store();
    let st = rewind_entity(&store, 7, 1);
    assert_eq!(st.sequence, 1);
    assert_eq!(st.snapshot_sequence, 0);
    assert_eq!(st.state.len(), 0);
}

#[test]
fn equal_states_have_no_difference() {
    let a = fields(vec![("x", PersistedValue::Nil), ("y", PersistedValue::Actor(3))]);
    let b = fields(vec![("y", PersistedValue::Actor(3)), ("x", PersistedValue::Nil)]);
    assert!(diff_states(&a, &b).is_empty());
}

#[test]
fn configured_store_directory_wins() {
    assert_eq!(store_dir(Some("/data"), true).as_deref(), Some("/data"));
    assert!(store_dir(None, true).is_some());
    assert_eq!(store_dir(None, false), None);
}

fn member(name: &str, value: JsonValue) -> (String, JsonValue) {
    (name.to_string(), value)
}

fn words(s: &str) -> JsonValue {
    JsonValue::Text(s.to_string())
}

#[test]
fn a_rewound_state_is_shown_as_a_document() {
    let st = rewind_entity(&sample_store(), 7, 3);
    let entry = JsonValue::Object(vec![
        member("sequence", JsonValue::Nat(3)),
        member("behaviorId", JsonValue::Nat(0)),
        member("payload", JsonValue::List(vec![JsonValue::Int(1)])),
    ]);
    assert_eq!(
        st.to_json(),
        JsonValue::Object(vec![
            member("actorId", JsonValue::Nat(7)),
            member("sequence", JsonValue::Nat(3)),
            member("latestSequence", JsonValue::Nat(5)),
            member("snapshotSequence", JsonValue::Nat(2)),
            member(
                "state",
                JsonValue::Object(vec![
                    member("count", JsonValue::Int(11)),
                    member("name", words("c")),
                ]),
            ),
            member("journal", JsonValue::List(vec![entry])),
        ])
    );
}

#[test]
fn a_branch_is_shown_as_data_only() {
    let branch = fork_entity_view(&sample_store(), 7, 3, "candidate-a");
    match branch.to_json() {
        JsonValue::Object(members) => {
            assert_eq!(members[0], member("branchId", words("candidate-a")));
            assert_eq!(members[6], member("journalLength", JsonValue::Nat(1)));
            assert_eq!(members[7], member("eventLength", JsonValue::Nat(1)));
            assert_eq!(members[8], member("executable", JsonValue::Bool(false)));
            assert_eq!(members.len(), 9);
        }
        other => panic!("unexpected document {other:?}"),
    }
}

#[test]
fn each_kind_of_value_is_shown() {
    assert_eq!(persisted_value_json(&PersistedValue::Nil), JsonValue::Null);
    assert_eq!(persisted_value_json(&PersistedValue::Unit), words("unit"));
    assert_eq!(persisted_value_json(&PersistedValue::Actor(9)), words("<actor 9>"));
    assert_eq!(persisted_value_json(&PersistedValue::Bool(true)), JsonValue::Bool(true));
    assert_eq!(
        persisted_value_json(&PersistedValue::Float(1.5f64.to_bits())),
        JsonValue::Float(1.5f64.to_bits())
    );
}
