use nulang::compat::temporal::{
    TemporalActivityRequest, TemporalCommand, TemporalCommandPlan, TemporalCompatError,
    TemporalHistoryEvent, TemporalReplayState, TemporalReplayedActivityState,
    TemporalWorkerCore, TemporalWorkflowExecution, TemporalWorkflowTask,
    TemporalWorkflowTaskContext, TEMPORAL_COMPATIBILITY_CONTRACT_VERSION,
};
use nulang::durable_effect::{DeliverySemantics, DurableEffectRecord, DurableEffectRecoveryAction};
use nulang::runtime::WorkflowEvent;

fn context() -> TemporalWorkflowTaskContext {
    TemporalWorkflowTaskContext::new(
        TemporalWorkflowExecution::new("payments", "order-42", "run-abc").unwrap(),
        77,
        101,
        9,
    )
    .unwrap()
}

fn activity() -> TemporalActivityRequest {
    TemporalActivityRequest::new(
        "charge-card",
        "ChargeCard",
        "payments",
        br#"{"amount":4200}"#.to_vec(),
    )
}

#[test]
fn compatibility_contract_version_is_explicit() {
    assert_eq!(TEMPORAL_COMPATIBILITY_CONTRACT_VERSION, 1);
}

#[test]
fn execution_key_is_collision_resistant_for_separator_content() {
    let a = TemporalWorkflowExecution::new("a/b", "c", "d").unwrap();
    let b = TemporalWorkflowExecution::new("a", "b/c", "d").unwrap();
    assert_ne!(a.stable_key(), b.stable_key());
}

#[test]
fn replay_of_same_activity_derives_same_durable_effect_id() {
    let ctx = context();
    let first = ctx.prepare_activity(0, activity()).unwrap();
    let replay = ctx.prepare_activity(0, activity()).unwrap();

    assert_eq!(first.record.spec().id, replay.record.spec().id);
    let durable_request = first.request.durable_request_bytes();
    assert_eq!(
        first
            .record
            .recovery_action_for_request(&durable_request)
            .unwrap(),
        DurableEffectRecoveryAction::RetryAtLeastOnce {
            operation_id: first.record.spec().id,
        }
    );
}

#[test]
fn different_workflow_task_or_activity_id_changes_effect_identity() {
    let first_ctx = context();
    let later_ctx = TemporalWorkflowTaskContext::new(
        first_ctx.execution.clone(),
        first_ctx.nulang_actor_id,
        102,
        10,
    )
    .unwrap();

    let first = first_ctx.prepare_activity(0, activity()).unwrap();
    let later = later_ctx.prepare_activity(0, activity()).unwrap();

    let mut other_activity = activity();
    other_activity.activity_id = "charge-card-2".into();
    let other = first_ctx.prepare_activity(0, other_activity).unwrap();

    assert_ne!(first.record.spec().id, later.record.spec().id);
    assert_ne!(first.record.spec().id, other.record.spec().id);
}

#[test]
fn deduplicated_activity_uses_nulang_stable_operation_id() {
    let plan = context()
        .prepare_activity_with_delivery(
            3,
            activity(),
            DeliverySemantics::EffectivelyOnceWithDeduplication,
        )
        .unwrap();
    let id = plan.record.spec().id;

    let durable_request = plan.request.durable_request_bytes();
    assert_eq!(
        plan.record
            .recovery_action_for_request(&durable_request)
            .unwrap(),
        DurableEffectRecoveryAction::RetryWithDeduplication { operation_id: id }
    );
    assert_eq!(id.idempotency_key(), plan.record.spec().id.to_string());
}

#[test]
fn replay_with_changed_dispatch_metadata_fails_closed() {
    let ctx = context();
    let plan = ctx.prepare_activity(0, activity()).unwrap();

    let mut changed = activity();
    changed.task_queue = "other-payments".into();

    assert!(plan
        .record
        .recovery_action_for_request(&changed.durable_request_bytes())
        .is_err());
}

#[test]
fn command_planner_preserves_global_command_ordinal_in_activity_identity() {
    let ctx = context();

    let first = match ctx
        .plan_command(0, TemporalCommand::ScheduleActivity(activity()))
        .unwrap()
    {
        TemporalCommandPlan::Activity(plan) => plan,
        _ => panic!("expected activity plan"),
    };
    let reordered = match ctx
        .plan_command(1, TemporalCommand::ScheduleActivity(activity()))
        .unwrap()
    {
        TemporalCommandPlan::Activity(plan) => plan,
        _ => panic!("expected activity plan"),
    };

    assert_ne!(first.record.spec().id, reordered.record.spec().id);
}

#[test]
fn activity_plan_produces_prepared_and_completed_persistence_records() {
    let plan = context().prepare_activity(0, activity()).unwrap();
    let prepared = plan.prepared_persistence_record();
    assert_eq!(prepared.effect().spec().id, plan.record.spec().id);

    let completed = plan.complete(b"charged".to_vec());
    match completed.effect() {
        DurableEffectRecord::Completed { result, .. } => {
            assert_eq!(result.as_slice(), b"charged");
        }
        _ => panic!("expected completed durable effect"),
    }
}

#[test]
fn command_planner_keeps_lifecycle_actions_outside_runtime_primitives() {
    let ctx = context();

    match ctx
        .plan_command(
            0,
            TemporalCommand::CompleteWorkflow {
                result: b"done".to_vec(),
            },
        )
        .unwrap()
    {
        TemporalCommandPlan::CompleteWorkflow { result } => {
            assert_eq!(result, b"done");
        }
        _ => panic!("expected complete workflow plan"),
    }

    match ctx
        .plan_command(
            1,
            TemporalCommand::ContinueAsNew {
                workflow_type: "OrderWorkflow".into(),
                input: b"next".to_vec(),
            },
        )
        .unwrap()
    {
        TemporalCommandPlan::ContinueAsNew {
            workflow_type,
            input,
        } => {
            assert_eq!(workflow_type, "OrderWorkflow");
            assert_eq!(input.as_slice(), b"next");
        }
        _ => panic!("expected continue-as-new plan"),
    }

    assert_eq!(
        ctx.plan_command(
            2,
            TemporalCommand::ContinueAsNew {
                workflow_type: String::new(),
                input: Vec::new(),
            },
        )
        .unwrap_err(),
        TemporalCompatError::EmptyField("workflow_type")
    );
}

#[test]
fn timer_and_signal_events_use_atomic_transition_sequence() {
    let ctx = context();

    match ctx.timer_started("retry", 1_500).unwrap() {
        WorkflowEvent::TimerSet {
            sequence,
            name,
            duration_ms,
        } => {
            assert_eq!(sequence, 9);
            assert_eq!(name, "retry");
            assert_eq!(duration_ms, 1_500);
        }
        _ => panic!("expected TimerSet"),
    }

    match ctx.signal_received("approved", Some("yes".into())).unwrap() {
        WorkflowEvent::SignalReceived {
            sequence,
            name,
            payload,
        } => {
            assert_eq!(sequence, 9);
            assert_eq!(name, "approved");
            assert_eq!(payload.as_deref(), Some("yes"));
        }
        _ => panic!("expected SignalReceived"),
    }
}

fn replay_history() -> Vec<TemporalHistoryEvent> {
    vec![
        TemporalHistoryEvent::WorkflowExecutionStarted {
            event_id: 1,
            workflow_type: "OrderWorkflow".into(),
            input: b"order-42".to_vec(),
        },
        TemporalHistoryEvent::ActivityTaskScheduled {
            event_id: 2,
            activity_id: "reserve".into(),
            activity_type: "ReserveInventory".into(),
            task_queue: "orders".into(),
            input: b"sku-1".to_vec(),
        },
        TemporalHistoryEvent::ActivityTaskCompleted {
            event_id: 3,
            scheduled_event_id: 2,
            result: b"reserved".to_vec(),
        },
        TemporalHistoryEvent::TimerStarted {
            event_id: 4,
            timer_id: "payment-timeout".into(),
            duration_ms: 30_000,
        },
        TemporalHistoryEvent::TimerFired {
            event_id: 5,
            started_event_id: 4,
        },
        TemporalHistoryEvent::WorkflowExecutionSignaled {
            event_id: 6,
            signal_name: "approved".into(),
            payload: Some(b"yes".to_vec()),
        },
    ]
}

#[test]
fn replay_projects_supported_history_deterministically() {
    let state = TemporalReplayState::replay(&replay_history()).unwrap();
    assert_eq!(state.workflow_type, "OrderWorkflow");
    assert_eq!(state.last_event_id, 6);
    assert_eq!(state.activities.len(), 1);
    assert_eq!(state.timers.len(), 1);
    assert_eq!(state.signals.len(), 1);
    assert!(matches!(
        state.activities.get(&2).unwrap().state,
        TemporalReplayedActivityState::Completed(ref result)
            if result.as_slice() == b"reserved"
    ));
    assert!(state.timers.get(&4).unwrap().fired);
}

#[test]
fn replay_rejects_unknown_activity_completion_and_non_monotonic_ids() {
    let unknown = vec![
        TemporalHistoryEvent::WorkflowExecutionStarted {
            event_id: 1,
            workflow_type: "OrderWorkflow".into(),
            input: Vec::new(),
        },
        TemporalHistoryEvent::ActivityTaskCompleted {
            event_id: 2,
            scheduled_event_id: 999,
            result: Vec::new(),
        },
    ];
    assert_eq!(
        TemporalReplayState::replay(&unknown).unwrap_err(),
        TemporalCompatError::UnknownActivityScheduledEvent(999)
    );

    let non_monotonic = vec![
        TemporalHistoryEvent::WorkflowExecutionStarted {
            event_id: 2,
            workflow_type: "OrderWorkflow".into(),
            input: Vec::new(),
        },
        TemporalHistoryEvent::WorkflowExecutionSignaled {
            event_id: 2,
            signal_name: "duplicate".into(),
            payload: None,
        },
    ];
    assert_eq!(
        TemporalReplayState::replay(&non_monotonic).unwrap_err(),
        TemporalCompatError::NonMonotonicHistory {
            previous: 2,
            current: 2,
        }
    );
}

#[test]
fn replay_rejects_events_after_terminal_history() {
    let history = vec![
        TemporalHistoryEvent::WorkflowExecutionStarted {
            event_id: 1,
            workflow_type: "OrderWorkflow".into(),
            input: Vec::new(),
        },
        TemporalHistoryEvent::WorkflowExecutionCompleted {
            event_id: 2,
            result: b"done".to_vec(),
        },
        TemporalHistoryEvent::WorkflowExecutionSignaled {
            event_id: 3,
            signal_name: "late".into(),
            payload: None,
        },
    ];
    assert_eq!(
        TemporalReplayState::replay(&history).unwrap_err(),
        TemporalCompatError::EventAfterTerminal { event_id: 3 }
    );
}

#[test]
fn worker_core_replays_task_and_plans_ordered_commands() {
    let task = TemporalWorkflowTask {
        execution: TemporalWorkflowExecution::new("payments", "order-42", "run-abc").unwrap(),
        nulang_actor_id: 77,
        workflow_task_started_event_id: 101,
        transition_sequence: 9,
        history: replay_history(),
    };
    let prepared = TemporalWorkerCore::prepare_task(task).unwrap();
    assert_eq!(prepared.replay.last_event_id, 6);

    let plans = prepared
        .plan_commands(vec![
            TemporalCommand::StartTimer {
                timer_id: "retry".into(),
                duration_ms: 1_000,
            },
            TemporalCommand::ScheduleActivity(activity()),
        ])
        .unwrap();
    assert_eq!(plans.len(), 2);
    assert!(matches!(plans[0], TemporalCommandPlan::WorkflowEvent(_)));
    match &plans[1] {
        TemporalCommandPlan::Activity(plan) => {
            let ordinal_one = context().prepare_activity(1, activity()).unwrap();
            assert_eq!(plan.record.spec().id, ordinal_one.record.spec().id);
        }
        _ => panic!("expected activity plan"),
    }
}

#[test]
fn invalid_ambiguous_identity_is_rejected() {
    assert_eq!(
        TemporalWorkflowExecution::new("default", "workflow", ""),
        Err(TemporalCompatError::EmptyField("run_id"))
    );
    assert_eq!(
        TemporalWorkflowTaskContext::new(
            TemporalWorkflowExecution::new("default", "workflow", "run").unwrap(),
            1,
            0,
            1,
        ),
        Err(TemporalCompatError::ZeroWorkflowTaskStartedEventId)
    );
}

fn started(event_id: u64) -> TemporalHistoryEvent {
    TemporalHistoryEvent::WorkflowExecutionStarted {
        event_id,
        workflow_type: "OrderWorkflow".into(),
        input: Vec::new(),
    }
}

fn scheduled(event_id: u64) -> TemporalHistoryEvent {
    TemporalHistoryEvent::ActivityTaskScheduled {
        event_id,
        activity_id: "reserve".into(),
        activity_type: "ReserveInventory".into(),
        task_queue: "orders".into(),
        input: Vec::new(),
    }
}

fn completed(event_id: u64, scheduled_event_id: u64) -> TemporalHistoryEvent {
    TemporalHistoryEvent::ActivityTaskCompleted {
        event_id,
        scheduled_event_id,
        result: Vec::new(),
    }
}

fn replay_error(history: Vec<TemporalHistoryEvent>) -> TemporalCompatError {
    TemporalReplayState::replay(&history).unwrap_err()
}

#[test]
fn replay_reports_each_fault() {
    assert_eq!(
        replay_error(vec![scheduled(1)]),
        TemporalCompatError::HistoryMissingWorkflowStart
    );
    assert_eq!(
        replay_error(vec![started(1), started(2)]),
        TemporalCompatError::DuplicateWorkflowStart
    );
    assert_eq!(
        replay_error(vec![started(1), scheduled(2), completed(3, 2), completed(4, 2)]),
        TemporalCompatError::ActivityAlreadyTerminal(2)
    );
    let fired = |event_id: u64| TemporalHistoryEvent::TimerFired {
        event_id,
        started_event_id: 2,
    };
    assert_eq!(
        replay_error(vec![started(1), fired(3)]),
        TemporalCompatError::UnknownTimerStartedEvent(2)
    );
    let timer = TemporalHistoryEvent::TimerStarted {
        event_id: 2,
        timer_id: "t".into(),
        duration_ms: 5,
    };
    assert_eq!(
        replay_error(vec![started(1), timer, fired(3), fired(4)]),
        TemporalCompatError::TimerAlreadyFired(2)
    );
}

#[test]
fn failed_activities_keep_their_message() {
    let history = vec![
        started(1),
        scheduled(2),
        TemporalHistoryEvent::ActivityTaskFailed {
            event_id: 3,
            scheduled_event_id: 2,
            message: "out of stock".into(),
        },
    ];
    let state = TemporalReplayState::replay(&history).unwrap();
    assert_eq!(
        state.activities.get(&2).unwrap().state,
        TemporalReplayedActivityState::Failed("out of stock".into())
    );
    assert_eq!(state.terminal, None);
}

#[test]
fn transition_sequences_start_at_one() {
    assert_eq!(
        TemporalWorkflowTaskContext::new(
            TemporalWorkflowExecution::new("default", "workflow", "run").unwrap(),
            1,
            1,
            0,
        ),
        Err(TemporalCompatError::ZeroTransitionSequence)
    );
}

#[test]
fn timers_need_a_name() {
    assert_eq!(
        context().timer_started("", 1),
        Err(TemporalCompatError::EmptyField("timer_id"))
    );
    assert!(context().timer_fired("retry").is_ok());
}
