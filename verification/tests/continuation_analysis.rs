use nulang::continuation_analysis::{analyze, ContinuationKind, SchedulerSuspendKind};
use nulang::mir::{
    Block, BlockId, Function, HandlerBindingDef, HandlerRef, HandlerTableDef, LocalId, RValue,
    Stmt, Terminator,
};

fn function(blocks: Vec<Block>, handler_tables: Vec<HandlerTableDef>) -> Function {
    Function {
        name: "test".into(),
        params: Vec::new(),
        captures: Vec::new(),
        locals: Vec::new(),
        blocks,
        entry: BlockId(0),
        handler_tables,
    }
}

#[test]
fn receive_match_is_not_a_scheduler_suspension() {
    let func = function(
        vec![Block {
            id: BlockId(0),
            stmts: vec![Stmt::Assign {
                dst: LocalId(0),
                op: RValue::ReceiveMatch {
                    behavior_ids: vec![1],
                    max_params: 2,
                },
            }],
            terminator: Terminator::Return(None),
        }],
        Vec::new(),
    );

    assert!(analyze(&func).sites.is_empty());
}

#[test]
fn receive_wait_excludes_resume_defined_payload_slots_from_frame() {
    let func = function(
        vec![Block {
            id: BlockId(0),
            stmts: vec![
                Stmt::Assign {
                    dst: LocalId(10),
                    op: RValue::ReceiveWait {
                        behavior_ids: vec![1],
                        max_params: 2,
                        timeout: LocalId(3),
                    },
                },
                Stmt::Assign {
                    dst: LocalId(20),
                    op: RValue::Load(LocalId(11)),
                },
                Stmt::Assign {
                    dst: LocalId(21),
                    op: RValue::Load(LocalId(7)),
                },
            ],
            terminator: Terminator::Return(Some(LocalId(21))),
        }],
        Vec::new(),
    );

    let analysis = analyze(&func);
    let site = analysis.site(BlockId(0), 0).expect("receive wait site");
    assert_eq!(
        site.kind,
        ContinuationKind::Scheduler(SchedulerSuspendKind::ReceiveWait)
    );
    assert_eq!(
        site.resume_defs,
        vec![LocalId(10), LocalId(11), LocalId(12)]
    );
    assert_eq!(site.live_across, vec![LocalId(7)]);
}

#[test]
fn resuming_effect_carries_single_shot_and_live_across_metadata() {
    let func = function(
        vec![
            Block {
                id: BlockId(0),
                stmts: vec![
                    Stmt::Assign {
                        dst: LocalId(4),
                        op: RValue::Perform {
                            effect: "State".into(),
                            op: "get".into(),
                            args: Vec::new(),
                            resolved_handler: Some(HandlerRef {
                                table_index: 0,
                                binding_index: 0,
                            }),
                        },
                    },
                    Stmt::Assign {
                        dst: LocalId(5),
                        op: RValue::Load(LocalId(9)),
                    },
                ],
                terminator: Terminator::Return(Some(LocalId(5))),
            },
            Block {
                id: BlockId(1),
                stmts: Vec::new(),
                terminator: Terminator::Resume(LocalId(6)),
            },
        ],
        vec![HandlerTableDef {
            bindings: vec![HandlerBindingDef {
                effect_name: "State".into(),
                params: Vec::new(),
                resume: true,
                single_shot: true,
                body: BlockId(1),
            }],
        }],
    );

    let analysis = analyze(&func);
    let site = analysis.site(BlockId(0), 0).expect("resuming effect site");
    assert_eq!(
        site.kind,
        ContinuationKind::ResumingEffect {
            handler_body: BlockId(1),
            single_shot: true,
        }
    );
    assert_eq!(site.resume_defs, vec![LocalId(4)]);
    assert_eq!(site.live_across, vec![LocalId(9)]);
}

#[test]
fn cross_block_liveness_is_preserved_across_suspend() {
    let func = function(
        vec![
            Block {
                id: BlockId(0),
                stmts: vec![Stmt::Assign {
                    dst: LocalId(1),
                    op: RValue::SignalWait {
                        name: "ready".into(),
                    },
                }],
                terminator: Terminator::Jump(BlockId(1)),
            },
            Block {
                id: BlockId(1),
                stmts: vec![Stmt::Assign {
                    dst: LocalId(2),
                    op: RValue::Load(LocalId(8)),
                }],
                terminator: Terminator::Return(Some(LocalId(2))),
            },
        ],
        Vec::new(),
    );

    let analysis = analyze(&func);
    let site = analysis.site(BlockId(0), 0).expect("signal wait site");
    assert_eq!(site.live_across, vec![LocalId(8)]);
}

#[test]
fn values_that_are_written_before_use_are_not_kept() {
    let func = function(
        vec![Block {
            id: BlockId(0),
            stmts: vec![
                Stmt::Assign {
                    dst: LocalId(1),
                    op: RValue::SignalWait { name: "ready".into() },
                },
                Stmt::Assign {
                    dst: LocalId(2),
                    op: RValue::Load(LocalId(5)),
                },
                Stmt::Assign {
                    dst: LocalId(3),
                    op: RValue::Load(LocalId(2)),
                },
            ],
            terminator: Terminator::Return(Some(LocalId(3))),
        }],
        Vec::new(),
    );
    let analysis = analyze(&func);
    assert!(analysis.has_scheduler_suspension());
    assert!(!analysis.has_resuming_effect());
    assert_eq!(analysis.site(BlockId(0), 0).unwrap().live_across, vec![LocalId(5)]);
    assert!(analysis.site(BlockId(0), 1).is_none());
}

#[test]
fn loops_keep_what_the_next_round_reads() {
    let func = function(
        vec![
            Block {
                id: BlockId(0),
                stmts: vec![
                    Stmt::Assign {
                        dst: LocalId(1),
                        op: RValue::Load(LocalId(6)),
                    },
                    Stmt::Assign {
                        dst: LocalId(2),
                        op: RValue::SignalWait { name: "tick".into() },
                    },
                ],
                terminator: Terminator::Branch {
                    cond: LocalId(2),
                    then_: BlockId(0),
                    else_: BlockId(1),
                },
            },
            Block {
                id: BlockId(1),
                stmts: Vec::new(),
                terminator: Terminator::Return(None),
            },
        ],
        Vec::new(),
    );
    let analysis = analyze(&func);
    assert_eq!(analysis.site(BlockId(0), 1).unwrap().live_across, vec![LocalId(6)]);
}
