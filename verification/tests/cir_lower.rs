use nulang::ast::BinOp;
use nulang::bytecode::Constant;
use nulang::cir::{compute_frame_layout, CirTerminator, VarId, FRAME_HEADER_SIZE};
use nulang::cir_lower::{
    has_suspension, is_suspending_rvalue, lower_mir_function_unconditional, var,
};
use nulang::mir::{Block, BlockId, Function, Local, LocalId, RValue, Stmt, Terminator};

/// A function of one block that assigns to locals and returns one of them.
fn straight(name: &str, params: &[&str], ops: Vec<(u32, RValue)>, result: u32) -> Function {
    let count = ops.iter().map(|(dst, _)| dst + 1).max().unwrap_or(0).max(result + 1);
    Function {
        name: name.to_string(),
        params: params.iter().map(|p| p.to_string()).collect(),
        captures: Vec::new(),
        locals: (0..count).map(|id| Local { id: LocalId(id) }).collect(),
        blocks: vec![Block {
            id: BlockId(0),
            stmts: ops
                .into_iter()
                .map(|(dst, op)| Stmt::Assign { dst: LocalId(dst), op })
                .collect(),
            terminator: Terminator::Return(Some(LocalId(result))),
        }],
        entry: BlockId(0),
        handler_tables: Vec::new(),
    }
}

/// A function that adds two parameters.
fn build_add_function() -> Function {
    let sum = RValue::Binary(BinOp::Add, LocalId(0), LocalId(1));
    straight("add", &["a", "b"], vec![(2, sum)], 2)
}

fn build_llm_ask_function() -> Function {
    let prompt = RValue::Const(Constant::String("test".into()));
    let ask = RValue::Perform {
        effect: "LLM".into(),
        op: "ask".into(),
        args: vec![LocalId(0)],
        resolved_handler: None,
    };
    straight("ask_llm", &[], vec![(0, prompt), (1, ask)], 1)
}

/// A function with `SignalWait`.
fn build_signal_wait_function() -> Function {
    let wait = RValue::SignalWait { name: "tick".into() };
    straight("wait_signal", &[], vec![(0, wait)], 0)
}

/// A function with `ReceiveWait`.
fn build_receive_wait_function() -> Function {
    let timeout = RValue::Const(Constant::Int(5000));
    let wait = RValue::ReceiveWait {
        behavior_ids: vec![],
        max_params: 4,
        timeout: LocalId(0),
    };
    straight("wait_msg", &[], vec![(0, timeout), (1, wait)], 1)
}

#[test]
fn test_has_suspension_no_suspend() {
    let func = build_add_function();
    assert!(!has_suspension(&func), "add should not suspend");
}

#[test]
fn test_has_suspension_llm_ask() {
    let func = build_llm_ask_function();
    assert!(has_suspension(&func), "LLM.ask should suspend");
}

#[test]
fn test_has_suspension_signal_wait() {
    let func = build_signal_wait_function();
    assert!(has_suspension(&func), "SignalWait should suspend");
}

#[test]
fn test_has_suspension_receive_wait() {
    let func = build_receive_wait_function();
    assert!(has_suspension(&func), "ReceiveWait should suspend");
}

#[test]
fn test_is_suspending_rvalue_llm_ask() {
    let rv = RValue::Perform {
        effect: "LLM".into(),
        op: "ask".into(),
        args: vec![LocalId(0)],
        resolved_handler: None,
    };
    assert!(is_suspending_rvalue(&rv));
}

#[test]
fn test_is_suspending_rvalue_add_not() {
    let rv = RValue::Binary(BinOp::Add, LocalId(0), LocalId(1));
    assert!(!is_suspending_rvalue(&rv));
}

#[test]
fn test_lower_non_suspending_produces_clean_cir() {
    let func = build_add_function();
    let cir = lower_mir_function_unconditional(&func);
    // Entry block should have no SuspendAndYield
    assert!(!cir.blocks.is_empty());
    for block in &cir.blocks {
        assert!(
            !matches!(block.terminator, CirTerminator::SuspendAndYield { .. }),
            "non-suspending function should have no SuspendAndYield"
        );
    }
}

#[test]
fn test_lower_suspending_splits_block() {
    let func = build_llm_ask_function();
    let cir = lower_mir_function_unconditional(&func);
    // Should have at least 2 blocks: pre-suspend + resume
    assert!(
        cir.blocks.len() >= 2,
        "suspending function should have >=2 CIR blocks, got {}",
        cir.blocks.len()
    );
    let has_suspend = cir
        .blocks
        .iter()
        .any(|b| matches!(b.terminator, CirTerminator::SuspendAndYield { .. }));
    assert!(has_suspend, "suspending function must have SuspendAndYield");
}

#[test]
fn test_var_mapping() {
    // pc=2 (two params), local.0=0 => VarId(2)
    assert_eq!(var(&LocalId(0), 2), VarId(2));
    // pc=2 (two params), local.0=1 => VarId(3)
    assert_eq!(var(&LocalId(1), 2), VarId(3));
    // pc=0, local.0=0 => VarId(0)
    assert_eq!(var(&LocalId(0), 0), VarId(0));
}

#[test]
fn frame_slots_follow_the_header() {
    let layout = compute_frame_layout(&vec![VarId(4), VarId(9)]);
    assert_eq!(layout.offset(VarId(4)), Some(FRAME_HEADER_SIZE));
    assert_eq!(layout.offset(VarId(9)), Some(FRAME_HEADER_SIZE + 8));
    assert_eq!(layout.offset(VarId(5)), None);
    assert_eq!(layout.total_size, FRAME_HEADER_SIZE + 16);
}

#[test]
fn resumption_block_follows_the_cut() {
    let cir = lower_mir_function_unconditional(&build_signal_wait_function());
    assert_eq!(cir.blocks.len(), 2);
    match &cir.blocks[0].terminator {
        CirTerminator::SuspendAndYield { resume_block, .. } => {
            assert_eq!(*resume_block, cir.blocks[1].id);
        }
        other => panic!("unexpected terminator {other:?}"),
    }
}
