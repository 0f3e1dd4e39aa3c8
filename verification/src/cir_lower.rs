//! Lowering of the middle representation to the concurrency representation.
//!
//! A block is cut at each suspension: what comes before ends in a
//! `SuspendAndYield`, what follows is a block of its own that execution resumes
//! at. The blocks of the function keep their numbers, the resume blocks get new
//! ones. A variable is the flat index of its local behind parameters and
//! captures.

use vstd::prelude::*;

use crate::ast::{BinOp, UnOp};
use crate::bytecode::Constant;
use crate::cir::{BinaryOp, BlockId, CirBlock, CirExpr, CirFunction, CirLocal, CirStmt, CirTerminator, EffectKind, UnaryOp, VarId};
use crate::mir::{Block, FuncRef, Function, Local, LocalId, RValue, Stmt, Terminator};
use crate::text::{self, str_eq, text};
use crate::value_layout::{self, tag_int};

verus! {

/// Reserved frame-pointer local.
pub const FRAME_PTR_VAR: u32 = 252;

/// Reserved local for the value that the host resumes with.
pub const RESULT_VAR: u32 = 253;

/// Number of imported functions; those of the module come behind them.
pub const WASM_FUNC_IMPORT_COUNT: u32 = 6;

/// The import that prints.
pub const IMPORT_IO_PRINT: u32 = 3;

/// The import that reads.
pub const IMPORT_IO_READ: u32 = 4;

/// Whether a value suspends the computation, or may do so.
pub open spec fn suspends(op: RValue) -> bool {
    match op {
        RValue::Perform { effect, op, args, .. } => effect@ == "LLM"@ && op@ == "ask"@ && args@.len()
            > 0,
        RValue::SignalWait { .. } => true,
        RValue::ReceiveWait { .. } => true,
        RValue::ReceiveMatch { .. } => true,
        RValue::PerformAsync { .. } => true,
        _ => false,
    }
}

/// Whether a value suspends the computation, see [`suspends`].
pub fn is_suspending_rvalue(op: &RValue) -> (r: bool)
    ensures
        r == suspends(*op),
{
    match op {
        RValue::Perform { effect, op, args, .. } => str_eq(effect.as_str(), "LLM") && str_eq(
            op.as_str(),
            "ask",
        ) && args.len() > 0,
        RValue::SignalWait { .. } => true,
        RValue::ReceiveWait { .. } => true,
        RValue::ReceiveMatch { .. } => true,
        RValue::PerformAsync { .. } => true,
        _ => false,
    }
}

/// Whether a block is cut at a statement.
pub open spec fn stops(stmt: Stmt) -> bool {
    match stmt {
        Stmt::Assign { op, .. } => suspends(op),
        _ => false,
    }
}

fn is_stop(stmt: &Stmt) -> (r: bool)
    ensures
        r == stops(*stmt),
{
    match stmt {
        Stmt::Assign { op, .. } => is_suspending_rvalue(op),
        _ => false,
    }
}

/// Whether some statement of a function suspends or enters a handler, from which
/// the function may be resumed.
pub open spec fn has_stop(func: Function) -> bool {
    exists|b: int, i: int|
        0 <= b < func.blocks@.len() && 0 <= i < func.blocks@[b].stmts@.len() && (stops(
            #[trigger] func.blocks@[b].stmts@[i],
        ) || func.blocks@[b].stmts@[i] is EnterHandle)
}

/// Whether a function can be suspended, see [`has_stop`].
pub fn has_suspension(func: &Function) -> (r: bool)
    ensures
        r == has_stop(*func),
{
    let mut b: usize = 0;
    while b < func.blocks.len()
        invariant
            b <= func.blocks@.len(),
            forall|c: int, i: int|
                0 <= c < b && 0 <= i < func.blocks@[c].stmts@.len() ==> !stops(
                    #[trigger] func.blocks@[c].stmts@[i],
                ) && !(func.blocks@[c].stmts@[i] is EnterHandle),
        decreases func.blocks@.len() - b,
    {
        let stmts: &Vec<Stmt> = &func.blocks[b].stmts;
        let mut i: usize = 0;
        while i < stmts.len()
            invariant
                b < func.blocks@.len(),
                *stmts == func.blocks@[b as int].stmts,
                i <= stmts@.len(),
                forall|j: int|
                    0 <= j < i ==> !stops(#[trigger] func.blocks@[b as int].stmts@[j]) && !(
                    func.blocks@[b as int].stmts@[j] is EnterHandle),
            decreases stmts@.len() - i,
        {
            if is_stop(&stmts[i]) {
                assert(stops(func.blocks@[b as int].stmts@[i as int]));
                return true;
            }
            match &stmts[i] {
                Stmt::EnterHandle { .. } => {
                    assert(func.blocks@[b as int].stmts@[i as int] is EnterHandle);
                    return true;
                },
                _ => {},
            }
            i = i + 1;
        }
        b = b + 1;
    }
    false
}

/// The flat index of a local: indexes are 32 bits wide and wrap.
pub open spec fn var_of(local: LocalId, pc: u32) -> VarId {
    VarId(((pc + local.0) % 0x1_0000_0000) as u32)
}

/// The flat index of a local, see [`var_of`].
pub fn var(local: &LocalId, pc: u32) -> (r: VarId)
    ensures
        r == var_of(*local, pc),
{
    let sum: u64 = pc as u64 + local.0 as u64;
    VarId((sum % 0x1_0000_0000) as u32)
}

/// The variables of locals.
pub open spec fn vars_of(locals: Seq<LocalId>, pc: u32) -> Seq<CirExpr> {
    locals.map_values(|l: LocalId| CirExpr::Var(var_of(l, pc)))
}

fn vars(locals: &Vec<LocalId>, pc: u32) -> (r: Vec<CirExpr>)
    ensures
        r@ == vars_of(locals@, pc),
{
    let mut out: Vec<CirExpr> = Vec::new();
    push_vars(&mut out, locals, pc);
    assert(out@ =~= vars_of(locals@, pc));
    out
}

fn push_vars(out: &mut Vec<CirExpr>, locals: &Vec<LocalId>, pc: u32)
    ensures
        final(out)@ == old(out)@ + vars_of(locals@, pc),
{
    let ghost start = out@;
    let ghost want = vars_of(locals@, pc);
    let mut i: usize = 0;
    assert(start + want.take(0) =~= start);
    while i < locals.len()
        invariant
            want == vars_of(locals@, pc),
            i <= locals@.len(),
            out@ == start + want.take(i as int),
        decreases locals@.len() - i,
    {
        out.push(CirExpr::Var(var(&locals[i], pc)));
        i = i + 1;
        assert(out@ =~= start + want.take(i as int));
    }
    assert(want.take(locals@.len() as int) =~= want);
}

/// The signed number with the same 64 bits.
pub open spec fn signed(v: u64) -> i64 {
    if v <= i64::MAX {
        v as i64
    } else {
        (v - 0x1_0000_0000_0000_0000) as i64
    }
}

fn to_signed(v: u64) -> (r: i64)
    ensures
        r == signed(v),
{
    if v <= 0x7fff_ffff_ffff_ffff {
        v as i64
    } else {
        let rest: u64 = 0xffff_ffff_ffff_ffff - v;
        -1 - (rest as i64)
    }
}

/// Whether `e` stands for a constant: an integer is tagged, constants that the
/// target does not have are nil.
pub open spec fn is_const(c: Constant, e: CirExpr) -> bool {
    match c {
        Constant::Int(n) => e == CirExpr::ConstI64(signed(value_layout::int_value(n as int))),
        Constant::Float(f) => e == CirExpr::ConstF64(f),
        Constant::Bool(b) => e == CirExpr::ConstBool(b),
        Constant::Nil => e == CirExpr::ConstNil,
        Constant::Unit => e == CirExpr::ConstUnit,
        Constant::String(s) => e matches CirExpr::ConstString(t) && t@ == s@,
        _ => e == CirExpr::ConstNil,
    }
}

fn translate_const(c: &Constant) -> (r: CirExpr)
    ensures
        is_const(*c, r),
{
    match c {
        Constant::Int(n) => CirExpr::ConstI64(to_signed(tag_int(*n))),
        Constant::Float(f) => CirExpr::ConstF64(*f),
        Constant::Bool(b) => CirExpr::ConstBool(*b),
        Constant::Nil => CirExpr::ConstNil,
        Constant::Unit => CirExpr::ConstUnit,
        Constant::String(s) => CirExpr::ConstString(text(s.as_str())),
        _ => CirExpr::ConstNil,
    }
}

/// The operator of the target.
pub open spec fn binop_of(op: BinOp) -> BinaryOp {
    match op {
        BinOp::Add => BinaryOp::Add,
        BinOp::Sub => BinaryOp::Sub,
        BinOp::Mul => BinaryOp::Mul,
        BinOp::Div => BinaryOp::Div,
        BinOp::Mod => BinaryOp::Mod,
        BinOp::Eq => BinaryOp::Eq,
        BinOp::Ne => BinaryOp::Neq,
        BinOp::Lt => BinaryOp::Lt,
        BinOp::Le => BinaryOp::Lte,
        BinOp::Gt => BinaryOp::Gt,
        BinOp::Ge => BinaryOp::Gte,
        BinOp::And => BinaryOp::And,
        BinOp::Or => BinaryOp::Or,
        _ => BinaryOp::Add,
    }
}

fn translate_binop(op: &BinOp) -> (r: BinaryOp)
    ensures
        r == binop_of(*op),
{
    match op {
        BinOp::Add => BinaryOp::Add,
        BinOp::Sub => BinaryOp::Sub,
        BinOp::Mul => BinaryOp::Mul,
        BinOp::Div => BinaryOp::Div,
        BinOp::Mod => BinaryOp::Mod,
        BinOp::Eq => BinaryOp::Eq,
        BinOp::Ne => BinaryOp::Neq,
        BinOp::Lt => BinaryOp::Lt,
        BinOp::Le => BinaryOp::Lte,
        BinOp::Gt => BinaryOp::Gt,
        BinOp::Ge => BinaryOp::Gte,
        BinOp::And => BinaryOp::And,
        BinOp::Or => BinaryOp::Or,
        _ => BinaryOp::Add,
    }
}

/// The operator of the target.
pub open spec fn unop_of(op: UnOp) -> UnaryOp {
    match op {
        UnOp::Neg => UnaryOp::Neg,
        _ => UnaryOp::Not,
    }
}

fn translate_unop(op: &UnOp) -> (r: UnaryOp)
    ensures
        r == unop_of(*op),
{
    match op {
        UnOp::Neg => UnaryOp::Neg,
        UnOp::Not => UnaryOp::Not,
        _ => UnaryOp::Not,
    }
}

/// The index of a module function in the target.
pub open spec fn func_index(idx: usize) -> u32 {
    ((WASM_FUNC_IMPORT_COUNT + idx as int) % 0x1_0000_0000) as u32
}

/// Whether `e` stands for a value that neither suspends nor performs an effect;
/// what the target does not have is nil.
pub open spec fn is_value(op: RValue, pc: u32, e: CirExpr) -> bool {
    match op {
        RValue::Const(c) => is_const(c, e),
        RValue::Load(l) => e == CirExpr::Var(var_of(l, pc)),
        RValue::Binary(bin, a, b) => e matches CirExpr::BinaryOp { op, lhs, rhs } && op == binop_of(
            bin,
        ) && *lhs == CirExpr::Var(var_of(a, pc)) && *rhs == CirExpr::Var(var_of(b, pc)),
        RValue::Unary(un, a) => e matches CirExpr::UnaryOp { op, operand } && op == unop_of(un)
            && *operand == CirExpr::Var(var_of(a, pc)),
        RValue::Call { func: FuncRef::Index(idx), args } => e matches CirExpr::Call {
            func_idx,
            args: out,
        } && func_idx == func_index(idx) && out@ == vars_of(args@, pc),
        RValue::ArrayLen(arr) => e matches CirExpr::ArrayLen { arr: a } && *a == CirExpr::Var(
            var_of(arr, pc),
        ),
        RValue::ArrayLoad { arr, idx } => e matches CirExpr::ArrayLoad { arr: a, idx: i } && *a
            == CirExpr::Var(var_of(arr, pc)) && *i == CirExpr::Var(var_of(idx, pc)),
        _ => e == CirExpr::ConstNil,
    }
}

fn translate_rvalue(op: &RValue, pc: u32) -> (r: CirExpr)
    ensures
        is_value(*op, pc, r),
{
    match op {
        RValue::Const(c) => translate_const(c),
        RValue::Load(l) => CirExpr::Var(var(l, pc)),
        RValue::Binary(bin, a, b) => CirExpr::BinaryOp {
            op: translate_binop(bin),
            lhs: Box::new(CirExpr::Var(var(a, pc))),
            rhs: Box::new(CirExpr::Var(var(b, pc))),
        },
        RValue::Unary(un, a) => CirExpr::UnaryOp {
            op: translate_unop(un),
            operand: Box::new(CirExpr::Var(var(a, pc))),
        },
        RValue::Call { func, args } => match func {
            FuncRef::Index(idx) => {
                let low: u64 = *idx as u64 % 0x1_0000_0000;
                let at: u64 = (WASM_FUNC_IMPORT_COUNT as u64 + low) % 0x1_0000_0000;
                CirExpr::Call { func_idx: at as u32, args: vars(args, pc) }
            },
            FuncRef::Local(_) => CirExpr::ConstNil,
        },
        RValue::ArrayLen(arr) => CirExpr::ArrayLen { arr: Box::new(CirExpr::Var(var(arr, pc))) },
        RValue::ArrayLoad { arr, idx } => CirExpr::ArrayLoad {
            arr: Box::new(CirExpr::Var(var(arr, pc))),
            idx: Box::new(CirExpr::Var(var(idx, pc))),
        },
        _ => CirExpr::ConstNil,
    }
}

/// What the target computes for a performed effect that does not suspend: the
/// print, read and length operations; others are nil.
pub open spec fn is_performed(
    effect: Seq<char>,
    op: Seq<char>,
    args: Seq<LocalId>,
    pc: u32,
    e: CirExpr,
) -> bool {
    if effect == "IO"@ && (op == "print"@ || op == "println"@) {
        e matches CirExpr::Call { func_idx, args: out } && func_idx == IMPORT_IO_PRINT && out@
            == vars_of(args, pc)
    } else if effect == "IO"@ && op == "read"@ {
        e matches CirExpr::Call { func_idx, args: out } && func_idx == IMPORT_IO_READ && out@.len()
            == 0
    } else if effect == "Array"@ && op == "length"@ && args.len() > 0 {
        e matches CirExpr::ArrayLen { arr } && *arr == CirExpr::Var(var_of(args[0], pc))
    } else {
        e == CirExpr::ConstNil
    }
}

fn translate_perform(effect: &str, op: &str, args: &Vec<LocalId>, pc: u32) -> (r: CirExpr)
    ensures
        is_performed(effect@, op@, args@, pc, r),
{
    proof {
        reveal_strlit("IO");
        reveal_strlit("Array");
        reveal_strlit("print");
        reveal_strlit("println");
        reveal_strlit("read");
        assert("IO"@.len() != "Array"@.len());
        assert("read"@.len() != "print"@.len());
        assert("read"@.len() != "println"@.len());
    }
    if str_eq(effect, "IO") && (str_eq(op, "print") || str_eq(op, "println")) {
        CirExpr::Call { func_idx: IMPORT_IO_PRINT, args: vars(args, pc) }
    } else if str_eq(effect, "IO") && str_eq(op, "read") {
        CirExpr::Call { func_idx: IMPORT_IO_READ, args: Vec::new() }
    } else if str_eq(effect, "Array") && str_eq(op, "length") && args.len() > 0 {
        CirExpr::ArrayLen { arr: Box::new(CirExpr::Var(var(&args[0], pc))) }
    } else {
        CirExpr::ConstNil
    }
}

/// Whether an effect is one of the host's, by module and name.
pub open spec fn is_host(effect: EffectKind, module: Seq<char>, name: Seq<char>) -> bool {
    effect matches EffectKind::HostEffect { module: m, name: n } && m@ == module && n@ == name
}

/// Whether `out` stands for a statement.
pub open spec fn is_stmt(stmt: Stmt, pc: u32, out: CirStmt) -> bool {
    match stmt {
        Stmt::Assign { dst, op } => if suspends(op) {
            out == (CirStmt::Assign { dst: var_of(dst, pc), src: CirExpr::ConstNil })
        } else {
            match op {
                RValue::Perform { effect, op, args, .. } => out matches CirStmt::Assign {
                    dst: d,
                    src,
                } && d == var_of(dst, pc) && is_performed(effect@, op@, args@, pc, src),
                RValue::Send { actor, args, .. } => out matches CirStmt::Emit {
                    effect,
                    args: sent,
                } && effect == EffectKind::ActorSend && sent@ == seq![
                    CirExpr::Var(var_of(actor, pc)),
                ] + vars_of(args@, pc),
                _ => out matches CirStmt::Assign { dst: d, src } && d == var_of(dst, pc)
                    && is_value(op, pc, src),
            }
        },
        Stmt::Emit { event, args } => out matches CirStmt::Emit { effect, args: sent } && is_host(
            effect,
            "Event"@,
            event@,
        ) && sent@ == vars_of(args@, pc),
        Stmt::StateSet { src, .. } => out matches CirStmt::Emit { effect, args: sent } && is_host(
            effect,
            "Actor"@,
            "state_set"@,
        ) && sent@ == seq![CirExpr::Var(var_of(src, pc))],
        _ => out == (CirStmt::Assign { dst: VarId(FRAME_PTR_VAR), src: CirExpr::ConstNil }),
    }
}

/// The statement of the target, see [`is_stmt`].
pub fn translate_stmt(stmt: &Stmt, pc: u32) -> (r: CirStmt)
    ensures
        is_stmt(*stmt, pc, r),
{
    match stmt {
        Stmt::Assign { dst, op } => {
            let d: VarId = var(dst, pc);
            if is_suspending_rvalue(op) {
                return CirStmt::Assign { dst: d, src: CirExpr::ConstNil };
            }
            match op {
                RValue::Perform { effect, op, args, .. } => CirStmt::Assign {
                    dst: d,
                    src: translate_perform(effect.as_str(), op.as_str(), args, pc),
                },
                RValue::Send { actor, args, .. } => {
                    let mut sent: Vec<CirExpr> = Vec::new();
                    sent.push(CirExpr::Var(var(actor, pc)));
                    push_vars(&mut sent, args, pc);
                    assert(sent@ =~= seq![CirExpr::Var(var_of(*actor, pc))] + vars_of(args@, pc));
                    CirStmt::Emit { effect: EffectKind::ActorSend, args: sent }
                },
                _ => CirStmt::Assign { dst: d, src: translate_rvalue(op, pc) },
            }
        },
        Stmt::Emit { event, args } => CirStmt::Emit {
            effect: EffectKind::HostEffect { module: text("Event"), name: text(event.as_str()) },
            args: vars(args, pc),
        },
        Stmt::StateSet { src, .. } => {
            let mut sent: Vec<CirExpr> = Vec::new();
            sent.push(CirExpr::Var(var(src, pc)));
            assert(sent@ =~= seq![CirExpr::Var(var_of(*src, pc))]);
            CirStmt::Emit {
                effect: EffectKind::HostEffect { module: text("Actor"), name: text("state_set") },
                args: sent,
            }
        },
        _ => CirStmt::Assign { dst: VarId(FRAME_PTR_VAR), src: CirExpr::ConstNil },
    }
}

/// Whether `out` stands for a terminator.
pub open spec fn is_terminator(term: Terminator, pc: u32, out: CirTerminator) -> bool {
    match term {
        Terminator::Return(Some(l)) => out == CirTerminator::Return(
            Some(CirExpr::Var(var_of(l, pc))),
        ),
        Terminator::Return(None) => out == CirTerminator::Return(None),
        Terminator::Jump(t) => out == CirTerminator::Jump(BlockId(t.0)),
        Terminator::Branch { cond, then_, else_ } => out == (CirTerminator::Branch {
            cond: CirExpr::Var(var_of(cond, pc)),
            then_block: BlockId(then_.0),
            else_block: BlockId(else_.0),
        }),
        Terminator::Resume(l) => out == CirTerminator::Resume(CirExpr::Var(var_of(l, pc))),
        Terminator::Unterminated => out == CirTerminator::Return(None),
    }
}

fn translate_terminator(term: &Terminator, pc: u32) -> (r: CirTerminator)
    ensures
        is_terminator(*term, pc, r),
{
    match term {
        Terminator::Return(o) => match o {
            Some(l) => CirTerminator::Return(Some(CirExpr::Var(var(l, pc)))),
            None => CirTerminator::Return(None),
        },
        Terminator::Jump(t) => CirTerminator::Jump(BlockId(t.0)),
        Terminator::Branch { cond, then_, else_ } => CirTerminator::Branch {
            cond: CirExpr::Var(var(cond, pc)),
            then_block: BlockId(then_.0),
            else_block: BlockId(else_.0),
        },
        Terminator::Resume(l) => CirTerminator::Resume(CirExpr::Var(var(l, pc))),
        Terminator::Unterminated => CirTerminator::Return(None),
    }
}

/// Whether an effect and its arguments are what a suspending value asks the host
/// for.
pub open spec fn is_request(op: RValue, pc: u32, effect: EffectKind, args: Seq<CirExpr>) -> bool {
    match op {
        RValue::Perform { args: a, .. } => effect == EffectKind::LlmAsk && args == vars_of(a@, pc),
        RValue::SignalWait { name } => effect == EffectKind::SignalWait && args.len() == 1 && (
        args[0] matches CirExpr::ConstString(s) && s@ == name@),
        RValue::ReceiveWait { timeout, max_params, .. } => effect == EffectKind::MailboxDequeue
            && args == seq![
            CirExpr::ConstI64(max_params as i64),
            CirExpr::Var(var_of(timeout, pc)),
        ],
        RValue::ReceiveMatch { max_params, .. } => effect == EffectKind::MailboxDequeue && args
            == seq![CirExpr::ConstI64(max_params as i64)],
        RValue::PerformAsync { effect_op, args: a } => effect == EffectKind::PerformAsync
            && args.len() == 1 + a@.len() && (args[0] matches CirExpr::ConstString(s) && s@
            == effect_op@) && args.skip(1) == vars_of(a@, pc),
        _ => is_host(effect, "__cir"@, "unknown_suspend"@) && args.len() == 0,
    }
}

/// What a suspending value asks the host for, see [`is_request`].
pub fn suspend_effect_and_args(op: &RValue, pc: u32) -> (r: (EffectKind, Vec<CirExpr>))
    requires
        suspends(*op),
    ensures
        is_request(*op, pc, r.0, r.1@),
{
    let mut out: Vec<CirExpr> = Vec::new();
    match op {
        RValue::Perform { args, .. } => (EffectKind::LlmAsk, vars(args, pc)),
        RValue::SignalWait { name } => {
            out.push(CirExpr::ConstString(text(name.as_str())));
            (EffectKind::SignalWait, out)
        },
        RValue::ReceiveWait { timeout, max_params, .. } => {
            out.push(CirExpr::ConstI64(*max_params as i64));
            out.push(CirExpr::Var(var(timeout, pc)));
            assert(out@ =~= seq![
                CirExpr::ConstI64(*max_params as i64),
                CirExpr::Var(var_of(*timeout, pc)),
            ]);
            (EffectKind::MailboxDequeue, out)
        },
        RValue::ReceiveMatch { max_params, .. } => {
            out.push(CirExpr::ConstI64(*max_params as i64));
            assert(out@ =~= seq![CirExpr::ConstI64(*max_params as i64)]);
            (EffectKind::MailboxDequeue, out)
        },
        RValue::PerformAsync { effect_op, args } => {
            out.push(CirExpr::ConstString(text(effect_op.as_str())));
            push_vars(&mut out, args, pc);
            assert(out@.skip(1) =~= vars_of(args@, pc));
            (EffectKind::PerformAsync, out)
        },
        _ => {
            (
                EffectKind::HostEffect { module: text("__cir"), name: text("unknown_suspend") },
                out,
            )
        },
    }
}

// ---------------------------------------------------------------------------
// Cutting blocks
// ---------------------------------------------------------------------------

/// The first statement at or after `from` that a block is cut at, or the end.
pub open spec fn stop_from(stmts: Seq<Stmt>, from: int) -> int
    decreases stmts.len() - from,
{
    if from < 0 || from >= stmts.len() {
        stmts.len() as int
    } else if stops(stmts[from]) {
        from
    } else {
        stop_from(stmts, from + 1)
    }
}

/// The number of cuts at or after `from`.
pub open spec fn cuts_from(stmts: Seq<Stmt>, from: int) -> nat
    decreases stmts.len() - from,
{
    if from < 0 || from >= stmts.len() {
        0
    } else if stops(stmts[from]) {
        1 + cuts_from(stmts, from + 1)
    } else {
        cuts_from(stmts, from + 1)
    }
}

/// The first statement of piece `k` of a block.
pub open spec fn piece_start(stmts: Seq<Stmt>, k: nat) -> int
    decreases k,
{
    if k == 0 {
        0
    } else {
        stop_from(stmts, piece_start(stmts, (k - 1) as nat)) + 1
    }
}

/// The number of parameters and captures, of which 32 bits count.
pub open spec fn fixed_count(func: Function) -> u32 {
    ((func.params@.len() + func.captures@.len()) % 0x1_0000_0000) as u32
}

/// The number of cuts in the blocks from `b` on.
pub open spec fn cuts_after(blocks: Seq<Block>, b: int) -> nat
    decreases blocks.len() - b,
{
    if b < 0 || b >= blocks.len() {
        0
    } else {
        cuts_from(blocks[b].stmts@, 0) + cuts_after(blocks, b + 1)
    }
}

/// The number of the first resume block of block `b`: resume blocks are numbered
/// behind the blocks of the function, those of the last block first.
pub open spec fn fresh_base(func: Function, b: int) -> nat {
    func.blocks@.len() + cuts_after(func.blocks@, b + 1)
}

/// The number of piece `k` of block `b`.
pub open spec fn piece_id(func: Function, b: int, k: nat) -> nat {
    if k == 0 {
        func.blocks@[b].id.0 as nat
    } else {
        (fresh_base(func, b) + k - 1) as nat
    }
}

/// Whether `out` is the part of a block that begins at statement `from`: the
/// statements up to the next cut, and the suspension there with the number of the
/// block to resume at, or the block's own terminator.
pub open spec fn is_part(
    block: Block,
    pc: u32,
    from: int,
    id: nat,
    next: nat,
    out: CirBlock,
) -> bool {
    let stmts = block.stmts@;
    let end = stop_from(stmts, from);
    &&& out.id.0 == id
    &&& out.stmts@.len() == end - from
    &&& forall|i: int|
        0 <= i < end - from ==> is_stmt(stmts[from + i], pc, #[trigger] out.stmts@[i])
    &&& if end < stmts.len() {
        match stmts[end] {
            Stmt::Assign { dst, op } => out.terminator matches CirTerminator::SuspendAndYield {
                effect,
                args,
                resume_block,
                resume_var,
                live_vars,
            } && is_request(op, pc, effect, args@) && resume_block.0 == next && resume_var
                == var_of(dst, pc) && live_vars@.len() == 0,
            _ => false,
        }
    } else {
        is_terminator(block.terminator, pc, out.terminator)
    }
}

/// Whether `out` is piece `k` of block `b`.
pub open spec fn is_piece(func: Function, b: int, k: nat, out: CirBlock) -> bool {
    is_part(
        func.blocks@[b],
        fixed_count(func),
        piece_start(func.blocks@[b].stmts@, k),
        piece_id(func, b, k),
        piece_id(func, b, k + 1),
        out,
    )
}

/// Whether the numbers of the blocks are those from zero on, each once, and the
/// resume blocks can be numbered behind them.
pub open spec fn lowerable(func: Function) -> bool {
    &&& forall|id: int| 0 <= id < func.blocks@.len() ==> #[trigger] numbered(func, id)
    &&& forall|b: int|
        0 <= b < func.blocks@.len() ==> (#[trigger] func.blocks@[b]).id.0 < func.blocks@.len()
    &&& forall|a: int, b: int|
        0 <= a < b < func.blocks@.len() ==> #[trigger] func.blocks@[a].id
            != #[trigger] func.blocks@[b].id
    &&& func.blocks@.len() + cuts_after(func.blocks@, 0) <= u32::MAX
}

/// Whether some block has the number `id`.
pub open spec fn numbered(func: Function, id: int) -> bool {
    exists|b: int| #[trigger] has_id(func, b, id)
}

/// Whether block `b` has the number `id`.
pub open spec fn has_id(func: Function, b: int, id: int) -> bool {
    0 <= b < func.blocks@.len() && func.blocks@[b].id.0 == id
}

/// The largest number among the first `n` locals, or zero.
pub open spec fn max_local(locals: Seq<Local>, n: nat) -> u32
    decreases n,
{
    if n == 0 || n > locals.len() {
        0
    } else {
        let before = max_local(locals, (n - 1) as nat);
        if locals[n - 1].id.0 > before {
            locals[n - 1].id.0
        } else {
            before
        }
    }
}

/// The number of locals of the target: all locals behind parameters and
/// captures, and the reserved ones.
pub open spec fn local_count(func: Function) -> nat {
    let n = (fixed_count(func) + max_local(func.locals@, func.locals@.len()) + 1) % 0x1_0000_0000;
    if n < 253 {
        253
    } else {
        n as nat
    }
}

/// Whether `out` is the lowered function: every piece of every block stands at
/// the position of its number.
pub open spec fn is_lowered(func: Function, out: CirFunction) -> bool {
    &&& out.name@ == func.name@
    &&& out.entry_block.0 == func.entry.0
    &&& out.locals@.len() == local_count(func)
    &&& forall|i: int| 0 <= i < out.locals@.len() ==> (#[trigger] out.locals@[i]).id.0 == i
    &&& out.blocks@.len() == func.blocks@.len() + cuts_after(func.blocks@, 0)
    &&& forall|b: int, k: nat|
        0 <= b < func.blocks@.len() && k <= cuts_from(func.blocks@[b].stmts@, 0) ==> placed_piece(
            func,
            b,
            k,
            out.blocks@,
        )
}

/// Whether piece `k` of block `b` stands at its position.
pub open spec fn placed_piece(func: Function, b: int, k: nat, blocks: Seq<CirBlock>) -> bool {
    piece_id(func, b, k) < blocks.len() && is_piece(
        func,
        b,
        k,
        blocks[piece_id(func, b, k) as int],
    )
}

pub proof fn stop_facts(stmts: Seq<Stmt>, from: int)
    requires
        0 <= from <= stmts.len(),
    ensures
        from <= stop_from(stmts, from) <= stmts.len(),
        stop_from(stmts, from) < stmts.len() ==> stops(stmts[stop_from(stmts, from)]),
        cuts_from(stmts, from) == (if stop_from(stmts, from) < stmts.len() {
            1 + cuts_from(stmts, stop_from(stmts, from) + 1)
        } else {
            0
        }),
    decreases stmts.len() - from,
{
    if from < stmts.len() && !stops(stmts[from]) {
        stop_facts(stmts, from + 1);
    }
}

pub proof fn piece_facts(stmts: Seq<Stmt>, k: nat)
    requires
        k <= cuts_from(stmts, 0),
    ensures
        0 <= piece_start(stmts, k) <= stmts.len(),
        cuts_from(stmts, piece_start(stmts, k)) == cuts_from(stmts, 0) - k,
    decreases k,
{
    if k > 0 {
        piece_facts(stmts, (k - 1) as nat);
        stop_facts(stmts, piece_start(stmts, (k - 1) as nat));
    }
}

fn lower_part(block: &Block, pc: u32, from: usize, id: u32, next: u32) -> (r: (CirBlock, usize))
    requires
        from <= block.stmts@.len(),
    ensures
        is_part(*block, pc, from as int, id as nat, next as nat, r.0),
        r.1 == stop_from(block.stmts@, from as int),
{
    let ghost stmts = block.stmts@;
    let mut out: Vec<CirStmt> = Vec::new();
    let mut i: usize = from;
    while i < block.stmts.len() && !is_stop(&block.stmts[i])
        invariant
            stmts == block.stmts@,
            from <= i <= stmts.len(),
            stop_from(stmts, from as int) == stop_from(stmts, i as int),
            out@.len() == i - from,
            forall|j: int| 0 <= j < i - from ==> is_stmt(stmts[from + j], pc, #[trigger] out@[j]),
        decreases stmts.len() - i,
    {
        out.push(translate_stmt(&block.stmts[i], pc));
        i = i + 1;
    }
    let terminator: CirTerminator = if i < block.stmts.len() {
        match &block.stmts[i] {
            Stmt::Assign { dst, op } => {
                let (effect, args) = suspend_effect_and_args(op, pc);
                CirTerminator::SuspendAndYield {
                    effect,
                    args,
                    resume_block: BlockId(next),
                    resume_var: var(dst, pc),
                    live_vars: Vec::new(),
                }
            },
            _ => {
                assert(false);
                CirTerminator::Return(None)
            },
        }
    } else {
        translate_terminator(&block.terminator, pc)
    };
    (CirBlock { id: BlockId(id), stmts: out, terminator }, i)
}

proof fn cuts_after_bound(blocks: Seq<Block>, b: int)
    requires
        0 <= b <= blocks.len(),
    ensures
        cuts_after(blocks, b) <= cuts_after(blocks, 0),
    decreases b,
{
    if b > 0 {
        cuts_after_bound(blocks, b - 1);
    }
}

/// Appends the resume blocks of block `b`.
fn lower_resumes(func: &Function, b: usize, pc: u32, fresh: &mut Vec<CirBlock>)
    requires
        lowerable(*func),
        b < func.blocks@.len(),
        pc == fixed_count(*func),
        old(fresh)@.len() == cuts_after(func.blocks@, b + 1),
    ensures
        final(fresh)@.len() == cuts_after(func.blocks@, b as int),
        final(fresh)@.take(old(fresh)@.len() as int) == old(fresh)@,
        forall|k: nat|
            1 <= k <= cuts_from(func.blocks@[b as int].stmts@, 0) ==> resumed(
                *func,
                b as int,
                k,
                final(fresh)@,
            ),
{
    let n: u32 = func.blocks.len() as u32;
    let block: &Block = &func.blocks[b];
    let ghost stmts = block.stmts@;
    let ghost cuts = cuts_from(stmts, 0);
    let ghost start = fresh@;
    proof {
        cuts_after_bound(func.blocks@, b as int);
        stop_facts(stmts, 0);
    }
    let mut at: usize = 0;
    while at < block.stmts.len() && !is_stop(&block.stmts[at])
        invariant
            stmts == block.stmts@,
            at <= stmts.len(),
            stop_from(stmts, 0) == stop_from(stmts, at as int),
        decreases stmts.len() - at,
    {
        at = at + 1;
    }
    let ghost mut k: nat = 0;
    while at < block.stmts.len()
        invariant
            lowerable(*func),
            b < func.blocks@.len(),
            *block == func.blocks@[b as int],
            stmts == block.stmts@,
            cuts == cuts_from(stmts, 0),
            pc == fixed_count(*func),
            n == func.blocks@.len(),
            n + cuts_after(func.blocks@, b as int) <= u32::MAX,
            cuts_after(func.blocks@, b as int) == cuts + start.len(),
            start.len() == cuts_after(func.blocks@, b + 1),
            k <= cuts,
            at == stop_from(stmts, piece_start(stmts, k)),
            fresh@.len() == start.len() + k,
            fresh@.take(start.len() as int) == start,
            forall|j: nat| 1 <= j <= k ==> resumed(*func, b as int, j, fresh@),
        decreases cuts - k,
    {
        proof {
            piece_facts(stmts, k);
            stop_facts(stmts, piece_start(stmts, k));
            stop_facts(stmts, at + 1);
        }
        let id: u32 = n + fresh.len() as u32;
        let next: u32 = if id < 0xffff_ffff {
            id + 1
        } else {
            0
        };
        let ghost before = fresh@;
        let (part, end) = lower_part(block, pc, at + 1, id, next);
        fresh.push(part);
        proof {
            k = k + 1;
            piece_facts(stmts, k);
            assert(piece_start(stmts, k) == at + 1);
            assert(id == piece_id(*func, b as int, k));
            if id == u32::MAX {
                assert(k == cuts);
                stop_facts(stmts, piece_start(stmts, k));
                assert(end >= stmts.len());
            }
            assert(fresh@.take(start.len() as int) =~= before.take(start.len() as int));
            assert forall|j: nat| 1 <= j <= k implies resumed(*func, b as int, j, fresh@) by {
                if j < k {
                    assert(resumed(*func, b as int, j, before));
                }
            }
        }
        at = end;
    }
    proof {
        piece_facts(stmts, k);
        stop_facts(stmts, piece_start(stmts, k));
    }
}

/// Whether piece `k` of block `b` stands among the resume blocks, which are
/// counted from the first number behind the function's own blocks.
pub open spec fn resumed(func: Function, b: int, k: nat, fresh: Seq<CirBlock>) -> bool {
    let at = cuts_after(func.blocks@, b + 1) + k - 1;
    0 <= at < fresh.len() && is_piece(func, b, k, fresh[at])
}

fn lower_all_resumes(func: &Function, pc: u32) -> (fresh: Vec<CirBlock>)
    requires
        lowerable(*func),
        pc == fixed_count(*func),
    ensures
        fresh@.len() == cuts_after(func.blocks@, 0),
        forall|b: int, k: nat|
            0 <= b < func.blocks@.len() && 1 <= k <= cuts_from(func.blocks@[b].stmts@, 0)
                ==> resumed(*func, b, k, fresh@),
{
    let mut fresh: Vec<CirBlock> = Vec::new();
    let mut b: usize = func.blocks.len();
    while b > 0
        invariant
            lowerable(*func),
            pc == fixed_count(*func),
            b <= func.blocks@.len(),
            fresh@.len() == cuts_after(func.blocks@, b as int),
            forall|c: int, k: nat|
                b <= c < func.blocks@.len() && 1 <= k <= cuts_from(func.blocks@[c].stmts@, 0)
                    ==> resumed(*func, c, k, fresh@),
        decreases b,
    {
        b = b - 1;
        let ghost before = fresh@;
        lower_resumes(func, b, pc, &mut fresh);
        assert forall|c: int, k: nat|
            b <= c < func.blocks@.len() && 1 <= k <= cuts_from(
                func.blocks@[c].stmts@,
                0,
            ) implies resumed(*func, c, k, fresh@) by {
            if c > b {
                assert(resumed(*func, c, k, before));
                let at = cuts_after(func.blocks@, c + 1) + k - 1;
                assert(fresh@.take(before.len() as int)[at] == fresh@[at]);
            }
        }
    }
    fresh
}

fn find_block(func: &Function, id: u32) -> (b: usize)
    requires
        numbered(*func, id as int),
    ensures
        has_id(*func, b as int, id as int),
{
    let mut b: usize = 0;
    while b < func.blocks.len()
        invariant
            numbered(*func, id as int),
            b <= func.blocks@.len(),
            forall|c: int| 0 <= c < b ==> !#[trigger] has_id(*func, c, id as int),
        decreases func.blocks@.len() - b,
    {
        if func.blocks[b].id.0 == id {
            return b;
        }
        b = b + 1;
    }
    let ghost c = choose|c: int| #[trigger] has_id(*func, c, id as int);
    assert(has_id(*func, c, id as int));
    b
}

fn count_cuts(stmts: &Vec<Stmt>) -> (n: usize)
    ensures
        n as nat == cuts_from(stmts@, 0),
{
    let mut n: usize = 0;
    let mut i: usize = 0;
    while i < stmts.len()
        invariant
            i <= stmts@.len(),
            n <= i,
            cuts_from(stmts@, 0) == n + cuts_from(stmts@, i as int),
        decreases stmts@.len() - i,
    {
        if is_stop(&stmts[i]) {
            n = n + 1;
        }
        i = i + 1;
    }
    n
}

/// The number of the first resume block of each block.
fn fresh_bases(func: &Function) -> (r: Vec<u32>)
    requires
        lowerable(*func),
    ensures
        r@.len() == func.blocks@.len(),
        forall|b: int| 0 <= b < r@.len() ==> #[trigger] r@[b] == fresh_base(*func, b),
{
    let len: usize = func.blocks.len();
    let mut r: Vec<u32> = Vec::new();
    let mut i: usize = 0;
    while i < len
        invariant
            i <= len,
            r@.len() == i,
        decreases len - i,
    {
        r.push(0);
        i = i + 1;
    }
    let mut next: u32 = len as u32;
    let mut b: usize = len;
    while b > 0
        invariant
            lowerable(*func),
            len == func.blocks@.len(),
            b <= len,
            r@.len() == len,
            next == len + cuts_after(func.blocks@, b as int),
            forall|c: int| b <= c < len ==> #[trigger] r@[c] == fresh_base(*func, c),
        decreases b,
    {
        b = b - 1;
        proof {
            cuts_after_bound(func.blocks@, b as int);
        }
        r.set(b, next);
        next = next + count_cuts(&func.blocks[b].stmts) as u32;
    }
    r
}

/// Lowers a function, see [`is_lowered`]. A function without suspensions keeps
/// its blocks as they are.
pub fn lower_mir_function_unconditional(func: &Function) -> (r: CirFunction)
    requires
        lowerable(*func),
    ensures
        is_lowered(*func, r),
{
    let fixed: u64 = (func.params.len() as u64 % 0x1_0000_0000 + func.captures.len() as u64
        % 0x1_0000_0000) % 0x1_0000_0000;
    let pc: u32 = fixed as u32;
    assert(pc == fixed_count(*func));
    let bases: Vec<u32> = fresh_bases(func);
    let mut fresh: Vec<CirBlock> = lower_all_resumes(func, pc);
    let ghost resumes = fresh@;
    let mut blocks: Vec<CirBlock> = Vec::new();
    let len: usize = func.blocks.len();
    let mut id: usize = 0;
    while id < len
        invariant
            lowerable(*func),
            pc == fixed_count(*func),
            len == func.blocks@.len(),
            bases@.len() == len,
            forall|b: int| 0 <= b < bases@.len() ==> #[trigger] bases@[b] == fresh_base(*func, b),
            id <= len,
            blocks@.len() == id,
            forall|b: int|
                0 <= b < func.blocks@.len() && func.blocks@[b].id.0 < id ==> is_piece(
                    *func,
                    b,
                    0,
                    #[trigger] blocks@[func.blocks@[b].id.0 as int],
                ),
        decreases len - id,
    {
        let ghost before = blocks@;
        assert(numbered(*func, id as int));
        let b: usize = find_block(func, id as u32);
        let (part, _) = lower_part(&func.blocks[b], pc, 0, id as u32, bases[b]);
        proof {
            assert(piece_start(func.blocks@[b as int].stmts@, 0) == 0);
            assert(piece_id(*func, b as int, 1) == bases@[b as int]);
            assert(is_piece(*func, b as int, 0, part));
        }
        blocks.push(part);
        id = id + 1;
        assert forall|c: int|
            0 <= c < func.blocks@.len() && func.blocks@[c].id.0 < id implies is_piece(
            *func,
            c,
            0,
            #[trigger] blocks@[func.blocks@[c].id.0 as int],
        ) by {
            if func.blocks@[c].id.0 < id - 1 {
                assert(blocks@[func.blocks@[c].id.0 as int]
                    == before[func.blocks@[c].id.0 as int]);
            } else if c < b {
                assert(func.blocks@[c].id != func.blocks@[b as int].id);
            } else if b < c {
                assert(func.blocks@[b as int].id != func.blocks@[c].id);
            }
        }
    }
    let ghost firsts = blocks@;
    blocks.append(&mut fresh);
    assert(blocks@ == firsts + resumes);
    let mut max: u32 = 0;
    let mut i: usize = 0;
    while i < func.locals.len()
        invariant
            i <= func.locals@.len(),
            max == max_local(func.locals@, i as nat),
        decreases func.locals@.len() - i,
    {
        if func.locals[i].id.0 > max {
            max = func.locals[i].id.0;
        }
        i = i + 1;
    }
    let wide: u64 = (pc as u64 + max as u64 + 1) % 0x1_0000_0000;
    let count: u32 = if wide < 253 {
        253
    } else {
        wide as u32
    };
    let mut locals: Vec<CirLocal> = Vec::new();
    let mut v: u32 = 0;
    while v < count
        invariant
            v <= count,
            locals@.len() == v,
            forall|i: int| 0 <= i < v ==> (#[trigger] locals@[i]).id.0 == i,
        decreases count - v,
    {
        locals.push(CirLocal { id: VarId(v) });
        v = v + 1;
    }
    let r: CirFunction = CirFunction {
        name: text(func.name.as_str()),
        locals,
        blocks,
        entry_block: BlockId(func.entry.0),
    };
    proof {
        assert forall|b: int, k: nat|
            0 <= b < func.blocks@.len() && k <= cuts_from(
                func.blocks@[b].stmts@,
                0,
            ) implies placed_piece(*func, b, k, r.blocks@) by {
            if k == 0 {
                assert(func.blocks@[b].id.0 < func.blocks@.len());
                assert(is_piece(*func, b, 0, firsts[func.blocks@[b].id.0 as int]));
            } else {
                assert(resumed(*func, b, k, resumes));
                let at = cuts_after(func.blocks@, b + 1) + k - 1;
                assert((firsts + resumes)[func.blocks@.len() + at] == resumes[at]);
            }
        }
    }
    r
}

// ---------------------------------------------------------------------------
// Laws
// ---------------------------------------------------------------------------

proof fn no_cuts(stmts: Seq<Stmt>, from: int)
    requires
        0 <= from <= stmts.len(),
        forall|i: int| 0 <= i < stmts.len() ==> !stops(#[trigger] stmts[i]),
    ensures
        stop_from(stmts, from) == stmts.len(),
        cuts_from(stmts, from) == 0,
    decreases stmts.len() - from,
{
    if from < stmts.len() {
        no_cuts(stmts, from + 1);
    }
}

proof fn some_cut(stmts: Seq<Stmt>, from: int, i: int)
    requires
        0 <= from <= i < stmts.len(),
        stops(stmts[i]),
    ensures
        cuts_from(stmts, from) > 0,
    decreases stmts.len() - from,
{
    if from < i {
        some_cut(stmts, from + 1, i);
    }
}

proof fn no_cuts_after(blocks: Seq<Block>, b: int)
    requires
        0 <= b <= blocks.len(),
        forall|c: int, i: int|
            0 <= c < blocks.len() && 0 <= i < blocks[c].stmts@.len() ==> !stops(
                #[trigger] blocks[c].stmts@[i],
            ),
    ensures
        cuts_after(blocks, b) == 0,
    decreases blocks.len() - b,
{
    if b < blocks.len() {
        no_cuts(blocks[b].stmts@, 0);
        no_cuts_after(blocks, b + 1);
    }
}

/// A function without suspending values keeps its number of blocks, and none of
/// them yields to the host.
pub proof fn plain_functions_do_not_yield(func: Function, out: CirFunction, i: int)
    requires
        lowerable(func),
        is_lowered(func, out),
        forall|c: int, i: int|
            0 <= c < func.blocks@.len() && 0 <= i < func.blocks@[c].stmts@.len() ==> !stops(
                #[trigger] func.blocks@[c].stmts@[i],
            ),
        0 <= i < out.blocks@.len(),
    ensures
        out.blocks@.len() == func.blocks@.len(),
        !(out.blocks@[i].terminator is SuspendAndYield),
{
    no_cuts_after(func.blocks@, 0);
    assert(numbered(func, i));
    let b = choose|b: int| #[trigger] has_id(func, b, i);
    no_cuts(func.blocks@[b].stmts@, 0);
    assert(placed_piece(func, b, 0, out.blocks@));
}

/// A function with a suspending value has more blocks than before, and a block
/// that yields to the host.
pub proof fn suspending_functions_yield(func: Function, out: CirFunction, b: int, i: int)
    requires
        lowerable(func),
        is_lowered(func, out),
        0 <= b < func.blocks@.len(),
        0 <= i < func.blocks@[b].stmts@.len(),
        stops(func.blocks@[b].stmts@[i]),
    ensures
        out.blocks@.len() > func.blocks@.len(),
        out.blocks@[func.blocks@[b].id.0 as int].terminator is SuspendAndYield,
{
    some_cut(func.blocks@[b].stmts@, 0, i);
    cuts_after_bound(func.blocks@, b);
    assert(placed_piece(func, b, 0, out.blocks@));
    stop_facts(func.blocks@[b].stmts@, 0);
}

/// Where a piece of a block yields, execution resumes at the next piece of the
/// same block.
pub proof fn resumption_continues_the_block(func: Function, out: CirFunction, b: int, k: nat)
    requires
        lowerable(func),
        is_lowered(func, out),
        0 <= b < func.blocks@.len(),
        k < cuts_from(func.blocks@[b].stmts@, 0),
    ensures
        out.blocks@[piece_id(func, b, k) as int].terminator matches CirTerminator::SuspendAndYield {
            resume_block,
            ..
        } && resume_block.0 == piece_id(func, b, k + 1) && is_piece(
            func,
            b,
            k + 1,
            out.blocks@[resume_block.0 as int],
        ),
{
    let stmts = func.blocks@[b].stmts@;
    assert(placed_piece(func, b, k, out.blocks@));
    assert(placed_piece(func, b, k + 1, out.blocks@));
    piece_facts(stmts, k);
    stop_facts(stmts, piece_start(stmts, k));
}

} // verus!
