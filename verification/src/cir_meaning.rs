//! The meaning of the concurrency representation, beside that of the middle
//! representation. The laws say that lowering keeps what a function does: where
//! it goes, what it computes and what it asks of the host.

use vstd::prelude::*;

use crate::ast::{BinOp, UnOp};
use crate::bytecode::Constant;
use crate::cir::{self, BinaryOp, CirBlock, CirExpr, CirFunction, CirStmt, CirTerminator, EffectKind, UnaryOp, VarId};
use crate::cir_lower::{self, IMPORT_IO_PRINT, IMPORT_IO_READ, WASM_FUNC_IMPORT_COUNT};
use crate::mir::{Block, BlockId, FuncRef, Function, Local, LocalId, RValue, Stmt, Terminator};
use crate::mir_meaning::{self, Exit};
use crate::value_layout::{self, TAG_INT};

verus! {

/// Whether the variables hold what the locals hold: local `l` is the variable
/// `pc` places on.
pub open spec fn same_store(
    st: spec_fn(LocalId) -> int,
    vars: spec_fn(VarId) -> int,
    pc: u32,
) -> bool {
    forall|l: LocalId, v: VarId|
        (v.0 - l.0 - pc) % 0x1_0000_0000 == 0 ==> #[trigger] vars(v) == #[trigger] st(l)
}

/// No two locals share a variable.
pub proof fn variables_do_not_collide(a: LocalId, b: LocalId, pc: u32)
    ensures
        cir_lower::var_of(a, pc) == cir_lower::var_of(b, pc) ==> a == b,
        pc + a.0 <= u32::MAX ==> cir_lower::var_of(a, pc).0 == pc + a.0,
        (cir_lower::var_of(a, pc).0 - a.0 - pc) % 0x1_0000_0000 == 0,
{
}

proof fn var_holds_local(
    st: spec_fn(LocalId) -> int,
    vars: spec_fn(VarId) -> int,
    pc: u32,
    l: LocalId,
)
    requires
        same_store(st, vars, pc),
    ensures
        vars(cir_lower::var_of(l, pc)) == st(l),
{
    variables_do_not_collide(l, l, pc);
}

// ---------------------------------------------------------------------------
// Control
// ---------------------------------------------------------------------------

/// Where a block of the target leads: a branch goes to its first target exactly
/// where the condition holds.
pub open spec fn target_exit(
    term: CirTerminator,
    vars: spec_fn(VarId) -> int,
    holds: spec_fn(int) -> bool,
) -> Exit {
    match term {
        CirTerminator::Return(None) => Exit::Return(None),
        CirTerminator::Return(Some(CirExpr::Var(v))) => Exit::Return(Some(vars(v))),
        CirTerminator::Jump(t) => Exit::Goto(BlockId(t.0)),
        CirTerminator::Branch { cond: CirExpr::Var(v), then_block, else_block } => if holds(
            vars(v),
        ) {
            Exit::Goto(BlockId(then_block.0))
        } else {
            Exit::Goto(BlockId(else_block.0))
        },
        CirTerminator::Resume(CirExpr::Var(v)) => Exit::Resume(vars(v)),
        _ => Exit::Stuck,
    }
}

/// Lowering keeps control: under the same store the lowered end leads to the
/// block of the same number, for every value of a condition, and returns or
/// resumes with the same value. A block without an end returns nothing.
pub proof fn lowered_ends_lead_alike(
    term: Terminator,
    pc: u32,
    out: CirTerminator,
    st: spec_fn(LocalId) -> int,
    vars: spec_fn(VarId) -> int,
    holds: spec_fn(int) -> bool,
)
    requires
        cir_lower::is_terminator(term, pc, out),
        same_store(st, vars, pc),
    ensures
        term is Unterminated ==> target_exit(out, vars, holds) == Exit::Return(None),
        !(term is Unterminated) ==> target_exit(out, vars, holds) == mir_meaning::exit(
            term,
            st,
            holds,
        ),
{
    match term {
        Terminator::Return(Some(l)) => var_holds_local(st, vars, pc, l),
        Terminator::Branch { cond, .. } => var_holds_local(st, vars, pc, cond),
        Terminator::Resume(l) => var_holds_local(st, vars, pc, l),
        _ => {},
    }
}

/// A lowered function keeps control flow: its entry has the number of the entry,
/// the last piece of a block leads where the block leads, and the block of a
/// number begins at the position of that number.
pub proof fn lowering_keeps_control_flow(
    func: Function,
    out: CirFunction,
    b: int,
    st: spec_fn(LocalId) -> int,
    vars: spec_fn(VarId) -> int,
    holds: spec_fn(int) -> bool,
)
    requires
        cir_lower::lowerable(func),
        cir_lower::is_lowered(func, out),
        0 <= b < func.blocks@.len(),
        !(func.blocks@[b].terminator is Unterminated),
        same_store(st, vars, cir_lower::fixed_count(func)),
    ensures
        out.entry_block.0 == func.entry.0,
        ({
            let last = cir_lower::piece_id(
                func,
                b,
                cir_lower::cuts_from(func.blocks@[b].stmts@, 0),
            );
            &&& last < out.blocks@.len()
            &&& target_exit(out.blocks@[last as int].terminator, vars, holds) == mir_meaning::exit(
                func.blocks@[b].terminator,
                st,
                holds,
            )
        }),
        mir_meaning::exit(func.blocks@[b].terminator, st, holds) matches Exit::Goto(id) ==> (id.0
            < func.blocks@.len() ==> exists|c: int|
            0 <= c < func.blocks@.len() && (#[trigger] func.blocks@[c]).id == id
                && cir_lower::is_piece(func, c, 0, out.blocks@[id.0 as int])),
        func.blocks@[b].id.0 < out.blocks@.len(),
        out.blocks@[func.blocks@[b].id.0 as int].id.0 == func.blocks@[b].id.0,
        cir_lower::fixed_count(func) == (func.params@.len() + func.captures@.len())
            % 0x1_0000_0000,
{
    let stmts = func.blocks@[b].stmts@;
    let k = cir_lower::cuts_from(stmts, 0);
    assert(cir_lower::placed_piece(func, b, k, out.blocks@));
    assert(cir_lower::placed_piece(func, b, 0, out.blocks@));
    cir_lower::piece_facts(stmts, k);
    cir_lower::stop_facts(stmts, cir_lower::piece_start(stmts, k));
    let last = cir_lower::piece_id(func, b, k);
    lowered_ends_lead_alike(
        func.blocks@[b].terminator,
        cir_lower::fixed_count(func),
        out.blocks@[last as int].terminator,
        st,
        vars,
        holds,
    );
    if let Exit::Goto(id) = mir_meaning::exit(func.blocks@[b].terminator, st, holds) {
        if id.0 < func.blocks@.len() {
            assert(cir_lower::numbered(func, id.0 as int));
            let c = choose|c: int| #[trigger] cir_lower::has_id(func, c, id.0 as int);
            assert(cir_lower::placed_piece(func, c, 0, out.blocks@));
            assert(func.blocks@[c].id == id);
        }
    }
}

// ---------------------------------------------------------------------------
// Computations
// ---------------------------------------------------------------------------

/// A truth value as a number.
pub open spec fn truth(b: bool) -> int {
    if b {
        1
    } else {
        0
    }
}

/// What a binary operator of the source computes on numbers; concatenation does
/// not work on numbers.
pub open spec fn source_binary(op: BinOp, a: int, b: int) -> Option<int> {
    match op {
        BinOp::Add => Some(a + b),
        BinOp::Sub => Some(a - b),
        BinOp::Mul => Some(a * b),
        BinOp::Div => Some(a / b),
        BinOp::Mod => Some(a % b),
        BinOp::Eq => Some(truth(a == b)),
        BinOp::Ne => Some(truth(a != b)),
        BinOp::Lt => Some(truth(a < b)),
        BinOp::Le => Some(truth(a <= b)),
        BinOp::Gt => Some(truth(a > b)),
        BinOp::Ge => Some(truth(a >= b)),
        BinOp::And => Some(truth(a != 0 && b != 0)),
        BinOp::Or => Some(truth(a != 0 || b != 0)),
        BinOp::Concat => None,
    }
}

/// What a binary operator of the target computes on numbers.
pub open spec fn target_binary(op: BinaryOp, a: int, b: int) -> int {
    match op {
        BinaryOp::Add => a + b,
        BinaryOp::Sub => a - b,
        BinaryOp::Mul => a * b,
        BinaryOp::Div => a / b,
        BinaryOp::Mod => a % b,
        BinaryOp::Eq => truth(a == b),
        BinaryOp::Neq => truth(a != b),
        BinaryOp::Lt => truth(a < b),
        BinaryOp::Lte => truth(a <= b),
        BinaryOp::Gt => truth(a > b),
        BinaryOp::Gte => truth(a >= b),
        BinaryOp::And => truth(a != 0 && b != 0),
        BinaryOp::Or => truth(a != 0 || b != 0),
    }
}

/// What a unary operator of the source computes on numbers.
pub open spec fn source_unary(op: UnOp, a: int) -> Option<int> {
    match op {
        UnOp::Neg => Some(-a),
        UnOp::Not => Some(truth(a == 0)),
        UnOp::Deref => None,
    }
}

/// What a unary operator of the target computes on numbers.
pub open spec fn target_unary(op: UnaryOp, a: int) -> int {
    match op {
        UnaryOp::Neg => -a,
        UnaryOp::Not => truth(a == 0),
    }
}

/// The operators of the target compute what those of the source compute.
pub proof fn operators_compute_alike(bin: BinOp, un: UnOp, a: int, b: int)
    ensures
        source_binary(bin, a, b) matches Some(v) ==> target_binary(cir_lower::binop_of(bin), a, b)
            == v,
        source_unary(un, a) matches Some(v) ==> target_unary(cir_lower::unop_of(un), a) == v,
{
}

/// What an operand of the target holds.
pub open spec fn operand(e: CirExpr, vars: spec_fn(VarId) -> int) -> Option<int> {
    match e {
        CirExpr::Var(v) => Some(vars(v)),
        _ => None,
    }
}

/// What operands of the target hold, as far as they are variables.
pub open spec fn operands(es: Seq<CirExpr>, vars: spec_fn(VarId) -> int) -> Seq<Option<int>> {
    Seq::new(es.len(), |i: int| operand(es[i], vars))
}

/// The operand values of locals.
pub open spec fn held(ls: Seq<LocalId>, st: spec_fn(LocalId) -> int) -> Seq<Option<int>> {
    Seq::new(ls.len(), |i: int| Some(st(ls[i])))
}

/// The unsigned number with the same 64 bits.
pub open spec fn bits(v: i64) -> int {
    if v < 0 {
        v + 0x1_0000_0000_0000_0000
    } else {
        v as int
    }
}

proof fn vars_hold_locals(
    ls: Seq<LocalId>,
    st: spec_fn(LocalId) -> int,
    vars: spec_fn(VarId) -> int,
    pc: u32,
)
    requires
        same_store(st, vars, pc),
    ensures
        operands(cir_lower::vars_of(ls, pc), vars) == held(ls, st),
{
    assert forall|i: int| 0 <= i < ls.len() implies vars(cir_lower::var_of(ls[i], pc)) == st(
        #[trigger] ls[i],
    ) by {
        var_holds_local(st, vars, pc, ls[i]);
    }
    assert(operands(cir_lower::vars_of(ls, pc), vars) =~= held(ls, st));
}

/// What a computation of the target gives on numbers, where it works on
/// variables alone.
pub open spec fn target_number(e: CirExpr, vars: spec_fn(VarId) -> int) -> Option<int> {
    match e {
        CirExpr::Var(v) => Some(vars(v)),
        CirExpr::BinaryOp { op, lhs, rhs } => match (operand(*lhs, vars), operand(*rhs, vars)) {
            (Some(a), Some(b)) => Some(target_binary(op, a, b)),
            _ => None,
        },
        CirExpr::UnaryOp { op, operand: e } => match operand(*e, vars) {
            Some(a) => Some(target_unary(op, a)),
            None => None,
        },
        _ => None,
    }
}

/// What a computation of the source gives on numbers.
pub open spec fn source_number(op: RValue, st: spec_fn(LocalId) -> int) -> Option<int> {
    match op {
        RValue::Load(l) => Some(st(l)),
        RValue::Binary(bin, a, b) => source_binary(bin, st(a), st(b)),
        RValue::Unary(un, a) => source_unary(un, st(a)),
        _ => None,
    }
}

/// Lowering keeps computations: a lowered computation on numbers gives the same
/// number, a lowered constant is the constant, a lowered call calls the same
/// function with the same arguments behind the imported ones, and array accesses
/// go to the same array and index.
pub proof fn lowered_values_compute_alike(
    op: RValue,
    pc: u32,
    e: CirExpr,
    st: spec_fn(LocalId) -> int,
    vars: spec_fn(VarId) -> int,
)
    requires
        cir_lower::is_value(op, pc, e),
        same_store(st, vars, pc),
    ensures
        source_number(op, st) matches Some(v) ==> target_number(e, vars) == Some(v),
        op matches RValue::Const(Constant::Int(n)) ==> (e matches CirExpr::ConstI64(v)
            && value_layout::tag_of(bits(v) as u64) == TAG_INT && value_layout::int_of(
            bits(v) as u64,
        ) % 0x1_0000_0000_0000 == n as int % 0x1_0000_0000_0000),
        op matches RValue::Const(Constant::Float(f)) ==> e == CirExpr::ConstF64(f),
        op matches RValue::Const(Constant::Bool(b)) ==> e == CirExpr::ConstBool(b),
        op matches RValue::Const(Constant::Nil) ==> e == CirExpr::ConstNil,
        op matches RValue::Const(Constant::Unit) ==> e == CirExpr::ConstUnit,
        op matches RValue::Const(Constant::String(s)) ==> (e matches CirExpr::ConstString(t) && t@
            == s@),
        op matches RValue::Call { func: FuncRef::Index(n), args } ==> (e matches CirExpr::Call {
            func_idx,
            args: out,
        } && operands(out@, vars) == held(args@, st) && (n < 0xffff_0000 ==> func_idx - n
            == WASM_FUNC_IMPORT_COUNT && func_idx > IMPORT_IO_PRINT && func_idx > IMPORT_IO_READ)),
        op matches RValue::ArrayLen(arr) ==> (e matches CirExpr::ArrayLen { arr: a } && operand(
            *a,
            vars,
        ) == Some(st(arr))),
        op matches RValue::ArrayLoad { arr, idx } ==> (e matches CirExpr::ArrayLoad {
            arr: a,
            idx: i,
        } && operand(*a, vars) == Some(st(arr)) && operand(*i, vars) == Some(st(idx))),
{
    match op {
        RValue::Load(l) => var_holds_local(st, vars, pc, l),
        RValue::Binary(bin, a, b) => {
            var_holds_local(st, vars, pc, a);
            var_holds_local(st, vars, pc, b);
        },
        RValue::Unary(un, a) => {
            var_holds_local(st, vars, pc, a);
        },
        RValue::Call { func: FuncRef::Index(n), args } => {
            vars_hold_locals(args@, st, vars, pc);
        },
        RValue::ArrayLen(arr) => var_holds_local(st, vars, pc, arr),
        RValue::ArrayLoad { arr, idx } => {
            var_holds_local(st, vars, pc, arr);
            var_holds_local(st, vars, pc, idx);
        },
        RValue::Const(Constant::Int(n)) => {
            let w = value_layout::int_value(n as int);
            assert(bits(cir_lower::signed(w)) == w);
        },
        _ => {},
    }
}

// ---------------------------------------------------------------------------
// Statements and requests
// ---------------------------------------------------------------------------

/// The variables after a statement of the target that assigns `v`.
pub open spec fn after_assign(
    vars: spec_fn(VarId) -> int,
    dst: VarId,
    v: int,
) -> spec_fn(VarId) -> int {
    |x: VarId| if x == dst { v } else { vars(x) }
}

/// Lowering keeps assignments: a computation that gives one result is assigned
/// to the variable of its destination, and when both sides got the same result
/// the stores are the same again.
pub proof fn lowered_assignments_keep_the_store(
    dst: LocalId,
    op: RValue,
    pc: u32,
    out: CirStmt,
    st: spec_fn(LocalId) -> int,
    vars: spec_fn(VarId) -> int,
    v: int,
)
    requires
        cir_lower::is_stmt(Stmt::Assign { dst, op }, pc, out),
        !cir_lower::suspends(op),
        !(op is Send) && !(op is Perform),
        same_store(st, vars, pc),
    ensures
        out matches CirStmt::Assign { dst: d, src } && cir_lower::is_value(op, pc, src)
            && same_store(
            mir_meaning::after_stmt(Stmt::Assign { dst, op }, st, |i: int| v),
            after_assign(vars, d, v),
            pc,
        ),
{
    if let CirStmt::Assign { dst: d, src } = out {
        let s = mir_meaning::after_stmt(Stmt::Assign { dst, op }, st, |i: int| v);
        let t = after_assign(vars, d, v);
        variables_do_not_collide(dst, dst, pc);
        assert forall|l: LocalId, x: VarId|
            (x.0 - l.0 - pc) % 0x1_0000_0000 == 0 implies #[trigger] t(x) == #[trigger] s(l) by {
            assert((x == d) <==> (l == dst));
            assert(vars(x) == st(l));
        }
    }
}

/// Lowering keeps what goes out: a message goes to the same actor with the same
/// arguments, an event under its name with its arguments, a state field with its
/// value.
pub proof fn lowered_statements_send_alike(
    stmt: Stmt,
    pc: u32,
    out: CirStmt,
    st: spec_fn(LocalId) -> int,
    vars: spec_fn(VarId) -> int,
)
    requires
        cir_lower::is_stmt(stmt, pc, out),
        same_store(st, vars, pc),
    ensures
        stmt matches Stmt::Assign { op: RValue::Send { actor, args, .. }, .. } ==> (
        out matches CirStmt::Emit { effect: EffectKind::ActorSend, args: sent } && operands(
            sent@,
            vars,
        ) == seq![Some(st(actor))] + held(args@, st)),
        stmt matches Stmt::Emit { event, args } ==> (out matches CirStmt::Emit {
            effect: EffectKind::HostEffect { module, name },
            args: sent,
        } && module@ == "Event"@ && name@ == event@ && operands(sent@, vars) == held(args@, st)),
        stmt matches Stmt::StateSet { src, .. } ==> (out matches CirStmt::Emit {
            effect: EffectKind::HostEffect { module, name },
            args: sent,
        } && module@ == "Actor"@ && name@ == "state_set"@ && operands(sent@, vars) == seq![
            Some(st(src)),
        ]),
        stmt matches Stmt::Assign { dst, op: RValue::Perform { effect, op, args, .. } } ==> (
        effect@ == "IO"@ && (op@ == "print"@ || op@ == "println"@) ==> (
        out matches CirStmt::Assign { dst: d, src: CirExpr::Call { func_idx, args: sent } } && d
            == cir_lower::var_of(dst, pc) && func_idx == IMPORT_IO_PRINT && operands(sent@, vars)
            == held(args@, st))),
        stmt matches Stmt::Assign { dst, op: RValue::Perform { effect, op, args, .. } } ==> (
        effect@ == "Array"@ && op@ == "length"@ && args@.len() > 0 ==> (
        out matches CirStmt::Assign { dst: d, src: CirExpr::ArrayLen { arr } } && d
            == cir_lower::var_of(dst, pc) && operand(*arr, vars) == Some(st(args@[0])))),
        stmt matches Stmt::Assign { dst, op: RValue::Perform { effect, op, .. } } ==> (effect@
            == "IO"@ && op@ == "read"@ ==> (out matches CirStmt::Assign {
            dst: d,
            src: CirExpr::Call { func_idx, args: sent },
        } && d == cir_lower::var_of(dst, pc) && func_idx == IMPORT_IO_READ && func_idx
            != IMPORT_IO_PRINT && sent@.len() == 0)),
{
    reveal_strlit("IO");
    reveal_strlit("LLM");
    reveal_strlit("Array");
    reveal_strlit("print");
    reveal_strlit("println");
    reveal_strlit("read");
    assert("IO"@.len() != "Array"@.len());
    assert("IO"@.len() != "LLM"@.len());
    assert("LLM"@.len() != "Array"@.len());
    assert("read"@.len() != "print"@.len());
    assert("read"@.len() != "println"@.len());
    match stmt {
        Stmt::Assign { op: RValue::Send { actor, args, .. }, .. } => {
            var_holds_local(st, vars, pc, actor);
            vars_hold_locals(args@, st, vars, pc);
            let first = seq![CirExpr::Var(cir_lower::var_of(actor, pc))];
            assert(operands(first + cir_lower::vars_of(args@, pc), vars) =~= seq![Some(st(actor))]
                + operands(cir_lower::vars_of(args@, pc), vars));
        },
        Stmt::Emit { args, .. } => vars_hold_locals(args@, st, vars, pc),
        Stmt::StateSet { src, .. } => {
            var_holds_local(st, vars, pc, src);
            assert(operands(seq![CirExpr::Var(cir_lower::var_of(src, pc))], vars) =~= seq![
                Some(st(src)),
            ]);
        },
        Stmt::Assign { op: RValue::Perform { args, .. }, .. } => {
            vars_hold_locals(args@, st, vars, pc);
            if args@.len() > 0 {
                var_holds_local(st, vars, pc, args@[0]);
            }
        },
        _ => {},
    }
}

/// Lowering keeps what a suspension asks for: the kind of the request tells the
/// operation, and its arguments are the operands, behind a name or a parameter
/// count where the operation has one.
pub proof fn lowered_suspensions_ask_alike(
    op: RValue,
    pc: u32,
    effect: EffectKind,
    args: Seq<CirExpr>,
    st: spec_fn(LocalId) -> int,
    vars: spec_fn(VarId) -> int,
)
    requires
        cir_lower::suspends(op),
        cir_lower::is_request(op, pc, effect, args),
        same_store(st, vars, pc),
    ensures
        effect is LlmAsk <==> op is Perform,
        effect is SignalWait <==> op is SignalWait,
        effect is MailboxDequeue <==> op is ReceiveWait || op is ReceiveMatch,
        effect is PerformAsync <==> op is PerformAsync,
        op matches RValue::Perform { args: a, .. } ==> operands(args, vars) == held(a@, st),
        op matches RValue::SignalWait { name } ==> args.len() == 1 && (
        args[0] matches CirExpr::ConstString(s) && s@ == name@),
        op matches RValue::ReceiveWait { timeout, max_params, .. } ==> args.len() == 2 && args[0]
            == CirExpr::ConstI64(max_params as i64) && operand(args[1], vars) == Some(st(timeout)),
        op matches RValue::ReceiveMatch { max_params, .. } ==> args.len() == 1 && args[0]
            == CirExpr::ConstI64(max_params as i64),
        op matches RValue::PerformAsync { effect_op, args: a } ==> args.len() > 0 && (
        args[0] matches CirExpr::ConstString(s) && s@ == effect_op@) && operands(
            args.skip(1),
            vars,
        ) == held(a@, st),
{
    match op {
        RValue::Perform { args: a, .. } => vars_hold_locals(a@, st, vars, pc),
        RValue::ReceiveWait { timeout, .. } => var_holds_local(st, vars, pc, timeout),
        RValue::PerformAsync { args: a, .. } => vars_hold_locals(a@, st, vars, pc),
        _ => {},
    }
}

/// Whether statement `i` of block `b` stands in piece `k`: among its statements,
/// or as the suspension at its end, whose result goes to the variable of the
/// destination and after which the next piece runs.
pub open spec fn stands_in(func: Function, out: CirFunction, b: int, i: int, k: nat) -> bool {
    let stmts = func.blocks@[b].stmts@;
    let from = cir_lower::piece_start(stmts, k);
    let piece = out.blocks@[cir_lower::piece_id(func, b, k) as int];
    &&& k <= cir_lower::cuts_from(stmts, 0)
    &&& from <= i
    &&& if i < from + piece.stmts@.len() {
        cir_lower::is_stmt(stmts[i], cir_lower::fixed_count(func), piece.stmts@[i - from])
            && !cir_lower::stops(stmts[i])
    } else {
        &&& i == from + piece.stmts@.len()
        &&& cir_lower::stops(stmts[i])
        &&& stmts[i] matches Stmt::Assign { dst, op }
        &&& piece.terminator matches CirTerminator::SuspendAndYield {
            effect,
            args,
            resume_block,
            resume_var,
            ..
        }
        &&& cir_lower::is_request(op, cir_lower::fixed_count(func), effect, args@)
        &&& (resume_var.0 - dst.0 - cir_lower::fixed_count(func)) % 0x1_0000_0000 == 0
        &&& resume_block.0 == cir_lower::piece_id(func, b, k + 1)
    }
}

proof fn no_stop_before(stmts: Seq<Stmt>, from: int, i: int)
    requires
        0 <= from <= i < cir_lower::stop_from(stmts, from),
    ensures
        i < stmts.len() ==> !cir_lower::stops(stmts[i]),
    decreases stmts.len() - from,
{
    if from < stmts.len() && from < i && !cir_lower::stops(stmts[from]) {
        no_stop_before(stmts, from + 1, i);
    }
}

proof fn statement_has_a_piece(
    func: Function,
    out: CirFunction,
    b: int,
    i: int,
    k: nat,
) -> (r: nat)
    requires
        cir_lower::lowerable(func),
        cir_lower::is_lowered(func, out),
        0 <= b < func.blocks@.len(),
        0 <= i < func.blocks@[b].stmts@.len(),
        k <= cir_lower::cuts_from(func.blocks@[b].stmts@, 0),
        cir_lower::piece_start(func.blocks@[b].stmts@, k) <= i,
    ensures
        stands_in(func, out, b, i, r),
    decreases func.blocks@[b].stmts@.len() - cir_lower::piece_start(func.blocks@[b].stmts@, k),
{
    let stmts = func.blocks@[b].stmts@;
    let from = cir_lower::piece_start(stmts, k);
    cir_lower::piece_facts(stmts, k);
    cir_lower::stop_facts(stmts, from);
    let end = cir_lower::stop_from(stmts, from);
    assert(cir_lower::placed_piece(func, b, k, out.blocks@));
    let piece = out.blocks@[cir_lower::piece_id(func, b, k) as int];
    if i < end {
        no_stop_before(stmts, from, i);
        assert(cir_lower::is_stmt(
            stmts[from + (i - from)],
            cir_lower::fixed_count(func),
            piece.stmts@[i - from],
        ));
        k
    } else if i == end {
        if let Stmt::Assign { dst, .. } = stmts[i] {
            variables_do_not_collide(dst, dst, cir_lower::fixed_count(func));
        }
        k
    } else {
        assert(cir_lower::piece_start(stmts, k + 1) == end + 1);
        statement_has_a_piece(func, out, b, i, k + 1)
    }
}

/// No statement is lost in the cutting of blocks: each stands in one of the
/// pieces of its block.
pub proof fn every_statement_is_lowered(func: Function, out: CirFunction, b: int, i: int)
    requires
        cir_lower::lowerable(func),
        cir_lower::is_lowered(func, out),
        0 <= b < func.blocks@.len(),
        0 <= i < func.blocks@[b].stmts@.len(),
    ensures
        exists|k: nat| #[trigger] stands_in(func, out, b, i, k),
{
    cir_lower::piece_facts(func.blocks@[b].stmts@, 0);
    let k = statement_has_a_piece(func, out, b, i, 0);
    assert(stands_in(func, out, b, i, k));
}

/// A cut block goes on behind the cut: the piece that asks the host names the
/// piece to resume at, which begins with the next statement, and the variable of
/// the awaited local.
pub proof fn suspended_pieces_resume_behind_the_cut(
    func: Function,
    out: CirFunction,
    b: int,
    k: nat,
)
    requires
        cir_lower::lowerable(func),
        cir_lower::is_lowered(func, out),
        0 <= b < func.blocks@.len(),
        k < cir_lower::cuts_from(func.blocks@[b].stmts@, 0),
    ensures
        ({
            let stmts = func.blocks@[b].stmts@;
            let at = cir_lower::stop_from(stmts, cir_lower::piece_start(stmts, k));
            let piece = out.blocks@[cir_lower::piece_id(func, b, k) as int];
            &&& 0 <= at < stmts.len()
            &&& stmts[at] matches Stmt::Assign { dst, .. }
            &&& piece.terminator matches CirTerminator::SuspendAndYield {
                resume_block,
                resume_var,
                ..
            }
            &&& (resume_var.0 - dst.0 - cir_lower::fixed_count(func)) % 0x1_0000_0000 == 0
            &&& resume_block.0 < out.blocks@.len()
            &&& cir_lower::is_part(
                func.blocks@[b],
                cir_lower::fixed_count(func),
                at + 1,
                resume_block.0 as nat,
                cir_lower::piece_id(func, b, k + 2),
                out.blocks@[resume_block.0 as int],
            )
        }),
{
    let stmts = func.blocks@[b].stmts@;
    assert(cir_lower::placed_piece(func, b, k, out.blocks@));
    assert(cir_lower::placed_piece(func, b, k + 1, out.blocks@));
    cir_lower::piece_facts(stmts, k);
    cir_lower::piece_facts(stmts, k + 1);
    cir_lower::stop_facts(stmts, cir_lower::piece_start(stmts, k));
}

proof fn largest_local(locals: Seq<Local>, n: nat, i: int)
    requires
        0 <= i < n <= locals.len(),
    ensures
        locals[i].id.0 <= cir_lower::max_local(locals, n),
    decreases n,
{
    if i < n - 1 {
        largest_local(locals, (n - 1) as nat, i);
    }
}

/// Every local of a function has room among the variables of the lowered one, and
/// so do the reserved ones.
pub proof fn every_local_has_room(func: Function, i: int)
    requires
        0 <= i < func.locals@.len(),
        func.params@.len() + func.captures@.len() + cir_lower::max_local(
            func.locals@,
            func.locals@.len(),
        ) < u32::MAX,
    ensures
        cir_lower::var_of(func.locals@[i].id, cir_lower::fixed_count(func)).0
            < cir_lower::local_count(func),
        cir_lower::local_count(func) >= 253,
{
    largest_local(func.locals@, func.locals@.len(), i);
}

} // verus!
