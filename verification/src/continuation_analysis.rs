//! Continuations and suspensions: where a function can be left and resumed, and
//! which values have to be kept until then.
//!
//! The live values at the start of a block are the least solution of the usual
//! equations: what the block reads before it writes, and what its successors
//! need and it does not write.

use vstd::prelude::*;

use crate::cir_lower;
use crate::mir::{Block, BlockId, FuncRef, Function, LocalId, RValue, Stmt, Terminator};
use crate::text::str_eq;

verus! {

/// How the scheduler is given control.
#[derive(Debug, Clone, Copy, PartialEq, Eq, Structural)]
pub enum SchedulerSuspendKind {
    AsyncEffect,
    SignalWait,
    ReceiveWait,
    LlmAsk,
}

/// Why a continuation has to be kept at a statement.
#[derive(Debug, Clone, Copy, PartialEq, Eq, Structural)]
pub enum ContinuationKind {
    /// Control goes to the scheduler.
    Scheduler(SchedulerSuspendKind),
    /// A handler that is known may resume the operation, once or more often.
    ResumingEffect { handler_body: BlockId, single_shot: bool },
}

/// A place where a function can be left and resumed.
#[derive(Debug, Clone, PartialEq, Eq)]
pub struct ContinuationSite {
    pub block: BlockId,
    pub stmt_index: usize,
    pub kind: ContinuationKind,
    /// The locals that the operation defines on resumption: the destination, and
    /// for a selective receive the payload locals behind it.
    pub resume_defs: Vec<LocalId>,
    /// The values from before that are read afterwards before they are defined
    /// again, in ascending order.
    pub live_across: Vec<LocalId>,
}

/// The sites of a function in order.
#[derive(Debug, Clone, PartialEq, Eq)]
pub struct ContinuationAnalysis {
    pub sites: Vec<ContinuationSite>,
}

impl ContinuationAnalysis {
    /// Whether some site gives control to the scheduler.
    pub fn has_scheduler_suspension(&self) -> (r: bool)
        ensures
            r == exists|i: int|
                0 <= i < self.sites@.len() && (#[trigger] self.sites@[i]).kind is Scheduler,
    {
        let mut i: usize = 0;
        while i < self.sites.len()
            invariant
                i <= self.sites@.len(),
                forall|j: int| 0 <= j < i ==> !((#[trigger] self.sites@[j]).kind is Scheduler),
            decreases self.sites@.len() - i,
        {
            match self.sites[i].kind {
                ContinuationKind::Scheduler(_) => {
                    return true;
                },
                _ => {},
            }
            i = i + 1;
        }
        false
    }

    /// Whether some site is an effect that a handler may resume.
    pub fn has_resuming_effect(&self) -> (r: bool)
        ensures
            r == exists|i: int|
                0 <= i < self.sites@.len() && (#[trigger] self.sites@[i]).kind is ResumingEffect,
    {
        let mut i: usize = 0;
        while i < self.sites.len()
            invariant
                i <= self.sites@.len(),
                forall|j: int| 0 <= j < i ==> !((#[trigger] self.sites@[j]).kind is ResumingEffect),
            decreases self.sites@.len() - i,
        {
            match self.sites[i].kind {
                ContinuationKind::ResumingEffect { .. } => {
                    return true;
                },
                _ => {},
            }
            i = i + 1;
        }
        false
    }

    /// The first site at a statement.
    pub fn site(&self, block: BlockId, stmt_index: usize) -> (r: Option<&ContinuationSite>)
        ensures
            match r {
                Some(s) => exists|i: int|
                    #[trigger] first_site(self.sites@, block, stmt_index, i) && *s
                        == self.sites@[i],
                None => forall|i: int|
                    0 <= i < self.sites@.len() ==> !is_at(
                        #[trigger] self.sites@[i],
                        block,
                        stmt_index,
                    ),
            },
    {
        let mut i: usize = 0;
        while i < self.sites.len()
            invariant
                i <= self.sites@.len(),
                forall|j: int| 0 <= j < i ==> !is_at(#[trigger] self.sites@[j], block, stmt_index),
            decreases self.sites@.len() - i,
        {
            if self.sites[i].block == block && self.sites[i].stmt_index == stmt_index {
                assert(first_site(self.sites@, block, stmt_index, i as int));
                return Some(&self.sites[i]);
            }
            i = i + 1;
        }
        None
    }
}

/// Whether a site stands at a statement.
pub open spec fn is_at(s: ContinuationSite, block: BlockId, stmt_index: usize) -> bool {
    s.block == block && s.stmt_index == stmt_index
}

/// Whether site `i` is the first one at a statement.
pub open spec fn first_site(
    sites: Seq<ContinuationSite>,
    block: BlockId,
    stmt_index: usize,
    i: int,
) -> bool {
    &&& 0 <= i < sites.len()
    &&& is_at(sites[i], block, stmt_index)
    &&& forall|j: int| 0 <= j < i ==> !is_at(#[trigger] sites[j], block, stmt_index)
}

// ---------------------------------------------------------------------------
// Classification
// ---------------------------------------------------------------------------

/// How a value gives control to the scheduler, if it does. A selective receive
/// without a timeout only scans the mailbox and does not.
pub open spec fn scheduled(op: RValue) -> Option<SchedulerSuspendKind> {
    match op {
        RValue::Perform { effect, op, args, .. } => if effect@ == "LLM"@ && op@ == "ask"@
            && args@.len() > 0 {
            Some(SchedulerSuspendKind::LlmAsk)
        } else {
            None
        },
        RValue::PerformAsync { .. } => Some(SchedulerSuspendKind::AsyncEffect),
        RValue::SignalWait { .. } => Some(SchedulerSuspendKind::SignalWait),
        RValue::ReceiveWait { .. } => Some(SchedulerSuspendKind::ReceiveWait),
        _ => None,
    }
}

/// How a value gives control to the scheduler, see [`scheduled`].
pub fn scheduler_suspend_kind(op: &RValue) -> (r: Option<SchedulerSuspendKind>)
    ensures
        r == scheduled(*op),
{
    match op {
        RValue::Perform { effect, op, args, .. } => if str_eq(effect.as_str(), "LLM") && str_eq(
            op.as_str(),
            "ask",
        ) && args.len() > 0 {
            Some(SchedulerSuspendKind::LlmAsk)
        } else {
            None
        },
        RValue::PerformAsync { .. } => Some(SchedulerSuspendKind::AsyncEffect),
        RValue::SignalWait { .. } => Some(SchedulerSuspendKind::SignalWait),
        RValue::ReceiveWait { .. } => Some(SchedulerSuspendKind::ReceiveWait),
        _ => None,
    }
}

/// Why a continuation has to be kept at a value, if it has. Where the handler of
/// an effect is known, it decides: one that resumes makes a site, one that
/// aborts makes none.
pub open spec fn kept(func: Function, op: RValue) -> Option<ContinuationKind> {
    let plain = match scheduled(op) {
        Some(k) => Some(ContinuationKind::Scheduler(k)),
        None => None,
    };
    match op {
        RValue::Perform { resolved_handler: Some(href), .. } => {
            let tables = func.handler_tables@;
            if href.table_index < tables.len() && href.binding_index
                < tables[href.table_index as int].bindings@.len() {
                let binding = tables[href.table_index as int].bindings@[href.binding_index as int];
                if binding.resume {
                    Some(
                        ContinuationKind::ResumingEffect {
                            handler_body: binding.body,
                            single_shot: binding.single_shot,
                        },
                    )
                } else {
                    None
                }
            } else {
                plain
            }
        },
        _ => plain,
    }
}

/// Why a continuation has to be kept at a value, see [`kept`].
pub fn continuation_kind(func: &Function, op: &RValue) -> (r: Option<ContinuationKind>)
    ensures
        r == kept(*func, *op),
{
    match op {
        RValue::Perform { resolved_handler, .. } => match resolved_handler {
            Some(href) => {
                let t: usize = href.table_index as usize;
                let b: usize = href.binding_index as usize;
                if t < func.handler_tables.len() && b < func.handler_tables[t].bindings.len() {
                    let binding = &func.handler_tables[t].bindings[b];
                    if binding.resume {
                        return Some(
                            ContinuationKind::ResumingEffect {
                                handler_body: binding.body,
                                single_shot: binding.single_shot,
                            },
                        );
                    }
                    return None;
                }
            },
            None => {},
        },
        _ => {},
    }
    match scheduler_suspend_kind(op) {
        Some(k) => Some(ContinuationKind::Scheduler(k)),
        None => None,
    }
}

// ---------------------------------------------------------------------------
// Reads and writes
// ---------------------------------------------------------------------------

/// The locals of named values.
pub open spec fn named_locals(v: Seq<(String, LocalId)>) -> Seq<LocalId> {
    v.map_values(|f: (String, LocalId)| f.1)
}

/// The locals that a value reads, in order.
pub open spec fn reads(op: RValue) -> Seq<LocalId>
    decreases op, 0nat,
{
    match op {
        RValue::Const(_) => Seq::empty(),
        RValue::Panic(_) => Seq::empty(),
        RValue::Load(l) => seq![l],
        RValue::LoadFieldNamed { obj, .. } => seq![obj],
        RValue::LoadFieldPos { obj, .. } => seq![obj],
        RValue::ArrayLoad { arr, idx } => seq![arr, idx],
        RValue::ArrayLen(arr) => seq![arr],
        RValue::ArrayLit(items) => items@,
        RValue::Tuple(items) => items@,
        RValue::Unary(_, l) => seq![l],
        RValue::Binary(_, a, b) => seq![a, b],
        RValue::StringEq(a, b) => seq![a, b],
        RValue::StrConcat(a, b) => seq![a, b],
        RValue::Call { func, args } => match func {
            FuncRef::Local(l) => seq![l] + args@,
            FuncRef::Index(_) => args@,
        },
        RValue::Closure { captures, .. } => captures@,
        RValue::Record(fields) => named_locals(fields@),
        RValue::RecordUpdate { base, overrides } => seq![base] + named_locals(overrides@),
        RValue::Perform { args, .. } => args@,
        RValue::PerformAsync { args, .. } => args@,
        RValue::FFICall { args, .. } => args@,
        RValue::SignalWait { .. } => Seq::empty(),
        RValue::Receive => Seq::empty(),
        RValue::ReceiveMatch { .. } => Seq::empty(),
        RValue::ReceiveCommit => Seq::empty(),
        RValue::SelfRef => Seq::empty(),
        RValue::StateGet { .. } => Seq::empty(),
        RValue::ReceiveWait { timeout, .. } => seq![timeout],
        RValue::Migrate { actor, node } => seq![actor, node],
        RValue::CapabilityCheck { val } => seq![val],
        RValue::Resume(val) => seq![val],
        RValue::Spawn { init, target_node, .. } => match target_node {
            Some(n) => seq![n] + init_reads(init@, init@.len()),
            None => init_reads(init@, init@.len()),
        },
        RValue::Send { actor, args, .. } => seq![actor] + args@,
        RValue::Ask { actor, args, .. } => seq![actor] + args@,
    }
}

/// The locals that the first `n` initial values read.
pub open spec fn init_reads(init: Seq<(String, RValue)>, n: nat) -> Seq<LocalId>
    decreases init, n,
{
    if n == 0 || n > init.len() {
        Seq::empty()
    } else {
        init_reads(init, (n - 1) as nat) + reads(init[n - 1].1)
    }
}

fn push_locals(out: &mut Vec<LocalId>, v: &Vec<LocalId>)
    ensures
        final(out)@ == old(out)@ + v@,
{
    let ghost start = out@;
    let mut i: usize = 0;
    assert(start + v@.take(0) =~= start);
    while i < v.len()
        invariant
            i <= v@.len(),
            out@ == start + v@.take(i as int),
        decreases v@.len() - i,
    {
        out.push(v[i]);
        i = i + 1;
        assert(out@ =~= start + v@.take(i as int));
    }
    assert(v@.take(v@.len() as int) =~= v@);
}

fn push_named(out: &mut Vec<LocalId>, v: &Vec<(String, LocalId)>)
    ensures
        final(out)@ == old(out)@ + named_locals(v@),
{
    let ghost start = out@;
    let ghost want = named_locals(v@);
    let mut i: usize = 0;
    assert(start + want.take(0) =~= start);
    while i < v.len()
        invariant
            want == named_locals(v@),
            i <= v@.len(),
            out@ == start + want.take(i as int),
        decreases v@.len() - i,
    {
        out.push(v[i].1);
        i = i + 1;
        assert(out@ =~= start + want.take(i as int));
    }
    assert(want.take(v@.len() as int) =~= want);
}

fn two(a: LocalId, b: LocalId) -> (r: Vec<LocalId>)
    ensures
        r@ == seq![a, b],
{
    let mut out: Vec<LocalId> = Vec::new();
    out.push(a);
    out.push(b);
    assert(out@ =~= seq![a, b]);
    out
}

fn one(a: LocalId) -> (r: Vec<LocalId>)
    ensures
        r@ == seq![a],
{
    let mut out: Vec<LocalId> = Vec::new();
    out.push(a);
    assert(out@ =~= seq![a]);
    out
}

fn one_and(a: LocalId, v: &Vec<LocalId>) -> (r: Vec<LocalId>)
    ensures
        r@ == seq![a] + v@,
{
    let mut out: Vec<LocalId> = one(a);
    push_locals(&mut out, v);
    out
}

fn all_of(v: &Vec<LocalId>) -> (r: Vec<LocalId>)
    ensures
        r@ == v@,
{
    let mut out: Vec<LocalId> = Vec::new();
    push_locals(&mut out, v);
    assert(out@ =~= v@);
    out
}

/// The locals that a value reads, see [`reads`].
pub fn rvalue_uses(op: &RValue) -> (r: Vec<LocalId>)
    ensures
        r@ == reads(*op),
    decreases op,
{
    match op {
        RValue::Const(_) => Vec::new(),
        RValue::Panic(_) => Vec::new(),
        RValue::Load(l) => one(*l),
        RValue::LoadFieldNamed { obj, .. } => one(*obj),
        RValue::LoadFieldPos { obj, .. } => one(*obj),
        RValue::ArrayLoad { arr, idx } => two(*arr, *idx),
        RValue::ArrayLen(arr) => one(*arr),
        RValue::ArrayLit(items) => all_of(items),
        RValue::Tuple(items) => all_of(items),
        RValue::Unary(_, l) => one(*l),
        RValue::Binary(_, a, b) => two(*a, *b),
        RValue::StringEq(a, b) => two(*a, *b),
        RValue::StrConcat(a, b) => two(*a, *b),
        RValue::Call { func, args } => match func {
            FuncRef::Local(l) => one_and(*l, args),
            FuncRef::Index(_) => all_of(args),
        },
        RValue::Closure { captures, .. } => all_of(captures),
        RValue::Record(fields) => {
            let mut out: Vec<LocalId> = Vec::new();
            push_named(&mut out, fields);
            assert(out@ =~= named_locals(fields@));
            out
        },
        RValue::RecordUpdate { base, overrides } => {
            let mut out: Vec<LocalId> = one(*base);
            push_named(&mut out, overrides);
            out
        },
        RValue::Perform { args, .. } => all_of(args),
        RValue::PerformAsync { args, .. } => all_of(args),
        RValue::FFICall { args, .. } => all_of(args),
        RValue::SignalWait { .. } => Vec::new(),
        RValue::Receive => Vec::new(),
        RValue::ReceiveMatch { .. } => Vec::new(),
        RValue::ReceiveCommit => Vec::new(),
        RValue::SelfRef => Vec::new(),
        RValue::StateGet { .. } => Vec::new(),
        RValue::ReceiveWait { timeout, .. } => one(*timeout),
        RValue::Migrate { actor, node } => two(*actor, *node),
        RValue::CapabilityCheck { val } => one(*val),
        RValue::Resume(val) => one(*val),
        RValue::Spawn { init, target_node, .. } => {
            let mut out: Vec<LocalId> = match target_node {
                Some(n) => one(*n),
                None => Vec::new(),
            };
            let ghost start = out@;
            let mut i: usize = 0;
            assert(start + init_reads(init@, 0) =~= start);
            while i < init.len()
                invariant
                    *op matches RValue::Spawn { init: v, .. } && v == *init,
                    i <= init@.len(),
                    out@ == start + init_reads(init@, i as nat),
                decreases init@.len() - i,
            {
                assert(decreases_to!(op => init@[i as int].1));
                let inner: Vec<LocalId> = rvalue_uses(&init[i].1);
                push_locals(&mut out, &inner);
                i = i + 1;
                assert(out@ =~= start + init_reads(init@, i as nat));
            }
            assert(Seq::<LocalId>::empty() + init_reads(init@, init@.len()) =~= init_reads(
                init@,
                init@.len(),
            ));
            out
        },
        RValue::Send { actor, args, .. } => one_and(*actor, args),
        RValue::Ask { actor, args, .. } => one_and(*actor, args),
    }
}

/// The number of payload locals behind the destination.
pub open spec fn payload(op: RValue) -> nat {
    match op {
        RValue::ReceiveMatch { max_params, .. } => max_params as nat,
        RValue::ReceiveWait { max_params, .. } => max_params as nat,
        _ => 0,
    }
}

/// The locals that an assignment defines: the destination and, for a selective
/// receive, the payload locals behind it.
pub open spec fn writes(dst: LocalId, op: RValue) -> Seq<LocalId> {
    Seq::new(payload(op) + 1, |i: int| LocalId((dst.0 + i) as u32))
}

/// The locals that an assignment defines, see [`writes`].
pub fn assignment_defs(dst: LocalId, op: &RValue) -> (r: Vec<LocalId>)
    requires
        dst.0 + payload(*op) <= u32::MAX,
    ensures
        r@ == writes(dst, *op),
{
    let extra: u32 = match op {
        RValue::ReceiveMatch { max_params, .. } => *max_params as u32,
        RValue::ReceiveWait { max_params, .. } => *max_params as u32,
        _ => 0,
    };
    let ghost want = writes(dst, *op);
    let mut out: Vec<LocalId> = Vec::new();
    let mut i: u32 = 0;
    while i <= extra
        invariant
            extra == payload(*op),
            extra <= 255,
            dst.0 + extra <= u32::MAX,
            want == writes(dst, *op),
            i <= extra + 1,
            out@ == want.take(i as int),
        decreases extra + 1 - i,
    {
        out.push(LocalId(dst.0 + i));
        i = i + 1;
        assert(out@ =~= want.take(i as int));
    }
    assert(want.take(extra + 1) =~= want);
    out
}

/// Whether the payload locals of every receive can be numbered.
pub open spec fn numberable(func: Function) -> bool {
    forall|b: int, i: int|
        0 <= b < func.blocks@.len() && 0 <= i < func.blocks@[b].stmts@.len() ==> stmt_numberable(
            #[trigger] func.blocks@[b].stmts@[i],
        )
}

/// Whether the payload locals of a statement can be numbered.
pub open spec fn stmt_numberable(stmt: Stmt) -> bool {
    match stmt {
        Stmt::Assign { dst, op } => dst.0 + payload(op) <= u32::MAX,
        _ => true,
    }
}

/// The locals that a statement reads.
pub open spec fn stmt_reads(stmt: Stmt) -> Seq<LocalId> {
    match stmt {
        Stmt::Assign { op, .. } => reads(op),
        Stmt::StoreFieldNamed { obj, src, .. } => seq![obj, src],
        Stmt::ArrayStore { arr, idx, src } => seq![arr, idx, src],
        Stmt::Emit { args, .. } => args@,
        Stmt::StateSet { src, .. } => seq![src],
        _ => Seq::empty(),
    }
}

/// The locals that a statement defines.
pub open spec fn stmt_writes(stmt: Stmt) -> Seq<LocalId> {
    match stmt {
        Stmt::Assign { dst, op } => writes(dst, op),
        _ => Seq::empty(),
    }
}

/// The locals that a terminator reads.
pub open spec fn end_reads(term: Terminator) -> Seq<LocalId> {
    match term {
        Terminator::Return(Some(l)) => seq![l],
        Terminator::Resume(l) => seq![l],
        Terminator::Branch { cond, .. } => seq![cond],
        _ => Seq::empty(),
    }
}

fn stmt_uses(stmt: &Stmt) -> (r: Vec<LocalId>)
    ensures
        r@ == stmt_reads(*stmt),
{
    match stmt {
        Stmt::Assign { op, .. } => rvalue_uses(op),
        Stmt::StoreFieldNamed { obj, src, .. } => two(*obj, *src),
        Stmt::ArrayStore { arr, idx, src } => {
            let mut out: Vec<LocalId> = two(*arr, *idx);
            out.push(*src);
            assert(out@ =~= seq![*arr, *idx, *src]);
            out
        },
        Stmt::Emit { args, .. } => all_of(args),
        Stmt::StateSet { src, .. } => one(*src),
        _ => Vec::new(),
    }
}

fn stmt_defs(stmt: &Stmt) -> (r: Vec<LocalId>)
    requires
        stmt_numberable(*stmt),
    ensures
        r@ == stmt_writes(*stmt),
{
    match stmt {
        Stmt::Assign { dst, op } => assignment_defs(*dst, op),
        _ => Vec::new(),
    }
}

fn terminator_uses(term: &Terminator) -> (r: Vec<LocalId>)
    ensures
        r@ == end_reads(*term),
{
    match term {
        Terminator::Return(o) => match o {
            Some(l) => one(*l),
            None => Vec::new(),
        },
        Terminator::Resume(l) => one(*l),
        Terminator::Branch { cond, .. } => one(*cond),
        _ => Vec::new(),
    }
}

// ---------------------------------------------------------------------------
// Liveness
// ---------------------------------------------------------------------------

/// Whether the statements from `from` on, and the terminator, read `x` before a
/// statement defines it.
pub open spec fn upward(block: Block, from: int, x: LocalId) -> bool
    decreases block.stmts@.len() - from,
{
    if from < 0 || from >= block.stmts@.len() {
        end_reads(block.terminator).contains(x)
    } else {
        stmt_reads(block.stmts@[from]).contains(x) || (!stmt_writes(block.stmts@[from]).contains(x)
            && upward(block, from + 1, x))
    }
}

/// Whether a statement from `from` on defines `x`.
pub open spec fn defined_from(block: Block, from: int, x: LocalId) -> bool
    decreases block.stmts@.len() - from,
{
    if from < 0 || from >= block.stmts@.len() {
        false
    } else {
        stmt_writes(block.stmts@[from]).contains(x) || defined_from(block, from + 1, x)
    }
}

/// The block that a number stands for among the first `n`: the last one that
/// has it.
pub open spec fn owner(func: Function, id: BlockId, n: nat) -> Option<int>
    decreases n,
{
    if n == 0 || n > func.blocks@.len() {
        None
    } else if func.blocks@[n - 1].id == id {
        Some(n - 1)
    } else {
        owner(func, id, (n - 1) as nat)
    }
}

/// The block that a number stands for.
pub open spec fn block_of(func: Function, id: BlockId) -> Option<int> {
    owner(func, id, func.blocks@.len())
}

/// The numbers of the blocks that may follow a block.
pub open spec fn targets(term: Terminator) -> Seq<BlockId> {
    match term {
        Terminator::Jump(t) => seq![t],
        Terminator::Branch { then_, else_, .. } => seq![then_, else_],
        _ => Seq::empty(),
    }
}

/// Whether `x` is needed at the start of block `b` by a path of at most `n`
/// blocks.
pub open spec fn live_within(func: Function, n: nat, b: int, x: LocalId) -> bool
    decreases n, 0nat,
{
    if n == 0 || b < 0 || b >= func.blocks@.len() {
        false
    } else {
        upward(func.blocks@[b], 0, x) || (!defined_from(func.blocks@[b], 0, x) && exists|t: int|
            0 <= t < targets(func.blocks@[b].terminator).len() && follows_live(
                func,
                (n - 1) as nat,
                #[trigger] targets(func.blocks@[b].terminator)[t],
                x,
            ))
    }
}

/// Whether `x` is needed within `n` blocks from the block of a number on.
pub open spec fn follows_live(func: Function, n: nat, id: BlockId, x: LocalId) -> bool
    decreases n, 1nat,
{
    match block_of(func, id) {
        Some(c) => live_within(func, n, c, x),
        None => false,
    }
}

/// Whether `x` is live at the start of block `b`: some path reads it before it
/// is defined.
pub open spec fn live_in(func: Function, b: int, x: LocalId) -> bool {
    exists|n: nat| #[trigger] live_within(func, n, b, x)
}

/// Whether `x` is live at the start of the block of a number.
pub open spec fn live_at(func: Function, id: BlockId, x: LocalId) -> bool {
    match block_of(func, id) {
        Some(c) => live_in(func, c, x),
        None => false,
    }
}

/// Whether `x` is live where block `b` ends: some block that may follow needs it.
pub open spec fn live_out(func: Function, b: int, x: LocalId) -> bool {
    let ts = targets(func.blocks@[b].terminator);
    exists|t: int| 0 <= t < ts.len() && live_at(func, #[trigger] ts[t], x)
}

/// Whether `x` is live before statement `from` of block `b`, or at its end: what
/// follows in the block reads it first, or nothing there defines it and a block
/// that may follow needs it.
pub open spec fn live_tail(func: Function, b: int, from: int, x: LocalId) -> bool
    decreases func.blocks@[b].stmts@.len() - from,
{
    let block = func.blocks@[b];
    if from < 0 || from >= block.stmts@.len() {
        end_reads(block.terminator).contains(x) || (match block_of(func, block.id) {
            Some(c) => live_out(func, c, x),
            None => false,
        })
    } else {
        stmt_reads(block.stmts@[from]).contains(x) || (!stmt_writes(block.stmts@[from]).contains(x)
            && live_tail(func, b, from + 1, x))
    }
}

/// The last of the first `n` blocks that has a number and more than `j`
/// statements.
pub open spec fn owner_of_stmt(func: Function, id: BlockId, j: int, n: nat) -> Option<int>
    decreases n,
{
    if n == 0 || n > func.blocks@.len() {
        None
    } else if func.blocks@[n - 1].id == id && j < func.blocks@[n - 1].stmts@.len() {
        Some(n - 1)
    } else {
        owner_of_stmt(func, id, j, (n - 1) as nat)
    }
}

/// Whether `x` is live after statement `j` of the block of a number.
pub open spec fn live_after(func: Function, id: BlockId, j: int, x: LocalId) -> bool {
    match owner_of_stmt(func, id, j, func.blocks@.len()) {
        Some(o) => live_tail(func, o, j + 1, x),
        None => false,
    }
}

/// Strictly ascending locals.
pub open spec fn ascending(v: Seq<LocalId>) -> bool {
    forall|i: int, j: int| 0 <= i < j < v.len() ==> (#[trigger] v[i]).0 < (#[trigger] v[j]).0
}

/// Whether `s` is the site of statement `j` of block `b`.
pub open spec fn is_site(func: Function, b: int, j: int, s: ContinuationSite) -> bool {
    let id = func.blocks@[b].id;
    match func.blocks@[b].stmts@[j] {
        Stmt::Assign { dst, op } => {
            &&& s.block == id
            &&& s.stmt_index == j
            &&& kept(func, op) == Some(s.kind)
            &&& s.resume_defs@ == writes(dst, op)
            &&& ascending(s.live_across@)
            &&& forall|x: LocalId| #[trigger]
                s.live_across@.contains(x) <==> live_after(func, id, j, x) && !writes(
                    dst,
                    op,
                ).contains(x)
        },
        _ => false,
    }
}

/// Whether a statement makes a site.
pub open spec fn makes_site(func: Function, stmt: Stmt) -> bool {
    match stmt {
        Stmt::Assign { op, .. } => kept(func, op) is Some,
        _ => false,
    }
}

/// The places among the first `j` statements of block `b` that make a site.
pub open spec fn block_places(func: Function, b: int, j: nat) -> Seq<(int, int)>
    decreases j,
{
    if j == 0 || j > func.blocks@[b].stmts@.len() {
        Seq::empty()
    } else {
        let before = block_places(func, b, (j - 1) as nat);
        if makes_site(func, func.blocks@[b].stmts@[j - 1]) {
            before.push((b, j - 1))
        } else {
            before
        }
    }
}

/// The places in the first `b` blocks that make a site, in order.
pub open spec fn places(func: Function, b: nat) -> Seq<(int, int)>
    decreases b,
{
    if b == 0 || b > func.blocks@.len() {
        Seq::empty()
    } else {
        places(func, (b - 1) as nat) + block_places(
            func,
            b - 1,
            func.blocks@[b - 1].stmts@.len(),
        )
    }
}

/// Whether sites stand for places one by one.
pub open spec fn sites_at(func: Function, at: Seq<(int, int)>, sites: Seq<ContinuationSite>) -> bool {
    sites.len() == at.len() && forall|i: int|
        0 <= i < at.len() ==> is_site(func, (#[trigger] at[i]).0, at[i].1, sites[i])
}

// ---------------------------------------------------------------------------
// Computing live values
// ---------------------------------------------------------------------------

fn has_local(v: &Vec<LocalId>, x: LocalId) -> (r: bool)
    ensures
        r == v@.contains(x),
{
    let mut i: usize = 0;
    while i < v.len()
        invariant
            i <= v@.len(),
            forall|j: int| 0 <= j < i ==> v@[j] != x,
        decreases v@.len() - i,
    {
        if v[i] == x {
            return true;
        }
        i = i + 1;
    }
    false
}

fn insert_local(v: &mut Vec<LocalId>, x: LocalId)
    requires
        ascending(old(v)@),
    ensures
        ascending(final(v)@),
        final(v)@.contains(x),
        forall|y: LocalId| #[trigger] old(v)@.contains(y) ==> final(v)@.contains(y),
{
    let ghost before = v@;
    let mut i: usize = 0;
    while i < v.len() && v[i].0 < x.0
        invariant
            v@ == before,
            i <= v@.len(),
            forall|j: int| 0 <= j < i ==> (#[trigger] v@[j]).0 < x.0,
        decreases v@.len() - i,
    {
        i = i + 1;
    }
    if i < v.len() && v[i] == x {
        assert(v@[i as int] == x);
        return ;
    }
    v.insert(i, x);
    proof {
        assert(v@ == before.insert(i as int, x));
        assert(v@[i as int] == x);
        assert forall|y: LocalId| #[trigger] before.contains(y) implies v@.contains(y) by {
            let k = choose|k: int| 0 <= k < before.len() && before[k] == y;
            if k < i {
                assert(v@[k] == y);
            } else {
                assert(v@[k + 1] == y);
            }
        }
        assert(i < before.len() ==> before[i as int].0 > x.0);
        assert forall|a: int, b: int| 0 <= a < b < v@.len() implies (#[trigger] v@[a]).0 < (
        #[trigger] v@[b]).0 by {
            if a < i {
                assert(v@[a] == before[a]);
                if b > i {
                    assert(v@[b] == before[b - 1]);
                } else if b < i {
                    assert(v@[b] == before[b]);
                }
            } else if a == i {
                assert(v@[b] == before[b - 1]);
                if i < b - 1 {
                    assert(before[i as int].0 < before[b - 1].0);
                }
            } else {
                assert(v@[a] == before[a - 1]);
                assert(v@[b] == before[b - 1]);
            }
        }
    }
}

fn insert_locals(v: &mut Vec<LocalId>, xs: &Vec<LocalId>)
    requires
        ascending(old(v)@),
    ensures
        ascending(final(v)@),
        forall|y: LocalId| #[trigger] old(v)@.contains(y) ==> final(v)@.contains(y),
        forall|y: LocalId| #[trigger] xs@.contains(y) ==> final(v)@.contains(y),
{
    let ghost start = v@;
    let mut i: usize = 0;
    while i < xs.len()
        invariant
            i <= xs@.len(),
            ascending(v@),
            forall|y: LocalId| #[trigger] start.contains(y) ==> v@.contains(y),
            forall|j: int| 0 <= j < i ==> v@.contains(#[trigger] xs@[j]),
        decreases xs@.len() - i,
    {
        insert_local(v, xs[i]);
        i = i + 1;
    }
}

/// Whether every local that a block reads from statement `from` on is listed.
pub open spec fn lists_reads(block: Block, n: int, all: Seq<LocalId>) -> bool {
    forall|i: int, x: LocalId|
        0 <= i < n && #[trigger] stmt_reads(block.stmts@[i]).contains(x) ==> all.contains(x)
}

/// Whether every local that the first `n` blocks read is listed.
pub open spec fn lists_all(func: Function, n: int, all: Seq<LocalId>) -> bool {
    forall|b: int|
        0 <= b < n ==> lists_block(#[trigger] func.blocks@[b], all)
}

/// Whether every local that a block reads is listed.
pub open spec fn lists_block(block: Block, all: Seq<LocalId>) -> bool {
    lists_reads(block, block.stmts@.len() as int, all) && forall|x: LocalId| #[trigger]
        end_reads(block.terminator).contains(x) ==> all.contains(x)
}

fn list_locals(func: &Function) -> (r: Vec<LocalId>)
    ensures
        ascending(r@),
        lists_all(*func, func.blocks@.len() as int, r@),
{
    let mut all: Vec<LocalId> = Vec::new();
    let mut b: usize = 0;
    while b < func.blocks.len()
        invariant
            b <= func.blocks@.len(),
            ascending(all@),
            lists_all(*func, b as int, all@),
        decreases func.blocks@.len() - b,
    {
        let block: &Block = &func.blocks[b];
        let ghost before = all@;
        let mut i: usize = 0;
        while i < block.stmts.len()
            invariant
                i <= block.stmts@.len(),
                ascending(all@),
                forall|y: LocalId| #[trigger] before.contains(y) ==> all@.contains(y),
                lists_reads(*block, i as int, all@),
            decreases block.stmts@.len() - i,
        {
            let ghost inner = all@;
            let uses: Vec<LocalId> = stmt_uses(&block.stmts[i]);
            insert_locals(&mut all, &uses);
            i = i + 1;
            assert forall|k: int, x: LocalId|
                0 <= k < i && #[trigger] stmt_reads(block.stmts@[k]).contains(
                    x,
                ) implies all@.contains(x) by {
                if k < i - 1 {
                    assert(inner.contains(x));
                } else {
                    assert(uses@.contains(x));
                }
            }
        }
        let ghost inner = all@;
        let ends: Vec<LocalId> = terminator_uses(&block.terminator);
        insert_locals(&mut all, &ends);
        proof {
            assert forall|k: int, x: LocalId|
                0 <= k < block.stmts@.len() && #[trigger] stmt_reads(block.stmts@[k]).contains(
                    x,
                ) implies all@.contains(x) by {
                assert(inner.contains(x));
            }
            assert forall|x: LocalId| #[trigger]
                end_reads(block.terminator).contains(x) implies all@.contains(x) by {
                assert(ends@.contains(x));
            }
            assert(lists_block(*block, all@));
            assert forall|c: int| 0 <= c < b implies lists_block(
                #[trigger] func.blocks@[c],
                all@,
            ) by {
                assert(lists_block(func.blocks@[c], before));
                assert forall|k: int, x: LocalId|
                    0 <= k < func.blocks@[c].stmts@.len() && #[trigger] stmt_reads(
                        func.blocks@[c].stmts@[k],
                    ).contains(x) implies all@.contains(x) by {
                    assert(before.contains(x));
                    assert(inner.contains(x));
                }
                assert forall|x: LocalId| #[trigger]
                    end_reads(func.blocks@[c].terminator).contains(x) implies all@.contains(
                    x,
                ) by {
                    assert(before.contains(x));
                    assert(inner.contains(x));
                }
            }
        }
        b = b + 1;
    }
    all
}

fn is_upward(block: &Block, x: LocalId) -> (r: bool)
    requires
        forall|i: int| 0 <= i < block.stmts@.len() ==> stmt_numberable(#[trigger] block.stmts@[i]),
    ensures
        r == upward(*block, 0, x),
{
    let mut i: usize = 0;
    while i < block.stmts.len()
        invariant
            forall|i: int|
                0 <= i < block.stmts@.len() ==> stmt_numberable(#[trigger] block.stmts@[i]),
            i <= block.stmts@.len(),
            upward(*block, 0, x) == upward(*block, i as int, x),
        decreases block.stmts@.len() - i,
    {
        let uses: Vec<LocalId> = stmt_uses(&block.stmts[i]);
        if has_local(&uses, x) {
            return true;
        }
        let defs: Vec<LocalId> = stmt_defs(&block.stmts[i]);
        if has_local(&defs, x) {
            return false;
        }
        i = i + 1;
    }
    let ends: Vec<LocalId> = terminator_uses(&block.terminator);
    has_local(&ends, x)
}

fn is_defined(block: &Block, x: LocalId) -> (r: bool)
    requires
        forall|i: int| 0 <= i < block.stmts@.len() ==> stmt_numberable(#[trigger] block.stmts@[i]),
    ensures
        r == defined_from(*block, 0, x),
{
    let mut i: usize = 0;
    while i < block.stmts.len()
        invariant
            forall|i: int|
                0 <= i < block.stmts@.len() ==> stmt_numberable(#[trigger] block.stmts@[i]),
            i <= block.stmts@.len(),
            defined_from(*block, 0, x) == defined_from(*block, i as int, x),
        decreases block.stmts@.len() - i,
    {
        let defs: Vec<LocalId> = stmt_defs(&block.stmts[i]);
        if has_local(&defs, x) {
            return true;
        }
        i = i + 1;
    }
    false
}

proof fn owner_is_block(func: Function, id: BlockId, n: nat)
    requires
        n <= func.blocks@.len(),
    ensures
        owner(func, id, n) matches Some(c) ==> 0 <= c < n && func.blocks@[c].id == id,
    decreases n,
{
    if n > 0 {
        owner_is_block(func, id, (n - 1) as nat);
    }
}

fn find_owner(func: &Function, id: BlockId) -> (r: Option<usize>)
    ensures
        (match r {
            Some(c) => Some(c as int),
            None => None,
        }) == block_of(*func, id),
        r matches Some(c) ==> c < func.blocks@.len(),
{
    let mut n: usize = func.blocks.len();
    while n > 0
        invariant
            n <= func.blocks@.len(),
            block_of(*func, id) == owner(*func, id, n as nat),
        decreases n,
    {
        if func.blocks[n - 1].id == id {
            return Some(n - 1);
        }
        n = n - 1;
    }
    None
}

fn find_stmt_owner(func: &Function, id: BlockId, j: usize) -> (r: Option<usize>)
    ensures
        (match r {
            Some(c) => Some(c as int),
            None => None,
        }) == owner_of_stmt(*func, id, j as int, func.blocks@.len()),
        r matches Some(c) ==> c < func.blocks@.len() && j < func.blocks@[c as int].stmts@.len(),
{
    let mut n: usize = func.blocks.len();
    while n > 0
        invariant
            n <= func.blocks@.len(),
            owner_of_stmt(*func, id, j as int, func.blocks@.len()) == owner_of_stmt(
                *func,
                id,
                j as int,
                n as nat,
            ),
        decreases n,
    {
        if func.blocks[n - 1].id == id && j < func.blocks[n - 1].stmts.len() {
            return Some(n - 1);
        }
        n = n - 1;
    }
    None
}

fn block_targets(term: &Terminator) -> (r: Vec<BlockId>)
    ensures
        r@ == targets(*term),
{
    let mut out: Vec<BlockId> = Vec::new();
    match term {
        Terminator::Jump(t) => {
            out.push(*t);
        },
        Terminator::Branch { then_, else_, .. } => {
            out.push(*then_);
            out.push(*else_);
        },
        _ => {},
    }
    assert(out@ =~= targets(*term));
    out
}

/// Marks of live locals: one row for each block, one column for each listed
/// local.
pub open spec fn marked(live: Seq<Vec<bool>>, b: int, u: int) -> bool {
    live[b]@[u]
}

/// Whether marks have a row for each block and a column for each local.
pub open spec fn shaped(live: Seq<Vec<bool>>, blocks: nat, locals: nat) -> bool {
    live.len() == blocks && forall|b: int| 0 <= b < blocks ==> (#[trigger] live[b])@.len() == locals
}

/// Whether a block that may follow is marked.
pub open spec fn next_marked(func: Function, live: Seq<Vec<bool>>, b: int, u: int) -> bool {
    let ts = targets(func.blocks@[b].terminator);
    exists|t: int| 0 <= t < ts.len() && target_marked(func, live, #[trigger] ts[t], u)
}

/// Whether the block of a number is marked.
pub open spec fn target_marked(func: Function, live: Seq<Vec<bool>>, id: BlockId, u: int) -> bool {
    match block_of(func, id) {
        Some(c) => marked(live, c, u),
        None => false,
    }
}

/// Whether a mark follows from the block and the marks of the blocks behind it.
pub open spec fn due(
    func: Function,
    all: Seq<LocalId>,
    live: Seq<Vec<bool>>,
    b: int,
    u: int,
) -> bool {
    upward(func.blocks@[b], 0, all[u]) || (!defined_from(func.blocks@[b], 0, all[u])
        && next_marked(func, live, b, u))
}

/// Whether every mark is right.
pub open spec fn sound(func: Function, all: Seq<LocalId>, live: Seq<Vec<bool>>) -> bool {
    forall|b: int, u: int|
        0 <= b < func.blocks@.len() && 0 <= u < all.len() && #[trigger] marked(live, b, u)
            ==> live_in(func, b, all[u])
}

fn is_next_marked(func: &Function, live: &Vec<Vec<bool>>, b: usize, u: usize, width: usize) -> (r:
    bool)
    requires
        b < func.blocks@.len(),
        shaped(live@, func.blocks@.len(), width as nat),
        u < width,
    ensures
        r == next_marked(*func, live@, b as int, u as int),
{
    let ts: Vec<BlockId> = block_targets(&func.blocks[b].terminator);
    let mut t: usize = 0;
    while t < ts.len()
        invariant
            b < func.blocks@.len(),
            ts@ == targets(func.blocks@[b as int].terminator),
            shaped(live@, func.blocks@.len(), width as nat),
            u < width,
            t <= ts@.len(),
            forall|k: int|
                0 <= k < t ==> !target_marked(*func, live@, #[trigger] ts@[k], u as int),
        decreases ts@.len() - t,
    {
        match find_owner(func, ts[t]) {
            Some(c) => {
                assert(live@[c as int]@.len() == width);
                if live[c][u] {
                    assert(target_marked(*func, live@, ts@[t as int], u as int));
                    return true;
                }
            },
            None => {},
        }
        t = t + 1;
    }
    false
}

proof fn due_is_live(func: Function, all: Seq<LocalId>, live: Seq<Vec<bool>>, b: int, u: int)
    requires
        0 <= b < func.blocks@.len(),
        0 <= u < all.len(),
        sound(func, all, live),
        due(func, all, live, b, u),
    ensures
        live_in(func, b, all[u]),
{
    let x = all[u];
    if upward(func.blocks@[b], 0, x) {
        assert(live_within(func, 1, b, x));
    } else {
        let ts = targets(func.blocks@[b].terminator);
        let t = choose|t: int|
            0 <= t < ts.len() && target_marked(func, live, #[trigger] ts[t], u);
        let c = block_of(func, ts[t])->0;
        owner_is_block(func, ts[t], func.blocks@.len());
        assert(marked(live, c, u));
        let n = choose|n: nat| #[trigger] live_within(func, n, c, x);
        assert(follows_live(func, n, ts[t], x));
        assert(live_within(func, n + 1, b, x));
    }
}

proof fn live_is_listed(func: Function, all: Seq<LocalId>, n: nat, b: int, x: LocalId)
    requires
        lists_all(func, func.blocks@.len() as int, all),
        live_within(func, n, b, x),
    ensures
        all.contains(x),
    decreases n,
{
    assert(lists_block(func.blocks@[b], all));
    if upward(func.blocks@[b], 0, x) {
        upward_is_listed(func.blocks@[b], 0, all, x);
    } else {
        let ts = targets(func.blocks@[b].terminator);
        let t = choose|t: int|
            0 <= t < ts.len() && follows_live(func, (n - 1) as nat, #[trigger] ts[t], x);
        live_is_listed(func, all, (n - 1) as nat, block_of(func, ts[t])->0, x);
    }
}

proof fn upward_is_listed(block: Block, from: int, all: Seq<LocalId>, x: LocalId)
    requires
        0 <= from <= block.stmts@.len(),
        lists_block(block, all),
        upward(block, from, x),
    ensures
        all.contains(x),
    decreases block.stmts@.len() - from,
{
    if from < block.stmts@.len() {
        if !stmt_reads(block.stmts@[from]).contains(x) {
            upward_is_listed(block, from + 1, all, x);
        }
    }
}

/// Whether every mark that is due is set.
pub open spec fn closed(func: Function, all: Seq<LocalId>, live: Seq<Vec<bool>>) -> bool {
    forall|b: int, u: int|
        0 <= b < func.blocks@.len() && 0 <= u < all.len() && due(func, all, live, b, u)
            ==> #[trigger] marked(live, b, u)
}

proof fn closed_marks_all(
    func: Function,
    all: Seq<LocalId>,
    live: Seq<Vec<bool>>,
    n: nat,
    b: int,
    u: int,
)
    requires
        closed(func, all, live),
        0 <= u < all.len(),
        live_within(func, n, b, all[u]),
    ensures
        marked(live, b, u),
    decreases n,
{
    let x = all[u];
    if !upward(func.blocks@[b], 0, x) {
        let ts = targets(func.blocks@[b].terminator);
        let t = choose|t: int|
            0 <= t < ts.len() && follows_live(func, (n - 1) as nat, #[trigger] ts[t], x);
        let c = block_of(func, ts[t])->0;
        closed_marks_all(func, all, live, (n - 1) as nat, c, u);
        assert(target_marked(func, live, ts[t], u));
    }
    assert(due(func, all, live, b, u));
}

/// Whether a place is in the list.
pub open spec fn waits(dead: Seq<(usize, usize)>, b: int, u: int) -> bool {
    exists|i: int| 0 <= i < dead.len() && (#[trigger] dead[i]).0 == b && dead[i].1 == u
}

/// Whether every place without a mark is still in the list.
pub open spec fn remembered(
    live: Seq<Vec<bool>>,
    blocks: nat,
    locals: nat,
    dead: Seq<(usize, usize)>,
) -> bool {
    forall|b: int, u: int|
        0 <= b < blocks && 0 <= u < locals && !(#[trigger] marked(live, b, u)) ==> waits(
            dead,
            b,
            u,
        )
}

/// Whether the entries of the list are places.
pub open spec fn in_range(dead: Seq<(usize, usize)>, blocks: nat, locals: nat) -> bool {
    forall|i: int|
        0 <= i < dead.len() ==> (#[trigger] dead[i]).0 < blocks && dead[i].1 < locals
}

fn no_marks(blocks: usize, locals: usize) -> (r: (Vec<Vec<bool>>, Vec<(usize, usize)>))
    ensures
        shaped(r.0@, blocks as nat, locals as nat),
        forall|b: int, u: int|
            0 <= b < blocks && 0 <= u < locals ==> !(#[trigger] marked(r.0@, b, u)),
        remembered(r.0@, blocks as nat, locals as nat, r.1@),
        in_range(r.1@, blocks as nat, locals as nat),
{
    let mut live: Vec<Vec<bool>> = Vec::new();
    let mut dead: Vec<(usize, usize)> = Vec::new();
    let mut b: usize = 0;
    while b < blocks
        invariant
            b <= blocks,
            live@.len() == b,
            forall|c: int| 0 <= c < b ==> (#[trigger] live@[c])@.len() == locals,
            forall|c: int, u: int|
                0 <= c < b && 0 <= u < locals ==> !(#[trigger] marked(live@, c, u)),
            forall|c: int, u: int|
                0 <= c < b && 0 <= u < locals && !(#[trigger] marked(live@, c, u))
                    ==> waits(dead@, c, u),
            in_range(dead@, blocks as nat, locals as nat),
        decreases blocks - b,
    {
        let ghost live_before = live@;
        let ghost dead_before = dead@;
        let mut row: Vec<bool> = Vec::new();
        let mut u: usize = 0;
        while u < locals
            invariant
                b < blocks,
                u <= locals,
                row@.len() == u,
                forall|k: int| 0 <= k < u ==> !(#[trigger] row@[k]),
                dead_before.is_prefix_of(dead@),
                forall|k: int| 0 <= k < u ==> #[trigger] waits(dead@, b as int, k),
                in_range(dead@, blocks as nat, locals as nat),
            decreases locals - u,
        {
            let ghost inner = dead@;
            row.push(false);
            dead.push((b, u));
            proof {
                assert(dead@[inner.len() as int] == (b, u));
                assert(waits(dead@, b as int, u as int));
                assert forall|k: int| 0 <= k < u implies #[trigger] waits(dead@, b as int, k) by {
                    assert(waits(inner, b as int, k));
                    let i = choose|i: int|
                        0 <= i < inner.len() && (#[trigger] inner[i]).0 == b && inner[i].1 == k;
                    assert(dead@[i] == inner[i]);
                }
            }
            u = u + 1;
        }
        live.push(row);
        proof {
            assert forall|c: int, u: int|
                0 <= c < b + 1 && 0 <= u < locals implies !(#[trigger] marked(live@, c, u))
                && waits(dead@, c, u) by {
                if c < b {
                    assert(live@[c] == live_before[c]);
                    assert(!marked(live_before, c, u));
                    assert(waits(dead_before, c, u));
                    let i = choose|i: int|
                        0 <= i < dead_before.len() && (#[trigger] dead_before[i]).0 == c
                            && dead_before[i].1 == u;
                    assert(dead@[i] == dead_before[i]);
                } else {
                    assert(waits(dead@, b as int, u));
                }
            }
        }
        b = b + 1;
    }
    (live, dead)
}

fn is_due(func: &Function, all: &Vec<LocalId>, live: &Vec<Vec<bool>>, b: usize, u: usize) -> (r:
    bool)
    requires
        numberable(*func),
        shaped(live@, func.blocks@.len(), all@.len()),
        b < func.blocks@.len(),
        u < all@.len(),
    ensures
        r == due(*func, all@, live@, b as int, u as int),
{
    let block: &Block = &func.blocks[b];
    assert forall|i: int| 0 <= i < block.stmts@.len() implies stmt_numberable(
        #[trigger] block.stmts@[i],
    ) by {
        assert(stmt_numberable(func.blocks@[b as int].stmts@[i]));
    }
    is_upward(block, all[u]) || (!is_defined(block, all[u]) && is_next_marked(
        func,
        live,
        b,
        u,
        all.len(),
    ))
}

/// The live locals at the start of every block: a mark is set exactly where
/// [`live_in`] holds.
fn live_in_sets(func: &Function, all: &Vec<LocalId>) -> (live: Vec<Vec<bool>>)
    requires
        numberable(*func),
    ensures
        shaped(live@, func.blocks@.len(), all@.len()),
        forall|b: int, u: int|
            0 <= b < func.blocks@.len() && 0 <= u < all@.len() ==> (#[trigger] marked(live@, b, u)
                <==> live_in(*func, b, all@[u])),
{
    let (mut live, mut dead) = no_marks(func.blocks.len(), all.len());
    let mut changed: bool = true;
    while changed
        invariant
            numberable(*func),
            shaped(live@, func.blocks@.len(), all@.len()),
            sound(*func, all@, live@),
            remembered(live@, func.blocks@.len(), all@.len(), dead@),
            in_range(dead@, func.blocks@.len(), all@.len()),
            !changed ==> closed(*func, all@, live@),
        decreases dead@.len() + (if changed { 1nat } else { 0nat }),
    {
        changed = false;
        let ghost size = dead@.len();
        let mut i: usize = 0;
        while i < dead.len()
            invariant
                numberable(*func),
                shaped(live@, func.blocks@.len(), all@.len()),
                sound(*func, all@, live@),
                remembered(live@, func.blocks@.len(), all@.len(), dead@),
                in_range(dead@, func.blocks@.len(), all@.len()),
                i <= dead@.len(),
                dead@.len() <= size,
                changed ==> dead@.len() < size,
                !changed ==> forall|j: int|
                    0 <= j < i ==> !due(
                        *func,
                        all@,
                        live@,
                        (#[trigger] dead@[j]).0 as int,
                        dead@[j].1 as int,
                    ),
            decreases dead@.len() - i,
        {
            let b: usize = dead[i].0;
            let u: usize = dead[i].1;
            assert(dead@[i as int].0 < func.blocks@.len());
            if is_due(func, all, &live, b, u) {
                let ghost live_before = live@;
                let ghost dead_before = dead@;
                proof {
                    due_is_live(*func, all@, live@, b as int, u as int);
                    assert(live@[b as int]@.len() == all@.len());
                }
                dead.remove(i);
                live[b][u] = true;
                changed = true;
                proof {
                    assert forall|c: int| 0 <= c < func.blocks@.len() implies (
                    #[trigger] live@[c])@.len() == all@.len() by {
                        assert(live_before[c]@.len() == all@.len());
                    }
                    assert forall|c: int, v: int|
                        0 <= c < func.blocks@.len() && 0 <= v < all@.len() implies (
                    #[trigger] marked(live@, c, v) <==> (marked(live_before, c, v) || (c == b && v
                        == u))) by {
                        assert(live_before[c]@.len() == all@.len());
                    }
                    assert forall|c: int, v: int|
                        0 <= c < func.blocks@.len() && 0 <= v < all@.len() && !(
                        #[trigger] marked(live@, c, v)) implies waits(dead@, c, v) by {
                        assert(!marked(live_before, c, v));
                        assert(waits(dead_before, c, v));
                        let k = choose|k: int|
                            0 <= k < dead_before.len() && (#[trigger] dead_before[k]).0 == c
                                && dead_before[k].1 == v;
                        assert(k != i);
                        if k < i {
                            assert(dead@[k] == dead_before[k]);
                        } else {
                            assert(dead@[k - 1] == dead_before[k]);
                        }
                    }
                    assert forall|j: int| 0 <= j < dead@.len() implies (#[trigger] dead@[j]).0
                        < func.blocks@.len() && dead@[j].1 < all@.len() by {
                        if j < i {
                            assert(dead@[j] == dead_before[j]);
                        } else {
                            assert(dead@[j] == dead_before[j + 1]);
                        }
                    }
                }
            } else {
                i = i + 1;
            }
        }
        proof {
            if !changed {
                assert forall|b: int, u: int|
                    0 <= b < func.blocks@.len() && 0 <= u < all@.len() && due(
                        *func,
                        all@,
                        live@,
                        b,
                        u,
                    ) implies #[trigger] marked(live@, b, u) by {
                    if !marked(live@, b, u) {
                        assert(waits(dead@, b, u));
                        let k = choose|k: int|
                            0 <= k < dead@.len() && (#[trigger] dead@[k]).0 == b && dead@[k].1 == u;
                        assert(!due(
                            *func,
                            all@,
                            live@,
                            dead@[k].0 as int,
                            dead@[k].1 as int,
                        ));
                    }
                }
            }
        }
    }
    proof {
        assert forall|b: int, u: int|
            0 <= b < func.blocks@.len() && 0 <= u < all@.len() implies (#[trigger] marked(
            live@,
            b,
            u,
        ) <==> live_in(*func, b, all@[u])) by {
            if live_in(*func, b, all@[u]) {
                let n = choose|n: nat| #[trigger] live_within(*func, n, b, all@[u]);
                closed_marks_all(*func, all@, live@, n, b, u);
            }
        }
    }
    live
}

fn is_live_after(
    func: &Function,
    all: &Vec<LocalId>,
    live: &Vec<Vec<bool>>,
    b: usize,
    from: usize,
    u: usize,
) -> (r: bool)
    requires
        numberable(*func),
        b < func.blocks@.len(),
        from <= func.blocks@[b as int].stmts@.len(),
        u < all@.len(),
        shaped(live@, func.blocks@.len(), all@.len()),
        forall|b: int, u: int|
            0 <= b < func.blocks@.len() && 0 <= u < all@.len() ==> (#[trigger] marked(live@, b, u)
                <==> live_in(*func, b, all@[u])),
    ensures
        r == live_tail(*func, b as int, from as int, all@[u as int]),
{
    let block: &Block = &func.blocks[b];
    let x: LocalId = all[u];
    let mut i: usize = from;
    while i < block.stmts.len()
        invariant
            numberable(*func),
            b < func.blocks@.len(),
            *block == func.blocks@[b as int],
            x == all@[u as int],
            i <= block.stmts@.len(),
            live_tail(*func, b as int, from as int, x) == live_tail(*func, b as int, i as int, x),
        decreases block.stmts@.len() - i,
    {
        assert(stmt_numberable(func.blocks@[b as int].stmts@[i as int]));
        let uses: Vec<LocalId> = stmt_uses(&block.stmts[i]);
        if has_local(&uses, x) {
            return true;
        }
        let defs: Vec<LocalId> = stmt_defs(&block.stmts[i]);
        if has_local(&defs, x) {
            return false;
        }
        i = i + 1;
    }
    let ends: Vec<LocalId> = terminator_uses(&block.terminator);
    if has_local(&ends, x) {
        return true;
    }
    match find_owner(func, block.id) {
        Some(c) => {
            let next: bool = is_next_marked(func, live, c, u, all.len());
            proof {
                let ts = targets(func.blocks@[c as int].terminator);
                assert forall|t: int| 0 <= t < ts.len() implies target_marked(
                    *func,
                    live@,
                    #[trigger] ts[t],
                    u as int,
                ) == live_at(*func, ts[t], x) by {
                    owner_is_block(*func, ts[t], func.blocks@.len());
                    match block_of(*func, ts[t]) {
                        Some(d) => {
                            assert(marked(live@, d, u as int) <==> live_in(*func, d, x));
                        },
                        None => {},
                    }
                }
                if next {
                    let t = choose|t: int|
                        0 <= t < ts.len() && target_marked(
                            *func,
                            live@,
                            #[trigger] ts[t],
                            u as int,
                        );
                    assert(live_at(*func, ts[t], x));
                }
                if live_out(*func, c as int, x) {
                    let t = choose|t: int| 0 <= t < ts.len() && live_at(*func, #[trigger] ts[t], x);
                    assert(target_marked(*func, live@, ts[t], u as int));
                }
            }
            next
        },
        None => false,
    }
}

proof fn tail_is_listed(func: Function, all: Seq<LocalId>, b: int, from: int, x: LocalId)
    requires
        0 <= b < func.blocks@.len(),
        0 <= from <= func.blocks@[b].stmts@.len(),
        lists_all(func, func.blocks@.len() as int, all),
        live_tail(func, b, from, x),
    ensures
        all.contains(x),
    decreases func.blocks@[b].stmts@.len() - from,
{
    let block = func.blocks@[b];
    assert(lists_block(block, all));
    if from < block.stmts@.len() {
        if !stmt_reads(block.stmts@[from]).contains(x) {
            tail_is_listed(func, all, b, from + 1, x);
        }
    } else if !end_reads(block.terminator).contains(x) {
        let c = block_of(func, block.id)->0;
        let ts = targets(func.blocks@[c].terminator);
        let t = choose|t: int| 0 <= t < ts.len() && live_at(func, #[trigger] ts[t], x);
        let d = block_of(func, ts[t])->0;
        let n = choose|n: nat| #[trigger] live_within(func, n, d, x);
        live_is_listed(func, all, n, d, x);
    }
}

fn live_across(
    func: &Function,
    all: &Vec<LocalId>,
    live: &Vec<Vec<bool>>,
    id: BlockId,
    j: usize,
    defs: &Vec<LocalId>,
) -> (r: Vec<LocalId>)
    requires
        numberable(*func),
        ascending(all@),
        lists_all(*func, func.blocks@.len() as int, all@),
        shaped(live@, func.blocks@.len(), all@.len()),
        forall|b: int, u: int|
            0 <= b < func.blocks@.len() && 0 <= u < all@.len() ==> (#[trigger] marked(live@, b, u)
                <==> live_in(*func, b, all@[u])),
    ensures
        ascending(r@),
        forall|x: LocalId| #[trigger]
            r@.contains(x) <==> live_after(*func, id, j as int, x) && !defs@.contains(x),
{
    let mut out: Vec<LocalId> = Vec::new();
    let o: usize = match find_stmt_owner(func, id, j) {
        Some(o) => o,
        None => {
            assert forall|x: LocalId| #[trigger]
                out@.contains(x) <==> live_after(*func, id, j as int, x) && !defs@.contains(x) by {
            }
            return out;
        },
    };
    let mut u: usize = 0;
    while u < all.len()
        invariant
            numberable(*func),
            ascending(all@),
            o < func.blocks@.len(),
            j < func.blocks@[o as int].stmts@.len(),
            owner_of_stmt(*func, id, j as int, func.blocks@.len()) == Some(o as int),
            shaped(live@, func.blocks@.len(), all@.len()),
            forall|b: int, u: int|
                0 <= b < func.blocks@.len() && 0 <= u < all@.len() ==> (#[trigger] marked(
                    live@,
                    b,
                    u,
                ) <==> live_in(*func, b, all@[u])),
            u <= all@.len(),
            ascending(out@),
            forall|k: int, m: int|
                0 <= k < out@.len() && u <= m < all@.len() ==> (#[trigger] out@[k]).0 < (
                #[trigger] all@[m]).0,
            forall|k: int|
                0 <= k < out@.len() ==> live_after(*func, id, j as int, #[trigger] out@[k])
                    && !defs@.contains(out@[k]),
            forall|k: int|
                0 <= k < u && live_after(*func, id, j as int, #[trigger] all@[k])
                    && !defs@.contains(all@[k]) ==> out@.contains(all@[k]),
        decreases all@.len() - u,
    {
        let x: LocalId = all[u];
        let ghost before = out@;
        let len: usize = func.blocks[o].stmts.len();
        assert(j < len);
        if is_live_after(func, all, live, o, j + 1, u) && !has_local(defs, x) {
            out.push(x);
            proof {
                assert(out@[before.len() as int] == x);
                assert forall|k: int|
                    0 <= k < u && live_after(*func, id, j as int, #[trigger] all@[k])
                        && !defs@.contains(all@[k]) implies out@.contains(all@[k]) by {
                    let m = choose|m: int| 0 <= m < before.len() && before[m] == all@[k];
                    assert(before.contains(all@[k]));
                    assert(out@[m] == all@[k]);
                }
            }
        }
        u = u + 1;
    }
    proof {
        assert forall|x: LocalId| #[trigger]
            out@.contains(x) <==> live_after(*func, id, j as int, x) && !defs@.contains(x) by {
            if live_after(*func, id, j as int, x) && !defs@.contains(x) {
                tail_is_listed(*func, all@, o as int, j + 1, x);
                let k = choose|k: int| 0 <= k < all@.len() && all@[k] == x;
                assert(out@.contains(all@[k]));
            }
        }
    }
    out
}

/// The places of a function where it can be left and resumed, each with the
/// values that have to be kept, see [`is_site`].
pub fn analyze(func: &Function) -> (r: ContinuationAnalysis)
    requires
        numberable(*func),
    ensures
        sites_at(*func, places(*func, func.blocks@.len()), r.sites@),
{
    let all: Vec<LocalId> = list_locals(func);
    let live: Vec<Vec<bool>> = live_in_sets(func, &all);
    let mut sites: Vec<ContinuationSite> = Vec::new();
    let mut b: usize = 0;
    while b < func.blocks.len()
        invariant
            numberable(*func),
            ascending(all@),
            lists_all(*func, func.blocks@.len() as int, all@),
            shaped(live@, func.blocks@.len(), all@.len()),
            forall|b: int, u: int|
                0 <= b < func.blocks@.len() && 0 <= u < all@.len() ==> (#[trigger] marked(
                    live@,
                    b,
                    u,
                ) <==> live_in(*func, b, all@[u])),
            b <= func.blocks@.len(),
            sites_at(*func, places(*func, b as nat), sites@),
        decreases func.blocks@.len() - b,
    {
        let block: &Block = &func.blocks[b];
        let ghost start = places(*func, b as nat);
        let mut j: usize = 0;
        assert(start + block_places(*func, b as int, 0) =~= start);
        while j < block.stmts.len()
            invariant
                numberable(*func),
                ascending(all@),
                lists_all(*func, func.blocks@.len() as int, all@),
                shaped(live@, func.blocks@.len(), all@.len()),
                forall|b: int, u: int|
                    0 <= b < func.blocks@.len() && 0 <= u < all@.len() ==> (#[trigger] marked(
                        live@,
                        b,
                        u,
                    ) <==> live_in(*func, b, all@[u])),
                b < func.blocks@.len(),
                *block == func.blocks@[b as int],
                j <= block.stmts@.len(),
                sites_at(*func, start + block_places(*func, b as int, j as nat), sites@),
            decreases block.stmts@.len() - j,
        {
            let ghost before = start + block_places(*func, b as int, j as nat);
            let ghost sites_before = sites@;
            assert(stmt_numberable(func.blocks@[b as int].stmts@[j as int]));
            match &block.stmts[j] {
                Stmt::Assign { dst, op } => match continuation_kind(func, op) {
                    Some(kind) => {
                        let resume_defs: Vec<LocalId> = assignment_defs(*dst, op);
                        let across: Vec<LocalId> = live_across(
                            func,
                            &all,
                            &live,
                            block.id,
                            j,
                            &resume_defs,
                        );
                        let site: ContinuationSite = ContinuationSite {
                            block: block.id,
                            stmt_index: j,
                            kind,
                            resume_defs,
                            live_across: across,
                        };
                        assert(is_site(*func, b as int, j as int, site));
                        sites.push(site);
                    },
                    None => {},
                },
                _ => {},
            }
            j = j + 1;
            proof {
                let now = start + block_places(*func, b as int, j as nat);
                if makes_site(*func, func.blocks@[b as int].stmts@[j - 1]) {
                    assert(now =~= before.push((b as int, j - 1)));
                    assert forall|i: int| 0 <= i < now.len() implies is_site(
                        *func,
                        (#[trigger] now[i]).0,
                        now[i].1,
                        sites@[i],
                    ) by {
                        if i < before.len() {
                            assert(now[i] == before[i]);
                            assert(sites@[i] == sites_before[i]);
                        }
                    }
                } else {
                    assert(now =~= before);
                }
            }
        }
        b = b + 1;
    }
    ContinuationAnalysis { sites }
}

// ---------------------------------------------------------------------------
// Laws
// ---------------------------------------------------------------------------

/// Liveness solves its equations: a local is live at the start of a block where
/// the block reads it before it defines it, or does not define it and a block
/// that may follow needs it.
pub proof fn live_equations_hold(func: Function, b: int, x: LocalId)
    requires
        0 <= b < func.blocks@.len(),
    ensures
        live_in(func, b, x) <==> upward(func.blocks@[b], 0, x) || (!defined_from(
            func.blocks@[b],
            0,
            x,
        ) && live_out(func, b, x)),
{
    let ts = targets(func.blocks@[b].terminator);
    if live_in(func, b, x) {
        let n = choose|n: nat| #[trigger] live_within(func, n, b, x);
        if !upward(func.blocks@[b], 0, x) {
            let t = choose|t: int|
                0 <= t < ts.len() && follows_live(func, (n - 1) as nat, #[trigger] ts[t], x);
            assert(live_within(func, (n - 1) as nat, block_of(func, ts[t])->0, x));
            assert(live_at(func, ts[t], x));
        }
    }
    if upward(func.blocks@[b], 0, x) {
        assert(live_within(func, 1, b, x));
    } else if !defined_from(func.blocks@[b], 0, x) && live_out(func, b, x) {
        let t = choose|t: int| 0 <= t < ts.len() && live_at(func, #[trigger] ts[t], x);
        let c = block_of(func, ts[t])->0;
        let n = choose|n: nat| #[trigger] live_within(func, n, c, x);
        assert(follows_live(func, n, ts[t], x));
        assert(live_within(func, n + 1, b, x));
    }
}

/// Liveness is the least solution: whatever else satisfies the equations from
/// right to left holds wherever a local is live. So no value is kept without
/// need.
pub proof fn live_is_least(func: Function, p: spec_fn(int, LocalId) -> bool, b: int, x: LocalId)
    requires
        forall|c: int, y: LocalId|
            0 <= c < func.blocks@.len() && (upward(func.blocks@[c], 0, y) || (!defined_from(
                func.blocks@[c],
                0,
                y,
            ) && some_target(func, p, c, y))) ==> #[trigger] p(c, y),
        live_in(func, b, x),
    ensures
        p(b, x),
{
    let n = choose|n: nat| #[trigger] live_within(func, n, b, x);
    live_within_is_least(func, p, n, b, x);
}

/// Whether `p` holds for some block that may follow block `c`.
pub open spec fn some_target(
    func: Function,
    p: spec_fn(int, LocalId) -> bool,
    c: int,
    y: LocalId,
) -> bool {
    let ts = targets(func.blocks@[c].terminator);
    exists|t: int|
        0 <= t < ts.len() && target_holds(func, p, #[trigger] ts[t], y)
}

/// Whether `p` holds for the block of a number.
pub open spec fn target_holds(
    func: Function,
    p: spec_fn(int, LocalId) -> bool,
    id: BlockId,
    y: LocalId,
) -> bool {
    match block_of(func, id) {
        Some(d) => p(d, y),
        None => false,
    }
}

proof fn live_within_is_least(
    func: Function,
    p: spec_fn(int, LocalId) -> bool,
    n: nat,
    b: int,
    x: LocalId,
)
    requires
        forall|c: int, y: LocalId|
            0 <= c < func.blocks@.len() && (upward(func.blocks@[c], 0, y) || (!defined_from(
                func.blocks@[c],
                0,
                y,
            ) && some_target(func, p, c, y))) ==> #[trigger] p(c, y),
        live_within(func, n, b, x),
    ensures
        p(b, x),
    decreases n,
{
    if !upward(func.blocks@[b], 0, x) {
        let ts = targets(func.blocks@[b].terminator);
        let t = choose|t: int|
            0 <= t < ts.len() && follows_live(func, (n - 1) as nat, #[trigger] ts[t], x);
        live_within_is_least(func, p, (n - 1) as nat, block_of(func, ts[t])->0, x);
        assert(target_holds(func, p, ts[t], x));
    }
}

/// A site keeps nothing that the operation itself defines on resumption.
pub proof fn resumed_values_are_not_kept(
    func: Function,
    b: int,
    j: int,
    s: ContinuationSite,
    x: LocalId,
)
    requires
        is_site(func, b, j, s),
        s.resume_defs@.contains(x),
    ensures
        !s.live_across@.contains(x),
{
}

/// What the lowering cuts blocks at is what gives control to the scheduler, and
/// the selective receive without a timeout besides.
pub proof fn lowering_cuts_at_suspensions(op: RValue)
    ensures
        cir_lower::suspends(op) <==> scheduled(op) is Some || op is ReceiveMatch,
{
}

} // verus!
