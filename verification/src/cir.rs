//! The concurrency representation: a control-flow graph in which every
//! suspension is a terminator of its own, and the layout of the frames that keep
//! values across suspensions.

use std::collections::HashMap;
use vstd::prelude::*;

verus! {

/// The number of a variable.
#[derive(Debug, Clone, Copy, PartialEq, Eq, Hash, PartialOrd, Ord, Structural)]
pub struct VarId(pub u32);

/// The number of a block.
#[derive(Debug, Clone, Copy, PartialEq, Eq, Hash, PartialOrd, Ord, Structural)]
pub struct BlockId(pub u32);

/// A function.
#[derive(Debug, PartialEq, Eq)]
pub struct CirFunction {
    pub name: String,
    pub locals: Vec<CirLocal>,
    pub blocks: Vec<CirBlock>,
    pub entry_block: BlockId,
}

/// A local of a function.
#[derive(Debug, Clone, Copy, PartialEq, Eq, Structural)]
pub struct CirLocal {
    pub id: VarId,
}

/// A block.
#[derive(Debug, PartialEq, Eq)]
pub struct CirBlock {
    pub id: BlockId,
    pub stmts: Vec<CirStmt>,
    pub terminator: CirTerminator,
}

/// A statement.
#[derive(Debug, PartialEq, Eq)]
pub enum CirStmt {
    /// A computation without side effect.
    Assign { dst: VarId, src: CirExpr },
    /// An effect that is not waited for.
    Emit { effect: EffectKind, args: Vec<CirExpr> },
    /// Keeps variables in a frame before a suspension.
    SaveFrame { vars: Vec<VarId>, offsets: Vec<usize>, frame_ptr: VarId },
    /// Takes variables from a frame after a suspension.
    RestoreFrame { vars: Vec<VarId>, offsets: Vec<usize>, frame_ptr: VarId },
}

/// An expression.
#[derive(Debug, PartialEq, Eq)]
pub enum CirExpr {
    Var(VarId),
    ConstI64(i64),
    /// The IEEE 754 bits of a double.
    ConstF64(u64),
    ConstBool(bool),
    ConstNil,
    ConstUnit,
    ConstString(String),
    BinaryOp { op: BinaryOp, lhs: Box<CirExpr>, rhs: Box<CirExpr> },
    UnaryOp { op: UnaryOp, operand: Box<CirExpr> },
    Call { func_idx: u32, args: Vec<CirExpr> },
    ArrayLen { arr: Box<CirExpr> },
    ArrayLoad { arr: Box<CirExpr>, idx: Box<CirExpr> },
}

/// A binary operator.
#[derive(Debug, Clone, Copy, PartialEq, Eq, Structural)]
pub enum BinaryOp {
    Add,
    Sub,
    Mul,
    Div,
    Mod,
    Eq,
    Neq,
    Lt,
    Lte,
    Gt,
    Gte,
    And,
    Or,
}

/// A unary operator.
#[derive(Debug, Clone, Copy, PartialEq, Eq, Structural)]
pub enum UnaryOp {
    Neg,
    Not,
}

/// How a block ends.
#[derive(Debug, PartialEq, Eq)]
pub enum CirTerminator {
    Return(Option<CirExpr>),
    Jump(BlockId),
    Branch { cond: CirExpr, then_block: BlockId, else_block: BlockId },
    /// Yields to the host; execution goes on at `resume_block` with the host's
    /// result in `resume_var`.
    SuspendAndYield {
        effect: EffectKind,
        args: Vec<CirExpr>,
        resume_block: BlockId,
        resume_var: VarId,
        live_vars: Vec<VarId>,
    },
    /// Resumes a handled effect.
    Resume(CirExpr),
}

/// What the host is asked for.
#[derive(Debug, Clone, PartialEq, Eq)]
pub enum EffectKind {
    ActorSend,
    MailboxDequeue,
    SignalWait,
    LlmAsk,
    PerformAsync,
    HostEffect { module: String, name: String },
}

/// The layout of a frame: a header of 16 bytes, then one slot of 8 bytes for
/// each variable. Offsets are kept by variable number.
pub struct FrameLayout {
    pub total_size: usize,
    pub var_offsets: HashMap<u32, usize>,
}

/// The size of the header before the variables.
pub const FRAME_HEADER_SIZE: usize = 16;

/// The offset of slot `i`.
pub open spec fn slot_offset(i: int) -> int {
    FRAME_HEADER_SIZE + i * 8
}

/// The offsets of the first `n` variables; a variable that is listed twice has
/// the offset of its last mention.
pub open spec fn offsets_of(live: Seq<VarId>, n: nat) -> Map<u32, usize>
    decreases n,
{
    if n == 0 || n > live.len() {
        Map::empty()
    } else {
        offsets_of(live, (n - 1) as nat).insert(live[n - 1].0, slot_offset(n - 1) as usize)
    }
}

impl FrameLayout {
    /// The offset of a variable in the frame.
    pub fn offset(&self, var: VarId) -> (r: Option<usize>)
        ensures
            r == (if self.var_offsets@.dom().contains(var.0) {
                Some(self.var_offsets@[var.0])
            } else {
                None
            }),
    {
        broadcast use vstd::std_specs::hash::group_hash_axioms;

        match self.var_offsets.get(&var.0) {
            Some(o) => Some(*o),
            None => None,
        }
    }
}

/// The layout of a frame that keeps the given variables, all of 8 bytes.
pub fn compute_frame_layout(live_vars: &Vec<VarId>) -> (r: FrameLayout)
    requires
        slot_offset(live_vars@.len() as int) <= usize::MAX,
    ensures
        r.total_size == slot_offset(live_vars@.len() as int),
        r.var_offsets@ == offsets_of(live_vars@, live_vars@.len()),
{
    broadcast use vstd::std_specs::hash::group_hash_axioms;

    let mut var_offsets: HashMap<u32, usize> = HashMap::new();
    let mut i: usize = 0;
    assert(var_offsets@ =~= Map::empty());
    while i < live_vars.len()
        invariant
            slot_offset(live_vars@.len() as int) <= usize::MAX,
            i <= live_vars@.len(),
            var_offsets@ == offsets_of(live_vars@, i as nat),
        decreases live_vars@.len() - i,
    {
        var_offsets.insert(live_vars[i].0, FRAME_HEADER_SIZE + i * 8);
        i = i + 1;
    }
    FrameLayout { total_size: FRAME_HEADER_SIZE + live_vars.len() * 8, var_offsets }
}

proof fn offset_is_a_slot(live: Seq<VarId>, n: nat, v: u32)
    requires
        n <= live.len(),
        slot_offset(live.len() as int) <= usize::MAX,
    ensures
        offsets_of(live, n).dom().contains(v) <==> exists|i: int|
            0 <= i < n && (#[trigger] live[i]).0 == v,
        offsets_of(live, n).dom().contains(v) ==> exists|i: int|
            0 <= i < n && (#[trigger] live[i]).0 == v && offsets_of(live, n)[v] == slot_offset(i),
    decreases n,
{
    if n > 0 {
        offset_is_a_slot(live, (n - 1) as nat, v);
        let before = offsets_of(live, (n - 1) as nat);
        if live[n - 1].0 == v {
            assert(offsets_of(live, n)[v] == slot_offset(n - 1));
        } else if before.dom().contains(v) {
            let i = choose|i: int|
                0 <= i < n - 1 && (#[trigger] live[i]).0 == v && before[v] == slot_offset(i);
            assert(live[i].0 == v && offsets_of(live, n)[v] == slot_offset(i));
        }
    }
}

/// The variables of a frame do not share room: each has 8 bytes behind the
/// header and inside the frame, aligned to 8, and two variables have different
/// ones.
pub proof fn frame_slots_are_disjoint(live: Seq<VarId>, a: u32, b: u32)
    requires
        slot_offset(live.len() as int) <= usize::MAX,
        offsets_of(live, live.len()).dom().contains(a),
        offsets_of(live, live.len()).dom().contains(b),
        a != b,
    ensures
        ({
            let at = offsets_of(live, live.len())[a] as int;
            let bt = offsets_of(live, live.len())[b] as int;
            &&& FRAME_HEADER_SIZE <= at && at % 8 == 0
            &&& at + 8 <= slot_offset(live.len() as int)
            &&& at + 8 <= bt || bt + 8 <= at
        }),
{
    offset_is_a_slot(live, live.len(), a);
    offset_is_a_slot(live, live.len(), b);
    let i = choose|i: int|
        0 <= i < live.len() && (#[trigger] live[i]).0 == a && offsets_of(live, live.len())[a]
            == slot_offset(i);
    let j = choose|j: int|
        0 <= j < live.len() && (#[trigger] live[j]).0 == b && offsets_of(live, live.len())[b]
            == slot_offset(j);
    assert(i != j);
}

/// Every variable that is to be kept has a slot.
pub proof fn every_live_variable_has_a_slot(live: Seq<VarId>, i: int)
    requires
        0 <= i < live.len(),
        slot_offset(live.len() as int) <= usize::MAX,
    ensures
        offsets_of(live, live.len()).dom().contains(live[i].0),
{
    offset_is_a_slot(live, live.len(), live[i].0);
}

} // verus!
