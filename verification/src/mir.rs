//! The middle representation of functions: blocks of statements over numbered
//! locals, each block with a terminator.

use vstd::prelude::*;

use crate::ast::{BinOp, UnOp};
use crate::bytecode::Constant;

verus! {

/// The number of a local.
#[derive(Debug, Clone, Copy, PartialEq, Eq, Hash, PartialOrd, Ord, Structural)]
pub struct LocalId(pub u32);

/// The number of a block.
#[derive(Debug, Clone, Copy, PartialEq, Eq, Hash, PartialOrd, Ord, Structural)]
pub struct BlockId(pub u32);

/// What is called: a function of the module or a closure in a local.
#[derive(Debug, Clone, Copy, PartialEq, Eq, Structural)]
pub enum FuncRef {
    Index(usize),
    Local(LocalId),
}

/// The handler binding that an effect operation was resolved to.
#[derive(Debug, Clone, Copy, PartialEq, Eq, Structural)]
pub struct HandlerRef {
    pub table_index: u32,
    pub binding_index: u32,
}

/// A binding of a handler table.
#[derive(Debug, Clone, PartialEq, Eq)]
pub struct HandlerBindingDef {
    pub effect_name: String,
    pub params: Vec<LocalId>,
    /// Whether the handler resumes the operation.
    pub resume: bool,
    /// Whether it resumes at most once.
    pub single_shot: bool,
    pub body: BlockId,
}

/// A handler table.
#[derive(Debug, Clone, PartialEq, Eq)]
pub struct HandlerTableDef {
    pub bindings: Vec<HandlerBindingDef>,
}

/// A value that a statement computes.
#[derive(Debug, PartialEq, Eq)]
pub enum RValue {
    Const(Constant),
    Panic(String),
    Load(LocalId),
    LoadFieldNamed { obj: LocalId, field: String },
    LoadFieldPos { obj: LocalId, pos: usize },
    ArrayLoad { arr: LocalId, idx: LocalId },
    ArrayLen(LocalId),
    ArrayLit(Vec<LocalId>),
    Tuple(Vec<LocalId>),
    Unary(UnOp, LocalId),
    Binary(BinOp, LocalId, LocalId),
    StringEq(LocalId, LocalId),
    StrConcat(LocalId, LocalId),
    Call { func: FuncRef, args: Vec<LocalId> },
    Closure { func: usize, captures: Vec<LocalId> },
    Record(Vec<(String, LocalId)>),
    RecordUpdate { base: LocalId, overrides: Vec<(String, LocalId)> },
    Perform {
        effect: String,
        op: String,
        args: Vec<LocalId>,
        resolved_handler: Option<HandlerRef>,
    },
    PerformAsync { effect_op: String, args: Vec<LocalId> },
    FFICall { name: String, args: Vec<LocalId> },
    SignalWait { name: String },
    Receive,
    ReceiveMatch { behavior_ids: Vec<u16>, max_params: u8 },
    ReceiveWait { behavior_ids: Vec<u16>, max_params: u8, timeout: LocalId },
    ReceiveCommit,
    SelfRef,
    StateGet { field: String },
    Migrate { actor: LocalId, node: LocalId },
    CapabilityCheck { val: LocalId },
    Resume(LocalId),
    Spawn {
        actor: String,
        init: Vec<(String, RValue)>,
        target_node: Option<LocalId>,
    },
    Send { actor: LocalId, behavior: String, args: Vec<LocalId> },
    Ask { actor: LocalId, behavior: String, args: Vec<LocalId> },
}

/// A statement.
#[derive(Debug, PartialEq, Eq)]
pub enum Stmt {
    Assign { dst: LocalId, op: RValue },
    StoreFieldNamed { obj: LocalId, field: String, src: LocalId },
    ArrayStore { arr: LocalId, idx: LocalId, src: LocalId },
    Emit { event: String, args: Vec<LocalId> },
    StateSet { field: String, src: LocalId },
    EnterHandle { table_index: u32 },
    PopHandler,
    ParallelMarker { branches: usize },
}

/// How a block ends.
#[derive(Debug, Clone, PartialEq, Eq)]
pub enum Terminator {
    Return(Option<LocalId>),
    Jump(BlockId),
    Branch { cond: LocalId, then_: BlockId, else_: BlockId },
    Resume(LocalId),
    Unterminated,
}

/// A block.
#[derive(Debug, PartialEq, Eq)]
pub struct Block {
    pub id: BlockId,
    pub stmts: Vec<Stmt>,
    pub terminator: Terminator,
}

/// A declared local.
#[derive(Debug, Clone, PartialEq, Eq)]
pub struct Local {
    pub id: LocalId,
}

/// A function.
#[derive(Debug, PartialEq, Eq)]
pub struct Function {
    pub name: String,
    pub params: Vec<String>,
    pub captures: Vec<String>,
    pub locals: Vec<Local>,
    pub blocks: Vec<Block>,
    pub entry: BlockId,
    pub handler_tables: Vec<HandlerTableDef>,
}

} // verus!
