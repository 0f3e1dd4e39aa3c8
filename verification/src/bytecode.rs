//! Bytecode instruction set, instruction encoding and module format.

use crate::numbers::{self, parse_radix, NumberError};
use crate::text::{self, cat2, cat4, str_eq, text};
use vstd::prelude::*;

verus! {

/// Operation codes. [`OpCode::as_u8`] gives the stable byte of each.
#[derive(Debug, Clone, Copy, PartialEq, Eq, Structural)]
pub enum OpCode {
    /// No operation
    Nop,
    /// Stop execution
    Halt,
    /// Runtime panic with message from const pool
    Panic,
    /// Load constant 0 (small int optimization)
    Const0,
    /// Load constant 1
    Const1,
    /// Load constant 2
    Const2,
    /// Load constant -1
    ConstM1,
    /// Load constant from pool (idx: u16)
    ConstU,
    /// Load large constant from pool (idx: u32)
    ConstL,
    /// Load from local register (src_reg, dst_reg, _)
    Load,
    /// Store to local register (src_reg, dst_reg, _)
    Store,
    /// Register to register copy (src, dst, _)
    Move,
    /// Pop top of call stack into register
    Pop,
    /// Duplicate register value
    Dup,
    /// Swap two registers
    Swap,
    /// Integer add (r1, r2, dst)
    IAdd,
    /// Integer sub
    ISub,
    /// Integer mul
    IMul,
    /// Integer div (checked)
    IDiv,
    /// Integer modulo
    IMod,
    /// Integer negate
    INeg,
    /// Increment register by 1
    IInc,
    /// Decrement register by 1
    IDec,
    /// Integer power
    IPow,
    /// Bitwise xor
    Xor,
    /// Bitwise shift left
    Shl,
    /// Bitwise shift right
    Shr,
    /// Bitwise and
    BitAnd,
    /// Bitwise or
    BitOr,
    /// Float add
    FAdd,
    /// Float sub
    FSub,
    /// Float mul
    FMul,
    /// Float div
    FDiv,
    /// Float negate
    FNeg,
    /// Float modulo
    FMod,
    /// Int to Float conversion
    IToF,
    /// Float to Int (truncate)
    FToI,
    /// Float to String
    FToS,
    /// Float power
    FPow,
    /// Int compare ==
    ICmpEq,
    /// Int compare <
    ICmpLt,
    /// Int compare >
    ICmpGt,
    /// Int <=
    ICmpLe,
    /// Int >=
    ICmpGe,
    /// Float ==
    FCmpEq,
    /// Float <
    FCmpLt,
    /// Float >
    FCmpGt,
    /// String ==
    SCmpEq,
    /// Boolean not
    Not,
    /// Boolean and
    And,
    /// Boolean or
    Or,
    /// Unconditional jump (offset: i16)
    Jmp,
    /// Jump if true (reg, offset: i16)
    JmpT,
    /// Jump if false
    JmpF,
    /// Switch table (reg, table_idx)
    Switch,
    /// Call function (func_reg, argc, dst_reg)
    Call,
    /// Tail call optimization
    TailCall,
    /// Return from function
    Ret,
    /// Return value in register
    RetVal,
    /// Create closure (func_idx, env_count, dst)
    Closure,
    /// Load from capture (closure_reg, idx, dst)
    CapLoad,
    /// Store to capture
    CapStore,
    /// Reserved — was free variable capture; never emitted
    FreeVar,
    /// Call closure (closure_reg, argc, dst)
    ClosureCall,
    /// Allocate object (size, type_id, dst)
    Alloc,
    /// Load field (obj_reg, field_idx, dst)
    FieldL,
    /// Store field (obj_reg, field_idx, src)
    FieldS,
    /// Allocate array (len_reg, elem_type, dst)
    ArrAlloc,
    /// Array load (arr_reg, idx_reg, dst)
    ArrLoad,
    /// Array store
    ArrStore,
    /// Array length (arr_reg, dst)
    ArrLen,
    /// Create tuple (count, dst)
    TupleMk,
    /// Tuple field load
    TupleL,
    /// Create record (field_count, dst)
    RecMk,
    /// Record field load by name (const_idx)
    RecL,
    /// Record field store
    RecS,
    /// Variant tag check (val_reg, tag_id, dst)
    IsTag,
    /// Variant unpack (val_reg, dst)
    Unpack,
    /// Deep copy (ref_cap, src, dst)
    Copy,
    /// Drop / deallocate (rc_dec or free)
    Drop,
    /// Spawn actor (behavior_idx, init_reg, dst_addr)
    Spawn,
    /// Send message (addr_reg, behavior_id, args...)
    Send,
    /// Ask / request-response
    Ask,
    /// Get self actor address (dst)
    SelfOp,
    /// Receive / await message (timeout_reg)
    Receive,
    /// Monitor actor (target_addr, dst)
    Monitor,
    /// Demonitor
    Demon,
    /// Link actors bidirectionally
    Link,
    /// Unlink actors
    Unlink,
    /// Exit / terminate actor (reason_reg)
    Exit,
    /// Yield execution (reduction quota exhausted)
    Yield,
    /// Load current actor state field by name (field_const_idx, dst)
    StateGet,
    /// Store to current actor state field by name (val_reg, field_const_idx)
    StateSet,
    /// Emit event (event_name_const_idx, arg_count)
    Emit,
    /// Workflow signal wait (signal_name_const_idx, dst)
    SignalWait,
    /// Selective receive (spec_const_idx, dst); payload lands in dst+1..
    ReceiveMatch,
    /// Perform effect operation (eff_id, op_id, args, dst)
    Perform,
    /// Install effect handler (handler_table_idx)
    Handle,
    /// Resume from effect handler with value (val_reg)
    Resume,
    /// Unwind effect handler
    Unwind,
    /// Import Python module (module_name_const_idx, dst_reg, _)
    PyImport,
    /// Get attribute from Python object (obj_reg, attr_name_const_idx, dst_reg)
    PyGetAttr,
    /// Call Python callable (callable_reg, arg_count, dst_reg)
    PyCall,
    /// Call Python callable with kwargs (callable_reg, args_tuple_reg, kwargs_dict_reg, dst_reg uses op3)
    PyCallKw,
    /// Set attribute on Python object (obj_reg, attr_name_const_idx, val_reg)
    PySetAttr,
    /// Convert Python object to Nulang Value (py_val_reg, dst_reg, _)
    PyToNu,
    /// Convert Nulang Value to Python object (nu_val_reg, dst_reg, _)
    PyFromNu,
    /// Decrement Python object reference count (py_val_reg, _, _)
    PyRelease,
    /// == Python Interop (0x94-0x9B) ==
    PerformDirect,
    RecCopy,
    /// / Commit a selective receive: removes the matched ("tried") message
    ReceiveWait,
    /// == FFI (0xB0-0xBF) ==
    ReceiveCommit,
    /// Call foreign function (func_idx high, func_idx low, dst)
    FFICall,
    /// == Distribution (0xD0-0xDF) ==
    PerformAsync,
    /// Get current node id (dst)
    NodeId,
    /// Migrate actor (addr_reg, node_id_reg, dst)
    Migrate,
    /// Remote send (addr_reg, behavior_id, args)
    RSend,
    /// Remote ask
    RAsk,
    /// Remote spawn (node_id, behavior, init)
    RSpawn,
    /// Gossip cluster state
    Gossip,
    /// String concatenation
    SConcat,
    /// Print to stdout
    SPrint,
    /// Read line from stdin
    SRead,
    /// File open
    FOpen,
    /// File read
    FRead,
    /// File write
    FWrite,
    /// File close
    FClose,
    /// Print any value (uses debug fmt)
    Print,
    /// Debugger breakpoint
    DbgBreak,
    /// Debug print register state
    DbgPrint,
    /// Debug print call stack
    DbgStack,
    /// Get type of value at runtime
    MetaType,
    /// Get capability of reference at runtime
    MetaCap,
    /// / Store a register into the frame's spill vector.
    SpillLoad,
    SpillStore,
}

impl OpCode {
    /// The byte that stands for the operation.
    pub open spec fn byte(self) -> u8 {
        match self {
            OpCode::Nop => 0x00,
            OpCode::Halt => 0x01,
            OpCode::Panic => 0x02,
            OpCode::Const0 => 0x03,
            OpCode::Const1 => 0x04,
            OpCode::Const2 => 0x05,
            OpCode::ConstM1 => 0x06,
            OpCode::ConstU => 0x07,
            OpCode::ConstL => 0x08,
            OpCode::Load => 0x10,
            OpCode::Store => 0x11,
            OpCode::Move => 0x12,
            OpCode::Pop => 0x13,
            OpCode::Dup => 0x14,
            OpCode::Swap => 0x15,
            OpCode::IAdd => 0x20,
            OpCode::ISub => 0x21,
            OpCode::IMul => 0x22,
            OpCode::IDiv => 0x23,
            OpCode::IMod => 0x24,
            OpCode::INeg => 0x25,
            OpCode::IInc => 0x26,
            OpCode::IDec => 0x27,
            OpCode::IPow => 0x28,
            OpCode::Xor => 0x29,
            OpCode::Shl => 0x2a,
            OpCode::Shr => 0x2b,
            OpCode::BitAnd => 0x2c,
            OpCode::BitOr => 0x2d,
            OpCode::FAdd => 0x30,
            OpCode::FSub => 0x31,
            OpCode::FMul => 0x32,
            OpCode::FDiv => 0x33,
            OpCode::FNeg => 0x34,
            OpCode::FMod => 0x35,
            OpCode::IToF => 0x36,
            OpCode::FToI => 0x37,
            OpCode::FToS => 0x38,
            OpCode::FPow => 0x39,
            OpCode::ICmpEq => 0x40,
            OpCode::ICmpLt => 0x41,
            OpCode::ICmpGt => 0x42,
            OpCode::ICmpLe => 0x43,
            OpCode::ICmpGe => 0x44,
            OpCode::FCmpEq => 0x45,
            OpCode::FCmpLt => 0x46,
            OpCode::FCmpGt => 0x47,
            OpCode::SCmpEq => 0x48,
            OpCode::Not => 0x49,
            OpCode::And => 0x4a,
            OpCode::Or => 0x4b,
            OpCode::Jmp => 0x50,
            OpCode::JmpT => 0x51,
            OpCode::JmpF => 0x52,
            OpCode::Switch => 0x53,
            OpCode::Call => 0x54,
            OpCode::TailCall => 0x55,
            OpCode::Ret => 0x56,
            OpCode::RetVal => 0x57,
            OpCode::Closure => 0x60,
            OpCode::CapLoad => 0x61,
            OpCode::CapStore => 0x62,
            OpCode::FreeVar => 0x63,
            OpCode::ClosureCall => 0x64,
            OpCode::Alloc => 0x70,
            OpCode::FieldL => 0x71,
            OpCode::FieldS => 0x72,
            OpCode::ArrAlloc => 0x73,
            OpCode::ArrLoad => 0x74,
            OpCode::ArrStore => 0x75,
            OpCode::ArrLen => 0x76,
            OpCode::TupleMk => 0x77,
            OpCode::TupleL => 0x78,
            OpCode::RecMk => 0x79,
            OpCode::RecL => 0x7a,
            OpCode::RecS => 0x7b,
            OpCode::IsTag => 0x7c,
            OpCode::Unpack => 0x7d,
            OpCode::Copy => 0x7e,
            OpCode::Drop => 0x7f,
            OpCode::Spawn => 0x80,
            OpCode::Send => 0x81,
            OpCode::Ask => 0x82,
            OpCode::SelfOp => 0x83,
            OpCode::Receive => 0x84,
            OpCode::Monitor => 0x85,
            OpCode::Demon => 0x86,
            OpCode::Link => 0x87,
            OpCode::Unlink => 0x88,
            OpCode::Exit => 0x89,
            OpCode::Yield => 0x8a,
            OpCode::StateGet => 0x8b,
            OpCode::StateSet => 0x8c,
            OpCode::Emit => 0x8d,
            OpCode::SignalWait => 0x8e,
            OpCode::ReceiveMatch => 0x8f,
            OpCode::Perform => 0x90,
            OpCode::Handle => 0x91,
            OpCode::Resume => 0x92,
            OpCode::Unwind => 0x93,
            OpCode::PyImport => 0x94,
            OpCode::PyGetAttr => 0x95,
            OpCode::PyCall => 0x96,
            OpCode::PyCallKw => 0x97,
            OpCode::PySetAttr => 0x98,
            OpCode::PyToNu => 0x99,
            OpCode::PyFromNu => 0x9a,
            OpCode::PyRelease => 0x9b,
            OpCode::PerformDirect => 0x9c,
            OpCode::RecCopy => 0x9d,
            OpCode::ReceiveWait => 0xa0,
            OpCode::ReceiveCommit => 0xa1,
            OpCode::FFICall => 0xb0,
            OpCode::PerformAsync => 0xc6,
            OpCode::NodeId => 0xd0,
            OpCode::Migrate => 0xd1,
            OpCode::RSend => 0xd2,
            OpCode::RAsk => 0xd3,
            OpCode::RSpawn => 0xd4,
            OpCode::Gossip => 0xd5,
            OpCode::SConcat => 0xe0,
            OpCode::SPrint => 0xe1,
            OpCode::SRead => 0xe2,
            OpCode::FOpen => 0xe3,
            OpCode::FRead => 0xe4,
            OpCode::FWrite => 0xe5,
            OpCode::FClose => 0xe6,
            OpCode::Print => 0xe7,
            OpCode::DbgBreak => 0xf0,
            OpCode::DbgPrint => 0xf1,
            OpCode::DbgStack => 0xf2,
            OpCode::MetaType => 0xf3,
            OpCode::MetaCap => 0xf4,
            OpCode::SpillLoad => 0xf5,
            OpCode::SpillStore => 0xf6,
        }
    }

    /// The name of the operation.
    pub open spec fn spec_name(self) -> Seq<char> {
        match self {
            OpCode::Nop => "Nop"@,
            OpCode::Halt => "Halt"@,
            OpCode::Panic => "Panic"@,
            OpCode::Const0 => "Const0"@,
            OpCode::Const1 => "Const1"@,
            OpCode::Const2 => "Const2"@,
            OpCode::ConstM1 => "ConstM1"@,
            OpCode::ConstU => "ConstU"@,
            OpCode::ConstL => "ConstL"@,
            OpCode::Load => "Load"@,
            OpCode::Store => "Store"@,
            OpCode::Move => "Move"@,
            OpCode::Pop => "Pop"@,
            OpCode::Dup => "Dup"@,
            OpCode::Swap => "Swap"@,
            OpCode::IAdd => "IAdd"@,
            OpCode::ISub => "ISub"@,
            OpCode::IMul => "IMul"@,
            OpCode::IDiv => "IDiv"@,
            OpCode::IMod => "IMod"@,
            OpCode::INeg => "INeg"@,
            OpCode::IInc => "IInc"@,
            OpCode::IDec => "IDec"@,
            OpCode::IPow => "IPow"@,
            OpCode::Xor => "Xor"@,
            OpCode::Shl => "Shl"@,
            OpCode::Shr => "Shr"@,
            OpCode::BitAnd => "BitAnd"@,
            OpCode::BitOr => "BitOr"@,
            OpCode::FAdd => "FAdd"@,
            OpCode::FSub => "FSub"@,
            OpCode::FMul => "FMul"@,
            OpCode::FDiv => "FDiv"@,
            OpCode::FNeg => "FNeg"@,
            OpCode::FMod => "FMod"@,
            OpCode::IToF => "IToF"@,
            OpCode::FToI => "FToI"@,
            OpCode::FToS => "FToS"@,
            OpCode::FPow => "FPow"@,
            OpCode::ICmpEq => "ICmpEq"@,
            OpCode::ICmpLt => "ICmpLt"@,
            OpCode::ICmpGt => "ICmpGt"@,
            OpCode::ICmpLe => "ICmpLe"@,
            OpCode::ICmpGe => "ICmpGe"@,
            OpCode::FCmpEq => "FCmpEq"@,
            OpCode::FCmpLt => "FCmpLt"@,
            OpCode::FCmpGt => "FCmpGt"@,
            OpCode::SCmpEq => "SCmpEq"@,
            OpCode::Not => "Not"@,
            OpCode::And => "And"@,
            OpCode::Or => "Or"@,
            OpCode::Jmp => "Jmp"@,
            OpCode::JmpT => "JmpT"@,
            OpCode::JmpF => "JmpF"@,
            OpCode::Switch => "Switch"@,
            OpCode::Call => "Call"@,
            OpCode::TailCall => "TailCall"@,
            OpCode::Ret => "Ret"@,
            OpCode::RetVal => "RetVal"@,
            OpCode::Closure => "Closure"@,
            OpCode::CapLoad => "CapLoad"@,
            OpCode::CapStore => "CapStore"@,
            OpCode::FreeVar => "FreeVar"@,
            OpCode::ClosureCall => "ClosureCall"@,
            OpCode::Alloc => "Alloc"@,
            OpCode::FieldL => "FieldL"@,
            OpCode::FieldS => "FieldS"@,
            OpCode::ArrAlloc => "ArrAlloc"@,
            OpCode::ArrLoad => "ArrLoad"@,
            OpCode::ArrStore => "ArrStore"@,
            OpCode::ArrLen => "ArrLen"@,
            OpCode::TupleMk => "TupleMk"@,
            OpCode::TupleL => "TupleL"@,
            OpCode::RecMk => "RecMk"@,
            OpCode::RecL => "RecL"@,
            OpCode::RecS => "RecS"@,
            OpCode::IsTag => "IsTag"@,
            OpCode::Unpack => "Unpack"@,
            OpCode::Copy => "Copy"@,
            OpCode::Drop => "Drop"@,
            OpCode::Spawn => "Spawn"@,
            OpCode::Send => "Send"@,
            OpCode::Ask => "Ask"@,
            OpCode::SelfOp => "SelfOp"@,
            OpCode::Receive => "Receive"@,
            OpCode::Monitor => "Monitor"@,
            OpCode::Demon => "Demon"@,
            OpCode::Link => "Link"@,
            OpCode::Unlink => "Unlink"@,
            OpCode::Exit => "Exit"@,
            OpCode::Yield => "Yield"@,
            OpCode::StateGet => "StateGet"@,
            OpCode::StateSet => "StateSet"@,
            OpCode::Emit => "Emit"@,
            OpCode::SignalWait => "SignalWait"@,
            OpCode::ReceiveMatch => "ReceiveMatch"@,
            OpCode::Perform => "Perform"@,
            OpCode::Handle => "Handle"@,
            OpCode::Resume => "Resume"@,
            OpCode::Unwind => "Unwind"@,
            OpCode::PyImport => "PyImport"@,
            OpCode::PyGetAttr => "PyGetAttr"@,
            OpCode::PyCall => "PyCall"@,
            OpCode::PyCallKw => "PyCallKw"@,
            OpCode::PySetAttr => "PySetAttr"@,
            OpCode::PyToNu => "PyToNu"@,
            OpCode::PyFromNu => "PyFromNu"@,
            OpCode::PyRelease => "PyRelease"@,
            OpCode::PerformDirect => "PerformDirect"@,
            OpCode::RecCopy => "RecCopy"@,
            OpCode::ReceiveWait => "ReceiveWait"@,
            OpCode::ReceiveCommit => "ReceiveCommit"@,
            OpCode::FFICall => "FFICall"@,
            OpCode::PerformAsync => "PerformAsync"@,
            OpCode::NodeId => "NodeId"@,
            OpCode::Migrate => "Migrate"@,
            OpCode::RSend => "RSend"@,
            OpCode::RAsk => "RAsk"@,
            OpCode::RSpawn => "RSpawn"@,
            OpCode::Gossip => "Gossip"@,
            OpCode::SConcat => "SConcat"@,
            OpCode::SPrint => "SPrint"@,
            OpCode::SRead => "SRead"@,
            OpCode::FOpen => "FOpen"@,
            OpCode::FRead => "FRead"@,
            OpCode::FWrite => "FWrite"@,
            OpCode::FClose => "FClose"@,
            OpCode::Print => "Print"@,
            OpCode::DbgBreak => "DbgBreak"@,
            OpCode::DbgPrint => "DbgPrint"@,
            OpCode::DbgStack => "DbgStack"@,
            OpCode::MetaType => "MetaType"@,
            OpCode::MetaCap => "MetaCap"@,
            OpCode::SpillLoad => "SpillLoad"@,
            OpCode::SpillStore => "SpillStore"@,
        }
    }

    /// The operation that a byte stands for; gaps stand for none.
    pub fn from_u8(v: u8) -> (r: Option<Self>)
        ensures
            match r {
                Some(op) => op.byte() == v,
                None => forall|op: OpCode| #[trigger] op.byte() != v,
            },
    {
        match v {
            0x00 => Some(OpCode::Nop),
            0x01 => Some(OpCode::Halt),
            0x02 => Some(OpCode::Panic),
            0x03 => Some(OpCode::Const0),
            0x04 => Some(OpCode::Const1),
            0x05 => Some(OpCode::Const2),
            0x06 => Some(OpCode::ConstM1),
            0x07 => Some(OpCode::ConstU),
            0x08 => Some(OpCode::ConstL),
            0x10 => Some(OpCode::Load),
            0x11 => Some(OpCode::Store),
            0x12 => Some(OpCode::Move),
            0x13 => Some(OpCode::Pop),
            0x14 => Some(OpCode::Dup),
            0x15 => Some(OpCode::Swap),
            0x20 => Some(OpCode::IAdd),
            0x21 => Some(OpCode::ISub),
            0x22 => Some(OpCode::IMul),
            0x23 => Some(OpCode::IDiv),
            0x24 => Some(OpCode::IMod),
            0x25 => Some(OpCode::INeg),
            0x26 => Some(OpCode::IInc),
            0x27 => Some(OpCode::IDec),
            0x28 => Some(OpCode::IPow),
            0x29 => Some(OpCode::Xor),
            0x2a => Some(OpCode::Shl),
            0x2b => Some(OpCode::Shr),
            0x2c => Some(OpCode::BitAnd),
            0x2d => Some(OpCode::BitOr),
            0x30 => Some(OpCode::FAdd),
            0x31 => Some(OpCode::FSub),
            0x32 => Some(OpCode::FMul),
            0x33 => Some(OpCode::FDiv),
            0x34 => Some(OpCode::FNeg),
            0x35 => Some(OpCode::FMod),
            0x36 => Some(OpCode::IToF),
            0x37 => Some(OpCode::FToI),
            0x38 => Some(OpCode::FToS),
            0x39 => Some(OpCode::FPow),
            0x40 => Some(OpCode::ICmpEq),
            0x41 => Some(OpCode::ICmpLt),
            0x42 => Some(OpCode::ICmpGt),
            0x43 => Some(OpCode::ICmpLe),
            0x44 => Some(OpCode::ICmpGe),
            0x45 => Some(OpCode::FCmpEq),
            0x46 => Some(OpCode::FCmpLt),
            0x47 => Some(OpCode::FCmpGt),
            0x48 => Some(OpCode::SCmpEq),
            0x49 => Some(OpCode::Not),
            0x4a => Some(OpCode::And),
            0x4b => Some(OpCode::Or),
            0x50 => Some(OpCode::Jmp),
            0x51 => Some(OpCode::JmpT),
            0x52 => Some(OpCode::JmpF),
            0x53 => Some(OpCode::Switch),
            0x54 => Some(OpCode::Call),
            0x55 => Some(OpCode::TailCall),
            0x56 => Some(OpCode::Ret),
            0x57 => Some(OpCode::RetVal),
            0x60 => Some(OpCode::Closure),
            0x61 => Some(OpCode::CapLoad),
            0x62 => Some(OpCode::CapStore),
            0x63 => Some(OpCode::FreeVar),
            0x64 => Some(OpCode::ClosureCall),
            0x70 => Some(OpCode::Alloc),
            0x71 => Some(OpCode::FieldL),
            0x72 => Some(OpCode::FieldS),
            0x73 => Some(OpCode::ArrAlloc),
            0x74 => Some(OpCode::ArrLoad),
            0x75 => Some(OpCode::ArrStore),
            0x76 => Some(OpCode::ArrLen),
            0x77 => Some(OpCode::TupleMk),
            0x78 => Some(OpCode::TupleL),
            0x79 => Some(OpCode::RecMk),
            0x7a => Some(OpCode::RecL),
            0x7b => Some(OpCode::RecS),
            0x7c => Some(OpCode::IsTag),
            0x7d => Some(OpCode::Unpack),
            0x7e => Some(OpCode::Copy),
            0x7f => Some(OpCode::Drop),
            0x80 => Some(OpCode::Spawn),
            0x81 => Some(OpCode::Send),
            0x82 => Some(OpCode::Ask),
            0x83 => Some(OpCode::SelfOp),
            0x84 => Some(OpCode::Receive),
            0x85 => Some(OpCode::Monitor),
            0x86 => Some(OpCode::Demon),
            0x87 => Some(OpCode::Link),
            0x88 => Some(OpCode::Unlink),
            0x89 => Some(OpCode::Exit),
            0x8a => Some(OpCode::Yield),
            0x8b => Some(OpCode::StateGet),
            0x8c => Some(OpCode::StateSet),
            0x8d => Some(OpCode::Emit),
            0x8e => Some(OpCode::SignalWait),
            0x8f => Some(OpCode::ReceiveMatch),
            0x90 => Some(OpCode::Perform),
            0x91 => Some(OpCode::Handle),
            0x92 => Some(OpCode::Resume),
            0x93 => Some(OpCode::Unwind),
            0x94 => Some(OpCode::PyImport),
            0x95 => Some(OpCode::PyGetAttr),
            0x96 => Some(OpCode::PyCall),
            0x97 => Some(OpCode::PyCallKw),
            0x98 => Some(OpCode::PySetAttr),
            0x99 => Some(OpCode::PyToNu),
            0x9a => Some(OpCode::PyFromNu),
            0x9b => Some(OpCode::PyRelease),
            0x9c => Some(OpCode::PerformDirect),
            0x9d => Some(OpCode::RecCopy),
            0xa0 => Some(OpCode::ReceiveWait),
            0xa1 => Some(OpCode::ReceiveCommit),
            0xb0 => Some(OpCode::FFICall),
            0xc6 => Some(OpCode::PerformAsync),
            0xd0 => Some(OpCode::NodeId),
            0xd1 => Some(OpCode::Migrate),
            0xd2 => Some(OpCode::RSend),
            0xd3 => Some(OpCode::RAsk),
            0xd4 => Some(OpCode::RSpawn),
            0xd5 => Some(OpCode::Gossip),
            0xe0 => Some(OpCode::SConcat),
            0xe1 => Some(OpCode::SPrint),
            0xe2 => Some(OpCode::SRead),
            0xe3 => Some(OpCode::FOpen),
            0xe4 => Some(OpCode::FRead),
            0xe5 => Some(OpCode::FWrite),
            0xe6 => Some(OpCode::FClose),
            0xe7 => Some(OpCode::Print),
            0xf0 => Some(OpCode::DbgBreak),
            0xf1 => Some(OpCode::DbgPrint),
            0xf2 => Some(OpCode::DbgStack),
            0xf3 => Some(OpCode::MetaType),
            0xf4 => Some(OpCode::MetaCap),
            0xf5 => Some(OpCode::SpillLoad),
            0xf6 => Some(OpCode::SpillStore),
            _ => None,
        }
    }

    pub fn as_u8(self) -> (r: u8)
        ensures
            r == self.byte(),
    {
        match self {
            OpCode::Nop => 0x00,
            OpCode::Halt => 0x01,
            OpCode::Panic => 0x02,
            OpCode::Const0 => 0x03,
            OpCode::Const1 => 0x04,
            OpCode::Const2 => 0x05,
            OpCode::ConstM1 => 0x06,
            OpCode::ConstU => 0x07,
            OpCode::ConstL => 0x08,
            OpCode::Load => 0x10,
            OpCode::Store => 0x11,
            OpCode::Move => 0x12,
            OpCode::Pop => 0x13,
            OpCode::Dup => 0x14,
            OpCode::Swap => 0x15,
            OpCode::IAdd => 0x20,
            OpCode::ISub => 0x21,
            OpCode::IMul => 0x22,
            OpCode::IDiv => 0x23,
            OpCode::IMod => 0x24,
            OpCode::INeg => 0x25,
            OpCode::IInc => 0x26,
            OpCode::IDec => 0x27,
            OpCode::IPow => 0x28,
            OpCode::Xor => 0x29,
            OpCode::Shl => 0x2a,
            OpCode::Shr => 0x2b,
            OpCode::BitAnd => 0x2c,
            OpCode::BitOr => 0x2d,
            OpCode::FAdd => 0x30,
            OpCode::FSub => 0x31,
            OpCode::FMul => 0x32,
            OpCode::FDiv => 0x33,
            OpCode::FNeg => 0x34,
            OpCode::FMod => 0x35,
            OpCode::IToF => 0x36,
            OpCode::FToI => 0x37,
            OpCode::FToS => 0x38,
            OpCode::FPow => 0x39,
            OpCode::ICmpEq => 0x40,
            OpCode::ICmpLt => 0x41,
            OpCode::ICmpGt => 0x42,
            OpCode::ICmpLe => 0x43,
            OpCode::ICmpGe => 0x44,
            OpCode::FCmpEq => 0x45,
            OpCode::FCmpLt => 0x46,
            OpCode::FCmpGt => 0x47,
            OpCode::SCmpEq => 0x48,
            OpCode::Not => 0x49,
            OpCode::And => 0x4a,
            OpCode::Or => 0x4b,
            OpCode::Jmp => 0x50,
            OpCode::JmpT => 0x51,
            OpCode::JmpF => 0x52,
            OpCode::Switch => 0x53,
            OpCode::Call => 0x54,
            OpCode::TailCall => 0x55,
            OpCode::Ret => 0x56,
            OpCode::RetVal => 0x57,
            OpCode::Closure => 0x60,
            OpCode::CapLoad => 0x61,
            OpCode::CapStore => 0x62,
            OpCode::FreeVar => 0x63,
            OpCode::ClosureCall => 0x64,
            OpCode::Alloc => 0x70,
            OpCode::FieldL => 0x71,
            OpCode::FieldS => 0x72,
            OpCode::ArrAlloc => 0x73,
            OpCode::ArrLoad => 0x74,
            OpCode::ArrStore => 0x75,
            OpCode::ArrLen => 0x76,
            OpCode::TupleMk => 0x77,
            OpCode::TupleL => 0x78,
            OpCode::RecMk => 0x79,
            OpCode::RecL => 0x7a,
            OpCode::RecS => 0x7b,
            OpCode::IsTag => 0x7c,
            OpCode::Unpack => 0x7d,
            OpCode::Copy => 0x7e,
            OpCode::Drop => 0x7f,
            OpCode::Spawn => 0x80,
            OpCode::Send => 0x81,
            OpCode::Ask => 0x82,
            OpCode::SelfOp => 0x83,
            OpCode::Receive => 0x84,
            OpCode::Monitor => 0x85,
            OpCode::Demon => 0x86,
            OpCode::Link => 0x87,
            OpCode::Unlink => 0x88,
            OpCode::Exit => 0x89,
            OpCode::Yield => 0x8a,
            OpCode::StateGet => 0x8b,
            OpCode::StateSet => 0x8c,
            OpCode::Emit => 0x8d,
            OpCode::SignalWait => 0x8e,
            OpCode::ReceiveMatch => 0x8f,
            OpCode::Perform => 0x90,
            OpCode::Handle => 0x91,
            OpCode::Resume => 0x92,
            OpCode::Unwind => 0x93,
            OpCode::PyImport => 0x94,
            OpCode::PyGetAttr => 0x95,
            OpCode::PyCall => 0x96,
            OpCode::PyCallKw => 0x97,
            OpCode::PySetAttr => 0x98,
            OpCode::PyToNu => 0x99,
            OpCode::PyFromNu => 0x9a,
            OpCode::PyRelease => 0x9b,
            OpCode::PerformDirect => 0x9c,
            OpCode::RecCopy => 0x9d,
            OpCode::ReceiveWait => 0xa0,
            OpCode::ReceiveCommit => 0xa1,
            OpCode::FFICall => 0xb0,
            OpCode::PerformAsync => 0xc6,
            OpCode::NodeId => 0xd0,
            OpCode::Migrate => 0xd1,
            OpCode::RSend => 0xd2,
            OpCode::RAsk => 0xd3,
            OpCode::RSpawn => 0xd4,
            OpCode::Gossip => 0xd5,
            OpCode::SConcat => 0xe0,
            OpCode::SPrint => 0xe1,
            OpCode::SRead => 0xe2,
            OpCode::FOpen => 0xe3,
            OpCode::FRead => 0xe4,
            OpCode::FWrite => 0xe5,
            OpCode::FClose => 0xe6,
            OpCode::Print => 0xe7,
            OpCode::DbgBreak => 0xf0,
            OpCode::DbgPrint => 0xf1,
            OpCode::DbgStack => 0xf2,
            OpCode::MetaType => 0xf3,
            OpCode::MetaCap => 0xf4,
            OpCode::SpillLoad => 0xf5,
            OpCode::SpillStore => 0xf6,
        }
    }

    /// The name of the operation.
    pub fn name(self) -> (r: String)
        ensures
            r@ == self.spec_name(),
    {
        match self {
            OpCode::Nop => text("Nop"),
            OpCode::Halt => text("Halt"),
            OpCode::Panic => text("Panic"),
            OpCode::Const0 => text("Const0"),
            OpCode::Const1 => text("Const1"),
            OpCode::Const2 => text("Const2"),
            OpCode::ConstM1 => text("ConstM1"),
            OpCode::ConstU => text("ConstU"),
            OpCode::ConstL => text("ConstL"),
            OpCode::Load => text("Load"),
            OpCode::Store => text("Store"),
            OpCode::Move => text("Move"),
            OpCode::Pop => text("Pop"),
            OpCode::Dup => text("Dup"),
            OpCode::Swap => text("Swap"),
            OpCode::IAdd => text("IAdd"),
            OpCode::ISub => text("ISub"),
            OpCode::IMul => text("IMul"),
            OpCode::IDiv => text("IDiv"),
            OpCode::IMod => text("IMod"),
            OpCode::INeg => text("INeg"),
            OpCode::IInc => text("IInc"),
            OpCode::IDec => text("IDec"),
            OpCode::IPow => text("IPow"),
            OpCode::Xor => text("Xor"),
            OpCode::Shl => text("Shl"),
            OpCode::Shr => text("Shr"),
            OpCode::BitAnd => text("BitAnd"),
            OpCode::BitOr => text("BitOr"),
            OpCode::FAdd => text("FAdd"),
            OpCode::FSub => text("FSub"),
            OpCode::FMul => text("FMul"),
            OpCode::FDiv => text("FDiv"),
            OpCode::FNeg => text("FNeg"),
            OpCode::FMod => text("FMod"),
            OpCode::IToF => text("IToF"),
            OpCode::FToI => text("FToI"),
            OpCode::FToS => text("FToS"),
            OpCode::FPow => text("FPow"),
            OpCode::ICmpEq => text("ICmpEq"),
            OpCode::ICmpLt => text("ICmpLt"),
            OpCode::ICmpGt => text("ICmpGt"),
            OpCode::ICmpLe => text("ICmpLe"),
            OpCode::ICmpGe => text("ICmpGe"),
            OpCode::FCmpEq => text("FCmpEq"),
            OpCode::FCmpLt => text("FCmpLt"),
            OpCode::FCmpGt => text("FCmpGt"),
            OpCode::SCmpEq => text("SCmpEq"),
            OpCode::Not => text("Not"),
            OpCode::And => text("And"),
            OpCode::Or => text("Or"),
            OpCode::Jmp => text("Jmp"),
            OpCode::JmpT => text("JmpT"),
            OpCode::JmpF => text("JmpF"),
            OpCode::Switch => text("Switch"),
            OpCode::Call => text("Call"),
            OpCode::TailCall => text("TailCall"),
            OpCode::Ret => text("Ret"),
            OpCode::RetVal => text("RetVal"),
            OpCode::Closure => text("Closure"),
            OpCode::CapLoad => text("CapLoad"),
            OpCode::CapStore => text("CapStore"),
            OpCode::FreeVar => text("FreeVar"),
            OpCode::ClosureCall => text("ClosureCall"),
            OpCode::Alloc => text("Alloc"),
            OpCode::FieldL => text("FieldL"),
            OpCode::FieldS => text("FieldS"),
            OpCode::ArrAlloc => text("ArrAlloc"),
            OpCode::ArrLoad => text("ArrLoad"),
            OpCode::ArrStore => text("ArrStore"),
            OpCode::ArrLen => text("ArrLen"),
            OpCode::TupleMk => text("TupleMk"),
            OpCode::TupleL => text("TupleL"),
            OpCode::RecMk => text("RecMk"),
            OpCode::RecL => text("RecL"),
            OpCode::RecS => text("RecS"),
            OpCode::IsTag => text("IsTag"),
            OpCode::Unpack => text("Unpack"),
            OpCode::Copy => text("Copy"),
            OpCode::Drop => text("Drop"),
            OpCode::Spawn => text("Spawn"),
            OpCode::Send => text("Send"),
            OpCode::Ask => text("Ask"),
            OpCode::SelfOp => text("SelfOp"),
            OpCode::Receive => text("Receive"),
            OpCode::Monitor => text("Monitor"),
            OpCode::Demon => text("Demon"),
            OpCode::Link => text("Link"),
            OpCode::Unlink => text("Unlink"),
            OpCode::Exit => text("Exit"),
            OpCode::Yield => text("Yield"),
            OpCode::StateGet => text("StateGet"),
            OpCode::StateSet => text("StateSet"),
            OpCode::Emit => text("Emit"),
            OpCode::SignalWait => text("SignalWait"),
            OpCode::ReceiveMatch => text("ReceiveMatch"),
            OpCode::Perform => text("Perform"),
            OpCode::Handle => text("Handle"),
            OpCode::Resume => text("Resume"),
            OpCode::Unwind => text("Unwind"),
            OpCode::PyImport => text("PyImport"),
            OpCode::PyGetAttr => text("PyGetAttr"),
            OpCode::PyCall => text("PyCall"),
            OpCode::PyCallKw => text("PyCallKw"),
            OpCode::PySetAttr => text("PySetAttr"),
            OpCode::PyToNu => text("PyToNu"),
            OpCode::PyFromNu => text("PyFromNu"),
            OpCode::PyRelease => text("PyRelease"),
            OpCode::PerformDirect => text("PerformDirect"),
            OpCode::RecCopy => text("RecCopy"),
            OpCode::ReceiveWait => text("ReceiveWait"),
            OpCode::ReceiveCommit => text("ReceiveCommit"),
            OpCode::FFICall => text("FFICall"),
            OpCode::PerformAsync => text("PerformAsync"),
            OpCode::NodeId => text("NodeId"),
            OpCode::Migrate => text("Migrate"),
            OpCode::RSend => text("RSend"),
            OpCode::RAsk => text("RAsk"),
            OpCode::RSpawn => text("RSpawn"),
            OpCode::Gossip => text("Gossip"),
            OpCode::SConcat => text("SConcat"),
            OpCode::SPrint => text("SPrint"),
            OpCode::SRead => text("SRead"),
            OpCode::FOpen => text("FOpen"),
            OpCode::FRead => text("FRead"),
            OpCode::FWrite => text("FWrite"),
            OpCode::FClose => text("FClose"),
            OpCode::Print => text("Print"),
            OpCode::DbgBreak => text("DbgBreak"),
            OpCode::DbgPrint => text("DbgPrint"),
            OpCode::DbgStack => text("DbgStack"),
            OpCode::MetaType => text("MetaType"),
            OpCode::MetaCap => text("MetaCap"),
            OpCode::SpillLoad => text("SpillLoad"),
            OpCode::SpillStore => text("SpillStore"),
        }
    }
}

/// Different operations have different bytes.
pub proof fn opcode_bytes_are_distinct(a: OpCode, b: OpCode)
    requires
        a.byte() == b.byte(),
    ensures
        a == b,
{
}

/// 32-bit fixed-width instruction: operation byte and three operand bytes.
#[derive(Debug, Clone, Copy, PartialEq, Eq, Structural)]
pub struct Instruction {
    pub opcode: OpCode,
    pub op1: u8,
    pub op2: u8,
    pub op3: u8,
}

/// A 16-bit number read as two's complement.
pub open spec fn signed16(v: int) -> int {
    if v < 0x8000 {
        v
    } else {
        v - 0x1_0000
    }
}

fn to_signed16(v: u16) -> (r: i16)
    ensures
        r == signed16(v as int),
{
    if v < 0x8000 {
        v as i16
    } else {
        (v as i32 - 0x1_0000) as i16
    }
}

impl Instruction {
    /// The 32-bit word: operation in the highest byte, then the operands.
    pub open spec fn word(self) -> int {
        self.opcode.byte() * 0x100_0000 + self.op1 * 0x1_0000 + self.op2 * 0x100 + self.op3
    }

    /// The 16-bit immediate of the first two operands.
    pub open spec fn imm(self) -> int {
        self.op1 * 0x100 + self.op2
    }

    /// The signed 16-bit offset of the last two operands.
    pub open spec fn offset(self) -> int {
        signed16(self.op2 * 0x100 + self.op3)
    }

    pub fn new0(opcode: OpCode) -> (r: Self)
        ensures
            r == (Instruction { opcode, op1: 0, op2: 0, op3: 0 }),
    {
        Instruction { opcode, op1: 0, op2: 0, op3: 0 }
    }

    pub fn new1(opcode: OpCode, a: u8) -> (r: Self)
        ensures
            r == (Instruction { opcode, op1: a, op2: 0, op3: 0 }),
    {
        Instruction { opcode, op1: a, op2: 0, op3: 0 }
    }

    pub fn new2(opcode: OpCode, a: u8, b: u8) -> (r: Self)
        ensures
            r == (Instruction { opcode, op1: a, op2: b, op3: 0 }),
    {
        Instruction { opcode, op1: a, op2: b, op3: 0 }
    }

    pub fn new3(opcode: OpCode, a: u8, b: u8, c: u8) -> (r: Self)
        ensures
            r == (Instruction { opcode, op1: a, op2: b, op3: c }),
    {
        Instruction { opcode, op1: a, op2: b, op3: c }
    }

    /// Encode as u32 (big-endian: opcode | op1 | op2 | op3).
    pub fn encode(&self) -> (r: u32)
        ensures
            r == self.word(),
    {
        self.opcode.as_u8() as u32 * 0x100_0000 + self.op1 as u32 * 0x1_0000 + self.op2 as u32
            * 0x100 + self.op3 as u32
    }

    /// Decode from u32; nothing when the highest byte is no operation.
    #[verifier::rlimit(60)]
    pub fn decode(encoded: u32) -> (r: Option<Self>)
        ensures
            match r {
                Some(i) => i.word() == encoded,
                None => forall|op: OpCode| #[trigger] op.byte() != encoded / 0x100_0000,
            },
    {
        let high: u8 = (encoded / 0x100_0000) as u8;
        match OpCode::from_u8(high) {
            None => None,
            Some(opcode) => {
                let op1: u8 = (encoded / 0x1_0000 % 0x100) as u8;
                let op2: u8 = (encoded / 0x100 % 0x100) as u8;
                let op3: u8 = (encoded % 0x100) as u8;
                assert(encoded == high * 0x100_0000 + op1 * 0x1_0000 + op2 * 0x100 + op3);
                Some(Instruction { opcode, op1, op2, op3 })
            },
        }
    }

    /// Get 16-bit immediate from op1+op2 (used by Jmp, ConstU, Call, etc.)
    pub fn imm16(&self) -> (r: u16)
        ensures
            r == self.imm(),
    {
        self.op1 as u16 * 0x100 + self.op2 as u16
    }

    /// Get signed 16-bit immediate from op1+op2.
    pub fn simm16(&self) -> (r: i16)
        ensures
            r == signed16(self.imm()),
    {
        to_signed16(self.imm16())
    }

    /// Get 16-bit offset from op2+op3 (used by JmpT, JmpF which store reg in op1)
    pub fn offset16(&self) -> (r: i16)
        ensures
            r == self.offset(),
    {
        to_signed16(self.op2 as u16 * 0x100 + self.op3 as u16)
    }
}

/// Words tell instructions apart, so decoding an encoding gives the same
/// instruction back.
pub proof fn instruction_words_are_distinct(a: Instruction, b: Instruction)
    requires
        a.word() == b.word(),
    ensures
        a == b,
{
    opcode_bytes_are_distinct(a.opcode, b.opcode);
}

/// Every word whose highest byte is an operation is the word of an instruction.
pub proof fn instruction_words_cover(op: OpCode, word: u32)
    requires
        op.byte() == word / 0x100_0000,
    ensures
        exists|i: Instruction| #[trigger] i.word() == word,
{
    let i = Instruction {
        opcode: op,
        op1: (word / 0x1_0000 % 0x100) as u8,
        op2: (word / 0x100 % 0x100) as u8,
        op3: (word % 0x100) as u8,
    };
    assert(i.word() == word);
}

/// Compile-time constants.
#[derive(Debug, Clone, PartialEq, Eq)]
pub enum Constant {
    Int(i64),
    /// The IEEE 754 bits of a double.
    Float(u64),
    String(String),
    Bool(bool),
    Nil,
    Unit,
    TypeDescriptor(String),
    FunctionRef(usize),
    BehaviorRef(usize),
}

/// A single binding from effect name to handler code offset.
#[derive(Debug, Clone, PartialEq, Eq)]
pub struct HandlerBinding {
    pub effect_name: String,
    /// Bytecode offset of the handler body (receives args in r0..rn).
    pub handler_offset: usize,
    /// Number of arguments the effect operation expects.
    pub arg_count: u8,
    /// Register to place the effect operation result into (for resume).
    pub result_reg: u8,
    /// Whether the continuation is consumed at most once.
    pub single_shot: bool,
}

/// A handler table: maps effect names to their handler implementations.
#[derive(Debug, Clone, PartialEq, Eq)]
pub struct HandlerTable {
    pub bindings: Vec<HandlerBinding>,
    /// Code offset to jump to if no binding matches.
    pub fallback_offset: Option<usize>,
}

#[derive(Debug, Clone, PartialEq, Eq)]
pub struct BehaviorTableEntry {
    pub name: String,
    pub param_count: usize,
    pub code_offset: usize,
    pub local_count: usize,
    pub effect_mask: u32,
    /// Code offset of the saga compensation expression of this step.
    pub compensate_offset: Option<usize>,
    pub content_hash: Option<[u8; 32]>,
    /// Source location (file, line, column).
    pub source_location: Option<(String, u32, u32)>,
    /// For synthetic parallel steps: the ordered names of the branches.
    pub parallel_branches: Option<Vec<String>>,
}

/// How a state field is kept.
#[derive(Debug, Clone, Copy, PartialEq, Eq, Structural)]
pub enum StateModel {
    Local,
    Durable,
    EventSourced,
    Crdt,
}

/// Compile-time backend selection of an actor.
#[derive(Debug, Clone, Copy, PartialEq, Eq, Structural)]
pub enum ActorBackendKind {
    Bytecode,
    Native,
    Wasm,
}

impl Default for ActorBackendKind {
    fn default() -> (r: Self)
        ensures
            r == ActorBackendKind::Bytecode,
    {
        ActorBackendKind::Bytecode
    }
}

/// A function exposed as a tool.
#[derive(Debug, Clone, PartialEq, Eq)]
pub struct ToolSchema {
    pub name: String,
    pub description: String,
}

/// Actor metadata for durable execution.
#[derive(Debug, Clone, PartialEq, Eq)]
pub struct ActorMeta {
    pub name: String,
    pub persistent: bool,
    pub state_models: Vec<(String, StateModel)>,
    pub state_defaults: Vec<(String, Constant)>,
    pub behavior_indices: Vec<usize>,
    pub is_workflow: bool,
    pub is_agent: bool,
    pub is_organization: bool,
    pub is_virtual: bool,
    pub tools: Vec<ToolSchema>,
    pub semantic_memory_dimensions: Option<usize>,
    pub procedural_memory_namespace: Option<String>,
    pub backend: ActorBackendKind,
    pub fallback_config: String,
    pub retry_config: String,
    pub type_hash: Option<[u8; 32]>,
    pub version: u32,
    pub migrations: String,
}

impl ActorMeta {
    /// Metadata of an actor with nothing but a name.
    pub open spec fn is_plain(self, name: Seq<char>) -> bool {
        &&& self.name@ == name
        &&& !self.persistent && !self.is_workflow && !self.is_agent && !self.is_organization
            && !self.is_virtual
        &&& self.state_models@.len() == 0 && self.state_defaults@.len() == 0
        &&& self.behavior_indices@.len() == 0 && self.tools@.len() == 0
        &&& self.semantic_memory_dimensions is None && self.procedural_memory_namespace is None
        &&& self.backend == ActorBackendKind::Bytecode
        &&& self.fallback_config@.len() == 0 && self.retry_config@.len() == 0
        &&& self.type_hash is None && self.version == 1 && self.migrations@.len() == 0
    }

    pub fn new(name: &str) -> (r: Self)
        ensures
            r.is_plain(name@),
    {
        ActorMeta {
            name: text(name),
            persistent: false,
            state_models: Vec::new(),
            state_defaults: Vec::new(),
            behavior_indices: Vec::new(),
            is_workflow: false,
            is_agent: false,
            is_organization: false,
            is_virtual: false,
            tools: Vec::new(),
            semantic_memory_dimensions: None,
            procedural_memory_namespace: None,
            backend: ActorBackendKind::Bytecode,
            fallback_config: String::new(),
            retry_config: String::new(),
            type_hash: None,
            version: 1,
            migrations: String::new(),
        }
    }
}

/// FFI primitive types supported by the bytecode compiler and VM.
#[derive(Debug, Clone, Copy, PartialEq, Eq, Structural)]
pub enum FfiType {
    Int,
    Float,
    Bool,
    String,
    Unit,
    Pointer,
}

/// A foreign function declaration.
#[derive(Debug, Clone, PartialEq, Eq)]
pub struct ForeignFunctionDef {
    pub library: String,
    pub symbol: String,
    pub params: Vec<FfiType>,
    pub ret: FfiType,
}

/// Per-function debug metadata: how to name a stack frame and which registers
/// hold which local variables.
#[derive(Debug, Clone, PartialEq, Eq)]
pub struct DebugFunctionInfo {
    pub name: String,
    /// Offset of the first instruction of this function.
    pub code_offset: usize,
    /// Number of instructions in the function.
    pub code_len: usize,
    /// Register indices of the function parameters.
    pub params: Vec<usize>,
    /// `(register index, optional local name)` for every local.
    pub locals: Vec<(usize, Option<String>)>,
}

/// Export table entry for library distribution.
#[derive(Debug, Clone, PartialEq, Eq)]
pub struct ExportTableEntry {
    pub name: String,
    pub kind: String,
    pub index: usize,
    pub type_sig: String,
}

/// A compiled module.
#[derive(Debug, Clone, PartialEq, Eq)]
pub struct CodeModule {
    pub name: String,
    pub constants: Vec<Constant>,
    pub instructions: Vec<Instruction>,
    pub behaviors: Vec<BehaviorTableEntry>,
    /// Code offsets of named functions.
    pub function_table: Vec<usize>,
    /// Local register count of each function.
    pub function_local_counts: Vec<usize>,
    pub exports: Vec<(String, usize)>,
    /// Entry point for inline `__main`.
    pub entry_point: Option<usize>,
    pub handler_tables: Vec<HandlerTable>,
    pub actor_metadata: Vec<ActorMeta>,
    pub foreign_functions: Vec<ForeignFunctionDef>,
    pub tools: Vec<ToolSchema>,
    /// Spawn-site init field overrides by instruction offset.
    pub spawn_init_overrides: Vec<(usize, Vec<(String, Constant)>)>,
    pub remote_spawn_init_fields: Vec<(usize, Vec<String>)>,
    /// Authority tokens attached to spawn sites.
    pub spawn_capability_grants: Vec<(usize, Vec<String>)>,
    /// Bytecode pc to 1-indexed source line, ordered by pc.
    pub line_table: Vec<(usize, u32)>,
    pub debug_functions: Vec<DebugFunctionInfo>,
    pub export_table: Vec<ExportTableEntry>,
}

/// A reader of encoded `.nbc` artifacts.
pub trait NbcReader: Sized {
    /// Decodes an artifact, or says why it is none.
    fn decode(&self, bytes: &[u8]) -> Result<CodeModule, String>;
}

/// Whether `answer` is what the reader returned for an artifact.
pub open spec fn nbc_decoded<R: NbcReader>(
    reader: &R,
    bytes: Seq<u8>,
    answer: Result<CodeModule, String>,
) -> bool {
    exists|given: &[u8]|
        given@ == bytes && #[trigger] call_ensures(R::decode, (reader, given), answer)
}

/// The absolute jump target modulo the 16-bit operand range.
fn jump_operand(instr_idx: usize, target_offset: i16) -> (r: u16)
    ensures
        r == (instr_idx + target_offset) % 0x1_0000,
{
    let low: i64 = (instr_idx % 0x1_0000) as i64 + target_offset as i64 + 0x1_0000;
    (low as u64 % 0x1_0000) as u16
}

/// The line-table entry with the greatest pc that is not above `pc`; of several
/// the last.
pub open spec fn line_entry(table: Seq<(usize, u32)>, pc: usize) -> Option<(usize, u32)>
    decreases table.len(),
{
    if table.len() == 0 {
        None
    } else {
        let before = line_entry(table.drop_last(), pc);
        let e = table.last();
        if e.0 <= pc && (before is None || (before->0).0 <= e.0) {
            Some(e)
        } else {
            before
        }
    }
}

/// The first entry whose line is at or after `line`.
pub open spec fn first_line_from(table: Seq<(usize, u32)>, line: u32) -> Option<(usize, u32)>
    decreases table.len(),
{
    if table.len() == 0 {
        None
    } else if table[0].1 >= line {
        Some(table[0])
    } else {
        first_line_from(table.skip(1), line)
    }
}

/// [`line_entry`] picks an entry at or below `pc` that no other such entry
/// exceeds, and picks none only when every entry lies above `pc`.
pub proof fn line_entry_is_greatest(table: Seq<(usize, u32)>, pc: usize)
    ensures
        match line_entry(table, pc) {
            Some(e) => table.contains(e) && e.0 <= pc && forall|i: int|
                0 <= i < table.len() && (#[trigger] table[i]).0 <= pc ==> table[i].0 <= e.0,
            None => forall|i: int| 0 <= i < table.len() ==> (#[trigger] table[i]).0 > pc,
        },
    decreases table.len(),
{
    if table.len() > 0 {
        let prev = table.drop_last();
        line_entry_is_greatest(prev, pc);
        if let Some(e) = line_entry(prev, pc) {
            let k = choose|k: int| 0 <= k < prev.len() && prev[k] == e;
            assert(table[k] == e);
        }
        assert(table[table.len() - 1] == table.last());
        assert forall|i: int| 0 <= i < table.len() - 1 implies table[i] == prev[i] by {}
    }
}

impl CodeModule {
    /// A module without tables: nothing but a name, code, constants and an
    /// entry point.
    pub open spec fn has_no_tables(self) -> bool {
        &&& self.behaviors@.len() == 0 && self.function_table@.len() == 0
        &&& self.function_local_counts@.len() == 0 && self.exports@.len() == 0
        &&& self.handler_tables@.len() == 0
        &&& self.actor_metadata@.len() == 0 && self.foreign_functions@.len() == 0
        &&& self.tools@.len() == 0 && self.spawn_init_overrides@.len() == 0
        &&& self.remote_spawn_init_fields@.len() == 0 && self.spawn_capability_grants@.len() == 0
        &&& self.line_table@.len() == 0 && self.debug_functions@.len() == 0
        &&& self.export_table@.len() == 0
    }

    /// A module that holds nothing but a name.
    pub open spec fn is_empty_named(self, name: Seq<char>) -> bool {
        &&& self.name@ == name
        &&& self.constants@.len() == 0 && self.instructions@.len() == 0
        &&& self.entry_point is None
        &&& self.has_no_tables()
    }

    pub fn new(name: &str) -> (r: Self)
        ensures
            r.is_empty_named(name@),
    {
        CodeModule {
            name: text(name),
            constants: Vec::new(),
            instructions: Vec::new(),
            behaviors: Vec::new(),
            function_table: Vec::new(),
            function_local_counts: Vec::new(),
            exports: Vec::new(),
            entry_point: None,
            handler_tables: Vec::new(),
            actor_metadata: Vec::new(),
            foreign_functions: Vec::new(),
            tools: Vec::new(),
            spawn_init_overrides: Vec::new(),
            remote_spawn_init_fields: Vec::new(),
            spawn_capability_grants: Vec::new(),
            line_table: Vec::new(),
            debug_functions: Vec::new(),
            export_table: Vec::new(),
        }
    }

    pub fn add_actor_meta(&mut self, meta: ActorMeta) -> (r: usize)
        ensures
            r == old(self).actor_metadata@.len(),
            final(self).actor_metadata@ == old(self).actor_metadata@.push(meta),
            *final(self) == (CodeModule { actor_metadata: final(self).actor_metadata, ..*old(self) }),
    {
        let idx: usize = self.actor_metadata.len();
        self.actor_metadata.push(meta);
        idx
    }

    pub fn emit(&mut self, instr: Instruction) -> (r: usize)
        ensures
            r == old(self).instructions@.len(),
            final(self).instructions@ == old(self).instructions@.push(instr),
            *final(self) == (CodeModule { instructions: final(self).instructions, ..*old(self) }),
    {
        let idx: usize = self.instructions.len();
        self.instructions.push(instr);
        idx
    }

    /// Stores the absolute target of a jump, modulo the 16-bit operand range,
    /// in the instruction at `instr_idx`; does nothing past the end.
    pub fn patch_jump(&mut self, instr_idx: usize, target_offset: i16)
        ensures
            *final(self) == (CodeModule { instructions: final(self).instructions, ..*old(self) }),
            instr_idx >= old(self).instructions@.len() ==> final(self).instructions@
                == old(self).instructions@,
            instr_idx < old(self).instructions@.len() ==> final(self).instructions@
                == old(self).instructions@.update(
                instr_idx as int,
                (Instruction {
                    op1: ((instr_idx + target_offset) % 0x1_0000 / 0x100) as u8,
                    op2: ((instr_idx + target_offset) % 0x1_0000 % 0x100) as u8,
                    ..old(self).instructions@[instr_idx as int]
                }),
            ),
    {
        if instr_idx < self.instructions.len() {
            let abs: u16 = jump_operand(instr_idx, target_offset);
            let old_instr: Instruction = self.instructions[instr_idx];
            let patched: Instruction = Instruction {
                opcode: old_instr.opcode,
                op1: (abs / 0x100) as u8,
                op2: (abs % 0x100) as u8,
                op3: old_instr.op3,
            };
            self.instructions.set(instr_idx, patched);
        }
    }

    /// Source line for a bytecode pc (greatest line-table pc <= `pc`), or
    /// `None` if `pc` precedes every recorded statement.
    pub fn line_at(&self, pc: usize) -> (r: Option<u32>)
        ensures
            r == match line_entry(self.line_table@, pc) {
                Some(e) => Some(e.1),
                None => None::<u32>,
            },
    {
        let mut best: Option<(usize, u32)> = None;
        let mut i: usize = 0;
        while i < self.line_table.len()
            invariant
                i <= self.line_table@.len(),
                best == line_entry(self.line_table@.take(i as int), pc),
            decreases self.line_table@.len() - i,
        {
            let e: (usize, u32) = self.line_table[i];
            assert(self.line_table@.take(i + 1).drop_last() =~= self.line_table@.take(i as int));
            assert(self.line_table@.take(i + 1).last() == e);
            if e.0 <= pc {
                match best {
                    None => {
                        best = Some(e);
                    },
                    Some(b) => {
                        if b.0 <= e.0 {
                            best = Some(e);
                        }
                    },
                }
            }
            i += 1;
        }
        assert(self.line_table@.take(self.line_table@.len() as int) =~= self.line_table@);
        match best {
            Some(e) => Some(e.1),
            None => None,
        }
    }

    /// Resolve a requested source `line` to a bytecode pc for breakpoint
    /// placement: the first entry at or after the line.
    pub fn resolve_line(&self, line: u32) -> (r: Option<(usize, u32)>)
        ensures
            r == first_line_from(self.line_table@, line),
    {
        let mut i: usize = 0;
        assert(self.line_table@.skip(0) =~= self.line_table@);
        while i < self.line_table.len()
            invariant
                i <= self.line_table@.len(),
                first_line_from(self.line_table@, line) == first_line_from(
                    self.line_table@.skip(i as int),
                    line,
                ),
            decreases self.line_table@.len() - i,
        {
            let e: (usize, u32) = self.line_table[i];
            if e.1 >= line {
                return Some(e);
            }
            assert(self.line_table@.skip(i as int).skip(1) =~= self.line_table@.skip(i + 1));
            i += 1;
        }
        None
    }

    pub fn add_constant(&mut self, c: Constant) -> (r: usize)
        ensures
            r == old(self).constants@.len(),
            final(self).constants@ == old(self).constants@.push(c),
            *final(self) == (CodeModule { constants: final(self).constants, ..*old(self) }),
    {
        let idx: usize = self.constants.len();
        self.constants.push(c);
        idx
    }

    pub fn add_behavior(&mut self, b: BehaviorTableEntry) -> (r: usize)
        ensures
            r == old(self).behaviors@.len(),
            final(self).behaviors@ == old(self).behaviors@.push(b),
            *final(self) == (CodeModule { behaviors: final(self).behaviors, ..*old(self) }),
    {
        let idx: usize = self.behaviors.len();
        self.behaviors.push(b);
        idx
    }

    pub fn add_handler_table(&mut self, ht: HandlerTable) -> (r: usize)
        ensures
            r == old(self).handler_tables@.len(),
            final(self).handler_tables@ == old(self).handler_tables@.push(ht),
            *final(self) == (CodeModule { handler_tables: final(self).handler_tables, ..*old(self) }),
    {
        let idx: usize = self.handler_tables.len();
        self.handler_tables.push(ht);
        idx
    }

    pub fn current_offset(&self) -> (r: usize)
        ensures
            r == self.instructions@.len(),
    {
        self.instructions.len()
    }

    /// Build a module from the bootstrap emitter's description.
    pub fn from_bootstrap(input: BootstrapModule) -> (r: Result<Self, String>)
        ensures
            match r {
                Ok(m) => {
                    &&& bootstrap_error(input) is None
                    &&& m.name@ == (if input.name@.len() == 0 {
                        "bootstrap"@
                    } else {
                        input.name@
                    })
                    &&& m.instructions@.len() == input.instructions@.len()
                    &&& forall|i: int|
                        0 <= i < input.instructions@.len() ==> bootstrap_word(
                            input.instructions@[i]@,
                        ) == Ok::<nat, NumberError>((#[trigger] m.instructions@[i]).word() as nat)
                    &&& m.constants@.len() == input.constants@.len()
                    &&& forall|i: int|
                        0 <= i < input.constants@.len() ==> bootstrap_constant(
                            input.constants@[i],
                            #[trigger] m.constants@[i],
                        )
                    &&& m.entry_point == input.entry_point
                    &&& m.has_no_tables()
                },
                Err(message) => bootstrap_error(input) == Some(message@),
            },
    {
        let mut m: CodeModule = CodeModule::new(
            if input.name.as_str().is_empty() {
                "bootstrap"
            } else {
                input.name.as_str()
            },
        );
        let mut i: usize = 0;
        while i < input.instructions.len()
            invariant
                i <= input.instructions@.len(),
                m.name@ == (if input.name@.len() == 0 {
                    "bootstrap"@
                } else {
                    input.name@
                }),
                m.constants@.len() == 0,
                m.has_no_tables(),
                m.instructions@.len() == i,
                forall|k: int|
                    0 <= k < i ==> bootstrap_word(input.instructions@[k]@) == Ok::<
                        nat,
                        NumberError,
                    >((#[trigger] m.instructions@[k]).word() as nat),
                first_word_error(input.instructions@, 0) == first_word_error(
                    input.instructions@,
                    i as int,
                ),
            decreases input.instructions@.len() - i,
        {
            let hex: &String = &input.instructions[i];
            let word: u64 = match parse_radix(hex.as_str(), 16, 0xffff_ffff) {
                Ok(w) => w,
                Err(e) => {
                    return Err(cat4("hex '", hex.as_str(), "': ", e.to_string().as_str()));
                },
            };
            match Instruction::decode(word as u32) {
                None => {
                    return Err(cat2("bad opcode: ", hex.as_str()));
                },
                Some(instr) => {
                    proof {
                        assert(instr.opcode.byte() == word / 0x100_0000);
                    }
                    m.instructions.push(instr);
                },
            }
            i += 1;
        }
        let mut j: usize = 0;
        while j < input.constants.len()
            invariant
                j <= input.constants@.len(),
                m.name@ == (if input.name@.len() == 0 {
                    "bootstrap"@
                } else {
                    input.name@
                }),
                m.constants@.len() == j,
                m.has_no_tables(),
                m.instructions@.len() == input.instructions@.len(),
                forall|k: int|
                    0 <= k < input.instructions@.len() ==> bootstrap_word(
                        input.instructions@[k]@,
                    ) == Ok::<nat, NumberError>((#[trigger] m.instructions@[k]).word() as nat),
                first_word_error(input.instructions@, 0) is None,
                forall|k: int|
                    0 <= k < j ==> bootstrap_constant(
                        input.constants@[k],
                        #[trigger] m.constants@[k],
                    ),
                first_constant_error(input.constants@, 0) == first_constant_error(
                    input.constants@,
                    j as int,
                ),
            decreases input.constants@.len() - j,
        {
            match constant_of(&input.constants[j]) {
                Ok(c) => m.constants.push(c),
                Err(e) => {
                    return Err(e);
                },
            }
            j += 1;
        }
        m.entry_point = input.entry_point;
        Ok(m)
    }
}

/// The value of a bootstrap constant.
#[derive(Debug, Clone, PartialEq, Eq)]
pub enum BootstrapValue {
    /// No value, or one of a shape that no constant takes.
    Other,
    Int(i64),
    /// A number that is no 64-bit integer, as IEEE 754 bits.
    Float(u64),
    Bool(bool),
    Text(String),
}

/// A constant of the bootstrap description: its type name and value, and the
/// IEEE 754 bits of the value when it is a number.
#[derive(Debug, Clone, PartialEq, Eq)]
pub struct BootstrapConstant {
    pub ty: Option<String>,
    pub value: BootstrapValue,
    pub number_bits: Option<u64>,
}

/// The bootstrap emitter's description of a module.
#[derive(Debug, Clone, PartialEq, Eq)]
pub struct BootstrapModule {
    pub name: String,
    pub instructions: Vec<String>,
    pub constants: Vec<BootstrapConstant>,
    pub entry_point: Option<usize>,
}

/// The word that a hexadecimal text stands for.
pub open spec fn bootstrap_word(hex: Seq<char>) -> Result<nat, NumberError> {
    numbers::parsed(hex, 16, 0xffff_ffff)
}

/// The error that one instruction text gives.
pub open spec fn word_error(hex: Seq<char>) -> Option<Seq<char>> {
    match bootstrap_word(hex) {
        Err(e) => Some("hex '"@ + hex + "': "@ + e.spec_text()),
        Ok(w) => if exists|op: OpCode| #[trigger] op.byte() == w / 0x100_0000 {
            None
        } else {
            Some("bad opcode: "@ + hex)
        },
    }
}

/// The error of the first faulty instruction text from `from` on.
pub open spec fn first_word_error(v: Seq<String>, from: int) -> Option<Seq<char>>
    decreases v.len() - from,
{
    if from < 0 || from >= v.len() {
        None
    } else if word_error(v[from]@) is Some {
        word_error(v[from]@)
    } else {
        first_word_error(v, from + 1)
    }
}

/// The type name of a bootstrap constant; `Int` when there is none.
pub open spec fn constant_type(c: BootstrapConstant) -> Seq<char> {
    match c.ty {
        Some(t) => t@,
        None => "Int"@,
    }
}

/// The error that one constant gives.
pub open spec fn constant_error(c: BootstrapConstant) -> Option<Seq<char>> {
    let ty = constant_type(c);
    if ty == "Int"@ {
        if c.value is Int {
            None
        } else {
            Some("Int value not integer"@)
        }
    } else if ty == "Float"@ {
        if c.number_bits is Some {
            None
        } else {
            Some("Float value not number"@)
        }
    } else if ty == "Bool"@ || ty == "String"@ {
        None
    } else {
        Some("unknown constant type: "@ + ty)
    }
}

/// The error of the first faulty constant from `from` on.
pub open spec fn first_constant_error(v: Seq<BootstrapConstant>, from: int) -> Option<Seq<char>>
    decreases v.len() - from,
{
    if from < 0 || from >= v.len() {
        None
    } else if constant_error(v[from]) is Some {
        constant_error(v[from])
    } else {
        first_constant_error(v, from + 1)
    }
}

/// The error of a bootstrap description: instructions are read before
/// constants.
pub open spec fn bootstrap_error(input: BootstrapModule) -> Option<Seq<char>> {
    if first_word_error(input.instructions@, 0) is Some {
        first_word_error(input.instructions@, 0)
    } else {
        first_constant_error(input.constants@, 0)
    }
}

/// Whether `k` is the constant that a description stands for. Booleans become
/// the integers 0 and 1.
pub open spec fn bootstrap_constant(c: BootstrapConstant, k: Constant) -> bool {
    let ty = constant_type(c);
    &&& constant_error(c) is None
    &&& if ty == "Int"@ {
        k == Constant::Int(c.value->Int_0)
    } else if ty == "Float"@ {
        k == Constant::Float(c.number_bits->0)
    } else if ty == "Bool"@ {
        k == Constant::Int(
            if c.value == BootstrapValue::Bool(true) {
                1
            } else {
                0
            },
        )
    } else {
        k matches Constant::String(s) && s@ == (match c.value {
            BootstrapValue::Text(t) => t@,
            _ => ""@,
        })
    }
}

fn constant_of(c: &BootstrapConstant) -> (r: Result<Constant, String>)
    ensures
        match r {
            Ok(k) => bootstrap_constant(*c, k),
            Err(e) => constant_error(*c) == Some(e@),
        },
{
    let ty: &str = match &c.ty {
        Some(t) => t.as_str(),
        None => "Int",
    };
    if str_eq(ty, "Int") {
        match &c.value {
            BootstrapValue::Int(n) => Ok(Constant::Int(*n)),
            _ => Err(text("Int value not integer")),
        }
    } else if str_eq(ty, "Float") {
        match c.number_bits {
            Some(bits) => Ok(Constant::Float(bits)),
            None => Err(text("Float value not number")),
        }
    } else if str_eq(ty, "Bool") {
        match &c.value {
            BootstrapValue::Bool(true) => Ok(Constant::Int(1)),
            _ => Ok(Constant::Int(0)),
        }
    } else if str_eq(ty, "String") {
        match &c.value {
            BootstrapValue::Text(t) => Ok(Constant::String(t.clone())),
            _ => Ok(Constant::String(text(""))),
        }
    } else {
        Err(cat2("unknown constant type: ", ty))
    }
}

/// Of the entries that begin at the same instruction the last one counts.
pub proof fn later_line_entries_count(table: Seq<(usize, u32)>, pc: usize)
    ensures
        line_entry(table, pc) matches Some(e) ==> exists|i: int|
            0 <= i < table.len() && #[trigger] table[i] == e && (forall|j: int|
                i < j < table.len() && (#[trigger] table[j]).0 <= pc ==> table[j].0 < e.0),
    decreases table.len(),
{
    if table.len() > 0 {
        let rest = table.drop_last();
        later_line_entries_count(rest, pc);
        if let Some(e) = line_entry(table, pc) {
            if e == table.last() {
                assert(table[table.len() - 1] == e);
            }
            let before = line_entry(rest, pc);
            if before == Some(e) && !(table.last().0 <= pc && e.0 <= table.last().0) {
                let i = choose|i: int|
                    0 <= i < rest.len() && #[trigger] rest[i] == e && (forall|j: int|
                        i < j < rest.len() && (#[trigger] rest[j]).0 <= pc ==> rest[j].0 < e.0);
                assert(table[i] == e);
                assert forall|j: int| i < j < table.len() && (#[trigger] table[j]).0 <= pc implies table[j].0
                    < e.0 by {
                    if j < rest.len() {
                        assert(rest[j] == table[j]);
                    }
                }
            }
        }
    }
}

/// Looking for a line gives the first entry that is not before it.
pub proof fn lines_are_found_in_order(table: Seq<(usize, u32)>, line: u32)
    ensures
        match first_line_from(table, line) {
            Some(e) => exists|i: int|
                0 <= i < table.len() && #[trigger] table[i] == e && e.1 >= line && (forall|j: int|
                    0 <= j < i ==> (#[trigger] table[j]).1 < line),
            None => forall|i: int| 0 <= i < table.len() ==> (#[trigger] table[i]).1 < line,
        },
    decreases table.len(),
{
    if table.len() > 0 {
        if table[0].1 < line {
            let rest = table.skip(1);
            lines_are_found_in_order(rest, line);
            if let Some(e) = first_line_from(table, line) {
                let i = choose|i: int|
                    0 <= i < rest.len() && #[trigger] rest[i] == e && e.1 >= line && (forall|
                        j: int,
                    |
                        0 <= j < i ==> (#[trigger] rest[j]).1 < line);
                assert(table[i + 1] == e);
                assert forall|j: int| 0 <= j < i + 1 implies (#[trigger] table[j]).1 < line by {
                    if j > 0 {
                        assert(rest[j - 1] == table[j]);
                    }
                }
            } else {
                assert forall|i: int| 0 <= i < table.len() implies (#[trigger] table[i]).1 < line by {
                    if i > 0 {
                        assert(rest[i - 1] == table[i]);
                    }
                }
            }
        }
    }
}

/// Operands are read high byte first: the immediate of the first two and the
/// signed offset of the last two.
pub proof fn operands_are_read_high_byte_first(i: Instruction)
    ensures
        i.imm() / 256 == i.op1 && i.imm() % 256 == i.op2,
        -0x8000 <= i.offset() < 0x8000,
        (i.offset() % 0x1_0000) / 256 == i.op2 && i.offset() % 256 == i.op3,
        i.offset() < 0 <==> i.op2 >= 128,
{
}

proof fn words_are_sound(v: Seq<String>, from: int)
    requires
        0 <= from <= v.len(),
    ensures
        match first_word_error(v, from) {
            Some(e) => exists|i: int|
                from <= i < v.len() && word_error((#[trigger] v[i])@) == Some(e) && (forall|j: int|
                    from <= j < i ==> word_error((#[trigger] v[j])@) is None),
            None => forall|i: int| from <= i < v.len() ==> word_error((#[trigger] v[i])@) is None,
        },
    decreases v.len() - from,
{
    if from < v.len() {
        words_are_sound(v, from + 1);
        assert(word_error(v[from]@) == word_error(v[from]@));
    }
}

proof fn constants_are_sound(v: Seq<BootstrapConstant>, from: int)
    requires
        0 <= from <= v.len(),
    ensures
        match first_constant_error(v, from) {
            Some(e) => exists|i: int|
                from <= i < v.len() && constant_error(#[trigger] v[i]) == Some(e) && (forall|
                    j: int,
                |
                    from <= j < i ==> constant_error(#[trigger] v[j]) is None),
            None => forall|i: int| from <= i < v.len() ==> constant_error(#[trigger] v[i]) is None,
        },
    decreases v.len() - from,
{
    if from < v.len() {
        constants_are_sound(v, from + 1);
        assert(constant_error(v[from]) == constant_error(v[from]));
    }
}

/// A bootstrap module is refused exactly where one of its words or constants is,
/// and for the first of them.
pub proof fn bootstrap_modules_are_refused_for_the_first_fault(input: BootstrapModule)
    ensures
        bootstrap_error(input) is None <==> (forall|i: int|
            0 <= i < input.instructions@.len() ==> word_error((#[trigger] input.instructions@[i])@)
                is None) && (forall|i: int|
            0 <= i < input.constants@.len() ==> constant_error(#[trigger] input.constants@[i])
                is None),
        bootstrap_error(input) matches Some(e) ==> (exists|i: int|
            0 <= i < input.instructions@.len() && word_error((#[trigger] input.instructions@[i])@)
                == Some(e)) || (exists|i: int|
            0 <= i < input.constants@.len() && constant_error(#[trigger] input.constants@[i])
                == Some(e)),
{
    words_are_sound(input.instructions@, 0);
    constants_are_sound(input.constants@, 0);
}

/// A bootstrap constant becomes the constant of its type: a number without a type
/// an integer, a truth value one or zero, a missing text the empty one.
pub proof fn bootstrap_constants_keep_their_value(c: BootstrapConstant, k: Constant)
    requires
        bootstrap_constant(c, k),
    ensures
        c.ty is None ==> (c.value matches BootstrapValue::Int(n) && k == Constant::Int(n)),
        c.ty matches Some(t) && t@ == "Int"@ ==> (c.value matches BootstrapValue::Int(n) && k
            == Constant::Int(n)),
        c.ty matches Some(t) && t@ == "Float"@ ==> (c.number_bits matches Some(b) && k
            == Constant::Float(b)),
        c.ty matches Some(t) && t@ == "Bool"@ ==> (k matches Constant::Int(n) && (n == 1 <==> c.value
            == BootstrapValue::Bool(true)) && (n == 0 || n == 1)),
        c.ty matches Some(t) && t@ == "String"@ ==> (k matches Constant::String(s) && (
        c.value matches BootstrapValue::Text(v) ==> s@ == v@)),
{
    reveal_strlit("Int");
    reveal_strlit("Float");
    reveal_strlit("Bool");
    reveal_strlit("String");
    assert("Int"@.len() == 3 && "Float"@.len() == 5 && "Bool"@.len() == 4 && "String"@.len() == 6);
}

} // verus!
