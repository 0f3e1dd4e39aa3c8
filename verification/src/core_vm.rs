//! Minimal interpreter for the frozen Core subset of the bytecode: no JIT, no
//! actors, no foreign code.
//!
//! Printed lines are collected in [`CoreVM::output`]; reading a line suspends
//! the run until [`CoreVM::provide_line`] supplies it.

use crate::bytecode::{self, CodeModule, Constant, Instruction, NbcReader, OpCode};
use crate::text::{self, cat2, cat3, chars_of, dec_of, dec_of_signed, push_hex, str_eq, string_of, text};
use crate::value_layout::{self, as_int_raw, is_int_raw, payload, tag, tag_bool, tag_closure, tag_int, tag_string, TAG_BOOL, TAG_CLOSURE, TAG_INT, TAG_NIL, TAG_STRING, TAG_UNIT};
use vstd::prelude::*;
use vstd::utf8::*;

verus! {

pub type Value = u64;

/// Flag in a closure payload: the payload then indexes `closure_envs` rather
/// than being the function index.
pub const CLOSURE_ENV_FLAG: u64 = 0x4000_0000_0000;

/// A captured-variable environment owned by a closure value.
#[derive(Debug, Clone)]
pub struct ClosureEnv {
    pub func_idx: u64,
    pub captures: Vec<Value>,
}

/// One activation.
#[derive(Debug, Clone)]
pub struct Frame {
    pub regs: [Value; 256],
    pub pc: usize,
    pub module_idx: usize,
    pub return_dst: u8,
    pub caller_idx: Option<usize>,
    /// The closure value this frame was invoked with, if any.
    pub closure_env: Option<Value>,
}

/// One installed effect handler.
#[derive(Debug, Clone)]
pub struct HandlerFrame {
    pub handler_table_idx: usize,
    pub module_idx: usize,
    pub resume_pc: usize,
    pub resume_dst: u8,
    pub saved_regs: Option<[Value; 256]>,
    pub saved_pc: Option<usize>,
}

#[derive(Debug, Clone, Copy, PartialEq, Eq, Structural)]
pub enum BuiltinEffect {
    IOPrint,
    IORead,
}

impl BuiltinEffect {
    /// The builtin that an effect name selects.
    pub open spec fn named(name: Seq<char>) -> Option<BuiltinEffect> {
        if name == "IO.print"@ {
            Some(BuiltinEffect::IOPrint)
        } else if name == "IO.read"@ {
            Some(BuiltinEffect::IORead)
        } else {
            None
        }
    }

    pub fn from_name(name: &str) -> (r: Option<Self>)
        ensures
            r == BuiltinEffect::named(name@),
    {
        if str_eq(name, "IO.print") {
            Some(BuiltinEffect::IOPrint)
        } else if str_eq(name, "IO.read") {
            Some(BuiltinEffect::IORead)
        } else {
            None
        }
    }
}

// ---------------------------------------------------------------------------
// Machine states
// ---------------------------------------------------------------------------

/// What a frame holds.
#[verifier::ext_equal]
pub struct FrameState {
    pub regs: Seq<u64>,
    pub pc: usize,
    pub module_idx: usize,
    pub return_dst: u8,
    pub caller_idx: Option<usize>,
    pub closure_env: Option<u64>,
}

/// What a closure environment holds.
#[verifier::ext_equal]
pub struct EnvState {
    pub func_idx: u64,
    pub captures: Seq<u64>,
}

/// What a handler frame holds.
#[verifier::ext_equal]
pub struct HandlerState {
    pub handler_table_idx: usize,
    pub module_idx: usize,
    pub resume_pc: usize,
    pub resume_dst: u8,
    pub saved_regs: Option<Seq<u64>>,
    pub saved_pc: Option<usize>,
}

/// The state that instructions transform.
#[verifier::ext_equal]
pub struct VmState {
    pub frames: Seq<FrameState>,
    pub handlers: Seq<HandlerState>,
    pub envs: Seq<EnvState>,
    pub strings: Seq<Seq<char>>,
    pub output: Seq<Seq<char>>,
}

/// What one instruction does.
pub enum StepResult {
    /// Go on with the next instruction.
    Continue(VmState),
    /// Stop; register 0 of the top frame is the result.
    Halt(VmState),
    /// A line of input is needed for the given register.
    ReadLine(u8),
    /// Stop with an error; the state is as before.
    Fail(Seq<char>),
}

impl Frame {
    pub open spec fn state(self) -> FrameState {
        FrameState {
            regs: self.regs@,
            pc: self.pc,
            module_idx: self.module_idx,
            return_dst: self.return_dst,
            caller_idx: self.caller_idx,
            closure_env: self.closure_env,
        }
    }

    pub fn new(caller_idx: Option<usize>, module_idx: usize) -> (r: Self)
        ensures
            r.state() == (FrameState {
                regs: Seq::new(256, |i: int| TAG_UNIT),
                pc: 0,
                module_idx,
                return_dst: 0,
                caller_idx,
                closure_env: None,
            }),
    {
        let f: Frame = Frame {
            regs: [TAG_UNIT;256],
            pc: 0,
            module_idx,
            return_dst: 0,
            caller_idx,
            closure_env: None,
        };
        assert(f.regs@ =~= Seq::new(256, |i: int| TAG_UNIT));
        f
    }
}

impl ClosureEnv {
    pub open spec fn state(self) -> EnvState {
        EnvState { func_idx: self.func_idx, captures: self.captures@ }
    }
}

impl HandlerFrame {
    pub open spec fn state(self) -> HandlerState {
        HandlerState {
            handler_table_idx: self.handler_table_idx,
            module_idx: self.module_idx,
            resume_pc: self.resume_pc,
            resume_dst: self.resume_dst,
            saved_regs: match self.saved_regs {
                Some(r) => Some(r@),
                None => None,
            },
            saved_pc: self.saved_pc,
        }
    }
}

/// The value in a register.
pub open spec fn reg(s: VmState, f: int, r: u8) -> u64 {
    s.frames[f].regs[r as int]
}

/// The state with one register changed.
pub open spec fn put(s: VmState, f: int, r: u8, v: u64) -> VmState {
    VmState {
        frames: s.frames.update(
            f,
            FrameState { regs: s.frames[f].regs.update(r as int, v), ..s.frames[f] },
        ),
        ..s
    }
}

/// The state with the program counter of a frame changed.
pub open spec fn goto(s: VmState, f: int, pc: usize) -> VmState {
    VmState { frames: s.frames.update(f, FrameState { pc, ..s.frames[f] }), ..s }
}

/// Where a relative jump leads before the program counter advances.
pub open spec fn jump_pc(pc: usize, offset: int) -> usize {
    pc.wrapping_add_signed(offset as isize).wrapping_sub(1)
}

/// Whether a value counts as true: its payload is not zero.
pub open spec fn truthy(v: u64) -> bool {
    value_layout::payload_of(v) != 0
}

/// Quotient rounded toward zero.
pub open spec fn trunc_div(a: int, b: int) -> int {
    let q = (if a < 0 {
        -a
    } else {
        a
    }) / (if b < 0 {
        -b
    } else {
        b
    });
    if (a < 0) == (b < 0) {
        q
    } else {
        -q
    }
}

/// Remainder with the sign of the dividend.
pub open spec fn trunc_mod(a: int, b: int) -> int {
    let r = (if a < 0 {
        -a
    } else {
        a
    }) % (if b < 0 {
        -b
    } else {
        b
    });
    if a < 0 {
        -r
    } else {
        r
    }
}

/// `a` doubled `n` times.
pub open spec fn doubled(a: int, n: nat) -> int
    decreases n,
{
    if n == 0 {
        a
    } else {
        doubled(a, (n - 1) as nat) * 2
    }
}

/// `a` halved `n` times, rounding down.
pub open spec fn halved(a: int, n: nat) -> int
    decreases n,
{
    if n == 0 {
        a
    } else {
        halved(a, (n - 1) as nat) / 2
    }
}

/// The shift distance of an operand: anything outside 0..63 counts as 63.
pub open spec fn shift_by(b: int) -> nat {
    if 0 <= b % 0x1_0000_0000 < 63 {
        (b % 0x1_0000_0000) as nat
    } else {
        63
    }
}

/// Index of the first string equal to `t`, or the number of strings.
pub open spec fn pool_index(strings: Seq<Seq<char>>, t: Seq<char>, from: int) -> int
    decreases strings.len() - from,
{
    if from < 0 || from >= strings.len() {
        strings.len() as int
    } else if strings[from] == t {
        from
    } else {
        pool_index(strings, t, from + 1)
    }
}

/// The string pool after interning.
pub open spec fn pool_with(strings: Seq<Seq<char>>, t: Seq<char>) -> Seq<Seq<char>> {
    if pool_index(strings, t, 0) < strings.len() {
        strings
    } else {
        strings.push(t)
    }
}

/// The state after interning `t` and storing its value in a register.
pub open spec fn put_string(s: VmState, f: int, r: u8, t: Seq<char>) -> VmState {
    put(
        VmState { strings: pool_with(s.strings, t), ..s },
        f,
        r,
        value_layout::string_value(pool_index(s.strings, t, 0)),
    )
}

/// The text that a value stands for, if it is a string of the pool.
pub open spec fn string_at(s: VmState, v: u64) -> Option<Seq<char>> {
    if value_layout::tag_of(v) == TAG_STRING && value_layout::payload_of(v) < s.strings.len() {
        Some(s.strings[value_layout::payload_of(v)])
    } else {
        None
    }
}

/// The text of a string value; empty for any other value.
pub open spec fn text_at(s: VmState, v: u64) -> Seq<char> {
    match string_at(s, v) {
        Some(t) => t,
        None => Seq::empty(),
    }
}

/// The value that a constant loads; strings go through the pool.
pub open spec fn load_constant(
    s: VmState,
    f: int,
    r: u8,
    constants: Seq<Constant>,
    idx: int,
) -> VmState {
    if 0 <= idx < constants.len() {
        match constants[idx] {
            Constant::String(t) => put_string(s, f, r, t@),
            Constant::Int(n) => put(s, f, r, value_layout::int_value(n as int)),
            Constant::Bool(b) => put(s, f, r, value_layout::bool_value(b)),
            Constant::Unit => put(s, f, r, TAG_UNIT),
            _ => put(s, f, r, TAG_NIL),
        }
    } else {
        put(s, f, r, TAG_NIL)
    }
}

/// Whether a closure payload indexes an environment.
pub open spec fn has_env(p: int) -> bool {
    p / 0x4000_0000_0000 % 2 == 1
}

/// The environment index in a closure payload.
pub open spec fn env_index(p: int) -> int {
    p % 0x4000_0000_0000
}

/// The function that a value names and the closure it runs under.
pub open spec fn function_of(s: VmState, v: u64) -> Result<(int, Option<u64>), Seq<char>> {
    let p = value_layout::payload_of(v);
    if value_layout::tag_of(v) == TAG_INT {
        Ok((value_layout::int_of(v) % 0x1_0000_0000_0000_0000, None))
    } else if value_layout::tag_of(v) == TAG_CLOSURE {
        if has_env(p) {
            if env_index(p) < s.envs.len() {
                Ok((s.envs[env_index(p)].func_idx as int, Some(v)))
            } else {
                Err("Dangling closure environment "@ + text::dec(env_index(p) as nat))
            }
        } else {
            Ok((p, Some(v)))
        }
    } else {
        Err("Not a function: 0x"@ + text::hex_num(v as nat))
    }
}

/// Calls the function in register `op1` with the first `op2` registers.
pub open spec fn call(code: Seq<CodeModule>, s: VmState, f: int, i: Instruction) -> StepResult {
    match function_of(s, reg(s, f, i.op1)) {
        Err(e) => StepResult::Fail(e),
        Ok((func, env)) => {
            let table = code[s.frames[f].module_idx as int].function_table@;
            if func < table.len() {
                StepResult::Continue(
                    VmState {
                        frames: s.frames.push(
                            FrameState {
                                regs: Seq::new(
                                    256,
                                    |k: int|
                                        if k < i.op2 {
                                            s.frames[f].regs[k]
                                        } else {
                                            TAG_UNIT
                                        },
                                ),
                                pc: table[func],
                                module_idx: s.frames[f].module_idx,
                                return_dst: i.op3,
                                caller_idx: Some(f as usize),
                                closure_env: env,
                            },
                        ),
                        ..s
                    },
                )
            } else {
                StepResult::Fail("Function "@ + text::dec(func as nat) + " not found"@)
            }
        },
    }
}

/// Returns `v` from a frame: to its caller, or as the result.
pub open spec fn ret(s: VmState, f: int, v: u64) -> StepResult {
    match s.frames[f].caller_idx {
        Some(c) => {
            let t = put(s, c as int, s.frames[f].return_dst, v);
            StepResult::Continue(VmState { frames: t.frames.drop_last(), ..t })
        },
        None => StepResult::Halt(put(s, f, 0, v)),
    }
}

/// `captures` with slot `slot` set, grown with nil where it was shorter.
pub open spec fn captured(captures: Seq<u64>, slot: int, v: u64) -> Seq<u64> {
    Seq::new(
        if captures.len() <= slot {
            (slot + 1) as nat
        } else {
            captures.len()
        },
        |k: int|
            if k == slot {
                v
            } else if k < captures.len() {
                captures[k]
            } else {
                TAG_NIL
            },
    )
}

/// Stores a capture in a closure, giving it an environment on first use.
pub open spec fn cap_store(s: VmState, f: int, i: Instruction) -> StepResult {
    let c = reg(s, f, i.op1);
    let src = reg(s, f, i.op3);
    let p = value_layout::payload_of(c);
    if value_layout::tag_of(c) != TAG_CLOSURE {
        StepResult::Fail("CapStore target is not a closure"@)
    } else if has_env(p) {
        if env_index(p) < s.envs.len() {
            let e = s.envs[env_index(p)];
            StepResult::Continue(
                VmState {
                    envs: s.envs.update(
                        env_index(p),
                        EnvState { captures: captured(e.captures, i.op2 as int, src), ..e },
                    ),
                    ..s
                },
            )
        } else {
            StepResult::Fail("Dangling closure environment "@ + text::dec(env_index(p) as nat))
        }
    } else {
        let idx = s.envs.len() as int;
        let fresh = EnvState {
            func_idx: p as u64,
            captures: captured(Seq::empty(), i.op2 as int, src),
        };
        StepResult::Continue(
            put(
                VmState { envs: s.envs.push(fresh), ..s },
                f,
                i.op1,
                value_layout::closure_value(0x4000_0000_0000 + idx % 0x4000_0000_0000),
            ),
        )
    }
}

/// Loads a capture of the running closure.
pub open spec fn cap_load(s: VmState, f: int, i: Instruction) -> StepResult {
    match s.frames[f].closure_env {
        None => StepResult::Fail("CapLoad outside a closure call"@),
        Some(v) => {
            let p = value_layout::payload_of(v);
            if !has_env(p) {
                StepResult::Fail("CapLoad in a closure without captures"@)
            } else if env_index(p) < s.envs.len() && i.op1 < s.envs[env_index(p)].captures.len() {
                StepResult::Continue(
                    put(s, f, i.op2, s.envs[env_index(p)].captures[i.op1 as int]),
                )
            } else {
                StepResult::Fail("CapLoad of missing capture slot "@ + text::dec(i.op1 as nat))
            }
        },
    }
}

/// Index of the last handler that holds a captured continuation, looking below
/// `n`; -1 when there is none.
pub open spec fn captured_handler(h: Seq<HandlerState>, n: int) -> int
    decreases n,
{
    if n <= 0 || n > h.len() {
        -1
    } else if h[n - 1].saved_regs is Some {
        n - 1
    } else {
        captured_handler(h, n - 1)
    }
}

/// Resumes the innermost captured continuation with a value.
pub open spec fn resume(s: VmState, f: int, v: u64) -> StepResult {
    let k = captured_handler(s.handlers, s.handlers.len() as int);
    if k < 0 {
        StepResult::Fail("resume called without a captured continuation"@)
    } else {
        let h = s.handlers[k];
        let regs = h.saved_regs->0;
        StepResult::Continue(
            VmState {
                frames: s.frames.update(
                    f,
                    FrameState {
                        regs: regs.update(h.resume_dst as int, v),
                        pc: match h.saved_pc {
                            Some(pc) => pc,
                            None => 0,
                        },
                        ..s.frames[f]
                    },
                ),
                handlers: s.handlers.update(k, HandlerState { saved_regs: None, ..h }),
                ..s
            },
        )
    }
}

/// The effect that an instruction performs.
pub open spec fn effect_name(code: Seq<CodeModule>, s: VmState, f: int, i: Instruction) -> Result<
    Seq<char>,
    Seq<char>,
> {
    let m = code[s.frames[f].module_idx as int];
    if i.opcode == OpCode::PerformDirect {
        if i.op1 < m.handler_tables@.len() {
            let b = m.handler_tables@[i.op1 as int].bindings@;
            if i.op2 < b.len() {
                Ok(b[i.op2 as int].effect_name@)
            } else {
                Err("Binding "@ + text::dec(i.op2 as nat) + " not found"@)
            }
        } else {
            Err("Handler table "@ + text::dec(i.op1 as nat) + " not found"@)
        }
    } else if i.imm() < m.constants@.len() && m.constants@[i.imm()] is String {
        Ok((m.constants@[i.imm()]->String_0)@)
    } else {
        Err("Effect name not found in constants"@)
    }
}

/// The line that `IO.print` writes for a value.
pub open spec fn printed(s: VmState, v: u64) -> Seq<char> {
    if value_layout::tag_of(v) == TAG_INT {
        text::dec_int(value_layout::int_of(v))
    } else if v == TAG_NIL {
        "nil"@
    } else if value_layout::tag_of(v) == TAG_BOOL {
        if value_layout::payload_of(v) % 2 == 1 {
            "true"@
        } else {
            "false"@
        }
    } else {
        match string_at(s, v) {
            Some(t) => t,
            None => "<value:0x"@ + text::hex_num(v as nat) + ">"@,
        }
    }
}

/// Whether a number is the code point of a character.
pub open spec fn is_char_code(u: int) -> bool {
    0 <= u < 0xd800 || 0xe000 <= u <= 0x10ffff
}

/// The one-character text of a code point; empty when there is no such
/// character.
pub open spec fn char_text(n: int) -> Seq<char> {
    let u = n % 0x1_0000_0000;
    if is_char_code(u) {
        seq![u as char]
    } else {
        Seq::empty()
    }
}

/// Performs an effect.
pub open spec fn perform(code: Seq<CodeModule>, s: VmState, f: int, i: Instruction) -> StepResult {
    match effect_name(code, s, f, i) {
        Err(e) => StepResult::Fail(e),
        Ok(name) => {
            let r0 = reg(s, f, 0);
            if name == "IO.print"@ {
                StepResult::Continue(
                    put(
                        VmState { output: s.output.push(printed(s, r0)), ..s },
                        f,
                        i.op3,
                        TAG_UNIT,
                    ),
                )
            } else if name == "IO.read"@ {
                StepResult::ReadLine(i.op3)
            } else if name == "String.charAt"@ {
                match string_at(s, r0) {
                    None => StepResult::Fail("String.charAt: string not found"@),
                    Some(t) => {
                        let n = value_layout::int_of(reg(s, f, 1));
                        StepResult::Continue(
                            put(
                                s,
                                f,
                                i.op3,
                                value_layout::int_value(
                                    if 0 <= n < t.len() {
                                        t[n] as int
                                    } else {
                                        0
                                    },
                                ),
                            ),
                        )
                    },
                }
            } else if name == "String.length"@ {
                match string_at(s, r0) {
                    None => StepResult::Fail("String.length: string not found"@),
                    Some(t) => StepResult::Continue(
                        put(s, f, i.op3, value_layout::int_value(encode_utf8(t).len() as int)),
                    ),
                }
            } else if name == "Int.to_string"@ {
                StepResult::Continue(
                    put_string(s, f, i.op3, text::dec_int(value_layout::int_of(r0))),
                )
            } else if name == "String.from_char"@ {
                StepResult::Continue(
                    put_string(s, f, i.op3, char_text(value_layout::int_of(r0))),
                )
            } else {
                StepResult::Fail("Unhandled effect: "@ + name)
            }
        },
    }
}

/// What one instruction does in frame `f`. Operations outside the Core subset
/// do nothing.
pub open spec fn step(code: Seq<CodeModule>, s: VmState, f: int, i: Instruction) -> StepResult {
    let a = value_layout::int_of(reg(s, f, i.op1));
    let b = value_layout::int_of(reg(s, f, i.op2));
    match i.opcode {
        OpCode::Halt => StepResult::Halt(s),
        OpCode::Const0 => StepResult::Continue(put(s, f, i.op1, value_layout::int_value(0))),
        OpCode::Const1 => StepResult::Continue(put(s, f, i.op1, value_layout::int_value(1))),
        OpCode::Const2 => StepResult::Continue(put(s, f, i.op1, value_layout::int_value(2))),
        OpCode::ConstM1 => StepResult::Continue(put(s, f, i.op1, value_layout::int_value(-1))),
        OpCode::ConstU => StepResult::Continue(
            load_constant(
                s,
                f,
                i.op3,
                code[s.frames[f].module_idx as int].constants@,
                i.imm(),
            ),
        ),
        OpCode::Move | OpCode::Load | OpCode::Store | OpCode::Dup => StepResult::Continue(
            put(s, f, i.op2, reg(s, f, i.op1)),
        ),
        OpCode::Swap => StepResult::Continue(
            put(put(s, f, i.op1, reg(s, f, i.op2)), f, i.op2, reg(s, f, i.op1)),
        ),
        OpCode::IAdd => StepResult::Continue(put(s, f, i.op3, value_layout::int_value(a + b))),
        OpCode::ISub => StepResult::Continue(put(s, f, i.op3, value_layout::int_value(a - b))),
        OpCode::IMul => StepResult::Continue(put(s, f, i.op3, value_layout::int_value(a * b))),
        OpCode::IDiv => StepResult::Continue(
            put(
                s,
                f,
                i.op3,
                if b == 0 {
                    TAG_NIL
                } else {
                    value_layout::int_value(trunc_div(a, b))
                },
            ),
        ),
        OpCode::IMod => StepResult::Continue(
            put(
                s,
                f,
                i.op3,
                if b == 0 {
                    TAG_NIL
                } else {
                    value_layout::int_value(trunc_mod(a, b))
                },
            ),
        ),
        OpCode::INeg => StepResult::Continue(put(s, f, i.op2, value_layout::int_value(-a))),
        OpCode::IInc => StepResult::Continue(put(s, f, i.op1, value_layout::int_value(a + 1))),
        OpCode::IDec => StepResult::Continue(put(s, f, i.op1, value_layout::int_value(a - 1))),
        OpCode::Shl => StepResult::Continue(
            put(s, f, i.op3, value_layout::int_value(doubled(a, shift_by(b)))),
        ),
        OpCode::Shr => StepResult::Continue(
            put(s, f, i.op3, value_layout::int_value(halved(a, shift_by(b)))),
        ),
        OpCode::ICmpEq => StepResult::Continue(put(s, f, i.op3, value_layout::bool_value(a == b))),
        OpCode::ICmpLt => StepResult::Continue(put(s, f, i.op3, value_layout::bool_value(a < b))),
        OpCode::ICmpGt => StepResult::Continue(put(s, f, i.op3, value_layout::bool_value(a > b))),
        OpCode::ICmpLe => StepResult::Continue(put(s, f, i.op3, value_layout::bool_value(a <= b))),
        OpCode::ICmpGe => StepResult::Continue(put(s, f, i.op3, value_layout::bool_value(a >= b))),
        OpCode::Not => StepResult::Continue(
            put(s, f, i.op2, value_layout::bool_value(!truthy(reg(s, f, i.op1)))),
        ),
        OpCode::And => StepResult::Continue(
            put(
                s,
                f,
                i.op3,
                value_layout::bool_value(truthy(reg(s, f, i.op1)) && truthy(reg(s, f, i.op2))),
            ),
        ),
        OpCode::Or => StepResult::Continue(
            put(
                s,
                f,
                i.op3,
                value_layout::bool_value(truthy(reg(s, f, i.op1)) || truthy(reg(s, f, i.op2))),
            ),
        ),
        OpCode::Jmp => StepResult::Continue(
            goto(s, f, jump_pc(s.frames[f].pc, bytecode::signed16(i.imm()))),
        ),
        OpCode::JmpT => StepResult::Continue(
            if truthy(reg(s, f, i.op1)) {
                goto(s, f, jump_pc(s.frames[f].pc, i.offset()))
            } else {
                s
            },
        ),
        OpCode::JmpF => StepResult::Continue(
            if truthy(reg(s, f, i.op1)) {
                s
            } else {
                goto(s, f, jump_pc(s.frames[f].pc, i.offset()))
            },
        ),
        OpCode::Call | OpCode::ClosureCall => call(code, s, f, i),
        OpCode::RetVal => ret(s, f, reg(s, f, i.op1)),
        OpCode::Ret => ret(s, f, reg(s, f, 0)),
        OpCode::Closure => StepResult::Continue(
            put(s, f, i.op3, value_layout::closure_value(i.imm())),
        ),
        OpCode::CapStore => cap_store(s, f, i),
        OpCode::CapLoad => cap_load(s, f, i),
        OpCode::Handle => StepResult::Continue(
            VmState {
                handlers: s.handlers.push(
                    HandlerState {
                        handler_table_idx: i.op1 as usize,
                        module_idx: s.frames[f].module_idx,
                        resume_pc: s.frames[f].pc,
                        resume_dst: i.op2,
                        saved_regs: None,
                        saved_pc: None,
                    },
                ),
                ..s
            },
        ),
        OpCode::Perform | OpCode::PerformDirect => perform(code, s, f, i),
        OpCode::Resume => resume(s, f, reg(s, f, i.op1)),
        OpCode::SConcat => StepResult::Continue(
            put_string(
                s,
                f,
                i.op3,
                text_at(s, reg(s, f, i.op1)) + text_at(s, reg(s, f, i.op2)),
            ),
        ),
        _ => StepResult::Continue(s),
    }
}

/// Whether a state can run over the given modules: every frame belongs to a
/// module, has 256 registers and returns to an earlier frame.
pub open spec fn runnable(code: Seq<CodeModule>, s: VmState) -> bool {
    &&& forall|k: int| 0 <= k < s.frames.len() ==> frame_ok(code, #[trigger] s.frames[k], k)
    &&& forall|k: int| 0 <= k < s.handlers.len() ==> handler_ok(#[trigger] s.handlers[k])
}

/// Whether the frame at position `k` can run.
pub open spec fn frame_ok(code: Seq<CodeModule>, f: FrameState, k: int) -> bool {
    &&& f.module_idx < code.len()
    &&& f.regs.len() == 256
    &&& f.caller_idx matches Some(c) ==> c < k
}

/// Whether a captured continuation holds all registers.
pub open spec fn handler_ok(h: HandlerState) -> bool {
    h.saved_regs matches Some(r) ==> r.len() == 256
}

/// The instruction at the program counter of the top frame; past the end of
/// the code the machine halts.
pub open spec fn fetch(code: Seq<CodeModule>, s: VmState) -> Instruction {
    let top = s.frames.last();
    let instrs = code[top.module_idx as int].instructions@;
    if top.pc < instrs.len() {
        instrs[top.pc as int]
    } else {
        Instruction { opcode: OpCode::Halt, op1: 0, op2: 0, op3: 0 }
    }
}

/// The state after the frame that executed an instruction advances; a frame
/// that returned is gone and advances no more.
pub open spec fn advance(s: VmState, f: int) -> VmState {
    if f < s.frames.len() {
        goto(s, f, s.frames[f].pc.wrapping_add(1))
    } else {
        s
    }
}

/// How a run of at most `fuel` instructions ends.
pub enum RunResult {
    /// The machine stopped in this state.
    Done(VmState),
    /// A line of input is needed.
    NeedLine(VmState, u8),
    /// The instruction budget is used up.
    OutOfFuel(VmState),
    /// The machine stopped with an error.
    Fail(VmState, Seq<char>),
}

/// Runs at most `fuel` instructions.
pub open spec fn run_for(code: Seq<CodeModule>, s: VmState, fuel: nat) -> RunResult
    decreases fuel,
{
    if s.frames.len() == 0 {
        RunResult::Done(s)
    } else if fuel == 0 {
        RunResult::OutOfFuel(s)
    } else {
        let f = s.frames.len() - 1;
        match step(code, s, f, fetch(code, s)) {
            StepResult::Continue(t) => run_for(code, advance(t, f), (fuel - 1) as nat),
            StepResult::Halt(t) => RunResult::Done(t),
            StepResult::ReadLine(dst) => RunResult::NeedLine(s, dst),
            StepResult::Fail(e) => RunResult::Fail(s, e),
        }
    }
}

// ---------------------------------------------------------------------------
// The machine
// ---------------------------------------------------------------------------

/// What a step asks of the run loop.
#[derive(Debug, Clone, Copy, PartialEq, Eq, Structural)]
pub enum StepOutcome {
    Continue,
    Halt,
    ReadLine { dst: u8 },
}

/// How a run ended.
#[derive(Debug, Clone, Copy, PartialEq, Eq, Structural)]
pub enum RunOutcome {
    /// The program finished with this value.
    Done(Value),
    /// A line of input is needed for the given register.
    NeedLine { dst: u8 },
    /// The instruction budget is used up; run on with [`CoreVM::resume_run`].
    OutOfFuel,
}

pub struct CoreVM {
    pub modules: Vec<CodeModule>,
    pub frames: Vec<Frame>,
    pub handler_stack: Vec<HandlerFrame>,
    pub closure_envs: Vec<ClosureEnv>,
    pub strings: Vec<String>,
    pub halted: bool,
    pub exit_code: i64,
    /// Lines written by `IO.print`, in order.
    pub output: Vec<String>,
}

/// `char::from_u32`: the character with the given code point, if there is one.
#[verifier::external_body]
fn char_from_u32(u: u32) -> (r: Option<char>)
    ensures
        match r {
            Some(c) => is_char_code(u as int) && c as int == u as int,
            None => !is_char_code(u as int),
        },
{
    char::from_u32(u)
}

fn int_div(a: i64, b: i64) -> (r: i64)
    requires
        b != 0,
        -0x8000_0000_0000 <= a < 0x8000_0000_0000,
        -0x8000_0000_0000 <= b < 0x8000_0000_0000,
    ensures
        r == trunc_div(a as int, b as int),
{
    let x: u64 = if a < 0 {
        (-a) as u64
    } else {
        a as u64
    };
    let y: u64 = if b < 0 {
        (-b) as u64
    } else {
        b as u64
    };
    let q: u64 = x / y;
    assert(q <= x) by (nonlinear_arith)
        requires
            y >= 1,
            q == x / y,
    ;
    if (a < 0) == (b < 0) {
        q as i64
    } else {
        -(q as i64)
    }
}

fn int_mod(a: i64, b: i64) -> (r: i64)
    requires
        b != 0,
        -0x8000_0000_0000 <= a < 0x8000_0000_0000,
        -0x8000_0000_0000 <= b < 0x8000_0000_0000,
    ensures
        r == trunc_mod(a as int, b as int),
{
    let x: u64 = if a < 0 {
        (-a) as u64
    } else {
        a as u64
    };
    let y: u64 = if b < 0 {
        (-b) as u64
    } else {
        b as u64
    };
    let m: u64 = x % y;
    if a < 0 {
        -(m as i64)
    } else {
        m as i64
    }
}

/// Value of the product of two integers.
fn mul_value(a: i64, b: i64) -> (r: u64)
    requires
        -0x8000_0000_0000 <= a < 0x8000_0000_0000,
        -0x8000_0000_0000 <= b < 0x8000_0000_0000,
    ensures
        r == value_layout::int_value(a * b),
{
    let x: i128 = a as i128;
    let y: i128 = b as i128;
    assert(-0x8000_0000_0000 * 0x8000_0000_0000 <= x * y <= 0x8000_0000_0000 * 0x8000_0000_0000)
        by (nonlinear_arith)
        requires
            -0x8000_0000_0000 <= x < 0x8000_0000_0000,
            -0x8000_0000_0000 <= y < 0x8000_0000_0000,
    ;
    let p: i128 = x * y;
    let low: i128 = if p >= 0 {
        (p as u128 % 0x1_0000_0000_0000) as i128
    } else {
        0xffff_ffff_ffff - ((-(p + 1)) as u128 % 0x1_0000_0000_0000) as i128
    };
    assert(low == p as int % 0x1_0000_0000_0000);
    TAG_INT + low as u64
}

fn shift_distance(b: i64) -> (r: u32)
    ensures
        r == shift_by(b as int),
        r <= 63,
{
    let low: u64 = if b >= 0 {
        b as u64 % 0x1_0000_0000
    } else {
        0xffff_ffff - (-(b + 1)) as u64 % 0x1_0000_0000
    };
    assert(low == b as int % 0x1_0000_0000);
    if low < 63 {
        low as u32
    } else {
        63
    }
}

proof fn doubling_wraps(x: int, y: int)
    requires
        x % 0x1_0000_0000_0000 == y % 0x1_0000_0000_0000,
    ensures
        (x * 2) % 0x1_0000_0000_0000 == (y * 2) % 0x1_0000_0000_0000,
{
}

/// Value of an integer shifted left.
fn shl_value(a: i64, n: u32) -> (r: u64)
    requires
        n <= 63,
        -0x8000_0000_0000 <= a < 0x8000_0000_0000,
    ensures
        r == value_layout::int_value(doubled(a as int, n as nat)),
{
    let mut v: u64 = tag_int(a);
    let mut k: u32 = 0;
    while k < n
        invariant
            k <= n,
            v == value_layout::int_value(doubled(a as int, k as nat)),
        decreases n - k,
    {
        let p: u64 = payload(v);
        let next: u64 = TAG_INT + p * 2 % 0x1_0000_0000_0000;
        proof {
            let d = doubled(a as int, k as nat);
            assert(p == d % 0x1_0000_0000_0000);
            doubling_wraps(p as int, d);
        }
        v = next;
        k += 1;
    }
    v
}

/// An integer shifted right, rounding down.
fn shr_int(a: i64, n: u32) -> (r: i64)
    ensures
        r == halved(a as int, n as nat),
{
    let mut v: i64 = a;
    let mut k: u32 = 0;
    while k < n
        invariant
            k <= n,
            v == halved(a as int, k as nat),
        decreases n - k,
    {
        v = if v >= 0 {
            (v as u64 / 2) as i64
        } else {
            -(((-(v + 1)) as u64 / 2) as i64) - 1
        };
        k += 1;
    }
    v
}

fn is_truthy(v: u64) -> (r: bool)
    ensures
        r == truthy(v),
{
    payload(v) != 0
}

/// A line without its line ending: one trailing `\n`, then one trailing `\r`.
pub open spec fn chomped(line: Seq<char>) -> Seq<char> {
    let a = if line.len() > 0 && line.last() == '\n' {
        line.drop_last()
    } else {
        line
    };
    if a.len() > 0 && a.last() == '\r' {
        a.drop_last()
    } else {
        a
    }
}

fn chomp(line: &str) -> (r: String)
    ensures
        r@ == chomped(line@),
{
    let v: Vec<char> = chars_of(line);
    let mut n: usize = v.len();
    if n > 0 && v[n - 1] == '\n' {
        n -= 1;
    }
    if n > 0 && v[n - 1] == '\r' {
        n -= 1;
    }
    assert(v@.subrange(0, n as int) =~= chomped(line@));
    string_of(&v, 0, n)
}

impl CoreVM {
    /// The state that instructions transform.
    pub open spec fn state(&self) -> VmState {
        VmState {
            frames: self.frames@.map_values(|f: Frame| f.state()),
            handlers: self.handler_stack@.map_values(|h: HandlerFrame| h.state()),
            envs: self.closure_envs@.map_values(|e: ClosureEnv| e.state()),
            strings: text::views(self.strings@),
            output: text::views(self.output@),
        }
    }

    /// Every frame can run over the loaded modules.
    pub open spec fn wf(&self) -> bool {
        runnable(self.modules@, self.state())
    }

    /// Nothing but the machine state changed.
    pub open spec fn same_setup(&self, before: &Self) -> bool {
        self.modules == before.modules && self.halted == before.halted && self.exit_code
            == before.exit_code
    }

    pub fn new() -> (r: Self)
        ensures
            r.wf(),
            r.modules@.len() == 0,
            r.state() == (VmState {
                frames: Seq::empty(),
                handlers: Seq::empty(),
                envs: Seq::empty(),
                strings: Seq::empty(),
                output: Seq::empty(),
            }),
            !r.halted,
            r.exit_code == 0,
    {
        let vm: CoreVM = CoreVM {
            modules: Vec::new(),
            frames: Vec::new(),
            handler_stack: Vec::new(),
            closure_envs: Vec::new(),
            strings: Vec::new(),
            halted: false,
            exit_code: 0,
            output: Vec::new(),
        };
        assert(vm.state() =~= VmState {
            frames: Seq::empty(),
            handlers: Seq::empty(),
            envs: Seq::empty(),
            strings: Seq::empty(),
            output: Seq::empty(),
        });
        vm
    }

    /// Adds a module and returns its index.
    pub fn load_module_from_code(&mut self, module: CodeModule) -> (r: usize)
        requires
            old(self).wf(),
        ensures
            r == old(self).modules@.len(),
            final(self).modules@ == old(self).modules@.push(module),
            final(self).state() == old(self).state(),
            final(self).halted == old(self).halted,
            final(self).exit_code == old(self).exit_code,
            final(self).wf(),
    {
        let idx: usize = self.modules.len();
        self.modules.push(module);
        idx
    }

    /// Decodes an `.nbc` artifact, adds its module and returns the index.
    pub fn load_nbc<R: NbcReader>(&mut self, data: &[u8], reader: &R) -> (r: Result<usize, String>)
        requires
            old(self).wf(),
        ensures
            exists|decoded: Result<CodeModule, String>| #[trigger]
                bytecode::nbc_decoded(reader, data@, decoded) && match decoded {
                    Err(m) => r matches Err(e) && e@ == "Failed to load .nbc: "@ + m@
                        && final(self).modules@ == old(self).modules@,
                    Ok(module) => r == Ok::<usize, String>(old(self).modules@.len() as usize)
                        && final(self).modules@ == old(self).modules@.push(module),
                },
            final(self).state() == old(self).state(),
            final(self).halted == old(self).halted,
            final(self).exit_code == old(self).exit_code,
            final(self).wf(),
    {
        let decoded: Result<CodeModule, String> = reader.decode(data);
        assert(call_ensures(R::decode, (reader, data), decoded));
        assert(bytecode::nbc_decoded(reader, data@, decoded));
        match decoded {
            Err(m) => Err(cat2("Failed to load .nbc: ", m.as_str())),
            Ok(module) => Ok(self.load_module_from_code(module)),
        }
    }

    fn get_reg(&self, f: usize, r: u8) -> (v: u64)
        requires
            f < self.frames@.len(),
        ensures
            v == reg(self.state(), f as int, r),
    {
        self.frames[f].regs[r as usize]
    }

    fn set_reg(&mut self, f: usize, r: u8, v: u64)
        requires
            f < old(self).frames@.len(),
        ensures
            final(self).state() == put(old(self).state(), f as int, r, v),
            final(self).same_setup(old(self)),
            final(self).frames@.len() == old(self).frames@.len(),
    {
        self.frames[f].regs[r as usize] = v;
        assert(self.state() =~= put(old(self).state(), f as int, r, v));
    }

    fn set_pc(&mut self, f: usize, pc: usize)
        requires
            f < old(self).frames@.len(),
        ensures
            final(self).state() == goto(old(self).state(), f as int, pc),
            final(self).same_setup(old(self)),
    {
        self.frames[f].pc = pc;
        assert(self.state() =~= goto(old(self).state(), f as int, pc));
    }

    /// Intern a string into the pool, returning its index as a string value.
    fn intern_string(&mut self, s: &str) -> (v: Value)
        ensures
            final(self).state() == (VmState {
                strings: pool_with(old(self).state().strings, s@),
                ..old(self).state()
            }),
            v == value_layout::string_value(pool_index(old(self).state().strings, s@, 0)),
            final(self).same_setup(old(self)),
            final(self).frames == old(self).frames,
    {
        let ghost pool = text::views(self.strings@);
        let mut i: usize = 0;
        while i < self.strings.len()
            invariant
                i <= self.strings@.len(),
                *self == *old(self),
                pool == text::views(self.strings@),
                pool_index(pool, s@, 0) == pool_index(pool, s@, i as int),
            decreases self.strings@.len() - i,
        {
            if str_eq(self.strings[i].as_str(), s) {
                assert(pool[i as int] == s@);
                return tag_string(i as u64);
            }
            assert(pool[i as int] != s@);
            i += 1;
        }
        self.strings.push(text(s));
        assert(text::views(self.strings@) =~= pool.push(s@));
        assert(self.state() =~= VmState {
            strings: pool_with(old(self).state().strings, s@),
            ..old(self).state()
        });
        tag_string(i as u64)
    }

    fn set_string(&mut self, f: usize, r: u8, s: &str)
        requires
            f < old(self).frames@.len(),
        ensures
            final(self).state() == put_string(old(self).state(), f as int, r, s@),
            final(self).same_setup(old(self)),
            final(self).frames@.len() == old(self).frames@.len(),
    {
        let v: u64 = self.intern_string(s);
        self.set_reg(f, r, v);
    }

    /// Resolve a string value to its pool contents, if present.
    pub fn resolve_display_string(&self, value: Value) -> (r: Option<String>)
        ensures
            text::opt_view(r) == string_at(self.state(), value),
    {
        if tag(value) != TAG_STRING {
            return None;
        }
        let idx: u64 = payload(value);
        if idx < self.strings.len() as u64 {
            Some(self.strings[idx as usize].clone())
        } else {
            None
        }
    }

    fn resolve_text(&self, value: Value) -> (r: String)
        ensures
            r@ == text_at(self.state(), value),
    {
        match self.resolve_display_string(value) {
            Some(s) => s,
            None => String::new(),
        }
    }

    /// Resolve a function value to its index and the closure it runs under.
    fn resolve_function(&self, v: Value) -> (r: Result<(u64, Option<Value>), String>)
        ensures
            match r {
                Ok((idx, env)) => function_of(self.state(), v) == Ok::<
                    (int, Option<u64>),
                    Seq<char>,
                >((idx as int, env)),
                Err(e) => function_of(self.state(), v) == Err::<(int, Option<u64>), Seq<char>>(e@),
            },
    {
        let p: u64 = payload(v);
        if is_int_raw(v) {
            let n: i64 = as_int_raw(v);
            let idx: u64 = if n >= 0 {
                n as u64
            } else {
                0xffff_ffff_ffff_ffff - (-(n + 1)) as u64
            };
            assert(idx == value_layout::int_of(v) % 0x1_0000_0000_0000_0000);
            Ok((idx, None))
        } else if tag(v) == TAG_CLOSURE {
            if p / CLOSURE_ENV_FLAG % 2 == 1 {
                let env: u64 = p % CLOSURE_ENV_FLAG;
                if env < self.closure_envs.len() as u64 {
                    Ok((self.closure_envs[env as usize].func_idx, Some(v)))
                } else {
                    Err(cat2("Dangling closure environment ", dec_of(env).as_str()))
                }
            } else {
                Ok((p, Some(v)))
            }
        } else {
            let mut out: String = text("Not a function: 0x");
            push_hex(&mut out, v);
            Err(out)
        }
    }

    fn step_call(&mut self, f: usize, i: Instruction) -> (r: Result<(), String>)
        requires
            old(self).wf(),
            f < old(self).frames@.len(),
        ensures
            final(self).same_setup(old(self)),
            match r {
                Ok(_) => call(old(self).modules@, old(self).state(), f as int, i)
                    == StepResult::Continue(final(self).state()),
                Err(e) => call(old(self).modules@, old(self).state(), f as int, i)
                    == StepResult::Fail(e@) && final(self).state() == old(self).state(),
            },
    {
        assert(frame_ok(self.modules@, self.state().frames[f as int], f as int));
        let v: u64 = self.get_reg(f, i.op1);
        let (idx, env): (u64, Option<Value>) = match self.resolve_function(v) {
            Ok(p) => p,
            Err(e) => {
                return Err(e);
            },
        };
        let m: usize = self.frames[f].module_idx;
        if idx >= self.modules[m].function_table.len() as u64 {
            return Err(cat3("Function ", dec_of(idx).as_str(), " not found"));
        }
        let mut frame: Frame = Frame::new(Some(f), m);
        frame.pc = self.modules[m].function_table[idx as usize];
        let mut k: usize = 0;
        while k < i.op2 as usize
            invariant
                k <= i.op2,
                f < self.frames@.len(),
                *self == *old(self),
                frame.pc == self.modules@[m as int].function_table@[idx as int],
                frame.module_idx == m,
                frame.caller_idx == Some(f),
                frame.closure_env is None,
                forall|j: int| 0 <= j < k ==> #[trigger] frame.regs@[j] == self.frames@[f as int].regs@[j],
                forall|j: int| k <= j < 256 ==> #[trigger] frame.regs@[j] == TAG_UNIT,
            decreases i.op2 - k,
        {
            frame.regs[k] = self.frames[f].regs[k];
            k += 1;
        }
        frame.return_dst = i.op3;
        frame.closure_env = env;
        let ghost fs = frame.state();
        self.frames.push(frame);
        proof {
            let s = old(self).state();
            let expected = FrameState {
                regs: Seq::new(
                    256,
                    |k: int|
                        if k < i.op2 {
                            s.frames[f as int].regs[k]
                        } else {
                            TAG_UNIT
                        },
                ),
                pc: self.modules@[m as int].function_table@[idx as int],
                module_idx: m,
                return_dst: i.op3,
                caller_idx: Some(f),
                closure_env: env,
            };
            assert(fs.regs =~= expected.regs);
            assert(self.state().frames =~= s.frames.push(expected));
            assert(self.state() =~= VmState { frames: s.frames.push(expected), ..s });
        }
        Ok(())
    }

    fn step_return(&mut self, f: usize, v: u64) -> (r: StepOutcome)
        requires
            old(self).wf(),
            f + 1 == old(self).frames@.len(),
        ensures
            final(self).same_setup(old(self)),
            match ret(old(self).state(), f as int, v) {
                StepResult::Continue(t) => r == StepOutcome::Continue && final(self).state() == t,
                StepResult::Halt(t) => r == StepOutcome::Halt && final(self).state() == t,
                _ => false,
            },
    {
        assert(frame_ok(self.modules@, self.state().frames[f as int], f as int));
        match self.frames[f].caller_idx {
            Some(c) => {
                let dst: u8 = self.frames[f].return_dst;
                self.set_reg(c, dst, v);
                let ghost t = self.state();
                let ghost frames = self.frames@;
                self.frames.pop();
                assert(self.frames@ =~= frames.drop_last());
                assert(self.state() =~= VmState { frames: t.frames.drop_last(), ..t });
                StepOutcome::Continue
            },
            None => {
                self.set_reg(f, 0, v);
                StepOutcome::Halt
            },
        }
    }

    fn step_cap_store(&mut self, f: usize, i: Instruction) -> (r: Result<(), String>)
        requires
            old(self).wf(),
            f < old(self).frames@.len(),
        ensures
            final(self).same_setup(old(self)),
            match r {
                Ok(_) => cap_store(old(self).state(), f as int, i) == StepResult::Continue(
                    final(self).state(),
                ),
                Err(e) => cap_store(old(self).state(), f as int, i) == StepResult::Fail(e@)
                    && final(self).state() == old(self).state(),
            },
    {
        let c: u64 = self.get_reg(f, i.op1);
        let src: u64 = self.get_reg(f, i.op3);
        if tag(c) != TAG_CLOSURE {
            return Err(text("CapStore target is not a closure"));
        }
        let p: u64 = payload(c);
        if p / CLOSURE_ENV_FLAG % 2 == 1 {
            let env: u64 = p % CLOSURE_ENV_FLAG;
            if env >= self.closure_envs.len() as u64 {
                return Err(cat2("Dangling closure environment ", dec_of(env).as_str()));
            }
            let e: usize = env as usize;
            let func_idx: u64 = self.closure_envs[e].func_idx;
            let captures: Vec<u64> = grown(&self.closure_envs[e].captures, i.op2 as usize, src);
            self.closure_envs.set(e, ClosureEnv { func_idx, captures });
            proof {
                let s = old(self).state();
                assert(self.state().envs =~= s.envs.update(
                    e as int,
                    EnvState {
                        captures: captured(s.envs[e as int].captures, i.op2 as int, src),
                        ..s.envs[e as int]
                    },
                ));
            }
        } else {
            let idx: u64 = self.closure_envs.len() as u64;
            let empty: Vec<u64> = Vec::new();
            let captures: Vec<u64> = grown(&empty, i.op2 as usize, src);
            let fresh: ClosureEnv = ClosureEnv { func_idx: p, captures };
            let ghost fs = fresh.state();
            self.closure_envs.push(fresh);
            proof {
                let s = old(self).state();
                assert(empty@ =~= Seq::<u64>::empty());
                assert(self.state().envs =~= s.envs.push(fs));
                assert(self.state() =~= VmState { envs: s.envs.push(fs), ..s });
            }
            let v: u64 = tag_closure(CLOSURE_ENV_FLAG + idx % CLOSURE_ENV_FLAG);
            self.set_reg(f, i.op1, v);
        }
        Ok(())
    }

    fn step_cap_load(&mut self, f: usize, i: Instruction) -> (r: Result<(), String>)
        requires
            old(self).wf(),
            f < old(self).frames@.len(),
        ensures
            final(self).same_setup(old(self)),
            match r {
                Ok(_) => cap_load(old(self).state(), f as int, i) == StepResult::Continue(
                    final(self).state(),
                ),
                Err(e) => cap_load(old(self).state(), f as int, i) == StepResult::Fail(e@)
                    && final(self).state() == old(self).state(),
            },
    {
        let v: u64 = match self.frames[f].closure_env {
            None => {
                return Err(text("CapLoad outside a closure call"));
            },
            Some(v) => v,
        };
        let p: u64 = payload(v);
        if p / CLOSURE_ENV_FLAG % 2 == 0 {
            return Err(text("CapLoad in a closure without captures"));
        }
        let env: u64 = p % CLOSURE_ENV_FLAG;
        if env < self.closure_envs.len() as u64 && (i.op1 as usize)
            < self.closure_envs[env as usize].captures.len() {
            let value: u64 = self.closure_envs[env as usize].captures[i.op1 as usize];
            self.set_reg(f, i.op2, value);
            Ok(())
        } else {
            Err(cat2("CapLoad of missing capture slot ", dec_of(i.op1 as u64).as_str()))
        }
    }

    fn step_resume(&mut self, f: usize, v: u64) -> (r: Result<(), String>)
        requires
            old(self).wf(),
            f < old(self).frames@.len(),
        ensures
            final(self).same_setup(old(self)),
            match r {
                Ok(_) => resume(old(self).state(), f as int, v) == StepResult::Continue(
                    final(self).state(),
                ),
                Err(e) => resume(old(self).state(), f as int, v) == StepResult::Fail(e@)
                    && final(self).state() == old(self).state(),
            },
    {
        let mut n: usize = self.handler_stack.len();
        let ghost hs = self.state().handlers;
        while n > 0
            invariant
                n <= self.handler_stack@.len(),
                f < self.frames@.len(),
                *self == *old(self),
                hs == self.state().handlers,
                captured_handler(hs, hs.len() as int) == captured_handler(hs, n as int),
            decreases n,
        {
            let k: usize = n - 1;
            assert(hs[k as int] == self.handler_stack@[k as int].state());
            if self.handler_stack[k].saved_regs.is_some() {
                let h: &HandlerFrame = &self.handler_stack[k];
                let regs: [u64; 256] = h.saved_regs.unwrap();
                let dst: u8 = h.resume_dst;
                let pc: usize = match h.saved_pc {
                    Some(pc) => pc,
                    None => 0,
                };
                let next: HandlerFrame = HandlerFrame {
                    handler_table_idx: h.handler_table_idx,
                    module_idx: h.module_idx,
                    resume_pc: h.resume_pc,
                    resume_dst: h.resume_dst,
                    saved_regs: None,
                    saved_pc: h.saved_pc,
                };
                let ghost ns = next.state();
                self.handler_stack.set(k, next);
                self.frames[f].regs = regs;
                self.frames[f].regs[dst as usize] = v;
                self.frames[f].pc = pc;
                proof {
                    let s = old(self).state();
                    assert(self.state().handlers =~= s.handlers.update(k as int, ns));
                    assert(self.state().frames =~= s.frames.update(
                        f as int,
                        FrameState {
                            regs: regs@.update(dst as int, v),
                            pc,
                            ..s.frames[f as int]
                        },
                    ));
                }
                return Ok(());
            }
            n = k;
        }
        Err(text("resume called without a captured continuation"))
    }

    fn performed_effect(&self, f: usize, i: Instruction) -> (r: Result<String, String>)
        requires
            self.wf(),
            f < self.frames@.len(),
        ensures
            match r {
                Ok(name) => effect_name(self.modules@, self.state(), f as int, i) == Ok::<
                    Seq<char>,
                    Seq<char>,
                >(name@),
                Err(e) => effect_name(self.modules@, self.state(), f as int, i) == Err::<
                    Seq<char>,
                    Seq<char>,
                >(e@),
            },
    {
        assert(frame_ok(self.modules@, self.state().frames[f as int], f as int));
        let m: &CodeModule = &self.modules[self.frames[f].module_idx];
        if i.opcode == OpCode::PerformDirect {
            let t: usize = i.op1 as usize;
            let b: usize = i.op2 as usize;
            if t >= m.handler_tables.len() {
                return Err(cat3("Handler table ", dec_of(t as u64).as_str(), " not found"));
            }
            if b >= m.handler_tables[t].bindings.len() {
                return Err(cat3("Binding ", dec_of(b as u64).as_str(), " not found"));
            }
            Ok(m.handler_tables[t].bindings[b].effect_name.clone())
        } else {
            let idx: usize = i.imm16() as usize;
            if idx < m.constants.len() {
                match &m.constants[idx] {
                    Constant::String(s) => Ok(s.clone()),
                    _ => Err(text("Effect name not found in constants")),
                }
            } else {
                Err(text("Effect name not found in constants"))
            }
        }
    }

    fn print_text(&self, v: u64) -> (r: String)
        ensures
            r@ == printed(self.state(), v),
    {
        if is_int_raw(v) {
            dec_of_signed(as_int_raw(v))
        } else if v == TAG_NIL {
            text("nil")
        } else if tag(v) == TAG_BOOL {
            if payload(v) % 2 == 1 {
                text("true")
            } else {
                text("false")
            }
        } else {
            match self.resolve_display_string(v) {
                Some(s) => s,
                None => {
                    let mut out: String = text("<value:0x");
                    push_hex(&mut out, v);
                    out.append(">");
                    out
                },
            }
        }
    }

    fn step_perform(&mut self, f: usize, i: Instruction) -> (r: Result<StepOutcome, String>)
        requires
            old(self).wf(),
            f < old(self).frames@.len(),
        ensures
            final(self).same_setup(old(self)),
            match r {
                Ok(StepOutcome::Continue) => perform(
                    old(self).modules@,
                    old(self).state(),
                    f as int,
                    i,
                ) == StepResult::Continue(final(self).state()),
                Ok(StepOutcome::ReadLine { dst }) => perform(
                    old(self).modules@,
                    old(self).state(),
                    f as int,
                    i,
                ) == StepResult::ReadLine(dst) && final(self).state() == old(self).state(),
                Ok(StepOutcome::Halt) => false,
                Err(e) => perform(old(self).modules@, old(self).state(), f as int, i)
                    == StepResult::Fail(e@) && final(self).state() == old(self).state(),
            },
    {
        let name: String = match self.performed_effect(f, i) {
            Ok(n) => n,
            Err(e) => {
                return Err(e);
            },
        };
        match BuiltinEffect::from_name(name.as_str()) {
            Some(BuiltinEffect::IOPrint) => {
                let v: u64 = self.get_reg(f, 0);
                let line: String = self.print_text(v);
                let ghost out = line@;
                self.output.push(line);
                proof {
                    let s = old(self).state();
                    assert(self.state().output =~= s.output.push(out));
                    assert(self.state() =~= VmState { output: s.output.push(out), ..s });
                }
                self.set_reg(f, i.op3, TAG_UNIT);
                return Ok(StepOutcome::Continue);
            },
            Some(BuiltinEffect::IORead) => {
                return Ok(StepOutcome::ReadLine { dst: i.op3 });
            },
            None => {},
        }
        if str_eq(name.as_str(), "String.charAt") {
            let s_val: u64 = self.get_reg(f, 0);
            let n: i64 = as_int_raw(self.get_reg(f, 1));
            match self.resolve_display_string(s_val) {
                None => Err(text("String.charAt: string not found")),
                Some(s) => {
                    let v: Vec<char> = chars_of(s.as_str());
                    let code: i64 = if n >= 0 && (n as u64) < v.len() as u64 {
                        crate::text::code_point(v[n as usize]) as i64
                    } else {
                        0
                    };
                    self.set_reg(f, i.op3, tag_int(code));
                    Ok(StepOutcome::Continue)
                },
            }
        } else if str_eq(name.as_str(), "String.length") {
            let s_val: u64 = self.get_reg(f, 0);
            match self.resolve_display_string(s_val) {
                None => Err(text("String.length: string not found")),
                Some(s) => {
                    let n: u64 = s.as_str().as_bytes().len() as u64;
                    self.set_reg(f, i.op3, TAG_INT + payload(n));
                    Ok(StepOutcome::Continue)
                },
            }
        } else if str_eq(name.as_str(), "Int.to_string") {
            let n: i64 = as_int_raw(self.get_reg(f, 0));
            self.set_string(f, i.op3, dec_of_signed(n).as_str());
            Ok(StepOutcome::Continue)
        } else if str_eq(name.as_str(), "String.from_char") {
            let n: i64 = as_int_raw(self.get_reg(f, 0));
            let low: u64 = if n >= 0 {
                n as u64 % 0x1_0000_0000
            } else {
                0xffff_ffff - (-(n + 1)) as u64 % 0x1_0000_0000
            };
            assert(low == n as int % 0x1_0000_0000);
            let mut s: String = String::new();
            match char_from_u32(low as u32) {
                Some(c) => {
                    s.push(c);
                },
                None => {},
            }
            assert(s@ =~= char_text(n as int));
            self.set_string(f, i.op3, s.as_str());
            Ok(StepOutcome::Continue)
        } else {
            Err(cat2("Unhandled effect: ", name.as_str()))
        }
    }
}

/// Whether the outcome of a step and the machine afterwards are what the
/// instruction does.
pub open spec fn step_agrees(
    expected: StepResult,
    before: VmState,
    after: VmState,
    r: Result<StepOutcome, String>,
) -> bool {
    match r {
        Ok(StepOutcome::Continue) => expected == StepResult::Continue(after),
        Ok(StepOutcome::Halt) => expected == StepResult::Halt(after),
        Ok(StepOutcome::ReadLine { dst }) => expected == StepResult::ReadLine(dst) && after
            == before,
        Err(e) => expected == StepResult::Fail(e@) && after == before,
    }
}

/// The state in which a run of the given module starts.
pub open spec fn started(s: VmState, module_idx: usize, entry_pc: usize) -> VmState {
    VmState {
        frames: s.frames.push(
            FrameState {
                regs: Seq::new(256, |i: int| TAG_UNIT),
                pc: entry_pc,
                module_idx,
                return_dst: 0,
                caller_idx: None,
                closure_env: None,
            },
        ),
        ..s
    }
}

/// The result of a finished run: register 0 of the top frame.
pub open spec fn result_of(s: VmState) -> u64 {
    if s.frames.len() == 0 {
        TAG_UNIT
    } else {
        s.frames.last().regs[0]
    }
}

/// Whether the outcome of a run and the machine afterwards are what running
/// the instructions gives.
pub open spec fn run_agrees(expected: RunResult, vm: &CoreVM, r: Result<RunOutcome, String>) -> bool {
    match r {
        Ok(RunOutcome::Done(v)) => expected == RunResult::Done(vm.state()) && v == result_of(
            vm.state(),
        ),
        Ok(RunOutcome::NeedLine { dst }) => expected == RunResult::NeedLine(vm.state(), dst),
        Ok(RunOutcome::OutOfFuel) => expected == RunResult::OutOfFuel(vm.state()),
        Err(e) => expected == RunResult::Fail(vm.state(), e@),
    }
}

/// Executing an instruction in the top frame keeps the machine runnable: no
/// later step meets a missing module, register or caller.
pub proof fn step_keeps_runnable(code: Seq<CodeModule>, s: VmState, i: Instruction)
    requires
        runnable(code, s),
        0 < s.frames.len() <= usize::MAX,
    ensures
        step(code, s, s.frames.len() - 1, i) matches StepResult::Continue(t) ==> runnable(code, t),
        step(code, s, s.frames.len() - 1, i) matches StepResult::Halt(t) ==> runnable(code, t),
{
    let f = s.frames.len() - 1;
    put_keeps_runnable(code, s, f);
    match i.opcode {
        OpCode::Swap => {
            put_keeps_runnable(code, put(s, f, i.op1, reg(s, f, i.op2)), f);
        },
        OpCode::Call | OpCode::ClosureCall => {
            call_keeps_runnable(code, s, i);
        },
        OpCode::RetVal => {
            ret_keeps_runnable(code, s, reg(s, f, i.op1));
        },
        OpCode::Ret => {
            ret_keeps_runnable(code, s, reg(s, f, 0));
        },
        OpCode::CapStore => {
            if let StepResult::Continue(t) = cap_store(s, f, i) {
                put_keeps_runnable(code, VmState { envs: t.envs, ..s }, f);
            }
        },
        OpCode::Handle => {},
        OpCode::Perform | OpCode::PerformDirect => {
            if let StepResult::Continue(t) = perform(code, s, f, i) {
                put_keeps_runnable(code, VmState { output: t.output, ..s }, f);
                put_keeps_runnable(code, VmState { strings: t.strings, ..s }, f);
            }
        },
        OpCode::Resume => {
            resume_keeps_runnable(code, s, reg(s, f, i.op1));
        },
        OpCode::SConcat => {
            if let StepResult::Continue(t) = step(code, s, f, i) {
                put_keeps_runnable(code, VmState { strings: t.strings, ..s }, f);
            }
        },
        OpCode::ConstU => {
            if let StepResult::Continue(t) = step(code, s, f, i) {
                put_keeps_runnable(code, VmState { strings: t.strings, ..s }, f);
            }
        },
        _ => {},
    }
}

proof fn put_keeps_runnable(code: Seq<CodeModule>, s: VmState, f: int)
    requires
        runnable(code, s),
        0 <= f < s.frames.len(),
    ensures
        forall|r: u8, v: u64| runnable(code, #[trigger] put(s, f, r, v)),
        forall|pc: usize| runnable(code, #[trigger] goto(s, f, pc)),
{
    assert(frame_ok(code, s.frames[f], f));
    assert forall|r: u8, v: u64| runnable(code, #[trigger] put(s, f, r, v)) by {
        let t = put(s, f, r, v);
        assert forall|k: int| 0 <= k < t.frames.len() implies frame_ok(
            code,
            #[trigger] t.frames[k],
            k,
        ) by {
            assert(frame_ok(code, s.frames[k], k));
        }
    }
    assert forall|pc: usize| runnable(code, #[trigger] goto(s, f, pc)) by {
        let t = goto(s, f, pc);
        assert forall|k: int| 0 <= k < t.frames.len() implies frame_ok(
            code,
            #[trigger] t.frames[k],
            k,
        ) by {
            assert(frame_ok(code, s.frames[k], k));
        }
    }
}

proof fn call_keeps_runnable(code: Seq<CodeModule>, s: VmState, i: Instruction)
    requires
        runnable(code, s),
        s.frames.len() > 0,
        s.frames.len() <= usize::MAX,
    ensures
        call(code, s, s.frames.len() - 1, i) matches StepResult::Continue(t) ==> runnable(code, t),
{
    let f = s.frames.len() - 1;
    if let StepResult::Continue(t) = call(code, s, f, i) {
        assert forall|k: int| 0 <= k < t.frames.len() implies frame_ok(
            code,
            #[trigger] t.frames[k],
            k,
        ) by {
            assert(frame_ok(code, s.frames[f], f));
            if k < s.frames.len() {
                assert(frame_ok(code, s.frames[k], k));
            }
        }
    }
}

proof fn ret_keeps_runnable(code: Seq<CodeModule>, s: VmState, v: u64)
    requires
        runnable(code, s),
        s.frames.len() > 0,
    ensures
        ret(s, s.frames.len() - 1, v) matches StepResult::Continue(t) ==> runnable(code, t),
{
    let f = s.frames.len() - 1;
    assert(frame_ok(code, s.frames[f], f));
    if let Some(c) = s.frames[f].caller_idx {
        put_keeps_runnable(code, s, c as int);
        let t = put(s, c as int, s.frames[f].return_dst, v);
        assert(runnable(code, t));
        let u = VmState { frames: t.frames.drop_last(), ..t };
        assert forall|k: int| 0 <= k < u.frames.len() implies frame_ok(
            code,
            #[trigger] u.frames[k],
            k,
        ) by {
            assert(frame_ok(code, t.frames[k], k));
        }
    }
}

proof fn resume_keeps_runnable(code: Seq<CodeModule>, s: VmState, v: u64)
    requires
        runnable(code, s),
        s.frames.len() > 0,
    ensures
        resume(s, s.frames.len() - 1, v) matches StepResult::Continue(t) ==> runnable(code, t),
{
    let f = s.frames.len() - 1;
    captured_handler_bounds(s.handlers, s.handlers.len() as int);
    if let StepResult::Continue(t) = resume(s, f, v) {
        let h = captured_handler(s.handlers, s.handlers.len() as int);
        assert(handler_ok(s.handlers[h]));
        assert forall|k: int| 0 <= k < t.frames.len() implies frame_ok(
            code,
            #[trigger] t.frames[k],
            k,
        ) by {
            assert(frame_ok(code, s.frames[k], k));
        }
        assert forall|k: int| 0 <= k < t.handlers.len() implies handler_ok(
            #[trigger] t.handlers[k],
        ) by {
            assert(handler_ok(s.handlers[k]));
        }
    }
}

proof fn captured_handler_bounds(h: Seq<HandlerState>, n: int)
    requires
        n <= h.len(),
    ensures
        captured_handler(h, n) < h.len(),
        captured_handler(h, n) >= 0 ==> h[captured_handler(h, n)].saved_regs is Some,
        captured_handler(h, n) >= -1,
    decreases n,
{
    if n > 0 && h[n - 1].saved_regs is None {
        captured_handler_bounds(h, n - 1);
    }
}

proof fn advance_keeps_runnable(code: Seq<CodeModule>, s: VmState, f: int)
    requires
        runnable(code, s),
        0 <= f,
    ensures
        runnable(code, advance(s, f)),
{
    if f < s.frames.len() {
        put_keeps_runnable(code, s, f);
    }
}

/// The pool index that interning returns always resolves to the interned
/// text, and every earlier string keeps its index.
pub proof fn interning_resolves(strings: Seq<Seq<char>>, t: Seq<char>)
    ensures
        pool_index(strings, t, 0) < pool_with(strings, t).len(),
        pool_with(strings, t)[pool_index(strings, t, 0)] == t,
        pool_with(strings, t).len() >= strings.len(),
        forall|i: int| 0 <= i < strings.len() ==> pool_with(strings, t)[i] == strings[i],
{
    pool_index_bounds(strings, t, 0);
}

proof fn pool_index_bounds(strings: Seq<Seq<char>>, t: Seq<char>, from: int)
    requires
        0 <= from <= strings.len(),
    ensures
        from <= pool_index(strings, t, from) <= strings.len(),
        pool_index(strings, t, from) < strings.len() ==> strings[pool_index(strings, t, from)] == t,
    decreases strings.len() - from,
{
    if from < strings.len() && strings[from] != t {
        pool_index_bounds(strings, t, from + 1);
    }
}

/// Running with a larger budget gives the same outcome once a run has ended.
pub proof fn more_fuel_same_outcome(code: Seq<CodeModule>, s: VmState, fuel: nat, more: nat)
    requires
        fuel <= more,
        !(run_for(code, s, fuel) is OutOfFuel),
    ensures
        run_for(code, s, more) == run_for(code, s, fuel),
    decreases fuel,
{
    if s.frames.len() > 0 && fuel > 0 {
        let f = s.frames.len() - 1;
        if let StepResult::Continue(t) = step(code, s, f, fetch(code, s)) {
            more_fuel_same_outcome(code, advance(t, f), (fuel - 1) as nat, (more - 1) as nat);
        }
    }
}

/// A run that is interrupted by its budget and continued is the same as one
/// uninterrupted run.
pub proof fn interrupted_run_continues(code: Seq<CodeModule>, s: VmState, first: nat, second: nat)
    ensures
        match run_for(code, s, first) {
            RunResult::OutOfFuel(t) => run_for(code, s, first + second) == run_for(code, t, second),
            other => run_for(code, s, first + second) == other,
        },
    decreases first,
{
    if s.frames.len() > 0 {
        if first > 0 {
            let f = s.frames.len() - 1;
            if let StepResult::Continue(t) = step(code, s, f, fetch(code, s)) {
                interrupted_run_continues(code, advance(t, f), (first - 1) as nat, second);
                assert((first + second - 1) as nat == (first - 1) as nat + second);
            }
        }
    }
}

impl CoreVM {
    fn step_constant(&mut self, f: usize, i: Instruction)
        requires
            old(self).wf(),
            f < old(self).frames@.len(),
        ensures
            final(self).same_setup(old(self)),
            final(self).state() == load_constant(
                old(self).state(),
                f as int,
                i.op3,
                old(self).modules@[old(self).state().frames[f as int].module_idx as int].constants@,
                i.imm(),
            ),
    {
        assert(frame_ok(self.modules@, self.state().frames[f as int], f as int));
        let m: usize = self.frames[f].module_idx;
        let idx: usize = i.imm16() as usize;
        if idx < self.modules[m].constants.len() {
            let loaded: Option<String> = match &self.modules[m].constants[idx] {
                Constant::String(s) => Some(s.clone()),
                _ => None,
            };
            match loaded {
                Some(s) => {
                    self.set_string(f, i.op3, s.as_str());
                },
                None => {
                    let v: u64 = match &self.modules[m].constants[idx] {
                        Constant::Int(n) => tag_int(*n),
                        Constant::Bool(b) => tag_bool(*b),
                        Constant::Unit => TAG_UNIT,
                        _ => TAG_NIL,
                    };
                    self.set_reg(f, i.op3, v);
                },
            }
        } else {
            self.set_reg(f, i.op3, TAG_NIL);
        }
    }

    fn step_handle(&mut self, f: usize, i: Instruction)
        requires
            f < old(self).frames@.len(),
            i.opcode == OpCode::Handle,
        ensures
            final(self).same_setup(old(self)),
            step(old(self).modules@, old(self).state(), f as int, i) == StepResult::Continue(
                final(self).state(),
            ),
    {
        let h: HandlerFrame = HandlerFrame {
            handler_table_idx: i.op1 as usize,
            module_idx: self.frames[f].module_idx,
            resume_pc: self.frames[f].pc,
            resume_dst: i.op2,
            saved_regs: None,
            saved_pc: None,
        };
        let ghost hs = h.state();
        self.handler_stack.push(h);
        proof {
            let s = old(self).state();
            assert(self.state().handlers =~= s.handlers.push(hs));
            assert(self.state() =~= VmState { handlers: s.handlers.push(hs), ..s });
        }
    }

    fn jump(&mut self, f: usize, offset: i16)
        requires
            f < old(self).frames@.len(),
        ensures
            final(self).same_setup(old(self)),
            final(self).state() == goto(
                old(self).state(),
                f as int,
                jump_pc(old(self).state().frames[f as int].pc, offset as int),
            ),
    {
        let pc: usize = self.frames[f].pc;
        let target: usize = pc.wrapping_add_signed(offset as isize).wrapping_sub(1);
        self.set_pc(f, target);
    }

    /// Integer arithmetic: stores the value of the operation.
    fn arith_value(&self, f: usize, i: Instruction) -> (r: Option<(u8, u64)>)
        requires
            self.wf(),
            f < self.frames@.len(),
        ensures
            match r {
                Some((dst, v)) => step(self.modules@, self.state(), f as int, i)
                    == StepResult::Continue(put(self.state(), f as int, dst, v)),
                None => !(i.opcode is Const0 || i.opcode is Const1 || i.opcode is Const2
                    || i.opcode is ConstM1 || i.opcode is Move || i.opcode is Load
                    || i.opcode is Store || i.opcode is Dup || i.opcode is IAdd || i.opcode is ISub
                    || i.opcode is IMul || i.opcode is IDiv || i.opcode is IMod || i.opcode is INeg
                    || i.opcode is IInc || i.opcode is IDec || i.opcode is Shl || i.opcode is Shr
                    || i.opcode is ICmpEq || i.opcode is ICmpLt || i.opcode is ICmpGt
                    || i.opcode is ICmpLe || i.opcode is ICmpGe || i.opcode is Not
                    || i.opcode is And || i.opcode is Or || i.opcode is Closure),
            },
    {
        let x: u64 = self.get_reg(f, i.op1);
        let y: u64 = self.get_reg(f, i.op2);
        let a: i64 = as_int_raw(x);
        let b: i64 = as_int_raw(y);
        match i.opcode {
            OpCode::Const0 => Some((i.op1, tag_int(0))),
            OpCode::Const1 => Some((i.op1, tag_int(1))),
            OpCode::Const2 => Some((i.op1, tag_int(2))),
            OpCode::ConstM1 => Some((i.op1, tag_int(-1))),
            OpCode::Move | OpCode::Load | OpCode::Store | OpCode::Dup => Some((i.op2, x)),
            OpCode::IAdd => Some((i.op3, tag_int(a + b))),
            OpCode::ISub => Some((i.op3, tag_int(a - b))),
            OpCode::IMul => Some((i.op3, mul_value(a, b))),
            OpCode::IDiv => Some(
                (
                    i.op3,
                    if b == 0 {
                        TAG_NIL
                    } else {
                        tag_int(int_div(a, b))
                    },
                ),
            ),
            OpCode::IMod => Some(
                (
                    i.op3,
                    if b == 0 {
                        TAG_NIL
                    } else {
                        tag_int(int_mod(a, b))
                    },
                ),
            ),
            OpCode::INeg => Some((i.op2, tag_int(-a))),
            OpCode::IInc => Some((i.op1, tag_int(a + 1))),
            OpCode::IDec => Some((i.op1, tag_int(a - 1))),
            OpCode::Shl => Some((i.op3, shl_value(a, shift_distance(b)))),
            OpCode::Shr => Some((i.op3, tag_int(shr_int(a, shift_distance(b))))),
            OpCode::ICmpEq => Some((i.op3, tag_bool(a == b))),
            OpCode::ICmpLt => Some((i.op3, tag_bool(a < b))),
            OpCode::ICmpGt => Some((i.op3, tag_bool(a > b))),
            OpCode::ICmpLe => Some((i.op3, tag_bool(a <= b))),
            OpCode::ICmpGe => Some((i.op3, tag_bool(a >= b))),
            OpCode::Not => Some((i.op2, tag_bool(!is_truthy(x)))),
            OpCode::And => Some((i.op3, tag_bool(is_truthy(x) && is_truthy(y)))),
            OpCode::Or => Some((i.op3, tag_bool(is_truthy(x) || is_truthy(y)))),
            OpCode::Closure => Some((i.op3, tag_closure(i.imm16() as u64))),
            _ => None,
        }
    }

    /// Executes one instruction in the top frame.
    fn step_inner(&mut self, f: usize, i: Instruction) -> (r: Result<StepOutcome, String>)
        requires
            old(self).wf(),
            f + 1 == old(self).frames@.len(),
        ensures
            final(self).same_setup(old(self)),
            step_agrees(
                step(old(self).modules@, old(self).state(), f as int, i),
                old(self).state(),
                final(self).state(),
                r,
            ),
    {
        match self.arith_value(f, i) {
            Some((dst, v)) => {
                self.set_reg(f, dst, v);
                return Ok(StepOutcome::Continue);
            },
            None => {},
        }
        match i.opcode {
            OpCode::Halt => Ok(StepOutcome::Halt),
            OpCode::ConstU => {
                self.step_constant(f, i);
                Ok(StepOutcome::Continue)
            },
            OpCode::Swap => {
                let a: u64 = self.get_reg(f, i.op1);
                let b: u64 = self.get_reg(f, i.op2);
                self.set_reg(f, i.op1, b);
                self.set_reg(f, i.op2, a);
                Ok(StepOutcome::Continue)
            },
            OpCode::Jmp => {
                self.jump(f, i.simm16());
                Ok(StepOutcome::Continue)
            },
            OpCode::JmpT => {
                if is_truthy(self.get_reg(f, i.op1)) {
                    self.jump(f, i.offset16());
                }
                Ok(StepOutcome::Continue)
            },
            OpCode::JmpF => {
                if !is_truthy(self.get_reg(f, i.op1)) {
                    self.jump(f, i.offset16());
                }
                Ok(StepOutcome::Continue)
            },
            OpCode::Call | OpCode::ClosureCall => match self.step_call(f, i) {
                Ok(_) => Ok(StepOutcome::Continue),
                Err(e) => Err(e),
            },
            OpCode::RetVal => {
                let v: u64 = self.get_reg(f, i.op1);
                Ok(self.step_return(f, v))
            },
            OpCode::Ret => {
                let v: u64 = self.get_reg(f, 0);
                Ok(self.step_return(f, v))
            },
            OpCode::CapStore => match self.step_cap_store(f, i) {
                Ok(_) => Ok(StepOutcome::Continue),
                Err(e) => Err(e),
            },
            OpCode::CapLoad => match self.step_cap_load(f, i) {
                Ok(_) => Ok(StepOutcome::Continue),
                Err(e) => Err(e),
            },
            OpCode::Handle => {
                self.step_handle(f, i);
                Ok(StepOutcome::Continue)
            },
            OpCode::Perform | OpCode::PerformDirect => self.step_perform(f, i),
            OpCode::Resume => {
                let v: u64 = self.get_reg(f, i.op1);
                match self.step_resume(f, v) {
                    Ok(_) => Ok(StepOutcome::Continue),
                    Err(e) => Err(e),
                }
            },
            OpCode::SConcat => {
                let a: String = self.resolve_text(self.get_reg(f, i.op1));
                let b: String = self.resolve_text(self.get_reg(f, i.op2));
                let joined: String = cat2(a.as_str(), b.as_str());
                self.set_string(f, i.op3, joined.as_str());
                Ok(StepOutcome::Continue)
            },
            _ => Ok(StepOutcome::Continue),
        }
    }

    /// Starts a run of a loaded module at the given program counter, for at
    /// most `fuel` instructions.
    pub fn run(&mut self, module_idx: usize, entry_pc: usize, fuel: u64) -> (r: Result<
        RunOutcome,
        String,
    >)
        requires
            old(self).wf(),
            module_idx < old(self).modules@.len(),
        ensures
            final(self).wf(),
            final(self).modules == old(self).modules,
            run_agrees(
                run_for(
                    old(self).modules@,
                    started(old(self).state(), module_idx, entry_pc),
                    fuel as nat,
                ),
                final(self),
                r,
            ),
            final(self).halted == (r matches Ok(RunOutcome::Done(_))),
            final(self).exit_code == exit_code_after(*old(self), r),
    {
        let mut frame: Frame = Frame::new(None, module_idx);
        frame.pc = entry_pc;
        let ghost fs = frame.state();
        self.frames.push(frame);
        self.halted = false;
        proof {
            let s = old(self).state();
            assert(self.state().frames =~= s.frames.push(fs));
            assert(self.state() =~= started(s, module_idx, entry_pc));
            let t = self.state();
            assert forall|k: int| 0 <= k < t.frames.len() implies frame_ok(
                self.modules@,
                #[trigger] t.frames[k],
                k,
            ) by {
                if k < s.frames.len() {
                    assert(frame_ok(self.modules@, s.frames[k], k));
                }
            }
        }
        self.run_inner(fuel)
    }

    /// Continues an interrupted run.
    pub fn resume_run(&mut self, fuel: u64) -> (r: Result<RunOutcome, String>)
        requires
            old(self).wf(),
            !old(self).halted,
        ensures
            final(self).wf(),
            final(self).modules == old(self).modules,
            run_agrees(
                run_for(old(self).modules@, old(self).state(), fuel as nat),
                final(self),
                r,
            ),
            final(self).halted == (r matches Ok(RunOutcome::Done(_))),
            final(self).exit_code == exit_code_after(*old(self), r),
    {
        self.run_inner(fuel)
    }

    fn run_inner(&mut self, fuel: u64) -> (r: Result<RunOutcome, String>)
        requires
            old(self).wf(),
            !old(self).halted,
        ensures
            final(self).wf(),
            final(self).modules == old(self).modules,
            run_agrees(
                run_for(old(self).modules@, old(self).state(), fuel as nat),
                final(self),
                r,
            ),
            final(self).halted == (r matches Ok(RunOutcome::Done(_))),
            final(self).exit_code == exit_code_after(*old(self), r),
    {
        let ghost goal = run_for(self.modules@, self.state(), fuel as nat);
        let mut left: u64 = fuel;
        while self.frames.len() > 0
            invariant_except_break
                !self.halted,
                goal == run_for(self.modules@, self.state(), left as nat),
            invariant
                self.wf(),
                self.modules == old(self).modules,
                self.exit_code == old(self).exit_code,
                goal == run_for(old(self).modules@, old(self).state(), fuel as nat),
            ensures
                self.wf(),
                self.modules == old(self).modules,
                self.exit_code == old(self).exit_code,
                goal == RunResult::Done(self.state()),
            decreases left,
        {
            if left == 0 {
                return Ok(RunOutcome::OutOfFuel);
            }
            let top: usize = self.frames.len() - 1;
            let ghost s = self.state();
            assert(frame_ok(self.modules@, s.frames[top as int], top as int));
            let m: usize = self.frames[top].module_idx;
            let pc: usize = self.frames[top].pc;
            let instr: Instruction = if pc < self.modules[m].instructions.len() {
                self.modules[m].instructions[pc]
            } else {
                Instruction::new0(OpCode::Halt)
            };
            assert(instr == fetch(self.modules@, s));
            proof {
                step_keeps_runnable(self.modules@, s, instr);
            }
            match self.step_inner(top, instr) {
                Err(e) => {
                    return Err(e);
                },
                Ok(StepOutcome::ReadLine { dst }) => {
                    return Ok(RunOutcome::NeedLine { dst });
                },
                Ok(StepOutcome::Halt) => {
                    break;
                },
                Ok(StepOutcome::Continue) => {
                    let ghost t = self.state();
                    proof {
                        advance_keeps_runnable(self.modules@, t, top as int);
                    }
                    if top < self.frames.len() {
                        let next: usize = self.frames[top].pc.wrapping_add(1);
                        self.set_pc(top, next);
                    }
                    assert(self.state() == advance(t, top as int));
                },
            }
            left -= 1;
        }
        self.halted = true;
        let result: u64 = if self.frames.len() > 0 {
            self.frames[self.frames.len() - 1].regs[0]
        } else {
            TAG_UNIT
        };
        assert(result == result_of(self.state()));
        if is_int_raw(result) {
            self.exit_code = as_int_raw(result);
        }
        Ok(RunOutcome::Done(result))
    }

    /// Supplies the line that a suspended run waits for, without its line
    /// ending, and lets the waiting instruction complete.
    pub fn provide_line(&mut self, dst: u8, line: &str)
        requires
            old(self).wf(),
            old(self).frames@.len() > 0,
        ensures
            final(self).wf(),
            final(self).same_setup(old(self)),
            final(self).state() == advance(
                put_string(
                    old(self).state(),
                    old(self).frames@.len() - 1,
                    dst,
                    chomped(line@),
                ),
                old(self).frames@.len() - 1,
            ),
    {
        let top: usize = self.frames.len() - 1;
        let clean: String = chomp(line);
        let ghost s = self.state();
        self.set_string(top, dst, clean.as_str());
        let ghost t = self.state();
        proof {
            put_keeps_runnable(
                self.modules@,
                VmState { strings: t.strings, ..s },
                top as int,
            );
            advance_keeps_runnable(self.modules@, t, top as int);
        }
        let next: usize = self.frames[top].pc.wrapping_add(1);
        self.set_pc(top, next);
    }
}

/// The exit code after a run: the result when it is an integer, else as before.
pub open spec fn exit_code_after(before: CoreVM, r: Result<RunOutcome, String>) -> i64 {
    match r {
        Ok(RunOutcome::Done(v)) => if value_layout::tag_of(v) == TAG_INT {
            value_layout::int_of(v) as i64
        } else {
            before.exit_code
        },
        _ => before.exit_code,
    }
}

fn grown(captures: &Vec<u64>, slot: usize, v: u64) -> (r: Vec<u64>)
    requires
        slot < 256,
    ensures
        r@ == captured(captures@, slot as int, v),
{
    let mut out: Vec<u64> = Vec::new();
    let mut k: usize = 0;
    let n: usize = if captures.len() <= slot {
        slot + 1
    } else {
        captures.len()
    };
    while k < n
        invariant
            k <= n,
            n == captured(captures@, slot as int, v).len(),
            out@ == captured(captures@, slot as int, v).take(k as int),
        decreases n - k,
    {
        if k == slot {
            out.push(v);
        } else if k < captures.len() {
            out.push(captures[k]);
        } else {
            out.push(TAG_NIL);
        }
        k += 1;
        assert(captured(captures@, slot as int, v).take(k as int) =~= captured(
            captures@,
            slot as int,
            v,
        ).take(k - 1).push(captured(captures@, slot as int, v)[k - 1]));
    }
    assert(out@ =~= captured(captures@, slot as int, v));
    out
}

} // verus!
