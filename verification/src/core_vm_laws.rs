//! Laws of the Core instructions: how results relate to operands and to the
//! results of other instructions.

use crate::bytecode::{self, CodeModule, Constant, Instruction, OpCode};
use crate::core_vm::{self, FrameState, StepResult, VmState};
use crate::cost_model;
use crate::text;
use crate::value_layout::{self, TAG_BOOL, TAG_CLOSURE, TAG_INT, TAG_NIL, TAG_STRING, TAG_UNIT};
use vstd::arithmetic::power2::{lemma2_to64, lemma_pow2_pos, lemma_pow2_unfold, pow2};
use vstd::prelude::*;
use vstd::utf8::*;

verus! {

/// Whether a frame with all its registers stands at position `f`.
pub open spec fn running(s: VmState, f: int) -> bool {
    0 <= f < s.frames.len() && s.frames[f].regs.len() == 256
}

/// The instruction of an operation and its operands.
pub open spec fn instr(opcode: OpCode, op1: u8, op2: u8, op3: u8) -> Instruction {
    Instruction { opcode, op1, op2, op3 }
}

/// The state behind an instruction that goes on.
pub open spec fn after(code: Seq<CodeModule>, s: VmState, f: int, i: Instruction) -> VmState {
    core_vm::step(code, s, f, i)->Continue_0
}

/// What an instruction leaves in a register.
pub open spec fn leaves(code: Seq<CodeModule>, s: VmState, f: int, i: Instruction, r: u8) -> u64 {
    core_vm::reg(after(code, s, f, i), f, r)
}

/// Whether a value is the truth value true.
pub open spec fn is_true(v: u64) -> bool {
    value_layout::tag_of(v) == TAG_BOOL && value_layout::payload_of(v) == 1
}

/// Whether a value is the truth value false.
pub open spec fn is_false(v: u64) -> bool {
    value_layout::tag_of(v) == TAG_BOOL && value_layout::payload_of(v) == 0
}

/// Whether a value is an integer.
pub open spec fn is_int(v: u64) -> bool {
    value_layout::tag_of(v) == TAG_INT
}

/// Whether two integers agree in the 48 bits that a value holds.
pub open spec fn same_word(a: int, b: int) -> bool {
    exists|k: int| a - b == #[trigger] (k * 0x1_0000_0000_0000)
}

/// Whether the state differs from before in one register of one frame at most.
pub open spec fn only_register(s: VmState, t: VmState, f: int, r: u8) -> bool {
    &&& t.frames.len() == s.frames.len()
    &&& forall|g: int| 0 <= g < s.frames.len() && g != f ==> #[trigger] t.frames[g] == s.frames[g]
    &&& t.frames[f].regs.len() == s.frames[f].regs.len()
    &&& forall|k: int|
        0 <= k < s.frames[f].regs.len() && k != r ==> #[trigger] t.frames[f].regs[k]
            == s.frames[f].regs[k]
    &&& t.frames[f].pc == s.frames[f].pc
    &&& t.frames[f].module_idx == s.frames[f].module_idx
    &&& t.frames[f].return_dst == s.frames[f].return_dst
    &&& t.frames[f].caller_idx == s.frames[f].caller_idx
    &&& t.frames[f].closure_env == s.frames[f].closure_env
    &&& t.handlers == s.handlers
    &&& t.envs == s.envs
    &&& t.output == s.output
}

// ---------------------------------------------------------------------------
// Integers
// ---------------------------------------------------------------------------

proof fn word_of(n: int)
    ensures
        value_layout::tag_of(value_layout::int_value(n)) == TAG_INT,
        same_word(value_layout::int_of(value_layout::int_value(n)), n),
        -0x8000_0000_0000 <= value_layout::int_of(value_layout::int_value(n)) < 0x8000_0000_0000,
{
    let v = value_layout::int_value(n);
    let q = n / 0x1_0000_0000_0000;
    assert(n == q * 0x1_0000_0000_0000 + n % 0x1_0000_0000_0000);
    if n % 0x1_0000_0000_0000 < 0x8000_0000_0000 {
        assert(value_layout::int_of(v) - n == (-q) * 0x1_0000_0000_0000);
    } else {
        assert(value_layout::int_of(v) - n == (-q - 1) * 0x1_0000_0000_0000);
    }
}

/// An integer in range is the only one of its word.
pub proof fn words_are_distinct(a: int, b: int)
    requires
        -0x8000_0000_0000 <= a < 0x8000_0000_0000,
        -0x8000_0000_0000 <= b < 0x8000_0000_0000,
        same_word(a, b),
    ensures
        a == b,
{
    let k = choose|k: int| a - b == #[trigger] (k * 0x1_0000_0000_0000);
    assert(k == 0) by (nonlinear_arith)
        requires
            a - b == k * 0x1_0000_0000_0000,
            -0x1_0000_0000_0000 < a - b < 0x1_0000_0000_0000,
    ;
}

/// Comparisons order the integers: each leaves a truth value, less-than and
/// equality follow the order, greater is less with the operands exchanged, and
/// the two weak comparisons are the negations of the strict ones.
pub proof fn comparisons_order_integers(
    code: Seq<CodeModule>,
    s: VmState,
    f: int,
    x: u8,
    y: u8,
    d: u8,
)
    requires
        running(s, f),
    ensures
        forall|op: OpCode|
            op is ICmpEq || op is ICmpLt || op is ICmpGt || op is ICmpLe || op is ICmpGe ==> {
                let v = #[trigger] leaves(code, s, f, instr(op, x, y, d), d);
                &&& core_vm::step(code, s, f, instr(op, x, y, d)) is Continue
                &&& is_true(v) != is_false(v)
                &&& only_register(s, after(code, s, f, instr(op, x, y, d)), f, d)
            },
        is_true(leaves(code, s, f, instr(OpCode::ICmpLt, x, y, d), d)) <==> value_layout::int_of(core_vm::reg(s, f, y))
            - value_layout::int_of(core_vm::reg(s, f, x)) > 0,
        is_true(leaves(code, s, f, instr(OpCode::ICmpEq, x, y, d), d)) <==> value_layout::int_of(core_vm::reg(s, f, y))
            - value_layout::int_of(core_vm::reg(s, f, x)) == 0,
        leaves(code, s, f, instr(OpCode::ICmpGt, x, y, d), d) == leaves(
            code,
            s,
            f,
            instr(OpCode::ICmpLt, y, x, d),
            d,
        ),
        is_true(leaves(code, s, f, instr(OpCode::ICmpGe, x, y, d), d)) <==> is_false(
            leaves(code, s, f, instr(OpCode::ICmpLt, x, y, d), d),
        ),
        is_true(leaves(code, s, f, instr(OpCode::ICmpLe, x, y, d), d)) <==> is_false(
            leaves(code, s, f, instr(OpCode::ICmpGt, x, y, d), d),
        ),
        is_true(leaves(code, s, f, instr(OpCode::ICmpLe, x, y, d), d)) && is_true(
            leaves(code, s, f, instr(OpCode::ICmpGe, x, y, d), d),
        ) <==> is_true(leaves(code, s, f, instr(OpCode::ICmpEq, x, y, d), d)),
{
}

/// Subtraction undoes addition and negation is subtraction from zero, in the 48
/// bits of a value; increment and decrement step to the neighbours.
pub proof fn sums_and_differences(code: Seq<CodeModule>, s: VmState, f: int, x: u8, y: u8, d: u8)
    requires
        running(s, f),
    ensures
        ({
            let a = value_layout::int_of(core_vm::reg(s, f, x));
            let b = value_layout::int_of(core_vm::reg(s, f, y));
            let sum = leaves(code, s, f, instr(OpCode::IAdd, x, y, d), d);
            let difference = leaves(code, s, f, instr(OpCode::ISub, x, y, d), d);
            let negated = leaves(code, s, f, instr(OpCode::INeg, x, d, y), d);
            let next = leaves(code, s, f, instr(OpCode::IInc, x, y, d), x);
            let last = leaves(code, s, f, instr(OpCode::IDec, x, y, d), x);
            &&& is_int(sum) && is_int(difference) && is_int(negated) && is_int(next) && is_int(last)
            &&& same_word(value_layout::int_of(sum) - b, a)
            &&& same_word(value_layout::int_of(difference) + b, a)
            &&& same_word(value_layout::int_of(negated) + a, 0)
            &&& same_word(value_layout::int_of(next) - 1, a)
            &&& same_word(value_layout::int_of(last) + 1, a)
            &&& only_register(s, after(code, s, f, instr(OpCode::IAdd, x, y, d)), f, d)
            &&& only_register(s, after(code, s, f, instr(OpCode::ISub, x, y, d)), f, d)
            &&& only_register(s, after(code, s, f, instr(OpCode::INeg, x, d, y)), f, d)
            &&& only_register(s, after(code, s, f, instr(OpCode::IInc, x, y, d)), f, x)
            &&& only_register(s, after(code, s, f, instr(OpCode::IDec, x, y, d)), f, x)
        }),
{
    let a = value_layout::int_of(core_vm::reg(s, f, x));
    let b = value_layout::int_of(core_vm::reg(s, f, y));
    word_of(a + b);
    word_of(a - b);
    word_of(-a);
    word_of(a + 1);
    word_of(a - 1);
    let sum = value_layout::int_of(value_layout::int_value(a + b));
    let k = choose|k: int| sum - (a + b) == #[trigger] (k * 0x1_0000_0000_0000);
    assert((sum - b) - a == k * 0x1_0000_0000_0000);
    let diff = value_layout::int_of(value_layout::int_value(a - b));
    let k = choose|k: int| diff - (a - b) == #[trigger] (k * 0x1_0000_0000_0000);
    assert((diff + b) - a == k * 0x1_0000_0000_0000);
    let neg = value_layout::int_of(value_layout::int_value(-a));
    let k = choose|k: int| neg - (-a) == #[trigger] (k * 0x1_0000_0000_0000);
    assert((neg + a) - 0 == k * 0x1_0000_0000_0000);
    let inc = value_layout::int_of(value_layout::int_value(a + 1));
    let k = choose|k: int| inc - (a + 1) == #[trigger] (k * 0x1_0000_0000_0000);
    assert((inc - 1) - a == k * 0x1_0000_0000_0000);
    let dec = value_layout::int_of(value_layout::int_value(a - 1));
    let k = choose|k: int| dec - (a - 1) == #[trigger] (k * 0x1_0000_0000_0000);
    assert((dec + 1) - a == k * 0x1_0000_0000_0000);
}

/// Multiplication is repeated addition in the 48 bits of a value: a product with
/// zero is zero, and one more in the second factor adds the first factor.
pub proof fn products_repeat_sums(
    code: Seq<CodeModule>,
    s: VmState,
    t: VmState,
    f: int,
    x: u8,
    y: u8,
    d: u8,
)
    requires
        running(s, f),
        running(t, f),
        value_layout::int_of(core_vm::reg(t, f, x)) == value_layout::int_of(core_vm::reg(s, f, x)),
        value_layout::int_of(core_vm::reg(t, f, y)) == value_layout::int_of(core_vm::reg(s, f, y)) + 1,
    ensures
        ({
            let less = leaves(code, s, f, instr(OpCode::IMul, x, y, d), d);
            let more = leaves(code, t, f, instr(OpCode::IMul, x, y, d), d);
            &&& is_int(less) && is_int(more)
            &&& value_layout::int_of(core_vm::reg(s, f, y)) == 0 ==> value_layout::int_of(less) == 0
            &&& same_word(value_layout::int_of(more) - value_layout::int_of(less), value_layout::int_of(core_vm::reg(s, f, x)))
            &&& only_register(s, after(code, s, f, instr(OpCode::IMul, x, y, d)), f, d)
        }),
{
    let a = value_layout::int_of(core_vm::reg(s, f, x));
    let b = value_layout::int_of(core_vm::reg(s, f, y));
    word_of(a * b);
    word_of(a * (b + 1));
    let p = value_layout::int_of(value_layout::int_value(a * b));
    let q = value_layout::int_of(value_layout::int_value(a * (b + 1)));
    let k = choose|k: int| p - a * b == #[trigger] (k * 0x1_0000_0000_0000);
    let m = choose|m: int| q - a * (b + 1) == #[trigger] (m * 0x1_0000_0000_0000);
    assert(a * (b + 1) == a * b + a) by (nonlinear_arith);
    assert((q - p) - a == (m - k) * 0x1_0000_0000_0000);
    if b == 0 {
        assert(a * b == 0) by (nonlinear_arith)
            requires
                b == 0,
        ;
    }
}

/// Quotient and remainder make up the dividend: the remainder is smaller than
/// the divisor and does not have the other sign than the dividend. Division by
/// zero gives nil. (The least integer by minus one has no quotient in 48 bits.)
pub proof fn quotient_and_remainder(code: Seq<CodeModule>, s: VmState, f: int, x: u8, y: u8, d: u8)
    requires
        running(s, f),
    ensures
        ({
            let a = value_layout::int_of(core_vm::reg(s, f, x));
            let b = value_layout::int_of(core_vm::reg(s, f, y));
            let quotient = leaves(code, s, f, instr(OpCode::IDiv, x, y, d), d);
            let remainder = leaves(code, s, f, instr(OpCode::IMod, x, y, d), d);
            let q = value_layout::int_of(quotient);
            let r = value_layout::int_of(remainder);
            &&& b == 0 ==> quotient == TAG_NIL && remainder == TAG_NIL
            &&& b != 0 ==> is_int(quotient) && is_int(remainder)
            &&& b != 0 ==> -r < (if b < 0 { -b } else { b }) && r < (if b < 0 { -b } else { b })
            &&& b != 0 && a >= 0 ==> r >= 0
            &&& b != 0 && a <= 0 ==> r <= 0
            &&& b != 0 && !(a == -0x8000_0000_0000 && b == -1) ==> q * b + r == a
            &&& only_register(s, after(code, s, f, instr(OpCode::IDiv, x, y, d)), f, d)
            &&& only_register(s, after(code, s, f, instr(OpCode::IMod, x, y, d)), f, d)
        }),
{
    let a = value_layout::int_of(core_vm::reg(s, f, x));
    let b = value_layout::int_of(core_vm::reg(s, f, y));
    if b != 0 {
        let n = if a < 0 { -a } else { a };
        let m = if b < 0 { -b } else { b };
        vstd::arithmetic::div_mod::lemma_fundamental_div_mod(n, m);
        vstd::arithmetic::div_mod::lemma_mod_bound(n, m);
        let w = n / m;
        assert(0 <= w <= n) by (nonlinear_arith)
            requires
                n >= 0,
                m >= 1,
                w == n / m,
        ;
        let q = core_vm::trunc_div(a, b);
        let r = core_vm::trunc_mod(a, b);
        assert(q * b + r == a) by (nonlinear_arith)
            requires
                n == m * w + n % m,
                n == (if a < 0 { -a } else { a }),
                m == (if b < 0 { -b } else { b }),
                q == (if (a < 0) == (b < 0) { w } else { -w }),
                r == (if a < 0 { -(n % m) } else { n % m }),
        ;
        if !(a == -0x8000_0000_0000 && b == -1) {
            assert(-0x8000_0000_0000 <= q < 0x8000_0000_0000) by {
                if w == 0x8000_0000_0000 {
                    assert(m == 1) by (nonlinear_arith)
                        requires
                            n == m * w + n % m,
                            n % m >= 0,
                            n <= 0x8000_0000_0000,
                            w == 0x8000_0000_0000,
                            m >= 1,
                    ;
                }
            }
            value_layout::int_value_round_trip(q);
        }
        assert(-0x8000_0000_0000 <= r < 0x8000_0000_0000);
        value_layout::int_value_round_trip(r);
        word_of(q);
    }
}

proof fn doubled_is_scaled(a: int, n: nat)
    ensures
        core_vm::doubled(a, n) == a * pow2(n),
    decreases n,
{
    if n > 0 {
        doubled_is_scaled(a, (n - 1) as nat);
        lemma_pow2_unfold(n);
        assert(a * pow2((n - 1) as nat) * 2 == a * (2 * pow2((n - 1) as nat))) by (nonlinear_arith);
    } else {
        lemma2_to64();
    }
}

proof fn halved_is_floor(a: int, n: nat)
    ensures
        core_vm::halved(a, n) * pow2(n) <= a < (core_vm::halved(a, n) + 1) * pow2(n),
    decreases n,
{
    if n > 0 {
        let m = (n - 1) as nat;
        halved_is_floor(a, m);
        lemma_pow2_unfold(n);
        lemma_pow2_pos(m);
        let h = core_vm::halved(a, m);
        let g = core_vm::halved(a, n);
        let p = pow2(m) as int;
        assert(g == h / 2);
        assert(2 * g <= h < 2 * g + 2);
        assert(g * (2 * p) <= a < (g + 1) * (2 * p)) by (nonlinear_arith)
            requires
                p > 0,
                2 * g <= h < 2 * g + 2,
                h * p <= a < (h + 1) * p,
        ;
    } else {
        lemma2_to64();
    }
}

/// Shifting by `n` scales with the power of two: to the left exactly, in the 48
/// bits of a value, to the right rounding down. A distance counts by its low 32
/// bits, and from 63 on all distances are alike.
pub proof fn shifts_scale(code: Seq<CodeModule>, s: VmState, f: int, x: u8, y: u8, d: u8, n: nat)
    requires
        running(s, f),
        ({
            let low = value_layout::int_of(core_vm::reg(s, f, y)) % 0x1_0000_0000;
            n == (if low > 63 { 63 } else { low })
        }),
    ensures
        ({
            let a = value_layout::int_of(core_vm::reg(s, f, x));
            let up = leaves(code, s, f, instr(OpCode::Shl, x, y, d), d);
            let down = leaves(code, s, f, instr(OpCode::Shr, x, y, d), d);
            &&& is_int(up) && is_int(down)
            &&& same_word(value_layout::int_of(up), a * pow2(n))
            &&& value_layout::int_of(down) * pow2(n) <= a < (value_layout::int_of(down) + 1) * pow2(n)
            &&& only_register(s, after(code, s, f, instr(OpCode::Shl, x, y, d)), f, d)
            &&& only_register(s, after(code, s, f, instr(OpCode::Shr, x, y, d)), f, d)
        }),
{
    let a = value_layout::int_of(core_vm::reg(s, f, x));
    doubled_is_scaled(a, n);
    halved_is_floor(a, n);
    word_of(a * pow2(n));
    let h = core_vm::halved(a, n);
    lemma_pow2_pos(n);
    let p = pow2(n) as int;
    assert(-0x8000_0000_0000 <= h < 0x8000_0000_0000) by (nonlinear_arith)
        requires
            p >= 1,
            -0x8000_0000_0000 <= a < 0x8000_0000_0000,
            h * p <= a < (h + 1) * p,
    ;
    value_layout::int_value_round_trip(h);
    assert(core_vm::shift_by(value_layout::int_of(core_vm::reg(s, f, y))) == n);
}

/// The small constants are minus one, zero, one and two.
pub proof fn small_constants(code: Seq<CodeModule>, s: VmState, f: int, d: u8, y: u8, z: u8)
    requires
        running(s, f),
    ensures
        ({
            let m1 = leaves(code, s, f, instr(OpCode::ConstM1, d, y, z), d);
            let c0 = leaves(code, s, f, instr(OpCode::Const0, d, y, z), d);
            let c1 = leaves(code, s, f, instr(OpCode::Const1, d, y, z), d);
            let c2 = leaves(code, s, f, instr(OpCode::Const2, d, y, z), d);
            &&& is_int(m1) && is_int(c0) && is_int(c1) && is_int(c2)
            &&& value_layout::int_of(c0) + value_layout::int_of(c0) == value_layout::int_of(c0)
            &&& value_layout::int_of(c1) == value_layout::int_of(c0) + 1
            &&& value_layout::int_of(c2) == value_layout::int_of(c1) + 1
            &&& value_layout::int_of(c0) == value_layout::int_of(m1) + 1
        }),
        forall|op: OpCode|
            op is ConstM1 || op is Const0 || op is Const1 || op is Const2 ==> only_register(
                s,
                #[trigger] after(code, s, f, instr(op, d, y, z)),
                f,
                d,
            ),
{
}

// ---------------------------------------------------------------------------
// Truth and moves
// ---------------------------------------------------------------------------

/// The connectives compute truth: whether a payload is not zero. A negation is
/// true exactly where its operand is not, a conjunction exactly where both
/// operands are, a disjunction exactly where one is.
pub proof fn connectives_compute_truth(
    code: Seq<CodeModule>,
    s: VmState,
    f: int,
    x: u8,
    y: u8,
    d: u8,
)
    requires
        running(s, f),
    ensures
        ({
            let p = value_layout::payload_of(core_vm::reg(s, f, x)) != 0;
            let q = value_layout::payload_of(core_vm::reg(s, f, y)) != 0;
            let not = leaves(code, s, f, instr(OpCode::Not, x, d, y), d);
            let and = leaves(code, s, f, instr(OpCode::And, x, y, d), d);
            let or = leaves(code, s, f, instr(OpCode::Or, x, y, d), d);
            &&& if p { is_false(not) } else { is_true(not) }
            &&& if p { is_true(and) == q && is_false(and) == !q } else { is_false(and) }
            &&& if p { is_true(or) } else { is_true(or) == q && is_false(or) == !q }
            &&& only_register(s, after(code, s, f, instr(OpCode::Not, x, d, y)), f, d)
            &&& only_register(s, after(code, s, f, instr(OpCode::And, x, y, d)), f, d)
            &&& only_register(s, after(code, s, f, instr(OpCode::Or, x, y, d)), f, d)
        }),
{
}

/// A move copies a register and changes no other; an exchange is undone by
/// itself and moves each value to the other register.
pub proof fn moves_copy(code: Seq<CodeModule>, s: VmState, f: int, x: u8, y: u8, z: u8)
    requires
        running(s, f),
    ensures
        forall|op: OpCode|
            op is Move || op is Load || op is Store || op is Dup ==> {
                let t = #[trigger] after(code, s, f, instr(op, x, y, z));
                &&& core_vm::reg(t, f, y) == core_vm::reg(s, f, x)
                &&& only_register(s, t, f, y)
            },
        ({
            let t = after(code, s, f, instr(OpCode::Swap, x, y, z));
            &&& core_vm::reg(t, f, x) == core_vm::reg(s, f, y) && core_vm::reg(t, f, y) == core_vm::reg(s, f, x)
            &&& forall|r: u8| r != x && r != y ==> core_vm::reg(t, f, r) == #[trigger] core_vm::reg(s, f, r)
            &&& after(code, t, f, instr(OpCode::Swap, x, y, z)) == s
        }),
{
    let t = after(code, s, f, instr(OpCode::Swap, x, y, z));
    let u = after(code, t, f, instr(OpCode::Swap, x, y, z));
    assert(u.frames[f].regs =~= s.frames[f].regs);
    assert(u.frames =~= s.frames);
    assert(u =~= s);
}

/// Instructions outside the Core subset change nothing, and only the halting
/// instruction halts without returning.
pub proof fn other_instructions_do_nothing(code: Seq<CodeModule>, s: VmState, f: int, i: Instruction)
    requires
        running(s, f),
        i.opcode is Nop || i.opcode is FFICall || i.opcode is RSend || i.opcode is ArrAlloc
            || i.opcode is RecMk || i.opcode is RecCopy || i.opcode is PerformAsync,
    ensures
        core_vm::step(code, s, f, i) == StepResult::Continue(s),
{
}

/// Halting keeps the state.
pub proof fn halting_keeps_the_state(code: Seq<CodeModule>, s: VmState, f: int, i: Instruction)
    requires
        i.opcode is Halt,
    ensures
        core_vm::step(code, s, f, i) matches StepResult::Halt(t) && t == s,
{
}

// ---------------------------------------------------------------------------
// Control
// ---------------------------------------------------------------------------

/// The two's complement number in two operand bytes, high byte first.
pub open spec fn signed_bytes(high: u8, low: u8) -> int {
    if high >= 128 {
        (high - 256) * 256 + low
    } else {
        high * 256 + low
    }
}

/// The state in which the next instruction runs.
pub open spec fn next(code: Seq<CodeModule>, s: VmState, f: int, i: Instruction) -> VmState {
    core_vm::advance(after(code, s, f, i), f)
}

/// Whether two states differ in the program counter of one frame at most.
pub open spec fn only_counter(s: VmState, t: VmState, f: int) -> bool {
    &&& t.frames.len() == s.frames.len()
    &&& forall|g: int| 0 <= g < s.frames.len() && g != f ==> #[trigger] t.frames[g] == s.frames[g]
    &&& t.frames[f].regs == s.frames[f].regs
    &&& t.frames[f].module_idx == s.frames[f].module_idx
    &&& t.frames[f].return_dst == s.frames[f].return_dst
    &&& t.frames[f].caller_idx == s.frames[f].caller_idx
    &&& t.frames[f].closure_env == s.frames[f].closure_env
    &&& t.handlers == s.handlers
    &&& t.envs == s.envs
    &&& t.strings == s.strings
    &&& t.output == s.output
}

/// A jump leads to the instruction at its offset from itself. Of the two
/// conditional jumps on one register exactly one jumps, the one whose condition
/// the register meets; the other goes on with the next instruction.
pub proof fn jumps_go_by_offset(code: Seq<CodeModule>, s: VmState, f: int, x: u8, y: u8, z: u8)
    requires
        running(s, f),
        s.frames[f].pc < usize::MAX,
        0 <= s.frames[f].pc + signed_bytes(y, z) <= usize::MAX,
    ensures
        ({
            let pc = s.frames[f].pc as int;
            let jmp = next(code, s, f, instr(OpCode::Jmp, y, z, x));
            let jmp_t = next(code, s, f, instr(OpCode::JmpT, x, y, z));
            let jmp_f = next(code, s, f, instr(OpCode::JmpF, x, y, z));
            &&& jmp.frames[f].pc == pc + signed_bytes(y, z)
            &&& if core_vm::reg(s, f, x) % 0x1_0000_0000_0000 != 0 {
                jmp_t.frames[f].pc == pc + signed_bytes(y, z) && jmp_f.frames[f].pc == pc + 1
            } else {
                jmp_f.frames[f].pc == pc + signed_bytes(y, z) && jmp_t.frames[f].pc == pc + 1
            }
            &&& only_counter(s, jmp, f) && only_counter(s, jmp_t, f) && only_counter(s, jmp_f, f)
        }),
{
    let pc = s.frames[f].pc;
    let off = signed_bytes(y, z);
    let i = instr(OpCode::JmpT, x, y, z);
    let j = instr(OpCode::Jmp, y, z, x);
    assert(i.offset() == off);
    assert(bytecode::signed16(j.imm()) == off);
    assert(core_vm::jump_pc(pc, off).wrapping_add(1) == pc + off);
}

/// Whether a value calls function `n` of a module with `count` functions, as an
/// integer or as a closure that has captured nothing.
pub open spec fn names_function(v: u64, n: int, count: nat) -> bool {
    &&& 0 <= n < count
    &&& n < 0x4000_0000_0000
    &&& value_layout::tag_of(v) == TAG_INT || value_layout::tag_of(v) == TAG_CLOSURE
    &&& value_layout::payload_of(v) == n
}

/// A call enters the function that the register names, at its place in the
/// code, with the first registers as arguments and unit in the others; nothing
/// of the caller changes. A closure runs under itself, a plain function under
/// none.
pub proof fn calls_enter_the_function(
    code: Seq<CodeModule>,
    s: VmState,
    f: int,
    i: Instruction,
    n: int,
)
    requires
        running(s, f),
        f == s.frames.len() - 1,
        f <= usize::MAX,
        i.opcode is Call || i.opcode is ClosureCall,
        names_function(
            core_vm::reg(s, f, i.op1),
            n,
            code[s.frames[f].module_idx as int].function_table@.len(),
        ),
    ensures
        step_goes_on(code, s, f, i),
        ({
            let t = after(code, s, f, i);
            let v = core_vm::reg(s, f, i.op1);
            let callee = t.frames[f + 1];
            &&& t.frames.len() == s.frames.len() + 1
            &&& forall|g: int| 0 <= g <= f ==> #[trigger] t.frames[g] == s.frames[g]
            &&& callee.pc == code[s.frames[f].module_idx as int].function_table@[n]
            &&& callee.module_idx == s.frames[f].module_idx
            &&& callee.caller_idx == Some(f as usize)
            &&& callee.return_dst == i.op3
            &&& callee.closure_env == (if value_layout::tag_of(v) == TAG_CLOSURE {
                Some(v)
            } else {
                None
            })
            &&& callee.regs.len() == 256
            &&& forall|k: int| 0 <= k < i.op2 ==> #[trigger] callee.regs[k] == s.frames[f].regs[k]
            &&& forall|k: int| i.op2 <= k < 256 ==> #[trigger] callee.regs[k] == TAG_UNIT
            &&& t.handlers == s.handlers && t.envs == s.envs
            &&& t.strings == s.strings && t.output == s.output
        }),
{
    assert(n % 0x1_0000_0000_0000_0000 == n);
    assert(!core_vm::has_env(n));
}

/// Whether an instruction neither stops the machine nor fails.
pub open spec fn step_goes_on(code: Seq<CodeModule>, s: VmState, f: int, i: Instruction) -> bool {
    core_vm::step(code, s, f, i) is Continue
}

/// A value that is no integer and no closure cannot be called, nor can a
/// function that the module does not have.
pub proof fn only_functions_are_called(code: Seq<CodeModule>, s: VmState, f: int, i: Instruction)
    requires
        running(s, f),
        i.opcode is Call || i.opcode is ClosureCall,
        ({
            let v = core_vm::reg(s, f, i.op1);
            let count = code[s.frames[f].module_idx as int].function_table@.len();
            ||| value_layout::tag_of(v) != TAG_INT && value_layout::tag_of(v) != TAG_CLOSURE
            ||| count <= value_layout::payload_of(v) < 0x4000_0000_0000
        }),
    ensures
        core_vm::step(code, s, f, i) is Fail,
{
    let v = core_vm::reg(s, f, i.op1);
    let p = value_layout::payload_of(v);
    if p < 0x4000_0000_0000 {
        assert(!core_vm::has_env(p));
    }
}

/// A return gives the value to the register that the call named and drops the
/// frame; the caller's other registers are as they were. The plain return gives
/// register 0. Without a caller the machine stops with the value in register 0.
pub proof fn returns_reach_the_caller(
    code: Seq<CodeModule>,
    s: VmState,
    f: int,
    x: u8,
    y: u8,
    z: u8,
)
    requires
        running(s, f),
        f == s.frames.len() - 1,
        s.frames[f].caller_idx matches Some(c) ==> c < f && running(s, c as int),
    ensures
        core_vm::step(code, s, f, instr(OpCode::Ret, x, y, z)) == core_vm::step(
            code,
            s,
            f,
            instr(OpCode::RetVal, 0, y, z),
        ),
        match s.frames[f].caller_idx {
            Some(c) => {
                let t = after(code, s, f, instr(OpCode::RetVal, x, y, z));
                let dst = s.frames[f].return_dst;
                &&& step_goes_on(code, s, f, instr(OpCode::RetVal, x, y, z))
                &&& t.frames.len() == f
                &&& core_vm::reg(t, c as int, dst) == core_vm::reg(s, f, x)
                &&& forall|r: u8|
                    r != dst ==> #[trigger] core_vm::reg(t, c as int, r) == core_vm::reg(
                        s,
                        c as int,
                        r,
                    )
                &&& t.frames[c as int].pc == s.frames[c as int].pc
                &&& forall|g: int|
                    0 <= g < f && g != c ==> #[trigger] t.frames[g] == s.frames[g]
                &&& t.strings == s.strings && t.output == s.output && t.envs == s.envs
                &&& t.handlers == s.handlers
            },
            None => core_vm::step(code, s, f, instr(OpCode::RetVal, x, y, z)) matches StepResult::Halt(
                t,
            ) && core_vm::result_of(t) == core_vm::reg(s, f, x) && t.output == s.output,
        },
{
}

// ---------------------------------------------------------------------------
// Closures
// ---------------------------------------------------------------------------

/// Making a closure of a function and calling it enters that function.
pub proof fn closures_name_their_function(
    code: Seq<CodeModule>,
    s: VmState,
    f: int,
    high: u8,
    low: u8,
    d: u8,
)
    requires
        running(s, f),
    ensures
        ({
            let v = leaves(code, s, f, instr(OpCode::Closure, high, low, d), d);
            &&& value_layout::tag_of(v) == TAG_CLOSURE
            &&& forall|n: int, count: nat|
                #[trigger] names_function(v, n, count) <==> n == high * 256 + low && n < count
            &&& only_register(s, after(code, s, f, instr(OpCode::Closure, high, low, d)), f, d)
        }),
{
}

/// Whether a value is a closure whose environment, if it has one, exists.
pub open spec fn sound_closure(s: VmState, v: u64) -> bool {
    &&& value_layout::tag_of(v) == TAG_CLOSURE
    &&& core_vm::has_env(value_layout::payload_of(v)) ==> core_vm::env_index(
        value_layout::payload_of(v),
    ) < s.envs.len()
}

/// A state in which frame `g` runs a closure.
pub open spec fn runs_closure(u: VmState, g: int, envs: Seq<core_vm::EnvState>, c: u64) -> bool {
    running(u, g) && u.envs == envs && u.frames[g].closure_env == Some(c)
}

/// Whether loading a slot while a closure runs gives this value.
pub open spec fn slot_gives(
    code: Seq<CodeModule>,
    envs: Seq<core_vm::EnvState>,
    c: u64,
    slot: u8,
    v: u64,
) -> bool {
    forall|u: VmState, g: int, d: u8, z: u8|
        runs_closure(u, g, envs, c) ==> {
            &&& #[trigger] step_goes_on(code, u, g, instr(OpCode::CapLoad, slot, d, z))
            &&& leaves(code, u, g, instr(OpCode::CapLoad, slot, d, z), d) == v
            &&& only_register(u, after(code, u, g, instr(OpCode::CapLoad, slot, d, z)), g, d)
        }
}

/// Storing a capture gives a closure of the same function that, when it runs,
/// reads the stored value from the slot; the other slots of the closure and the
/// other closures read as before.
#[verifier::spinoff_prover]
#[verifier::rlimit(60)]
pub proof fn captures_are_read_back(
    code: Seq<CodeModule>,
    s: VmState,
    f: int,
    x: u8,
    slot: u8,
    y: u8,
)
    requires
        running(s, f),
        sound_closure(s, core_vm::reg(s, f, x)),
        s.envs.len() < 0x4000_0000_0000,
    ensures
        ({
            let i = instr(OpCode::CapStore, x, slot, y);
            let t = after(code, s, f, i);
            let c = core_vm::reg(s, f, x);
            let d = core_vm::reg(t, f, x);
            &&& step_goes_on(code, s, f, i)
            &&& sound_closure(t, d)
            &&& core_vm::function_of(t, d)->Ok_0.0 == core_vm::function_of(s, c)->Ok_0.0
            &&& slot_gives(code, t.envs, d, slot, core_vm::reg(s, f, y))
            &&& forall|q: u8, v: u64|
                q != slot && #[trigger] slot_gives(code, s.envs, c, q, v) && core_vm::has_env(
                    value_layout::payload_of(c),
                ) ==> slot_gives(code, t.envs, d, q, v)
            &&& forall|e: int|
                0 <= e < s.envs.len() && e != core_vm::env_index(value_layout::payload_of(d))
                    ==> #[trigger] t.envs[e] == s.envs[e]
            &&& forall|r: u8| r != x ==> #[trigger] core_vm::reg(t, f, r) == core_vm::reg(s, f, r)
            &&& t.strings == s.strings && t.output == s.output && t.handlers == s.handlers
            &&& t.frames.len() == s.frames.len()
        }),
{
    let i = instr(OpCode::CapStore, x, slot, y);
    let t = after(code, s, f, i);
    let c = core_vm::reg(s, f, x);
    let d = core_vm::reg(t, f, x);
    let p = value_layout::payload_of(c);
    if !core_vm::has_env(p) {
        let e = s.envs.len() as int;
        assert(value_layout::payload_of(d) == 0x4000_0000_0000 + e);
        assert(core_vm::has_env(0x4000_0000_0000 + e));
        assert(core_vm::env_index(0x4000_0000_0000 + e) == e);
        assert(t.envs[e].func_idx == p);
    }
    let e = core_vm::env_index(value_layout::payload_of(d));
    capture_is_slot(code, t.envs, d, slot, core_vm::reg(s, f, y));
    assert forall|q: u8, v: u64|
        q != slot && #[trigger] slot_gives(code, s.envs, c, q, v) && core_vm::has_env(p) implies slot_gives(
        code,
        t.envs,
        d,
        q,
        v,
    ) by {
        slot_is_capture(code, s, f, c, q, v);
        capture_is_slot(code, t.envs, d, q, v);
    }
}

/// A capture in the environment is what its slot gives.
proof fn capture_is_slot(
    code: Seq<CodeModule>,
    envs: Seq<core_vm::EnvState>,
    c: u64,
    q: u8,
    v: u64,
)
    requires
        core_vm::has_env(value_layout::payload_of(c)),
        core_vm::env_index(value_layout::payload_of(c)) < envs.len(),
        q < envs[core_vm::env_index(value_layout::payload_of(c))].captures.len(),
        envs[core_vm::env_index(value_layout::payload_of(c))].captures[q as int] == v,
    ensures
        slot_gives(code, envs, c, q, v),
{
}

/// What a slot gives is the capture in the environment.
proof fn slot_is_capture(code: Seq<CodeModule>, s: VmState, f: int, c: u64, q: u8, v: u64)
    requires
        running(s, f),
        sound_closure(s, c),
        core_vm::has_env(value_layout::payload_of(c)),
        slot_gives(code, s.envs, c, q, v),
    ensures
        q < s.envs[core_vm::env_index(value_layout::payload_of(c))].captures.len(),
        s.envs[core_vm::env_index(value_layout::payload_of(c))].captures[q as int] == v,
{
    let u = VmState {
        frames: s.frames.update(f, FrameState { closure_env: Some(c), ..s.frames[f] }),
        ..s
    };
    assert(runs_closure(u, f, s.envs, c));
    assert(step_goes_on(code, u, f, instr(OpCode::CapLoad, q, 0, 0)));
}

// ---------------------------------------------------------------------------
// Handlers
// ---------------------------------------------------------------------------

/// Installing a handler puts it on top of the others, for the given table and
/// without a continuation.
pub proof fn handlers_stack_up(code: Seq<CodeModule>, s: VmState, f: int, x: u8, y: u8, z: u8)
    requires
        running(s, f),
    ensures
        ({
            let t = after(code, s, f, instr(OpCode::Handle, x, y, z));
            let h = t.handlers.last();
            &&& step_goes_on(code, s, f, instr(OpCode::Handle, x, y, z))
            &&& t.handlers.len() == s.handlers.len() + 1
            &&& forall|k: int|
                0 <= k < s.handlers.len() ==> #[trigger] t.handlers[k] == s.handlers[k]
            &&& h.handler_table_idx == x && h.resume_dst == y
            &&& h.module_idx == s.frames[f].module_idx && h.resume_pc == s.frames[f].pc
            &&& h.saved_regs is None && h.saved_pc is None
            &&& t.frames == s.frames && t.envs == s.envs
            &&& t.strings == s.strings && t.output == s.output
        }),
{
}

proof fn last_captured(h: Seq<core_vm::HandlerState>, n: int, k: int)
    requires
        0 <= k < n <= h.len(),
        h[k].saved_regs is Some,
        forall|j: int| k < j < n ==> (#[trigger] h[j]).saved_regs is None,
    ensures
        core_vm::captured_handler(h, n) == k,
    decreases n,
{
    if k < n - 1 {
        last_captured(h, n - 1, k);
    }
}

proof fn none_captured(h: Seq<core_vm::HandlerState>, n: int)
    requires
        0 <= n <= h.len(),
        forall|j: int| 0 <= j < n ==> (#[trigger] h[j]).saved_regs is None,
    ensures
        core_vm::captured_handler(h, n) == -1,
    decreases n,
{
    if n > 0 {
        none_captured(h, n - 1);
    }
}

/// Resuming takes the continuation of the topmost handler that has one: its
/// registers come back with the value in the register it waits for, and it is
/// used up. Without a continuation there is nothing to resume.
pub proof fn resuming_takes_the_topmost(
    code: Seq<CodeModule>,
    s: VmState,
    f: int,
    x: u8,
    y: u8,
    z: u8,
    k: int,
)
    requires
        running(s, f),
        -1 <= k < s.handlers.len(),
        k >= 0 ==> (s.handlers[k].saved_regs matches Some(r) && r.len() == 256),
        forall|j: int| k < j < s.handlers.len() ==> (#[trigger] s.handlers[j]).saved_regs is None,
    ensures
        k < 0 ==> core_vm::step(code, s, f, instr(OpCode::Resume, x, y, z)) is Fail,
        k >= 0 ==> {
            let t = after(code, s, f, instr(OpCode::Resume, x, y, z));
            let h = s.handlers[k];
            &&& step_goes_on(code, s, f, instr(OpCode::Resume, x, y, z))
            &&& core_vm::reg(t, f, h.resume_dst) == core_vm::reg(s, f, x)
            &&& forall|r: u8|
                r != h.resume_dst ==> #[trigger] core_vm::reg(t, f, r) == h.saved_regs->0[r as int]
            &&& h.saved_pc matches Some(pc) ==> t.frames[f].pc == pc
            &&& t.handlers.len() == s.handlers.len()
            &&& t.handlers[k].saved_regs is None
            &&& forall|j: int|
                0 <= j < s.handlers.len() && j != k ==> #[trigger] t.handlers[j] == s.handlers[j]
            &&& t.frames.len() == s.frames.len()
            &&& forall|g: int|
                0 <= g < s.frames.len() && g != f ==> #[trigger] t.frames[g] == s.frames[g]
            &&& t.envs == s.envs && t.strings == s.strings && t.output == s.output
        },
{
    if k < 0 {
        none_captured(s.handlers, s.handlers.len() as int);
    } else {
        last_captured(s.handlers, s.handlers.len() as int, k);
    }
}

// ---------------------------------------------------------------------------
// Strings, constants and effects
// ---------------------------------------------------------------------------

/// Whether a value stands for a text.
pub open spec fn stands_for(s: VmState, v: u64, t: Seq<char>) -> bool {
    &&& value_layout::tag_of(v) == TAG_STRING
    &&& value_layout::payload_of(v) < s.strings.len()
    &&& s.strings[value_layout::payload_of(v)] == t
}

/// Whether a register of the later state stands for a text while every value
/// still stands for the text it stood for, and nothing but that register
/// changed.
pub open spec fn gains_text(s: VmState, t: VmState, f: int, r: u8, text: Seq<char>) -> bool {
    &&& stands_for(t, core_vm::reg(t, f, r), text)
    &&& forall|v: u64, old_text: Seq<char>|
        stands_for(s, v, old_text) ==> #[trigger] stands_for(t, v, old_text)
    &&& only_register(s, t, f, r)
}

/// Whether there is room for one more string.
pub open spec fn string_room(s: VmState) -> bool {
    s.strings.len() < 0x1_0000_0000_0000
}

proof fn interned_text_is_found(s: VmState, f: int, r: u8, t: Seq<char>)
    requires
        running(s, f),
        string_room(s),
    ensures
        gains_text(s, core_vm::put_string(s, f, r, t), f, r, t),
{
    core_vm::interning_resolves(s.strings, t);
    let i = core_vm::pool_index(s.strings, t, 0);
    pool_index_is_natural(s.strings, t, 0);
    assert(value_layout::tag_of(value_layout::string_value(i)) == TAG_STRING);
    assert(value_layout::payload_of(value_layout::string_value(i)) == i);
}

proof fn pool_index_is_natural(strings: Seq<Seq<char>>, t: Seq<char>, from: int)
    requires
        0 <= from,
    ensures
        0 <= core_vm::pool_index(strings, t, from) <= strings.len(),
    decreases strings.len() - from,
{
    if from < strings.len() && strings[from] != t {
        pool_index_is_natural(strings, t, from + 1);
    }
}

/// Concatenation gives the first text followed by the second; a value that is
/// no string counts as the empty text.
pub proof fn concatenation_joins(
    code: Seq<CodeModule>,
    s: VmState,
    f: int,
    x: u8,
    y: u8,
    d: u8,
    a: Seq<char>,
    b: Seq<char>,
)
    requires
        running(s, f),
        string_room(s),
        stands_for(s, core_vm::reg(s, f, x), a) || a.len() == 0 && value_layout::tag_of(
            core_vm::reg(s, f, x),
        ) != TAG_STRING,
        stands_for(s, core_vm::reg(s, f, y), b) || b.len() == 0 && value_layout::tag_of(
            core_vm::reg(s, f, y),
        ) != TAG_STRING,
    ensures
        step_goes_on(code, s, f, instr(OpCode::SConcat, x, y, d)),
        gains_text(s, after(code, s, f, instr(OpCode::SConcat, x, y, d)), f, d, a + b),
{
    assert(core_vm::text_at(s, core_vm::reg(s, f, x)) =~= a);
    assert(core_vm::text_at(s, core_vm::reg(s, f, y)) =~= b);
    interned_text_is_found(s, f, d, a + b);
}

/// Loading a constant gives its value: the integer, the truth value, the text,
/// unit, and nil for everything else.
pub proof fn constants_load(
    code: Seq<CodeModule>,
    s: VmState,
    f: int,
    high: u8,
    low: u8,
    d: u8,
)
    requires
        running(s, f),
        string_room(s),
    ensures
        ({
            let pool = code[s.frames[f].module_idx as int].constants@;
            let n = high * 256 + low;
            let t = after(code, s, f, instr(OpCode::ConstU, high, low, d));
            let v = core_vm::reg(t, f, d);
            &&& step_goes_on(code, s, f, instr(OpCode::ConstU, high, low, d))
            &&& only_register(s, t, f, d)
            &&& n >= pool.len() ==> v == TAG_NIL
            &&& n < pool.len() ==> match pool[n] {
                Constant::String(text) => gains_text(s, t, f, d, text@),
                Constant::Int(k) => is_int(v) && same_word(value_layout::int_of(v), k as int),
                Constant::Bool(b) => is_true(v) == b && is_false(v) == !b,
                Constant::Unit => v == TAG_UNIT,
                _ => v == TAG_NIL,
            }
        }),
{
    let pool = code[s.frames[f].module_idx as int].constants@;
    let n = high * 256 + low;
    if n < pool.len() {
        match pool[n] {
            Constant::String(text) => {
                interned_text_is_found(s, f, d, text@);
            },
            Constant::Int(k) => {
                word_of(k as int);
            },
            _ => {},
        }
    }
}

/// Whether an instruction performs the named effect: by a string constant, or
/// by a binding of a handler table.
pub open spec fn performs(
    code: Seq<CodeModule>,
    s: VmState,
    f: int,
    i: Instruction,
    name: Seq<char>,
) -> bool {
    let m = code[s.frames[f].module_idx as int];
    let n = i.op1 * 256 + i.op2;
    ||| {
        &&& i.opcode is Perform
        &&& n < m.constants@.len()
        &&& m.constants@[n] matches Constant::String(t)
        &&& t@ == name
    }
    ||| {
        &&& i.opcode is PerformDirect
        &&& i.op1 < m.handler_tables@.len()
        &&& i.op2 < m.handler_tables@[i.op1 as int].bindings@.len()
        &&& m.handler_tables@[i.op1 as int].bindings@[i.op2 as int].effect_name@ == name
    }
}

/// Printing appends one line: the text of a string, the digits that the
/// conversion to a string gives for an integer, the name of a truth value or of
/// nil. Nothing that was printed before changes.
pub proof fn printing_appends_a_line(
    code: Seq<CodeModule>,
    s: VmState,
    f: int,
    i: Instruction,
    j: Instruction,
)
    requires
        running(s, f),
        string_room(s),
        performs(code, s, f, i, "IO.print"@),
        performs(code, s, f, j, "Int.to_string"@),
    ensures
        step_goes_on(code, s, f, i),
        ({
            let t = after(code, s, f, i);
            let v = core_vm::reg(s, f, 0);
            &&& t.output.len() == s.output.len() + 1
            &&& t.output.take(s.output.len() as int) == s.output
            &&& is_int(v) ==> gains_text(s, after(code, s, f, j), f, j.op3, t.output.last())
            &&& forall|text: Seq<char>| #[trigger]
                stands_for(s, v, text) ==> t.output.last() == text
            &&& is_true(v) ==> t.output.last() == "true"@
            &&& is_false(v) ==> t.output.last() == "false"@
            &&& v == TAG_NIL ==> t.output.last() == "nil"@
            &&& core_vm::reg(t, f, i.op3) == TAG_UNIT
            &&& only_register(s, VmState { output: s.output, ..t }, f, i.op3)
        }),
{
    effect_names_differ();
    let v = core_vm::reg(s, f, 0);
    assert(core_vm::effect_name(code, s, f, i) == Ok::<Seq<char>, Seq<char>>("IO.print"@));
    assert(core_vm::effect_name(code, s, f, j) == Ok::<Seq<char>, Seq<char>>("Int.to_string"@));
    interned_text_is_found(s, f, j.op3, text::dec_int(value_layout::int_of(v)));
    let t = after(code, s, f, i);
    assert(t.output.take(s.output.len() as int) =~= s.output);
}

proof fn effect_names_differ()
    ensures
        "IO.print"@ != "IO.read"@,
        "IO.print"@ != "String.charAt"@,
        "IO.print"@ != "String.length"@,
        "IO.print"@ != "Int.to_string"@,
        "IO.print"@ != "String.from_char"@,
        "IO.read"@ != "String.charAt"@,
        "IO.read"@ != "String.length"@,
        "IO.read"@ != "Int.to_string"@,
        "IO.read"@ != "String.from_char"@,
        "String.charAt"@ != "String.length"@,
        "String.charAt"@ != "Int.to_string"@,
        "String.charAt"@ != "String.from_char"@,
        "String.length"@ != "Int.to_string"@,
        "String.length"@ != "String.from_char"@,
        "Int.to_string"@ != "String.from_char"@,
{
    reveal_strlit("IO.print");
    reveal_strlit("IO.read");
    reveal_strlit("String.charAt");
    reveal_strlit("String.length");
    reveal_strlit("Int.to_string");
    reveal_strlit("String.from_char");
    assert("IO.print"@.len() == 8);
    assert("IO.read"@.len() == 7);
    assert("String.charAt"@[7] != "String.length"@[7]);
    assert("Int.to_string"@[0] != "String.length"@[0]);
    assert("Int.to_string"@[0] != "String.charAt"@[0]);
    assert("String.from_char"@.len() == 16);
}

/// Reading asks for a line into the register that the instruction names.
pub proof fn reading_asks_for_a_line(code: Seq<CodeModule>, s: VmState, f: int, i: Instruction)
    requires
        running(s, f),
        performs(code, s, f, i, "IO.read"@),
    ensures
        core_vm::step(code, s, f, i) == StepResult::ReadLine(i.op3),
{
    effect_names_differ();
    assert(core_vm::effect_name(code, s, f, i) == Ok::<Seq<char>, Seq<char>>("IO.read"@));
}

/// The character at a position of a text is its code point, and the text made
/// of that code point is the character; outside the text the code point is
/// zero. The length counts the bytes of the text in UTF-8.
pub proof fn characters_round_trip(
    code: Seq<CodeModule>,
    s: VmState,
    f: int,
    i: Instruction,
    t: VmState,
    j: Instruction,
    l: Instruction,
    a: Seq<char>,
)
    requires
        running(s, f),
        running(t, f),
        string_room(t),
        stands_for(s, core_vm::reg(s, f, 0), a),
        encode_utf8(a).len() < 0x8000_0000_0000,
        performs(code, s, f, i, "String.charAt"@),
        performs(code, s, f, l, "String.length"@),
        performs(code, t, f, j, "String.from_char"@),
        core_vm::reg(t, f, 0) == leaves(code, s, f, i, i.op3),
    ensures
        step_goes_on(code, s, f, i) && step_goes_on(code, s, f, l) && step_goes_on(code, t, f, j),
        only_register(s, after(code, s, f, i), f, i.op3),
        only_register(s, after(code, s, f, l), f, l.op3),
        ({
            let n = value_layout::int_of(core_vm::reg(s, f, 1));
            &&& is_int(leaves(code, s, f, i, i.op3))
            &&& 0 <= n < a.len() ==> gains_text(
                t,
                after(code, t, f, j),
                f,
                j.op3,
                seq![a[n]],
            )
            &&& n < 0 || n >= a.len() ==> value_layout::int_of(leaves(code, s, f, i, i.op3)) == 0
        }),
        is_int(leaves(code, s, f, l, l.op3)),
        value_layout::int_of(leaves(code, s, f, l, l.op3)) == encode_utf8(a).len(),
{
    effect_names_differ();
    assert(core_vm::effect_name(code, s, f, i) == Ok::<Seq<char>, Seq<char>>("String.charAt"@));
    assert(core_vm::effect_name(code, s, f, l) == Ok::<Seq<char>, Seq<char>>("String.length"@));
    assert(core_vm::effect_name(code, t, f, j) == Ok::<Seq<char>, Seq<char>>("String.from_char"@));
    let n = value_layout::int_of(core_vm::reg(s, f, 1));
    value_layout::int_value_round_trip(encode_utf8(a).len() as int);
    if 0 <= n < a.len() {
        let u = a[n] as int;
        code_points_name_characters(a[n]);
        value_layout::int_value_round_trip(u);
        assert(core_vm::char_text(u) =~= seq![a[n]]);
        interned_text_is_found(t, f, j.op3, seq![a[n]]);
    }
}

proof fn code_points_name_characters(c: char)
    ensures
        0 <= c as int <= 0x10ffff,
        core_vm::is_char_code(c as int),
        c as int as char == c,
{
}

/// Performing anything else than the built-in effects fails, as does naming an
/// effect that the module does not have.
pub proof fn unknown_effects_fail(
    code: Seq<CodeModule>,
    s: VmState,
    f: int,
    i: Instruction,
)
    requires
        running(s, f),
        i.opcode is Perform || i.opcode is PerformDirect,
        forall|name: Seq<char>| #[trigger]
            performs(code, s, f, i, name) ==> name != "IO.print"@ && name != "IO.read"@ && name
                != "String.charAt"@ && name != "String.length"@ && name != "Int.to_string"@ && name
                != "String.from_char"@,
    ensures
        core_vm::step(code, s, f, i) is Fail,
{
    if let Ok(name) = core_vm::effect_name(code, s, f, i) {
        assert(performs(code, s, f, i, name));
    }
}

// ---------------------------------------------------------------------------
// Runs
// ---------------------------------------------------------------------------

/// A line that is read comes without its ending: without a line feed, and
/// without a carriage return before it.
pub proof fn lines_come_without_their_ending(line: Seq<char>)
    requires
        line.len() == 0 || line.last() != '\n' && line.last() != '\r',
    ensures
        core_vm::chomped(line) == line,
        core_vm::chomped(line.push('\n')) == line,
        core_vm::chomped(line.push('\r')) == line,
        core_vm::chomped(line.push('\r').push('\n')) == line,
        core_vm::chomped(line.push('\n').push('\n')) == line.push('\n'),
{
    assert(line.push('\n').drop_last() =~= line);
    assert(line.push('\r').drop_last() =~= line);
    assert(line.push('\r').push('\n').drop_last() =~= line.push('\r'));
    assert(line.push('\n').push('\n').drop_last() =~= line.push('\n'));
}

/// A run starts in a frame of its own at its entry, with unit in all registers;
/// what was there before stays below.
pub proof fn runs_start_in_a_fresh_frame(s: VmState, module_idx: usize, entry_pc: usize)
    ensures
        ({
            let t = core_vm::started(s, module_idx, entry_pc);
            let top = t.frames.last();
            &&& t.frames.len() == s.frames.len() + 1
            &&& t.frames.take(s.frames.len() as int) == s.frames
            &&& top.pc == entry_pc && top.module_idx == module_idx
            &&& top.caller_idx is None && top.closure_env is None
            &&& top.regs.len() == 256
            &&& forall|r: int| 0 <= r < 256 ==> #[trigger] top.regs[r] == TAG_UNIT
            &&& t.handlers == s.handlers && t.envs == s.envs
            &&& t.strings == s.strings && t.output == s.output
        }),
{
    let t = core_vm::started(s, module_idx, entry_pc);
    assert(t.frames.take(s.frames.len() as int) =~= s.frames);
}

/// The next instruction is the one at the counter of the top frame; behind the
/// last one the machine halts.
pub proof fn instructions_are_fetched_in_place(code: Seq<CodeModule>, s: VmState)
    requires
        s.frames.len() > 0,
    ensures
        ({
            let top = s.frames[s.frames.len() - 1];
            let instrs = code[top.module_idx as int].instructions@;
            &&& top.pc < instrs.len() ==> core_vm::fetch(code, s) == instrs[top.pc as int]
            &&& top.pc >= instrs.len() ==> core_vm::run_for(code, s, 1)
                == core_vm::RunResult::Done(s)
        }),
{
    reveal_with_fuel(core_vm::run_for, 2);
}

/// The classes of the cost model tell what an instruction can do to a run: only
/// branches and resumption move the counter, only calls open a frame, only
/// effects write output.
#[verifier::spinoff_prover]
#[verifier::rlimit(90)]
pub proof fn classes_tell_what_instructions_do(
    code: Seq<CodeModule>,
    s: VmState,
    f: int,
    i: Instruction,
)
    requires
        running(s, f),
        f == s.frames.len() - 1,
        s.frames[f].caller_idx matches Some(c) ==> c < f,
        step_goes_on(code, s, f, i),
    ensures
        ({
            let t = after(code, s, f, i);
            &&& t.frames.len() > s.frames.len() ==> cost_model::in_class(
                i.opcode,
                cost_model::CostClass::Calling,
            )
            &&& t.frames.len() == s.frames.len() && t.frames[f].pc != s.frames[f].pc
                ==> cost_model::in_class(i.opcode, cost_model::CostClass::Branching)
                || i.opcode is Resume
            &&& t.output != s.output || t.handlers != s.handlers ==> cost_model::in_class(
                i.opcode,
                cost_model::CostClass::Effectful,
            )
        }),
{
}

/// A program that ends with an integer exits with it; any other end keeps the
/// exit code.
pub proof fn integer_results_are_exit_codes(
    before: core_vm::CoreVM,
    n: int,
    v: u64,
    e: String,
)
    requires
        -0x8000_0000_0000 <= n < 0x8000_0000_0000,
    ensures
        core_vm::exit_code_after(
            before,
            Ok(core_vm::RunOutcome::Done(value_layout::int_value(n))),
        ) == n,
        value_layout::tag_of(v) != TAG_INT ==> core_vm::exit_code_after(
            before,
            Ok(core_vm::RunOutcome::Done(v)),
        ) == before.exit_code,
        core_vm::exit_code_after(before, Err(e)) == before.exit_code,
{
}

} // verus!
