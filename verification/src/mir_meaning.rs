//! The meaning of the middle representation: what values, statements and block
//! ends ask for in a store, and what a store holds afterwards. The laws say what
//! the continuation analysis is for: the values it lists are the values that
//! decide what happens.

use vstd::prelude::*;

use crate::ast::{BinOp, UnOp};
use crate::continuation_analysis::{self, ContinuationKind, ContinuationSite, SchedulerSuspendKind};
use crate::mir::{Block, BlockId, FuncRef, Function, LocalId, RValue, Stmt, Terminator};

verus! {

/// The values of the operands of a computation, in the shape of the computation.
#[verifier::ext_equal]
pub enum Meaning {
    /// Nothing of the store matters.
    Fixed(RValue),
    Load(int),
    FieldNamed(int, Seq<char>),
    FieldPos(int, usize),
    ArrayLoad { arr: int, idx: int },
    ArrayLen(int),
    ArrayLit(Seq<int>),
    Tuple(Seq<int>),
    Unary(UnOp, int),
    Binary(BinOp, int, int),
    StringEq(int, int),
    StrConcat(int, int),
    CallFunction(usize, Seq<int>),
    CallClosure(int, Seq<int>),
    Closure(usize, Seq<int>),
    Record(Seq<Seq<char>>, Seq<int>),
    RecordUpdate(int, Seq<Seq<char>>, Seq<int>),
    Perform(Seq<char>, Seq<char>, Seq<int>),
    PerformAsync(Seq<char>, Seq<int>),
    ForeignCall(Seq<char>, Seq<int>),
    ReceiveWait { timeout: int },
    Migrate { actor: int, node: int },
    CapabilityCheck(int),
    Resume(int),
    Spawn { actor: Seq<char>, node: Option<int>, init: Seq<Meaning> },
    Send { actor: int, behavior: Seq<char>, args: Seq<int> },
    Ask { actor: int, behavior: Seq<char>, args: Seq<int> },
}

/// The values of locals.
pub open spec fn values(v: Seq<LocalId>, st: spec_fn(LocalId) -> int) -> Seq<int> {
    Seq::new(v.len(), |i: int| st(v[i]))
}

/// The names of named values.
pub open spec fn names(v: Seq<(String, LocalId)>) -> Seq<Seq<char>> {
    Seq::new(v.len(), |i: int| v[i].0@)
}

/// The values of named values.
pub open spec fn named_values(v: Seq<(String, LocalId)>, st: spec_fn(LocalId) -> int) -> Seq<int> {
    Seq::new(v.len(), |i: int| st(v[i].1))
}

/// What a computation asks for in a store.
pub open spec fn meaning(op: RValue, st: spec_fn(LocalId) -> int) -> Meaning
    decreases op, 0nat,
{
    match op {
        RValue::Load(l) => Meaning::Load(st(l)),
        RValue::LoadFieldNamed { obj, field } => Meaning::FieldNamed(st(obj), field@),
        RValue::LoadFieldPos { obj, pos } => Meaning::FieldPos(st(obj), pos),
        RValue::ArrayLoad { arr, idx } => Meaning::ArrayLoad { arr: st(arr), idx: st(idx) },
        RValue::ArrayLen(arr) => Meaning::ArrayLen(st(arr)),
        RValue::ArrayLit(items) => Meaning::ArrayLit(values(items@, st)),
        RValue::Tuple(items) => Meaning::Tuple(values(items@, st)),
        RValue::Unary(un, l) => Meaning::Unary(un, st(l)),
        RValue::Binary(bin, a, b) => Meaning::Binary(bin, st(a), st(b)),
        RValue::StringEq(a, b) => Meaning::StringEq(st(a), st(b)),
        RValue::StrConcat(a, b) => Meaning::StrConcat(st(a), st(b)),
        RValue::Call { func, args } => match func {
            FuncRef::Index(n) => Meaning::CallFunction(n, values(args@, st)),
            FuncRef::Local(l) => Meaning::CallClosure(st(l), values(args@, st)),
        },
        RValue::Closure { func, captures } => Meaning::Closure(func, values(captures@, st)),
        RValue::Record(fields) => Meaning::Record(names(fields@), named_values(fields@, st)),
        RValue::RecordUpdate { base, overrides } => Meaning::RecordUpdate(
            st(base),
            names(overrides@),
            named_values(overrides@, st),
        ),
        RValue::Perform { effect, op, args, .. } => Meaning::Perform(
            effect@,
            op@,
            values(args@, st),
        ),
        RValue::PerformAsync { effect_op, args } => Meaning::PerformAsync(
            effect_op@,
            values(args@, st),
        ),
        RValue::FFICall { name, args } => Meaning::ForeignCall(name@, values(args@, st)),
        RValue::ReceiveWait { timeout, .. } => Meaning::ReceiveWait { timeout: st(timeout) },
        RValue::Migrate { actor, node } => Meaning::Migrate { actor: st(actor), node: st(node) },
        RValue::CapabilityCheck { val } => Meaning::CapabilityCheck(st(val)),
        RValue::Resume(val) => Meaning::Resume(st(val)),
        RValue::Spawn { actor, init, target_node } => Meaning::Spawn {
            actor: actor@,
            node: match target_node {
                Some(l) => Some(st(l)),
                None => None,
            },
            init: init_meaning(init@, init@.len(), st),
        },
        RValue::Send { actor, behavior, args } => Meaning::Send {
            actor: st(actor),
            behavior: behavior@,
            args: values(args@, st),
        },
        RValue::Ask { actor, behavior, args } => Meaning::Ask {
            actor: st(actor),
            behavior: behavior@,
            args: values(args@, st),
        },
        _ => Meaning::Fixed(op),
    }
}

/// What the first `n` initial values ask for.
pub open spec fn init_meaning(
    init: Seq<(String, RValue)>,
    n: nat,
    st: spec_fn(LocalId) -> int,
) -> Seq<Meaning>
    decreases init, n,
{
    if n == 0 || n > init.len() {
        Seq::empty()
    } else {
        init_meaning(init, (n - 1) as nat, st).push(meaning(init[n - 1].1, st))
    }
}

/// Whether two stores hold the same in the listed locals.
pub open spec fn agree(
    s: spec_fn(LocalId) -> int,
    t: spec_fn(LocalId) -> int,
    v: Seq<LocalId>,
) -> bool {
    forall|x: LocalId| #[trigger] v.contains(x) ==> s(x) == t(x)
}

/// Whether two stores differ in a local and in nothing else.
pub open spec fn differ_in(
    s: spec_fn(LocalId) -> int,
    t: spec_fn(LocalId) -> int,
    x: LocalId,
) -> bool {
    s(x) != t(x) && forall|y: LocalId| y != x ==> #[trigger] s(y) == t(y)
}

/// Whether a local decides what a computation asks for.
pub open spec fn matters(op: RValue, x: LocalId) -> bool {
    exists|s: spec_fn(LocalId) -> int, t: spec_fn(LocalId) -> int|
        differ_in(s, t, x) && #[trigger] meaning(op, s) != #[trigger] meaning(op, t)
}

proof fn values_agree(v: Seq<LocalId>, s: spec_fn(LocalId) -> int, t: spec_fn(LocalId) -> int)
    requires
        agree(s, t, v),
    ensures
        values(v, s) == values(v, t),
{
    assert forall|i: int| 0 <= i < v.len() implies s(v[i]) == t(v[i]) by {
        assert(v.contains(v[i]));
    }
    assert(values(v, s) =~= values(v, t));
}

proof fn named_values_agree(
    v: Seq<(String, LocalId)>,
    s: spec_fn(LocalId) -> int,
    t: spec_fn(LocalId) -> int,
)
    requires
        agree(s, t, continuation_analysis::named_locals(v)),
    ensures
        named_values(v, s) == named_values(v, t),
{
    let w = continuation_analysis::named_locals(v);
    assert forall|i: int| 0 <= i < v.len() implies s(v[i].1) == t(v[i].1) by {
        assert(w[i] == v[i].1);
        assert(w.contains(v[i].1));
    }
    assert(named_values(v, s) =~= named_values(v, t));
}

proof fn agree_on_part(
    s: spec_fn(LocalId) -> int,
    t: spec_fn(LocalId) -> int,
    a: Seq<LocalId>,
    b: Seq<LocalId>,
)
    requires
        agree(s, t, a + b),
    ensures
        agree(s, t, a),
        agree(s, t, b),
{
    assert forall|x: LocalId| #[trigger] a.contains(x) implies s(x) == t(x) by {
        let i = choose|i: int| 0 <= i < a.len() && a[i] == x;
        assert((a + b)[i] == x);
        assert((a + b).contains(x));
    }
    assert forall|x: LocalId| #[trigger] b.contains(x) implies s(x) == t(x) by {
        let i = choose|i: int| 0 <= i < b.len() && b[i] == x;
        assert((a + b)[a.len() + i] == x);
        assert((a + b).contains(x));
    }
}

/// A computation asks for the same in stores that hold the same in what it
/// reads: nothing that decides it is missing from its reads.
#[verifier::rlimit(60)]
pub proof fn reads_decide_the_meaning(
    op: RValue,
    s: spec_fn(LocalId) -> int,
    t: spec_fn(LocalId) -> int,
)
    requires
        agree(s, t, continuation_analysis::reads(op)),
    ensures
        meaning(op, s) == meaning(op, t),
    decreases op, 0nat,
{
    let r = continuation_analysis::reads(op);
    if r.len() > 0 {
        assert(r.contains(r[0]));
    }
    if r.len() > 1 {
        assert(r.contains(r[1]));
    }
    match op {
        RValue::ArrayLit(v) => values_agree(v@, s, t),
        RValue::Tuple(v) => values_agree(v@, s, t),
        RValue::Call { func, args } => match func {
            FuncRef::Index(_) => values_agree(args@, s, t),
            FuncRef::Local(l) => {
                agree_on_part(s, t, seq![l], args@);
                values_agree(args@, s, t);
            },
        },
        RValue::Closure { captures, .. } => values_agree(captures@, s, t),
        RValue::Record(fields) => named_values_agree(fields@, s, t),
        RValue::RecordUpdate { base, overrides } => {
            agree_on_part(
                s,
                t,
                seq![base],
                continuation_analysis::named_locals(overrides@),
            );
            named_values_agree(overrides@, s, t);
        },
        RValue::Perform { args, .. } => values_agree(args@, s, t),
        RValue::PerformAsync { args, .. } => values_agree(args@, s, t),
        RValue::FFICall { args, .. } => values_agree(args@, s, t),
        RValue::Spawn { init, target_node, .. } => {
            let rest = continuation_analysis::init_reads(init@, init@.len());
            match target_node {
                Some(n) => agree_on_part(s, t, seq![n], rest),
                None => {},
            }
            init_reads_decide(init@, init@.len(), s, t);
        },
        RValue::Send { actor, args, .. } => {
            agree_on_part(s, t, seq![actor], args@);
            values_agree(args@, s, t);
        },
        RValue::Ask { actor, args, .. } => {
            agree_on_part(s, t, seq![actor], args@);
            values_agree(args@, s, t);
        },
        _ => {},
    }
}

proof fn init_reads_decide(
    init: Seq<(String, RValue)>,
    n: nat,
    s: spec_fn(LocalId) -> int,
    t: spec_fn(LocalId) -> int,
)
    requires
        agree(s, t, continuation_analysis::init_reads(init, n)),
    ensures
        init_meaning(init, n, s) == init_meaning(init, n, t),
    decreases init, n,
{
    if n > 0 && n <= init.len() {
        let p = (n - 1) as nat;
        agree_on_part(
            s,
            t,
            continuation_analysis::init_reads(init, p),
            continuation_analysis::reads(init[n - 1].1),
        );
        init_reads_decide(init, p, s, t);
        reads_decide_the_meaning(init[n - 1].1, s, t);
    }
}

/// Operand values from left to right.
pub open spec fn operands(m: Meaning) -> Seq<int>
    decreases m, 0nat,
{
    match m {
        Meaning::Fixed(_) => Seq::empty(),
        Meaning::Load(a) => seq![a],
        Meaning::FieldNamed(a, _) => seq![a],
        Meaning::FieldPos(a, _) => seq![a],
        Meaning::ArrayLoad { arr, idx } => seq![arr, idx],
        Meaning::ArrayLen(a) => seq![a],
        Meaning::ArrayLit(v) => v,
        Meaning::Tuple(v) => v,
        Meaning::Unary(_, a) => seq![a],
        Meaning::Binary(_, a, b) => seq![a, b],
        Meaning::StringEq(a, b) => seq![a, b],
        Meaning::StrConcat(a, b) => seq![a, b],
        Meaning::CallFunction(_, v) => v,
        Meaning::CallClosure(a, v) => seq![a] + v,
        Meaning::Closure(_, v) => v,
        Meaning::Record(_, v) => v,
        Meaning::RecordUpdate(a, _, v) => seq![a] + v,
        Meaning::Perform(_, _, v) => v,
        Meaning::PerformAsync(_, v) => v,
        Meaning::ForeignCall(_, v) => v,
        Meaning::ReceiveWait { timeout } => seq![timeout],
        Meaning::Migrate { actor, node } => seq![actor, node],
        Meaning::CapabilityCheck(a) => seq![a],
        Meaning::Resume(a) => seq![a],
        Meaning::Spawn { node, init, .. } => match node {
            Some(n) => seq![n] + all_operands(init, init.len()),
            None => all_operands(init, init.len()),
        },
        Meaning::Send { actor, args, .. } => seq![actor] + args,
        Meaning::Ask { actor, args, .. } => seq![actor] + args,
    }
}

/// The operand values of the first `n` computations.
pub open spec fn all_operands(ms: Seq<Meaning>, n: nat) -> Seq<int>
    decreases ms, n,
{
    if n == 0 || n > ms.len() {
        Seq::empty()
    } else {
        all_operands(ms, (n - 1) as nat) + operands(ms[n - 1])
    }
}

proof fn values_join(a: Seq<LocalId>, b: Seq<LocalId>, st: spec_fn(LocalId) -> int)
    ensures
        values(a + b, st) == values(a, st) + values(b, st),
{
    assert(values(a + b, st) =~= values(a, st) + values(b, st));
}

/// The reads of a computation are its operands, from left to right: their values
/// are the operand values.
#[verifier::rlimit(60)]
pub proof fn reads_are_the_operands(op: RValue, st: spec_fn(LocalId) -> int)
    ensures
        operands(meaning(op, st)) == values(continuation_analysis::reads(op), st),
    decreases op, 0nat,
{
    let r = continuation_analysis::reads(op);
    let m = operands(meaning(op, st));
    match op {
        RValue::Call { func: FuncRef::Local(l), args } => {
            values_join(seq![l], args@, st);
            assert(values(seq![l], st) =~= seq![st(l)]);
        },
        RValue::RecordUpdate { base, overrides } => {
            let w = continuation_analysis::named_locals(overrides@);
            values_join(seq![base], w, st);
            assert(values(seq![base], st) =~= seq![st(base)]);
            assert(values(w, st) =~= named_values(overrides@, st));
        },
        RValue::Send { actor, args, .. } => {
            values_join(seq![actor], args@, st);
            assert(values(seq![actor], st) =~= seq![st(actor)]);
        },
        RValue::Ask { actor, args, .. } => {
            values_join(seq![actor], args@, st);
            assert(values(seq![actor], st) =~= seq![st(actor)]);
        },
        RValue::Spawn { init, target_node, .. } => {
            let n = init@.len();
            init_operands(init@, n, st);
            init_meaning_len(init@, n, st);
            match target_node {
                Some(l) => {
                    values_join(seq![l], continuation_analysis::init_reads(init@, n), st);
                    assert(values(seq![l], st) =~= seq![st(l)]);
                },
                None => {},
            }
        },
        _ => {
            assert(m =~= values(r, st));
        },
    }
}

proof fn init_meaning_len(init: Seq<(String, RValue)>, n: nat, st: spec_fn(LocalId) -> int)
    requires
        n <= init.len(),
    ensures
        init_meaning(init, n, st).len() == n,
    decreases n,
{
    if n > 0 {
        init_meaning_len(init, (n - 1) as nat, st);
    }
}

proof fn prefix_operands(ms: Seq<Meaning>, m: Meaning, n: nat)
    requires
        n <= ms.len(),
    ensures
        all_operands(ms.push(m), n) == all_operands(ms, n),
    decreases n,
{
    if n > 0 {
        prefix_operands(ms, m, (n - 1) as nat);
        assert(ms.push(m)[n - 1] == ms[n - 1]);
    }
}

proof fn init_operands(init: Seq<(String, RValue)>, n: nat, st: spec_fn(LocalId) -> int)
    requires
        n <= init.len(),
    ensures
        all_operands(init_meaning(init, n, st), n) == values(
            continuation_analysis::init_reads(init, n),
            st,
        ),
    decreases init, n,
{
    if n > 0 {
        let p = (n - 1) as nat;
        let before = init_meaning(init, p, st);
        let m = meaning(init[n - 1].1, st);
        init_meaning_len(init, p, st);
        init_operands(init, p, st);
        reads_are_the_operands(init[n - 1].1, st);
        prefix_operands(before, m, p);
        assert(before.push(m)[p as int] == m);
        values_join(
            continuation_analysis::init_reads(init, p),
            continuation_analysis::reads(init[n - 1].1),
            st,
        );
    } else {
        assert(values(continuation_analysis::init_reads(init, n), st) =~= all_operands(
            init_meaning(init, n, st),
            n,
        ));
    }
}

/// Exactly the locals that decide what a computation asks for are among its
/// reads.
pub proof fn reads_are_what_matters(op: RValue, x: LocalId)
    ensures
        continuation_analysis::reads(op).contains(x) <==> matters(op, x),
{
    let r = continuation_analysis::reads(op);
    let s = |y: LocalId| 0int;
    let t = |y: LocalId| if y == x { 1int } else { 0int };
    if r.contains(x) {
        assert(differ_in(s, t, x));
        reads_are_the_operands(op, s);
        reads_are_the_operands(op, t);
        let i = choose|i: int| 0 <= i < r.len() && r[i] == x;
        assert(values(r, s)[i] != values(r, t)[i]);
        assert(meaning(op, s) != meaning(op, t));
    }
    if matters(op, x) {
        let (s, t) = choose|s: spec_fn(LocalId) -> int, t: spec_fn(LocalId) -> int|
            differ_in(s, t, x) && #[trigger] meaning(op, s) != #[trigger] meaning(op, t);
        if !r.contains(x) {
            assert(agree(s, t, r));
            reads_decide_the_meaning(op, s, t);
        }
    }
}

// ---------------------------------------------------------------------------
// Statements and block ends
// ---------------------------------------------------------------------------

/// What a statement asks for in a store.
#[verifier::ext_equal]
pub enum Act {
    Compute(Meaning),
    StoreField { obj: int, field: Seq<char>, src: int },
    StoreElement { arr: int, idx: int, src: int },
    Emit(Seq<char>, Seq<int>),
    SetState(Seq<char>, int),
    Fixed(Stmt),
}

pub open spec fn act(stmt: Stmt, st: spec_fn(LocalId) -> int) -> Act {
    match stmt {
        Stmt::Assign { op, .. } => Act::Compute(meaning(op, st)),
        Stmt::StoreFieldNamed { obj, field, src } => Act::StoreField {
            obj: st(obj),
            field: field@,
            src: st(src),
        },
        Stmt::ArrayStore { arr, idx, src } => Act::StoreElement {
            arr: st(arr),
            idx: st(idx),
            src: st(src),
        },
        Stmt::Emit { event, args } => Act::Emit(event@, values(args@, st)),
        Stmt::StateSet { field, src } => Act::SetState(field@, st(src)),
        _ => Act::Fixed(stmt),
    }
}

/// How many values a computation gives besides its result: the parameters of a
/// received message.
pub open spec fn extra_results(op: RValue) -> int {
    match op {
        RValue::ReceiveMatch { max_params, .. } => max_params as int,
        RValue::ReceiveWait { max_params, .. } => max_params as int,
        _ => 0,
    }
}

/// The store after a statement whose computation gave `results`: the result is
/// in the destination, what else it gave in the locals behind.
pub open spec fn after_stmt(
    stmt: Stmt,
    st: spec_fn(LocalId) -> int,
    results: spec_fn(int) -> int,
) -> spec_fn(LocalId) -> int {
    match stmt {
        Stmt::Assign { dst, op } => |x: LocalId|
            if dst.0 <= x.0 <= dst.0 + extra_results(op) {
                results(x.0 - dst.0)
            } else {
                st(x)
            },
        _ => st,
    }
}

/// Whether a local decides what a statement asks for.
pub open spec fn stmt_matters(stmt: Stmt, x: LocalId) -> bool {
    exists|s: spec_fn(LocalId) -> int, t: spec_fn(LocalId) -> int|
        differ_in(s, t, x) && #[trigger] act(stmt, s) != #[trigger] act(stmt, t)
}

/// Whether a statement can change a local.
pub open spec fn changes(stmt: Stmt, x: LocalId) -> bool {
    exists|s: spec_fn(LocalId) -> int, results: spec_fn(int) -> int|
        (#[trigger] after_stmt(stmt, s, results))(x) != s(x)
}

/// What happens where a block ends.
#[verifier::ext_equal]
pub enum Exit {
    Return(Option<int>),
    Goto(BlockId),
    Resume(int),
    Stuck,
}

/// Where a block leads: a branch goes to its first target exactly where the
/// condition holds.
pub open spec fn exit(term: Terminator, st: spec_fn(LocalId) -> int, holds: spec_fn(int) -> bool) -> Exit {
    match term {
        Terminator::Return(Some(l)) => Exit::Return(Some(st(l))),
        Terminator::Return(None) => Exit::Return(None),
        Terminator::Jump(t) => Exit::Goto(t),
        Terminator::Branch { cond, then_, else_ } => if holds(st(cond)) {
            Exit::Goto(then_)
        } else {
            Exit::Goto(else_)
        },
        Terminator::Resume(l) => Exit::Resume(st(l)),
        Terminator::Unterminated => Exit::Stuck,
    }
}

/// Exactly the locals that decide what a statement asks for are its reads, and
/// exactly those that it can change are its writes.
pub proof fn statements_read_what_matters(stmt: Stmt, x: LocalId)
    requires
        continuation_analysis::stmt_numberable(stmt),
    ensures
        continuation_analysis::stmt_reads(stmt).contains(x) <==> stmt_matters(stmt, x),
        continuation_analysis::stmt_writes(stmt).contains(x) <==> changes(stmt, x),
{
    let r = continuation_analysis::stmt_reads(stmt);
    let s = |y: LocalId| 0int;
    let t = |y: LocalId| if y == x { 1int } else { 0int };
    assert(differ_in(s, t, x));
    match stmt {
        Stmt::Assign { dst, op } => {
            reads_are_what_matters(op, x);
            if r.contains(x) {
                let (s, t) = choose|s: spec_fn(LocalId) -> int, t: spec_fn(LocalId) -> int|
                    differ_in(s, t, x) && #[trigger] meaning(op, s) != #[trigger] meaning(op, t);
                assert(act(stmt, s) != act(stmt, t));
            }
            if stmt_matters(stmt, x) {
                let (s, t) = choose|s: spec_fn(LocalId) -> int, t: spec_fn(LocalId) -> int|
                    differ_in(s, t, x) && #[trigger] act(stmt, s) != #[trigger] act(stmt, t);
                assert(meaning(op, s) != meaning(op, t));
            }
            let w = continuation_analysis::writes(dst, op);
            let results = |i: int| 1int;
            if dst.0 <= x.0 <= dst.0 + extra_results(op) {
                assert(w[x.0 - dst.0] == x);
                assert(after_stmt(stmt, s, results)(x) != s(x));
            }
            if w.contains(x) {
                let i = choose|i: int| 0 <= i < w.len() && w[i] == x;
                assert(x.0 == dst.0 + i);
            }
        },
        _ => {
            if r.contains(x) {
                let i = choose|i: int| 0 <= i < r.len() && r[i] == x;
                if let Stmt::Emit { args, .. } = stmt {
                    assert(values(args@, s)[i] != values(args@, t)[i]);
                }
                assert(act(stmt, s) != act(stmt, t));
            }
            if stmt_matters(stmt, x) {
                let (s, t) = choose|s: spec_fn(LocalId) -> int, t: spec_fn(LocalId) -> int|
                    differ_in(s, t, x) && #[trigger] act(stmt, s) != #[trigger] act(stmt, t);
                if !r.contains(x) {
                    stmt_reads_decide(stmt, s, t);
                }
            }
        },
    }
}

proof fn stmt_reads_decide(stmt: Stmt, s: spec_fn(LocalId) -> int, t: spec_fn(LocalId) -> int)
    requires
        agree(s, t, continuation_analysis::stmt_reads(stmt)),
    ensures
        act(stmt, s) == act(stmt, t),
{
    let r = continuation_analysis::stmt_reads(stmt);
    match stmt {
        Stmt::Assign { op, .. } => reads_decide_the_meaning(op, s, t),
        Stmt::Emit { args, .. } => values_agree(args@, s, t),
        _ => {
            assert forall|i: int| 0 <= i < r.len() implies s(#[trigger] r[i]) == t(r[i]) by {
                assert(r.contains(r[i]));
            }
            if let Stmt::StoreFieldNamed { obj, src, .. } = stmt {
                assert(r[0] == obj && r[1] == src);
            }
            if let Stmt::ArrayStore { arr, idx, src } = stmt {
                assert(r[0] == arr && r[1] == idx && r[2] == src);
            }
            if let Stmt::StateSet { src, .. } = stmt {
                assert(r[0] == src);
            }
        },
    }
}

/// Whether a block may lead to another, in some store.
pub open spec fn may_lead(term: Terminator, id: BlockId) -> bool {
    exists|st: spec_fn(LocalId) -> int, holds: spec_fn(int) -> bool|
        #[trigger] exit(term, st, holds) == Exit::Goto(id)
}

/// A block end reads exactly the local that decides where it leads or what it
/// gives, and its targets are exactly the blocks that it may lead to.
pub proof fn ends_read_what_matters(
    term: Terminator,
    s: spec_fn(LocalId) -> int,
    t: spec_fn(LocalId) -> int,
    holds: spec_fn(int) -> bool,
    id: BlockId,
)
    ensures
        agree(s, t, continuation_analysis::end_reads(term)) ==> exit(term, s, holds) == exit(
            term,
            t,
            holds,
        ),
        continuation_analysis::targets(term).contains(id) <==> may_lead(term, id),
{
    let r = continuation_analysis::end_reads(term);
    if r.len() > 0 {
        assert(r.contains(r[0]));
    }
    let ts = continuation_analysis::targets(term);
    let zero = |y: LocalId| 0int;
    match term {
        Terminator::Jump(t) => {
            assert(ts[0] == t);
            assert(exit(term, zero, holds) == Exit::Goto(t));
        },
        Terminator::Branch { then_, else_, .. } => {
            assert(ts[0] == then_ && ts[1] == else_);
            assert(exit(term, zero, |v: int| true) == Exit::Goto(then_));
            assert(exit(term, zero, |v: int| false) == Exit::Goto(else_));
        },
        _ => {},
    }
}

/// Changing the local that an end reads changes what it gives or, under some
/// reading of conditions, where it leads.
pub proof fn end_reads_matter(
    term: Terminator,
    s: spec_fn(LocalId) -> int,
    t: spec_fn(LocalId) -> int,
    x: LocalId,
)
    requires
        differ_in(s, t, x),
        continuation_analysis::end_reads(term).contains(x),
        term matches Terminator::Branch { then_, else_, .. } ==> then_ != else_,
    ensures
        exists|holds: spec_fn(int) -> bool| #[trigger]
            exit(term, s, holds) != exit(term, t, holds),
{
    let holds = |v: int| v == s(x);
    assert(exit(term, s, holds) != exit(term, t, holds));
}

// ---------------------------------------------------------------------------
// Liveness
// ---------------------------------------------------------------------------

/// Whether two stores hold the same in what is live before statement `from` of a
/// block, or at its end.
pub open spec fn agree_from(
    func: Function,
    b: int,
    from: int,
    s: spec_fn(LocalId) -> int,
    t: spec_fn(LocalId) -> int,
) -> bool {
    forall|x: LocalId| #[trigger]
        continuation_analysis::live_tail(func, b, from, x) ==> s(x) == t(x)
}

proof fn tail_is_upward(func: Function, b: int, from: int, x: LocalId)
    requires
        0 <= b < func.blocks@.len(),
        0 <= from <= func.blocks@[b].stmts@.len(),
        continuation_analysis::block_of(func, func.blocks@[b].id) == Some(b),
    ensures
        continuation_analysis::live_tail(func, b, from, x) <==> (continuation_analysis::upward(
            func.blocks@[b],
            from,
            x,
        ) || (!continuation_analysis::defined_from(func.blocks@[b], from, x)
            && continuation_analysis::live_out(func, b, x))),
    decreases func.blocks@[b].stmts@.len() - from,
{
    if from < func.blocks@[b].stmts@.len() {
        tail_is_upward(func, b, from + 1, x);
    }
}

proof fn owner_has_number(func: Function, id: BlockId, n: nat)
    requires
        n <= func.blocks@.len(),
        continuation_analysis::owner(func, id, n) is Some,
    ensures
        0 <= continuation_analysis::owner(func, id, n)->0 < n,
        func.blocks@[continuation_analysis::owner(func, id, n)->0].id == id,
    decreases n,
{
    if n > 0 && func.blocks@[n - 1].id != id {
        owner_has_number(func, id, (n - 1) as nat);
    }
}

/// The live values are enough for a statement: stores that agree in them ask for
/// the same and agree afterwards in what is live then.
pub proof fn live_values_decide_a_statement(
    func: Function,
    b: int,
    from: int,
    s: spec_fn(LocalId) -> int,
    t: spec_fn(LocalId) -> int,
    results: spec_fn(int) -> int,
)
    requires
        continuation_analysis::numberable(func),
        0 <= b < func.blocks@.len(),
        0 <= from < func.blocks@[b].stmts@.len(),
        agree_from(func, b, from, s, t),
    ensures
        act(func.blocks@[b].stmts@[from], s) == act(func.blocks@[b].stmts@[from], t),
        agree_from(
            func,
            b,
            from + 1,
            after_stmt(func.blocks@[b].stmts@[from], s, results),
            after_stmt(func.blocks@[b].stmts@[from], t, results),
        ),
{
    let stmt = func.blocks@[b].stmts@[from];
    assert(agree(s, t, continuation_analysis::stmt_reads(stmt))) by {
        assert forall|x: LocalId| #[trigger]
            continuation_analysis::stmt_reads(stmt).contains(x) implies s(x) == t(x) by {
            assert(continuation_analysis::live_tail(func, b, from, x));
        }
    }
    stmt_reads_decide(stmt, s, t);
    let u = after_stmt(stmt, s, results);
    let v = after_stmt(stmt, t, results);
    assert forall|x: LocalId| #[trigger]
        continuation_analysis::live_tail(func, b, from + 1, x) implies u(x) == v(x) by {
        if continuation_analysis::stmt_writes(stmt).contains(x) {
            if let Stmt::Assign { dst, op } = stmt {
                let w = continuation_analysis::writes(dst, op);
                let i = choose|i: int| 0 <= i < w.len() && w[i] == x;
                assert(continuation_analysis::stmt_numberable(stmt));
                assert(x.0 == dst.0 + i);
            }
        } else {
            assert(continuation_analysis::live_tail(func, b, from, x));
        }
    }
}

/// The live values are enough for the end of a block: stores that agree in them
/// lead to the same block and agree there, or give the same.
pub proof fn live_values_decide_the_end(
    func: Function,
    b: int,
    s: spec_fn(LocalId) -> int,
    t: spec_fn(LocalId) -> int,
    holds: spec_fn(int) -> bool,
)
    requires
        0 <= b < func.blocks@.len(),
        continuation_analysis::block_of(func, func.blocks@[b].id) == Some(b),
        agree_from(func, b, func.blocks@[b].stmts@.len() as int, s, t),
    ensures
        exit(func.blocks@[b].terminator, s, holds) == exit(func.blocks@[b].terminator, t, holds),
        exit(func.blocks@[b].terminator, s, holds) matches Exit::Goto(id) ==> (
        continuation_analysis::block_of(func, id) matches Some(c) ==> agree_from(func, c, 0, s, t)),
{
    let term = func.blocks@[b].terminator;
    let n = func.blocks@[b].stmts@.len() as int;
    assert(agree(s, t, continuation_analysis::end_reads(term))) by {
        assert forall|x: LocalId| #[trigger]
            continuation_analysis::end_reads(term).contains(x) implies s(x) == t(x) by {
            assert(continuation_analysis::live_tail(func, b, n, x));
        }
    }
    if let Exit::Goto(id) = exit(term, s, holds) {
        ends_read_what_matters(term, s, t, holds, id);
        assert(may_lead(term, id));
        if let Some(c) = continuation_analysis::block_of(func, id) {
            owner_has_number(func, id, func.blocks@.len());
            let ts = continuation_analysis::targets(term);
            let k = choose|k: int| 0 <= k < ts.len() && ts[k] == id;
            assert forall|x: LocalId| #[trigger]
                continuation_analysis::live_tail(func, c, 0, x) implies s(x) == t(x) by {
                tail_is_upward(func, c, 0, x);
                continuation_analysis::live_equations_hold(func, c, x);
                assert(continuation_analysis::live_at(func, ts[k], x));
                assert(continuation_analysis::live_out(func, b, x));
                assert(continuation_analysis::live_tail(func, b, n, x));
            }
        }
    } else {
        ends_read_what_matters(term, s, t, holds, func.entry);
    }
}

/// What a run of a function shows.
#[verifier::ext_equal]
pub enum Shown {
    Did(Act),
    Left(Exit),
}

/// What the next `fuel` steps of a function show from statement `from` of block
/// `b` on. The `k`-th step gets its results from outside.
pub open spec fn shown(
    func: Function,
    b: int,
    from: int,
    st: spec_fn(LocalId) -> int,
    holds: spec_fn(int) -> bool,
    results: spec_fn(nat) -> spec_fn(int) -> int,
    fuel: nat,
) -> Seq<Shown>
    decreases fuel,
{
    if fuel == 0 || b < 0 || b >= func.blocks@.len() || from < 0 {
        Seq::empty()
    } else if from < func.blocks@[b].stmts@.len() {
        let stmt = func.blocks@[b].stmts@[from];
        seq![Shown::Did(act(stmt, st))] + shown(
            func,
            b,
            from + 1,
            after_stmt(stmt, st, results(fuel)),
            holds,
            results,
            (fuel - 1) as nat,
        )
    } else {
        let e = exit(func.blocks@[b].terminator, st, holds);
        match e {
            Exit::Goto(id) => match continuation_analysis::block_of(func, id) {
                Some(c) => seq![Shown::Left(e)] + shown(
                    func,
                    c,
                    0,
                    st,
                    holds,
                    results,
                    (fuel - 1) as nat,
                ),
                None => seq![Shown::Left(e)],
            },
            _ => seq![Shown::Left(e)],
        }
    }
}

/// The live values are enough for the rest of the function: from stores that
/// agree in them, runs show the same for ever.
pub proof fn live_values_decide_the_run(
    func: Function,
    b: int,
    from: int,
    s: spec_fn(LocalId) -> int,
    t: spec_fn(LocalId) -> int,
    holds: spec_fn(int) -> bool,
    results: spec_fn(nat) -> spec_fn(int) -> int,
    fuel: nat,
)
    requires
        continuation_analysis::numberable(func),
        0 <= b < func.blocks@.len(),
        continuation_analysis::block_of(func, func.blocks@[b].id) == Some(b),
        0 <= from <= func.blocks@[b].stmts@.len(),
        agree_from(func, b, from, s, t),
    ensures
        shown(func, b, from, s, holds, results, fuel) == shown(
            func,
            b,
            from,
            t,
            holds,
            results,
            fuel,
        ),
    decreases fuel,
{
    if fuel > 0 {
        if from < func.blocks@[b].stmts@.len() {
            let stmt = func.blocks@[b].stmts@[from];
            live_values_decide_a_statement(func, b, from, s, t, results(fuel));
            live_values_decide_the_run(
                func,
                b,
                from + 1,
                after_stmt(stmt, s, results(fuel)),
                after_stmt(stmt, t, results(fuel)),
                holds,
                results,
                (fuel - 1) as nat,
            );
        } else {
            live_values_decide_the_end(func, b, s, t, holds);
            if let Exit::Goto(id) = exit(func.blocks@[b].terminator, s, holds) {
                if let Some(c) = continuation_analysis::block_of(func, id) {
                    owner_has_number(func, id, func.blocks@.len());
                    live_values_decide_the_run(
                        func,
                        c,
                        0,
                        s,
                        t,
                        holds,
                        results,
                        (fuel - 1) as nat,
                    );
                }
            }
        }
    }
}

/// A site keeps enough: where stores agree in the kept values, and the operation
/// gives both the same, the resumed runs show the same for ever.
pub proof fn kept_values_decide_the_resumed_run(
    func: Function,
    b: int,
    j: int,
    site: ContinuationSite,
    s: spec_fn(LocalId) -> int,
    t: spec_fn(LocalId) -> int,
    given: spec_fn(int) -> int,
    holds: spec_fn(int) -> bool,
    results: spec_fn(nat) -> spec_fn(int) -> int,
    fuel: nat,
)
    requires
        continuation_analysis::numberable(func),
        0 <= b < func.blocks@.len(),
        0 <= j < func.blocks@[b].stmts@.len(),
        continuation_analysis::block_of(func, func.blocks@[b].id) == Some(b),
        continuation_analysis::is_site(func, b, j, site),
        agree(s, t, site.live_across@),
    ensures
        ({
            let stmt = func.blocks@[b].stmts@[j];
            shown(func, b, j + 1, after_stmt(stmt, s, given), holds, results, fuel) == shown(
                func,
                b,
                j + 1,
                after_stmt(stmt, t, given),
                holds,
                results,
                fuel,
            )
        }),
{
    let stmt = func.blocks@[b].stmts@[j];
    let u = after_stmt(stmt, s, given);
    let v = after_stmt(stmt, t, given);
    owner_holds_stmt(func, func.blocks@[b].id, j, b, func.blocks@.len());
    assert(continuation_analysis::stmt_numberable(stmt));
    assert forall|x: LocalId| #[trigger]
        continuation_analysis::live_tail(func, b, j + 1, x) implies u(x) == v(x) by {
        if let Stmt::Assign { dst, op } = stmt {
            let w = continuation_analysis::writes(dst, op);
            if w.contains(x) {
                let i = choose|i: int| 0 <= i < w.len() && w[i] == x;
                assert(x.0 == dst.0 + i);
            } else {
                assert(site.live_across@.contains(x));
            }
        }
    }
    live_values_decide_the_run(func, b, j + 1, u, v, holds, results, fuel);
}

proof fn owner_holds_stmt(func: Function, id: BlockId, j: int, b: int, n: nat)
    requires
        n <= func.blocks@.len(),
        continuation_analysis::owner(func, id, n) == Some(b),
        0 <= b < n,
        j < func.blocks@[b].stmts@.len(),
    ensures
        continuation_analysis::owner_of_stmt(func, id, j, n) == Some(b),
    decreases n,
{
    if func.blocks@[n - 1].id != id {
        owner_has_number(func, id, (n - 1) as nat);
        owner_holds_stmt(func, id, j, b, (n - 1) as nat);
    }
}

/// A site keeps what is read later: where a statement behind the site depends on
/// a local and nothing from the site to there can change it, the site keeps it.
pub proof fn later_operands_are_kept(
    func: Function,
    b: int,
    j: int,
    site: ContinuationSite,
    k: int,
    x: LocalId,
)
    requires
        continuation_analysis::numberable(func),
        0 <= b < func.blocks@.len(),
        0 <= j < k < func.blocks@[b].stmts@.len(),
        continuation_analysis::block_of(func, func.blocks@[b].id) == Some(b),
        continuation_analysis::is_site(func, b, j, site),
        stmt_matters(func.blocks@[b].stmts@[k], x),
        forall|m: int| j <= m < k ==> !changes(#[trigger] func.blocks@[b].stmts@[m], x),
    ensures
        site.live_across@.contains(x),
{
    owner_holds_stmt(func, func.blocks@[b].id, j, b, func.blocks@.len());
    read_later_is_live(func, b, j + 1, k, x);
    assert(!changes(func.blocks@[b].stmts@[j], x));
    assert(continuation_analysis::stmt_numberable(func.blocks@[b].stmts@[j]));
    statements_read_what_matters(func.blocks@[b].stmts@[j], x);
}

proof fn read_later_is_live(func: Function, b: int, from: int, k: int, x: LocalId)
    requires
        continuation_analysis::numberable(func),
        0 <= b < func.blocks@.len(),
        0 <= from <= k < func.blocks@[b].stmts@.len(),
        stmt_matters(func.blocks@[b].stmts@[k], x),
        forall|m: int| from <= m < k ==> !changes(#[trigger] func.blocks@[b].stmts@[m], x),
    ensures
        continuation_analysis::live_tail(func, b, from, x),
    decreases k - from,
{
    assert(continuation_analysis::stmt_numberable(func.blocks@[b].stmts@[from]));
    statements_read_what_matters(func.blocks@[b].stmts@[from], x);
    if from < k {
        read_later_is_live(func, b, from + 1, k, x);
    }
}

/// Both operands of a binary operation decide it, so a site before it keeps
/// both.
pub proof fn both_operands_matter(bin: BinOp, a: LocalId, c: LocalId, dst: LocalId)
    ensures
        stmt_matters(Stmt::Assign { dst, op: RValue::Binary(bin, a, c) }, a),
        stmt_matters(Stmt::Assign { dst, op: RValue::Binary(bin, a, c) }, c),
{
    let stmt = Stmt::Assign { dst, op: RValue::Binary(bin, a, c) };
    let zero = |y: LocalId| 0int;
    let one_a = |y: LocalId| if y == a { 1int } else { 0int };
    let one_c = |y: LocalId| if y == c { 1int } else { 0int };
    assert(differ_in(zero, one_a, a) && act(stmt, zero) != act(stmt, one_a));
    assert(differ_in(zero, one_c, c) && act(stmt, zero) != act(stmt, one_c));
}

// ---------------------------------------------------------------------------
// Sites
// ---------------------------------------------------------------------------

/// Whether a value asks a language model.
pub open spec fn asks_model(op: RValue) -> bool {
    op matches RValue::Perform { effect, op: o, args, .. } && effect@ == "LLM"@ && o@ == "ask"@
        && args@.len() >= 1
}

/// The kind of a suspension tells what suspended: an asynchronous effect, a
/// signal, a receive with a timeout or a question to a language model; nothing
/// else gives control to the scheduler.
pub proof fn kinds_tell_the_operation(op: RValue)
    ensures
        continuation_analysis::scheduled(op) == Some(SchedulerSuspendKind::AsyncEffect)
            <==> op is PerformAsync,
        continuation_analysis::scheduled(op) == Some(SchedulerSuspendKind::SignalWait)
            <==> op is SignalWait,
        continuation_analysis::scheduled(op) == Some(SchedulerSuspendKind::ReceiveWait)
            <==> op is ReceiveWait,
        continuation_analysis::scheduled(op) == Some(SchedulerSuspendKind::LlmAsk) <==> asks_model(
            op,
        ),
{
}

/// Where a known handler takes the operation, it alone decides: a continuation
/// is kept exactly where it resumes, for its body and with its promise to resume
/// once. Everywhere else it is kept exactly where control goes to the scheduler.
pub proof fn known_handlers_decide(func: Function, op: RValue)
    ensures
        match op {
            RValue::Perform { resolved_handler: Some(h), .. } if h.table_index
                < func.handler_tables@.len() && h.binding_index
                < func.handler_tables@[h.table_index as int].bindings@.len() => {
                let binding =
                    func.handler_tables@[h.table_index as int].bindings@[h.binding_index as int];
                match continuation_analysis::kept(func, op) {
                    Some(ContinuationKind::ResumingEffect { handler_body, single_shot }) => {
                        binding.resume && handler_body == binding.body && single_shot
                            == binding.single_shot
                    },
                    Some(ContinuationKind::Scheduler(_)) => false,
                    None => !binding.resume,
                }
            },
            _ => match continuation_analysis::kept(func, op) {
                Some(ContinuationKind::Scheduler(k)) => continuation_analysis::scheduled(op)
                    == Some(k),
                Some(ContinuationKind::ResumingEffect { .. }) => false,
                None => continuation_analysis::scheduled(op) is None,
            },
        },
{
}

/// Whether one place comes before another.
pub open spec fn before(p: (int, int), q: (int, int)) -> bool {
    p.0 < q.0 || p.0 == q.0 && p.1 < q.1
}

/// Whether a place holds a statement at which a continuation is kept.
pub open spec fn keeps(func: Function, b: int, j: int) -> bool {
    &&& 0 <= b < func.blocks@.len()
    &&& 0 <= j < func.blocks@[b].stmts@.len()
    &&& func.blocks@[b].stmts@[j] matches Stmt::Assign { op, .. } && continuation_analysis::kept(
        func,
        op,
    ) is Some
}

proof fn block_places_cover(func: Function, b: int, n: nat)
    requires
        0 <= b < func.blocks@.len(),
        n <= func.blocks@[b].stmts@.len(),
    ensures
        ({
            let ps = continuation_analysis::block_places(func, b, n);
            &&& forall|i: int|
                0 <= i < ps.len() ==> (#[trigger] ps[i]).0 == b && ps[i].1 < n && keeps(
                    func,
                    b,
                    ps[i].1,
                )
            &&& forall|i: int, k: int| 0 <= i < k < ps.len() ==> before(#[trigger] ps[i], #[trigger] ps[k])
            &&& forall|j: int| 0 <= j < n && #[trigger] keeps(func, b, j) ==> ps.contains((b, j))
        }),
    decreases n,
{
    if n > 0 {
        let p = (n - 1) as nat;
        block_places_cover(func, b, p);
        let old_ps = continuation_analysis::block_places(func, b, p);
        let ps = continuation_analysis::block_places(func, b, n);
        assert forall|j: int| 0 <= j < n && #[trigger] keeps(func, b, j) implies ps.contains((b, j)) by {
            if j < p {
                let i = choose|i: int| 0 <= i < old_ps.len() && old_ps[i] == (b, j);
                assert(ps[i] == (b, j));
            } else {
                assert(ps.last() == (b, j));
            }
        }
    }
}

proof fn places_cover(func: Function, n: nat)
    requires
        n <= func.blocks@.len(),
    ensures
        ({
            let ps = continuation_analysis::places(func, n);
            &&& forall|i: int|
                0 <= i < ps.len() ==> (#[trigger] ps[i]).0 < n && keeps(func, ps[i].0, ps[i].1)
            &&& forall|i: int, k: int| 0 <= i < k < ps.len() ==> before(#[trigger] ps[i], #[trigger] ps[k])
            &&& forall|b: int, j: int| b < n && #[trigger] keeps(func, b, j) ==> ps.contains((b, j))
        }),
    decreases n,
{
    if n > 0 {
        let p = (n - 1) as nat;
        places_cover(func, p);
        let len = func.blocks@[n - 1].stmts@.len();
        block_places_cover(func, n - 1, len);
        let first = continuation_analysis::places(func, p);
        let second = continuation_analysis::block_places(func, n - 1, len);
        let ps = continuation_analysis::places(func, n);
        assert forall|i: int, k: int| 0 <= i < k < ps.len() implies before(#[trigger] ps[i], #[trigger] ps[k]) by {
            if i < first.len() && k >= first.len() {
                assert(ps[i] == first[i]);
                assert(ps[k] == second[k - first.len()]);
            } else if i >= first.len() {
                assert(ps[i] == second[i - first.len()]);
                assert(ps[k] == second[k - first.len()]);
            }
        }
        assert forall|b: int, j: int| b < n && #[trigger] keeps(func, b, j) implies ps.contains((b, j)) by {
            if b < p {
                let i = choose|i: int| 0 <= i < first.len() && first[i] == (b, j);
                assert(ps[i] == (b, j));
            } else {
                let i = choose|i: int| 0 <= i < second.len() && second[i] == (b, j);
                assert(ps[first.len() + i] == (b, j));
            }
        }
    }
}

/// Whether sites stand for increasing places at which a continuation is kept.
pub open spec fn in_code_order(
    func: Function,
    ps: Seq<(int, int)>,
    sites: Seq<ContinuationSite>,
) -> bool {
    &&& ps.len() == sites.len()
    &&& forall|i: int|
        0 <= i < ps.len() ==> keeps(func, (#[trigger] ps[i]).0, ps[i].1)
            && continuation_analysis::is_site(func, ps[i].0, ps[i].1, sites[i])
    &&& forall|i: int, k: int| 0 <= i < k < ps.len() ==> before(#[trigger] ps[i], #[trigger] ps[k])
}

/// The sites of a function are its places at which a continuation is kept, each
/// once and in the order of the code.
pub proof fn sites_cover_the_function(func: Function, sites: Seq<ContinuationSite>)
    requires
        continuation_analysis::sites_at(
            func,
            continuation_analysis::places(func, func.blocks@.len()),
            sites,
        ),
    ensures
        exists|ps: Seq<(int, int)>| #[trigger] in_code_order(func, ps, sites),
        forall|b: int, j: int| #[trigger]
            keeps(func, b, j) ==> exists|i: int|
                0 <= i < sites.len() && continuation_analysis::is_site(
                    func,
                    b,
                    j,
                    #[trigger] sites[i],
                ),
{
    let n = func.blocks@.len();
    let ps = continuation_analysis::places(func, n);
    places_cover(func, n);
    assert(in_code_order(func, ps, sites));
    assert forall|b: int, j: int| #[trigger] keeps(func, b, j) implies exists|i: int|
        0 <= i < sites.len() && continuation_analysis::is_site(func, b, j, #[trigger] sites[i]) by {
        let i = choose|i: int| 0 <= i < ps.len() && ps[i] == (b, j);
        assert(continuation_analysis::is_site(func, ps[i].0, ps[i].1, sites[i]));
    }
}

} // verus!
