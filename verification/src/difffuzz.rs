//! Programs from a typed grammar, for comparing the ways to run them, and the
//! tally of a campaign over many seeds.
//!
//! A program is a function of its seed alone, so a divergence is reproduced from
//! the seed. Divisors are never zero, indexes stay inside their arrays, loops
//! and recursion are bounded.

use vstd::prelude::*;

use crate::text::{self, cat2, cat3, cat4, cat5, dec_of, dec_of_signed, join, push_dec, push_hex, text, text_contains};

verus! {

// ---------------------------------------------------------------------------
// Random numbers
// ---------------------------------------------------------------------------

/// The state that follows `s`.
pub open spec fn advanced(s: u64) -> u64 {
    let a = s ^ (s << 13u64);
    let b = a ^ (a >> 7u64);
    b ^ (b << 17u64)
}

/// The number in `lo..hi` that the step from state `s` gives.
pub open spec fn drawn(s: u64, lo: nat, hi: nat) -> nat {
    lo + advanced(s) as nat % (hi - lo) as nat
}

/// Whether the step from state `s` comes out with a chance of `pct` percent.
pub open spec fn lucky(s: u64, pct: nat) -> bool {
    drawn(s, 0, 100) < pct
}

/// A generator of numbers by shifts and exclusive or.
#[derive(Debug, Clone, Copy, PartialEq, Eq, Structural)]
pub struct XorShift64 {
    pub state: u64,
}

impl XorShift64 {
    /// The next number, which is also the next state.
    pub fn next(&mut self) -> (r: u64)
        ensures
            r == advanced(old(self).state),
            final(self).state == r,
    {
        let s: u64 = self.state;
        let a: u64 = s ^ (s << 13u64);
        let b: u64 = a ^ (a >> 7u64);
        self.state = b ^ (b << 17u64);
        self.state
    }

    /// A number in `lo..hi`.
    pub fn range(&mut self, lo: usize, hi: usize) -> (r: usize)
        requires
            lo < hi,
        ensures
            r as nat == drawn(old(self).state, lo as nat, hi as nat),
            lo <= r < hi,
            final(self).state == advanced(old(self).state),
    {
        let n: u64 = self.next();
        let span: u64 = (hi - lo) as u64;
        let step: u64 = n % span;
        lo + step as usize
    }

    /// Whether something with a chance of `pct` percent happens.
    pub fn chance(&mut self, pct: usize) -> (r: bool)
        ensures
            r == lucky(old(self).state, pct as nat),
            final(self).state == advanced(old(self).state),
    {
        self.range(0, 100) < pct
    }
}

// ---------------------------------------------------------------------------
// Scopes
// ---------------------------------------------------------------------------

/// The type of a generated expression.
#[derive(Debug, Clone, Copy, PartialEq, Eq, Structural)]
pub enum Ty {
    Int,
    Float,
    Bool,
    Str,
}

/// A generated function. A recursive one counts down from its first argument.
#[derive(Debug, PartialEq, Eq)]
pub struct FnSig {
    pub name: String,
    pub params: Vec<Ty>,
    pub ret: Ty,
    pub recursive: bool,
}

/// The content of a [`FnSig`].
#[verifier::ext_equal]
pub struct SigView {
    pub name: Seq<char>,
    pub params: Seq<Ty>,
    pub ret: Ty,
    pub recursive: bool,
}

impl View for FnSig {
    type V = SigView;

    open spec fn view(&self) -> SigView {
        SigView {
            name: self.name@,
            params: self.params@,
            ret: self.ret,
            recursive: self.recursive,
        }
    }
}

/// The names that an expression can use: variables by type, integer arrays with
/// their lengths, and functions.
#[derive(Debug, PartialEq, Eq)]
pub struct Scope {
    pub ints: Vec<String>,
    pub floats: Vec<String>,
    pub bools: Vec<String>,
    pub strs: Vec<String>,
    pub int_arrays: Vec<(String, usize)>,
    pub fns: Vec<FnSig>,
}

/// The content of a [`Scope`].
#[verifier::ext_equal]
pub struct ScopeView {
    pub ints: Seq<Seq<char>>,
    pub floats: Seq<Seq<char>>,
    pub bools: Seq<Seq<char>>,
    pub strs: Seq<Seq<char>>,
    pub arrays: Seq<(Seq<char>, nat)>,
    pub fns: Seq<SigView>,
}

/// The contents of arrays.
pub open spec fn array_views(v: Seq<(String, usize)>) -> Seq<(Seq<char>, nat)> {
    v.map_values(|a: (String, usize)| (a.0@, a.1 as nat))
}

/// The contents of functions.
pub open spec fn sig_views(v: Seq<FnSig>) -> Seq<SigView> {
    v.map_values(|f: FnSig| f@)
}

impl View for Scope {
    type V = ScopeView;

    open spec fn view(&self) -> ScopeView {
        ScopeView {
            ints: text::views(self.ints@),
            floats: text::views(self.floats@),
            bools: text::views(self.bools@),
            strs: text::views(self.strs@),
            arrays: array_views(self.int_arrays@),
            fns: sig_views(self.fns@),
        }
    }
}

/// The variables of a type.
pub open spec fn vars(e: ScopeView, ty: Ty) -> Seq<Seq<char>> {
    match ty {
        Ty::Int => e.ints,
        Ty::Float => e.floats,
        Ty::Bool => e.bools,
        Ty::Str => e.strs,
    }
}

/// A scope with one more variable.
pub open spec fn with_var(e: ScopeView, ty: Ty, name: Seq<char>) -> ScopeView {
    match ty {
        Ty::Int => ScopeView { ints: e.ints.push(name), ..e },
        Ty::Float => ScopeView { floats: e.floats.push(name), ..e },
        Ty::Bool => ScopeView { bools: e.bools.push(name), ..e },
        Ty::Str => ScopeView { strs: e.strs.push(name), ..e },
    }
}

impl Scope {
    /// A scope of functions alone.
    pub fn of_fns(fns: Vec<FnSig>) -> (r: Self)
        ensures
            r@ == only_fns(sig_views(fns@)),
    {
        let r: Scope = Scope {
            ints: Vec::new(),
            floats: Vec::new(),
            bools: Vec::new(),
            strs: Vec::new(),
            int_arrays: Vec::new(),
            fns,
        };
        assert(r@ =~= only_fns(sig_views(fns@)));
        r
    }

    fn vars_of(&self, ty: Ty) -> (r: &Vec<String>)
        ensures
            text::views(r@) == vars(self@, ty),
    {
        match ty {
            Ty::Int => &self.ints,
            Ty::Float => &self.floats,
            Ty::Bool => &self.bools,
            Ty::Str => &self.strs,
        }
    }

    fn push_var(&mut self, ty: Ty, name: String)
        ensures
            final(self)@ == with_var(old(self)@, ty, name@),
    {
        let ghost before = self@;
        match ty {
            Ty::Int => {
                self.ints.push(name);
                assert(text::views(self.ints@) =~= before.ints.push(name@));
            },
            Ty::Float => {
                self.floats.push(name);
                assert(text::views(self.floats@) =~= before.floats.push(name@));
            },
            Ty::Bool => {
                self.bools.push(name);
                assert(text::views(self.bools@) =~= before.bools.push(name@));
            },
            Ty::Str => {
                self.strs.push(name);
                assert(text::views(self.strs@) =~= before.strs.push(name@));
            },
        }
    }
}

/// A scope of functions alone.
pub open spec fn only_fns(fns: Seq<SigView>) -> ScopeView {
    ScopeView {
        ints: Seq::empty(),
        floats: Seq::empty(),
        bools: Seq::empty(),
        strs: Seq::empty(),
        arrays: Seq::empty(),
        fns,
    }
}

// ---------------------------------------------------------------------------
// Literals
// ---------------------------------------------------------------------------

/// A text with the state that follows it.
#[verifier::ext_equal]
pub struct Drawn {
    pub rng: u64,
    pub text: Seq<char>,
}

/// Integer literals that stress the semantics: small ones and those around the
/// bounds of 48 and 32 bits.
pub open spec fn int_specials() -> Seq<int> {
    seq![
        0int,
        1,
        -1,
        2,
        -2,
        7,
        42,
        255,
        4096,
        140_737_488_355_327,
        140_737_488_355_328,
        -140_737_488_355_328,
        -140_737_488_355_327,
        1_000_000_000,
        -999_999_999,
        2_147_483_647,
        -2_147_483_648,
    ]
}

fn int_special(i: usize) -> (r: i64)
    requires
        i < 17,
    ensures
        r == int_specials()[i as int],
{
    if i == 0 {
        0
    } else if i == 1 {
        1
    } else if i == 2 {
        -1
    } else if i == 3 {
        2
    } else if i == 4 {
        -2
    } else if i == 5 {
        7
    } else if i == 6 {
        42
    } else if i == 7 {
        255
    } else if i == 8 {
        4096
    } else if i == 9 {
        140_737_488_355_327
    } else if i == 10 {
        140_737_488_355_328
    } else if i == 11 {
        -140_737_488_355_328
    } else if i == 12 {
        -140_737_488_355_327
    } else if i == 13 {
        1_000_000_000
    } else if i == 14 {
        -999_999_999
    } else if i == 15 {
        2_147_483_647
    } else {
        -2_147_483_648
    }
}

/// Float literals: signed zeros, common decimals and large magnitudes.
pub open spec fn float_specials() -> Seq<Seq<char>> {
    seq![
        "0.0"@,
        "-0.0"@,
        "1.0"@,
        "-1.0"@,
        "0.5"@,
        "1.5"@,
        "-2.5"@,
        "3.14"@,
        "0.1"@,
        "0.2"@,
        "2.0"@,
        "10.0"@,
        "123456.789"@,
        "-98765.4321"@,
        "1000000000.5"@,
    ]
}

fn float_special(i: usize) -> (r: &'static str)
    requires
        i < 15,
    ensures
        r@ == float_specials()[i as int],
{
    if i == 0 {
        "0.0"
    } else if i == 1 {
        "-0.0"
    } else if i == 2 {
        "1.0"
    } else if i == 3 {
        "-1.0"
    } else if i == 4 {
        "0.5"
    } else if i == 5 {
        "1.5"
    } else if i == 6 {
        "-2.5"
    } else if i == 7 {
        "3.14"
    } else if i == 8 {
        "0.1"
    } else if i == 9 {
        "0.2"
    } else if i == 10 {
        "2.0"
    } else if i == 11 {
        "10.0"
    } else if i == 12 {
        "123456.789"
    } else if i == 13 {
        "-98765.4321"
    } else {
        "1000000000.5"
    }
}

/// String literals.
pub open spec fn str_specials() -> Seq<Seq<char>> {
    seq![
        "\"\""@,
        "\"a\""@,
        "\"b\""@,
        "\"hello\""@,
        "\"xyz\""@,
        "\"0\""@,
        "\"-1\""@,
        "\"foo bar\""@,
        "\"aBc\""@,
        "\"  \""@,
    ]
}

fn str_special(i: usize) -> (r: &'static str)
    requires
        i < 10,
    ensures
        r@ == str_specials()[i as int],
{
    if i == 0 {
        "\"\""
    } else if i == 1 {
        "\"a\""
    } else if i == 2 {
        "\"b\""
    } else if i == 3 {
        "\"hello\""
    } else if i == 4 {
        "\"xyz\""
    } else if i == 5 {
        "\"0\""
    } else if i == 6 {
        "\"-1\""
    } else if i == 7 {
        "\"foo bar\""
    } else if i == 8 {
        "\"aBc\""
    } else {
        "\"  \""
    }
}

/// An integer literal: mostly a special one, else a medium one of either sign.
pub open spec fn int_lit_of(r: u64) -> Drawn {
    let r1 = advanced(r);
    if lucky(r, 55) {
        Drawn { rng: advanced(r1), text: text::dec_int(int_specials()[drawn(r1, 0, 17) as int]) }
    } else {
        let r2 = advanced(r1);
        let v = text::dec((r2 % 1_000_003) as nat);
        Drawn {
            rng: advanced(r2),
            text: if lucky(r2, 50) {
                v
            } else {
                "-"@ + v
            },
        }
    }
}

fn int_lit(rng: &mut XorShift64) -> (r: String)
    ensures
        (Drawn { rng: final(rng).state, text: r@ }) == int_lit_of(old(rng).state),
{
    if rng.chance(55) {
        dec_of_signed(int_special(rng.range(0, 17)))
    } else {
        let v: u64 = rng.next() % 1_000_003;
        let s: String = dec_of(v);
        if rng.chance(50) {
            s
        } else {
            cat2("-", s.as_str())
        }
    }
}

/// A number below a thousand in three digits.
pub open spec fn three_digits(n: nat) -> Seq<char> {
    seq![
        text::digit_char((n / 100) as int),
        text::digit_char((n / 10 % 10) as int),
        text::digit_char((n % 10) as int),
    ]
}

fn three(n: u64) -> (r: String)
    requires
        n < 1000,
    ensures
        r@ == three_digits(n as nat),
{
    let mut out: String = String::new();
    push_dec(&mut out, n / 100);
    push_dec(&mut out, n / 10 % 10);
    push_dec(&mut out, n % 10);
    assert(out@ =~= three_digits(n as nat));
    out
}

/// A float literal: mostly a special one, else one with three decimals.
pub open spec fn float_lit_of(r: u64) -> Drawn {
    let r1 = advanced(r);
    if lucky(r, 60) {
        Drawn { rng: advanced(r1), text: float_specials()[drawn(r1, 0, 15) as int] }
    } else {
        let r2 = advanced(r1);
        let r3 = advanced(r2);
        let s = text::dec((r2 % 10_000) as nat) + "."@ + three_digits((r3 % 1000) as nat);
        Drawn {
            rng: advanced(r3),
            text: if lucky(r3, 50) {
                s
            } else {
                "-"@ + s
            },
        }
    }
}

fn float_lit(rng: &mut XorShift64) -> (r: String)
    ensures
        (Drawn { rng: final(rng).state, text: r@ }) == float_lit_of(old(rng).state),
{
    if rng.chance(60) {
        text(float_special(rng.range(0, 15)))
    } else {
        let a: u64 = rng.next() % 10_000;
        let b: u64 = rng.next() % 1000;
        let s: String = cat3(dec_of(a).as_str(), ".", three(b).as_str());
        if rng.chance(50) {
            s
        } else {
            cat2("-", s.as_str())
        }
    }
}

/// A literal of a type.
pub open spec fn lit_of(r: u64, ty: Ty) -> Drawn {
    match ty {
        Ty::Int => int_lit_of(r),
        Ty::Float => float_lit_of(r),
        Ty::Bool => Drawn {
            rng: advanced(r),
            text: if lucky(r, 50) {
                "true"@
            } else {
                "false"@
            },
        },
        Ty::Str => Drawn {
            rng: advanced(r),
            text: str_specials()[drawn(r, 0, 10) as int],
        },
    }
}

fn lit(rng: &mut XorShift64, ty: Ty) -> (r: String)
    ensures
        (Drawn { rng: final(rng).state, text: r@ }) == lit_of(old(rng).state, ty),
{
    match ty {
        Ty::Int => int_lit(rng),
        Ty::Float => float_lit(rng),
        Ty::Bool => if rng.chance(50) {
            text("true")
        } else {
            text("false")
        },
        Ty::Str => text(str_special(rng.range(0, 10))),
    }
}

/// A variable of the type with a chance of `pct` percent where there is one,
/// else a literal.
pub open spec fn leaf_of(e: ScopeView, r: u64, ty: Ty, pct: nat) -> Drawn {
    let names = vars(e, ty);
    if names.len() == 0 {
        lit_of(r, ty)
    } else if lucky(r, pct) {
        Drawn {
            rng: advanced(advanced(r)),
            text: names[drawn(advanced(r), 0, names.len()) as int],
        }
    } else {
        lit_of(advanced(r), ty)
    }
}

fn leaf(e: &Scope, rng: &mut XorShift64, ty: Ty, pct: usize) -> (r: String)
    ensures
        (Drawn { rng: final(rng).state, text: r@ }) == leaf_of(
            e@,
            old(rng).state,
            ty,
            pct as nat,
        ),
{
    let names: &Vec<String> = e.vars_of(ty);
    if names.len() > 0 && rng.chance(pct) {
        let i: usize = rng.range(0, names.len());
        assert(text::views(names@)[i as int] == names@[i as int]@);
        text(names[i].as_str())
    } else {
        lit(rng, ty)
    }
}

/// The text without its outer pair of parentheses, if it begins and ends with
/// one.
pub open spec fn stripped(s: Seq<char>) -> Seq<char> {
    if wrapped(s) {
        s.subrange(1, s.len() - 1)
    } else {
        s
    }
}

/// Whether the text begins with `(` and ends with `)`.
pub open spec fn wrapped(s: Seq<char>) -> bool {
    s.len() >= 2 && s[0] == '(' && s.last() == ')'
}

fn is_wrapped(s: &String) -> (r: bool)
    ensures
        r == wrapped(s@),
{
    let n: usize = s.as_str().unicode_len();
    n >= 2 && s.as_str().get_char(0) == '(' && s.as_str().get_char(n - 1) == ')'
}

/// The text without its outer pair of parentheses, see [`stripped`].
pub fn strip_parens(s: &String) -> (r: String)
    ensures
        r@ == stripped(s@),
{
    if is_wrapped(s) {
        let n: usize = s.as_str().unicode_len();
        text(s.as_str().substring_char(1, n - 1))
    } else {
        text(s.as_str())
    }
}

// ---------------------------------------------------------------------------
// Expressions
// ---------------------------------------------------------------------------

/// One level less, down to zero.
pub open spec fn below(depth: nat) -> nat {
    if depth == 0 {
        0
    } else {
        (depth - 1) as nat
    }
}

fn shallower(depth: usize) -> (r: usize)
    ensures
        r as nat == below(depth as nat),
{
    if depth == 0 {
        0
    } else {
        depth - 1
    }
}

/// An expression of a type: a leaf at depth zero and now and then above it, else
/// a compound expression.
pub open spec fn expr_of(e: ScopeView, r: u64, ty: Ty, depth: nat) -> Drawn
    decreases depth, 0nat, 0nat,
{
    if depth == 0 {
        leaf_of(e, r, ty, 60)
    } else if lucky(r, 18) {
        leaf_of(e, advanced(r), ty, 60)
    } else {
        let d = (depth - 1) as nat;
        match ty {
            Ty::Int => int_expr_of(e, advanced(r), d),
            Ty::Float => float_expr_of(e, advanced(r), d),
            Ty::Bool => bool_expr_of(e, advanced(r), d),
            Ty::Str => str_expr_of(e, advanced(r), d),
        }
    }
}

/// Two expressions one after the other.
pub open spec fn pair_of(e: ScopeView, r: u64, a: Ty, b: Ty, depth: nat) -> (Drawn, Drawn)
    decreases depth, 1nat, 0nat,
{
    let x = expr_of(e, r, a, depth);
    (x, expr_of(e, x.rng, b, depth))
}

/// The first `n` arguments of a call. What a recursive function counts down from
/// is cut to less than 89.
pub open spec fn args_of(e: ScopeView, r: u64, f: SigView, n: nat, depth: nat) -> (
    u64,
    Seq<Seq<char>>,
)
    decreases depth, 1nat, n,
{
    if n == 0 || n > f.params.len() {
        (r, Seq::empty())
    } else {
        let before = args_of(e, r, f, (n - 1) as nat, depth);
        let a = expr_of(e, before.0, f.params[n - 1], below(depth));
        (
            a.rng,
            before.1.push(
                if n == 1 && f.recursive && f.params[0] == Ty::Int {
                    "(("@ + a.text + ") % 89)"@
                } else {
                    a.text
                },
            ),
        )
    }
}

/// The functions among the first `n` that give the type and take at most two
/// arguments.
pub open spec fn callable(fns: Seq<SigView>, ty: Ty, n: nat) -> Seq<int>
    decreases n,
{
    if n == 0 || n > fns.len() {
        Seq::empty()
    } else {
        let before = callable(fns, ty, (n - 1) as nat);
        if fns[n - 1].ret == ty && fns[n - 1].params.len() <= 2 {
            before.push(n - 1)
        } else {
            before
        }
    }
}

/// A call of a function of the type, now and then, where there is one.
pub open spec fn call_of(e: ScopeView, r: u64, ty: Ty, depth: nat) -> (u64, Option<Seq<char>>)
    decreases depth, 2nat, 0nat,
{
    let cs = callable(e.fns, ty, e.fns.len());
    if cs.len() == 0 {
        (r, None)
    } else if !lucky(r, 25) {
        (advanced(r), None)
    } else {
        let r1 = advanced(r);
        let f = e.fns[cs[drawn(r1, 0, cs.len()) as int]];
        let args = args_of(e, advanced(r1), f, f.params.len(), depth);
        (args.0, Some(f.name + "("@ + text::joined(args.1, ", "@) + ")"@))
    }
}

/// An integer that is not zero: guarded, or odd by its form.
pub open spec fn nonzero_int_of(e: ScopeView, r: u64, depth: nat) -> Drawn
    decreases depth, 1nat, 0nat,
{
    let d = expr_of(e, advanced(r), Ty::Int, below(depth));
    Drawn {
        rng: d.rng,
        text: if lucky(r, 30) {
            "(if "@ + stripped(d.text) + " == 0 then 1 else ("@ + d.text + "))"@
        } else {
            "(("@ + d.text + ") * 2 + 1)"@
        },
    }
}

/// A float that is not zero: guarded, or a square and one.
pub open spec fn nonzero_float_of(e: ScopeView, r: u64, depth: nat) -> Drawn
    decreases depth, 1nat, 0nat,
{
    let d = expr_of(e, advanced(r), Ty::Float, below(depth));
    Drawn {
        rng: d.rng,
        text: if lucky(r, 30) {
            "(if "@ + stripped(d.text) + " == 0.0 then 1.0 else ("@ + d.text + "))"@
        } else {
            "((("@ + d.text + ") * ("@ + d.text + ")) + 1.0)"@
        },
    }
}

/// A condition in a form that does not begin with a parenthesis: without the
/// outer pair, or negated twice where another one follows.
pub open spec fn cond_of(e: ScopeView, r: u64, depth: nat) -> Drawn
    decreases depth, 1nat, 0nat,
{
    let c = expr_of(e, r, Ty::Bool, depth);
    Drawn { rng: c.rng, text: as_condition(c.text) }
}

/// A boolean expression as a condition.
pub open spec fn as_condition(c: Seq<char>) -> Seq<char> {
    if wrapped(c) && stripped(c).len() > 0 && stripped(c)[0] == '(' {
        "not (not ("@ + c + "))"@
    } else {
        stripped(c)
    }
}

/// A choice between two expressions of a type.
pub open spec fn if_of(e: ScopeView, r: u64, ty: Ty, depth: nat) -> Drawn
    decreases depth, 2nat, 0nat,
{
    let c = cond_of(e, r, depth);
    let p = pair_of(e, c.rng, ty, ty, depth);
    Drawn {
        rng: p.1.rng,
        text: "(if "@ + c.text + " then "@ + p.0.text + " else "@ + p.1.text + ")"@,
    }
}

/// The operators of sums and products.
pub open spec fn sum_op(i: nat) -> Seq<char> {
    if i == 0 {
        "+"@
    } else if i == 1 {
        "-"@
    } else {
        "*"@
    }
}

/// The operators of comparison.
pub open spec fn order_op(i: nat) -> Seq<char> {
    if i == 0 {
        "<"@
    } else if i == 1 {
        "<="@
    } else if i == 2 {
        ">"@
    } else if i == 3 {
        ">="@
    } else if i == 4 {
        "=="@
    } else {
        "!="@
    }
}

/// A sum, difference or product of a type.
pub open spec fn sum_of(e: ScopeView, r: u64, ty: Ty, depth: nat) -> Drawn
    decreases depth, 2nat, 0nat,
{
    let p = pair_of(e, advanced(r), ty, ty, depth);
    Drawn {
        rng: p.1.rng,
        text: "("@ + p.0.text + " "@ + sum_op(drawn(r, 0, 3)) + " "@ + p.1.text + ")"@,
    }
}

/// A comparison of two expressions of a type with a given operator.
pub open spec fn related(e: ScopeView, r: u64, ty: Ty, op: Seq<char>, depth: nat) -> Drawn
    decreases depth, 2nat, 0nat,
{
    let p = pair_of(e, r, ty, ty, depth);
    Drawn {
        rng: p.1.rng,
        text: "(("@ + p.0.text + ") "@ + op + " ("@ + p.1.text + "))"@,
    }
}

/// A use of an array: its length, or an element at an index that is cut to the
/// length; another expression where there is no array.
pub open spec fn array_use_of(e: ScopeView, r: u64, depth: nat) -> Drawn
    decreases depth, 1nat, 0nat,
{
    if e.arrays.len() == 0 {
        expr_of(e, r, Ty::Int, depth)
    } else {
        let a = e.arrays[drawn(r, 0, e.arrays.len()) as int];
        let r1 = advanced(r);
        let len = text::dec(a.1);
        if lucky(r1, 40) {
            Drawn { rng: advanced(r1), text: len }
        } else {
            let i = expr_of(e, advanced(r1), Ty::Int, depth);
            Drawn { rng: i.rng, text: guarded_index(a.0, len, i.text) }
        }
    }
}

/// An element of an array at the square of `i`, cut to the length.
pub open spec fn guarded_index(name: Seq<char>, len: Seq<char>, i: Seq<char>) -> Seq<char> {
    "(if 0 <= (("@ + i + ") * ("@ + i + ")) % "@ + len + " then "@ + name + "[(("@ + i + ") * ("@
        + i + ")) % "@ + len + "] else 0)"@
}

/// A compound integer expression.
pub open spec fn int_expr_of(e: ScopeView, r: u64, depth: nat) -> Drawn
    decreases depth, 3nat, 0nat,
{
    let call = call_of(e, r, Ty::Int, depth);
    let r0 = call.0;
    let k = drawn(r0, 0, 14);
    let r1 = advanced(r0);
    match call.1 {
        Some(t) => Drawn { rng: r0, text: t },
        None => if k <= 3 {
            sum_of(e, r1, Ty::Int, depth)
        } else if k <= 5 {
            let a = expr_of(e, advanced(r1), Ty::Int, depth);
            let b = nonzero_int_of(e, a.rng, depth);
            Drawn {
                rng: b.rng,
                text: "(("@ + a.text + ") "@ + (if drawn(r1, 0, 2) == 0 {
                    "%"@
                } else {
                    "/"@
                }) + " "@ + b.text + ")"@,
            }
        } else if k == 6 {
            let a = expr_of(e, advanced(r1), Ty::Int, depth);
            Drawn {
                rng: a.rng,
                text: "(("@ + a.text + ") ** "@ + text::dec(drawn(r1, 0, 5)) + ")"@,
            }
        } else if k == 7 {
            let a = expr_of(e, r1, Ty::Int, depth);
            Drawn { rng: a.rng, text: "(-("@ + a.text + "))"@ }
        } else if k == 8 {
            if_of(e, r1, Ty::Int, depth)
        } else if k == 9 {
            let p = pair_of(e, r1, Ty::Int, Ty::Int, depth);
            let q = pair_of(e, p.1.rng, Ty::Int, Ty::Int, depth);
            Drawn {
                rng: q.1.rng,
                text: "(match ("@ + p.0.text + ") { 0 => "@ + p.1.text + ", 1 => "@ + q.0.text
                    + ", _ => "@ + q.1.text + " })"@,
            }
        } else if k <= 11 {
            array_use_of(e, r1, depth)
        } else if k == 12 {
            let p = pair_of(e, r1, Ty::Int, Ty::Int, depth);
            Drawn {
                rng: advanced(p.1.rng),
                text: "({x: "@ + p.0.text + ", y: "@ + p.1.text + "}."@ + (if lucky(
                    p.1.rng,
                    50,
                ) {
                    "x"@
                } else {
                    "y"@
                }) + ")"@,
            }
        } else {
            leaf_of(e, r1, Ty::Int, 70)
        },
    }
}

/// A compound float expression.
pub open spec fn float_expr_of(e: ScopeView, r: u64, depth: nat) -> Drawn
    decreases depth, 3nat, 0nat,
{
    let call = call_of(e, r, Ty::Float, depth);
    let r0 = call.0;
    let k = drawn(r0, 0, 10);
    let r1 = advanced(r0);
    match call.1 {
        Some(t) => Drawn { rng: r0, text: t },
        None => if k <= 2 {
            sum_of(e, r1, Ty::Float, depth)
        } else if k == 3 {
            let a = expr_of(e, r1, Ty::Float, depth);
            let b = nonzero_float_of(e, a.rng, depth);
            Drawn { rng: b.rng, text: "(("@ + a.text + ") / "@ + b.text + ")"@ }
        } else if k == 4 {
            let a = expr_of(e, advanced(r1), Ty::Float, depth);
            Drawn {
                rng: a.rng,
                text: "(("@ + a.text + ") ** "@ + text::dec(drawn(r1, 0, 4)) + ".0)"@,
            }
        } else if k == 5 {
            let a = expr_of(e, r1, Ty::Float, depth);
            Drawn { rng: a.rng, text: "(-("@ + a.text + "))"@ }
        } else if k == 6 {
            if_of(e, r1, Ty::Float, depth)
        } else {
            leaf_of(e, r1, Ty::Float, 70)
        },
    }
}

/// A compound boolean expression.
pub open spec fn bool_expr_of(e: ScopeView, r: u64, depth: nat) -> Drawn
    decreases depth, 3nat, 0nat,
{
    let k = drawn(r, 0, 10);
    let r1 = advanced(r);
    let r2 = advanced(r1);
    if k <= 2 {
        related(e, r2, Ty::Int, order_op(drawn(r1, 0, 6)), depth)
    } else if k == 3 {
        related(e, r2, Ty::Float, order_op(drawn(r1, 0, 6)), depth)
    } else if k == 4 {
        related(
            e,
            r2,
            Ty::Str,
            if lucky(r1, 70) {
                "=="@
            } else {
                "!="@
            },
            depth,
        )
    } else if k <= 6 {
        related(
            e,
            r2,
            Ty::Bool,
            if lucky(r1, 50) {
                "and"@
            } else {
                "or"@
            },
            depth,
        )
    } else if k == 7 {
        let a = expr_of(e, r1, Ty::Bool, depth);
        Drawn { rng: a.rng, text: "(not ("@ + a.text + "))"@ }
    } else if k == 8 {
        if_of(e, r1, Ty::Bool, depth)
    } else {
        leaf_of(e, r1, Ty::Bool, 70)
    }
}

/// A compound string expression.
pub open spec fn str_expr_of(e: ScopeView, r: u64, depth: nat) -> Drawn
    decreases depth, 3nat, 0nat,
{
    let call = call_of(e, r, Ty::Str, depth);
    let r0 = call.0;
    let k = drawn(r0, 0, 8);
    let r1 = advanced(r0);
    match call.1 {
        Some(t) => Drawn { rng: r0, text: t },
        None => if k <= 3 {
            let p = pair_of(
                e,
                r1,
                Ty::Str,
                if k <= 2 {
                    Ty::Str
                } else {
                    Ty::Int
                },
                depth,
            );
            Drawn { rng: p.1.rng, text: "("@ + p.0.text + " + "@ + p.1.text + ")"@ }
        } else if k == 4 {
            if_of(e, r1, Ty::Str, depth)
        } else {
            leaf_of(e, r1, Ty::Str, 70)
        },
    }
}

fn expr(e: &Scope, rng: &mut XorShift64, ty: Ty, depth: usize) -> (r: String)
    ensures
        (Drawn { rng: final(rng).state, text: r@ }) == expr_of(
            e@,
            old(rng).state,
            ty,
            depth as nat,
        ),
    decreases depth, 0nat, 0nat,
{
    if depth == 0 || rng.chance(18) {
        return leaf(e, rng, ty, 60);
    }
    let d: usize = depth - 1;
    match ty {
        Ty::Int => int_expr(e, rng, d),
        Ty::Float => float_expr(e, rng, d),
        Ty::Bool => bool_expr(e, rng, d),
        Ty::Str => str_expr(e, rng, d),
    }
}

fn call_args(e: &Scope, rng: &mut XorShift64, f: &FnSig, depth: usize) -> (r: Vec<String>)
    ensures
        (final(rng).state, text::views(r@)) == args_of(
            e@,
            old(rng).state,
            f@,
            f.params@.len(),
            depth as nat,
        ),
    decreases depth, 1nat, 0nat,
{
    let ghost start = rng.state;
    let mut args: Vec<String> = Vec::new();
    let mut n: usize = 0;
    assert(text::views(args@) =~= Seq::empty());
    while n < f.params.len()
        invariant
            n <= f.params@.len(),
            (rng.state, text::views(args@)) == args_of(e@, start, f@, n as nat, depth as nat),
        decreases f.params@.len() - n,
    {
        let ghost before = text::views(args@);
        let a: String = expr(e, rng, f.params[n], shallower(depth));
        let arg: String = if n == 0 && f.recursive && f.params[0] == Ty::Int {
            cat3("((", a.as_str(), ") % 89)")
        } else {
            a
        };
        args.push(arg);
        n = n + 1;
        assert(text::views(args@) =~= before.push(arg@));
    }
    args
}

fn candidates(fns: &Vec<FnSig>, ty: Ty) -> (r: Vec<usize>)
    ensures
        r@.map_values(|i: usize| i as int) == callable(sig_views(fns@), ty, fns@.len()),
        forall|i: int| 0 <= i < r@.len() ==> #[trigger] r@[i] < fns@.len(),
{
    let ghost all = sig_views(fns@);
    let mut out: Vec<usize> = Vec::new();
    let mut n: usize = 0;
    assert(out@.map_values(|i: usize| i as int) =~= Seq::empty());
    while n < fns.len()
        invariant
            all == sig_views(fns@),
            n <= fns@.len(),
            out@.map_values(|i: usize| i as int) == callable(all, ty, n as nat),
            forall|i: int| 0 <= i < out@.len() ==> #[trigger] out@[i] < n,
        decreases fns@.len() - n,
    {
        let ghost before = out@.map_values(|i: usize| i as int);
        assert(all[n as int] == fns@[n as int]@);
        if fns[n].ret == ty && fns[n].params.len() <= 2 {
            out.push(n);
            assert(out@.map_values(|i: usize| i as int) =~= before.push(n as int));
        }
        n = n + 1;
    }
    out
}

fn maybe_call(e: &Scope, rng: &mut XorShift64, ty: Ty, depth: usize) -> (r: Option<String>)
    ensures
        (final(rng).state, text::opt_view(r)) == call_of(
            e@,
            old(rng).state,
            ty,
            depth as nat,
        ),
    decreases depth, 2nat, 0nat,
{
    let cs: Vec<usize> = candidates(&e.fns, ty);
    let ghost all = callable(e@.fns, ty, e@.fns.len());
    assert(all.len() == cs@.len());
    if cs.len() == 0 || !rng.chance(25) {
        return None;
    }
    let i: usize = rng.range(0, cs.len());
    assert(all[i as int] == cs@[i as int]);
    let f: &FnSig = &e.fns[cs[i]];
    assert(e@.fns[all[i as int]] == f@);
    let args: Vec<String> = call_args(e, rng, f, depth);
    Some(cat4(f.name.as_str(), "(", join(&args, ", ").as_str(), ")"))
}

fn nonzero_int(e: &Scope, rng: &mut XorShift64, depth: usize) -> (r: String)
    ensures
        (Drawn { rng: final(rng).state, text: r@ }) == nonzero_int_of(
            e@,
            old(rng).state,
            depth as nat,
        ),
    decreases depth, 1nat, 0nat,
{
    let guard: bool = rng.chance(30);
    let d: String = expr(e, rng, Ty::Int, shallower(depth));
    if guard {
        cat5("(if ", strip_parens(&d).as_str(), " == 0 then 1 else (", d.as_str(), "))")
    } else {
        cat3("((", d.as_str(), ") * 2 + 1)")
    }
}

fn nonzero_float(e: &Scope, rng: &mut XorShift64, depth: usize) -> (r: String)
    ensures
        (Drawn { rng: final(rng).state, text: r@ }) == nonzero_float_of(
            e@,
            old(rng).state,
            depth as nat,
        ),
    decreases depth, 1nat, 0nat,
{
    let guard: bool = rng.chance(30);
    let d: String = expr(e, rng, Ty::Float, shallower(depth));
    if guard {
        cat5("(if ", strip_parens(&d).as_str(), " == 0.0 then 1.0 else (", d.as_str(), "))")
    } else {
        cat5("(((", d.as_str(), ") * (", d.as_str(), ")) + 1.0)")
    }
}

fn cond(e: &Scope, rng: &mut XorShift64, depth: usize) -> (r: String)
    ensures
        (Drawn { rng: final(rng).state, text: r@ }) == cond_of(e@, old(rng).state, depth as nat),
    decreases depth, 1nat, 0nat,
{
    let c: String = expr(e, rng, Ty::Bool, depth);
    let s: String = strip_parens(&c);
    if is_wrapped(&c) && s.as_str().unicode_len() > 0 && s.as_str().get_char(0) == '(' {
        cat3("not (not (", c.as_str(), "))")
    } else {
        s
    }
}

fn if_expr(e: &Scope, rng: &mut XorShift64, ty: Ty, depth: usize) -> (r: String)
    ensures
        (Drawn { rng: final(rng).state, text: r@ }) == if_of(e@, old(rng).state, ty, depth as nat),
    decreases depth, 2nat, 0nat,
{
    let c: String = cond(e, rng, depth);
    let a: String = expr(e, rng, ty, depth);
    let b: String = expr(e, rng, ty, depth);
    let mut out: String = cat4("(if ", c.as_str(), " then ", a.as_str());
    out.append(" else ");
    out.append(b.as_str());
    out.append(")");
    out
}

fn sum_expr(e: &Scope, rng: &mut XorShift64, ty: Ty, depth: usize) -> (r: String)
    ensures
        (Drawn { rng: final(rng).state, text: r@ }) == sum_of(e@, old(rng).state, ty, depth as nat),
    decreases depth, 2nat, 0nat,
{
    let i: usize = rng.range(0, 3);
    let op: &str = if i == 0 {
        "+"
    } else if i == 1 {
        "-"
    } else {
        "*"
    };
    let a: String = expr(e, rng, ty, depth);
    let b: String = expr(e, rng, ty, depth);
    let mut out: String = cat4("(", a.as_str(), " ", op);
    out.append(" ");
    out.append(b.as_str());
    out.append(")");
    out
}

fn relation(e: &Scope, rng: &mut XorShift64, ty: Ty, op: &str, depth: usize) -> (r: String)
    ensures
        (Drawn { rng: final(rng).state, text: r@ }) == related(
            e@,
            old(rng).state,
            ty,
            op@,
            depth as nat,
        ),
    decreases depth, 2nat, 0nat,
{
    let a: String = expr(e, rng, ty, depth);
    let b: String = expr(e, rng, ty, depth);
    let mut out: String = cat4("((", a.as_str(), ") ", op);
    out.append(" (");
    out.append(b.as_str());
    out.append("))");
    out
}

fn draw_order(rng: &mut XorShift64) -> (r: &'static str)
    ensures
        r@ == order_op(drawn(old(rng).state, 0, 6)),
        final(rng).state == advanced(old(rng).state),
{
    let i: usize = rng.range(0, 6);
    if i == 0 {
        "<"
    } else if i == 1 {
        "<="
    } else if i == 2 {
        ">"
    } else if i == 3 {
        ">="
    } else if i == 4 {
        "=="
    } else {
        "!="
    }
}

fn array_use(e: &Scope, rng: &mut XorShift64, depth: usize) -> (r: String)
    ensures
        (Drawn { rng: final(rng).state, text: r@ }) == array_use_of(
            e@,
            old(rng).state,
            depth as nat,
        ),
    decreases depth, 1nat, 0nat,
{
    assert(e@.arrays.len() == e.int_arrays@.len());
    if e.int_arrays.len() == 0 {
        return expr(e, rng, Ty::Int, depth);
    }
    let at: usize = rng.range(0, e.int_arrays.len());
    assert(e@.arrays[at as int] == (e.int_arrays@[at as int].0@, e.int_arrays@[at as int].1
        as nat));
    let len: String = dec_of(e.int_arrays[at].1 as u64);
    if rng.chance(40) {
        return len;
    }
    let i: String = expr(e, rng, Ty::Int, depth);
    let mut out: String = cat5("(if 0 <= ((", i.as_str(), ") * (", i.as_str(), ")) % ");
    out.append(len.as_str());
    out.append(" then ");
    out.append(e.int_arrays[at].0.as_str());
    out.append("[((");
    out.append(i.as_str());
    out.append(") * (");
    out.append(i.as_str());
    out.append(")) % ");
    out.append(len.as_str());
    out.append("] else 0)");
    out
}

fn int_expr(e: &Scope, rng: &mut XorShift64, depth: usize) -> (r: String)
    ensures
        (Drawn { rng: final(rng).state, text: r@ }) == int_expr_of(
            e@,
            old(rng).state,
            depth as nat,
        ),
    decreases depth, 3nat, 0nat,
{
    match maybe_call(e, rng, Ty::Int, depth) {
        Some(call) => return call,
        None => {},
    }
    let k: usize = rng.range(0, 14);
    if k <= 3 {
        sum_expr(e, rng, Ty::Int, depth)
    } else if k <= 5 {
        let op: &str = if rng.range(0, 2) == 0 {
            "%"
        } else {
            "/"
        };
        let a: String = expr(e, rng, Ty::Int, depth);
        let b: String = nonzero_int(e, rng, depth);
        let mut out: String = cat4("((", a.as_str(), ") ", op);
        out.append(" ");
        out.append(b.as_str());
        out.append(")");
        out
    } else if k == 6 {
        let p: usize = rng.range(0, 5);
        let a: String = expr(e, rng, Ty::Int, depth);
        cat5("((", a.as_str(), ") ** ", dec_of(p as u64).as_str(), ")")
    } else if k == 7 {
        let a: String = expr(e, rng, Ty::Int, depth);
        cat3("(-(", a.as_str(), "))")
    } else if k == 8 {
        if_expr(e, rng, Ty::Int, depth)
    } else if k == 9 {
        let a: String = expr(e, rng, Ty::Int, depth);
        let b: String = expr(e, rng, Ty::Int, depth);
        let c: String = expr(e, rng, Ty::Int, depth);
        let d: String = expr(e, rng, Ty::Int, depth);
        let mut out: String = cat5("(match (", a.as_str(), ") { 0 => ", b.as_str(), ", 1 => ");
        out.append(c.as_str());
        out.append(", _ => ");
        out.append(d.as_str());
        out.append(" })");
        out
    } else if k <= 11 {
        array_use(e, rng, depth)
    } else if k == 12 {
        let a: String = expr(e, rng, Ty::Int, depth);
        let b: String = expr(e, rng, Ty::Int, depth);
        let field: &str = if rng.chance(50) {
            "x"
        } else {
            "y"
        };
        let mut out: String = cat5("({x: ", a.as_str(), ", y: ", b.as_str(), "}.");
        out.append(field);
        out.append(")");
        out
    } else {
        leaf(e, rng, Ty::Int, 70)
    }
}

fn float_expr(e: &Scope, rng: &mut XorShift64, depth: usize) -> (r: String)
    ensures
        (Drawn { rng: final(rng).state, text: r@ }) == float_expr_of(
            e@,
            old(rng).state,
            depth as nat,
        ),
    decreases depth, 3nat, 0nat,
{
    match maybe_call(e, rng, Ty::Float, depth) {
        Some(call) => return call,
        None => {},
    }
    let k: usize = rng.range(0, 10);
    if k <= 2 {
        sum_expr(e, rng, Ty::Float, depth)
    } else if k == 3 {
        let a: String = expr(e, rng, Ty::Float, depth);
        let b: String = nonzero_float(e, rng, depth);
        cat5("((", a.as_str(), ") / ", b.as_str(), ")")
    } else if k == 4 {
        let p: usize = rng.range(0, 4);
        let a: String = expr(e, rng, Ty::Float, depth);
        cat5("((", a.as_str(), ") ** ", dec_of(p as u64).as_str(), ".0)")
    } else if k == 5 {
        let a: String = expr(e, rng, Ty::Float, depth);
        cat3("(-(", a.as_str(), "))")
    } else if k == 6 {
        if_expr(e, rng, Ty::Float, depth)
    } else {
        leaf(e, rng, Ty::Float, 70)
    }
}

fn bool_expr(e: &Scope, rng: &mut XorShift64, depth: usize) -> (r: String)
    ensures
        (Drawn { rng: final(rng).state, text: r@ }) == bool_expr_of(
            e@,
            old(rng).state,
            depth as nat,
        ),
    decreases depth, 3nat, 0nat,
{
    let k: usize = rng.range(0, 10);
    if k <= 2 {
        let op: &str = draw_order(rng);
        relation(e, rng, Ty::Int, op, depth)
    } else if k == 3 {
        let op: &str = draw_order(rng);
        relation(e, rng, Ty::Float, op, depth)
    } else if k == 4 {
        let op: &str = if rng.chance(70) {
            "=="
        } else {
            "!="
        };
        relation(e, rng, Ty::Str, op, depth)
    } else if k <= 6 {
        let op: &str = if rng.chance(50) {
            "and"
        } else {
            "or"
        };
        relation(e, rng, Ty::Bool, op, depth)
    } else if k == 7 {
        let a: String = expr(e, rng, Ty::Bool, depth);
        cat3("(not (", a.as_str(), "))")
    } else if k == 8 {
        if_expr(e, rng, Ty::Bool, depth)
    } else {
        leaf(e, rng, Ty::Bool, 70)
    }
}

fn str_expr(e: &Scope, rng: &mut XorShift64, depth: usize) -> (r: String)
    ensures
        (Drawn { rng: final(rng).state, text: r@ }) == str_expr_of(
            e@,
            old(rng).state,
            depth as nat,
        ),
    decreases depth, 3nat, 0nat,
{
    match maybe_call(e, rng, Ty::Str, depth) {
        Some(call) => return call,
        None => {},
    }
    let k: usize = rng.range(0, 8);
    if k <= 3 {
        let a: String = expr(e, rng, Ty::Str, depth);
        let b: String = expr(
            e,
            rng,
            if k <= 2 {
                Ty::Str
            } else {
                Ty::Int
            },
            depth,
        );
        cat5("(", a.as_str(), " + ", b.as_str(), ")")
    } else if k == 4 {
        if_expr(e, rng, Ty::Str, depth)
    } else {
        leaf(e, rng, Ty::Str, 70)
    }
}

// ---------------------------------------------------------------------------
// Statements
// ---------------------------------------------------------------------------

/// A program under construction: the random state, the text so far, the names in
/// scope and the number of names made.
pub struct Gen {
    rng: XorShift64,
    out: String,
    scope: Scope,
    fresh: usize,
}

/// The content of a [`Gen`].
#[verifier::ext_equal]
pub struct GenView {
    pub rng: u64,
    pub out: Seq<char>,
    pub scope: ScopeView,
    pub fresh: nat,
}

impl View for Gen {
    type V = GenView;

    closed spec fn view(&self) -> GenView {
        GenView {
            rng: self.rng.state,
            out: self.out@,
            scope: self.scope@,
            fresh: self.fresh as nat,
        }
    }
}

/// A name that was not used before.
pub open spec fn fresh_name(prefix: Seq<char>, n: nat) -> Seq<char> {
    prefix + text::dec(n)
}

/// The type of a binding.
pub open spec fn binding_ty(i: nat) -> Ty {
    if i <= 1 {
        Ty::Int
    } else if i == 2 {
        Ty::Float
    } else if i == 3 {
        Ty::Bool
    } else {
        Ty::Str
    }
}

/// The prefix of a variable name by type.
pub open spec fn prefix_of(ty: Ty) -> Seq<char> {
    match ty {
        Ty::Int => "i"@,
        Ty::Float => "f"@,
        Ty::Bool => "b"@,
        Ty::Str => "s"@,
    }
}

/// `n` integer expressions one after the other.
pub open spec fn ints_of(e: ScopeView, r: u64, n: nat, depth: nat) -> (u64, Seq<Seq<char>>)
    decreases n,
{
    if n == 0 {
        (r, Seq::empty())
    } else {
        let before = ints_of(e, r, (n - 1) as nat, depth);
        let a = expr_of(e, before.0, Ty::Int, depth);
        (a.rng, before.1.push(a.text))
    }
}

/// A binding of a random type.
pub open spec fn let_stmt_of(g: GenView, depth: nat) -> GenView {
    let ty = binding_ty(drawn(g.rng, 0, 5));
    let name = fresh_name(prefix_of(ty), g.fresh);
    let v = expr_of(g.scope, advanced(g.rng), ty, depth);
    GenView {
        rng: v.rng,
        out: g.out + "let "@ + name + " = "@ + v.text + "\n"@,
        scope: with_var(g.scope, ty, name),
        fresh: g.fresh + 1,
    }
}

/// A binding of an array literal of one to five elements.
pub open spec fn array_stmt_of(g: GenView, depth: nat) -> GenView {
    let len = drawn(g.rng, 1, 6);
    let elems = ints_of(g.scope, advanced(g.rng), len, below(depth));
    let name = fresh_name("a"@, g.fresh);
    GenView {
        rng: elems.0,
        out: g.out + "let "@ + name + " = ["@ + text::joined(elems.1, ", "@) + "]\n"@,
        scope: ScopeView { arrays: g.scope.arrays.push((name, len)), ..g.scope },
        fresh: g.fresh + 1,
    }
}

/// The types of `n` parameters.
pub open spec fn params_of(r: u64, n: nat) -> (u64, Seq<Ty>)
    decreases n,
{
    if n == 0 {
        (r, Seq::empty())
    } else {
        let before = params_of(r, (n - 1) as nat);
        (advanced(before.0), before.1.push(binding_ty(drawn(before.0, 0, 4))))
    }
}

/// The names of the first `n` parameters.
pub open spec fn param_names(n: nat) -> Seq<Seq<char>>
    decreases n,
{
    if n == 0 {
        Seq::empty()
    } else {
        param_names((n - 1) as nat).push(fresh_name("p"@, (n - 1) as nat))
    }
}

/// The scope of a function body: its parameters and the functions before it.
pub open spec fn body_scope(fns: Seq<SigView>, params: Seq<Ty>, n: nat) -> ScopeView
    decreases n,
{
    if n == 0 || n > params.len() {
        only_fns(fns)
    } else {
        with_var(
            body_scope(fns, params, (n - 1) as nat),
            params[n - 1],
            fresh_name("p"@, (n - 1) as nat),
        )
    }
}

/// The arguments of the recursive call: one less for the first parameter, leaves
/// for the others.
pub open spec fn rec_args_of(e: ScopeView, r: u64, params: Seq<Ty>, n: nat) -> (
    u64,
    Seq<Seq<char>>,
)
    decreases n,
{
    if n == 0 || n > params.len() {
        (r, Seq::empty())
    } else {
        let before = rec_args_of(e, r, params, (n - 1) as nat);
        if n == 1 {
            (before.0, before.1.push("(p0 - 1)"@))
        } else {
            let a = expr_of(e, before.0, params[n - 1], 0);
            (a.rng, before.1.push(a.text))
        }
    }
}

/// The body of a recursive function, guarded by its first parameter.
pub open spec fn rec_body_of(
    e: ScopeView,
    r: u64,
    name: Seq<char>,
    params: Seq<Ty>,
    ret: Ty,
) -> Drawn {
    let args = rec_args_of(e, r, params, params.len());
    let p = pair_of(e, args.0, ret, ret, 1);
    Drawn {
        rng: p.1.rng,
        text: "if p0 <= 0 then "@ + p.0.text + " else ("@ + p.1.text + " + "@ + name + "("@
            + text::joined(args.1, ", "@) + "))"@,
    }
}

/// A function declaration. The body sees the parameters and the functions
/// before; it may call itself where the first parameter is an integer and the
/// result a number.
pub open spec fn fn_stmt_of(g: GenView, depth: nat) -> GenView {
    let ret = binding_ty(drawn(g.rng, 0, 5));
    let r1 = advanced(g.rng);
    let n = drawn(r1, 1, 3);
    let ps = params_of(advanced(r1), n);
    let name = fresh_name("g"@, g.fresh);
    let e = body_scope(g.scope.fns, ps.1, ps.1.len());
    let may = ps.1[0] == Ty::Int && (ret == Ty::Int || ret == Ty::Float);
    let recursive = may && lucky(ps.0, 30);
    let r3 = if may {
        advanced(ps.0)
    } else {
        ps.0
    };
    let body = if recursive {
        rec_body_of(e, r3, name, ps.1, ret)
    } else {
        expr_of(e, r3, ret, depth)
    };
    GenView {
        rng: body.rng,
        out: g.out + "fn "@ + name + "("@ + text::joined(param_names(n), ", "@) + ") { "@
            + body.text + " }\n"@,
        scope: ScopeView {
            fns: g.scope.fns.push(SigView { name, params: ps.1, ret, recursive }),
            ..g.scope
        },
        fresh: g.fresh + 1,
    }
}

/// A loop that sums an expression a bounded number of times, now and then often
/// enough to be compiled on the way.
pub open spec fn while_stmt_of(g: GenView) -> GenView {
    let r1 = advanced(g.rng);
    let trips = if lucky(g.rng, 15) {
        drawn(r1, 1050, 1600)
    } else {
        drawn(r1, 1, 40)
    };
    let acc = fresh_name("acc"@, g.fresh);
    let k = fresh_name("k"@, g.fresh + 1);
    let step = expr_of(g.scope, advanced(r1), Ty::Int, 1);
    let res = fresh_name("i"@, g.fresh + 2);
    GenView {
        rng: step.rng,
        out: g.out + "let "@ + res + " = { var "@ + acc + " = 0\nvar "@ + k + " = 0\nwhile "@ + k
            + " < "@ + text::dec(trips) + " { "@ + acc + " = "@ + acc + " + ("@ + step.text
            + ")\n"@ + k + " = "@ + k + " + 1 }\n"@ + acc + " }\n"@,
        scope: with_var(g.scope, Ty::Int, res),
        fresh: g.fresh + 3,
    }
}

/// A loop that sums the elements of a small array literal.
pub open spec fn for_stmt_of(g: GenView) -> GenView {
    let elems = ints_of(g.scope, advanced(g.rng), drawn(g.rng, 1, 5), 1);
    let acc = fresh_name("fa"@, g.fresh);
    let x = fresh_name("x"@, g.fresh + 1);
    let res = fresh_name("i"@, g.fresh + 2);
    GenView {
        rng: elems.0,
        out: g.out + "let "@ + res + " = { var "@ + acc + " = 0\nfor "@ + x + " in ["@
            + text::joined(elems.1, ", "@) + "] { "@ + acc + " = "@ + acc + " + "@ + x + " }\n"@
            + acc + " }\n"@,
        scope: with_var(g.scope, Ty::Int, res),
        fresh: g.fresh + 3,
    }
}

/// A record, and a binding of a field of its functional update.
pub open spec fn record_stmt_of(g: GenView, depth: nat) -> GenView {
    let d = below(depth);
    let rec = fresh_name("r"@, g.fresh);
    let p = pair_of(g.scope, g.rng, Ty::Int, Ty::Int, d);
    let v = fresh_name("i"@, g.fresh + 1);
    let upd = expr_of(g.scope, p.1.rng, Ty::Int, d);
    let field = if lucky(upd.rng, 50) {
        "x"@
    } else {
        "y"@
    };
    GenView {
        rng: advanced(upd.rng),
        out: g.out + "let "@ + rec + " = {x: "@ + p.0.text + ", y: "@ + p.1.text + "}\n"@ + "let "@
            + v + " = ({"@ + rec + " .. "@ + field + " = "@ + upd.text + "})."@ + field + "\n"@,
        scope: with_var(g.scope, Ty::Int, v),
        fresh: g.fresh + 2,
    }
}

/// One more statement.
pub open spec fn stmt_of(g: GenView, depth: nat) -> GenView {
    let k = drawn(g.rng, 0, 12);
    let h = GenView { rng: advanced(g.rng), ..g };
    if k <= 4 {
        let_stmt_of(h, depth)
    } else if k <= 6 {
        array_stmt_of(h, depth)
    } else if k <= 8 {
        fn_stmt_of(h, depth)
    } else if k == 9 {
        while_stmt_of(h)
    } else if k == 10 {
        for_stmt_of(h)
    } else {
        record_stmt_of(h, depth)
    }
}

fn binding(i: usize) -> (r: Ty)
    ensures
        r == binding_ty(i as nat),
{
    if i <= 1 {
        Ty::Int
    } else if i == 2 {
        Ty::Float
    } else if i == 3 {
        Ty::Bool
    } else {
        Ty::Str
    }
}

fn name_of(prefix: &str, n: usize) -> (r: String)
    ensures
        r@ == fresh_name(prefix@, n as nat),
{
    cat2(prefix, dec_of(n as u64).as_str())
}

fn ints(e: &Scope, rng: &mut XorShift64, n: usize, depth: usize) -> (r: Vec<String>)
    ensures
        (final(rng).state, text::views(r@)) == ints_of(
            e@,
            old(rng).state,
            n as nat,
            depth as nat,
        ),
{
    let ghost start = rng.state;
    let mut out: Vec<String> = Vec::new();
    let mut i: usize = 0;
    assert(text::views(out@) =~= Seq::empty());
    while i < n
        invariant
            i <= n,
            (rng.state, text::views(out@)) == ints_of(e@, start, i as nat, depth as nat),
        decreases n - i,
    {
        let ghost before = text::views(out@);
        let a: String = expr(e, rng, Ty::Int, depth);
        out.push(a);
        i = i + 1;
        assert(text::views(out@) =~= before.push(a@));
    }
    out
}

fn rec_body(e: &Scope, rng: &mut XorShift64, name: &str, params: &Vec<Ty>, ret: Ty) -> (r: String)
    ensures
        (Drawn { rng: final(rng).state, text: r@ }) == rec_body_of(
            e@,
            old(rng).state,
            name@,
            params@,
            ret,
        ),
{
    let ghost start = rng.state;
    let mut args: Vec<String> = Vec::new();
    let mut n: usize = 0;
    assert(text::views(args@) =~= Seq::empty());
    while n < params.len()
        invariant
            n <= params@.len(),
            (rng.state, text::views(args@)) == rec_args_of(e@, start, params@, n as nat),
        decreases params@.len() - n,
    {
        let ghost before = text::views(args@);
        let a: String = if n == 0 {
            text("(p0 - 1)")
        } else {
            expr(e, rng, params[n], 0)
        };
        args.push(a);
        n = n + 1;
        assert(text::views(args@) =~= before.push(a@));
    }
    let a: String = expr(e, rng, ret, 1);
    let b: String = expr(e, rng, ret, 1);
    let mut out: String = cat5("if p0 <= 0 then ", a.as_str(), " else (", b.as_str(), " + ");
    out.append(name);
    out.append("(");
    out.append(join(&args, ", ").as_str());
    out.append("))");
    out
}

impl Gen {
    /// An empty program for a seed. Neighbouring seeds begin far apart.
    pub fn new(seed: u64) -> (r: Self)
        ensures
            r@ == begun(seed),
    {
        let r: Gen = Gen {
            rng: XorShift64 {
                state: seed.wrapping_mul(0x9E37_79B9_7F4A_7C15) ^ 0xA5A5_5A5A_D3C3_B4A5,
            },
            out: String::new(),
            scope: Scope::of_fns(Vec::new()),
            fresh: 0,
        };
        proof {
            assert(sig_views(Seq::<FnSig>::empty()) =~= Seq::empty());
            assert(r@ =~= begun(seed));
        }
        r
    }

    fn let_stmt(&mut self, depth: usize)
        requires
            old(self)@.fresh < usize::MAX,
        ensures
            final(self)@ == let_stmt_of(old(self)@, depth as nat),
    {
        let ty: Ty = binding(self.rng.range(0, 5));
        let prefix: &str = match ty {
            Ty::Int => "i",
            Ty::Float => "f",
            Ty::Bool => "b",
            Ty::Str => "s",
        };
        let name: String = name_of(prefix, self.fresh);
        self.fresh = self.fresh + 1;
        let v: String = expr(&self.scope, &mut self.rng, ty, depth);
        self.out.append("let ");
        self.out.append(name.as_str());
        self.out.append(" = ");
        self.out.append(v.as_str());
        self.out.append("\n");
        self.scope.push_var(ty, name);
    }

    fn array_stmt(&mut self, depth: usize)
        requires
            old(self)@.fresh < usize::MAX,
        ensures
            final(self)@ == array_stmt_of(old(self)@, depth as nat),
    {
        let ghost before = self@;
        let len: usize = self.rng.range(1, 6);
        let elems: Vec<String> = ints(&self.scope, &mut self.rng, len, shallower(depth));
        let name: String = name_of("a", self.fresh);
        self.fresh = self.fresh + 1;
        self.out.append("let ");
        self.out.append(name.as_str());
        self.out.append(" = [");
        self.out.append(join(&elems, ", ").as_str());
        self.out.append("]\n");
        self.scope.int_arrays.push((name, len));
        assert(array_views(self.scope.int_arrays@) =~= before.scope.arrays.push(
            (name@, len as nat),
        ));
    }

    fn draw_params(&mut self, n: usize) -> (r: Vec<Ty>)
        ensures
            (final(self)@.rng, r@) == params_of(old(self)@.rng, n as nat),
            final(self)@ == (GenView { rng: final(self)@.rng, ..old(self)@ }),
    {
        let ghost start = self@;
        let mut out: Vec<Ty> = Vec::new();
        let mut i: usize = 0;
        assert(out@ =~= Seq::empty());
        while i < n
            invariant
                i <= n,
                (self@.rng, out@) == params_of(start.rng, i as nat),
                self@ == (GenView { rng: self@.rng, ..start }),
            decreases n - i,
        {
            let ty: Ty = binding(self.rng.range(0, 4));
            out.push(ty);
            i = i + 1;
        }
        out
    }

    fn fn_stmt(&mut self, depth: usize)
        requires
            old(self)@.fresh < usize::MAX,
        ensures
            final(self)@ == fn_stmt_of(old(self)@, depth as nat),
    {
        let ghost before = self@;
        let ret: Ty = binding(self.rng.range(0, 5));
        let n: usize = self.rng.range(1, 3);
        let params: Vec<Ty> = self.draw_params(n);
        let ghost ps = params@;
        proof {
            params_len(advanced(advanced(before.rng)), n as nat);
        }
        let name: String = name_of("g", self.fresh);
        self.fresh = self.fresh + 1;
        let mut fns: Vec<FnSig> = Vec::new();
        std::mem::swap(&mut fns, &mut self.scope.fns);
        let ghost known = sig_views(fns@);
        let mut inner: Scope = Scope::of_fns(fns);
        let mut pnames: Vec<String> = Vec::new();
        let mut i: usize = 0;
        assert(text::views(pnames@) =~= Seq::empty());
        while i < n
            invariant
                n == params@.len(),
                ps == params@,
                i <= n,
                inner@ == body_scope(known, ps, i as nat),
                text::views(pnames@) == param_names(i as nat),
            decreases n - i,
        {
            let ghost names_before = text::views(pnames@);
            let pn: String = name_of("p", i);
            inner.push_var(params[i], text(pn.as_str()));
            pnames.push(pn);
            i = i + 1;
            assert(text::views(pnames@) =~= names_before.push(pn@));
        }
        let may: bool = params[0] == Ty::Int && (ret == Ty::Int || ret == Ty::Float);
        let recursive: bool = may && self.rng.chance(30);
        let body: String = if recursive {
            rec_body(&inner, &mut self.rng, name.as_str(), &params, ret)
        } else {
            expr(&inner, &mut self.rng, ret, depth)
        };
        self.out.append("fn ");
        self.out.append(name.as_str());
        self.out.append("(");
        self.out.append(join(&pnames, ", ").as_str());
        self.out.append(") { ");
        self.out.append(body.as_str());
        self.out.append(" }\n");
        proof {
            body_keeps_fns(known, ps, n as nat);
        }
        let Scope { fns: kept, .. } = inner;
        self.scope.fns = kept;
        let ghost restored = sig_views(self.scope.fns@);
        self.scope.fns.push(FnSig { name, params, ret, recursive });
        proof {
            assert(sig_views(self.scope.fns@) =~= known.push(
                SigView { name: name@, params: ps, ret, recursive },
            ));
            assert(self@.scope =~= fn_stmt_of(before, depth as nat).scope);
        }
    }

    fn while_stmt(&mut self)
        requires
            old(self)@.fresh < usize::MAX - 2,
        ensures
            final(self)@ == while_stmt_of(old(self)@),
    {
        let trips: usize = if self.rng.chance(15) {
            self.rng.range(1050, 1600)
        } else {
            self.rng.range(1, 40)
        };
        let acc: String = name_of("acc", self.fresh);
        let k: String = name_of("k", self.fresh + 1);
        let step: String = expr(&self.scope, &mut self.rng, Ty::Int, 1);
        let res: String = name_of("i", self.fresh + 2);
        self.fresh = self.fresh + 3;
        self.out.append("let ");
        self.out.append(res.as_str());
        self.out.append(" = { var ");
        self.out.append(acc.as_str());
        self.out.append(" = 0\nvar ");
        self.out.append(k.as_str());
        self.out.append(" = 0\nwhile ");
        self.out.append(k.as_str());
        self.out.append(" < ");
        push_dec(&mut self.out, trips as u64);
        self.out.append(" { ");
        self.out.append(acc.as_str());
        self.out.append(" = ");
        self.out.append(acc.as_str());
        self.out.append(" + (");
        self.out.append(step.as_str());
        self.out.append(")\n");
        self.out.append(k.as_str());
        self.out.append(" = ");
        self.out.append(k.as_str());
        self.out.append(" + 1 }\n");
        self.out.append(acc.as_str());
        self.out.append(" }\n");
        self.scope.push_var(Ty::Int, res);
    }

    fn for_stmt(&mut self)
        requires
            old(self)@.fresh < usize::MAX - 2,
        ensures
            final(self)@ == for_stmt_of(old(self)@),
    {
        let len: usize = self.rng.range(1, 5);
        let elems: Vec<String> = ints(&self.scope, &mut self.rng, len, 1);
        let acc: String = name_of("fa", self.fresh);
        let x: String = name_of("x", self.fresh + 1);
        let res: String = name_of("i", self.fresh + 2);
        self.fresh = self.fresh + 3;
        self.out.append("let ");
        self.out.append(res.as_str());
        self.out.append(" = { var ");
        self.out.append(acc.as_str());
        self.out.append(" = 0\nfor ");
        self.out.append(x.as_str());
        self.out.append(" in [");
        self.out.append(join(&elems, ", ").as_str());
        self.out.append("] { ");
        self.out.append(acc.as_str());
        self.out.append(" = ");
        self.out.append(acc.as_str());
        self.out.append(" + ");
        self.out.append(x.as_str());
        self.out.append(" }\n");
        self.out.append(acc.as_str());
        self.out.append(" }\n");
        self.scope.push_var(Ty::Int, res);
    }

    fn record_stmt(&mut self, depth: usize)
        requires
            old(self)@.fresh < usize::MAX - 2,
        ensures
            final(self)@ == record_stmt_of(old(self)@, depth as nat),
    {
        let d: usize = shallower(depth);
        let rec: String = name_of("r", self.fresh);
        let fx: String = expr(&self.scope, &mut self.rng, Ty::Int, d);
        let fy: String = expr(&self.scope, &mut self.rng, Ty::Int, d);
        self.out.append("let ");
        self.out.append(rec.as_str());
        self.out.append(" = {x: ");
        self.out.append(fx.as_str());
        self.out.append(", y: ");
        self.out.append(fy.as_str());
        self.out.append("}\n");
        let v: String = name_of("i", self.fresh + 1);
        self.fresh = self.fresh + 2;
        let upd: String = expr(&self.scope, &mut self.rng, Ty::Int, d);
        let field: &str = if self.rng.chance(50) {
            "x"
        } else {
            "y"
        };
        self.out.append("let ");
        self.out.append(v.as_str());
        self.out.append(" = ({");
        self.out.append(rec.as_str());
        self.out.append(" .. ");
        self.out.append(field);
        self.out.append(" = ");
        self.out.append(upd.as_str());
        self.out.append("}).");
        self.out.append(field);
        self.out.append("\n");
        self.scope.push_var(Ty::Int, v);
    }

    /// Adds one statement, see [`stmt_of`].
    pub fn stmt(&mut self, depth: usize)
        requires
            old(self)@.fresh < usize::MAX - 2,
        ensures
            final(self)@ == stmt_of(old(self)@, depth as nat),
            final(self)@.fresh <= old(self)@.fresh + 3,
    {
        let k: usize = self.rng.range(0, 12);
        if k <= 4 {
            self.let_stmt(depth)
        } else if k <= 6 {
            self.array_stmt(depth)
        } else if k <= 8 {
            self.fn_stmt(depth)
        } else if k == 9 {
            self.while_stmt()
        } else if k == 10 {
            self.for_stmt()
        } else {
            self.record_stmt(depth)
        }
    }
}

proof fn params_len(r: u64, n: nat)
    ensures
        params_of(r, n).1.len() == n,
    decreases n,
{
    if n > 0 {
        params_len(r, (n - 1) as nat);
    }
}

proof fn body_keeps_fns(fns: Seq<SigView>, params: Seq<Ty>, n: nat)
    ensures
        body_scope(fns, params, n).fns == fns,
    decreases n,
{
    if n > 0 && n <= params.len() {
        body_keeps_fns(fns, params, (n - 1) as nat);
    }
}

// ---------------------------------------------------------------------------
// Programs
// ---------------------------------------------------------------------------

/// An empty program for a seed.
pub open spec fn begun(seed: u64) -> GenView {
    GenView {
        rng: seed.wrapping_mul(0x9E37_79B9_7F4A_7C15) ^ 0xA5A5_5A5A_D3C3_B4A5,
        out: Seq::empty(),
        scope: only_fns(Seq::empty()),
        fresh: 0,
    }
}

/// `n` statements one after the other.
pub open spec fn stmts_of(g: GenView, n: nat) -> GenView
    decreases n,
{
    if n == 0 {
        g
    } else {
        stmt_of(stmts_of(g, (n - 1) as nat), 2)
    }
}

/// The type of the result.
pub open spec fn final_ty(i: nat) -> Ty {
    if i <= 2 {
        Ty::Int
    } else if i == 3 {
        Ty::Float
    } else if i == 4 {
        Ty::Bool
    } else {
        Ty::Str
    }
}

/// A loop under an effect handler that resumes each operation, run `n` times.
pub open spec fn effect_text(n: nat) -> Seq<char> {
    "\neffect Tick { next: Int -> Int }\nfn __drive(n: Int) -> Int {\n    var acc = 0\n    var i = 0\n    handle {\n        while i < n {\n            acc = acc + perform Tick.next(i)\n            i = i + 1\n        }\n    } {\n        | Tick.next(x) resume => resume(x + 1)\n    }\n    acc\n}\nlet __effect_sum = __drive("@
        + text::dec(n) + ")\n"@
}

/// The program of a seed: up to eight statements, now and then an effect
/// exercise, and a result of a type that can be compared.
pub open spec fn program(seed: u64) -> Seq<char> {
    let g0 = begun(seed);
    let n = drawn(g0.rng, 1, 9);
    let r1 = advanced(g0.rng);
    let g = stmts_of(GenView { rng: advanced(r1), ..g0 }, n);
    let last = expr_of(g.scope, advanced(g.rng), final_ty(drawn(g.rng, 0, 6)), 3);
    let end = "let __final = "@ + last.text + "\n__final"@;
    if lucky(r1, 12) {
        g.out + effect_text(drawn(last.rng, 1, 30)) + end
    } else {
        g.out + "\n"@ + end
    }
}

/// The program of a seed, see [`program`].
pub fn generate_program(seed: u64) -> (r: String)
    ensures
        r@ == program(seed),
{
    let mut g: Gen = Gen::new(seed);
    let n: usize = g.rng.range(1, 9);
    let wrapper: bool = g.rng.chance(12);
    let ghost start = g@;
    let mut i: usize = 0;
    while i < n
        invariant
            n < 9,
            i <= n,
            g@ == stmts_of(start, i as nat),
            g@.fresh <= 3 * i,
        decreases n - i,
    {
        g.stmt(2);
        i = i + 1;
    }
    let k: usize = g.rng.range(0, 6);
    let ty: Ty = if k <= 2 {
        Ty::Int
    } else if k == 3 {
        Ty::Float
    } else if k == 4 {
        Ty::Bool
    } else {
        Ty::Str
    };
    let last: String = expr(&g.scope, &mut g.rng, ty, 3);
    let end: String = cat3("let __final = ", last.as_str(), "\n__final");
    if wrapper {
        let trips: usize = g.rng.range(1, 30);
        let mut drive: String = cat2(
            "\neffect Tick { next: Int -> Int }\nfn __drive(n: Int) -> Int {\n    var acc = 0\n    var i = 0\n    handle {\n        while i < n {\n            acc = acc + perform Tick.next(i)\n            i = i + 1\n        }\n    } {\n        | Tick.next(x) resume => resume(x + 1)\n    }\n    acc\n}\nlet __effect_sum = __drive(",
            dec_of(trips as u64).as_str(),
        );
        drive.append(")\n");
        cat3(g.out.as_str(), drive.as_str(), end.as_str())
    } else {
        cat3(g.out.as_str(), "\n", end.as_str())
    }
}

// ---------------------------------------------------------------------------
// Campaigns
// ---------------------------------------------------------------------------

/// A disagreement: the seed, the program and what was said about it.
#[derive(Debug, Clone, PartialEq, Eq)]
pub struct Divergence {
    pub seed: u64,
    pub source: String,
    pub message: String,
}

/// The content of a [`Divergence`].
#[verifier::ext_equal]
pub struct DivergenceView {
    pub seed: u64,
    pub source: Seq<char>,
    pub message: Seq<char>,
}

impl View for Divergence {
    type V = DivergenceView;

    open spec fn view(&self) -> DivergenceView {
        DivergenceView { seed: self.seed, source: self.source@, message: self.message@ }
    }
}

/// The tally of a campaign.
#[derive(Debug, PartialEq, Eq)]
pub struct CampaignStats {
    pub generated: usize,
    /// All ways to run the program that were compared agreed.
    pub agreed: usize,
    /// Those among them where native compilation took part.
    pub aot_agreed: usize,
    /// The result cannot be compared between runs.
    pub uncomparable: usize,
    /// The program did not compile.
    pub compile_failures: Vec<(u64, String)>,
    /// Disagreements of the known class on overflow.
    pub known_overflow: Vec<Divergence>,
    pub divergences: Vec<Divergence>,
}

/// The content of [`CampaignStats`].
#[verifier::ext_equal]
pub struct StatsView {
    pub generated: nat,
    pub agreed: nat,
    pub aot_agreed: nat,
    pub uncomparable: nat,
    pub compile_failures: Seq<(u64, Seq<char>)>,
    pub known_overflow: Seq<DivergenceView>,
    pub divergences: Seq<DivergenceView>,
}

/// The contents of failures.
pub open spec fn failure_views(v: Seq<(u64, String)>) -> Seq<(u64, Seq<char>)> {
    v.map_values(|f: (u64, String)| (f.0, f.1@))
}

/// The contents of divergences.
pub open spec fn divergence_views(v: Seq<Divergence>) -> Seq<DivergenceView> {
    v.map_values(|d: Divergence| d@)
}

impl View for CampaignStats {
    type V = StatsView;

    open spec fn view(&self) -> StatsView {
        StatsView {
            generated: self.generated as nat,
            agreed: self.agreed as nat,
            aot_agreed: self.aot_agreed as nat,
            uncomparable: self.uncomparable as nat,
            compile_failures: failure_views(self.compile_failures@),
            known_overflow: divergence_views(self.known_overflow@),
            divergences: divergence_views(self.divergences@),
        }
    }
}

/// What became of a program.
#[derive(Debug, PartialEq, Eq)]
pub enum Verdict {
    NotCompiled,
    NothingToCompile,
    Uncomparable,
    Agreed { aot: bool },
    Diverged(String),
}

/// Whether a disagreement belongs to the known class: one side reports an
/// overflow of the 48-bit range.
pub open spec fn is_overflow(message: Seq<char>) -> bool {
    text::occurs(message, "exceeds the 48-bit range"@)
}

/// Whether a disagreement belongs to the known class, see [`is_overflow`].
pub fn is_overflow_semantics_divergence(message: &str) -> (r: bool)
    ensures
        r == is_overflow(message@),
{
    text_contains(message, "exceeds the 48-bit range")
}

/// Whether every program is counted once, and every disagreement under its own
/// class.
pub open spec fn consistent(v: StatsView) -> bool {
    &&& v.generated == v.agreed + v.uncomparable + v.compile_failures.len()
        + v.known_overflow.len() + v.divergences.len()
    &&& v.aot_agreed <= v.agreed
    &&& forall|i: int|
        0 <= i < v.known_overflow.len() ==> is_overflow((#[trigger] v.known_overflow[i]).message)
    &&& forall|i: int|
        0 <= i < v.divergences.len() ==> !is_overflow((#[trigger] v.divergences[i]).message)
}

/// An empty tally.
pub open spec fn no_stats() -> StatsView {
    StatsView {
        generated: 0,
        agreed: 0,
        aot_agreed: 0,
        uncomparable: 0,
        compile_failures: Seq::empty(),
        known_overflow: Seq::empty(),
        divergences: Seq::empty(),
    }
}

/// The tally after one more program.
pub open spec fn recorded(v: StatsView, seed: u64, source: Seq<char>, verdict: Verdict) -> StatsView {
    let w = StatsView { generated: v.generated + 1, ..v };
    match verdict {
        Verdict::NotCompiled => StatsView {
            compile_failures: v.compile_failures.push((seed, source)),
            ..w
        },
        Verdict::NothingToCompile => StatsView {
            compile_failures: v.compile_failures.push((seed, source)),
            ..w
        },
        Verdict::Uncomparable => StatsView { uncomparable: v.uncomparable + 1, ..w },
        Verdict::Agreed { aot } => StatsView {
            agreed: v.agreed + 1,
            aot_agreed: if aot {
                v.aot_agreed + 1
            } else {
                v.aot_agreed
            },
            ..w
        },
        Verdict::Diverged(message) => {
            let d = DivergenceView { seed, source, message: message@ };
            if is_overflow(message@) {
                StatsView { known_overflow: v.known_overflow.push(d), ..w }
            } else {
                StatsView { divergences: v.divergences.push(d), ..w }
            }
        },
    }
}

impl Default for CampaignStats {
    /// An empty tally.
    fn default() -> (r: Self)
        ensures
            r@ == no_stats(),
    {
        let r: CampaignStats = CampaignStats {
            generated: 0,
            agreed: 0,
            aot_agreed: 0,
            uncomparable: 0,
            compile_failures: Vec::new(),
            known_overflow: Vec::new(),
            divergences: Vec::new(),
        };
        assert(r@ =~= no_stats());
        r
    }
}

impl CampaignStats {
    /// Counts one more program, see [`recorded`].
    pub fn record(&mut self, seed: u64, source: String, verdict: Verdict)
        requires
            consistent(old(self)@),
            old(self).generated < usize::MAX,
        ensures
            final(self)@ == recorded(old(self)@, seed, source@, verdict),
            consistent(final(self)@),
    {
        let ghost before = self@;
        self.generated = self.generated + 1;
        match verdict {
            Verdict::NotCompiled => {
                self.compile_failures.push((seed, source));
                assert(failure_views(self.compile_failures@) =~= before.compile_failures.push(
                    (seed, source@),
                ));
            },
            Verdict::NothingToCompile => {
                self.compile_failures.push((seed, source));
                assert(failure_views(self.compile_failures@) =~= before.compile_failures.push(
                    (seed, source@),
                ));
            },
            Verdict::Uncomparable => {
                self.uncomparable = self.uncomparable + 1;
            },
            Verdict::Agreed { aot } => {
                self.agreed = self.agreed + 1;
                if aot {
                    self.aot_agreed = self.aot_agreed + 1;
                }
            },
            Verdict::Diverged(message) => {
                let known: bool = is_overflow_semantics_divergence(message.as_str());
                let d: Divergence = Divergence { seed, source, message };
                if known {
                    self.known_overflow.push(d);
                    assert(divergence_views(self.known_overflow@) =~= before.known_overflow.push(
                        d@,
                    ));
                } else {
                    self.divergences.push(d);
                    assert(divergence_views(self.divergences@) =~= before.divergences.push(d@));
                }
            },
        }
        assert(self@ =~= recorded(before, seed, source@, verdict));
    }
}

/// The seed of program `i`: seeds wrap around.
pub open spec fn seed_at(base: u64, i: nat) -> u64 {
    ((base + i) % 0x1_0000_0000_0000_0000) as u64
}

/// The text as a comment: every line but the first begins with `// `.
pub open spec fn commented(s: Seq<char>) -> Seq<char>
    decreases s.len(),
{
    if s.len() == 0 {
        Seq::empty()
    } else {
        commented(s.drop_last()) + (if s.last() == '\n' {
            "\n// "@
        } else {
            seq![s.last()]
        })
    }
}

fn push_commented(out: &mut String, s: &str)
    ensures
        final(out)@ == old(out)@ + commented(s@),
{
    let ghost start = out@;
    assert(start + commented(s@.take(0)) =~= start);
    for c in it: s.chars()
        invariant
            it.seq() == s@,
            out@ == start + commented(s@.take(it.index() as int)),
    {
        let ghost i = it.index();
        let ghost before = out@;
        proof {
            assert(s@.take(i + 1).drop_last() =~= s@.take(i as int));
            assert(s@.take(i + 1).last() == c);
        }
        if c == '\n' {
            out.append("\n// ");
        } else {
            out.push(c);
            assert(out@ =~= before + seq![c]);
        }
        assert(out@ =~= start + commented(s@.take(i + 1)));
    }
    assert(s@.take(s@.len() as int) =~= s@);
}

/// The file that a disagreement is kept in.
pub open spec fn crasher_name(seed: u64) -> Seq<char> {
    text::dec(seed as nat) + ".nula"@
}

/// The directory, below that of all crashers, for a disagreement: those of the
/// known class have one of their own.
pub open spec fn crasher_folder(message: Seq<char>) -> Seq<char> {
    if is_overflow(message) {
        "known-overflow"@
    } else {
        ""@
    }
}

/// The content of that file: how it came about, how to get it again, and the
/// program.
pub open spec fn crasher_body(seed: u64, message: Seq<char>, source: Seq<char>) -> Seq<char> {
    "// Differential fuzzer crasher\n// seed: "@ + text::dec(seed as nat) + " (0x"@
        + text::hex_num(seed as nat) + ")\n// "@ + commented(message)
        + "\n// reproduce: nula_difffuzz --seeds 1 --seed-base "@ + text::dec(seed as nat) + "\n\n"@
        + source + "\n"@
}

/// The line that announces a disagreement.
pub open spec fn crasher_line(seed: u64, message: Seq<char>) -> Seq<char> {
    (if is_overflow(message) {
        "KNOWN-OVERFLOW"@
    } else {
        "DIVERGENCE"@
    }) + " seed=0x"@ + text::hex_num(seed as nat) + ": "@ + message
}

/// A disagreement as it is kept and announced. Those of the known class are kept
/// in a directory of their own, so that the rest is what nobody has looked at.
#[derive(Debug, PartialEq, Eq)]
pub struct Crasher {
    pub known: bool,
    pub folder: String,
    pub file_name: String,
    pub body: String,
    pub line: String,
}

/// How a disagreement is kept and announced.
pub fn crasher(seed: u64, message: &str, source: &str) -> (r: Crasher)
    ensures
        r.known == is_overflow(message@),
        r.folder@ == crasher_folder(message@),
        r.file_name@ == crasher_name(seed),
        r.body@ == crasher_body(seed, message@, source@),
        r.line@ == crasher_line(seed, message@),
{
    let known: bool = is_overflow_semantics_divergence(message);
    let folder: String = text(
        if known {
            "known-overflow"
        } else {
            ""
        },
    );
    let mut file_name: String = String::new();
    push_dec(&mut file_name, seed);
    file_name.append(".nula");
    assert(file_name@ =~= crasher_name(seed));
    let mut body: String = text("// Differential fuzzer crasher\n// seed: ");
    push_dec(&mut body, seed);
    body.append(" (0x");
    push_hex(&mut body, seed);
    body.append(")\n// ");
    push_commented(&mut body, message);
    body.append("\n// reproduce: nula_difffuzz --seeds 1 --seed-base ");
    push_dec(&mut body, seed);
    body.append("\n\n");
    body.append(source);
    body.append("\n");
    let mut line: String = text(
        if known {
            "KNOWN-OVERFLOW"
        } else {
            "DIVERGENCE"
        },
    );
    line.append(" seed=0x");
    push_hex(&mut line, seed);
    line.append(": ");
    line.append(message);
    Crasher { known, folder, file_name, body, line }
}

/// Runs programs in all ways there are, and keeps what diverges.
pub trait Oracle {
    /// Whether the time is up.
    fn out_of_time(&mut self) -> bool;

    /// What becomes of a program.
    fn judge(&mut self, source: &str) -> Verdict;

    /// Keeps and announces a disagreement.
    fn keep(&mut self, found: &Crasher);
}

/// Whether a tally is of programs of their seeds.
pub open spec fn of_programs(v: StatsView) -> bool {
    &&& forall|i: int|
        0 <= i < v.compile_failures.len() ==> (#[trigger] v.compile_failures[i]).1 == program(
            v.compile_failures[i].0,
        )
    &&& forall|i: int|
        0 <= i < v.known_overflow.len() ==> (#[trigger] v.known_overflow[i]).source == program(
            v.known_overflow[i].seed,
        )
    &&& forall|i: int|
        0 <= i < v.divergences.len() ==> (#[trigger] v.divergences[i]).source == program(
            v.divergences[i].seed,
        )
}

/// Whether verdicts on the programs of the first seeds lead to a tally.
pub open spec fn tallied(base: u64, verdicts: Seq<Verdict>) -> StatsView
    decreases verdicts.len(),
{
    if verdicts.len() == 0 {
        no_stats()
    } else {
        let i = (verdicts.len() - 1) as nat;
        let seed = seed_at(base, i);
        recorded(tallied(base, verdicts.drop_last()), seed, program(seed), verdicts.last())
    }
}

/// Whether a record is the one of a divergence.
pub open spec fn is_crasher(found: Crasher, seed: u64, message: Seq<char>, source: Seq<char>) -> bool {
    &&& found.known == is_overflow(message)
    &&& found.folder@ == crasher_folder(message)
    &&& found.file_name@ == crasher_name(seed)
    &&& found.body@ == crasher_body(seed, message, source)
    &&& found.line@ == crasher_line(seed, message)
}

/// Whether the oracle gave a verdict on the program of a seed, and was handed
/// the record to keep where the verdict is a divergence.
pub open spec fn judged<O: Oracle>(seed: u64, verdict: Verdict) -> bool {
    &&& exists|o: &mut O, given: &str|
        given@ == program(seed) && #[trigger] call_ensures(O::judge, (o, given), verdict)
    &&& verdict matches Verdict::Diverged(message) ==> exists|o: &mut O, found: &Crasher|
        is_crasher(*found, seed, message@, program(seed)) && #[trigger] call_ensures(
            O::keep,
            (o, found),
            (),
        )
}

/// Whether the oracle said that the time is up.
pub open spec fn time_was_up<O: Oracle>() -> bool {
    exists|o: &mut O, up: bool| up && #[trigger] call_ensures(O::out_of_time, (o,), up)
}

/// Whether the verdicts on the programs of the first seeds are the oracle's.
pub open spec fn all_judged<O: Oracle>(base: u64, verdicts: Seq<Verdict>) -> bool {
    forall|i: int|
        0 <= i < verdicts.len() ==> #[trigger] judged::<O>(seed_at(base, i as nat), verdicts[i])
}

/// Runs a campaign over the seeds from `base_seed` on, `count` of them or until
/// the time is up: the tally is that of the oracle's verdicts on the programs of
/// these seeds.
pub fn run_campaign<O: Oracle>(base_seed: u64, count: u64, oracle: &mut O) -> (r: CampaignStats)
    requires
        count <= usize::MAX,
    ensures
        consistent(r@),
        of_programs(r@),
        r.generated <= count,
        r.generated < count ==> time_was_up::<O>(),
        exists|verdicts: Seq<Verdict>|
            verdicts.len() == r.generated && all_judged::<O>(base_seed, verdicts)
                && #[trigger] tallied(base_seed, verdicts) == r@,
{
    let mut stats: CampaignStats = CampaignStats::default();
    let ghost mut verdicts: Seq<Verdict> = Seq::empty();
    let mut i: u64 = 0;
    while i < count
        invariant_except_break
            i == stats.generated,
        invariant
            count <= usize::MAX,
            i <= count,
            stats.generated <= i,
            verdicts.len() == stats.generated,
            consistent(stats@),
            of_programs(stats@),
            tallied(base_seed, verdicts) == stats@,
            all_judged::<O>(base_seed, verdicts),
        ensures
            stats.generated <= count,
            stats.generated < count ==> time_was_up::<O>(),
            verdicts.len() == stats.generated,
            consistent(stats@),
            of_programs(stats@),
            tallied(base_seed, verdicts) == stats@,
            all_judged::<O>(base_seed, verdicts),
        decreases count - i,
    {
        let up: bool = oracle.out_of_time();
        assert(exists|o: &mut O| call_ensures(O::out_of_time, (o,), up));
        if up {
            assert(time_was_up::<O>());
            break ;
        }
        let wide: u128 = base_seed as u128 + i as u128;
        let seed: u64 = (wide % 0x1_0000_0000_0000_0000) as u64;
        let source: String = generate_program(seed);
        let given: &str = source.as_str();
        let verdict: Verdict = oracle.judge(given);
        assert(exists|o: &mut O| call_ensures(O::judge, (o, given), verdict));
        match &verdict {
            Verdict::Diverged(message) => {
                let found: &Crasher = &crasher(seed, message.as_str(), source.as_str());
                let kept: () = oracle.keep(found);
                assert(exists|o: &mut O| call_ensures(O::keep, (o, found), kept));
                assert(is_crasher(*found, seed, message@, program(seed)));
            },
            _ => {},
        }
        proof {
            assert(judged::<O>(seed, verdict));
            let next = verdicts.push(verdict);
            assert(next.drop_last() =~= verdicts);
            assert forall|k: int| 0 <= k < next.len() implies #[trigger] judged::<O>(
                seed_at(base_seed, k as nat),
                next[k],
            ) by {
                if k < verdicts.len() {
                    assert(judged::<O>(seed_at(base_seed, k as nat), verdicts[k]));
                }
            }
            verdicts = next;
        }
        stats.record(seed, source, verdict);
        i = i + 1;
    }
    stats
}

// ---------------------------------------------------------------------------
// Laws
// ---------------------------------------------------------------------------

/// A draw lies in its range.
pub proof fn draws_are_in_range(s: u64, lo: nat, hi: nat)
    requires
        lo < hi,
    ensures
        lo <= drawn(s, lo, hi) < hi,
{
}

/// Loops are bounded: the number of rounds is at least one and below 1600.
pub proof fn loops_are_bounded(g: GenView)
    ensures
        ({
            let r = advanced(g.rng);
            let trips = if lucky(g.rng, 15) {
                drawn(r, 1050, 1600)
            } else {
                drawn(r, 1, 40)
            };
            1 <= trips < 1600
        }),
{
}

/// One text begins with another.
pub open spec fn grows(a: Seq<char>, b: Seq<char>) -> bool {
    a.len() <= b.len() && b.subrange(0, a.len() as int) == a
}

proof fn grows_more(a: Seq<char>, b: Seq<char>, c: Seq<char>)
    requires
        grows(a, b),
    ensures
        grows(a, b + c),
{
    assert((b + c).subrange(0, a.len() as int) =~= b.subrange(0, a.len() as int));
}

proof fn grows_five(a: Seq<char>, b: Seq<char>, c: Seq<char>, d: Seq<char>, e: Seq<char>, f: Seq<
    char,
>, g: Seq<char>)
    requires
        grows(a, b),
    ensures
        grows(a, b + c + d + e + f + g),
{
    grows_more(a, b, c);
    grows_more(a, b + c, d);
    grows_more(a, b + c + d, e);
    grows_more(a, b + c + d + e, f);
    grows_more(a, b + c + d + e + f, g);
}

proof fn plain_statements_grow(g: GenView, depth: nat)
    ensures
        grows(g.out, let_stmt_of(g, depth).out),
        grows(g.out, array_stmt_of(g, depth).out),
{
    assert(g.out.subrange(0, g.out.len() as int) =~= g.out);
    let ty = binding_ty(drawn(g.rng, 0, 5));
    let name = fresh_name(prefix_of(ty), g.fresh);
    let v = expr_of(g.scope, advanced(g.rng), ty, depth);
    grows_five(g.out, g.out, "let "@, name, " = "@, v.text, "\n"@);
    let elems = ints_of(g.scope, advanced(g.rng), drawn(g.rng, 1, 6), below(depth));
    let array = fresh_name("a"@, g.fresh);
    grows_five(g.out, g.out, "let "@, array, " = ["@, text::joined(elems.1, ", "@), "]\n"@);
}

proof fn functions_grow(g: GenView, depth: nat)
    ensures
        grows(g.out, fn_stmt_of(g, depth).out),
{
    assert(g.out.subrange(0, g.out.len() as int) =~= g.out);
    let ret = binding_ty(drawn(g.rng, 0, 5));
    let r1 = advanced(g.rng);
    let n = drawn(r1, 1, 3);
    let ps = params_of(advanced(r1), n);
    let name = fresh_name("g"@, g.fresh);
    let e = body_scope(g.scope.fns, ps.1, ps.1.len());
    let may = ps.1[0] == Ty::Int && (ret == Ty::Int || ret == Ty::Float);
    let r3 = if may {
        advanced(ps.0)
    } else {
        ps.0
    };
    let body = if may && lucky(ps.0, 30) {
        rec_body_of(e, r3, name, ps.1, ret)
    } else {
        expr_of(e, r3, ret, depth)
    };
    let names = text::joined(param_names(n), ", "@);
    grows_five(g.out, g.out, "fn "@, name, "("@, names, ") { "@);
    let b = g.out + "fn "@ + name + "("@ + names + ") { "@;
    grows_more(g.out, b, body.text);
    grows_more(g.out, b + body.text, " }\n"@);
}

proof fn loops_grow(g: GenView)
    ensures
        grows(g.out, while_stmt_of(g).out),
{
    assert(g.out.subrange(0, g.out.len() as int) =~= g.out);
    let r1 = advanced(g.rng);
    let trips = if lucky(g.rng, 15) {
        drawn(r1, 1050, 1600)
    } else {
        drawn(r1, 1, 40)
    };
    let acc = fresh_name("acc"@, g.fresh);
    let k = fresh_name("k"@, g.fresh + 1);
    let step = expr_of(g.scope, advanced(r1), Ty::Int, 1);
    let res = fresh_name("i"@, g.fresh + 2);
    grows_five(g.out, g.out, "let "@, res, " = { var "@, acc, " = 0\nvar "@);
    let a = g.out + "let "@ + res + " = { var "@ + acc + " = 0\nvar "@;
    grows_five(g.out, a, k, " = 0\nwhile "@, k, " < "@, text::dec(trips));
    let b = a + k + " = 0\nwhile "@ + k + " < "@ + text::dec(trips);
    grows_five(g.out, b, " { "@, acc, " = "@, acc, " + ("@);
    let c = b + " { "@ + acc + " = "@ + acc + " + ("@;
    grows_five(g.out, c, step.text, ")\n"@, k, " = "@, k);
    let d = c + step.text + ")\n"@ + k + " = "@ + k;
    grows_more(g.out, d, " + 1 }\n"@);
    grows_more(g.out, d + " + 1 }\n"@, acc);
    grows_more(g.out, d + " + 1 }\n"@ + acc, " }\n"@);
}

proof fn sums_grow(g: GenView)
    ensures
        grows(g.out, for_stmt_of(g).out),
{
    assert(g.out.subrange(0, g.out.len() as int) =~= g.out);
    let elems = ints_of(g.scope, advanced(g.rng), drawn(g.rng, 1, 5), 1);
    let list = text::joined(elems.1, ", "@);
    let acc = fresh_name("fa"@, g.fresh);
    let x = fresh_name("x"@, g.fresh + 1);
    let res = fresh_name("i"@, g.fresh + 2);
    grows_five(g.out, g.out, "let "@, res, " = { var "@, acc, " = 0\nfor "@);
    let a = g.out + "let "@ + res + " = { var "@ + acc + " = 0\nfor "@;
    grows_five(g.out, a, x, " in ["@, list, "] { "@, acc);
    let b = a + x + " in ["@ + list + "] { "@ + acc;
    grows_five(g.out, b, " = "@, acc, " + "@, x, " }\n"@);
    let c = b + " = "@ + acc + " + "@ + x + " }\n"@;
    grows_more(g.out, c, acc);
    grows_more(g.out, c + acc, " }\n"@);
}

proof fn records_grow(g: GenView, depth: nat)
    ensures
        grows(g.out, record_stmt_of(g, depth).out),
{
    assert(g.out.subrange(0, g.out.len() as int) =~= g.out);
    let d = below(depth);
    let rec = fresh_name("r"@, g.fresh);
    let p = pair_of(g.scope, g.rng, Ty::Int, Ty::Int, d);
    let v = fresh_name("i"@, g.fresh + 1);
    let upd = expr_of(g.scope, p.1.rng, Ty::Int, d);
    let field = if lucky(upd.rng, 50) {
        "x"@
    } else {
        "y"@
    };
    grows_five(g.out, g.out, "let "@, rec, " = {x: "@, p.0.text, ", y: "@);
    let a = g.out + "let "@ + rec + " = {x: "@ + p.0.text + ", y: "@;
    grows_five(g.out, a, p.1.text, "}\n"@, "let "@, v, " = ({"@);
    let b = a + p.1.text + "}\n"@ + "let "@ + v + " = ({"@;
    grows_five(g.out, b, rec, " .. "@, field, " = "@, upd.text);
    let c = b + rec + " .. "@ + field + " = "@ + upd.text;
    grows_more(g.out, c, "})."@);
    grows_more(g.out, c + "})."@, field);
    grows_more(g.out, c + "})."@ + field, "\n"@);
}

/// A statement only adds to the text, and makes names with new numbers.
pub proof fn statements_extend_the_program(g: GenView, depth: nat)
    ensures
        grows(g.out, stmt_of(g, depth).out),
        g.fresh < stmt_of(g, depth).fresh <= g.fresh + 3,
{
    let h = GenView { rng: advanced(g.rng), ..g };
    plain_statements_grow(h, depth);
    functions_grow(h, depth);
    loops_grow(h);
    sums_grow(h);
    records_grow(h, depth);
}

proof fn stays_wrapped(p: Seq<char>, m: Seq<char>, s: Seq<char>)
    requires
        p.len() > 0,
        p[0] == '(',
        s.len() > 0,
        s.last() == ')',
    ensures
        wrapped(p + m + s),
{
}

/// Whether a text does not begin with a parenthesis.
pub open spec fn bare(s: Seq<char>) -> bool {
    s.len() == 0 || s[0] != '('
}

proof fn bool_leaf_is_bare(e: ScopeView, r: u64, pct: nat)
    requires
        forall|i: int| 0 <= i < e.bools.len() ==> bare(#[trigger] e.bools[i]),
    ensures
        bare(leaf_of(e, r, Ty::Bool, pct).text),
{
    reveal_strlit("true");
    reveal_strlit("false");
}

proof fn comparison_is_wrapped(e: ScopeView, r: u64, ty: Ty, op: Seq<char>, depth: nat)
    ensures
        wrapped(related(e, r, ty, op, depth).text),
{
    reveal_strlit("((");
    reveal_strlit("))");
    let p = pair_of(e, r, ty, ty, depth);
    let m = p.0.text + ") "@ + op + " ("@ + p.1.text;
    stays_wrapped("(("@, m, "))"@);
    assert(related(e, r, ty, op, depth).text =~= "(("@ + m + "))"@);
}

proof fn choice_is_wrapped(e: ScopeView, r: u64, ty: Ty, depth: nat)
    ensures
        wrapped(if_of(e, r, ty, depth).text),
{
    reveal_strlit("(if ");
    reveal_strlit(")");
    let c = cond_of(e, r, depth);
    let p = pair_of(e, c.rng, ty, ty, depth);
    let m = c.text + " then "@ + p.0.text + " else "@ + p.1.text;
    stays_wrapped("(if "@, m, ")"@);
    assert(if_of(e, r, ty, depth).text =~= "(if "@ + m + ")"@);
}

#[verifier::spinoff_prover]
proof fn bool_expr_is_wrapped(e: ScopeView, r: u64, depth: nat)
    requires
        forall|i: int| 0 <= i < e.bools.len() ==> bare(#[trigger] e.bools[i]),
    ensures
        bare(bool_expr_of(e, r, depth).text) || wrapped(bool_expr_of(e, r, depth).text),
{
    let k = drawn(r, 0, 10);
    let r1 = advanced(r);
    let r2 = advanced(r1);
    if k <= 2 {
        comparison_is_wrapped(e, r2, Ty::Int, order_op(drawn(r1, 0, 6)), depth);
    } else if k == 3 {
        comparison_is_wrapped(e, r2, Ty::Float, order_op(drawn(r1, 0, 6)), depth);
    } else if k == 4 {
        comparison_is_wrapped(e, r2, Ty::Str, "=="@, depth);
        comparison_is_wrapped(e, r2, Ty::Str, "!="@, depth);
    } else if k <= 6 {
        comparison_is_wrapped(e, r2, Ty::Bool, "and"@, depth);
        comparison_is_wrapped(e, r2, Ty::Bool, "or"@, depth);
    } else if k == 7 {
        reveal_strlit("(not (");
        reveal_strlit("))");
        let a = expr_of(e, r1, Ty::Bool, depth);
        stays_wrapped("(not ("@, a.text, "))"@);
    } else if k == 8 {
        choice_is_wrapped(e, r1, Ty::Bool, depth);
    } else {
        bool_leaf_is_bare(e, r1, 70);
    }
}

/// A condition never begins with a parenthesis, which the language would not
/// accept, as long as the names in scope do not.
pub proof fn conditions_begin_without_parenthesis(e: ScopeView, r: u64, depth: nat)
    requires
        forall|i: int| 0 <= i < e.bools.len() ==> bare(#[trigger] e.bools[i]),
    ensures
        bare(cond_of(e, r, depth).text),
{
    reveal_strlit("not (not (");
    let c = expr_of(e, r, Ty::Bool, depth);
    if depth == 0 {
        bool_leaf_is_bare(e, r, 60);
    } else if lucky(r, 18) {
        bool_leaf_is_bare(e, advanced(r), 60);
    } else {
        bool_expr_is_wrapped(e, advanced(r), (depth - 1) as nat);
    }
    assert(bare(c.text) || wrapped(c.text));
    if wrapped(c.text) && stripped(c.text).len() > 0 && stripped(c.text)[0] == '(' {
        assert(("not (not ("@ + c.text + "))"@)[0] == 'n');
    }
}

/// The tally of a campaign is consistent whatever the verdicts are.
pub proof fn tallies_are_consistent(base: u64, verdicts: Seq<Verdict>)
    ensures
        consistent(tallied(base, verdicts)),
        tallied(base, verdicts).generated == verdicts.len(),
    decreases verdicts.len(),
{
    if verdicts.len() > 0 {
        tallies_are_consistent(base, verdicts.drop_last());
    }
}

/// The tally counts each verdict once under its kind: agreements, of which those
/// on native code too, programs that cannot be compared, and in the order of the
/// seeds the programs that did not compile and those that diverged.
pub proof fn tallies_count_the_verdicts(base: u64, verdicts: Seq<Verdict>)
    ensures
        ({
            let v = tallied(base, verdicts);
            &&& v.agreed == verdicts.filter(|x: Verdict| x is Agreed).len()
            &&& v.aot_agreed == verdicts.filter(
                |x: Verdict| x matches Verdict::Agreed { aot } && aot,
            ).len()
            &&& v.uncomparable == verdicts.filter(|x: Verdict| x is Uncomparable).len()
            &&& v.compile_failures.len() == verdicts.filter(
                |x: Verdict| x is NotCompiled || x is NothingToCompile,
            ).len()
            &&& v.known_overflow.len() == verdicts.filter(
                |x: Verdict| x matches Verdict::Diverged(m) && is_overflow(m@),
            ).len()
            &&& v.divergences.len() == verdicts.filter(
                |x: Verdict| x matches Verdict::Diverged(m) && !is_overflow(m@),
            ).len()
        }),
    decreases verdicts.len(),
{
    reveal(Seq::filter);
    if verdicts.len() > 0 {
        tallies_count_the_verdicts(base, verdicts.drop_last());
    }
}

/// A divergence is kept with the seed, the program and the message it came with.
pub proof fn divergences_are_kept(base: u64, verdicts: Seq<Verdict>, i: int)
    requires
        0 <= i < verdicts.len(),
        verdicts[i] is Diverged,
    ensures
        ({
            let v = tallied(base, verdicts);
            let seed = seed_at(base, i as nat);
            let d = DivergenceView {
                seed,
                source: program(seed),
                message: (verdicts[i]->Diverged_0)@,
            };
            if is_overflow(d.message) {
                v.known_overflow.contains(d)
            } else {
                v.divergences.contains(d)
            }
        }),
    decreases verdicts.len(),
{
    let rest = verdicts.drop_last();
    let v = tallied(base, verdicts);
    let seed = seed_at(base, i as nat);
    let d = DivergenceView { seed, source: program(seed), message: (verdicts[i]->Diverged_0)@ };
    if i < rest.len() {
        assert(rest[i] == verdicts[i]);
        divergences_are_kept(base, rest, i);
        let w = tallied(base, rest);
        if is_overflow(d.message) {
            let k = choose|k: int| 0 <= k < w.known_overflow.len() && w.known_overflow[k] == d;
            assert(v.known_overflow[k] == d);
        } else {
            let k = choose|k: int| 0 <= k < w.divergences.len() && w.divergences[k] == d;
            assert(v.divergences[k] == d);
        }
    } else {
        if is_overflow(d.message) {
            assert(v.known_overflow[v.known_overflow.len() - 1] == d);
        } else {
            assert(v.divergences[v.divergences.len() - 1] == d);
        }
    }
}

/// Random states do not run into zero and no two states lead to the same one.
pub proof fn random_states_do_not_meet(a: u64, b: u64)
    ensures
        a != 0 ==> advanced(a) != 0,
        advanced(a) == advanced(b) ==> a == b,
{
    let a1 = a ^ (a << 13u64);
    let a2 = a1 ^ (a1 >> 7u64);
    let b1 = b ^ (b << 13u64);
    let b2 = b1 ^ (b1 >> 7u64);
    assert(a2 ^ (a2 << 17u64) == b2 ^ (b2 << 17u64) ==> a2 == b2) by (bit_vector);
    assert(a1 ^ (a1 >> 7u64) == b1 ^ (b1 >> 7u64) ==> a1 == b1) by (bit_vector);
    assert(a ^ (a << 13u64) == b ^ (b << 13u64) ==> a == b) by (bit_vector);
    assert(a2 ^ (a2 << 17u64) == 0 ==> a2 == 0) by (bit_vector);
    assert(a1 ^ (a1 >> 7u64) == 0 ==> a1 == 0) by (bit_vector);
    assert(a ^ (a << 13u64) == 0 ==> a == 0) by (bit_vector);
}

/// A new variable joins those of its type behind the others, and no other type
/// gains one.
pub proof fn new_variables_join_their_type(e: ScopeView, ty: Ty, other: Ty, name: Seq<char>)
    ensures
        vars(with_var(e, ty, name), ty) == vars(e, ty).push(name),
        other != ty ==> vars(with_var(e, ty, name), other) == vars(e, other),
        with_var(e, ty, name).arrays == e.arrays,
        with_var(e, ty, name).fns == e.fns,
{
}

/// A message stays inside its comment: behind every line feed the comment goes
/// on, and nothing of the message is lost.
pub proof fn messages_stay_in_the_comment(s: Seq<char>)
    ensures
        forall|i: int|
            0 <= i < commented(s).len() && #[trigger] commented(s)[i] == '\n' ==> i + 3
                < commented(s).len() && commented(s).subrange(i + 1, i + 4) == seq!['/', '/', ' '],
        commented(s).len() >= s.len(),
    decreases s.len(),
{
    reveal_strlit("\n// ");
    if s.len() > 0 {
        let before = commented(s.drop_last());
        messages_stay_in_the_comment(s.drop_last());
        let all = commented(s);
        assert("\n// "@.len() == 4);
        assert forall|i: int| 0 <= i < all.len() && #[trigger] all[i] == '\n' implies i + 3
            < all.len() && all.subrange(i + 1, i + 4) == seq!['/', '/', ' '] by {
            if i < before.len() {
                assert(before[i] == '\n');
                assert(all.subrange(i + 1, i + 4) =~= before.subrange(i + 1, i + 4));
            } else if s.last() == '\n' {
                assert("\n// "@[1] == '/' && "\n// "@[2] == '/' && "\n// "@[3] == ' ');
                if i == before.len() {
                    assert(all.subrange(i + 1, i + 4) =~= seq!['/', '/', ' ']);
                }
            }
        }
    }
}

/// A kept crasher is filed under its seed and ends with the program; a known
/// overflow is kept apart and told apart.
pub proof fn crashers_hold_their_program(
    found: Crasher,
    seed: u64,
    message: Seq<char>,
    source: Seq<char>,
)
    requires
        is_crasher(found, seed, message, source),
    ensures
        found.known <==> text::occurs(message, "exceeds the 48-bit range"@),
        found.known <==> found.folder@ != ""@,
        found.file_name@ == text::dec(seed as nat) + ".nula"@,
        found.body@.len() > source.len(),
        found.body@.subrange(found.body@.len() - 1 - source.len(), found.body@.len() - 1) == source,
{
    reveal_strlit("\n");
    reveal_strlit("");
    reveal_strlit("known-overflow");
    assert("\n"@.len() == 1);
    let b = found.body@;
    assert(b.subrange(b.len() - 1 - source.len(), b.len() - 1) =~= source);
    assert("known-overflow"@.len() == 14 && ""@.len() == 0);
}

/// The functions that can be called for a type are exactly those that give it
/// and take at most two arguments.
pub proof fn called_functions_give_the_type(fns: Seq<SigView>, ty: Ty, n: nat, i: int)
    requires
        n <= fns.len(),
    ensures
        callable(fns, ty, n).contains(i) <==> 0 <= i < n && fns[i].ret == ty
            && fns[i].params.len() <= 2,
    decreases n,
{
    if n > 0 {
        let before = callable(fns, ty, (n - 1) as nat);
        let now = callable(fns, ty, n);
        called_functions_give_the_type(fns, ty, (n - 1) as nat, i);
        if before.contains(i) {
            let k = choose|k: int| 0 <= k < before.len() && before[k] == i;
            assert(now[k] == i);
        }
        if now.contains(i) {
            let k = choose|k: int| 0 <= k < now.len() && now[k] == i;
            if k < before.len() {
                assert(before[k] == i);
            }
        }
        if fns[n - 1].ret == ty && fns[n - 1].params.len() <= 2 {
            assert(now[before.len() as int] == n - 1);
        }
    }
}

/// A literal shows its type: a truth value is one of two words, a text stands in
/// quotation marks.
pub proof fn literals_show_their_type(r: u64)
    ensures
        lit_of(r, Ty::Bool).text == "true"@ || lit_of(r, Ty::Bool).text == "false"@,
        ({
            let t = lit_of(r, Ty::Str).text;
            t.len() >= 2 && t[0] == '"' && t.last() == '"'
        }),
        text::occurs(lit_of(r, Ty::Float).text, "."@),
{
    draws_are_in_range(r, 0, 10);
    reveal_strlit("\"\"");
    reveal_strlit("\"a\"");
    reveal_strlit("\"b\"");
    reveal_strlit("\"hello\"");
    reveal_strlit("\"xyz\"");
    reveal_strlit("\"0\"");
    reveal_strlit("\"-1\"");
    reveal_strlit("\"foo bar\"");
    reveal_strlit("\"aBc\"");
    reveal_strlit("\"  \"");
    float_literals_have_a_point(r);
}

proof fn point_at(t: Seq<char>, i: int)
    requires
        0 <= i < t.len(),
        t[i] == '.',
    ensures
        text::occurs(t, "."@),
{
    reveal_strlit(".");
    assert(t.subrange(i, i + 1) =~= "."@);
    assert(text::occurs_at(t, "."@, i));
}

proof fn float_literals_have_a_point(r: u64)
    ensures
        text::occurs(float_lit_of(r).text, "."@),
{
    let r1 = advanced(r);
    let t = float_lit_of(r).text;
    if lucky(r, 60) {
        draws_are_in_range(r1, 0, 15);
        reveal_strlit("0.0");
        reveal_strlit("-0.0");
        reveal_strlit("1.0");
        reveal_strlit("-1.0");
        reveal_strlit("0.5");
        reveal_strlit("1.5");
        reveal_strlit("-2.5");
        reveal_strlit("3.14");
        reveal_strlit("0.1");
        reveal_strlit("0.2");
        reveal_strlit("2.0");
        reveal_strlit("10.0");
        reveal_strlit("123456.789");
        reveal_strlit("-98765.4321");
        reveal_strlit("1000000000.5");
        let k = drawn(r1, 0, 15) as int;
        let at: int = if k == 12 || k == 13 {
            6
        } else if k == 14 {
            10
        } else if k == 1 || k == 3 || k == 6 || k == 11 {
            2
        } else {
            1
        };
        assert(t[at] == '.');
        point_at(t, at);
    } else {
        let r2 = advanced(r1);
        let whole = text::dec((r2 % 10_000) as nat);
        let n = whole.len() as int;
        reveal_strlit(".");
        reveal_strlit("-");
        if t[n] == '.' {
            point_at(t, n);
        } else {
            assert(t[n + 1] == '.');
            point_at(t, n + 1);
        }
    }
}

/// A leaf is a variable of its type in scope, or a literal of its type.
pub proof fn leaves_are_in_scope(e: ScopeView, r: u64, ty: Ty, pct: nat)
    ensures
        vars(e, ty).contains(leaf_of(e, r, ty, pct).text) || leaf_of(e, r, ty, pct).text == lit_of(
            r,
            ty,
        ).text || leaf_of(e, r, ty, pct).text == lit_of(advanced(r), ty).text,
{
    let names = vars(e, ty);
    if names.len() > 0 {
        draws_are_in_range(advanced(r), 0, names.len());
    }
}

} // verus!
