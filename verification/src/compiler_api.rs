//! The embedded compiler: the order of its gates and the decisions between them.
//!
//! A [`Compilation`] says what the front end is to do next and takes its answer.
//! Nothing is compiled unless every gate was passed, and a module that imports
//! others is turned away before any of them.

use vstd::prelude::*;

use crate::ast::{Behavior, Decl, ExprId, Param, WorkflowItem, WorkflowStep};
use crate::text::{self, cat3, clone_strings, push_dec, text};
use crate::types::{NuError, NuResult, Span};

verus! {

/// A capability check: the names that are bound with a capability and the
/// expression that is checked under them.
#[derive(Debug, PartialEq, Eq)]
pub struct CapCheck {
    pub bindings: Vec<(String, String)>,
    pub body: ExprId,
}

/// The content of a [`CapCheck`].
#[verifier::ext_equal]
pub struct CheckView {
    pub bindings: Seq<(Seq<char>, Seq<char>)>,
    pub body: ExprId,
}

/// The contents of bindings.
pub open spec fn binding_views(v: Seq<(String, String)>) -> Seq<(Seq<char>, Seq<char>)> {
    v.map_values(|b: (String, String)| (b.0@, b.1@))
}

impl View for CapCheck {
    type V = CheckView;

    open spec fn view(&self) -> CheckView {
        CheckView { bindings: binding_views(self.bindings@), body: self.body }
    }
}

/// The contents of a list of checks.
pub open spec fn check_views(v: Seq<CapCheck>) -> Seq<CheckView> {
    v.map_values(|c: CapCheck| c@)
}

/// The bindings of the first `n` parameters that declare a capability.
pub open spec fn seeded(params: Seq<Param>, n: nat) -> Seq<(Seq<char>, Seq<char>)>
    decreases n,
{
    if n == 0 || n > params.len() {
        Seq::empty()
    } else {
        let before = seeded(params, (n - 1) as nat);
        match params[n - 1].cap {
            Some(c) => before.push((params[n - 1].name@, c@)),
            None => before,
        }
    }
}

/// A check of an expression under no bindings.
pub open spec fn bare(body: ExprId) -> CheckView {
    CheckView { bindings: Seq::empty(), body }
}

/// A check of a body under the bindings of its parameters.
pub open spec fn under(params: Seq<Param>, body: ExprId) -> CheckView {
    CheckView { bindings: seeded(params, params.len()), body }
}

/// The checks of a workflow step: its body, then its compensation.
pub open spec fn step_checks(step: WorkflowStep) -> Seq<CheckView> {
    match step.compensate {
        Some(c) => seq![bare(step.body), bare(c)],
        None => seq![bare(step.body)],
    }
}

/// The checks of the first `n` steps.
pub open spec fn steps_checks(steps: Seq<WorkflowStep>, n: nat) -> Seq<CheckView>
    decreases n,
{
    if n == 0 || n > steps.len() {
        Seq::empty()
    } else {
        steps_checks(steps, (n - 1) as nat) + step_checks(steps[n - 1])
    }
}

/// The checks of the first `n` items of a workflow.
pub open spec fn items_checks(items: Seq<WorkflowItem>, n: nat) -> Seq<CheckView>
    decreases n,
{
    if n == 0 || n > items.len() {
        Seq::empty()
    } else {
        items_checks(items, (n - 1) as nat) + match items[n - 1] {
            WorkflowItem::Step(step) => step_checks(step),
            WorkflowItem::Parallel(steps) => steps_checks(steps@, steps@.len()),
        }
    }
}

/// The checks of a declaration other than a module: function bodies, behaviors,
/// state defaults, initial values, workflow steps and compensations.
pub open spec fn own_checks(decl: Decl) -> Seq<CheckView> {
    match decl {
        Decl::Function { params, body, .. } => seq![under(params@, body)],
        Decl::Actor { behaviors, state_defaults, init, .. } => behaviors@.map_values(
            |b: Behavior| under(b.params@, b.body),
        ) + state_defaults@.map_values(|e: ExprId| bare(e)) + init@.map_values(
            |e: ExprId| bare(e),
        ),
        Decl::Workflow { items, compensate, .. } => items_checks(items@, items@.len())
            + match compensate {
            Some(c) => seq![bare(c)],
            None => Seq::empty(),
        },
        _ => Seq::empty(),
    }
}

/// The checks of the first `n` declarations in order, nested modules included.
pub open spec fn planned(decls: Seq<Decl>, n: nat) -> Seq<CheckView>
    decreases decls, n,
{
    if n == 0 || n > decls.len() {
        Seq::empty()
    } else {
        planned(decls, (n - 1) as nat) + match decls[n - 1] {
            Decl::Module { decls: nested, .. } => planned(nested@, nested@.len()),
            d => own_checks(d),
        }
    }
}

/// The first import among the first `n` declarations, nested modules included.
pub open spec fn first_import(decls: Seq<Decl>, n: nat) -> Option<(Seq<char>, Span)>
    decreases decls, n,
{
    if n == 0 || n > decls.len() {
        None
    } else {
        match first_import(decls, (n - 1) as nat) {
            Some(i) => Some(i),
            None => match decls[n - 1] {
                Decl::Import { path, span } => Some((path@, span)),
                Decl::Module { decls: nested, .. } => first_import(nested@, nested@.len()),
                _ => None,
            },
        }
    }
}

proof fn import_stays(decls: Seq<Decl>, m: nat, n: nat)
    requires
        m <= n <= decls.len(),
        first_import(decls, m) is Some,
    ensures
        first_import(decls, n) == first_import(decls, m),
    decreases n,
{
    if m < n {
        import_stays(decls, m, (n - 1) as nat);
    }
}

/// The first import of a module, see [`first_import`].
pub fn find_import(decls: &Vec<Decl>) -> (r: Option<(String, Span)>)
    ensures
        (match r {
            Some((p, s)) => Some((p@, s)),
            None => None,
        }) == first_import(decls@, decls@.len()),
    decreases decls,
{
    let mut i: usize = 0;
    while i < decls.len()
        invariant
            i <= decls@.len(),
            first_import(decls@, i as nat) is None,
        decreases decls@.len() - i,
    {
        match &decls[i] {
            Decl::Import { path, span } => {
                proof {
                    import_stays(decls@, (i + 1) as nat, decls@.len());
                }
                return Some((text(path.as_str()), *span));
            },
            Decl::Module { decls: nested, .. } => {
                let found: Option<(String, Span)> = find_import(nested);
                if found.is_some() {
                    proof {
                        import_stays(decls@, (i + 1) as nat, decls@.len());
                    }
                    return found;
                }
            },
            _ => {},
        }
        i = i + 1;
    }
    None
}

/// Whether a declaration is a variant type.
pub open spec fn is_variant(d: Decl) -> bool {
    d is VariantType
}

/// The variant types of the prelude in front of a module's own declarations.
pub open spec fn injected(prelude: Seq<Decl>, decls: Seq<Decl>) -> Seq<Decl> {
    prelude.filter(|d: Decl| is_variant(d)) + decls
}

/// Puts the variant types of the prelude in front, see [`injected`].
pub fn inject_prelude(prelude: Vec<Decl>, decls: Vec<Decl>) -> (r: Vec<Decl>)
    ensures
        r@ == injected(prelude@, decls@),
{
    let ghost all = prelude@;
    let ghost p = |d: Decl| is_variant(d);
    let mut rest: Vec<Decl> = prelude;
    let mut own: Vec<Decl> = decls;
    let mut out: Vec<Decl> = Vec::new();
    let ghost mut done: int = 0;
    proof {
        reveal(Seq::filter);
        assert(all.skip(0) =~= all);
        assert(out@ =~= all.take(0).filter(p));
    }
    while rest.len() > 0
        invariant
            p == (|d: Decl| is_variant(d)),
            0 <= done <= all.len(),
            rest@ == all.skip(done),
            out@ == all.take(done).filter(p),
        decreases rest@.len(),
    {
        let d: Decl = rest.remove(0);
        proof {
            reveal(Seq::filter);
            assert(all.skip(done)[0] == all[done]);
            assert(all.skip(done).skip(1) =~= all.skip(done + 1));
            assert(rest@ =~= all.skip(done + 1));
            assert(all.take(done + 1).drop_last() =~= all.take(done));
            assert(all.take(done + 1).last() == all[done]);
            done = done + 1;
        }
        let keep: bool = match &d {
            Decl::VariantType { .. } => true,
            _ => false,
        };
        if keep {
            out.push(d);
        }
    }
    assert(all.take(done) =~= all);
    out.append(&mut own);
    out
}

fn bindings_of(params: &Vec<Param>) -> (r: Vec<(String, String)>)
    ensures
        binding_views(r@) == seeded(params@, params@.len()),
{
    let mut out: Vec<(String, String)> = Vec::new();
    let mut i: usize = 0;
    assert(binding_views(out@) =~= Seq::empty());
    while i < params.len()
        invariant
            i <= params@.len(),
            binding_views(out@) == seeded(params@, i as nat),
        decreases params@.len() - i,
    {
        let ghost before = binding_views(out@);
        match &params[i].cap {
            Some(c) => {
                out.push((text(params[i].name.as_str()), text(c.as_str())));
                assert(binding_views(out@) =~= before.push(
                    (params@[i as int].name@, params@[i as int].cap->0@),
                ));
            },
            None => {},
        }
        i = i + 1;
    }
    out
}

fn push_bare(out: &mut Vec<CapCheck>, body: ExprId)
    ensures
        check_views(final(out)@) == check_views(old(out)@).push(bare(body)),
{
    let ghost before = check_views(out@);
    let c: CapCheck = CapCheck { bindings: Vec::new(), body };
    assert(c@ =~= bare(body)) by {
        assert(binding_views(c.bindings@) =~= Seq::empty());
    }
    out.push(c);
    assert(check_views(out@) =~= before.push(bare(body)));
}

fn push_under(out: &mut Vec<CapCheck>, params: &Vec<Param>, body: ExprId)
    ensures
        check_views(final(out)@) == check_views(old(out)@).push(under(params@, body)),
{
    let ghost before = check_views(out@);
    let c: CapCheck = CapCheck { bindings: bindings_of(params), body };
    out.push(c);
    assert(check_views(out@) =~= before.push(under(params@, body)));
}

fn push_step(out: &mut Vec<CapCheck>, step: &WorkflowStep)
    ensures
        check_views(final(out)@) == check_views(old(out)@) + step_checks(*step),
{
    let ghost before = check_views(out@);
    push_bare(out, step.body);
    match step.compensate {
        Some(c) => {
            push_bare(out, c);
        },
        None => {},
    }
    assert(check_views(out@) =~= before + step_checks(*step));
}

fn push_bodies(out: &mut Vec<CapCheck>, bodies: &Vec<ExprId>)
    ensures
        check_views(final(out)@) == check_views(old(out)@) + bodies@.map_values(
            |e: ExprId| bare(e),
        ),
{
    let ghost start = check_views(out@);
    let ghost want = bodies@.map_values(|e: ExprId| bare(e));
    let mut i: usize = 0;
    assert(start + want.take(0) =~= start);
    while i < bodies.len()
        invariant
            want == bodies@.map_values(|e: ExprId| bare(e)),
            i <= bodies@.len(),
            check_views(out@) == start + want.take(i as int),
        decreases bodies@.len() - i,
    {
        push_bare(out, bodies[i]);
        i = i + 1;
        assert(check_views(out@) =~= start + want.take(i as int));
    }
    assert(want.take(bodies@.len() as int) =~= want);
}

fn push_behaviors(out: &mut Vec<CapCheck>, behaviors: &Vec<Behavior>)
    ensures
        check_views(final(out)@) == check_views(old(out)@) + behaviors@.map_values(
            |b: Behavior| under(b.params@, b.body),
        ),
{
    let ghost start = check_views(out@);
    let ghost want = behaviors@.map_values(|b: Behavior| under(b.params@, b.body));
    let mut i: usize = 0;
    assert(start + want.take(0) =~= start);
    while i < behaviors.len()
        invariant
            want == behaviors@.map_values(|b: Behavior| under(b.params@, b.body)),
            i <= behaviors@.len(),
            check_views(out@) == start + want.take(i as int),
        decreases behaviors@.len() - i,
    {
        push_under(out, &behaviors[i].params, behaviors[i].body);
        i = i + 1;
        assert(check_views(out@) =~= start + want.take(i as int));
    }
    assert(want.take(behaviors@.len() as int) =~= want);
}

fn push_items(out: &mut Vec<CapCheck>, items: &Vec<WorkflowItem>)
    ensures
        check_views(final(out)@) == check_views(old(out)@) + items_checks(items@, items@.len()),
{
    let ghost start = check_views(out@);
    let mut i: usize = 0;
    assert(start + items_checks(items@, 0) =~= start);
    while i < items.len()
        invariant
            i <= items@.len(),
            check_views(out@) == start + items_checks(items@, i as nat),
        decreases items@.len() - i,
    {
        let ghost before = check_views(out@);
        match &items[i] {
            WorkflowItem::Step(step) => {
                push_step(out, step);
            },
            WorkflowItem::Parallel(steps) => {
                let mut j: usize = 0;
                assert(before + steps_checks(steps@, 0) =~= before);
                while j < steps.len()
                    invariant
                        j <= steps@.len(),
                        check_views(out@) == before + steps_checks(steps@, j as nat),
                    decreases steps@.len() - j,
                {
                    let ghost inner = check_views(out@);
                    push_step(out, &steps[j]);
                    j = j + 1;
                    assert(check_views(out@) =~= before + steps_checks(steps@, j as nat));
                }
            },
        }
        i = i + 1;
        assert(check_views(out@) =~= start + items_checks(items@, i as nat));
    }
}

fn push_own(out: &mut Vec<CapCheck>, decl: &Decl)
    requires
        !(*decl is Module),
    ensures
        check_views(final(out)@) == check_views(old(out)@) + own_checks(*decl),
{
    let ghost before = check_views(out@);
    match decl {
        Decl::Function { params, body, .. } => {
            push_under(out, params, *body);
        },
        Decl::Actor { behaviors, state_defaults, init, .. } => {
            push_behaviors(out, behaviors);
            push_bodies(out, state_defaults);
            push_bodies(out, init);
        },
        Decl::Workflow { items, compensate, .. } => {
            push_items(out, items);
            match compensate {
                Some(c) => {
                    push_bare(out, *c);
                },
                None => {},
            }
        },
        _ => {},
    }
    assert(check_views(out@) =~= before + own_checks(*decl));
}

fn collect_checks(decls: &Vec<Decl>, out: &mut Vec<CapCheck>)
    ensures
        check_views(final(out)@) == check_views(old(out)@) + planned(decls@, decls@.len()),
    decreases decls,
{
    let ghost start = check_views(out@);
    let mut i: usize = 0;
    assert(start + planned(decls@, 0) =~= start);
    while i < decls.len()
        invariant
            i <= decls@.len(),
            check_views(out@) == start + planned(decls@, i as nat),
        decreases decls@.len() - i,
    {
        let ghost before = check_views(out@);
        match &decls[i] {
            Decl::Module { decls: nested, .. } => {
                collect_checks(nested, out);
            },
            d => {
                push_own(out, d);
            },
        }
        i = i + 1;
        assert(check_views(out@) =~= start + planned(decls@, i as nat));
    }
}

/// The capability checks of a module, see [`planned`].
pub fn capability_plan(decls: &Vec<Decl>) -> (r: Vec<CapCheck>)
    ensures
        check_views(r@) == planned(decls@, decls@.len()),
{
    let mut out: Vec<CapCheck> = Vec::new();
    collect_checks(decls, &mut out);
    assert(check_views(Seq::<CapCheck>::empty()) + planned(decls@, decls@.len()) =~= planned(
        decls@,
        decls@.len(),
    ));
    out
}

// ---------------------------------------------------------------------------
// The order of the gates
// ---------------------------------------------------------------------------

/// Where a compilation stands: what it waits for.
#[derive(Debug, Clone, Copy, PartialEq, Eq, Structural)]
pub enum Phase {
    ParsePrelude,
    ParseSource,
    CheckTypes,
    CheckEffects,
    CheckRoutes,
    CheckBody(usize),
    Emit,
    Finished,
}

/// A compilation under way.
#[derive(Debug, PartialEq, Eq)]
pub struct Compilation {
    source: String,
    module_name: String,
    grants: Vec<String>,
    phase: Phase,
    prelude: Vec<Decl>,
    decls: Vec<Decl>,
    plan: Vec<CapCheck>,
}

/// The content of a [`Compilation`].
#[verifier::ext_equal]
pub struct CompilationView {
    pub source: Seq<char>,
    pub module_name: Seq<char>,
    pub grants: Seq<Seq<char>>,
    pub phase: Phase,
    pub prelude: Seq<Decl>,
    pub decls: Seq<Decl>,
    pub plan: Seq<CheckView>,
}

impl View for Compilation {
    type V = CompilationView;

    closed spec fn view(&self) -> CompilationView {
        CompilationView {
            source: self.source@,
            module_name: self.module_name@,
            grants: text::views(self.grants@),
            phase: self.phase,
            prelude: self.prelude@,
            decls: self.decls@,
            plan: check_views(self.plan@),
        }
    }
}

/// What the front end answers.
pub enum Answer {
    /// The declarations of a text.
    Parsed(NuResult<Vec<Decl>>),
    /// A check was passed or not.
    Checked(NuResult<()>),
    /// The number of route parameters that do not match.
    Routes(usize),
    /// The bytes of the compiled module.
    Emitted(NuResult<Vec<u8>>),
}

/// How a compilation goes on.
pub enum Outcome {
    /// The next gate is open.
    Continue,
    /// The compilation failed.
    Failed(NuError),
    /// The module was compiled.
    Compiled(Vec<u8>),
    /// The answer does not fit what was asked; nothing changed.
    Unexpected,
}

/// The message that turns an import away.
pub open spec fn import_message(path: Seq<char>) -> Seq<char> {
    "embedded source-only compilation does not resolve import '"@ + path
        + "'; resolve an explicit source bundle before compilation"@
}

/// The message on routes that do not match.
pub open spec fn route_message(n: nat) -> Seq<char> {
    text::dec(n) + " route parameter mismatch(es) detected during embedded compilation"@
}

/// Whether an error turns an import away.
pub open spec fn is_import_error(e: NuError, found: (Seq<char>, Span)) -> bool {
    e matches NuError::ParseError { msg, span, expected, found: f } && msg@ == import_message(
        found.0,
    ) && span == found.1 && expected is None && f is None
}

/// Whether an error reports routes that do not match.
pub open spec fn is_route_error(e: NuError, n: nat) -> bool {
    e matches NuError::TypeError { msg, span, expected_type, found_type, similar_names } && msg@
        == route_message(n) && span == (Span { start: 0, end: 0 }) && expected_type is None
        && found_type is None && similar_names is None
}

/// The phase after the routes: the first body to check, or the end.
pub open spec fn after_routes(plan: Seq<CheckView>) -> Phase {
    if plan.len() == 0 {
        Phase::Emit
    } else {
        Phase::CheckBody(0)
    }
}

/// The phase after body `i`.
pub open spec fn after_body(plan: Seq<CheckView>, i: usize) -> Phase {
    if i + 1 < plan.len() {
        Phase::CheckBody((i + 1) as usize)
    } else {
        Phase::Emit
    }
}

/// Whether an answer takes a compilation from `v` to `w` with an outcome.
pub open spec fn stepped(
    v: CompilationView,
    answer: Answer,
    w: CompilationView,
    out: Outcome,
) -> bool {
    let failed = CompilationView { phase: Phase::Finished, ..v };
    match (v.phase, answer) {
        (Phase::ParsePrelude, Answer::Parsed(Ok(decls))) => w == (CompilationView {
            phase: Phase::ParseSource,
            prelude: decls@,
            ..v
        }) && out == Outcome::Continue,
        (Phase::ParsePrelude, Answer::Parsed(Err(e))) => w == failed && out == Outcome::Failed(e),
        (Phase::ParseSource, Answer::Parsed(Ok(decls))) => match first_import(
            decls@,
            decls@.len(),
        ) {
            Some(found) => w == failed && (out matches Outcome::Failed(e) && is_import_error(
                e,
                found,
            )),
            None => w == (CompilationView {
                phase: Phase::CheckTypes,
                prelude: Seq::empty(),
                decls: injected(v.prelude, decls@),
                ..v
            }) && out == Outcome::Continue,
        },
        (Phase::ParseSource, Answer::Parsed(Err(e))) => w == failed && out == Outcome::Failed(e),
        (Phase::CheckTypes, Answer::Checked(Ok(_))) => w == (CompilationView {
            phase: Phase::CheckEffects,
            ..v
        }) && out == Outcome::Continue,
        (Phase::CheckTypes, Answer::Checked(Err(e))) => w == failed && out == Outcome::Failed(e),
        (Phase::CheckEffects, Answer::Checked(Ok(_))) => w == (CompilationView {
            phase: Phase::CheckRoutes,
            ..v
        }) && out == Outcome::Continue,
        (Phase::CheckEffects, Answer::Checked(Err(e))) => w == failed && out == Outcome::Failed(e),
        (Phase::CheckRoutes, Answer::Routes(n)) => if n > 0 {
            w == failed && (out matches Outcome::Failed(e) && is_route_error(e, n as nat))
        } else {
            let plan = planned(v.decls, v.decls.len());
            w == (CompilationView { phase: after_routes(plan), plan, ..v }) && out
                == Outcome::Continue && plan.len() <= usize::MAX
        },
        (Phase::CheckBody(i), Answer::Checked(Ok(_))) => w == (CompilationView {
            phase: after_body(v.plan, i),
            ..v
        }) && out == Outcome::Continue,
        (Phase::CheckBody(_), Answer::Checked(Err(e))) => w == failed && out == Outcome::Failed(e),
        (Phase::Emit, Answer::Emitted(Ok(bytes))) => w == failed && out == Outcome::Compiled(bytes),
        (Phase::Emit, Answer::Emitted(Err(e))) => w == failed && out == Outcome::Failed(e),
        _ => w == v && out == Outcome::Unexpected,
    }
}

/// A compilation that waits for its prelude.
pub open spec fn started(source: Seq<char>, module_name: Seq<char>, grants: Seq<Seq<char>>) -> CompilationView {
    CompilationView {
        source,
        module_name,
        grants,
        phase: Phase::ParsePrelude,
        prelude: Seq::empty(),
        decls: Seq::empty(),
        plan: Seq::empty(),
    }
}

/// What the front end is to do next.
pub enum Action<'a> {
    ParsePrelude,
    ParseSource(&'a str),
    CheckTypes(&'a Vec<Decl>),
    CheckEffects(&'a Vec<Decl>, &'a Vec<String>),
    CheckRoutes(&'a Vec<Decl>),
    CheckBody(&'a CapCheck),
    Emit(&'a Vec<Decl>, &'a str),
    Nothing,
}

/// Whether an action is what a compilation waits for.
pub open spec fn asks(v: CompilationView, a: Action) -> bool {
    match v.phase {
        Phase::ParsePrelude => a is ParsePrelude,
        Phase::ParseSource => a matches Action::ParseSource(s) && s@ == v.source,
        Phase::CheckTypes => a matches Action::CheckTypes(d) && d@ == v.decls,
        Phase::CheckEffects => a matches Action::CheckEffects(d, g) && d@ == v.decls
            && text::views(g@) == v.grants,
        Phase::CheckRoutes => a matches Action::CheckRoutes(d) && d@ == v.decls,
        Phase::CheckBody(i) => if i < v.plan.len() {
            a matches Action::CheckBody(c) && c@ == v.plan[i as int]
        } else {
            a is Nothing
        },
        Phase::Emit => a matches Action::Emit(d, n) && d@ == v.decls && n@ == v.module_name,
        Phase::Finished => a is Nothing,
    }
}

impl Compilation {
    /// A compilation of one self-contained source text with explicit grants.
    pub fn new(source: &str, module_name: &str, grants: &Vec<String>) -> (r: Self)
        ensures
            r@ == started(source@, module_name@, text::views(grants@)),
    {
        let r: Compilation = Compilation {
            source: text(source),
            module_name: text(module_name),
            grants: clone_strings(grants),
            phase: Phase::ParsePrelude,
            prelude: Vec::new(),
            decls: Vec::new(),
            plan: Vec::new(),
        };
        assert(r@ =~= started(source@, module_name@, text::views(grants@)));
        r
    }

    /// What the front end is to do next, see [`asks`].
    pub fn action(&self) -> (r: Action<'_>)
        ensures
            asks(self@, r),
    {
        match self.phase {
            Phase::ParsePrelude => Action::ParsePrelude,
            Phase::ParseSource => Action::ParseSource(self.source.as_str()),
            Phase::CheckTypes => Action::CheckTypes(&self.decls),
            Phase::CheckEffects => Action::CheckEffects(&self.decls, &self.grants),
            Phase::CheckRoutes => Action::CheckRoutes(&self.decls),
            Phase::CheckBody(i) => if i < self.plan.len() {
                Action::CheckBody(&self.plan[i])
            } else {
                Action::Nothing
            },
            Phase::Emit => Action::Emit(&self.decls, self.module_name.as_str()),
            Phase::Finished => Action::Nothing,
        }
    }

    /// Takes the answer of the front end, see [`stepped`].
    pub fn step(&mut self, answer: Answer) -> (out: Outcome)
        ensures
            stepped(old(self)@, answer, final(self)@, out),
    {
        match (self.phase, answer) {
            (Phase::ParsePrelude, Answer::Parsed(parsed)) => match parsed {
                Ok(decls) => {
                    self.prelude = decls;
                    self.phase = Phase::ParseSource;
                    Outcome::Continue
                },
                Err(e) => self.fail(e),
            },
            (Phase::ParseSource, Answer::Parsed(parsed)) => match parsed {
                Ok(decls) => match find_import(&decls) {
                    Some((path, span)) => {
                        let msg: String = cat3(
                            "embedded source-only compilation does not resolve import '",
                            path.as_str(),
                            "'; resolve an explicit source bundle before compilation",
                        );
                        self.fail(NuError::parse_error(msg, span))
                    },
                    None => {
                        let mut prelude: Vec<Decl> = Vec::new();
                        std::mem::swap(&mut prelude, &mut self.prelude);
                        self.decls = inject_prelude(prelude, decls);
                        self.phase = Phase::CheckTypes;
                        Outcome::Continue
                    },
                },
                Err(e) => self.fail(e),
            },
            (Phase::CheckTypes, Answer::Checked(checked)) => match checked {
                Ok(_) => {
                    self.phase = Phase::CheckEffects;
                    Outcome::Continue
                },
                Err(e) => self.fail(e),
            },
            (Phase::CheckEffects, Answer::Checked(checked)) => match checked {
                Ok(_) => {
                    self.phase = Phase::CheckRoutes;
                    Outcome::Continue
                },
                Err(e) => self.fail(e),
            },
            (Phase::CheckRoutes, Answer::Routes(n)) => {
                if n > 0 {
                    let mut msg: String = String::new();
                    push_dec(&mut msg, n as u64);
                    assert(msg@ =~= text::dec(n as nat));
                    msg.append(
                        " route parameter mismatch(es) detected during embedded compilation",
                    );
                    self.fail(
                        NuError::TypeError {
                            msg,
                            span: Span::new(0, 0),
                            expected_type: None,
                            found_type: None,
                            similar_names: None,
                        },
                    )
                } else {
                    self.plan = capability_plan(&self.decls);
                    assert(check_views(self.plan@).len() == self.plan.len());
                    self.phase = if self.plan.len() == 0 {
                        Phase::Emit
                    } else {
                        Phase::CheckBody(0)
                    };
                    Outcome::Continue
                }
            },
            (Phase::CheckBody(i), Answer::Checked(checked)) => match checked {
                Ok(_) => {
                    self.phase = if self.plan.len() > 0 && i < self.plan.len() - 1 {
                        Phase::CheckBody(i + 1)
                    } else {
                        Phase::Emit
                    };
                    Outcome::Continue
                },
                Err(e) => self.fail(e),
            },
            (Phase::Emit, Answer::Emitted(emitted)) => {
                self.phase = Phase::Finished;
                match emitted {
                    Ok(bytes) => Outcome::Compiled(bytes),
                    Err(e) => Outcome::Failed(e),
                }
            },
            _ => Outcome::Unexpected,
        }
    }

    fn fail(&mut self, e: NuError) -> (out: Outcome)
        ensures
            final(self)@ == (CompilationView { phase: Phase::Finished, ..old(self)@ }),
            out == Outcome::Failed(e),
    {
        self.phase = Phase::Finished;
        Outcome::Failed(e)
    }
}

// ---------------------------------------------------------------------------
// Runs
// ---------------------------------------------------------------------------

/// Whether `trail` holds the states that the answers lead through, each with
/// the outcome `Continue`, beginning with `start`.
pub open spec fn walks(start: CompilationView, answers: Seq<Answer>, trail: Seq<CompilationView>) -> bool {
    &&& trail.len() == answers.len() + 1
    &&& trail[0] == start
    &&& forall|i: int|
        0 <= i < answers.len() ==> walk_step(answers, trail, i)
}

/// One step of a walk.
pub open spec fn walk_step(answers: Seq<Answer>, trail: Seq<CompilationView>, i: int) -> bool {
    stepped(trail[i], answers[i], trail[i + 1], Outcome::Continue)
}

/// Whether an answer is what the front end returned when it was asked for what
/// a compilation in this state needs.
pub open spec fn answered_by<F: FrontEnd>(v: CompilationView, a: Answer) -> bool {
    match v.phase {
        Phase::ParsePrelude => a matches Answer::Parsed(p) && exists|f: &mut F| #[trigger]
            call_ensures(F::parse_prelude, (f,), p),
        Phase::ParseSource => a matches Answer::Parsed(p) && exists|f: &mut F, source: &str|
            source@ == v.source && #[trigger] call_ensures(F::parse_source, (f, source), p),
        Phase::CheckTypes => a matches Answer::Checked(c) && exists|f: &mut F, decls: &Vec<Decl>|
            decls@ == v.decls && #[trigger] call_ensures(F::check_types, (f, decls), c),
        Phase::CheckEffects => a matches Answer::Checked(c) && exists|
            f: &mut F,
            decls: &Vec<Decl>,
            grants: &Vec<String>,
        |
            decls@ == v.decls && text::views(grants@) == v.grants && #[trigger] call_ensures(
                F::check_effects,
                (f, decls, grants),
                c,
            ),
        Phase::CheckRoutes => exists|f: &mut F, decls: &Vec<Decl>, n: usize|
            decls@ == v.decls && a == Answer::Routes(n) && #[trigger] call_ensures(
                F::check_routes,
                (f, decls),
                n,
            ),
        Phase::CheckBody(i) => i < v.plan.len() ==> (a matches Answer::Checked(c) && exists|
            f: &mut F,
            check: &CapCheck,
        |
            check@ == v.plan[i as int] && #[trigger] call_ensures(F::check_body, (f, check), c)),
        Phase::Emit => a matches Answer::Emitted(e) && exists|
            f: &mut F,
            decls: &Vec<Decl>,
            name: &str,
        |
            decls@ == v.decls && name@ == v.module_name && #[trigger] call_ensures(
                F::emit,
                (f, decls, name),
                e,
            ),
        Phase::Finished => true,
    }
}

/// Whether a compilation that starts like this can end in an outcome: a front
/// end gave answers that lead to it, each to the question at hand.
pub open spec fn ends_with<F: FrontEnd>(start: CompilationView, out: Outcome) -> bool {
    exists|answers: Seq<Answer>, trail: Seq<CompilationView>, last: Answer, end: CompilationView|
        #[trigger] walks(start, answers, trail) && #[trigger] stepped(
            trail.last(),
            last,
            end,
            out,
        ) && asked_all::<F>(answers, trail) && answered_by::<F>(trail.last(), last)
}

/// Whether every answer of a walk came from the front end.
pub open spec fn asked_all<F: FrontEnd>(answers: Seq<Answer>, trail: Seq<CompilationView>) -> bool {
    forall|i: int|
        0 <= i < answers.len() ==> #[trigger] answered_by::<F>(trail[i], answers[i])
}

/// The front end of the compiler.
pub trait FrontEnd {
    fn parse_prelude(&mut self) -> NuResult<Vec<Decl>>;

    fn parse_source(&mut self, source: &str) -> NuResult<Vec<Decl>>;

    fn check_types(&mut self, decls: &Vec<Decl>) -> NuResult<()>;

    fn check_effects(&mut self, decls: &Vec<Decl>, grants: &Vec<String>) -> NuResult<()>;

    fn check_routes(&mut self, decls: &Vec<Decl>) -> usize;

    fn check_body(&mut self, check: &CapCheck) -> NuResult<()>;

    fn emit(&mut self, decls: &Vec<Decl>, module_name: &str) -> NuResult<Vec<u8>>;
}

/// How far a phase is from the end.
pub open spec fn rank(p: Phase) -> nat {
    match p {
        Phase::ParsePrelude => 7,
        Phase::ParseSource => 6,
        Phase::CheckTypes => 5,
        Phase::CheckEffects => 4,
        Phase::CheckRoutes => 3,
        Phase::CheckBody(_) => 2,
        Phase::Emit => 1,
        Phase::Finished => 0,
    }
}

/// How many bodies are still to be checked.
pub open spec fn bodies_left(v: CompilationView) -> nat {
    match v.phase {
        Phase::CheckBody(i) => if i < v.plan.len() {
            (v.plan.len() - i) as nat
        } else {
            0
        },
        _ => 0,
    }
}

fn ask<F: FrontEnd>(session: &Compilation, front: &mut F) -> (r: Option<Answer>)
    ensures
        under_way(session@) ==> (r matches Some(a) && answered_by::<F>(session@, a)),
{
    match session.action() {
        Action::ParsePrelude => {
            let p: NuResult<Vec<Decl>> = front.parse_prelude();
            assert(exists|f: &mut F| call_ensures(F::parse_prelude, (f,), p));
            Some(Answer::Parsed(p))
        },
        Action::ParseSource(source) => {
            let p: NuResult<Vec<Decl>> = front.parse_source(source);
            assert(exists|f: &mut F| call_ensures(F::parse_source, (f, source), p));
            Some(Answer::Parsed(p))
        },
        Action::CheckTypes(decls) => {
            let c: NuResult<()> = front.check_types(decls);
            assert(exists|f: &mut F| call_ensures(F::check_types, (f, decls), c));
            Some(Answer::Checked(c))
        },
        Action::CheckEffects(decls, grants) => {
            let c: NuResult<()> = front.check_effects(decls, grants);
            assert(exists|f: &mut F| call_ensures(F::check_effects, (f, decls, grants), c));
            Some(Answer::Checked(c))
        },
        Action::CheckRoutes(decls) => {
            let n: usize = front.check_routes(decls);
            assert(exists|f: &mut F| call_ensures(F::check_routes, (f, decls), n));
            Some(Answer::Routes(n))
        },
        Action::CheckBody(check) => {
            let c: NuResult<()> = front.check_body(check);
            assert(exists|f: &mut F| call_ensures(F::check_body, (f, check), c));
            Some(Answer::Checked(c))
        },
        Action::Emit(decls, name) => {
            let e: NuResult<Vec<u8>> = front.emit(decls, name);
            assert(exists|f: &mut F| call_ensures(F::emit, (f, decls, name), e));
            Some(Answer::Emitted(e))
        },
        Action::Nothing => None,
    }
}

/// Whether a compilation that has not ended waits for something.
pub open spec fn under_way(v: CompilationView) -> bool {
    match v.phase {
        Phase::CheckBody(i) => i < v.plan.len() <= usize::MAX,
        Phase::Finished => false,
        _ => true,
    }
}

/// Compiles one self-contained source text with explicit resource grants: it
/// asks the front end gate by gate and returns what the last answer decides.
/// The grants are handed on as they are.
pub fn compile_source_to_wasm_with_grants<F: FrontEnd>(
    front: &mut F,
    source: &str,
    module_name: &str,
    resource_grants: &Vec<String>,
) -> (r: NuResult<Vec<u8>>)
    ensures
        ends_with::<F>(
            started(source@, module_name@, text::views(resource_grants@)),
            match r {
                Ok(bytes) => Outcome::Compiled(bytes),
                Err(e) => Outcome::Failed(e),
            },
        ),
{
    let mut session: Compilation = Compilation::new(source, module_name, resource_grants);
    let ghost start = session@;
    let ghost mut answers: Seq<Answer> = Seq::empty();
    let ghost mut trail: Seq<CompilationView> = seq![session@];
    loop
        invariant
            start == started(source@, module_name@, text::views(resource_grants@)),
            walks(start, answers, trail),
            asked_all::<F>(answers, trail),
            trail.last() == session@,
            under_way(session@),
        decreases rank(session@.phase), bodies_left(session@),
    {
        let ghost before = session@;
        match ask(&session, front) {
            Some(answer) => {
                let ghost given = answer;
                let out: Outcome = session.step(answer);
                match out {
                    Outcome::Continue => {
                        proof {
                            let next = answers.push(given);
                            let walked = trail.push(session@);
                            assert forall|i: int| 0 <= i < next.len() implies walk_step(
                                next,
                                walked,
                                i,
                            ) by {
                                if i < answers.len() {
                                    assert(walk_step(answers, trail, i));
                                }
                            }
                            assert forall|i: int| 0 <= i < next.len() implies
                                #[trigger] answered_by::<F>(walked[i], next[i]) by {
                                if i < answers.len() {
                                    assert(answered_by::<F>(trail[i], answers[i]));
                                }
                            }
                            answers = next;
                            trail = walked;
                        }
                    },
                    Outcome::Failed(e) => {
                        return Err(e);
                    },
                    Outcome::Compiled(bytes) => {
                        return Ok(bytes);
                    },
                    Outcome::Unexpected => {
                        assert(false);
                        return Ok(Vec::new());
                    },
                }
            },
            None => {
                assert(false);
                return Ok(Vec::new());
            },
        }
    }
}

/// Compiles one self-contained source text with no resource grants.
pub fn compile_source_to_wasm<F: FrontEnd>(front: &mut F, source: &str, module_name: &str) -> (r:
    NuResult<Vec<u8>>)
    ensures
        ends_with::<F>(
            started(source@, module_name@, Seq::empty()),
            match r {
                Ok(bytes) => Outcome::Compiled(bytes),
                Err(e) => Outcome::Failed(e),
            },
        ),
{
    let none: Vec<String> = Vec::new();
    assert(text::views(none@) =~= Seq::empty());
    compile_source_to_wasm_with_grants(front, source, module_name, &none)
}

// ---------------------------------------------------------------------------
// Laws
// ---------------------------------------------------------------------------

/// What the answers of a walk that reached state `v` were.
pub open spec fn reached(v: CompilationView, answers: Seq<Answer>) -> bool {
    let n = answers.len();
    let parsed = n >= 2 && (answers[0] matches Answer::Parsed(Ok(_))) && (
    answers[1] matches Answer::Parsed(Ok(_)));
    let own = ((answers[1]->Parsed_0)->Ok_0)@;
    let gates = |k: int|
        forall|j: int| 2 <= j < k ==> (#[trigger] answers[j] matches Answer::Checked(Ok(_)));
    match v.phase {
        Phase::ParsePrelude => n == 0,
        Phase::ParseSource => n == 1 && (answers[0] matches Answer::Parsed(Ok(_))),
        Phase::CheckTypes => n == 2 && parsed && first_import(own, own.len()) is None,
        Phase::CheckEffects => n == 3 && parsed && first_import(own, own.len()) is None && gates(3),
        Phase::CheckRoutes => n == 4 && parsed && first_import(own, own.len()) is None && gates(4),
        Phase::CheckBody(i) => i < v.plan.len() <= usize::MAX && n == 5 + i && parsed && first_import(
            own,
            own.len(),
        ) is None && gates(4) && answers[4] == Answer::Routes(0) && v.plan == planned(
            v.decls,
            v.decls.len(),
        ) && bodies_passed(answers, n as int),
        Phase::Emit => n == 5 + v.plan.len() && parsed && first_import(own, own.len()) is None
            && gates(4) && answers[4] == Answer::Routes(0) && v.plan == planned(
            v.decls,
            v.decls.len(),
        ) && bodies_passed(answers, n as int),
        Phase::Finished => false,
    }
}

/// Whether the answers on bodies, up to answer `n`, were all positive.
pub open spec fn bodies_passed(answers: Seq<Answer>, n: int) -> bool {
    forall|j: int| 5 <= j < n ==> (#[trigger] answers[j] matches Answer::Checked(Ok(_)))
}

proof fn walks_reach(start: CompilationView, answers: Seq<Answer>, trail: Seq<CompilationView>, k: int)
    requires
        start.phase == Phase::ParsePrelude,
        walks(start, answers, trail),
        0 <= k <= answers.len(),
    ensures
        reached(trail[k], answers.take(k)),
    decreases k,
{
    if k > 0 {
        walks_reach(start, answers, trail, k - 1);
        assert(walk_step(answers, trail, k - 1));
        let before = answers.take(k - 1);
        let now = answers.take(k);
        assert(forall|j: int| 0 <= j < k - 1 ==> before[j] == now[j]);
        assert(now[k - 1] == answers[k - 1]);
        if k >= 2 {
            assert(before[0] == now[0]);
        }
        if k >= 3 {
            assert(before[1] == now[1]);
        }
        if k >= 6 {
            assert(before[4] == now[4]);
        }
        assert(stepped(trail[k - 1], now[k - 1], trail[k], Outcome::Continue));
        match trail[k - 1].phase {
            Phase::CheckTypes => {
                assert(reached(trail[k], now));
            },
            Phase::CheckEffects => {
                assert forall|j: int| 2 <= j < 4 implies (
                #[trigger] now[j] matches Answer::Checked(Ok(_))) by {
                    if j < k - 1 {
                        assert(before[j] == now[j]);
                    }
                }
                assert(reached(trail[k], now));
            },
            Phase::CheckRoutes => {
                assert forall|j: int| 2 <= j < 4 implies (
                #[trigger] now[j] matches Answer::Checked(Ok(_))) by {
                    assert(before[j] == now[j]);
                }
                assert(reached(trail[k], now));
            },
            Phase::CheckBody(i) => {
                assert forall|j: int| 2 <= j < 4 implies (
                #[trigger] now[j] matches Answer::Checked(Ok(_))) by {
                    assert(before[j] == now[j]);
                }
                assert forall|j: int| 5 <= j < k implies (
                #[trigger] now[j] matches Answer::Checked(Ok(_))) by {
                    if j < k - 1 {
                        assert(before[j] == now[j]);
                    }
                }
                assert(reached(trail[k], now));
            },
            _ => {
                assert(reached(trail[k], now));
            },
        }
    }
}

/// A module is compiled only after every gate was passed: both texts were
/// parsed, the module imports nothing, types and effects were accepted, no route
/// is at odds, and every capability check of the plan was passed.
pub proof fn compiled_means_all_gates_passed(
    start: CompilationView,
    answers: Seq<Answer>,
    trail: Seq<CompilationView>,
    last: Answer,
    end: CompilationView,
    bytes: Vec<u8>,
)
    requires
        start.phase == Phase::ParsePrelude,
        walks(start, answers, trail),
        stepped(trail.last(), last, end, Outcome::Compiled(bytes)),
    ensures
        last == Answer::Emitted(Ok(bytes)),
        trail.last().phase == Phase::Emit,
        reached(trail.last(), answers),
        answers.len() == 5 + planned(trail.last().decls, trail.last().decls.len()).len(),
{
    walks_reach(start, answers, trail, answers.len() as int);
    assert(answers.take(answers.len() as int) =~= answers);
}

/// A module that imports another one anywhere is turned away as soon as it is
/// parsed, whatever else it holds.
pub proof fn imports_are_turned_away(
    v: CompilationView,
    decls: Vec<Decl>,
    w: CompilationView,
    out: Outcome,
)
    requires
        v.phase == Phase::ParseSource,
        first_import(decls@, decls@.len()) is Some,
        stepped(v, Answer::Parsed(Ok(decls)), w, out),
    ensures
        out matches Outcome::Failed(e) && is_import_error(
            e,
            first_import(decls@, decls@.len())->0,
        ),
        w.phase == Phase::Finished,
{
}

/// Whether a step runs an expression.
pub open spec fn step_runs(step: WorkflowStep, e: ExprId) -> bool {
    step.body == e || step.compensate == Some(e)
}

/// Whether an item of a workflow runs an expression.
pub open spec fn item_runs(item: WorkflowItem, e: ExprId) -> bool {
    match item {
        WorkflowItem::Step(step) => step_runs(step, e),
        WorkflowItem::Parallel(steps) => exists|i: int|
            0 <= i < steps@.len() && step_runs(#[trigger] steps@[i], e),
    }
}

/// Whether a declaration runs an expression: as the body of a function, behavior,
/// step or compensation, as the initial value of a state field, or anywhere in a
/// nested module.
pub open spec fn runs(decl: Decl, e: ExprId) -> bool
    decreases decl,
{
    match decl {
        Decl::Function { body, .. } => body == e,
        Decl::Actor { behaviors, state_defaults, init, .. } => {
            ||| exists|i: int| 0 <= i < behaviors@.len() && (#[trigger] behaviors@[i]).body == e
            ||| state_defaults@.contains(e)
            ||| init@.contains(e)
        },
        Decl::Workflow { items, compensate, .. } => {
            ||| exists|i: int| 0 <= i < items@.len() && item_runs(#[trigger] items@[i], e)
            ||| compensate == Some(e)
        },
        Decl::Module { decls, .. } => exists|i: int|
            0 <= i < decls@.len() && runs(#[trigger] decls@[i], e),
        _ => false,
    }
}

/// Whether a plan checks an expression.
pub open spec fn checks(plan: Seq<CheckView>, e: ExprId) -> bool {
    exists|k: int| 0 <= k < plan.len() && (#[trigger] plan[k]).body == e
}

proof fn checks_of_parts(a: Seq<CheckView>, b: Seq<CheckView>, e: ExprId)
    ensures
        checks(a + b, e) <==> checks(a, e) || checks(b, e),
{
    if checks(a, e) {
        let k = choose|k: int| 0 <= k < a.len() && (#[trigger] a[k]).body == e;
        assert((a + b)[k].body == e);
    }
    if checks(b, e) {
        let k = choose|k: int| 0 <= k < b.len() && (#[trigger] b[k]).body == e;
        assert((a + b)[a.len() + k].body == e);
    }
    if checks(a + b, e) {
        let k = choose|k: int| 0 <= k < (a + b).len() && (#[trigger] (a + b)[k]).body == e;
        if k < a.len() {
            assert(a[k].body == e);
        } else {
            assert(b[k - a.len()].body == e);
        }
    }
}

proof fn steps_are_checked(steps: Seq<WorkflowStep>, n: nat, e: ExprId)
    requires
        n <= steps.len(),
    ensures
        checks(steps_checks(steps, n), e) <==> exists|i: int|
            0 <= i < n && step_runs(#[trigger] steps[i], e),
    decreases n,
{
    if n > 0 {
        steps_are_checked(steps, (n - 1) as nat, e);
        checks_of_parts(steps_checks(steps, (n - 1) as nat), step_checks(steps[n - 1]), e);
        step_is_checked(steps[n - 1], e);
    }
}

proof fn step_is_checked(step: WorkflowStep, e: ExprId)
    ensures
        checks(step_checks(step), e) <==> step_runs(step, e),
{
    let c = step_checks(step);
    assert(c[0].body == step.body);
    if step.compensate is Some {
        assert(c[1].body == step.compensate->0);
    }
}

proof fn items_are_checked(items: Seq<WorkflowItem>, n: nat, e: ExprId)
    requires
        n <= items.len(),
    ensures
        checks(items_checks(items, n), e) <==> exists|i: int|
            0 <= i < n && item_runs(#[trigger] items[i], e),
    decreases n,
{
    if n > 0 {
        let p = (n - 1) as nat;
        items_are_checked(items, p, e);
        match items[n - 1] {
            WorkflowItem::Step(step) => {
                checks_of_parts(items_checks(items, p), step_checks(step), e);
                step_is_checked(step, e);
            },
            WorkflowItem::Parallel(steps) => {
                checks_of_parts(items_checks(items, p), steps_checks(steps@, steps@.len()), e);
                steps_are_checked(steps@, steps@.len(), e);
            },
        }
    }
}

proof fn own_bodies_are_checked(decl: Decl, e: ExprId)
    requires
        !(decl is Module),
    ensures
        checks(own_checks(decl), e) <==> runs(decl, e),
{
    match decl {
        Decl::Function { params, body, .. } => {
            assert(own_checks(decl)[0].body == body);
        },
        Decl::Actor { behaviors, state_defaults, init, .. } => {
            let a = behaviors@.map_values(|b: Behavior| under(b.params@, b.body));
            let b = state_defaults@.map_values(|e: ExprId| bare(e));
            let c = init@.map_values(|e: ExprId| bare(e));
            checks_of_parts(a + b, c, e);
            checks_of_parts(a, b, e);
            if exists|i: int| 0 <= i < behaviors@.len() && (#[trigger] behaviors@[i]).body == e {
                let i = choose|i: int|
                    0 <= i < behaviors@.len() && (#[trigger] behaviors@[i]).body == e;
                assert(a[i].body == e);
            }
            if state_defaults@.contains(e) {
                let i = choose|i: int| 0 <= i < state_defaults@.len() && state_defaults@[i] == e;
                assert(b[i].body == e);
            }
            if init@.contains(e) {
                let i = choose|i: int| 0 <= i < init@.len() && init@[i] == e;
                assert(c[i].body == e);
            }
            if checks(a, e) {
                let i = choose|i: int| 0 <= i < a.len() && (#[trigger] a[i]).body == e;
                assert(behaviors@[i].body == e);
            }
            if checks(b, e) {
                let i = choose|i: int| 0 <= i < b.len() && (#[trigger] b[i]).body == e;
                assert(state_defaults@[i] == e);
            }
            if checks(c, e) {
                let i = choose|i: int| 0 <= i < c.len() && (#[trigger] c[i]).body == e;
                assert(init@[i] == e);
            }
        },
        Decl::Workflow { items, compensate, .. } => {
            items_are_checked(items@, items@.len(), e);
            let last = match compensate {
                Some(c) => seq![bare(c)],
                None => Seq::empty(),
            };
            checks_of_parts(items_checks(items@, items@.len()), last, e);
            if compensate is Some {
                assert(last[0].body == compensate->0);
            }
        },
        _ => {},
    }
}

/// A compilation checks the capabilities of every expression that the
/// declarations run, and of nothing else.
pub proof fn every_body_is_checked(decls: Seq<Decl>, n: nat, e: ExprId)
    requires
        n <= decls.len(),
    ensures
        checks(planned(decls, n), e) <==> exists|i: int|
            0 <= i < n && runs(#[trigger] decls[i], e),
    decreases decls, n,
{
    if n > 0 {
        let p = (n - 1) as nat;
        every_body_is_checked(decls, p, e);
        let d = decls[n - 1];
        match d {
            Decl::Module { decls: nested, .. } => {
                assert(decreases_to!(decls => nested@));
                every_body_is_checked(nested@, nested@.len(), e);
                checks_of_parts(planned(decls, p), planned(nested@, nested@.len()), e);
            },
            _ => {
                own_bodies_are_checked(d, e);
                checks_of_parts(planned(decls, p), own_checks(d), e);
            },
        }
        assert(runs(decls[n - 1], e) == runs(d, e));
    }
}

/// A body is checked under the capabilities of its parameters: one binding for
/// each parameter that has a capability.
pub proof fn bodies_are_checked_under_their_parameters(
    params: Seq<Param>,
    n: nat,
    name: Seq<char>,
    cap: Seq<char>,
)
    requires
        n <= params.len(),
    ensures
        seeded(params, n).contains((name, cap)) <==> exists|i: int|
            0 <= i < n && (#[trigger] params[i]).name@ == name && (params[i].cap matches Some(c)
                && c@ == cap),
    decreases n,
{
    if n > 0 {
        let p = (n - 1) as nat;
        bodies_are_checked_under_their_parameters(params, p, name, cap);
        let before = seeded(params, p);
        let now = seeded(params, n);
        if before.contains((name, cap)) {
            let k = choose|k: int| 0 <= k < before.len() && before[k] == (name, cap);
            assert(now[k] == (name, cap));
        }
        if now.len() > before.len() {
            assert(now[before.len() as int] == (params[n - 1].name@, (params[n - 1].cap->0)@));
        }
        if now.contains((name, cap)) && !before.contains((name, cap)) {
            let k = choose|k: int| 0 <= k < now.len() && now[k] == (name, cap);
            if k < before.len() {
                assert(before[k] == (name, cap));
            }
        }
    }
}

/// Whether a declaration imports, itself or in a nested module.
pub open spec fn imports(decl: Decl) -> bool
    decreases decl,
{
    match decl {
        Decl::Import { .. } => true,
        Decl::Module { decls, .. } => exists|i: int|
            0 <= i < decls@.len() && imports(#[trigger] decls@[i]),
        _ => false,
    }
}

/// An import is found exactly where there is one, however deep it is nested.
pub proof fn imports_are_found(decls: Seq<Decl>, n: nat)
    requires
        n <= decls.len(),
    ensures
        first_import(decls, n) is Some <==> exists|i: int|
            0 <= i < n && imports(#[trigger] decls[i]),
    decreases decls, n,
{
    if n > 0 {
        imports_are_found(decls, (n - 1) as nat);
        let d = decls[n - 1];
        if let Decl::Module { decls: nested, .. } = d {
            assert(decreases_to!(decls => nested@));
            imports_are_found(nested@, nested@.len());
        }
        assert(imports(decls[n - 1]) == imports(d));
    }
}

/// Each phase asks for its own gate, on the declarations at hand: the source is
/// parsed before types, effects and routes are checked, bodies follow in the
/// order of the plan, and only what passed them is emitted.
pub proof fn phases_ask_for_their_gate(v: CompilationView, a: Action)
    requires
        asks(v, a),
        under_way(v),
    ensures
        a is ParsePrelude <==> v.phase is ParsePrelude,
        a is ParseSource <==> v.phase is ParseSource,
        a is CheckTypes <==> v.phase is CheckTypes,
        a is CheckEffects <==> v.phase is CheckEffects,
        a is CheckRoutes <==> v.phase is CheckRoutes,
        a is CheckBody <==> v.phase is CheckBody,
        a is Emit <==> v.phase is Emit,
        a matches Action::ParseSource(s) ==> s@ == v.source,
        a matches Action::CheckTypes(d) ==> d@ == v.decls,
        a matches Action::CheckEffects(d, g) ==> d@ == v.decls && text::views(g@) == v.grants,
        a matches Action::CheckRoutes(d) ==> d@ == v.decls,
        a matches Action::CheckBody(c) ==> v.plan.contains(c@),
        a matches Action::Emit(d, n) ==> d@ == v.decls && n@ == v.module_name,
{
    if let Phase::CheckBody(i) = v.phase {
        assert(v.plan[i as int] == (a->CheckBody_0)@);
    }
}

/// A failed gate ends the compilation with its own error.
pub proof fn failed_gates_end_the_compilation(
    v: CompilationView,
    e: NuError,
    w: CompilationView,
    out: Outcome,
)
    requires
        v.phase is CheckTypes || v.phase is CheckEffects || v.phase is CheckBody,
        stepped(v, Answer::Checked(Err(e)), w, out),
    ensures
        out == Outcome::Failed(e),
        w.phase is Finished,
{
}

/// A module is compiled with the variant types of the prelude and with nothing
/// else of it; its own declarations follow them unchanged.
pub proof fn preludes_give_their_variants(prelude: Seq<Decl>, decls: Seq<Decl>, d: Decl)
    ensures
        prelude.contains(d) && d is VariantType ==> injected(prelude, decls).contains(d),
        injected(prelude, decls).contains(d) ==> decls.contains(d) || (prelude.contains(d)
            && d is VariantType),
        injected(prelude, decls).len() >= decls.len(),
        injected(prelude, decls).skip(injected(prelude, decls).len() - decls.len()) == decls,
{
    let f = |d: Decl| is_variant(d);
    let kept = prelude.filter(f);
    let all = injected(prelude, decls);
    assert(all.skip(all.len() - decls.len()) =~= decls);
    if prelude.contains(d) && d is VariantType {
        assert(f(d));
        let k = choose|k: int| 0 <= k < prelude.len() && prelude[k] == d;
        prelude.lemma_filter_contains(f, k);
        assert(kept.contains(d));
        let i = choose|i: int| 0 <= i < kept.len() && kept[i] == d;
        assert(all[i] == d);
    }
    if all.contains(d) {
        let i = choose|i: int| 0 <= i < all.len() && all[i] == d;
        if i < kept.len() {
            assert(kept[i] == d);
            prelude.lemma_filter_pred(f, i);
            prelude.lemma_filter_contains_rev(f, d);
        } else {
            assert(decls[i - kept.len()] == d);
        }
    }
}

} // verus!
