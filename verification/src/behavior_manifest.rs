//! Behavior manifests: artifact and compiler identity plus durable state-schema
//! identity and migration topology, for deployment admission and upgrade
//! preflight.

use crate::artifact_identity::ArtifactIdentityManifest;
use crate::bytes::{bytes_eq, push_all};
use crate::content_identity::{self, ArtifactId, SemanticId};
use crate::hashing::{self, blake3_hex};
use crate::hir::{self, ActorDef, Decl, Module, StateModel};
use crate::json::{self, json_string, push_number_field, push_text_field};
use crate::sorting;
use crate::text::{self, blank, cat2, cat3, cat4, cat5, chars_of, clone_opt, clone_strings, dec_of, join, sorted_set, str_eq, string_of, text, text_lt, text_starts_with};
use vstd::prelude::*;
use vstd::utf8::*;

verus! {

pub const BEHAVIOR_MANIFEST_SCHEMA: &'static str = "nulang.behavior/v0alpha1";

pub const BEHAVIOR_ARTIFACT_KIND_NBC_V1: &'static str = "nulang-bytecode-v1";

pub const BEHAVIOR_ARTIFACT_KIND_WASM_MODULE: &'static str = "wasm-module";

#[derive(Debug, Clone, PartialEq, Eq)]
pub struct BehaviorManifest {
    pub schema: String,
    pub package: BehaviorPackage,
    pub artifact: BehaviorArtifact,
    pub actors: Vec<BehaviorActor>,
}

#[derive(Debug, Clone, PartialEq, Eq)]
pub struct BehaviorPackage {
    pub name: String,
    pub version: String,
    pub language_version: String,
}

#[derive(Debug, Clone, PartialEq, Eq)]
pub struct BehaviorArtifact {
    pub kind: String,
    /// Digest of the exact executable bytes this manifest accompanies.
    pub digest: String,
    pub source_id: Option<String>,
    pub semantic_id: String,
    pub artifact_id: String,
    pub compiler_version: String,
    pub target: String,
    pub abi: String,
    pub backend: String,
    pub flags: Vec<String>,
}

#[derive(Debug, Clone, PartialEq, Eq)]
pub struct BehaviorActor {
    pub name: String,
    pub kind: BehaviorOwnerKind,
    pub persistence: BehaviorPersistence,
    pub schema_version: u32,
    pub state_schema_semantic_id: String,
    pub migration_identity: MigrationIdentityCoverage,
    pub migrations: Vec<BehaviorMigrationStep>,
    pub workflow: Option<BehaviorWorkflow>,
}

#[derive(Debug, Clone, Copy, PartialEq, Eq, Structural)]
pub enum BehaviorOwnerKind {
    Actor,
    Workflow,
    Agent,
    Organization,
}

impl Default for BehaviorOwnerKind {
    fn default() -> (r: Self)
        ensures
            r == BehaviorOwnerKind::Actor,
    {
        BehaviorOwnerKind::Actor
    }
}

#[derive(Debug, Clone, PartialEq, Eq)]
pub struct BehaviorWorkflow {
    pub steps: Vec<BehaviorWorkflowStep>,
}

#[derive(Debug, Clone, PartialEq, Eq)]
pub struct BehaviorWorkflowStep {
    pub name: String,
    pub compensation: bool,
    pub parallel_branches: Vec<String>,
}

#[derive(Debug, Clone, Copy, PartialEq, Eq, Structural)]
pub enum BehaviorPersistence {
    Ephemeral,
    Durable,
    EventSourced,
    Crdt,
    Mixed,
}

impl BehaviorPersistence {
    pub open spec fn durable(self) -> bool {
        !(self is Ephemeral)
    }

    pub fn is_durable(self) -> (r: bool)
        ensures
            r == self.durable(),
    {
        match self {
            BehaviorPersistence::Ephemeral => false,
            _ => true,
        }
    }

    pub open spec fn spec_name(self) -> Seq<char> {
        match self {
            BehaviorPersistence::Ephemeral => "Ephemeral"@,
            BehaviorPersistence::Durable => "Durable"@,
            BehaviorPersistence::EventSourced => "EventSourced"@,
            BehaviorPersistence::Crdt => "Crdt"@,
            BehaviorPersistence::Mixed => "Mixed"@,
        }
    }

    /// The name of the class.
    pub fn name(self) -> (r: String)
        ensures
            r@ == self.spec_name(),
    {
        match self {
            BehaviorPersistence::Ephemeral => text("Ephemeral"),
            BehaviorPersistence::Durable => text("Durable"),
            BehaviorPersistence::EventSourced => text("EventSourced"),
            BehaviorPersistence::Crdt => text("Crdt"),
            BehaviorPersistence::Mixed => text("Mixed"),
        }
    }
}

#[derive(Debug, Clone, Copy, PartialEq, Eq, Structural)]
pub enum MigrationIdentityCoverage {
    /// Version topology, state-migration presence, and migrated event names
    /// and arities are canonicalized. Migration bodies are not.
    TopologyOnly,
}

#[derive(Debug, Clone, PartialEq, Eq)]
pub struct BehaviorMigrationStep {
    pub from: u32,
    pub to: u32,
    pub state: bool,
    pub events: Vec<BehaviorMigrationEvent>,
}

#[derive(Debug, Clone, PartialEq, Eq, PartialOrd, Ord)]
pub struct BehaviorMigrationEvent {
    pub name: String,
    pub arity: usize,
}

// ---------------------------------------------------------------------------
// What the parts of a manifest say
// ---------------------------------------------------------------------------

/// A migrated event: name and arity.
pub type EventView = (Seq<char>, usize);

/// A migration step.
#[verifier::ext_equal]
pub struct StepView {
    pub from: u32,
    pub to: u32,
    pub state: bool,
    pub events: Seq<EventView>,
}

/// A workflow step.
#[verifier::ext_equal]
pub struct WorkflowStepView {
    pub name: Seq<char>,
    pub compensation: bool,
    pub parallel_branches: Seq<Seq<char>>,
}

/// A state owner.
#[verifier::ext_equal]
pub struct ActorView {
    pub name: Seq<char>,
    pub kind: BehaviorOwnerKind,
    pub persistence: BehaviorPersistence,
    pub schema_version: u32,
    pub schema_id: Seq<char>,
    pub coverage: MigrationIdentityCoverage,
    pub migrations: Seq<StepView>,
    pub workflow: Option<Seq<WorkflowStepView>>,
}

/// The package of a manifest.
#[verifier::ext_equal]
pub struct PackageView {
    pub name: Seq<char>,
    pub version: Seq<char>,
    pub language_version: Seq<char>,
}

/// The artifact of a manifest.
#[verifier::ext_equal]
pub struct ArtifactView {
    pub kind: Seq<char>,
    pub digest: Seq<char>,
    pub source_id: Option<Seq<char>>,
    pub semantic_id: Seq<char>,
    pub artifact_id: Seq<char>,
    pub compiler_version: Seq<char>,
    pub target: Seq<char>,
    pub abi: Seq<char>,
    pub backend: Seq<char>,
    pub flags: Seq<Seq<char>>,
}

/// A manifest.
#[verifier::ext_equal]
pub struct ManifestView {
    pub schema: Seq<char>,
    pub package: PackageView,
    pub artifact: ArtifactView,
    pub actors: Seq<ActorView>,
}

impl View for BehaviorMigrationEvent {
    type V = EventView;

    open spec fn view(&self) -> EventView {
        (self.name@, self.arity)
    }
}

/// Events by what they say.
pub open spec fn event_views(s: Seq<BehaviorMigrationEvent>) -> Seq<EventView> {
    s.map_values(|e: BehaviorMigrationEvent| e@)
}

impl View for BehaviorMigrationStep {
    type V = StepView;

    open spec fn view(&self) -> StepView {
        StepView { from: self.from, to: self.to, state: self.state, events: event_views(self.events@) }
    }
}

/// Steps by what they say.
pub open spec fn step_views(s: Seq<BehaviorMigrationStep>) -> Seq<StepView> {
    s.map_values(|e: BehaviorMigrationStep| e@)
}

impl View for BehaviorWorkflowStep {
    type V = WorkflowStepView;

    open spec fn view(&self) -> WorkflowStepView {
        WorkflowStepView {
            name: self.name@,
            compensation: self.compensation,
            parallel_branches: text::views(self.parallel_branches@),
        }
    }
}

/// Workflow steps by what they say.
pub open spec fn workflow_step_views(s: Seq<BehaviorWorkflowStep>) -> Seq<WorkflowStepView> {
    s.map_values(|e: BehaviorWorkflowStep| e@)
}

/// A workflow, if there is one.
pub open spec fn workflow_view(w: Option<BehaviorWorkflow>) -> Option<Seq<WorkflowStepView>> {
    match w {
        Some(x) => Some(workflow_step_views(x.steps@)),
        None => None,
    }
}

impl View for BehaviorActor {
    type V = ActorView;

    open spec fn view(&self) -> ActorView {
        ActorView {
            name: self.name@,
            kind: self.kind,
            persistence: self.persistence,
            schema_version: self.schema_version,
            schema_id: self.state_schema_semantic_id@,
            coverage: self.migration_identity,
            migrations: step_views(self.migrations@),
            workflow: workflow_view(self.workflow),
        }
    }
}

/// State owners by what they say.
pub open spec fn actor_views(s: Seq<BehaviorActor>) -> Seq<ActorView> {
    s.map_values(|e: BehaviorActor| e@)
}

impl View for BehaviorPackage {
    type V = PackageView;

    open spec fn view(&self) -> PackageView {
        PackageView {
            name: self.name@,
            version: self.version@,
            language_version: self.language_version@,
        }
    }
}

impl View for BehaviorArtifact {
    type V = ArtifactView;

    open spec fn view(&self) -> ArtifactView {
        ArtifactView {
            kind: self.kind@,
            digest: self.digest@,
            source_id: text::opt_view(self.source_id),
            semantic_id: self.semantic_id@,
            artifact_id: self.artifact_id@,
            compiler_version: self.compiler_version@,
            target: self.target@,
            abi: self.abi@,
            backend: self.backend@,
            flags: text::views(self.flags@),
        }
    }
}

impl View for BehaviorManifest {
    type V = ManifestView;

    open spec fn view(&self) -> ManifestView {
        ManifestView {
            schema: self.schema@,
            package: self.package@,
            artifact: self.artifact@,
            actors: actor_views(self.actors@),
        }
    }
}

// ---------------------------------------------------------------------------
// Copies and comparisons
// ---------------------------------------------------------------------------

fn copy_events(v: &Vec<BehaviorMigrationEvent>) -> (r: Vec<BehaviorMigrationEvent>)
    ensures
        event_views(r@) == event_views(v@),
{
    let mut r: Vec<BehaviorMigrationEvent> = Vec::new();
    let ghost want = event_views(v@);
    let mut i: usize = 0;
    assert(event_views(r@) =~= want.take(0));
    while i < v.len()
        invariant
            i <= v@.len(),
            want == event_views(v@),
            event_views(r@) == want.take(i as int),
        decreases v@.len() - i,
    {
        let ghost before = event_views(r@);
        r.push(BehaviorMigrationEvent { name: v[i].name.clone(), arity: v[i].arity });
        i += 1;
        assert(event_views(r@) =~= before.push(want[i - 1]));
        assert(event_views(r@) =~= want.take(i as int));
    }
    assert(want.take(i as int) =~= want);
    r
}

fn copy_steps(v: &Vec<BehaviorMigrationStep>) -> (r: Vec<BehaviorMigrationStep>)
    ensures
        step_views(r@) == step_views(v@),
{
    let mut r: Vec<BehaviorMigrationStep> = Vec::new();
    let ghost want = step_views(v@);
    let mut i: usize = 0;
    assert(step_views(r@) =~= want.take(0));
    while i < v.len()
        invariant
            i <= v@.len(),
            want == step_views(v@),
            step_views(r@) == want.take(i as int),
        decreases v@.len() - i,
    {
        let ghost before = step_views(r@);
        r.push(
            BehaviorMigrationStep {
                from: v[i].from,
                to: v[i].to,
                state: v[i].state,
                events: copy_events(&v[i].events),
            },
        );
        i += 1;
        assert(step_views(r@) =~= before.push(want[i - 1]));
        assert(step_views(r@) =~= want.take(i as int));
    }
    assert(want.take(i as int) =~= want);
    r
}

fn copy_workflow(w: &Option<BehaviorWorkflow>) -> (r: Option<BehaviorWorkflow>)
    ensures
        workflow_view(r) == workflow_view(*w),
{
    match w {
        None => None,
        Some(x) => {
            let mut steps: Vec<BehaviorWorkflowStep> = Vec::new();
            let ghost want = workflow_step_views(x.steps@);
            let mut i: usize = 0;
            assert(workflow_step_views(steps@) =~= want.take(0));
            while i < x.steps.len()
                invariant
                    i <= x.steps@.len(),
                    want == workflow_step_views(x.steps@),
                    workflow_step_views(steps@) == want.take(i as int),
                decreases x.steps@.len() - i,
            {
                let ghost before = workflow_step_views(steps@);
                steps.push(
                    BehaviorWorkflowStep {
                        name: x.steps[i].name.clone(),
                        compensation: x.steps[i].compensation,
                        parallel_branches: clone_strings(&x.steps[i].parallel_branches),
                    },
                );
                i += 1;
                assert(workflow_step_views(steps@) =~= before.push(want[i - 1]));
                assert(workflow_step_views(steps@) =~= want.take(i as int));
            }
            assert(want.take(i as int) =~= want);
            Some(BehaviorWorkflow { steps })
        },
    }
}

fn copy_actors(v: &Vec<BehaviorActor>) -> (r: Vec<BehaviorActor>)
    ensures
        actor_views(r@) == actor_views(v@),
{
    let mut r: Vec<BehaviorActor> = Vec::new();
    let ghost want = actor_views(v@);
    let mut i: usize = 0;
    assert(actor_views(r@) =~= want.take(0));
    while i < v.len()
        invariant
            i <= v@.len(),
            want == actor_views(v@),
            actor_views(r@) == want.take(i as int),
        decreases v@.len() - i,
    {
        let ghost before = actor_views(r@);
        r.push(
            BehaviorActor {
                name: v[i].name.clone(),
                kind: v[i].kind,
                persistence: v[i].persistence,
                schema_version: v[i].schema_version,
                state_schema_semantic_id: v[i].state_schema_semantic_id.clone(),
                migration_identity: v[i].migration_identity,
                migrations: copy_steps(&v[i].migrations),
                workflow: copy_workflow(&v[i].workflow),
            },
        );
        i += 1;
        assert(actor_views(r@) =~= before.push(want[i - 1]));
        assert(actor_views(r@) =~= want.take(i as int));
    }
    assert(want.take(i as int) =~= want);
    r
}

fn events_eq(a: &Vec<BehaviorMigrationEvent>, b: &Vec<BehaviorMigrationEvent>) -> (r: bool)
    ensures
        r == (event_views(a@) == event_views(b@)),
{
    let ghost x = event_views(a@);
    let ghost y = event_views(b@);
    if a.len() != b.len() {
        assert(x.len() != y.len());
        return false;
    }
    let mut i: usize = 0;
    while i < a.len()
        invariant
            i <= a@.len(),
            a@.len() == b@.len(),
            x == event_views(a@),
            y == event_views(b@),
            forall|j: int| 0 <= j < i ==> x[j] == y[j],
        decreases a@.len() - i,
    {
        if !str_eq(a[i].name.as_str(), b[i].name.as_str()) || a[i].arity != b[i].arity {
            assert(x[i as int] != y[i as int]);
            return false;
        }
        i += 1;
    }
    assert(x =~= y);
    true
}

fn step_eq(a: &BehaviorMigrationStep, b: &BehaviorMigrationStep) -> (r: bool)
    ensures
        r == (a@ == b@),
{
    let r: bool = a.from == b.from && a.to == b.to && a.state == b.state && events_eq(
        &a.events,
        &b.events,
    );
    assert(r ==> a@ =~= b@);
    r
}

fn steps_eq(a: &Vec<BehaviorMigrationStep>, b: &Vec<BehaviorMigrationStep>) -> (r: bool)
    ensures
        r == (step_views(a@) == step_views(b@)),
{
    let ghost x = step_views(a@);
    let ghost y = step_views(b@);
    if a.len() != b.len() {
        assert(x.len() != y.len());
        return false;
    }
    let mut i: usize = 0;
    while i < a.len()
        invariant
            i <= a@.len(),
            a@.len() == b@.len(),
            x == step_views(a@),
            y == step_views(b@),
            forall|j: int| 0 <= j < i ==> x[j] == y[j],
        decreases a@.len() - i,
    {
        if !step_eq(&a[i], &b[i]) {
            assert(x[i as int] != y[i as int]);
            return false;
        }
        i += 1;
    }
    assert(x =~= y);
    true
}

// ---------------------------------------------------------------------------
// Normal form
// ---------------------------------------------------------------------------

/// Events order by name, then by arity.
pub open spec fn event_order() -> spec_fn(EventView, EventView) -> bool {
    |a: EventView, b: EventView| text::lex_lt(a.0, b.0) || (a.0 == b.0 && a.1 < b.1)
}

/// Steps order by origin, then by target.
pub open spec fn step_order() -> spec_fn(StepView, StepView) -> bool {
    |a: StepView, b: StepView| a.from < b.from || (a.from == b.from && a.to < b.to)
}

/// State owners order by name.
pub open spec fn actor_order() -> spec_fn(ActorView, ActorView) -> bool {
    |a: ActorView, b: ActorView| text::lex_lt(a.name, b.name)
}

pub proof fn event_order_is_total()
    ensures
        sorting::total_order(event_order()),
{
    let lt = event_order();
    assert forall|a: EventView| !#[trigger] lt(a, a) by {
        text::lex_irreflexive(a.0);
    }
    assert forall|a: EventView, b: EventView, c: EventView| #[trigger]
        lt(a, b) && #[trigger] lt(b, c) implies lt(a, c) by {
        if text::lex_lt(a.0, b.0) && text::lex_lt(b.0, c.0) {
            text::lex_transitive(a.0, b.0, c.0);
        }
    }
    assert forall|a: EventView, b: EventView| !#[trigger] lt(a, b) && !lt(b, a) implies a == b by {
        text::lex_total(a.0, b.0);
    }
    assert forall|a: EventView, b: EventView, c: EventView|
        !#[trigger] lt(a, b) && !#[trigger] lt(b, c) implies !lt(a, c) by {
        if lt(a, c) {
            text::lex_total(a.0, b.0);
            text::lex_total(b.0, c.0);
            text::lex_irreflexive(a.0);
            if text::lex_lt(b.0, a.0) && text::lex_lt(a.0, c.0) {
                text::lex_transitive(b.0, a.0, c.0);
            }
            if text::lex_lt(c.0, b.0) && text::lex_lt(a.0, c.0) {
                text::lex_transitive(a.0, c.0, b.0);
            }
            if text::lex_lt(c.0, b.0) && text::lex_lt(b.0, a.0) {
                text::lex_transitive(c.0, b.0, a.0);
            }
        }
    }
}

proof fn step_order_holds()
    ensures
        sorting::key_order(step_order()),
{
}

pub proof fn actor_order_holds()
    ensures
        sorting::key_order(actor_order()),
{
    let lt = actor_order();
    assert forall|a: ActorView| !#[trigger] lt(a, a) by {
        text::lex_irreflexive(a.name);
    }
    assert forall|a: ActorView, b: ActorView, c: ActorView| #[trigger]
        lt(a, b) && #[trigger] lt(b, c) implies lt(a, c) by {
        text::lex_transitive(a.name, b.name, c.name);
    }
    assert forall|a: ActorView, b: ActorView, c: ActorView|
        !#[trigger] lt(a, b) && !#[trigger] lt(b, c) implies !lt(a, c) by {
        text::lex_total(a.name, b.name);
        text::lex_total(b.name, c.name);
        if lt(a, c) {
            text::lex_irreflexive(a.name);
            if text::lex_lt(b.name, a.name) {
                text::lex_transitive(b.name, a.name, c.name);
            }
            if text::lex_lt(c.name, b.name) {
                text::lex_transitive(a.name, c.name, b.name);
            }
        }
    }
}

/// A step with its events as an ordered set.
pub open spec fn normal_step(s: StepView) -> StepView {
    StepView { events: sorting::ordered_set(s.events, event_order()), ..s }
}

/// Steps in order, each in normal form.
pub open spec fn normal_steps(s: Seq<StepView>) -> Seq<StepView> {
    sorting::stable_sorted(s, step_order()).map_values(|x: StepView| normal_step(x))
}

/// A state owner with its migrations in normal form.
pub open spec fn normal_actor(a: ActorView) -> ActorView {
    ActorView { migrations: normal_steps(a.migrations), ..a }
}

/// The normal form: flags and events as ordered sets, state owners by name,
/// migrations by version.
pub open spec fn normalized(m: ManifestView) -> ManifestView {
    ManifestView {
        artifact: ArtifactView { flags: text::sorted_of(m.artifact.flags), ..m.artifact },
        actors: sorting::stable_sorted(m.actors, actor_order()).map_values(
            |a: ActorView| normal_actor(a),
        ),
        ..m
    }
}

fn event_lt(a: &BehaviorMigrationEvent, b: &BehaviorMigrationEvent) -> (r: bool)
    ensures
        r == event_order()(a@, b@),
{
    text_lt(a.name.as_str(), b.name.as_str()) || (str_eq(a.name.as_str(), b.name.as_str())
        && a.arity < b.arity)
}

fn normalize_events(events: Vec<BehaviorMigrationEvent>) -> (r: Vec<BehaviorMigrationEvent>)
    ensures
        event_views(r@) == sorting::ordered_set(event_views(events@), event_order()),
{
    let ghost all = event_views(events@);
    let ghost lt = event_order();
    let mut rest: Vec<BehaviorMigrationEvent> = events;
    let mut out: Vec<BehaviorMigrationEvent> = Vec::new();
    let ghost mut done: int = 0;
    assert(event_views(out@) =~= sorting::ordered_set(all.take(0), lt));
    while rest.len() > 0
        invariant
            0 <= done <= all.len(),
            lt == event_order(),
            event_views(rest@) == all.skip(done),
            event_views(out@) == sorting::ordered_set(all.take(done), lt),
        decreases rest@.len(),
    {
        let ghost before = rest@;
        let e: BehaviorMigrationEvent = rest.remove(0);
        let ghost t = event_views(out@);
        proof {
            assert(event_views(before).len() == before.len());
            assert(done < all.len());
            assert(e@ == event_views(before)[0]);
            assert(all.skip(done)[0] == all[done]);
            assert(e@ == all[done]);
            assert(all.take(done + 1).drop_last() =~= all.take(done));
            assert(all.take(done + 1).last() == e@);
            assert(event_views(rest@) =~= event_views(before).skip(1));
            assert(all.skip(done).skip(1) =~= all.skip(done + 1));
        }
        let mut present: bool = false;
        let mut at: usize = 0;
        let mut i: usize = 0;
        let mut placed: bool = false;
        while i < out.len()
            invariant
                i <= out@.len(),
                t == event_views(out@),
                lt == event_order(),
                present <==> (exists|j: int| 0 <= j < i && #[trigger] t[j] == e@),
                !placed ==> at == i && sorting::slot_after(t, e@, lt, 0) == sorting::slot_after(
                    t,
                    e@,
                    lt,
                    i as int,
                ),
                placed ==> at < out@.len() && at == sorting::slot_after(t, e@, lt, 0),
            decreases out@.len() - i,
        {
            if str_eq(out[i].name.as_str(), e.name.as_str()) && out[i].arity == e.arity {
                present = true;
                assert(t[i as int] == e@);
            } else {
                assert(t[i as int] != e@);
            }
            if !placed {
                if event_lt(&e, &out[i]) {
                    placed = true;
                } else {
                    at = i + 1;
                }
            }
            i += 1;
        }
        assert(present <==> t.contains(e@));
        if !present {
            let ghost added = e@;
            out.insert(at, e);
            assert(event_views(out@) =~= t.insert(at as int, added));
        }
        proof {
            done = done + 1;
        }
    }
    assert(all.take(done) =~= all);
    out
}

fn insert_step(out: &mut Vec<BehaviorMigrationStep>, s: BehaviorMigrationStep)
    ensures
        step_views(final(out)@) == step_views(old(out)@).insert(
            sorting::slot_after(step_views(old(out)@), s@, step_order(), 0),
            s@,
        ),
{
    let ghost t = step_views(out@);
    let ghost lt = step_order();
    let mut i: usize = 0;
    while i < out.len() && !(s.from < out[i].from || (s.from == out[i].from && s.to < out[i].to))
        invariant
            i <= out@.len(),
            t == step_views(out@),
            lt == step_order(),
            sorting::slot_after(t, s@, lt, 0) == sorting::slot_after(t, s@, lt, i as int),
        decreases out@.len() - i,
    {
        i += 1;
    }
    let ghost added = s@;
    out.insert(i, s);
    assert(step_views(out@) =~= t.insert(i as int, added));
}

fn normalize_steps(steps: Vec<BehaviorMigrationStep>) -> (r: Vec<BehaviorMigrationStep>)
    ensures
        step_views(r@) == normal_steps(step_views(steps@)),
{
    let ghost all = step_views(steps@);
    let ghost lt = step_order();
    let mut rest: Vec<BehaviorMigrationStep> = steps;
    let mut sorted: Vec<BehaviorMigrationStep> = Vec::new();
    let ghost mut done: int = 0;
    assert(step_views(sorted@) =~= sorting::stable_sorted(all.take(0), lt));
    while rest.len() > 0
        invariant
            0 <= done <= all.len(),
            lt == step_order(),
            step_views(rest@) == all.skip(done),
            step_views(sorted@) == sorting::stable_sorted(all.take(done), lt),
        decreases rest@.len(),
    {
        let ghost before = rest@;
        let s: BehaviorMigrationStep = rest.remove(0);
        proof {
            assert(step_views(before).len() == before.len());
            assert(done < all.len());
            assert(s@ == step_views(before)[0]);
            assert(all.skip(done)[0] == all[done]);
            assert(all.take(done + 1).drop_last() =~= all.take(done));
            assert(all.take(done + 1).last() == s@);
            assert(step_views(rest@) =~= step_views(before).skip(1));
            assert(all.skip(done).skip(1) =~= all.skip(done + 1));
        }
        insert_step(&mut sorted, s);
        proof {
            done = done + 1;
        }
    }
    assert(all.take(done) =~= all);
    let ghost order = step_views(sorted@);
    let ghost want = normal_steps(all);
    let mut out: Vec<BehaviorMigrationStep> = Vec::new();
    let ghost mut moved: int = 0;
    assert(step_views(out@) =~= want.take(0));
    assert(step_views(sorted@) =~= order.skip(0));
    while sorted.len() > 0
        invariant
            0 <= moved <= order.len(),
            order.len() == want.len(),
            want == order.map_values(|x: StepView| normal_step(x)),
            step_views(sorted@) == order.skip(moved),
            step_views(out@) == want.take(moved),
        decreases sorted@.len(),
    {
        let ghost before = sorted@;
        let s: BehaviorMigrationStep = sorted.remove(0);
        let ghost got = step_views(out@);
        proof {
            assert(step_views(before).len() == before.len());
            assert(moved < order.len());
            assert(s@ == step_views(before)[0]);
            assert(order.skip(moved)[0] == order[moved]);
            assert(s@ == order[moved]);
            assert(step_views(sorted@) =~= step_views(before).skip(1));
            assert(order.skip(moved).skip(1) =~= order.skip(moved + 1));
        }
        out.push(
            BehaviorMigrationStep {
                from: s.from,
                to: s.to,
                state: s.state,
                events: normalize_events(s.events),
            },
        );
        proof {
            assert(step_views(out@) =~= got.push(normal_step(s@)));
            assert(step_views(out@) =~= want.take(moved + 1));
            moved = moved + 1;
        }
    }
    assert(want.take(moved) =~= want);
    out
}

fn insert_actor(out: &mut Vec<BehaviorActor>, a: BehaviorActor)
    ensures
        actor_views(final(out)@) == actor_views(old(out)@).insert(
            sorting::slot_after(actor_views(old(out)@), a@, actor_order(), 0),
            a@,
        ),
{
    let ghost t = actor_views(out@);
    let ghost lt = actor_order();
    let mut i: usize = 0;
    while i < out.len() && !text_lt(a.name.as_str(), out[i].name.as_str())
        invariant
            i <= out@.len(),
            t == actor_views(out@),
            lt == actor_order(),
            sorting::slot_after(t, a@, lt, 0) == sorting::slot_after(t, a@, lt, i as int),
        decreases out@.len() - i,
    {
        i += 1;
    }
    let ghost added = a@;
    out.insert(i, a);
    assert(actor_views(out@) =~= t.insert(i as int, added));
}

fn normalize_actors(actors: Vec<BehaviorActor>) -> (r: Vec<BehaviorActor>)
    ensures
        actor_views(r@) == sorting::stable_sorted(actor_views(actors@), actor_order()).map_values(
            |a: ActorView| normal_actor(a),
        ),
{
    let ghost all = actor_views(actors@);
    let ghost lt = actor_order();
    let mut rest: Vec<BehaviorActor> = actors;
    let mut sorted: Vec<BehaviorActor> = Vec::new();
    let ghost mut done: int = 0;
    assert(actor_views(sorted@) =~= sorting::stable_sorted(all.take(0), lt));
    while rest.len() > 0
        invariant
            0 <= done <= all.len(),
            lt == actor_order(),
            actor_views(rest@) == all.skip(done),
            actor_views(sorted@) == sorting::stable_sorted(all.take(done), lt),
        decreases rest@.len(),
    {
        let ghost before = rest@;
        let a: BehaviorActor = rest.remove(0);
        proof {
            assert(actor_views(before).len() == before.len());
            assert(done < all.len());
            assert(a@ == actor_views(before)[0]);
            assert(all.skip(done)[0] == all[done]);
            assert(all.take(done + 1).drop_last() =~= all.take(done));
            assert(all.take(done + 1).last() == a@);
            assert(actor_views(rest@) =~= actor_views(before).skip(1));
            assert(all.skip(done).skip(1) =~= all.skip(done + 1));
        }
        insert_actor(&mut sorted, a);
        proof {
            done = done + 1;
        }
    }
    assert(all.take(done) =~= all);
    let ghost order = actor_views(sorted@);
    let ghost want = order.map_values(|a: ActorView| normal_actor(a));
    let mut out: Vec<BehaviorActor> = Vec::new();
    let ghost mut moved: int = 0;
    assert(actor_views(out@) =~= want.take(0));
    assert(actor_views(sorted@) =~= order.skip(0));
    while sorted.len() > 0
        invariant
            0 <= moved <= order.len(),
            want == order.map_values(|a: ActorView| normal_actor(a)),
            actor_views(sorted@) == order.skip(moved),
            actor_views(out@) == want.take(moved),
        decreases sorted@.len(),
    {
        let ghost before = sorted@;
        let a: BehaviorActor = sorted.remove(0);
        let ghost got = actor_views(out@);
        let ghost av = a@;
        proof {
            assert(actor_views(before).len() == before.len());
            assert(moved < order.len());
            assert(a@ == actor_views(before)[0]);
            assert(order.skip(moved)[0] == order[moved]);
            assert(a@ == order[moved]);
            assert(actor_views(sorted@) =~= actor_views(before).skip(1));
            assert(order.skip(moved).skip(1) =~= order.skip(moved + 1));
        }
        let b: BehaviorActor = BehaviorActor {
            name: a.name,
            kind: a.kind,
            persistence: a.persistence,
            schema_version: a.schema_version,
            state_schema_semantic_id: a.state_schema_semantic_id,
            migration_identity: a.migration_identity,
            migrations: normalize_steps(a.migrations),
            workflow: a.workflow,
        };
        assert(b@ =~= normal_actor(av));
        out.push(b);
        proof {
            assert(actor_views(out@) =~= got.push(normal_actor(av)));
            assert(actor_views(out@) =~= want.take(moved + 1));
            moved = moved + 1;
        }
    }
    assert(want.take(moved) =~= want);
    out
}

/// The normal form of a normal form is itself.
pub proof fn normalization_is_idempotent(m: ManifestView)
    ensures
        normalized(normalized(m)) == normalized(m),
{
    let n = normalized(m);
    let o = normalized(n);
    actor_order_holds();
    step_order_holds();
    event_order_is_total();
    // Flags.
    text::sorted_of_holds(m.artifact.flags);
    text::sorted_of_holds(n.artifact.flags);
    assert forall|x: Seq<char>| o.artifact.flags.contains(x) == n.artifact.flags.contains(x) by {
        assert(o.artifact.flags.contains(x) == n.artifact.flags.contains(x));
    }
    text::strictly_sorted_unique(o.artifact.flags, n.artifact.flags);
    // State owners.
    let s = sorting::stable_sorted(m.actors, actor_order());
    sorting::stable_sorted_holds(m.actors, actor_order());
    assert(sorting::is_ordered(n.actors, actor_order())) by {
        let lt = actor_order();
        assert forall|i: int, j: int| 0 <= i < j < n.actors.len() implies !lt(
            #[trigger] n.actors[j],
            #[trigger] n.actors[i],
        ) by {
            assert(!lt(s[j], s[i]));
        }
    }
    sorting::stable_sorted_fixed(n.actors, actor_order());
    assert forall|i: int| 0 <= i < n.actors.len() implies normal_actor(#[trigger] n.actors[i])
        == n.actors[i] by {
        steps_idempotent(s[i].migrations);
        assert(normal_actor(n.actors[i]) =~= n.actors[i]);
    }
    assert(o.actors =~= n.actors);
    assert(o =~= n);
}

proof fn steps_idempotent(s: Seq<StepView>)
    ensures
        normal_steps(normal_steps(s)) == normal_steps(s),
{
    step_order_holds();
    event_order_is_total();
    let lt = step_order();
    let t = sorting::stable_sorted(s, lt);
    let n = normal_steps(s);
    sorting::stable_sorted_holds(s, lt);
    assert(sorting::is_ordered(n, lt)) by {
        assert forall|i: int, j: int| 0 <= i < j < n.len() implies !lt(#[trigger] n[j], #[trigger] n[i]) by {
            assert(!lt(t[j], t[i]));
        }
    }
    sorting::stable_sorted_fixed(n, lt);
    assert forall|i: int| 0 <= i < n.len() implies normal_step(#[trigger] n[i]) == n[i] by {
        sorting::ordered_set_holds(t[i].events, event_order());
        sorting::ordered_set_fixed(n[i].events, event_order());
        assert(normal_step(n[i]) =~= n[i]);
    }
    assert(normal_steps(n) =~= n);
}

/// Manifests that differ only in how flags are ordered or repeated have the
/// same normal form.
pub proof fn flag_order_does_not_matter(m: ManifestView, flags: Seq<Seq<char>>)
    requires
        forall|x: Seq<char>| m.artifact.flags.contains(x) == #[trigger] flags.contains(x),
    ensures
        normalized(
            ManifestView { artifact: ArtifactView { flags, ..m.artifact }, ..m },
        ) == normalized(m),
{
    text::sorted_of_ignores_order(m.artifact.flags, flags);
}

/// Steps that differ only in how migrated events are ordered or repeated have
/// the same normal form.
pub proof fn event_order_does_not_matter(s: StepView, events: Seq<EventView>)
    requires
        forall|x: EventView| s.events.contains(x) <==> #[trigger] events.contains(x),
    ensures
        normal_step(StepView { events, ..s }) == normal_step(s),
{
    event_order_is_total();
    sorting::ordered_set_ignores_order(s.events, events, event_order());
}

// ---------------------------------------------------------------------------
// Errors
// ---------------------------------------------------------------------------

#[derive(Debug, Clone, PartialEq, Eq)]
pub enum BehaviorManifestError {
    Json(String),
    UnsupportedSchema(String),
    UnsupportedArtifactKind(String),
    UnsupportedArtifactBackend(String),
    InvalidPackage(String),
    InvalidDigest { field: &'static str, message: String },
    InvalidIdentity { field: &'static str, message: String },
    DuplicateActor(String),
    ArtifactIdentityMismatch { expected: ArtifactId, actual: ArtifactId },
    ArtifactDigestMismatch { expected: String, actual: String },
    ActorSchemaMismatch { actor: String },
    InvalidActor { actor: String, message: String },
}

/// What a manifest error says.
#[verifier::ext_equal]
pub enum ManifestFault {
    Json(Seq<char>),
    UnsupportedSchema(Seq<char>),
    UnsupportedArtifactKind(Seq<char>),
    UnsupportedArtifactBackend(Seq<char>),
    InvalidPackage(Seq<char>),
    InvalidDigest(Seq<char>, Seq<char>),
    InvalidIdentity(Seq<char>, Seq<char>),
    DuplicateActor(Seq<char>),
    ArtifactIdentityMismatch(Seq<u8>, Seq<u8>),
    ArtifactDigestMismatch(Seq<char>, Seq<char>),
    ActorSchemaMismatch(Seq<char>),
    InvalidActor(Seq<char>, Seq<char>),
}

impl View for BehaviorManifestError {
    type V = ManifestFault;

    open spec fn view(&self) -> ManifestFault {
        match self {
            BehaviorManifestError::Json(m) => ManifestFault::Json(m@),
            BehaviorManifestError::UnsupportedSchema(s) => ManifestFault::UnsupportedSchema(s@),
            BehaviorManifestError::UnsupportedArtifactKind(k) =>
                ManifestFault::UnsupportedArtifactKind(k@),
            BehaviorManifestError::UnsupportedArtifactBackend(b) =>
                ManifestFault::UnsupportedArtifactBackend(b@),
            BehaviorManifestError::InvalidPackage(m) => ManifestFault::InvalidPackage(m@),
            BehaviorManifestError::InvalidDigest { field, message } => ManifestFault::InvalidDigest(
                field@,
                message@,
            ),
            BehaviorManifestError::InvalidIdentity { field, message } =>
                ManifestFault::InvalidIdentity(field@, message@),
            BehaviorManifestError::DuplicateActor(a) => ManifestFault::DuplicateActor(a@),
            BehaviorManifestError::ArtifactIdentityMismatch { expected, actual } =>
                ManifestFault::ArtifactIdentityMismatch(expected.0@, actual.0@),
            BehaviorManifestError::ArtifactDigestMismatch { expected, actual } =>
                ManifestFault::ArtifactDigestMismatch(expected@, actual@),
            BehaviorManifestError::ActorSchemaMismatch { actor } =>
                ManifestFault::ActorSchemaMismatch(actor@),
            BehaviorManifestError::InvalidActor { actor, message } => ManifestFault::InvalidActor(
                actor@,
                message@,
            ),
        }
    }
}

/// The text of a manifest error.
pub open spec fn fault_text(f: ManifestFault) -> Seq<char> {
    match f {
        ManifestFault::Json(m) => "invalid behavior manifest JSON: "@ + m,
        ManifestFault::UnsupportedSchema(s) => "unsupported behavior manifest schema '"@ + s
            + "'; expected nulang.behavior/v0alpha1"@,
        ManifestFault::UnsupportedArtifactKind(k) =>
            "unsupported behavior manifest artifact kind '"@ + k
            + "'; expected nulang-bytecode-v1 or wasm-module"@,
        ManifestFault::UnsupportedArtifactBackend(b) =>
            "unsupported behavior manifest artifact backend '"@ + b + "'"@,
        ManifestFault::InvalidPackage(m) => "invalid behavior manifest package: "@ + m,
        ManifestFault::InvalidDigest(field, m) => "invalid "@ + field
            + " in behavior manifest: "@ + m,
        ManifestFault::InvalidIdentity(field, m) => "invalid "@ + field
            + " in behavior manifest: "@ + m,
        ManifestFault::DuplicateActor(a) => "behavior manifest contains duplicate actor '"@ + a
            + "'"@,
        ManifestFault::ArtifactIdentityMismatch(e, a) =>
            "behavior manifest artifact identity mismatch: expected "@ + hashing::hex_text(e)
            + ", got "@ + hashing::hex_text(a),
        ManifestFault::ArtifactDigestMismatch(e, a) =>
            "behavior manifest executable digest mismatch: expected "@ + e + ", got "@ + a,
        ManifestFault::ActorSchemaMismatch(a) => "typed actor schema '"@ + a
            + "' has no matching HIR actor"@,
        ManifestFault::InvalidActor(a, m) => "invalid behavior manifest actor '"@ + a + "': "@ + m,
    }
}

impl BehaviorManifestError {
    pub fn to_string(&self) -> (r: String)
        ensures
            r@ == fault_text(self@),
    {
        match self {
            BehaviorManifestError::Json(m) => cat2("invalid behavior manifest JSON: ", m.as_str()),
            BehaviorManifestError::UnsupportedSchema(s) => cat3(
                "unsupported behavior manifest schema '",
                s.as_str(),
                "'; expected nulang.behavior/v0alpha1",
            ),
            BehaviorManifestError::UnsupportedArtifactKind(k) => cat3(
                "unsupported behavior manifest artifact kind '",
                k.as_str(),
                "'; expected nulang-bytecode-v1 or wasm-module",
            ),
            BehaviorManifestError::UnsupportedArtifactBackend(b) => cat3(
                "unsupported behavior manifest artifact backend '",
                b.as_str(),
                "'",
            ),
            BehaviorManifestError::InvalidPackage(m) => cat2(
                "invalid behavior manifest package: ",
                m.as_str(),
            ),
            BehaviorManifestError::InvalidDigest { field, message } => cat4(
                "invalid ",
                field,
                " in behavior manifest: ",
                message.as_str(),
            ),
            BehaviorManifestError::InvalidIdentity { field, message } => cat4(
                "invalid ",
                field,
                " in behavior manifest: ",
                message.as_str(),
            ),
            BehaviorManifestError::DuplicateActor(a) => cat3(
                "behavior manifest contains duplicate actor '",
                a.as_str(),
                "'",
            ),
            BehaviorManifestError::ArtifactIdentityMismatch { expected, actual } => cat4(
                "behavior manifest artifact identity mismatch: expected ",
                expected.to_hex().as_str(),
                ", got ",
                actual.to_hex().as_str(),
            ),
            BehaviorManifestError::ArtifactDigestMismatch { expected, actual } => cat4(
                "behavior manifest executable digest mismatch: expected ",
                expected.as_str(),
                ", got ",
                actual.as_str(),
            ),
            BehaviorManifestError::ActorSchemaMismatch { actor } => cat3(
                "typed actor schema '",
                actor.as_str(),
                "' has no matching HIR actor",
            ),
            BehaviorManifestError::InvalidActor { actor, message } => cat4(
                "invalid behavior manifest actor '",
                actor.as_str(),
                "': ",
                message.as_str(),
            ),
        }
    }
}

#[derive(Debug, Clone, PartialEq, Eq)]
pub enum BehaviorAdmissionError {
    InvalidPreviousManifest(BehaviorManifestError),
    InvalidIncomingManifest(BehaviorManifestError),
    PackageMismatch { previous: String, incoming: String },
    DurableOwnerRemoved { actor: String },
    DurabilityRemoved {
        actor: String,
        previous: BehaviorPersistence,
        incoming: BehaviorPersistence,
    },
    PersistenceClassChanged {
        actor: String,
        previous: BehaviorPersistence,
        incoming: BehaviorPersistence,
    },
    SchemaDowngrade { actor: String, previous: u32, incoming: u32 },
    UnversionedSchemaChange { actor: String, version: u32 },
    MissingMigrationStep { actor: String, from: u32, to: u32 },
    ExistingMigrationTopologyChanged { actor: String },
}

/// What an admission error says.
#[verifier::ext_equal]
pub enum AdmissionFault {
    InvalidPreviousManifest(ManifestFault),
    InvalidIncomingManifest(ManifestFault),
    PackageMismatch(Seq<char>, Seq<char>),
    DurableOwnerRemoved(Seq<char>),
    DurabilityRemoved(Seq<char>, BehaviorPersistence, BehaviorPersistence),
    PersistenceClassChanged(Seq<char>, BehaviorPersistence, BehaviorPersistence),
    SchemaDowngrade(Seq<char>, u32, u32),
    UnversionedSchemaChange(Seq<char>, u32),
    MissingMigrationStep(Seq<char>, u32, u32),
    ExistingMigrationTopologyChanged(Seq<char>),
}

impl View for BehaviorAdmissionError {
    type V = AdmissionFault;

    open spec fn view(&self) -> AdmissionFault {
        match self {
            BehaviorAdmissionError::InvalidPreviousManifest(e) =>
                AdmissionFault::InvalidPreviousManifest(e@),
            BehaviorAdmissionError::InvalidIncomingManifest(e) =>
                AdmissionFault::InvalidIncomingManifest(e@),
            BehaviorAdmissionError::PackageMismatch { previous, incoming } =>
                AdmissionFault::PackageMismatch(previous@, incoming@),
            BehaviorAdmissionError::DurableOwnerRemoved { actor } =>
                AdmissionFault::DurableOwnerRemoved(actor@),
            BehaviorAdmissionError::DurabilityRemoved { actor, previous, incoming } =>
                AdmissionFault::DurabilityRemoved(actor@, *previous, *incoming),
            BehaviorAdmissionError::PersistenceClassChanged { actor, previous, incoming } =>
                AdmissionFault::PersistenceClassChanged(actor@, *previous, *incoming),
            BehaviorAdmissionError::SchemaDowngrade { actor, previous, incoming } =>
                AdmissionFault::SchemaDowngrade(actor@, *previous, *incoming),
            BehaviorAdmissionError::UnversionedSchemaChange { actor, version } =>
                AdmissionFault::UnversionedSchemaChange(actor@, *version),
            BehaviorAdmissionError::MissingMigrationStep { actor, from, to } =>
                AdmissionFault::MissingMigrationStep(actor@, *from, *to),
            BehaviorAdmissionError::ExistingMigrationTopologyChanged { actor } =>
                AdmissionFault::ExistingMigrationTopologyChanged(actor@),
        }
    }
}

/// The change of a persistence class.
pub open spec fn change_text(a: BehaviorPersistence, b: BehaviorPersistence) -> Seq<char> {
    "("@ + a.spec_name() + " -> "@ + b.spec_name() + ")"@
}

fn change(a: BehaviorPersistence, b: BehaviorPersistence) -> (r: String)
    ensures
        r@ == change_text(a, b),
{
    cat5("(", a.name().as_str(), " -> ", b.name().as_str(), ")")
}

/// The text of an admission error.
pub open spec fn admission_text(f: AdmissionFault) -> Seq<char> {
    match f {
        AdmissionFault::InvalidPreviousManifest(e) => "previous behavior manifest is invalid: "@
            + fault_text(e),
        AdmissionFault::InvalidIncomingManifest(e) => "incoming behavior manifest is invalid: "@
            + fault_text(e),
        AdmissionFault::PackageMismatch(p, i) => "behavior manifest package mismatch: deployed '"@
            + p + "', incoming '"@ + i + "'"@,
        AdmissionFault::DurableOwnerRemoved(a) =>
            "incoming deployment removes durable state owner '"@ + a + "'"@,
        AdmissionFault::DurabilityRemoved(a, p, i) =>
            "incoming deployment removes durability from '"@ + a + "' "@ + change_text(p, i),
        AdmissionFault::PersistenceClassChanged(a, p, i) =>
            "incoming deployment changes persistence class for '"@ + a + "' "@ + change_text(p, i)
            + " without a storage-model migration contract"@,
        AdmissionFault::SchemaDowngrade(a, p, i) => "incoming deployment downgrades '"@ + a
            + "' schema from "@ + text::dec(p as nat) + (" to "@ + text::dec(i as nat)),
        AdmissionFault::UnversionedSchemaChange(a, v) => "incoming deployment changes '"@ + a
            + "' state schema without bumping schema version "@ + text::dec(v as nat),
        AdmissionFault::MissingMigrationStep(a, from, to) =>
            "incoming deployment lacks migration "@ + step_text(from, to)
            + " required for durable actor '"@ + a + "'"@,
        AdmissionFault::ExistingMigrationTopologyChanged(a) =>
            "incoming deployment changes an existing migration topology for durable actor '"@ + a
            + "'"@,
    }
}

/// A migration step by its versions.
pub open spec fn step_text(from: u32, to: u32) -> Seq<char> {
    text::dec(from as nat) + " -> "@ + text::dec(to as nat)
}

fn step_name(from: u32, to: u32) -> (r: String)
    ensures
        r@ == step_text(from, to),
{
    cat3(dec_of(from as u64).as_str(), " -> ", dec_of(to as u64).as_str())
}

impl BehaviorAdmissionError {
    pub fn to_string(&self) -> (r: String)
        ensures
            r@ == admission_text(self@),
    {
        match self {
            BehaviorAdmissionError::InvalidPreviousManifest(e) => cat2(
                "previous behavior manifest is invalid: ",
                e.to_string().as_str(),
            ),
            BehaviorAdmissionError::InvalidIncomingManifest(e) => cat2(
                "incoming behavior manifest is invalid: ",
                e.to_string().as_str(),
            ),
            BehaviorAdmissionError::PackageMismatch { previous, incoming } => cat5(
                "behavior manifest package mismatch: deployed '",
                previous.as_str(),
                "', incoming '",
                incoming.as_str(),
                "'",
            ),
            BehaviorAdmissionError::DurableOwnerRemoved { actor } => cat3(
                "incoming deployment removes durable state owner '",
                actor.as_str(),
                "'",
            ),
            BehaviorAdmissionError::DurabilityRemoved { actor, previous, incoming } => cat4(
                "incoming deployment removes durability from '",
                actor.as_str(),
                "' ",
                change(*previous, *incoming).as_str(),
            ),
            BehaviorAdmissionError::PersistenceClassChanged { actor, previous, incoming } => cat5(
                "incoming deployment changes persistence class for '",
                actor.as_str(),
                "' ",
                change(*previous, *incoming).as_str(),
                " without a storage-model migration contract",
            ),
            BehaviorAdmissionError::SchemaDowngrade { actor, previous, incoming } => cat5(
                "incoming deployment downgrades '",
                actor.as_str(),
                "' schema from ",
                dec_of(*previous as u64).as_str(),
                cat2(" to ", dec_of(*incoming as u64).as_str()).as_str(),
            ),
            BehaviorAdmissionError::UnversionedSchemaChange { actor, version } => cat4(
                "incoming deployment changes '",
                actor.as_str(),
                "' state schema without bumping schema version ",
                dec_of(*version as u64).as_str(),
            ),
            BehaviorAdmissionError::MissingMigrationStep { actor, from, to } => cat5(
                "incoming deployment lacks migration ",
                step_name(*from, *to).as_str(),
                " required for durable actor '",
                actor.as_str(),
                "'",
            ),
            BehaviorAdmissionError::ExistingMigrationTopologyChanged { actor } => cat3(
                "incoming deployment changes an existing migration topology for durable actor '",
                actor.as_str(),
                "'",
            ),
        }
    }
}

// ---------------------------------------------------------------------------
// Validation
// ---------------------------------------------------------------------------

/// What is wrong with a digest field, if anything.
pub open spec fn digest_fault(field: Seq<char>, value: Seq<char>) -> Option<ManifestFault> {
    if !text::begins_with(value, "blake3:"@) {
        Some(
            ManifestFault::InvalidDigest(
                field,
                "expected blake3:<64 lowercase hex characters>"@,
            ),
        )
    } else {
        let hex = encode_utf8(value.skip("blake3:"@.len() as int));
        if hex.len() != 64 || exists|i: int|
            0 <= i < hex.len() && !hashing::is_hex_byte(#[trigger] hex[i]) {
            Some(ManifestFault::InvalidDigest(field, "expected blake3:<64 hex characters>"@))
        } else {
            None
        }
    }
}

fn validate_blake3_digest(field: &'static str, value: &str) -> (r: Result<
    (),
    BehaviorManifestError,
>)
    ensures
        match r {
            Ok(_) => digest_fault(field@, value@) is None,
            Err(e) => digest_fault(field@, value@) == Some(e@),
        },
{
    if !text_starts_with(value, "blake3:") {
        return Err(
            BehaviorManifestError::InvalidDigest {
                field,
                message: text("expected blake3:<64 lowercase hex characters>"),
            },
        );
    }
    let prefix: Vec<char> = chars_of("blake3:");
    let chars: Vec<char> = chars_of(value);
    let rest: String = string_of(&chars, prefix.len(), chars.len());
    assert(rest@ =~= value@.skip("blake3:"@.len() as int));
    let hex: &[u8] = rest.as_str().as_bytes();
    let mut sound: bool = hex.len() == 64;
    let mut i: usize = 0;
    while i < hex.len()
        invariant
            i <= hex@.len(),
            sound <==> hex@.len() == 64 && forall|k: int|
                0 <= k < i ==> hashing::is_hex_byte(#[trigger] hex@[k]),
        decreases hex@.len() - i,
    {
        let b: u8 = hex[i];
        if !((0x30 <= b && b <= 0x39) || (0x41 <= b && b <= 0x46) || (0x61 <= b && b <= 0x66)) {
            sound = false;
            assert(!hashing::is_hex_byte(hex@[i as int]));
        }
        i += 1;
    }
    if !sound {
        return Err(
            BehaviorManifestError::InvalidDigest {
                field,
                message: text("expected blake3:<64 hex characters>"),
            },
        );
    }
    Ok(())
}

/// The digest that an identity text stands for.
pub open spec fn identity_digest(s: Seq<char>) -> Option<Seq<u8>> {
    if encode_utf8(s).len() == 64 {
        hashing::hex_decoded(encode_utf8(s))
    } else {
        None
    }
}

/// What is wrong with an identity field, if anything.
pub open spec fn identity_fault(field: Seq<char>, value: Seq<char>) -> Option<ManifestFault> {
    if encode_utf8(value).len() != 64 {
        Some(
            ManifestFault::InvalidIdentity(
                field,
                "content identity must contain 64 hex characters, got "@ + text::dec(
                    encode_utf8(value).len(),
                ),
            ),
        )
    } else if identity_digest(value) is None {
        Some(
            ManifestFault::InvalidIdentity(field, "content identity is not valid hex: "@ + value),
        )
    } else {
        None
    }
}

fn parse_identity(field: &'static str, value: &str) -> (r: Result<
    SemanticId,
    BehaviorManifestError,
>)
    ensures
        match r {
            Ok(id) => identity_fault(field@, value@) is None && identity_digest(value@) == Some(
                id.0@,
            ),
            Err(e) => identity_fault(field@, value@) == Some(e@),
        },
{
    match SemanticId::parse(value) {
        Ok(id) => Ok(id),
        Err(e) => Err(
            BehaviorManifestError::InvalidIdentity { field, message: e.to_string() },
        ),
    }
}

/// What is wrong with the identities of an artifact, if anything.
pub open spec fn artifact_fault(a: ArtifactView) -> Option<ManifestFault> {
    if a.kind != BEHAVIOR_ARTIFACT_KIND_NBC_V1@ && a.kind != BEHAVIOR_ARTIFACT_KIND_WASM_MODULE@ {
        Some(ManifestFault::UnsupportedArtifactKind(a.kind))
    } else if digest_fault("artifact.digest"@, a.digest) is Some {
        digest_fault("artifact.digest"@, a.digest)
    } else if identity_fault("artifact.semantic_id"@, a.semantic_id) is Some {
        identity_fault("artifact.semantic_id"@, a.semantic_id)
    } else if identity_fault("artifact.artifact_id"@, a.artifact_id) is Some {
        identity_fault("artifact.artifact_id"@, a.artifact_id)
    } else if a.source_id is Some && identity_fault("artifact.source_id"@, a.source_id->0) is Some {
        identity_fault("artifact.source_id"@, a.source_id->0)
    } else {
        let expected = hashing::blake3_digest(
            content_identity::artifact_preimage(
                identity_digest(a.semantic_id)->0,
                a.compiler_version,
                a.target,
                a.abi,
                a.backend,
                text::sorted_of(a.flags),
            ),
        );
        let actual = identity_digest(a.artifact_id)->0;
        if actual != expected {
            Some(ManifestFault::ArtifactIdentityMismatch(expected, actual))
        } else {
            None
        }
    }
}

fn validate_artifact(a: &BehaviorArtifact) -> (r: Result<(), BehaviorManifestError>)
    ensures
        match r {
            Ok(_) => artifact_fault(a@) is None,
            Err(e) => artifact_fault(a@) == Some(e@),
        },
{
    if !str_eq(a.kind.as_str(), BEHAVIOR_ARTIFACT_KIND_NBC_V1) && !str_eq(
        a.kind.as_str(),
        BEHAVIOR_ARTIFACT_KIND_WASM_MODULE,
    ) {
        return Err(BehaviorManifestError::UnsupportedArtifactKind(a.kind.clone()));
    }
    match validate_blake3_digest("artifact.digest", a.digest.as_str()) {
        Ok(_) => {},
        Err(e) => {
            return Err(e);
        },
    }
    let semantic_id: SemanticId = match parse_identity(
        "artifact.semantic_id",
        a.semantic_id.as_str(),
    ) {
        Ok(id) => id,
        Err(e) => {
            return Err(e);
        },
    };
    let actual: ArtifactId = match parse_identity("artifact.artifact_id", a.artifact_id.as_str()) {
        Ok(id) => ArtifactId(id.0),
        Err(e) => {
            return Err(e);
        },
    };
    match &a.source_id {
        Some(source) => match parse_identity("artifact.source_id", source.as_str()) {
            Ok(_) => {},
            Err(e) => {
                return Err(e);
            },
        },
        None => {},
    }
    let expected: ArtifactId = ArtifactId::from_semantic(
        semantic_id,
        a.compiler_version.as_str(),
        a.target.as_str(),
        a.abi.as_str(),
        a.backend.as_str(),
        &a.flags,
    );
    if !bytes_eq(actual.0.as_slice(), expected.0.as_slice()) {
        return Err(BehaviorManifestError::ArtifactIdentityMismatch { expected, actual });
    }
    Ok(())
}

/// What is wrong with a migration step, if anything.
pub open spec fn step_fault(a: ActorView, j: int) -> Option<ManifestFault> {
    let step = a.migrations[j];
    if step.from == 0 || step.to != (if step.from == u32::MAX {
        u32::MAX as int
    } else {
        step.from + 1
    }) {
        Some(
            ManifestFault::InvalidActor(
                a.name,
                "migration "@ + step_text(step.from, step.to)
                    + " must advance exactly one positive schema version"@,
            ),
        )
    } else if step.to > a.schema_version {
        Some(
            ManifestFault::InvalidActor(
                a.name,
                "migration "@ + step_text(step.from, step.to) + " exceeds current schema version "@
                    + text::dec(a.schema_version as nat),
            ),
        )
    } else if exists|k: int| 0 <= k < j && (#[trigger] a.migrations[k]).from == step.from {
        Some(
            ManifestFault::InvalidActor(
                a.name,
                "duplicate migration origin schema version "@ + text::dec(step.from as nat),
            ),
        )
    } else {
        None
    }
}

/// The first fault among the steps from `j` on.
pub open spec fn steps_fault(a: ActorView, j: int) -> Option<ManifestFault>
    decreases a.migrations.len() - j,
{
    if j < 0 || j >= a.migrations.len() {
        None
    } else if step_fault(a, j) is Some {
        step_fault(a, j)
    } else {
        steps_fault(a, j + 1)
    }
}

/// Whether a step starts at a version.
pub open spec fn has_origin(steps: Seq<StepView>, from: u32) -> bool {
    exists|k: int| 0 <= k < steps.len() && (#[trigger] steps[k]).from == from
}

/// The first version from `from` on that no step leaves, below the current one.
pub open spec fn gap_fault(a: ActorView, from: int) -> Option<ManifestFault>
    decreases a.schema_version - from,
{
    if from >= a.schema_version || from < 0 {
        None
    } else if !has_origin(a.migrations, from as u32) {
        Some(
            ManifestFault::InvalidActor(
                a.name,
                "missing migration "@ + step_text(from as u32, (from + 1) as u32)
                    + " required by schema version "@ + text::dec(a.schema_version as nat),
            ),
        )
    } else {
        gap_fault(a, from + 1)
    }
}

/// What is wrong with the state owner at a position, if anything.
pub open spec fn actor_fault(actors: Seq<ActorView>, i: int) -> Option<ManifestFault> {
    let a = actors[i];
    if exists|k: int| 0 <= k < i && (#[trigger] actors[k]).name == a.name {
        Some(ManifestFault::DuplicateActor(a.name))
    } else if a.schema_version == 0 {
        Some(ManifestFault::InvalidActor(a.name, "schema_version must be positive"@))
    } else if identity_fault("actors[].state_schema_semantic_id"@, a.schema_id) is Some {
        identity_fault("actors[].state_schema_semantic_id"@, a.schema_id)
    } else if steps_fault(a, 0) is Some {
        steps_fault(a, 0)
    } else {
        gap_fault(a, 1)
    }
}

/// The first fault among the state owners from `i` on.
pub open spec fn actors_fault(actors: Seq<ActorView>, i: int) -> Option<ManifestFault>
    decreases actors.len() - i,
{
    if i < 0 || i >= actors.len() {
        None
    } else if actor_fault(actors, i) is Some {
        actor_fault(actors, i)
    } else {
        actors_fault(actors, i + 1)
    }
}

/// What is wrong with a manifest, if anything.
pub open spec fn fault(m: ManifestView) -> Option<ManifestFault> {
    if m.schema != BEHAVIOR_MANIFEST_SCHEMA@ {
        Some(ManifestFault::UnsupportedSchema(m.schema))
    } else if text::is_blank(m.package.name) {
        Some(ManifestFault::InvalidPackage("package name must not be empty"@))
    } else if text::is_blank(m.package.version) {
        Some(ManifestFault::InvalidPackage("package version must not be empty"@))
    } else if artifact_fault(m.artifact) is Some {
        artifact_fault(m.artifact)
    } else {
        actors_fault(m.actors, 0)
    }
}

fn origin_before(steps: &Vec<BehaviorMigrationStep>, to: usize, from: u32) -> (r: bool)
    requires
        to <= steps@.len(),
    ensures
        r <==> exists|k: int| 0 <= k < to && (#[trigger] step_views(steps@)[k]).from == from,
{
    let ghost views = step_views(steps@);
    let mut k: usize = 0;
    while k < to
        invariant
            k <= to <= steps@.len(),
            views == step_views(steps@),
            forall|j: int| 0 <= j < k ==> (#[trigger] views[j]).from != from,
        decreases to - k,
    {
        if steps[k].from == from {
            assert(views[k as int].from == from);
            return true;
        }
        assert(views[k as int].from != from);
        k += 1;
    }
    false
}

fn check_step(a: &BehaviorActor, j: usize) -> (r: Result<(), BehaviorManifestError>)
    requires
        j < a.migrations@.len(),
    ensures
        match r {
            Ok(_) => step_fault(a@, j as int) is None,
            Err(e) => step_fault(a@, j as int) == Some(e@),
        },
{
    let step: &BehaviorMigrationStep = &a.migrations[j];
    assert(a@.migrations[j as int] == step@);
    let next: u32 = if step.from == u32::MAX {
        u32::MAX
    } else {
        step.from + 1
    };
    if step.from == 0 || step.to != next {
        return Err(
            BehaviorManifestError::InvalidActor {
                actor: a.name.clone(),
                message: cat3(
                    "migration ",
                    step_name(step.from, step.to).as_str(),
                    " must advance exactly one positive schema version",
                ),
            },
        );
    }
    if step.to > a.schema_version {
        return Err(
            BehaviorManifestError::InvalidActor {
                actor: a.name.clone(),
                message: cat4(
                    "migration ",
                    step_name(step.from, step.to).as_str(),
                    " exceeds current schema version ",
                    dec_of(a.schema_version as u64).as_str(),
                ),
            },
        );
    }
    if origin_before(&a.migrations, j, step.from) {
        return Err(
            BehaviorManifestError::InvalidActor {
                actor: a.name.clone(),
                message: cat2(
                    "duplicate migration origin schema version ",
                    dec_of(step.from as u64).as_str(),
                ),
            },
        );
    }
    Ok(())
}

fn check_steps(a: &BehaviorActor) -> (r: Result<(), BehaviorManifestError>)
    ensures
        match r {
            Ok(_) => steps_fault(a@, 0) is None,
            Err(e) => steps_fault(a@, 0) == Some(e@),
        },
{
    let mut j: usize = 0;
    while j < a.migrations.len()
        invariant
            j <= a.migrations@.len(),
            steps_fault(a@, 0) == steps_fault(a@, j as int),
        decreases a.migrations@.len() - j,
    {
        match check_step(a, j) {
            Ok(_) => {},
            Err(e) => {
                return Err(e);
            },
        }
        j += 1;
    }
    Ok(())
}

fn check_gaps(a: &BehaviorActor) -> (r: Result<(), BehaviorManifestError>)
    ensures
        match r {
            Ok(_) => gap_fault(a@, 1) is None,
            Err(e) => gap_fault(a@, 1) == Some(e@),
        },
{
    let mut from: u32 = 1;
    while from < a.schema_version
        invariant
            1 <= from,
            gap_fault(a@, 1) == gap_fault(a@, from as int),
        decreases a.schema_version - from,
    {
        if !origin_before(&a.migrations, a.migrations.len(), from) {
            assert(!has_origin(a@.migrations, from));
            return Err(
                BehaviorManifestError::InvalidActor {
                    actor: a.name.clone(),
                    message: cat4(
                        "missing migration ",
                        step_name(from, from + 1).as_str(),
                        " required by schema version ",
                        dec_of(a.schema_version as u64).as_str(),
                    ),
                },
            );
        }
        from += 1;
    }
    Ok(())
}

fn name_before(actors: &Vec<BehaviorActor>, to: usize, name: &str) -> (r: bool)
    requires
        to <= actors@.len(),
    ensures
        r <==> exists|k: int| 0 <= k < to && (#[trigger] actor_views(actors@)[k]).name == name@,
{
    let ghost views = actor_views(actors@);
    let mut k: usize = 0;
    while k < to
        invariant
            k <= to <= actors@.len(),
            views == actor_views(actors@),
            forall|j: int| 0 <= j < k ==> (#[trigger] views[j]).name != name@,
        decreases to - k,
    {
        if str_eq(actors[k].name.as_str(), name) {
            assert(views[k as int].name == name@);
            return true;
        }
        assert(views[k as int].name != name@);
        k += 1;
    }
    false
}

fn check_actor(actors: &Vec<BehaviorActor>, i: usize) -> (r: Result<(), BehaviorManifestError>)
    requires
        i < actors@.len(),
    ensures
        match r {
            Ok(_) => actor_fault(actor_views(actors@), i as int) is None,
            Err(e) => actor_fault(actor_views(actors@), i as int) == Some(e@),
        },
{
    let a: &BehaviorActor = &actors[i];
    assert(actor_views(actors@)[i as int] == a@);
    if name_before(actors, i, a.name.as_str()) {
        return Err(BehaviorManifestError::DuplicateActor(a.name.clone()));
    }
    if a.schema_version == 0 {
        return Err(
            BehaviorManifestError::InvalidActor {
                actor: a.name.clone(),
                message: text("schema_version must be positive"),
            },
        );
    }
    match parse_identity(
        "actors[].state_schema_semantic_id",
        a.state_schema_semantic_id.as_str(),
    ) {
        Ok(_) => {},
        Err(e) => {
            return Err(e);
        },
    }
    match check_steps(a) {
        Ok(_) => {},
        Err(e) => {
            return Err(e);
        },
    }
    check_gaps(a)
}

impl BehaviorManifest {
    fn copied(&self) -> (r: Self)
        ensures
            r@ == self@,
    {
        BehaviorManifest {
            schema: self.schema.clone(),
            package: BehaviorPackage {
                name: self.package.name.clone(),
                version: self.package.version.clone(),
                language_version: self.package.language_version.clone(),
            },
            artifact: BehaviorArtifact {
                kind: self.artifact.kind.clone(),
                digest: self.artifact.digest.clone(),
                source_id: clone_opt(&self.artifact.source_id),
                semantic_id: self.artifact.semantic_id.clone(),
                artifact_id: self.artifact.artifact_id.clone(),
                compiler_version: self.artifact.compiler_version.clone(),
                target: self.artifact.target.clone(),
                abi: self.artifact.abi.clone(),
                backend: self.artifact.backend.clone(),
                flags: clone_strings(&self.artifact.flags),
            },
            actors: copy_actors(&self.actors),
        }
    }

    /// Bring a manifest into normal form.
    pub fn normalize(&mut self)
        ensures
            final(self)@ == normalized(old(self)@),
    {
        let ghost before = self@;
        self.artifact.flags = sorted_set(&self.artifact.flags);
        let mut actors: Vec<BehaviorActor> = Vec::new();
        std::mem::swap(&mut actors, &mut self.actors);
        self.actors = normalize_actors(actors);
        assert(self@ =~= normalized(before));
    }

    /// Check a manifest; fails closed on an unknown schema, malformed
    /// identities, duplicate owners, or invalid migration topology.
    pub fn validate(&self) -> (r: Result<(), BehaviorManifestError>)
        ensures
            match r {
                Ok(_) => fault(self@) is None,
                Err(e) => fault(self@) == Some(e@),
            },
    {
        if !str_eq(self.schema.as_str(), BEHAVIOR_MANIFEST_SCHEMA) {
            return Err(BehaviorManifestError::UnsupportedSchema(self.schema.clone()));
        }
        if blank(self.package.name.as_str()) {
            return Err(
                BehaviorManifestError::InvalidPackage(text("package name must not be empty")),
            );
        }
        if blank(self.package.version.as_str()) {
            return Err(
                BehaviorManifestError::InvalidPackage(text("package version must not be empty")),
            );
        }
        match validate_artifact(&self.artifact) {
            Ok(_) => {},
            Err(e) => {
                return Err(e);
            },
        }
        let mut i: usize = 0;
        while i < self.actors.len()
            invariant
                i <= self.actors@.len(),
                actors_fault(self@.actors, 0) == actors_fault(self@.actors, i as int),
                fault(self@) == actors_fault(self@.actors, 0),
            decreases self.actors@.len() - i,
        {
            match check_actor(&self.actors, i) {
                Ok(_) => {},
                Err(e) => {
                    return Err(e);
                },
            }
            i += 1;
        }
        Ok(())
    }

    /// Normalize and check a manifest that was just read.
    pub fn into_checked(self) -> (r: Result<Self, BehaviorManifestError>)
        ensures
            match r {
                Ok(m) => m@ == normalized(self@) && fault(normalized(self@)) is None,
                Err(e) => fault(normalized(self@)) == Some(e@),
            },
    {
        let mut m: BehaviorManifest = self;
        m.normalize();
        match m.validate() {
            Ok(_) => Ok(m),
            Err(e) => Err(e),
        }
    }

    /// The checked normal form of a manifest.
    pub fn canonical(&self) -> (r: Result<Self, BehaviorManifestError>)
        ensures
            match r {
                Ok(m) => m@ == normalized(self@) && fault(normalized(self@)) is None,
                Err(e) => fault(normalized(self@)) == Some(e@),
            },
    {
        self.copied().into_checked()
    }

    /// Verify that this sidecar accompanies the exact executable bytes it
    /// claims to describe.
    pub fn verify_artifact_bytes(&self, artifact_bytes: &[u8]) -> (r: Result<
        (),
        BehaviorManifestError,
    >)
        ensures
            match r {
                Ok(_) => fault(self@) is None && self@.artifact.digest == artifact_digest_text(
                    artifact_bytes@,
                ),
                Err(e) => if fault(self@) is Some {
                    fault(self@) == Some(e@)
                } else {
                    self@.artifact.digest != artifact_digest_text(artifact_bytes@) && e@
                        == ManifestFault::ArtifactDigestMismatch(
                        self@.artifact.digest,
                        artifact_digest_text(artifact_bytes@),
                    )
                },
            },
    {
        match self.validate() {
            Ok(_) => {},
            Err(e) => {
                return Err(e);
            },
        }
        let actual: String = artifact_digest(artifact_bytes);
        if !str_eq(actual.as_str(), self.artifact.digest.as_str()) {
            return Err(
                BehaviorManifestError::ArtifactDigestMismatch {
                    expected: self.artifact.digest.clone(),
                    actual,
                },
            );
        }
        Ok(())
    }
}

/// The digest text of executable bytes.
pub open spec fn artifact_digest_text(b: Seq<u8>) -> Seq<char> {
    "blake3:"@ + hashing::hex_text(hashing::blake3_digest(b))
}

/// The digest text of executable bytes.
pub fn artifact_digest(b: &[u8]) -> (r: String)
    ensures
        r@ == artifact_digest_text(b@),
{
    cat2("blake3:", blake3_hex(b).as_str())
}

/// The digest text of any bytes is a sound digest field.
pub proof fn artifact_digest_is_sound(field: Seq<char>, b: Seq<u8>)
    requires
        hashing::blake3_digest(b).len() == 32,
    ensures
        digest_fault(field, artifact_digest_text(b)) is None,
{
    let d = hashing::blake3_digest(b);
    let t = artifact_digest_text(b);
    let p = "blake3:"@;
    assert(t.skip(p.len() as int) =~= hashing::hex_text(d));
    hashing::hex_text_bytes(d);
    hashing::hex_round_trip(d);
    assert(text::begins_with(t, p)) by {
        assert(t.subrange(0, p.len() as int) =~= p);
    }
}

// ---------------------------------------------------------------------------
// Upgrade preflight
// ---------------------------------------------------------------------------

/// The first position from `i` on of the state owner with a name.
pub open spec fn owner_index(actors: Seq<ActorView>, name: Seq<char>, i: int) -> int
    decreases actors.len() - i,
{
    if i < 0 || i >= actors.len() {
        -1
    } else if actors[i].name == name {
        i
    } else {
        owner_index(actors, name, i + 1)
    }
}

/// Whether a step leads from a version to the next.
pub open spec fn has_step(steps: Seq<StepView>, from: int) -> bool {
    exists|k: int|
        0 <= k < steps.len() && (#[trigger] steps[k]).from == from && steps[k].to == from + 1
}

/// The first version from `v` on, below `to`, that no step leads on from.
pub open spec fn missing_step(steps: Seq<StepView>, v: int, to: int) -> Option<int>
    decreases to - v,
{
    if v >= to {
        None
    } else if !has_step(steps, v) {
        Some(v)
    } else {
        missing_step(steps, v + 1, to)
    }
}

/// Whether every old step is kept.
pub open spec fn keeps_steps(old_steps: Seq<StepView>, new_steps: Seq<StepView>) -> bool {
    forall|k: int| 0 <= k < old_steps.len() ==> new_steps.contains(#[trigger] old_steps[k])
}

/// Why a durable state owner cannot be replaced, if it cannot.
pub open spec fn owner_fault(owner: ActorView, incoming: Seq<ActorView>) -> Option<AdmissionFault> {
    let at = owner_index(incoming, owner.name, 0);
    if at < 0 {
        Some(AdmissionFault::DurableOwnerRemoved(owner.name))
    } else {
        let new = incoming[at];
        if !new.persistence.durable() {
            Some(
                AdmissionFault::DurabilityRemoved(owner.name, owner.persistence, new.persistence),
            )
        } else if new.persistence != owner.persistence {
            Some(
                AdmissionFault::PersistenceClassChanged(
                    owner.name,
                    owner.persistence,
                    new.persistence,
                ),
            )
        } else if new.schema_version < owner.schema_version {
            Some(
                AdmissionFault::SchemaDowngrade(
                    owner.name,
                    owner.schema_version,
                    new.schema_version,
                ),
            )
        } else if new.schema_version == owner.schema_version {
            if new.schema_id != owner.schema_id {
                Some(AdmissionFault::UnversionedSchemaChange(owner.name, owner.schema_version))
            } else if new.migrations != owner.migrations {
                Some(AdmissionFault::ExistingMigrationTopologyChanged(owner.name))
            } else {
                None
            }
        } else if !keeps_steps(owner.migrations, new.migrations) {
            Some(AdmissionFault::ExistingMigrationTopologyChanged(owner.name))
        } else {
            match missing_step(
                new.migrations,
                owner.schema_version as int,
                new.schema_version as int,
            ) {
                Some(v) => Some(
                    AdmissionFault::MissingMigrationStep(owner.name, v as u32, (v + 1) as u32),
                ),
                None => None,
            }
        }
    }
}

/// The first fault among the durable owners from `i` on.
pub open spec fn owners_fault(previous: Seq<ActorView>, incoming: Seq<ActorView>, i: int) -> Option<
    AdmissionFault,
>
    decreases previous.len() - i,
{
    if i < 0 || i >= previous.len() {
        None
    } else if previous[i].persistence.durable() && owner_fault(previous[i], incoming) is Some {
        owner_fault(previous[i], incoming)
    } else {
        owners_fault(previous, incoming, i + 1)
    }
}

/// Why a package cannot be replaced, if it cannot.
pub open spec fn upgrade_fault(previous: ManifestView, incoming: ManifestView) -> Option<
    AdmissionFault,
> {
    if fault(incoming) is Some {
        Some(AdmissionFault::InvalidIncomingManifest(fault(incoming)->0))
    } else if fault(previous) is Some {
        Some(AdmissionFault::InvalidPreviousManifest(fault(previous)->0))
    } else if incoming.package.name != previous.package.name {
        Some(AdmissionFault::PackageMismatch(previous.package.name, incoming.package.name))
    } else {
        owners_fault(previous.actors, incoming.actors, 0)
    }
}

fn find_owner(actors: &Vec<BehaviorActor>, name: &str) -> (r: Option<usize>)
    ensures
        match r {
            Some(i) => i < actors@.len() && owner_index(actor_views(actors@), name@, 0) == i,
            None => owner_index(actor_views(actors@), name@, 0) < 0,
        },
{
    let ghost views = actor_views(actors@);
    let mut i: usize = 0;
    while i < actors.len()
        invariant
            i <= actors@.len(),
            views == actor_views(actors@),
            owner_index(views, name@, 0) == owner_index(views, name@, i as int),
        decreases actors@.len() - i,
    {
        if str_eq(actors[i].name.as_str(), name) {
            return Some(i);
        }
        i += 1;
    }
    None
}

fn contains_step(steps: &Vec<BehaviorMigrationStep>, s: &BehaviorMigrationStep) -> (r: bool)
    ensures
        r == step_views(steps@).contains(s@),
{
    let ghost views = step_views(steps@);
    let mut i: usize = 0;
    while i < steps.len()
        invariant
            i <= steps@.len(),
            views == step_views(steps@),
            forall|j: int| 0 <= j < i ==> #[trigger] views[j] != s@,
        decreases steps@.len() - i,
    {
        if step_eq(&steps[i], s) {
            assert(views[i as int] == s@);
            return true;
        }
        assert(views[i as int] != s@);
        i += 1;
    }
    false
}

fn keeps_all(old_steps: &Vec<BehaviorMigrationStep>, new_steps: &Vec<BehaviorMigrationStep>) -> (r:
    bool)
    ensures
        r == keeps_steps(step_views(old_steps@), step_views(new_steps@)),
{
    let ghost a = step_views(old_steps@);
    let ghost b = step_views(new_steps@);
    let mut i: usize = 0;
    while i < old_steps.len()
        invariant
            i <= old_steps@.len(),
            a == step_views(old_steps@),
            b == step_views(new_steps@),
            forall|k: int| 0 <= k < i ==> b.contains(#[trigger] a[k]),
        decreases old_steps@.len() - i,
    {
        if !contains_step(new_steps, &old_steps[i]) {
            assert(!b.contains(a[i as int]));
            return false;
        }
        assert(b.contains(a[i as int]));
        i += 1;
    }
    true
}

fn leads_on(steps: &Vec<BehaviorMigrationStep>, from: u32) -> (r: bool)
    requires
        from < u32::MAX,
    ensures
        r == has_step(step_views(steps@), from as int),
{
    let ghost views = step_views(steps@);
    let mut i: usize = 0;
    while i < steps.len()
        invariant
            i <= steps@.len(),
            from < u32::MAX,
            views == step_views(steps@),
            forall|k: int|
                0 <= k < i ==> !((#[trigger] views[k]).from == from && views[k].to == from + 1),
        decreases steps@.len() - i,
    {
        if steps[i].from == from && steps[i].to == from + 1 {
            assert(views[i as int].from == from && views[i as int].to == from + 1);
            return true;
        }
        assert(!(views[i as int].from == from && views[i as int].to == from + 1));
        i += 1;
    }
    false
}

fn check_owner(owner: &BehaviorActor, incoming: &Vec<BehaviorActor>) -> (r: Result<
    (),
    BehaviorAdmissionError,
>)
    ensures
        match r {
            Ok(_) => owner_fault(owner@, actor_views(incoming@)) is None,
            Err(e) => owner_fault(owner@, actor_views(incoming@)) == Some(e@),
        },
{
    let new: &BehaviorActor = match find_owner(incoming, owner.name.as_str()) {
        Some(i) => {
            assert(actor_views(incoming@)[i as int] == incoming@[i as int]@);
            &incoming[i]
        },
        None => {
            return Err(BehaviorAdmissionError::DurableOwnerRemoved { actor: owner.name.clone() });
        },
    };
    if !new.persistence.is_durable() {
        return Err(
            BehaviorAdmissionError::DurabilityRemoved {
                actor: owner.name.clone(),
                previous: owner.persistence,
                incoming: new.persistence,
            },
        );
    }
    if new.persistence != owner.persistence {
        return Err(
            BehaviorAdmissionError::PersistenceClassChanged {
                actor: owner.name.clone(),
                previous: owner.persistence,
                incoming: new.persistence,
            },
        );
    }
    if new.schema_version < owner.schema_version {
        return Err(
            BehaviorAdmissionError::SchemaDowngrade {
                actor: owner.name.clone(),
                previous: owner.schema_version,
                incoming: new.schema_version,
            },
        );
    }
    if new.schema_version == owner.schema_version {
        if !str_eq(
            new.state_schema_semantic_id.as_str(),
            owner.state_schema_semantic_id.as_str(),
        ) {
            return Err(
                BehaviorAdmissionError::UnversionedSchemaChange {
                    actor: owner.name.clone(),
                    version: owner.schema_version,
                },
            );
        }
        if !steps_eq(&new.migrations, &owner.migrations) {
            return Err(
                BehaviorAdmissionError::ExistingMigrationTopologyChanged {
                    actor: owner.name.clone(),
                },
            );
        }
        return Ok(());
    }
    if !keeps_all(&owner.migrations, &new.migrations) {
        return Err(
            BehaviorAdmissionError::ExistingMigrationTopologyChanged {
                actor: owner.name.clone(),
            },
        );
    }
    let mut version: u32 = owner.schema_version;
    while version < new.schema_version
        invariant
            owner.schema_version <= version <= new.schema_version,
            missing_step(
                new@.migrations,
                owner.schema_version as int,
                new.schema_version as int,
            ) == missing_step(new@.migrations, version as int, new.schema_version as int),
            owner_fault(owner@, actor_views(incoming@)) == (match missing_step(
                new@.migrations,
                owner.schema_version as int,
                new.schema_version as int,
            ) {
                Some(v) => Some(
                    AdmissionFault::MissingMigrationStep(
                        owner@.name,
                        v as u32,
                        (v + 1) as u32,
                    ),
                ),
                None => None,
            }),
        decreases new.schema_version - version,
    {
        if !leads_on(&new.migrations, version) {
            return Err(
                BehaviorAdmissionError::MissingMigrationStep {
                    actor: owner.name.clone(),
                    from: version,
                    to: version + 1,
                },
            );
        }
        version += 1;
    }
    Ok(())
}

impl BehaviorManifest {
    /// Manifest-level preflight for replacing a previously deployed package.
    ///
    /// Success means that no structural durable-state incompatibility is
    /// visible in the two manifests. It does not prove migration-body
    /// equivalence.
    pub fn validate_upgrade_from(&self, previous: &BehaviorManifest) -> (r: Result<
        (),
        BehaviorAdmissionError,
    >)
        ensures
            match r {
                Ok(_) => upgrade_fault(previous@, self@) is None,
                Err(e) => upgrade_fault(previous@, self@) == Some(e@),
            },
    {
        match self.validate() {
            Ok(_) => {},
            Err(e) => {
                return Err(BehaviorAdmissionError::InvalidIncomingManifest(e));
            },
        }
        match previous.validate() {
            Ok(_) => {},
            Err(e) => {
                return Err(BehaviorAdmissionError::InvalidPreviousManifest(e));
            },
        }
        if !str_eq(self.package.name.as_str(), previous.package.name.as_str()) {
            return Err(
                BehaviorAdmissionError::PackageMismatch {
                    previous: previous.package.name.clone(),
                    incoming: self.package.name.clone(),
                },
            );
        }
        let mut i: usize = 0;
        while i < previous.actors.len()
            invariant
                i <= previous.actors@.len(),
                owners_fault(previous@.actors, self@.actors, 0) == owners_fault(
                    previous@.actors,
                    self@.actors,
                    i as int,
                ),
                upgrade_fault(previous@, self@) == owners_fault(
                    previous@.actors,
                    self@.actors,
                    0,
                ),
            decreases previous.actors@.len() - i,
        {
            assert(previous@.actors[i as int] == previous.actors@[i as int]@);
            if previous.actors[i].persistence.is_durable() {
                match check_owner(&previous.actors[i], &self.actors) {
                    Ok(_) => {},
                    Err(e) => {
                        return Err(e);
                    },
                }
            }
            i += 1;
        }
        Ok(())
    }
}

/// What an admitted upgrade guarantees of a durable owner: the incoming owner
/// of its name keeps the persistence class and every recorded step, and has a
/// step for every version in between.
pub open spec fn owner_can_follow(owner: ActorView, new: ActorView) -> bool {
    &&& new.name == owner.name
    &&& new.persistence == owner.persistence
    &&& new.schema_version >= owner.schema_version
    &&& keeps_steps(owner.migrations, new.migrations)
    &&& forall|v: int|
        owner.schema_version <= v < new.schema_version ==> #[trigger] has_step(new.migrations, v)
    &&& new.schema_version == owner.schema_version ==> new.schema_id == owner.schema_id
        && new.migrations == owner.migrations
}

pub proof fn owner_index_finds(actors: Seq<ActorView>, name: Seq<char>, i: int)
    requires
        0 <= i <= actors.len(),
    ensures
        owner_index(actors, name, i) < actors.len(),
        owner_index(actors, name, i) >= 0 ==> owner_index(actors, name, i) >= i && actors[owner_index(
            actors,
            name,
            i,
        )].name == name,
        owner_index(actors, name, i) < 0 ==> forall|k: int|
            i <= k < actors.len() ==> (#[trigger] actors[k]).name != name,
    decreases actors.len() - i,
{
    if i < actors.len() && actors[i].name != name {
        owner_index_finds(actors, name, i + 1);
    }
}

pub proof fn no_missing_step(steps: Seq<StepView>, v: int, to: int)
    ensures
        missing_step(steps, v, to) is None <==> (forall|w: int|
            v <= w < to ==> #[trigger] has_step(steps, w)),
        missing_step(steps, v, to) matches Some(w) ==> v <= w < to,
    decreases to - v,
{
    if v < to {
        no_missing_step(steps, v + 1, to);
        if !has_step(steps, v) {
            assert(!(forall|w: int| v <= w < to ==> #[trigger] has_step(steps, w)));
        } else if missing_step(steps, v + 1, to) is None {
            assert forall|w: int| v <= w < to implies #[trigger] has_step(steps, w) by {
                if w > v {
                    assert(v + 1 <= w < to);
                }
            }
        } else {
            let w = choose|w: int| v + 1 <= w < to && !#[trigger] has_step(steps, w);
            assert(!has_step(steps, w));
        }
    }
}

pub proof fn owner_fault_meaning(owner: ActorView, incoming: Seq<ActorView>)
    requires
        owner.persistence.durable(),
    ensures
        owner_fault(owner, incoming) is None <==> owner_index(incoming, owner.name, 0) >= 0
            && owner_can_follow(owner, incoming[owner_index(incoming, owner.name, 0)]),
{
    owner_index_finds(incoming, owner.name, 0);
    let at = owner_index(incoming, owner.name, 0);
    if at >= 0 {
        let new = incoming[at];
        no_missing_step(
            new.migrations,
            owner.schema_version as int,
            new.schema_version as int,
        );
        if new.migrations == owner.migrations {
            assert(keeps_steps(owner.migrations, new.migrations)) by {
                assert forall|k: int| 0 <= k < owner.migrations.len() implies new.migrations.contains(
                    #[trigger] owner.migrations[k],
                ) by {
                    assert(new.migrations[k] == owner.migrations[k]);
                }
            }
        }
    }
}

pub proof fn owners_fault_none(previous: Seq<ActorView>, incoming: Seq<ActorView>, i: int)
    requires
        0 <= i <= previous.len(),
    ensures
        owners_fault(previous, incoming, i) is None <==> (forall|k: int|
            i <= k < previous.len() && (#[trigger] previous[k]).persistence.durable()
                ==> owner_fault(previous[k], incoming) is None),
    decreases previous.len() - i,
{
    if i < previous.len() {
        owners_fault_none(previous, incoming, i + 1);
        if previous[i].persistence.durable() && owner_fault(previous[i], incoming) is Some {
            assert(!(forall|k: int|
                i <= k < previous.len() && (#[trigger] previous[k]).persistence.durable()
                    ==> owner_fault(previous[k], incoming) is None));
        }
    }
}

/// An admitted upgrade leaves every durable owner a way forward.
pub proof fn admitted_upgrade_keeps_durable_state(previous: ManifestView, incoming: ManifestView)
    requires
        upgrade_fault(previous, incoming) is None,
    ensures
        forall|k: int|
            0 <= k < previous.actors.len() && (#[trigger] previous.actors[k]).persistence.durable()
                ==> owner_index(incoming.actors, previous.actors[k].name, 0) >= 0
                && owner_can_follow(
                previous.actors[k],
                incoming.actors[owner_index(incoming.actors, previous.actors[k].name, 0)],
            ),
{
    owners_fault_none(previous.actors, incoming.actors, 0);
    assert forall|k: int|
        0 <= k < previous.actors.len() && (
        #[trigger] previous.actors[k]).persistence.durable() implies owner_index(
        incoming.actors,
        previous.actors[k].name,
        0,
    ) >= 0 && owner_can_follow(
        previous.actors[k],
        incoming.actors[owner_index(incoming.actors, previous.actors[k].name, 0)],
    ) by {
        owner_fault_meaning(previous.actors[k], incoming.actors);
    }
}

proof fn distinct_names(actors: Seq<ActorView>, i: int)
    requires
        0 <= i <= actors.len(),
        actors_fault(actors, i) is None,
    ensures
        forall|j: int, k: int|
            0 <= j < k < actors.len() && k >= i ==> (#[trigger] actors[j]).name != (
            #[trigger] actors[k]).name,
    decreases actors.len() - i,
{
    if i < actors.len() {
        distinct_names(actors, i + 1);
        assert(actor_fault(actors, i) is None);
    }
}

/// A valid manifest can replace itself.
pub proof fn upgrade_is_reflexive(m: ManifestView)
    requires
        fault(m) is None,
    ensures
        upgrade_fault(m, m) is None,
{
    distinct_names(m.actors, 0);
    owners_fault_none(m.actors, m.actors, 0);
    assert forall|k: int|
        0 <= k < m.actors.len() && (
        #[trigger] m.actors[k]).persistence.durable() implies owner_fault(
        m.actors[k],
        m.actors,
    ) is None by {
        let owner = m.actors[k];
        owner_index_finds(m.actors, owner.name, 0);
        let at = owner_index(m.actors, owner.name, 0);
        assert(at == k);
        assert(keeps_steps(owner.migrations, owner.migrations)) by {
            assert forall|j: int| 0 <= j < owner.migrations.len() implies owner.migrations.contains(
                #[trigger] owner.migrations[j],
            ) by {}
        }
        owner_fault_meaning(owner, m.actors);
    }
}

/// Upgrades that are admitted one after the other are admitted as one.
pub proof fn upgrade_is_transitive(a: ManifestView, b: ManifestView, c: ManifestView)
    requires
        upgrade_fault(a, b) is None,
        upgrade_fault(b, c) is None,
    ensures
        upgrade_fault(a, c) is None,
{
    admitted_upgrade_keeps_durable_state(a, b);
    admitted_upgrade_keeps_durable_state(b, c);
    owners_fault_none(a.actors, c.actors, 0);
    assert forall|k: int|
        0 <= k < a.actors.len() && (
        #[trigger] a.actors[k]).persistence.durable() implies owner_fault(
        a.actors[k],
        c.actors,
    ) is None by {
        let x = a.actors[k];
        owner_index_finds(b.actors, x.name, 0);
        let y = b.actors[owner_index(b.actors, x.name, 0)];
        assert(owner_can_follow(x, y));
        owner_index_finds(c.actors, y.name, 0);
        let z = c.actors[owner_index(c.actors, y.name, 0)];
        assert(y.persistence.durable());
        assert(owner_can_follow(y, z));
        assert(keeps_steps(x.migrations, z.migrations)) by {
            assert forall|j: int| 0 <= j < x.migrations.len() implies z.migrations.contains(
                #[trigger] x.migrations[j],
            ) by {
                let n = y.migrations.index_of(x.migrations[j]);
                assert(y.migrations.contains(x.migrations[j]));
                assert(y.migrations[n] == x.migrations[j]);
            }
        }
        assert forall|v: int| x.schema_version <= v < z.schema_version implies #[trigger] has_step(
            z.migrations,
            v,
        ) by {
            if v < y.schema_version {
                assert(has_step(y.migrations, v));
                let n = choose|n: int|
                    0 <= n < y.migrations.len() && (#[trigger] y.migrations[n]).from == v
                        && y.migrations[n].to == v + 1;
                assert(z.migrations.contains(y.migrations[n]));
                let w = z.migrations.index_of(y.migrations[n]);
                assert(z.migrations[w].from == v && z.migrations[w].to == v + 1);
            } else {
                assert(has_step(z.migrations, v));
            }
        }
        assert(owner_can_follow(x, z));
        owner_fault_meaning(x, c.actors);
    }
}

// ---------------------------------------------------------------------------
// Canonical JSON and manifest identity
// ---------------------------------------------------------------------------

/// A JSON list.
pub open spec fn list_json(items: Seq<Seq<char>>) -> Seq<char> {
    "["@ + text::joined(items, ","@) + "]"@
}

/// Texts as a JSON list.
pub open spec fn texts_json(items: Seq<Seq<char>>) -> Seq<char> {
    list_json(items.map_values(|s: Seq<char>| json::json_text(s)))
}

/// An event as JSON.
pub open spec fn event_json(e: EventView) -> Seq<char> {
    json::text_field("{\"name\""@, e.0) + json::number_field(",\"arity\""@, e.1 as nat) + "}"@
}

/// A step as JSON; events are left out when there are none.
pub open spec fn step_json(s: StepView) -> Seq<char> {
    json::number_field("{\"from\""@, s.from as nat) + json::number_field(",\"to\""@, s.to as nat)
        + (if s.state {
        ",\"state\":true"@
    } else {
        ",\"state\":false"@
    }) + (if s.events.len() == 0 {
        Seq::empty()
    } else {
        ",\"events\":"@ + list_json(s.events.map_values(|e: EventView| event_json(e)))
    }) + "}"@
}

/// A workflow step as JSON.
pub open spec fn workflow_step_json(s: WorkflowStepView) -> Seq<char> {
    json::text_field("{\"name\""@, s.name) + (if s.compensation {
        ",\"compensation\":true"@
    } else {
        ",\"compensation\":false"@
    }) + (if s.parallel_branches.len() == 0 {
        Seq::empty()
    } else {
        ",\"parallel_branches\":"@ + texts_json(s.parallel_branches)
    }) + "}"@
}

/// The member that tells the kind of an owner.
pub open spec fn kind_json(k: BehaviorOwnerKind) -> Seq<char> {
    match k {
        BehaviorOwnerKind::Actor => ",\"kind\":\"actor\""@,
        BehaviorOwnerKind::Workflow => ",\"kind\":\"workflow\""@,
        BehaviorOwnerKind::Agent => ",\"kind\":\"agent\""@,
        BehaviorOwnerKind::Organization => ",\"kind\":\"organization\""@,
    }
}

/// The member that tells the persistence class of an owner.
pub open spec fn persistence_json(p: BehaviorPersistence) -> Seq<char> {
    match p {
        BehaviorPersistence::Ephemeral => ",\"persistence\":\"ephemeral\""@,
        BehaviorPersistence::Durable => ",\"persistence\":\"durable\""@,
        BehaviorPersistence::EventSourced => ",\"persistence\":\"event-sourced\""@,
        BehaviorPersistence::Crdt => ",\"persistence\":\"crdt\""@,
        BehaviorPersistence::Mixed => ",\"persistence\":\"mixed\""@,
    }
}

/// The migrations member; left out when there are none.
pub open spec fn migrations_json(s: Seq<StepView>) -> Seq<char> {
    if s.len() == 0 {
        Seq::empty()
    } else {
        ",\"migrations\":"@ + list_json(s.map_values(|x: StepView| step_json(x)))
    }
}

/// The workflow member; left out when there is none.
pub open spec fn workflow_json(w: Option<Seq<WorkflowStepView>>) -> Seq<char> {
    match w {
        None => Seq::empty(),
        Some(steps) => ",\"workflow\":{\"steps\":"@ + list_json(
            steps.map_values(|x: WorkflowStepView| workflow_step_json(x)),
        ) + "}"@,
    }
}

/// A state owner as JSON.
pub open spec fn actor_json(a: ActorView) -> Seq<char> {
    json::text_field("{\"name\""@, a.name) + kind_json(a.kind) + persistence_json(a.persistence)
        + json::number_field(",\"schema_version\""@, a.schema_version as nat) + json::text_field(
        ",\"state_schema_semantic_id\""@,
        a.schema_id,
    ) + ",\"migration_identity\":\"topology-only\""@ + migrations_json(a.migrations)
        + workflow_json(a.workflow) + "}"@
}

/// A package as JSON.
pub open spec fn package_json(p: PackageView) -> Seq<char> {
    json::text_field("{\"name\""@, p.name) + json::text_field(",\"version\""@, p.version)
        + json::text_field(",\"language_version\""@, p.language_version) + "}"@
}

/// An artifact as JSON.
pub open spec fn artifact_json(a: ArtifactView) -> Seq<char> {
    json::text_field("{\"kind\""@, a.kind) + json::text_field(",\"digest\""@, a.digest) + (
    match a.source_id {
        Some(s) => json::text_field(",\"source_id\""@, s),
        None => Seq::empty(),
    }) + json::text_field(",\"semantic_id\""@, a.semantic_id) + json::text_field(
        ",\"artifact_id\""@,
        a.artifact_id,
    ) + json::text_field(",\"compiler_version\""@, a.compiler_version) + json::text_field(
        ",\"target\""@,
        a.target,
    ) + json::text_field(",\"abi\""@, a.abi) + json::text_field(",\"backend\""@, a.backend) + (
    if a.flags.len() == 0 {
        Seq::empty()
    } else {
        ",\"flags\":"@ + texts_json(a.flags)
    }) + "}"@
}

/// A manifest as compact JSON: members in declaration order, empty lists and
/// absent values left out.
pub open spec fn manifest_json(m: ManifestView) -> Seq<char> {
    json::text_field("{\"schema\""@, m.schema) + ",\"package\":"@ + package_json(m.package)
        + ",\"artifact\":"@ + artifact_json(m.artifact) + (if m.actors.len() == 0 {
        Seq::empty()
    } else {
        ",\"actors\":"@ + list_json(m.actors.map_values(|a: ActorView| actor_json(a)))
    }) + "}"@
}

fn push_list(out: &mut String, items: &Vec<String>)
    ensures
        final(out)@ == old(out)@ + list_json(text::views(items@)),
{
    out.append("[");
    out.append(join(items, ",").as_str());
    out.append("]");
    assert(out@ =~= old(out)@ + list_json(text::views(items@)));
}

fn push_texts(out: &mut String, items: &Vec<String>)
    ensures
        final(out)@ == old(out)@ + texts_json(text::views(items@)),
{
    let mut literals: Vec<String> = Vec::new();
    let ghost want = text::views(items@).map_values(|s: Seq<char>| json::json_text(s));
    let mut i: usize = 0;
    assert(text::views(literals@) =~= want.take(0));
    while i < items.len()
        invariant
            i <= items@.len(),
            want == text::views(items@).map_values(|s: Seq<char>| json::json_text(s)),
            text::views(literals@) == want.take(i as int),
        decreases items@.len() - i,
    {
        let ghost before = text::views(literals@);
        literals.push(json_string(items[i].as_str()));
        i += 1;
        assert(text::views(literals@) =~= before.push(want[i - 1]));
        assert(text::views(literals@) =~= want.take(i as int));
    }
    assert(want.take(i as int) =~= want);
    push_list(out, &literals);
}

fn event_text(e: &BehaviorMigrationEvent) -> (r: String)
    ensures
        r@ == event_json(e@),
{
    let mut out: String = String::new();
    push_text_field(&mut out, "{\"name\"", e.name.as_str());
    push_number_field(&mut out, ",\"arity\"", e.arity as u64);
    out.append("}");
    assert(out@ =~= event_json(e@));
    out
}

fn push_events(out: &mut String, events: &Vec<BehaviorMigrationEvent>)
    ensures
        final(out)@ == old(out)@ + list_json(
            event_views(events@).map_values(|e: EventView| event_json(e)),
        ),
{
    let mut items: Vec<String> = Vec::new();
    let ghost want = event_views(events@).map_values(|e: EventView| event_json(e));
    let mut i: usize = 0;
    assert(text::views(items@) =~= want.take(0));
    while i < events.len()
        invariant
            i <= events@.len(),
            want == event_views(events@).map_values(|e: EventView| event_json(e)),
            text::views(items@) == want.take(i as int),
        decreases events@.len() - i,
    {
        let ghost before = text::views(items@);
        items.push(event_text(&events[i]));
        i += 1;
        assert(text::views(items@) =~= before.push(want[i - 1]));
        assert(text::views(items@) =~= want.take(i as int));
    }
    assert(want.take(i as int) =~= want);
    push_list(out, &items);
}

fn step_json_text(s: &BehaviorMigrationStep) -> (r: String)
    ensures
        r@ == step_json(s@),
{
    let mut out: String = String::new();
    push_number_field(&mut out, "{\"from\"", s.from as u64);
    push_number_field(&mut out, ",\"to\"", s.to as u64);
    if s.state {
        out.append(",\"state\":true");
    } else {
        out.append(",\"state\":false");
    }
    if s.events.len() > 0 {
        out.append(",\"events\":");
        push_events(&mut out, &s.events);
    }
    out.append("}");
    assert(out@ =~= step_json(s@));
    out
}

fn workflow_step_text(s: &BehaviorWorkflowStep) -> (r: String)
    ensures
        r@ == workflow_step_json(s@),
{
    let mut out: String = String::new();
    push_text_field(&mut out, "{\"name\"", s.name.as_str());
    if s.compensation {
        out.append(",\"compensation\":true");
    } else {
        out.append(",\"compensation\":false");
    }
    if s.parallel_branches.len() > 0 {
        out.append(",\"parallel_branches\":");
        push_texts(&mut out, &s.parallel_branches);
    }
    out.append("}");
    assert(out@ =~= workflow_step_json(s@));
    out
}

fn push_migrations(out: &mut String, steps: &Vec<BehaviorMigrationStep>)
    ensures
        final(out)@ == old(out)@ + migrations_json(step_views(steps@)),
{
    if steps.len() == 0 {
        assert(out@ =~= old(out)@ + migrations_json(step_views(steps@)));
        return ;
    }
    let mut items: Vec<String> = Vec::new();
    let ghost want = step_views(steps@).map_values(|x: StepView| step_json(x));
    let mut i: usize = 0;
    assert(text::views(items@) =~= want.take(0));
    while i < steps.len()
        invariant
            i <= steps@.len(),
            want == step_views(steps@).map_values(|x: StepView| step_json(x)),
            text::views(items@) == want.take(i as int),
        decreases steps@.len() - i,
    {
        let ghost before = text::views(items@);
        items.push(step_json_text(&steps[i]));
        i += 1;
        assert(text::views(items@) =~= before.push(want[i - 1]));
        assert(text::views(items@) =~= want.take(i as int));
    }
    assert(want.take(i as int) =~= want);
    out.append(",\"migrations\":");
    push_list(out, &items);
    assert(out@ =~= old(out)@ + migrations_json(step_views(steps@)));
}

fn push_workflow(out: &mut String, w: &Option<BehaviorWorkflow>)
    ensures
        final(out)@ == old(out)@ + workflow_json(workflow_view(*w)),
{
    match w {
        None => {
            assert(out@ =~= old(out)@ + workflow_json(workflow_view(*w)));
        },
        Some(x) => {
            let mut items: Vec<String> = Vec::new();
            let ghost want = workflow_step_views(x.steps@).map_values(
                |s: WorkflowStepView| workflow_step_json(s),
            );
            let mut i: usize = 0;
            assert(text::views(items@) =~= want.take(0));
            while i < x.steps.len()
                invariant
                    i <= x.steps@.len(),
                    want == workflow_step_views(x.steps@).map_values(
                        |s: WorkflowStepView| workflow_step_json(s),
                    ),
                    text::views(items@) == want.take(i as int),
                decreases x.steps@.len() - i,
            {
                let ghost before = text::views(items@);
                items.push(workflow_step_text(&x.steps[i]));
                i += 1;
                assert(text::views(items@) =~= before.push(want[i - 1]));
                assert(text::views(items@) =~= want.take(i as int));
            }
            assert(want.take(i as int) =~= want);
            out.append(",\"workflow\":{\"steps\":");
            push_list(out, &items);
            out.append("}");
            assert(out@ =~= old(out)@ + workflow_json(workflow_view(*w)));
        },
    }
}

fn kind_member(k: BehaviorOwnerKind) -> (r: String)
    ensures
        r@ == kind_json(k),
{
    match k {
        BehaviorOwnerKind::Actor => text(",\"kind\":\"actor\""),
        BehaviorOwnerKind::Workflow => text(",\"kind\":\"workflow\""),
        BehaviorOwnerKind::Agent => text(",\"kind\":\"agent\""),
        BehaviorOwnerKind::Organization => text(",\"kind\":\"organization\""),
    }
}

fn persistence_member(p: BehaviorPersistence) -> (r: String)
    ensures
        r@ == persistence_json(p),
{
    match p {
        BehaviorPersistence::Ephemeral => text(",\"persistence\":\"ephemeral\""),
        BehaviorPersistence::Durable => text(",\"persistence\":\"durable\""),
        BehaviorPersistence::EventSourced => text(",\"persistence\":\"event-sourced\""),
        BehaviorPersistence::Crdt => text(",\"persistence\":\"crdt\""),
        BehaviorPersistence::Mixed => text(",\"persistence\":\"mixed\""),
    }
}

fn actor_text(a: &BehaviorActor) -> (r: String)
    ensures
        r@ == actor_json(a@),
{
    let mut out: String = String::new();
    push_text_field(&mut out, "{\"name\"", a.name.as_str());
    out.append(kind_member(a.kind).as_str());
    out.append(persistence_member(a.persistence).as_str());
    push_number_field(&mut out, ",\"schema_version\"", a.schema_version as u64);
    push_text_field(
        &mut out,
        ",\"state_schema_semantic_id\"",
        a.state_schema_semantic_id.as_str(),
    );
    out.append(",\"migration_identity\":\"topology-only\"");
    push_migrations(&mut out, &a.migrations);
    push_workflow(&mut out, &a.workflow);
    out.append("}");
    assert(out@ =~= actor_json(a@));
    out
}

fn push_package(out: &mut String, p: &BehaviorPackage)
    ensures
        final(out)@ == old(out)@ + package_json(p@),
{
    push_text_field(out, "{\"name\"", p.name.as_str());
    push_text_field(out, ",\"version\"", p.version.as_str());
    push_text_field(out, ",\"language_version\"", p.language_version.as_str());
    out.append("}");
    assert(out@ =~= old(out)@ + package_json(p@));
}

fn push_artifact(out: &mut String, a: &BehaviorArtifact)
    ensures
        final(out)@ == old(out)@ + artifact_json(a@),
{
    push_text_field(out, "{\"kind\"", a.kind.as_str());
    push_text_field(out, ",\"digest\"", a.digest.as_str());
    match &a.source_id {
        Some(s) => push_text_field(out, ",\"source_id\"", s.as_str()),
        None => {},
    }
    push_text_field(out, ",\"semantic_id\"", a.semantic_id.as_str());
    push_text_field(out, ",\"artifact_id\"", a.artifact_id.as_str());
    push_text_field(out, ",\"compiler_version\"", a.compiler_version.as_str());
    push_text_field(out, ",\"target\"", a.target.as_str());
    push_text_field(out, ",\"abi\"", a.abi.as_str());
    push_text_field(out, ",\"backend\"", a.backend.as_str());
    if a.flags.len() > 0 {
        out.append(",\"flags\":");
        push_texts(out, &a.flags);
    }
    out.append("}");
    assert(out@ =~= old(out)@ + artifact_json(a@));
}

/// Domain of manifest digests, followed by the canonical JSON.
pub open spec fn digest_preimage(m: ManifestView) -> Seq<u8> {
    encode_utf8("nulang.behavior-manifest.v0alpha1\0"@) + encode_utf8(manifest_json(m))
}

impl BehaviorManifest {
    fn compact_json(&self) -> (r: String)
        ensures
            r@ == manifest_json(self@),
    {
        let mut items: Vec<String> = Vec::new();
        let ghost want = self@.actors.map_values(|a: ActorView| actor_json(a));
        let mut i: usize = 0;
        assert(text::views(items@) =~= want.take(0));
        while i < self.actors.len()
            invariant
                i <= self.actors@.len(),
                want == self@.actors.map_values(|a: ActorView| actor_json(a)),
                text::views(items@) == want.take(i as int),
            decreases self.actors@.len() - i,
        {
            let ghost before = text::views(items@);
            items.push(actor_text(&self.actors[i]));
            i += 1;
            assert(text::views(items@) =~= before.push(want[i - 1]));
            assert(text::views(items@) =~= want.take(i as int));
        }
        assert(want.take(i as int) =~= want);
        let mut out: String = String::new();
        push_text_field(&mut out, "{\"schema\"", self.schema.as_str());
        out.append(",\"package\":");
        push_package(&mut out, &self.package);
        out.append(",\"artifact\":");
        push_artifact(&mut out, &self.artifact);
        if self.actors.len() > 0 {
            out.append(",\"actors\":");
            push_list(&mut out, &items);
        }
        out.append("}");
        assert(out@ =~= manifest_json(self@));
        out
    }

    /// Deterministic compact JSON of the checked normal form.
    pub fn canonical_json(&self) -> (r: Result<String, BehaviorManifestError>)
        ensures
            match r {
                Ok(s) => fault(normalized(self@)) is None && s@ == manifest_json(normalized(self@)),
                Err(e) => fault(normalized(self@)) == Some(e@),
            },
    {
        match self.canonical() {
            Ok(m) => Ok(m.compact_json()),
            Err(e) => Err(e),
        }
    }

    /// Deterministic JSON bytes of the checked normal form, laid out in lines
    /// for a sidecar file.
    pub fn to_json(&self) -> (r: Result<Vec<u8>, BehaviorManifestError>)
        ensures
            match r {
                Ok(bytes) => fault(normalized(self@)) is None && bytes@ == encode_utf8(
                    json::pretty(manifest_json(normalized(self@))),
                ),
                Err(e) => fault(normalized(self@)) == Some(e@),
            },
    {
        match self.canonical_json() {
            Ok(s) => {
                let shown: String = json::pretty_json(s.as_str());
                let mut bytes: Vec<u8> = Vec::new();
                push_all(&mut bytes, shown.as_str().as_bytes());
                assert(bytes@ =~= encode_utf8(shown@));
                Ok(bytes)
            },
            Err(e) => Err(e),
        }
    }

    /// Domain-separated digest of the canonical compact JSON.
    pub fn digest(&self) -> (r: Result<String, BehaviorManifestError>)
        ensures
            match r {
                Ok(s) => fault(normalized(self@)) is None && s@ == "blake3:"@ + hashing::hex_text(
                    hashing::blake3_digest(digest_preimage(normalized(self@))),
                ),
                Err(e) => fault(normalized(self@)) == Some(e@),
            },
    {
        match self.canonical_json() {
            Ok(s) => {
                let mut pre: Vec<u8> = Vec::new();
                push_all(&mut pre, "nulang.behavior-manifest.v0alpha1\0".as_bytes());
                push_all(&mut pre, s.as_str().as_bytes());
                assert(pre@ =~= digest_preimage(normalized(self@)));
                Ok(cat2("blake3:", blake3_hex(pre.as_slice()).as_str()))
            },
            Err(e) => Err(e),
        }
    }
}

// ---------------------------------------------------------------------------
// Manifests from typed programs
// ---------------------------------------------------------------------------

/// An event that a schema migration handles.
#[derive(Debug, Clone, PartialEq, Eq)]
pub struct SchemaEvent {
    pub name: String,
    pub arity: usize,
}

/// A migration of a state schema.
#[derive(Debug, Clone, PartialEq, Eq)]
pub struct SchemaMigration {
    pub from_version: u32,
    pub to_version: u32,
    pub has_state_migration: bool,
    pub event_handlers: Vec<SchemaEvent>,
}

/// The state schema of an actor.
#[derive(Debug, Clone, PartialEq, Eq)]
pub struct ActorStateSchema {
    pub actor_name: String,
    pub version: u32,
    /// Canonical encoding of the fields alone, without version or migrations.
    pub state_encoding: Vec<u8>,
    pub migrations: Vec<SchemaMigration>,
}

/// Schema events by what they say.
pub open spec fn schema_events(s: Seq<SchemaEvent>) -> Seq<EventView> {
    s.map_values(|e: SchemaEvent| (e.name@, e.arity))
}

/// A schema migration as a step.
pub open spec fn schema_step(m: SchemaMigration) -> StepView {
    StepView {
        from: m.from_version,
        to: m.to_version,
        state: m.has_state_migration,
        events: schema_events(m.event_handlers@),
    }
}

/// The kind of an actor.
pub open spec fn owner_kind(a: ActorDef) -> BehaviorOwnerKind {
    if a.is_workflow {
        BehaviorOwnerKind::Workflow
    } else if a.is_agent {
        BehaviorOwnerKind::Agent
    } else if a.is_organization {
        BehaviorOwnerKind::Organization
    } else {
        BehaviorOwnerKind::Actor
    }
}

fn classify_owner_kind(actor: &ActorDef) -> (r: BehaviorOwnerKind)
    ensures
        r == owner_kind(*actor),
{
    if actor.is_workflow {
        BehaviorOwnerKind::Workflow
    } else if actor.is_agent {
        BehaviorOwnerKind::Agent
    } else if actor.is_organization {
        BehaviorOwnerKind::Organization
    } else {
        BehaviorOwnerKind::Actor
    }
}

/// Whether a field is kept durably.
pub open spec fn durable_field(f: hir::StateField) -> bool {
    f.model is Durable
}

/// Whether a field is event sourced.
pub open spec fn sourced_field(f: hir::StateField) -> bool {
    f.model is EventSourced
}

/// Whether a field is replicated.
pub open spec fn crdt_field(f: hir::StateField) -> bool {
    f.model is Crdt
}

/// The persistence class of an actor: that of its only kind of kept field,
/// mixed when there are several, and the actor's own declaration when there
/// is none.
pub open spec fn persistence_class(a: ActorDef) -> BehaviorPersistence {
    let durable = a.state_fields@.any(|f: hir::StateField| durable_field(f));
    let sourced = a.state_fields@.any(|f: hir::StateField| sourced_field(f));
    let crdt = a.state_fields@.any(|f: hir::StateField| crdt_field(f));
    match (durable, sourced, crdt) {
        (false, false, false) => if a.persistent {
            BehaviorPersistence::Durable
        } else {
            BehaviorPersistence::Ephemeral
        },
        (true, false, false) => BehaviorPersistence::Durable,
        (false, true, false) => BehaviorPersistence::EventSourced,
        (false, false, true) => BehaviorPersistence::Crdt,
        _ => BehaviorPersistence::Mixed,
    }
}

fn classify_persistence(actor: &ActorDef) -> (r: BehaviorPersistence)
    ensures
        r == persistence_class(*actor),
{
    let mut durable: bool = false;
    let mut sourced: bool = false;
    let mut crdt: bool = false;
    let ghost fields = actor.state_fields@;
    let mut i: usize = 0;
    while i < actor.state_fields.len()
        invariant
            i <= actor.state_fields@.len(),
            fields == actor.state_fields@,
            durable <==> (exists|k: int| 0 <= k < i && durable_field(#[trigger] fields[k])),
            sourced <==> (exists|k: int| 0 <= k < i && sourced_field(#[trigger] fields[k])),
            crdt <==> (exists|k: int| 0 <= k < i && crdt_field(#[trigger] fields[k])),
        decreases actor.state_fields@.len() - i,
    {
        let ghost f = fields[i as int];
        match &actor.state_fields[i].model {
            StateModel::Local => {},
            StateModel::Durable => {
                durable = true;
            },
            StateModel::EventSourced => {
                sourced = true;
            },
            StateModel::Crdt(_) => {
                crdt = true;
            },
        }
        assert(durable_field(f) || !durable_field(f));
        assert(f == fields[i as int]);
        i += 1;
    }
    proof {
        let d = |f: hir::StateField| durable_field(f);
        let s = |f: hir::StateField| sourced_field(f);
        let c = |f: hir::StateField| crdt_field(f);
        if durable {
            let k = choose|k: int| 0 <= k < fields.len() && durable_field(#[trigger] fields[k]);
            assert(d(fields[k]));
        }
        if sourced {
            let k = choose|k: int| 0 <= k < fields.len() && sourced_field(#[trigger] fields[k]);
            assert(s(fields[k]));
        }
        if crdt {
            let k = choose|k: int| 0 <= k < fields.len() && crdt_field(#[trigger] fields[k]);
            assert(c(fields[k]));
        }
        assert(fields.any(d) == durable);
        assert(fields.any(s) == sourced);
        assert(fields.any(c) == crdt);
    }
    if durable && !sourced && !crdt {
        BehaviorPersistence::Durable
    } else if !durable && sourced && !crdt {
        BehaviorPersistence::EventSourced
    } else if !durable && !sourced && crdt {
        BehaviorPersistence::Crdt
    } else if durable || sourced || crdt {
        BehaviorPersistence::Mixed
    } else if actor.persistent {
        BehaviorPersistence::Durable
    } else {
        BehaviorPersistence::Ephemeral
    }
}

/// A behavior as a workflow step.
pub open spec fn behavior_step(b: hir::BehaviorDef) -> WorkflowStepView {
    WorkflowStepView {
        name: b.name@,
        compensation: b.compensates,
        parallel_branches: match b.parallel_branches {
            Some(v) => text::views(v@),
            None => Seq::empty(),
        },
    }
}

/// The workflow of an actor, if it is one.
pub open spec fn actor_workflow(a: ActorDef) -> Option<Seq<WorkflowStepView>> {
    if a.is_workflow {
        Some(a.behaviors@.map_values(|b: hir::BehaviorDef| behavior_step(b)))
    } else {
        None
    }
}

fn workflow_metadata(actor: &ActorDef) -> (r: Option<BehaviorWorkflow>)
    ensures
        workflow_view(r) == actor_workflow(*actor),
{
    if !actor.is_workflow {
        return None;
    }
    let mut steps: Vec<BehaviorWorkflowStep> = Vec::new();
    let ghost want = actor.behaviors@.map_values(|b: hir::BehaviorDef| behavior_step(b));
    let mut i: usize = 0;
    assert(workflow_step_views(steps@) =~= want.take(0));
    while i < actor.behaviors.len()
        invariant
            i <= actor.behaviors@.len(),
            want == actor.behaviors@.map_values(|b: hir::BehaviorDef| behavior_step(b)),
            workflow_step_views(steps@) == want.take(i as int),
        decreases actor.behaviors@.len() - i,
    {
        let ghost before = workflow_step_views(steps@);
        let branches: Vec<String> = match &actor.behaviors[i].parallel_branches {
            Some(v) => clone_strings(v),
            None => Vec::new(),
        };
        let step: BehaviorWorkflowStep = BehaviorWorkflowStep {
            name: actor.behaviors[i].name.clone(),
            compensation: actor.behaviors[i].compensates,
            parallel_branches: branches,
        };
        assert(step@ =~= want[i as int]);
        steps.push(step);
        i += 1;
        assert(workflow_step_views(steps@) =~= before.push(want[i - 1]));
        assert(workflow_step_views(steps@) =~= want.take(i as int));
    }
    assert(want.take(i as int) =~= want);
    Some(BehaviorWorkflow { steps })
}

fn migration_steps(migrations: &Vec<SchemaMigration>) -> (r: Vec<BehaviorMigrationStep>)
    ensures
        step_views(r@) == migrations@.map_values(|m: SchemaMigration| schema_step(m)),
{
    let mut steps: Vec<BehaviorMigrationStep> = Vec::new();
    let ghost want = migrations@.map_values(|m: SchemaMigration| schema_step(m));
    let mut i: usize = 0;
    assert(step_views(steps@) =~= want.take(0));
    while i < migrations.len()
        invariant
            i <= migrations@.len(),
            want == migrations@.map_values(|m: SchemaMigration| schema_step(m)),
            step_views(steps@) == want.take(i as int),
        decreases migrations@.len() - i,
    {
        let ghost before = step_views(steps@);
        let handlers: &Vec<SchemaEvent> = &migrations[i].event_handlers;
        let mut events: Vec<BehaviorMigrationEvent> = Vec::new();
        let ghost named = schema_events(handlers@);
        let mut k: usize = 0;
        assert(event_views(events@) =~= named.take(0));
        while k < handlers.len()
            invariant
                k <= handlers@.len(),
                named == schema_events(handlers@),
                event_views(events@) == named.take(k as int),
            decreases handlers@.len() - k,
        {
            let ghost got = event_views(events@);
            events.push(
                BehaviorMigrationEvent { name: handlers[k].name.clone(), arity: handlers[k].arity },
            );
            k += 1;
            assert(event_views(events@) =~= got.push(named[k - 1]));
            assert(event_views(events@) =~= named.take(k as int));
        }
        assert(named.take(k as int) =~= named);
        let step: BehaviorMigrationStep = BehaviorMigrationStep {
            from: migrations[i].from_version,
            to: migrations[i].to_version,
            state: migrations[i].has_state_migration,
            events,
        };
        assert(step@ =~= want[i as int]);
        steps.push(step);
        i += 1;
        assert(step_views(steps@) =~= before.push(want[i - 1]));
        assert(step_views(steps@) =~= want.take(i as int));
    }
    assert(want.take(i as int) =~= want);
    steps
}

/// The name of an actor inside nested modules.
pub open spec fn qualified(namespace: Seq<Seq<char>>, name: Seq<char>) -> Seq<char> {
    if namespace.len() == 0 {
        name
    } else {
        text::joined(namespace, "::"@) + "::"@ + name
    }
}

/// The actors among the first `n` declarations with their qualified names, in
/// order, nested modules included.
pub open spec fn named_actors(decls: Seq<Decl>, n: nat, namespace: Seq<Seq<char>>) -> Seq<
    (Seq<char>, ActorDef),
>
    decreases decls, n,
{
    if n == 0 || n > decls.len() {
        Seq::empty()
    } else {
        named_actors(decls, (n - 1) as nat, namespace) + match decls[n - 1] {
            Decl::Actor(a) => seq![(qualified(namespace, a.name@), a)],
            Decl::Module { name, decls: inner } => named_actors(
                inner@,
                inner@.len(),
                namespace.push(name@),
            ),
            Decl::Other => Seq::empty(),
        }
    }
}

/// Collected actors by name.
pub open spec fn collected(v: Seq<(String, &ActorDef)>) -> Seq<(Seq<char>, ActorDef)> {
    v.map_values(|e: (String, &ActorDef)| (e.0@, *e.1))
}

fn qualified_name(namespace: &Vec<String>, name: &str) -> (r: String)
    ensures
        r@ == qualified(text::views(namespace@), name@),
{
    if namespace.len() == 0 {
        text(name)
    } else {
        cat3(join(namespace, "::").as_str(), "::", name)
    }
}

fn collect_actors<'a>(
    decls: &'a Vec<Decl>,
    namespace: &mut Vec<String>,
    out: &mut Vec<(String, &'a ActorDef)>,
)
    ensures
        text::views(final(namespace)@) == text::views(old(namespace)@),
        collected(final(out)@) == collected(old(out)@) + named_actors(
            decls@,
            decls@.len(),
            text::views(old(namespace)@),
        ),
    decreases decls,
{
    let ghost ns = text::views(namespace@);
    let ghost start = collected(out@);
    let mut i: usize = 0;
    assert(collected(out@) =~= start + named_actors(decls@, 0, ns));
    while i < decls.len()
        invariant
            i <= decls@.len(),
            text::views(namespace@) == ns,
            collected(out@) == start + named_actors(decls@, i as nat, ns),
        decreases decls@.len() - i,
    {
        let ghost before = collected(out@);
        let ghost so_far = named_actors(decls@, i as nat, ns);
        match &decls[i] {
            Decl::Actor(a) => {
                let name: String = qualified_name(namespace, a.name.as_str());
                out.push((name, a));
                assert(collected(out@) =~= before.push((qualified(ns, a.name@), *a)));
                assert(collected(out@) =~= start + (so_far + seq![(qualified(ns, a.name@), *a)]));
            },
            Decl::Module { name, decls: inner } => {
                namespace.push(name.clone());
                assert(text::views(namespace@) =~= ns.push(name@));
                collect_actors(inner, namespace, out);
                let ghost full = namespace@;
                namespace.pop();
                assert(text::views(namespace@) =~= text::views(full).drop_last());
                assert(text::views(namespace@) =~= ns);
                assert(collected(out@) =~= start + (so_far + named_actors(
                    inner@,
                    inner@.len(),
                    ns.push(name@),
                )));
            },
            Decl::Other => {
                assert(collected(out@) =~= start + (so_far + Seq::<
                    (Seq<char>, ActorDef),
                >::empty()));
            },
        }
        i += 1;
    }
}

/// Whether a module's own name is part of its actors' names.
pub open spec fn root_namespace(module: Module) -> Seq<Seq<char>> {
    if module.name@.len() == 0 {
        Seq::empty()
    } else {
        seq![module.name@]
    }
}

fn actor_defs_by_name<'a>(module: &'a Module) -> (r: Vec<(String, &'a ActorDef)>)
    ensures
        collected(r@) == named_actors(
            module.decls@,
            module.decls@.len(),
            root_namespace(*module),
        ),
{
    let mut out: Vec<(String, &'a ActorDef)> = Vec::new();
    let mut namespace: Vec<String> = Vec::new();
    if module.name.as_str().unicode_len() > 0 {
        namespace.push(module.name.clone());
    }
    assert(text::views(namespace@) =~= root_namespace(*module));
    collect_actors(&module.decls, &mut namespace, &mut out);
    assert(collected(Seq::<(String, &ActorDef)>::empty()) =~= Seq::<
        (Seq<char>, ActorDef),
    >::empty());
    assert(collected(out@) =~= named_actors(
        module.decls@,
        module.decls@.len(),
        root_namespace(*module),
    ));
    out
}

/// The actor of a name among the first `n`: the one declared last counts.
pub open spec fn actor_named(actors: Seq<(Seq<char>, ActorDef)>, name: Seq<char>, n: nat) -> Option<
    ActorDef,
>
    decreases n,
{
    if n == 0 {
        None
    } else if actors[n - 1].0 == name {
        Some(actors[n - 1].1)
    } else {
        actor_named(actors, name, (n - 1) as nat)
    }
}

fn find_actor<'a>(actors: &Vec<(String, &'a ActorDef)>, name: &str) -> (r: Option<&'a ActorDef>)
    ensures
        match r {
            Some(a) => actor_named(collected(actors@), name@, actors@.len()) == Some(*a),
            None => actor_named(collected(actors@), name@, actors@.len()) is None,
        },
{
    let ghost all = collected(actors@);
    let mut i: usize = actors.len();
    while i > 0
        invariant
            i <= actors@.len(),
            all == collected(actors@),
            actor_named(all, name@, actors@.len()) == actor_named(all, name@, i as nat),
        decreases i,
    {
        i -= 1;
        assert(all[i as int] == (actors@[i as int].0@, *actors@[i as int].1));
        if str_eq(actors[i].0.as_str(), name) {
            return Some(actors[i].1);
        }
    }
    None
}

/// The semantic identity of a state shape.
pub open spec fn state_schema_id(encoding: Seq<u8>) -> Seq<char> {
    hashing::hex_text(
        hashing::blake3_digest(
            content_identity::semantic_preimage(encoding, content_identity::ascending_of(Seq::empty())),
        ),
    )
}

fn state_schema_semantic_id(schema: &ActorStateSchema) -> (r: String)
    ensures
        r@ == state_schema_id(schema.state_encoding@),
{
    let none: Vec<SemanticId> = Vec::new();
    assert(content_identity::digests(none@) =~= Seq::<Seq<u8>>::empty());
    SemanticId::from_canonical_bytes(schema.state_encoding.as_slice(), &none).to_hex()
}

/// The state owner that a schema and its actor describe.
pub open spec fn described_owner(schema: ActorStateSchema, actor: ActorDef) -> ActorView {
    ActorView {
        name: schema.actor_name@,
        kind: owner_kind(actor),
        persistence: persistence_class(actor),
        schema_version: schema.version,
        schema_id: state_schema_id(schema.state_encoding@),
        coverage: MigrationIdentityCoverage::TopologyOnly,
        migrations: schema.migrations@.map_values(|m: SchemaMigration| schema_step(m)),
        workflow: actor_workflow(actor),
    }
}

/// The state owners of the first `n` schemas, or the first schema without an
/// actor.
pub open spec fn described_owners(
    schemas: Seq<ActorStateSchema>,
    actors: Seq<(Seq<char>, ActorDef)>,
    n: nat,
) -> Result<Seq<ActorView>, Seq<char>>
    decreases n,
{
    if n == 0 {
        Ok(Seq::empty())
    } else {
        match described_owners(schemas, actors, (n - 1) as nat) {
            Err(e) => Err(e),
            Ok(so_far) => match actor_named(
                actors,
                schemas[n - 1].actor_name@,
                actors.len(),
            ) {
                Some(a) => Ok(so_far.push(described_owner(schemas[n - 1], a))),
                None => Err(schemas[n - 1].actor_name@),
            },
        }
    }
}

proof fn described_error_persists(
    schemas: Seq<ActorStateSchema>,
    actors: Seq<(Seq<char>, ActorDef)>,
    n: nat,
    m: nat,
)
    requires
        n <= m,
        described_owners(schemas, actors, n) is Err,
    ensures
        described_owners(schemas, actors, m) == described_owners(schemas, actors, n),
    decreases m,
{
    if n < m {
        described_error_persists(schemas, actors, n, (m - 1) as nat);
    }
}

fn describe_owners(
    schemas: &Vec<ActorStateSchema>,
    actors: &Vec<(String, &ActorDef)>,
) -> (r: Result<Vec<BehaviorActor>, BehaviorManifestError>)
    ensures
        match described_owners(schemas@, collected(actors@), schemas@.len()) {
            Ok(owners) => r matches Ok(v) && actor_views(v@) == owners,
            Err(name) => r matches Err(e) && e@ == ManifestFault::ActorSchemaMismatch(name),
        },
{
    let ghost defs = collected(actors@);
    let mut out: Vec<BehaviorActor> = Vec::new();
    let mut i: usize = 0;
    assert(actor_views(out@) =~= Seq::<ActorView>::empty());
    while i < schemas.len()
        invariant
            i <= schemas@.len(),
            defs == collected(actors@),
            described_owners(schemas@, defs, i as nat) == Ok::<Seq<ActorView>, Seq<char>>(
                actor_views(out@),
            ),
        decreases schemas@.len() - i,
    {
        let ghost before = actor_views(out@);
        let schema: &ActorStateSchema = &schemas[i];
        let actor: &ActorDef = match find_actor(actors, schema.actor_name.as_str()) {
            Some(a) => a,
            None => {
                proof {
                    assert(described_owners(schemas@, defs, (i + 1) as nat) == Err::<
                        Seq<ActorView>,
                        Seq<char>,
                    >(schema.actor_name@));
                    described_error_persists(schemas@, defs, (i + 1) as nat, schemas@.len());
                }
                return Err(
                    BehaviorManifestError::ActorSchemaMismatch { actor: schema.actor_name.clone() },
                );
            },
        };
        let owner: BehaviorActor = BehaviorActor {
            name: schema.actor_name.clone(),
            kind: classify_owner_kind(actor),
            persistence: classify_persistence(actor),
            schema_version: schema.version,
            state_schema_semantic_id: state_schema_semantic_id(schema),
            migration_identity: MigrationIdentityCoverage::TopologyOnly,
            migrations: migration_steps(&schema.migrations),
            workflow: workflow_metadata(actor),
        };
        assert(owner@ =~= described_owner(schemas@[i as int], *actor));
        out.push(owner);
        i += 1;
        assert(actor_views(out@) =~= before.push(described_owner(schemas@[i - 1], *actor)));
    }
    Ok(out)
}

/// The artifact kind of a backend.
pub open spec fn backend_kind(backend: Seq<char>) -> Option<Seq<char>> {
    if backend == "bytecode"@ {
        Some(BEHAVIOR_ARTIFACT_KIND_NBC_V1@)
    } else if backend == "wasm"@ {
        Some(BEHAVIOR_ARTIFACT_KIND_WASM_MODULE@)
    } else if backend == "wasmfx"@ {
        Some(BEHAVIOR_ARTIFACT_KIND_WASM_MODULE@)
    } else {
        None
    }
}

fn behavior_artifact_kind(backend: &str) -> (r: Result<&'static str, BehaviorManifestError>)
    ensures
        match r {
            Ok(k) => backend_kind(backend@) == Some(k@),
            Err(e) => backend_kind(backend@) is None && e@
                == ManifestFault::UnsupportedArtifactBackend(backend@),
        },
{
    if str_eq(backend, "bytecode") {
        Ok(BEHAVIOR_ARTIFACT_KIND_NBC_V1)
    } else if str_eq(backend, "wasm") {
        Ok(BEHAVIOR_ARTIFACT_KIND_WASM_MODULE)
    } else if str_eq(backend, "wasmfx") {
        Ok(BEHAVIOR_ARTIFACT_KIND_WASM_MODULE)
    } else {
        Err(BehaviorManifestError::UnsupportedArtifactBackend(text(backend)))
    }
}

/// The manifest of a typed program, before it is normalized.
pub open spec fn described_manifest(
    package: PackageView,
    artifact: ArtifactIdentityManifest,
    artifact_bytes: Seq<u8>,
    kind: Seq<char>,
    owners: Seq<ActorView>,
) -> ManifestView {
    ManifestView {
        schema: BEHAVIOR_MANIFEST_SCHEMA@,
        package,
        artifact: ArtifactView {
            kind,
            digest: artifact_digest_text(artifact_bytes),
            source_id: match artifact.source {
                Some(id) => Some(hashing::hex_text(id.0@)),
                None => None,
            },
            semantic_id: hashing::hex_text(artifact.semantic.0@),
            artifact_id: hashing::hex_text(artifact.artifact_digest()),
            compiler_version: artifact.compiler@,
            target: artifact.target_triple@,
            abi: artifact.abi_name@,
            backend: artifact.backend_name@,
            flags: text::views(artifact.flag_set@),
        },
        actors: owners,
    }
}

impl BehaviorManifest {
    /// Build a manifest from a typed program, the state schemas of its actors
    /// and the already-derived artifact identity.
    pub fn from_typed_hir(
        package_name: &str,
        package_version: &str,
        language_version: &str,
        artifact: &ArtifactIdentityManifest,
        artifact_bytes: &[u8],
        module: &Module,
        schemas: &Vec<ActorStateSchema>,
    ) -> (r: Result<Self, BehaviorManifestError>)
        ensures
            match described_owners(
                schemas@,
                named_actors(module.decls@, module.decls@.len(), root_namespace(*module)),
                schemas@.len(),
            ) {
                Err(name) => r matches Err(e) && e@ == ManifestFault::ActorSchemaMismatch(name),
                Ok(owners) => match backend_kind(artifact.backend_name@) {
                    None => r matches Err(e) && e@ == ManifestFault::UnsupportedArtifactBackend(
                        artifact.backend_name@,
                    ),
                    Some(kind) => {
                        let m = normalized(
                            described_manifest(
                                PackageView {
                                    name: package_name@,
                                    version: package_version@,
                                    language_version: language_version@,
                                },
                                *artifact,
                                artifact_bytes@,
                                kind,
                                owners,
                            ),
                        );
                        match r {
                            Ok(manifest) => manifest@ == m && fault(m) is None,
                            Err(e) => fault(m) == Some(e@),
                        }
                    },
                },
            },
    {
        let defs: Vec<(String, &ActorDef)> = actor_defs_by_name(module);
        let actors: Vec<BehaviorActor> = match describe_owners(schemas, &defs) {
            Ok(v) => v,
            Err(e) => {
                return Err(e);
            },
        };
        let kind: &'static str = match behavior_artifact_kind(artifact.backend_name.as_str()) {
            Ok(k) => k,
            Err(e) => {
                return Err(e);
            },
        };
        let source_id: Option<String> = match &artifact.source {
            Some(id) => Some(id.to_hex()),
            None => None,
        };
        let manifest: BehaviorManifest = BehaviorManifest {
            schema: text(BEHAVIOR_MANIFEST_SCHEMA),
            package: BehaviorPackage {
                name: text(package_name),
                version: text(package_version),
                language_version: text(language_version),
            },
            artifact: BehaviorArtifact {
                kind: text(kind),
                digest: artifact_digest(artifact_bytes),
                source_id,
                semantic_id: artifact.semantic.to_hex(),
                artifact_id: artifact.artifact_id().to_hex(),
                compiler_version: artifact.compiler.clone(),
                target: artifact.target_triple.clone(),
                abi: artifact.abi_name.clone(),
                backend: artifact.backend_name.clone(),
                flags: artifact.flags(),
            },
            actors,
        };
        manifest.into_checked()
    }
}

} // verus!
