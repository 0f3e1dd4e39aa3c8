//! Laws of behavior manifests: what a manifest says of the program it describes,
//! which manifests are sound, and why an upgrade is refused.

use crate::behavior_manifest::{self, ActorStateSchema, ActorView, AdmissionFault, BehaviorActor, BehaviorOwnerKind, BehaviorPersistence, ManifestFault, ManifestView, StepView, WorkflowStepView};
use crate::hir::{ActorDef, BehaviorDef, Decl, StateField, StateModel};
use crate::text;
use vstd::prelude::*;

verus! {

// ---------------------------------------------------------------------------
// What a manifest says of the program
// ---------------------------------------------------------------------------

/// Whether a field outlives its actor's activation.
pub open spec fn outlives(f: StateField) -> bool {
    !(f.model is Local)
}

/// Whether two fields are kept under the same model.
pub open spec fn same_model(f: StateField, g: StateField) -> bool {
    match f.model {
        StateModel::Local => g.model is Local,
        StateModel::Durable => g.model is Durable,
        StateModel::EventSourced => g.model is EventSourced,
        StateModel::Crdt(_) => g.model is Crdt,
    }
}

/// The class of a model.
pub open spec fn is_class_of(p: BehaviorPersistence, f: StateField) -> bool {
    match f.model {
        StateModel::Local => p is Ephemeral,
        StateModel::Durable => p is Durable,
        StateModel::EventSourced => p is EventSourced,
        StateModel::Crdt(_) => p is Crdt,
    }
}

/// The persistence of a described owner agrees with its fields. It is durable
/// exactly where a field outlives the activation or the actor is declared
/// persistent. Where all kept fields are of one model it is the class of that
/// model, and it is mixed exactly where two kept fields differ.
pub proof fn persistence_follows_the_fields(schema: ActorStateSchema, actor: ActorDef)
    ensures
        ({
            let p = behavior_manifest::described_owner(schema, actor).persistence;
            let fields = actor.state_fields@;
            &&& p is Ephemeral <==> !actor.persistent && (forall|i: int|
                0 <= i < fields.len() ==> !outlives(#[trigger] fields[i]))
            &&& p.durable() <==> actor.persistent || (exists|i: int|
                0 <= i < fields.len() && outlives(#[trigger] fields[i]))
            &&& forall|i: int|
                0 <= i < fields.len() && outlives(#[trigger] fields[i]) && (forall|j: int|
                    0 <= j < fields.len() && outlives(#[trigger] fields[j]) ==> same_model(
                        fields[i],
                        fields[j],
                    )) ==> is_class_of(p, fields[i])
            &&& p is Mixed <==> (exists|i: int, j: int|
                0 <= i < fields.len() && 0 <= j < fields.len() && outlives(#[trigger] fields[i])
                    && outlives(#[trigger] fields[j]) && !same_model(fields[i], fields[j]))
            &&& actor.persistent && (forall|i: int|
                0 <= i < fields.len() ==> !outlives(#[trigger] fields[i])) ==> p is Durable
        }),
{
    let fields = actor.state_fields@;
    let d = |f: StateField| behavior_manifest::durable_field(f);
    let s = |f: StateField| behavior_manifest::sourced_field(f);
    let c = |f: StateField| behavior_manifest::crdt_field(f);
    assert forall|i: int| 0 <= i < fields.len() implies (d(#[trigger] fields[i]) ==> fields.any(d))
        && (s(fields[i]) ==> fields.any(s)) && (c(fields[i]) ==> fields.any(c)) by {}
    if fields.any(d) {
        let i = choose|i: int| 0 <= i < fields.len() && d(#[trigger] fields[i]);
        assert(outlives(fields[i]));
    }
    if fields.any(s) {
        let i = choose|i: int| 0 <= i < fields.len() && s(#[trigger] fields[i]);
        assert(outlives(fields[i]));
    }
    if fields.any(c) {
        let i = choose|i: int| 0 <= i < fields.len() && c(#[trigger] fields[i]);
        assert(outlives(fields[i]));
    }
}

/// A described owner has the name, version and migrations of its schema, the
/// kind that its actor is declared as, and a workflow exactly where it is one:
/// one step for each behavior, in order.
pub proof fn owners_describe_their_actor(schema: ActorStateSchema, actor: ActorDef)
    ensures
        ({
            let owner = behavior_manifest::described_owner(schema, actor);
            &&& owner.name == schema.actor_name@
            &&& owner.schema_version == schema.version
            &&& owner.kind is Workflow <==> actor.is_workflow
            &&& owner.kind is Agent <==> actor.is_agent && !actor.is_workflow
            &&& owner.kind is Organization <==> actor.is_organization && !actor.is_agent
                && !actor.is_workflow
            &&& owner.workflow is Some <==> actor.is_workflow
            &&& owner.workflow matches Some(steps) ==> steps.len() == actor.behaviors@.len()
                && forall|i: int|
                0 <= i < steps.len() ==> tells_behavior(
                    #[trigger] steps[i],
                    actor.behaviors@[i],
                )
            &&& owner.migrations.len() == schema.migrations@.len()
            &&& forall|i: int|
                0 <= i < owner.migrations.len() ==> {
                    let step = #[trigger] owner.migrations[i];
                    let m = schema.migrations@[i];
                    &&& step.from == m.from_version && step.to == m.to_version
                    &&& step.state == m.has_state_migration
                    &&& step.events.len() == m.event_handlers@.len()
                    &&& forall|k: int|
                        0 <= k < step.events.len() ==> (#[trigger] step.events[k]).0
                            == m.event_handlers@[k].name@ && step.events[k].1
                            == m.event_handlers@[k].arity
                }
        }),
{
    if actor.is_workflow {
        let steps = behavior_manifest::actor_workflow(actor)->0;
        assert forall|i: int| 0 <= i < steps.len() implies tells_behavior(
            #[trigger] steps[i],
            actor.behaviors@[i],
        ) by {
            if let Some(v) = actor.behaviors@[i].parallel_branches {
                assert forall|k: int| 0 <= k < v@.len() implies #[trigger] text::views(v@)[k]
                    == v@[k]@ by {}
            }
        }
    }
}

/// Whether a workflow step tells what its behavior says.
pub open spec fn tells_behavior(step: WorkflowStepView, b: BehaviorDef) -> bool {
    &&& step.name == b.name@
    &&& step.compensation == b.compensates
    &&& match b.parallel_branches {
        Some(v) => step.parallel_branches.len() == v@.len() && forall|k: int|
            0 <= k < v@.len() ==> #[trigger] step.parallel_branches[k] == v@[k]@,
        None => step.parallel_branches.len() == 0,
    }
}

/// Whether some of the actors has a name.
pub open spec fn has_actor(actors: Seq<(Seq<char>, ActorDef)>, name: Seq<char>) -> bool {
    exists|i: int| 0 <= i < actors.len() && (#[trigger] actors[i]).0 == name
}

/// Whether an actor is the last one of a name.
pub open spec fn last_of_name(
    actors: Seq<(Seq<char>, ActorDef)>,
    name: Seq<char>,
    i: int,
) -> bool {
    &&& 0 <= i < actors.len()
    &&& actors[i].0 == name
    &&& forall|j: int| i < j < actors.len() ==> (#[trigger] actors[j]).0 != name
}

proof fn lookup_finds_the_last(actors: Seq<(Seq<char>, ActorDef)>, name: Seq<char>, n: nat)
    requires
        n <= actors.len(),
        forall|j: int| n <= j < actors.len() ==> (#[trigger] actors[j]).0 != name,
    ensures
        match behavior_manifest::actor_named(actors, name, n) {
            Some(a) => exists|i: int| #[trigger]
                last_of_name(actors, name, i) && actors[i].1 == a,
            None => !has_actor(actors, name),
        },
    decreases n,
{
    if n > 0 {
        if actors[n - 1].0 == name {
            assert(last_of_name(actors, name, n - 1));
        } else {
            lookup_finds_the_last(actors, name, (n - 1) as nat);
        }
    }
}

/// Whether an owner is described by a schema and the actor of its name.
pub open spec fn is_described(
    owner: ActorView,
    schema: ActorStateSchema,
    actors: Seq<(Seq<char>, ActorDef)>,
) -> bool {
    exists|i: int| #[trigger]
        last_of_name(actors, schema.actor_name@, i) && owner == behavior_manifest::described_owner(
            schema,
            actors[i].1,
        )
}

/// Every schema gives one owner, in order, described by the actor of its name;
/// the description fails exactly where a schema has no actor, and names the
/// first such schema.
pub proof fn every_schema_gives_an_owner(
    schemas: Seq<ActorStateSchema>,
    actors: Seq<(Seq<char>, ActorDef)>,
    n: nat,
)
    requires
        n <= schemas.len(),
    ensures
        match behavior_manifest::described_owners(schemas, actors, n) {
            Ok(owners) => owners.len() == n && (forall|i: int|
                0 <= i < n ==> has_actor(actors, (#[trigger] schemas[i]).actor_name@)
                    && is_described(owners[i], schemas[i], actors)),
            Err(name) => exists|i: int|
                0 <= i < n && (#[trigger] schemas[i]).actor_name@ == name && !has_actor(
                    actors,
                    name,
                ) && (forall|j: int|
                    0 <= j < i ==> has_actor(actors, (#[trigger] schemas[j]).actor_name@)),
        },
    decreases n,
{
    if n > 0 {
        let p = (n - 1) as nat;
        every_schema_gives_an_owner(schemas, actors, p);
        let name = schemas[n - 1].actor_name@;
        lookup_finds_the_last(actors, name, actors.len());
        if let Some(a) = behavior_manifest::actor_named(actors, name, actors.len()) {
            let i = choose|i: int| #[trigger] last_of_name(actors, name, i) && actors[i].1 == a;
            assert(actors[i].0 == name);
            assert(has_actor(actors, name));
        }
    }
}

// ---------------------------------------------------------------------------
// Sound manifests
// ---------------------------------------------------------------------------

/// Whether a step advances by one version; the largest version stays.
pub open spec fn advances_by_one(s: StepView) -> bool {
    s.from > 0 && (s.to == s.from + 1 || s.from == u32::MAX && s.to == u32::MAX)
}

/// Whether the migrations of an owner lead from the first version to its own:
/// every step advances by one, none goes beyond, no two start alike, and none is
/// missing.
pub open spec fn leads_to_version(a: ActorView) -> bool {
    &&& forall|k: int|
        0 <= k < a.migrations.len() ==> advances_by_one(#[trigger] a.migrations[k])
            && a.migrations[k].to <= a.schema_version
    &&& forall|i: int, k: int|
        0 <= i < k < a.migrations.len() ==> (#[trigger] a.migrations[i]).from != (
        #[trigger] a.migrations[k]).from
    &&& forall|v: u32|
        1 <= v < a.schema_version ==> #[trigger] behavior_manifest::has_origin(a.migrations, v)
}

/// Whether a manifest's owners are sound: each has a name of its own, a version,
/// an identity and migrations that lead to its version.
pub open spec fn sound_owners(actors: Seq<ActorView>) -> bool {
    &&& forall|i: int, k: int|
        0 <= i < k < actors.len() ==> (#[trigger] actors[i]).name != (#[trigger] actors[k]).name
    &&& forall|i: int| 0 <= i < actors.len() ==> sound_owner(#[trigger] actors[i])
}

pub open spec fn sound_owner(a: ActorView) -> bool {
    &&& a.schema_version > 0
    &&& behavior_manifest::identity_fault("actors[].state_schema_semantic_id"@, a.schema_id) is None
    &&& leads_to_version(a)
}

proof fn steps_fault_none(a: ActorView, j: int)
    requires
        0 <= j <= a.migrations.len(),
    ensures
        behavior_manifest::steps_fault(a, j) is None <==> (forall|k: int|
            j <= k < a.migrations.len() ==> {
                &&& advances_by_one(#[trigger] a.migrations[k])
                &&& a.migrations[k].to <= a.schema_version
                &&& forall|i: int|
                    0 <= i < k ==> (#[trigger] a.migrations[i]).from != a.migrations[k].from
            }),
    decreases a.migrations.len() - j,
{
    if j < a.migrations.len() {
        steps_fault_none(a, j + 1);
        let ok = advances_by_one(a.migrations[j]) && a.migrations[j].to <= a.schema_version && (
        forall|i: int| 0 <= i < j ==> (#[trigger] a.migrations[i]).from != a.migrations[j].from);
        assert(behavior_manifest::step_fault(a, j) is None <==> ok);
        if behavior_manifest::steps_fault(a, j) is None {
            assert forall|k: int| j <= k < a.migrations.len() implies {
                &&& advances_by_one(#[trigger] a.migrations[k])
                &&& a.migrations[k].to <= a.schema_version
                &&& forall|i: int|
                    0 <= i < k ==> (#[trigger] a.migrations[i]).from != a.migrations[k].from
            } by {
                if k > j {
                    assert(j + 1 <= k);
                }
            }
        }
    }
}

proof fn gap_fault_none(a: ActorView, from: int)
    requires
        0 <= from,
    ensures
        behavior_manifest::gap_fault(a, from) is None <==> (forall|v: u32|
            from <= v < a.schema_version ==> #[trigger] behavior_manifest::has_origin(
                a.migrations,
                v,
            )),
    decreases a.schema_version - from,
{
    if from < a.schema_version {
        gap_fault_none(a, from + 1);
        assert(behavior_manifest::has_origin(a.migrations, from as u32)
            || !behavior_manifest::has_origin(a.migrations, from as u32));
        if behavior_manifest::gap_fault(a, from) is None {
            assert forall|v: u32| from <= v < a.schema_version implies #[trigger]
            behavior_manifest::has_origin(a.migrations, v) by {
                if v > from {
                    assert(from + 1 <= v);
                }
            }
        }
    }
}

proof fn actors_fault_none(actors: Seq<ActorView>, i: int)
    requires
        0 <= i <= actors.len(),
    ensures
        behavior_manifest::actors_fault(actors, i) is None <==> (forall|k: int|
            i <= k < actors.len() ==> sound_owner(#[trigger] actors[k]) && (forall|j: int|
                0 <= j < k ==> (#[trigger] actors[j]).name != actors[k].name)),
    decreases actors.len() - i,
{
    if i < actors.len() {
        actors_fault_none(actors, i + 1);
        let a = actors[i];
        steps_fault_none(a, 0);
        gap_fault_none(a, 1);
        let ok = sound_owner(a) && (forall|j: int|
            0 <= j < i ==> (#[trigger] actors[j]).name != a.name);
        assert(behavior_manifest::actor_fault(actors, i) is None <==> ok);
        if behavior_manifest::actors_fault(actors, i) is None {
            assert forall|k: int| i <= k < actors.len() implies sound_owner(#[trigger] actors[k])
                && (forall|j: int| 0 <= j < k ==> (#[trigger] actors[j]).name != actors[k].name) by {
                if k > i {
                    assert(i + 1 <= k);
                }
            }
        }
    }
}

/// A manifest is accepted exactly where it has the schema, a package with a name
/// and a version, a sound artifact and sound owners.
pub proof fn accepted_manifests_are_sound(m: ManifestView)
    ensures
        behavior_manifest::fault(m) is None <==> {
            &&& m.schema == behavior_manifest::BEHAVIOR_MANIFEST_SCHEMA@
            &&& !text::is_blank(m.package.name)
            &&& !text::is_blank(m.package.version)
            &&& behavior_manifest::artifact_fault(m.artifact) is None
            &&& sound_owners(m.actors)
        },
{
    actors_fault_none(m.actors, 0);
}

// ---------------------------------------------------------------------------
// Upgrades
// ---------------------------------------------------------------------------

/// Whether an upgrade leaves a durable owner a way forward: an incoming owner of
/// its name keeps its class and its steps, does not go back, changes its shape
/// only with its version, and has a step for every version in between.
pub open spec fn way_forward(owner: ActorView, incoming: Seq<ActorView>) -> bool {
    exists|i: int|
        0 <= i < incoming.len() && follows(owner, #[trigger] incoming[i])
}

pub open spec fn follows(owner: ActorView, new: ActorView) -> bool {
    &&& new.name == owner.name
    &&& new.persistence == owner.persistence
    &&& new.schema_version >= owner.schema_version
    &&& forall|k: int|
        0 <= k < owner.migrations.len() ==> new.migrations.contains(#[trigger] owner.migrations[k])
    &&& forall|v: int|
        owner.schema_version <= v < new.schema_version ==> #[trigger] behavior_manifest::has_step(
            new.migrations,
            v,
        )
    &&& new.schema_version == owner.schema_version ==> new.schema_id == owner.schema_id
        && new.migrations == owner.migrations
}

/// An upgrade is admitted exactly where both manifests are accepted, the package
/// is the same and every durable owner has a way forward. Owners that keep
/// nothing may come and go.
pub proof fn admitted_upgrades_have_a_way_forward(previous: ManifestView, incoming: ManifestView)
    ensures
        behavior_manifest::upgrade_fault(previous, incoming) is None <==> {
            &&& behavior_manifest::fault(previous) is None
            &&& behavior_manifest::fault(incoming) is None
            &&& incoming.package.name == previous.package.name
            &&& forall|k: int|
                0 <= k < previous.actors.len() && !((
                #[trigger] previous.actors[k]).persistence is Ephemeral) ==> way_forward(
                    previous.actors[k],
                    incoming.actors,
                )
        },
{
    behavior_manifest::owners_fault_none(previous.actors, incoming.actors, 0);
    if behavior_manifest::fault(incoming) is None {
        accepted_manifests_are_sound(incoming);
        assert forall|k: int|
            0 <= k < previous.actors.len() && (
            #[trigger] previous.actors[k]).persistence.durable() implies (
        behavior_manifest::owner_fault(previous.actors[k], incoming.actors) is None <==> way_forward(
            previous.actors[k],
            incoming.actors,
        )) by {
            let owner = previous.actors[k];
            behavior_manifest::owner_fault_meaning(owner, incoming.actors);
            behavior_manifest::owner_index_finds(incoming.actors, owner.name, 0);
            let at = behavior_manifest::owner_index(incoming.actors, owner.name, 0);
            if at >= 0 {
                assert(follows(owner, incoming.actors[at]) <==> behavior_manifest::owner_can_follow(
                    owner,
                    incoming.actors[at],
                ));
            }
            if way_forward(owner, incoming.actors) {
                let i = choose|i: int|
                    0 <= i < incoming.actors.len() && follows(owner, #[trigger] incoming.actors[i]);
                assert(incoming.actors[i].name == owner.name);
                assert(at == i);
            }
        }
    }
}

/// Whether an owner and the incoming owner of its name, if there is one, show
/// the fault.
pub open spec fn shows_fault(owner: ActorView, new: Option<ActorView>, f: AdmissionFault) -> bool {
    match (f, new) {
        (AdmissionFault::DurableOwnerRemoved(name), None) => name == owner.name,
        (AdmissionFault::DurabilityRemoved(name, a, b), Some(new)) => name == owner.name && a
            == owner.persistence && b == new.persistence && b is Ephemeral,
        (AdmissionFault::PersistenceClassChanged(name, a, b), Some(new)) => name == owner.name
            && a == owner.persistence && b == new.persistence && a != b && !(b is Ephemeral),
        (AdmissionFault::SchemaDowngrade(name, a, b), Some(new)) => name == owner.name && a
            == owner.schema_version && b == new.schema_version && b < a,
        (AdmissionFault::UnversionedSchemaChange(name, v), Some(new)) => name == owner.name && v
            == owner.schema_version && v == new.schema_version && new.schema_id != owner.schema_id,
        (AdmissionFault::MissingMigrationStep(name, a, b), Some(new)) => name == owner.name
            && owner.schema_version <= a < new.schema_version && b == a + 1
            && !behavior_manifest::has_step(new.migrations, a as int),
        (AdmissionFault::ExistingMigrationTopologyChanged(name), Some(new)) => name == owner.name
            && new.migrations != owner.migrations,
        _ => false,
    }
}

/// Whether an owner has a name, or none of the owners has it.
pub open spec fn holder_of_name(actors: Seq<ActorView>, name: Seq<char>, new: Option<ActorView>) -> bool {
    match new {
        Some(a) => actors.contains(a) && a.name == name,
        None => forall|i: int| 0 <= i < actors.len() ==> (#[trigger] actors[i]).name != name,
    }
}

/// Whether a durable owner and the incoming owner of its name, if there is one,
/// show the fault.
pub open spec fn owner_shows_fault(
    previous: ManifestView,
    incoming: ManifestView,
    k: int,
    new: Option<ActorView>,
    f: AdmissionFault,
) -> bool {
    &&& 0 <= k < previous.actors.len()
    &&& !(previous.actors[k].persistence is Ephemeral)
    &&& holder_of_name(incoming.actors, previous.actors[k].name, new)
    &&& shows_fault(previous.actors[k], new, f)
}

/// Whether what a refusal says is so: a manifest that is not accepted, another
/// package, or a durable owner that is gone, keeps nothing any more, changed its
/// class, went back a version, changed its shape without a version, lacks a step
/// or lost recorded steps.
pub open spec fn tells_the_cause(
    previous: ManifestView,
    incoming: ManifestView,
    f: AdmissionFault,
) -> bool {
    match f {
        AdmissionFault::InvalidPreviousManifest(e) => behavior_manifest::fault(previous) == Some(e),
        AdmissionFault::InvalidIncomingManifest(e) => behavior_manifest::fault(incoming) == Some(e),
        AdmissionFault::PackageMismatch(a, b) => a == previous.package.name && b
            == incoming.package.name && a != b,
        _ => exists|k: int, new: Option<ActorView>| #[trigger]
            owner_shows_fault(previous, incoming, k, new, f),
    }
}

proof fn owners_fault_is_of_an_owner(
    previous: Seq<ActorView>,
    incoming: Seq<ActorView>,
    i: int,
) -> (k: int)
    requires
        0 <= i <= previous.len(),
        behavior_manifest::owners_fault(previous, incoming, i) is Some,
    ensures
        i <= k < previous.len(),
        previous[k].persistence.durable(),
        behavior_manifest::owner_fault(previous[k], incoming)
            == behavior_manifest::owners_fault(previous, incoming, i),
    decreases previous.len() - i,
{
    if previous[i].persistence.durable() && behavior_manifest::owner_fault(
        previous[i],
        incoming,
    ) is Some {
        i
    } else {
        owners_fault_is_of_an_owner(previous, incoming, i + 1)
    }
}

proof fn missing_step_is_missing(steps: Seq<StepView>, v: int, to: int)
    ensures
        behavior_manifest::missing_step(steps, v, to) matches Some(w) ==> v <= w < to
            && !behavior_manifest::has_step(steps, w),
    decreases to - v,
{
    if v < to {
        missing_step_is_missing(steps, v + 1, to);
    }
}

/// A refused upgrade tells a cause that is so.
pub proof fn refusals_tell_the_cause(previous: ManifestView, incoming: ManifestView)
    requires
        behavior_manifest::upgrade_fault(previous, incoming) is Some,
    ensures
        tells_the_cause(
            previous,
            incoming,
            behavior_manifest::upgrade_fault(previous, incoming)->0,
        ),
{
    if behavior_manifest::fault(incoming) is None && behavior_manifest::fault(previous) is None
        && incoming.package.name == previous.package.name {
        let k = owners_fault_is_of_an_owner(previous.actors, incoming.actors, 0);
        let owner = previous.actors[k];
        behavior_manifest::owner_index_finds(incoming.actors, owner.name, 0);
        let i = behavior_manifest::owner_index(incoming.actors, owner.name, 0);
        let new = if i >= 0 {
            Some(incoming.actors[i])
        } else {
            None
        };
        owner_fault_is_shown(owner, incoming.actors);
        assert(holder_of_name(incoming.actors, owner.name, new));
        assert(owner_shows_fault(
            previous,
            incoming,
            k,
            new,
            behavior_manifest::upgrade_fault(previous, incoming)->0,
        ));
    }
}

proof fn owner_fault_is_shown(owner: ActorView, incoming: Seq<ActorView>)
    requires
        behavior_manifest::owner_fault(owner, incoming) is Some,
    ensures
        ({
            let i = behavior_manifest::owner_index(incoming, owner.name, 0);
            shows_fault(
                owner,
                if i >= 0 {
                    Some(incoming[i])
                } else {
                    None
                },
                behavior_manifest::owner_fault(owner, incoming)->0,
            )
        }),
{
    let i = behavior_manifest::owner_index(incoming, owner.name, 0);
    if i >= 0 {
        let new = incoming[i];
        missing_step_is_missing(
            new.migrations,
            owner.schema_version as int,
            new.schema_version as int,
        );
        if new.migrations == owner.migrations {
            assert(behavior_manifest::keeps_steps(owner.migrations, new.migrations)) by {
                assert forall|j: int| 0 <= j < owner.migrations.len() implies new.migrations.contains(
                    #[trigger] owner.migrations[j],
                ) by {
                    assert(new.migrations[j] == owner.migrations[j]);
                }
            }
        }
    }
}

// ---------------------------------------------------------------------------
// Collected actors
// ---------------------------------------------------------------------------

/// Whether a declaration inside the given modules declares an actor under a
/// qualified name, itself or in a nested module.
pub open spec fn declares_actor(
    d: Decl,
    namespace: Seq<Seq<char>>,
    name: Seq<char>,
    actor: ActorDef,
) -> bool
    decreases d,
{
    match d {
        Decl::Actor(a) => a == actor && name == (if namespace.len() == 0 {
            a.name@
        } else {
            text::joined(namespace.push(a.name@), "::"@)
        }),
        Decl::Module { name: inner, decls } => exists|i: int|
            0 <= i < decls@.len() && declares_actor(
                #[trigger] decls@[i],
                namespace.push(inner@),
                name,
                actor,
            ),
        Decl::Other => false,
    }
}

proof fn contains_of_parts(
    a: Seq<(Seq<char>, ActorDef)>,
    b: Seq<(Seq<char>, ActorDef)>,
    x: (Seq<char>, ActorDef),
)
    ensures
        (a + b).contains(x) <==> a.contains(x) || b.contains(x),
{
    if a.contains(x) {
        let k = choose|k: int| 0 <= k < a.len() && a[k] == x;
        assert((a + b)[k] == x);
    }
    if b.contains(x) {
        let k = choose|k: int| 0 <= k < b.len() && b[k] == x;
        assert((a + b)[a.len() + k] == x);
    }
    if (a + b).contains(x) {
        let k = choose|k: int| 0 <= k < (a + b).len() && (a + b)[k] == x;
        if k < a.len() {
            assert(a[k] == x);
        } else {
            assert(b[k - a.len()] == x);
        }
    }
}

/// The collected actors are exactly the declared ones, each under its name
/// qualified by the modules around it.
pub proof fn declared_actors_are_collected(
    decls: Seq<Decl>,
    n: nat,
    namespace: Seq<Seq<char>>,
    name: Seq<char>,
    actor: ActorDef,
)
    requires
        n <= decls.len(),
    ensures
        behavior_manifest::named_actors(decls, n, namespace).contains((name, actor))
            <==> exists|i: int|
            0 <= i < n && declares_actor(#[trigger] decls[i], namespace, name, actor),
    decreases decls, n,
{
    if n > 0 {
        let p = (n - 1) as nat;
        declared_actors_are_collected(decls, p, namespace, name, actor);
        let before = behavior_manifest::named_actors(decls, p, namespace);
        let d = decls[n - 1];
        let more = match d {
            Decl::Actor(a) => seq![(behavior_manifest::qualified(namespace, a.name@), a)],
            Decl::Module { name: inner, decls: nested } => behavior_manifest::named_actors(
                nested@,
                nested@.len(),
                namespace.push(inner@),
            ),
            Decl::Other => Seq::empty(),
        };
        contains_of_parts(before, more, (name, actor));
        match d {
            Decl::Actor(a) => {
                assert(more[0] == (behavior_manifest::qualified(namespace, a.name@), a));
                if namespace.len() > 0 {
                    let all = namespace.push(a.name@);
                    assert(all.drop_last() =~= namespace);
                }
            },
            Decl::Module { name: inner, decls: nested } => {
                assert(decreases_to!(decls => nested@));
                declared_actors_are_collected(
                    nested@,
                    nested@.len(),
                    namespace.push(inner@),
                    name,
                    actor,
                );
            },
            Decl::Other => {},
        }
        assert(declares_actor(decls[n - 1], namespace, name, actor) == declares_actor(
            d,
            namespace,
            name,
            actor,
        ));
    }
}

/// Three backends give artifacts: bytecode a kind of its own, the two that
/// compile to modules one kind together.
pub proof fn backends_give_their_kind(backend: Seq<char>)
    ensures
        behavior_manifest::backend_kind(backend) is Some <==> backend == "bytecode"@ || backend
            == "wasm"@ || backend == "wasmfx"@,
        behavior_manifest::backend_kind("wasm"@) == behavior_manifest::backend_kind("wasmfx"@),
        behavior_manifest::backend_kind("wasm"@) != behavior_manifest::backend_kind("bytecode"@),
{
    reveal_strlit("bytecode");
    reveal_strlit("wasm");
    reveal_strlit("wasmfx");
    reveal_strlit("nulang-bytecode-v1");
    reveal_strlit("wasm-module");
    assert("bytecode"@.len() == 8 && "wasm"@.len() == 4 && "wasmfx"@.len() == 6);
    assert("nulang-bytecode-v1"@.len() == 18 && "wasm-module"@.len() == 11);
}

/// Kinds of owners and persistence classes are told apart in a manifest.
pub proof fn kinds_and_classes_are_told_apart(
    a: BehaviorOwnerKind,
    b: BehaviorOwnerKind,
    p: BehaviorPersistence,
    q: BehaviorPersistence,
)
    ensures
        behavior_manifest::kind_json(a) == behavior_manifest::kind_json(b) ==> a == b,
        behavior_manifest::persistence_json(p) == behavior_manifest::persistence_json(q) ==> p == q,
{
    reveal_strlit(",\"kind\":\"actor\"");
    reveal_strlit(",\"kind\":\"workflow\"");
    reveal_strlit(",\"kind\":\"agent\"");
    reveal_strlit(",\"kind\":\"organization\"");
    assert(",\"kind\":\"actor\""@[10] == 'c' && ",\"kind\":\"agent\""@[10] == 'g');
    reveal_strlit(",\"persistence\":\"ephemeral\"");
    reveal_strlit(",\"persistence\":\"durable\"");
    reveal_strlit(",\"persistence\":\"event-sourced\"");
    reveal_strlit(",\"persistence\":\"crdt\"");
    reveal_strlit(",\"persistence\":\"mixed\"");
    assert(",\"persistence\":\"ephemeral\""@.len() == 26);
    assert(",\"persistence\":\"durable\""@.len() == 24);
    assert(",\"persistence\":\"event-sourced\""@.len() == 30);
    assert(",\"persistence\":\"crdt\""@.len() == 21);
    assert(",\"persistence\":\"mixed\""@.len() == 22);
    assert(",\"kind\":\"workflow\""@.len() == 18 && ",\"kind\":\"organization\""@.len() == 22);
}

} // verus!
