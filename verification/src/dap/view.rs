//! JSON views of rewound states and branches, for debugger clients.

use crate::dap::rewind::{DurableBranch, RewoundState};
use crate::json::{self, JsonValue};
use crate::runtime::{JournalEntry, PersistedValue};
use crate::text::{self, cat3, dec_of, text};
use crate::text_map::TextMap;
use vstd::prelude::*;

verus! {

/// Whether a document shows a persisted value. Actors and the unit value are
/// shown as texts.
pub open spec fn shows(j: JsonValue, v: PersistedValue) -> bool {
    match v {
        PersistedValue::Int(i) => j == JsonValue::Int(i),
        PersistedValue::Float(bits) => j == JsonValue::Float(bits),
        PersistedValue::Bool(b) => j == JsonValue::Bool(b),
        PersistedValue::String(s) => j matches JsonValue::Text(t) && t@ == s@,
        PersistedValue::Nil => j == JsonValue::Null,
        PersistedValue::Unit => j matches JsonValue::Text(t) && t@ == "unit"@,
        PersistedValue::Actor(a) => j matches JsonValue::Text(t) && t@ == "<actor "@ + text::dec(
            a as nat,
        ) + ">"@,
    }
}

/// Whether a list shows values in order.
pub open spec fn shows_values(j: JsonValue, values: Seq<PersistedValue>) -> bool {
    j matches JsonValue::List(l) && {
        &&& l@.len() == values.len()
        &&& forall|i: int| 0 <= i < values.len() ==> shows(#[trigger] l@[i], values[i])
    }
}

/// Whether an object shows the fields of a state in ascending order of their
/// names.
pub open spec fn shows_state(j: JsonValue, state: TextMap<PersistedValue>) -> bool {
    j matches JsonValue::Object(m) && {
        &&& m@.len() == state.keys().len()
        &&& forall|i: int|
            0 <= i < m@.len() ==> (#[trigger] m@[i]).0@ == state.keys()[i] && shows(
                m@[i].1,
                state@[state.keys()[i]],
            )
    }
}

/// Whether an object shows a journal entry.
pub open spec fn shows_entry(j: JsonValue, entry: JournalEntry) -> bool {
    j matches JsonValue::Object(m) && {
        &&& m@.len() == 3
        &&& json::is_member(m@[0], "sequence"@, JsonValue::Nat(entry.sequence))
        &&& json::is_member(m@[1], "behaviorId"@, JsonValue::Nat(entry.behavior_id as u64))
        &&& m@[2].0@ == "payload"@ && shows_values(m@[2].1, entry.payload@)
    }
}

/// Whether a list shows journal entries in order.
pub open spec fn shows_journal(j: JsonValue, journal: Seq<JournalEntry>) -> bool {
    j matches JsonValue::List(l) && {
        &&& l@.len() == journal.len()
        &&& forall|i: int| 0 <= i < journal.len() ==> shows_entry(#[trigger] l@[i], journal[i])
    }
}

/// Whether an object shows a rewound state.
pub open spec fn shows_rewound(j: JsonValue, s: RewoundState) -> bool {
    j matches JsonValue::Object(m) && {
        &&& m@.len() == 6
        &&& json::is_member(m@[0], "actorId"@, JsonValue::Nat(s.actor_id))
        &&& json::is_member(m@[1], "sequence"@, JsonValue::Nat(s.sequence))
        &&& json::is_member(m@[2], "latestSequence"@, JsonValue::Nat(s.latest_sequence))
        &&& json::is_member(m@[3], "snapshotSequence"@, JsonValue::Nat(s.snapshot_sequence))
        &&& m@[4].0@ == "state"@ && shows_state(m@[4].1, s.state)
        &&& m@[5].0@ == "journal"@ && shows_journal(m@[5].1, s.journal@)
    }
}

/// Whether an object shows a branch. A branch is data only, never executable.
pub open spec fn shows_branch(j: JsonValue, b: DurableBranch) -> bool {
    j matches JsonValue::Object(m) && {
        &&& m@.len() == 9
        &&& json::is_text_member(m@[0], "branchId"@, b.branch_id@)
        &&& json::is_member(m@[1], "parentActorId"@, JsonValue::Nat(b.parent_actor_id))
        &&& json::is_member(m@[2], "forkSequence"@, JsonValue::Nat(b.fork_sequence))
        &&& json::is_member(
            m@[3],
            "parentLatestSequence"@,
            JsonValue::Nat(b.parent_latest_sequence),
        )
        &&& json::is_member(m@[4], "snapshotSequence"@, JsonValue::Nat(b.snapshot_sequence))
        &&& m@[5].0@ == "state"@ && shows_state(m@[5].1, b.state)
        &&& json::is_member(m@[6], "journalLength"@, JsonValue::Nat(b.journal@.len() as u64))
        &&& json::is_member(m@[7], "eventLength"@, JsonValue::Nat(b.events@.len() as u64))
        &&& json::is_member(m@[8], "executable"@, JsonValue::Bool(false))
    }
}

/// The document that shows a persisted value.
pub fn persisted_value_json(v: &PersistedValue) -> (r: JsonValue)
    ensures
        shows(r, *v),
{
    match v {
        PersistedValue::Int(i) => JsonValue::Int(*i),
        PersistedValue::Float(bits) => JsonValue::Float(*bits),
        PersistedValue::Bool(b) => JsonValue::Bool(*b),
        PersistedValue::String(s) => JsonValue::Text(s.clone()),
        PersistedValue::Nil => JsonValue::Null,
        PersistedValue::Unit => JsonValue::Text(text("unit")),
        PersistedValue::Actor(a) => JsonValue::Text(cat3("<actor ", dec_of(*a).as_str(), ">")),
    }
}

fn values_json(values: &Vec<PersistedValue>) -> (r: JsonValue)
    ensures
        shows_values(r, values@),
{
    let mut out: Vec<JsonValue> = Vec::new();
    let mut i: usize = 0;
    while i < values.len()
        invariant
            i <= values@.len(),
            out@.len() == i,
            forall|k: int| 0 <= k < i ==> shows(#[trigger] out@[k], values@[k]),
        decreases values@.len() - i,
    {
        out.push(persisted_value_json(&values[i]));
        i += 1;
    }
    JsonValue::List(out)
}

fn state_json(state: &TextMap<PersistedValue>) -> (r: JsonValue)
    ensures
        shows_state(r, *state),
{
    let mut out: Vec<(String, JsonValue)> = Vec::new();
    let n: usize = state.len();
    let mut i: usize = 0;
    while i < n
        invariant
            i <= n,
            n == state.keys().len(),
            out@.len() == i,
            forall|k: int|
                0 <= k < i ==> (#[trigger] out@[k]).0@ == state.keys()[k] && shows(
                    out@[k].1,
                    state@[state.keys()[k]],
                ),
        decreases n - i,
    {
        let (name, value) = state.at(i);
        out.push((name.clone(), persisted_value_json(value)));
        i += 1;
    }
    JsonValue::Object(out)
}

fn entry_json(entry: &JournalEntry) -> (r: JsonValue)
    ensures
        shows_entry(r, *entry),
{
    let mut out: Vec<(String, JsonValue)> = Vec::new();
    out.push((text("sequence"), JsonValue::Nat(entry.sequence)));
    out.push((text("behaviorId"), JsonValue::Nat(entry.behavior_id as u64)));
    out.push((text("payload"), values_json(&entry.payload)));
    JsonValue::Object(out)
}

fn journal_json(journal: &Vec<JournalEntry>) -> (r: JsonValue)
    ensures
        shows_journal(r, journal@),
{
    let mut out: Vec<JsonValue> = Vec::new();
    let mut i: usize = 0;
    while i < journal.len()
        invariant
            i <= journal@.len(),
            out@.len() == i,
            forall|k: int| 0 <= k < i ==> shows_entry(#[trigger] out@[k], journal@[k]),
        decreases journal@.len() - i,
    {
        out.push(entry_json(&journal[i]));
        i += 1;
    }
    JsonValue::List(out)
}

impl RewoundState {
    /// The view of a rewound state for debugger clients.
    pub fn to_json(&self) -> (r: JsonValue)
        ensures
            shows_rewound(r, *self),
    {
        let mut out: Vec<(String, JsonValue)> = Vec::new();
        out.push((text("actorId"), JsonValue::Nat(self.actor_id)));
        out.push((text("sequence"), JsonValue::Nat(self.sequence)));
        out.push((text("latestSequence"), JsonValue::Nat(self.latest_sequence)));
        out.push((text("snapshotSequence"), JsonValue::Nat(self.snapshot_sequence)));
        out.push((text("state"), state_json(&self.state)));
        out.push((text("journal"), journal_json(&self.journal)));
        JsonValue::Object(out)
    }
}

impl DurableBranch {
    /// The view of a branch for debugger and timeline clients.
    pub fn to_json(&self) -> (r: JsonValue)
        ensures
            shows_branch(r, *self),
    {
        let mut out: Vec<(String, JsonValue)> = Vec::new();
        out.push((text("branchId"), JsonValue::Text(self.branch_id.clone())));
        out.push((text("parentActorId"), JsonValue::Nat(self.parent_actor_id)));
        out.push((text("forkSequence"), JsonValue::Nat(self.fork_sequence)));
        out.push((text("parentLatestSequence"), JsonValue::Nat(self.parent_latest_sequence)));
        out.push((text("snapshotSequence"), JsonValue::Nat(self.snapshot_sequence)));
        out.push((text("state"), state_json(&self.state)));
        out.push((text("journalLength"), JsonValue::Nat(self.journal.len() as u64)));
        out.push((text("eventLength"), JsonValue::Nat(self.events.len() as u64)));
        out.push((text("executable"), JsonValue::Bool(false)));
        JsonValue::Object(out)
    }
}

/// Whether an object has a member of this name and value.
pub open spec fn has_member(j: JsonValue, name: Seq<char>, value: JsonValue) -> bool {
    j matches JsonValue::Object(m) && exists|i: int|
        0 <= i < m@.len() && (#[trigger] m@[i]).0@ == name && m@[i].1 == value
}

proof fn shown_names_agree(j: JsonValue, a: TextMap<PersistedValue>, b: TextMap<PersistedValue>)
    requires
        shows_state(j, a),
        shows_state(j, b),
    ensures
        a.keys() == b.keys(),
{
    let m = j->Object_0;
    assert forall|i: int| 0 <= i < m@.len() implies a.keys()[i] == b.keys()[i] by {
        assert(m@[i].0@ == a.keys()[i]);
    }
    assert(a.keys() =~= b.keys());
}

/// A shown branch names where it came from, and is never executable; branches
/// that are shown alike agree in their identity, origin and lengths.
pub proof fn shown_branches_tell_their_origin(j: JsonValue, a: DurableBranch, b: DurableBranch)
    requires
        shows_branch(j, a),
    ensures
        has_member(j, "parentActorId"@, JsonValue::Nat(a.parent_actor_id)),
        has_member(j, "forkSequence"@, JsonValue::Nat(a.fork_sequence)),
        has_member(j, "parentLatestSequence"@, JsonValue::Nat(a.parent_latest_sequence)),
        has_member(j, "snapshotSequence"@, JsonValue::Nat(a.snapshot_sequence)),
        has_member(j, "executable"@, JsonValue::Bool(false)),
        shows_branch(j, b) ==> {
            &&& a.branch_id@ == b.branch_id@
            &&& a.parent_actor_id == b.parent_actor_id
            &&& a.fork_sequence == b.fork_sequence
            &&& a.parent_latest_sequence == b.parent_latest_sequence
            &&& a.snapshot_sequence == b.snapshot_sequence
            &&& a.state.keys() == b.state.keys()
            &&& a.journal@.len() as u64 == b.journal@.len() as u64
            &&& a.events@.len() as u64 == b.events@.len() as u64
        },
{
    let m = j->Object_0;
    assert(m@[1].0@ == "parentActorId"@ && m@[2].0@ == "forkSequence"@ && m@[3].0@
        == "parentLatestSequence"@ && m@[4].0@ == "snapshotSequence"@ && m@[8].0@ == "executable"@);
    if shows_branch(j, b) {
        shown_names_agree(m@[5].1, a.state, b.state);
    }
}

/// A shown state tells its actor and place, and every entry of its past; states
/// that are shown alike agree in them.
pub proof fn shown_states_tell_their_place(j: JsonValue, a: RewoundState, b: RewoundState)
    requires
        shows_rewound(j, a),
    ensures
        has_member(j, "actorId"@, JsonValue::Nat(a.actor_id)),
        has_member(j, "sequence"@, JsonValue::Nat(a.sequence)),
        has_member(j, "latestSequence"@, JsonValue::Nat(a.latest_sequence)),
        has_member(j, "snapshotSequence"@, JsonValue::Nat(a.snapshot_sequence)),
        shows_rewound(j, b) ==> {
            &&& a.actor_id == b.actor_id
            &&& a.sequence == b.sequence
            &&& a.latest_sequence == b.latest_sequence
            &&& a.snapshot_sequence == b.snapshot_sequence
            &&& a.state.keys() == b.state.keys()
            &&& a.journal@.len() == b.journal@.len()
            &&& forall|i: int|
                0 <= i < a.journal@.len() ==> (#[trigger] a.journal@[i]).sequence
                    == b.journal@[i].sequence && a.journal@[i].behavior_id
                    == b.journal@[i].behavior_id && a.journal@[i].payload@.len()
                    == b.journal@[i].payload@.len()
        },
{
    let m = j->Object_0;
    assert(m@[0].0@ == "actorId"@ && m@[1].0@ == "sequence"@ && m@[2].0@ == "latestSequence"@
        && m@[3].0@ == "snapshotSequence"@);
    if shows_rewound(j, b) {
        shown_names_agree(m@[4].1, a.state, b.state);
        let l = m@[5].1->List_0;
        assert forall|i: int| 0 <= i < a.journal@.len() implies (#[trigger] a.journal@[i]).sequence
            == b.journal@[i].sequence && a.journal@[i].behavior_id == b.journal@[i].behavior_id
            && a.journal@[i].payload@.len() == b.journal@[i].payload@.len() by {
            assert(shows_entry(l@[i], a.journal@[i]));
            assert(shows_entry(l@[i], b.journal@[i]));
        }
    }
}

/// Numbers, truth values and texts are told apart by what is shown of them.
pub proof fn plain_values_are_told_apart(j: JsonValue, a: PersistedValue, b: PersistedValue)
    requires
        shows(j, a),
        shows(j, b),
    ensures
        a matches PersistedValue::Int(x) ==> b == PersistedValue::Int(x),
        a matches PersistedValue::Float(x) ==> b == PersistedValue::Float(x),
        a matches PersistedValue::Bool(x) ==> b == PersistedValue::Bool(x),
        a is Nil ==> b is Nil,
        (a, b) matches (PersistedValue::String(x), PersistedValue::String(y)) ==> x@ == y@,
{
}

} // verus!
