//! Runtime values shared by the durable layers: persisted values, workflow
//! events, durable transitions and the store they are committed to.

use crate::durable_effect::DurableEffectId;
use crate::durable_effect_persistence::{self, DurableEffectPersistenceRecord};
use crate::text::{str_eq, text};
use crate::text_map::TextMap;
use std::collections::BTreeMap;
use vstd::prelude::*;

verus! {

/// Version of the durable transition contract.
pub const DURABLE_TRANSITION_VERSION: u16 = 1;

/// A value as it is persisted. A float is held by its IEEE 754 bits.
#[derive(Debug, Clone, PartialEq, Eq)]
pub enum PersistedValue {
    Int(i64),
    Float(u64),
    Bool(bool),
    String(std::string::String),
    Nil,
    Unit,
    Actor(u64),
}

/// The bits of a float without its sign.
pub open spec fn magnitude(bits: u64) -> int {
    (bits % 0x8000_0000_0000_0000) as int
}

/// Whether the bits are those of no number.
pub open spec fn is_nan(bits: u64) -> bool {
    magnitude(bits) > 0x7ff0_0000_0000_0000
}

/// IEEE 754 equality: not-a-number differs from everything, and the two zeros
/// are equal.
pub open spec fn float_equal(a: u64, b: u64) -> bool {
    !is_nan(a) && !is_nan(b) && (a == b || (magnitude(a) == 0 && magnitude(b) == 0))
}

fn float_eq(a: u64, b: u64) -> (r: bool)
    ensures
        r == float_equal(a, b),
{
    let ma: u64 = a % 0x8000_0000_0000_0000;
    let mb: u64 = b % 0x8000_0000_0000_0000;
    ma <= 0x7ff0_0000_0000_0000 && mb <= 0x7ff0_0000_0000_0000 && (a == b || (ma == 0 && mb == 0))
}

impl PersistedValue {
    /// Whether two values are equal; floats compare as numbers.
    pub open spec fn equals(self, other: Self) -> bool {
        match (self, other) {
            (PersistedValue::Int(a), PersistedValue::Int(b)) => a == b,
            (PersistedValue::Float(a), PersistedValue::Float(b)) => float_equal(a, b),
            (PersistedValue::Bool(a), PersistedValue::Bool(b)) => a == b,
            (PersistedValue::String(a), PersistedValue::String(b)) => a@ == b@,
            (PersistedValue::Nil, PersistedValue::Nil) => true,
            (PersistedValue::Unit, PersistedValue::Unit) => true,
            (PersistedValue::Actor(a), PersistedValue::Actor(b)) => a == b,
            _ => false,
        }
    }

    pub fn same(&self, other: &Self) -> (r: bool)
        ensures
            r == self.equals(*other),
    {
        match (self, other) {
            (PersistedValue::Int(a), PersistedValue::Int(b)) => *a == *b,
            (PersistedValue::Float(a), PersistedValue::Float(b)) => float_eq(*a, *b),
            (PersistedValue::Bool(a), PersistedValue::Bool(b)) => *a == *b,
            (PersistedValue::String(a), PersistedValue::String(b)) => str_eq(
                a.as_str(),
                b.as_str(),
            ),
            (PersistedValue::Nil, PersistedValue::Nil) => true,
            (PersistedValue::Unit, PersistedValue::Unit) => true,
            (PersistedValue::Actor(a), PersistedValue::Actor(b)) => *a == *b,
            _ => false,
        }
    }

    /// Owned copy.
    pub fn copied(&self) -> (r: Self)
        ensures
            r == *self,
    {
        match self {
            PersistedValue::Int(a) => PersistedValue::Int(*a),
            PersistedValue::Float(a) => PersistedValue::Float(*a),
            PersistedValue::Bool(a) => PersistedValue::Bool(*a),
            PersistedValue::String(a) => PersistedValue::String(a.clone()),
            PersistedValue::Nil => PersistedValue::Nil,
            PersistedValue::Unit => PersistedValue::Unit,
            PersistedValue::Actor(a) => PersistedValue::Actor(*a),
        }
    }
}

/// Owned copy of a list of values.
pub fn copy_values(v: &Vec<PersistedValue>) -> (r: Vec<PersistedValue>)
    ensures
        r@ == v@,
{
    let mut r: Vec<PersistedValue> = Vec::new();
    let mut i: usize = 0;
    while i < v.len()
        invariant
            i <= v.len(),
            r@ == v@.take(i as int),
        decreases v.len() - i,
    {
        r.push(v[i].copied());
        i += 1;
        assert(r@ =~= v@.take(i as int));
    }
    assert(r@ =~= v@);
    r
}

/// Owned copy of a text-keyed map of values.
pub fn copy_state(m: &TextMap<PersistedValue>) -> (r: TextMap<PersistedValue>)
    ensures
        r@ == m@,
{
    let mut r: TextMap<PersistedValue> = TextMap::new();
    let n: usize = m.len();
    let mut i: usize = 0;
    while i < n
        invariant
            i <= n,
            n == m.keys().len(),
            m.ordered(),
            forall|k: Seq<char>| #[trigger]
                r@.contains_key(k) <==> m.keys().take(i as int).contains(k),
            forall|k: Seq<char>|
                r@.contains_key(k) ==> m@.contains_key(k) && #[trigger] r@[k] == m@[k],
        decreases n - i,
    {
        let (k, v) = m.at(i);
        let ghost before = r@;
        r.insert(k.clone(), v.copied());
        proof {
            let taken = m.keys().take(i as int);
            let next = m.keys().take(i + 1);
            assert(next =~= taken.push(k@));
            assert forall|x: Seq<char>| #[trigger] r@.contains_key(x) <==> next.contains(x) by {
                if taken.contains(x) {
                    let j = taken.index_of(x);
                    assert(next[j] == x);
                }
                if x == k@ {
                    assert(next[i as int] == x);
                }
                if next.contains(x) && x != k@ {
                    let j = next.index_of(x);
                    assert(taken[j] == x);
                }
            }
        }
        i += 1;
    }
    assert(m.keys().take(n as int) =~= m.keys());
    assert(r@ =~= m@);
    r
}

/// A workflow event staged in a durable transition.
#[derive(Debug, Clone, PartialEq, Eq)]
pub enum WorkflowEvent {
    TimerSet { sequence: u64, name: std::string::String, duration_ms: u64 },
    TimerFired { sequence: u64, name: std::string::String },
    SignalReceived {
        sequence: u64,
        name: std::string::String,
        payload: Option<std::string::String>,
    },
}

/// State of an entity captured at a sequence number.
#[derive(Debug, PartialEq, Eq)]
pub struct ActorSnapshot {
    pub actor_id: u64,
    pub sequence: u64,
    pub state: TextMap<PersistedValue>,
}

impl ActorSnapshot {
    pub fn new(actor_id: u64, sequence: u64) -> (r: Self)
        ensures
            r.actor_id == actor_id,
            r.sequence == sequence,
            r.state@ == Map::<Seq<char>, PersistedValue>::empty(),
    {
        ActorSnapshot { actor_id, sequence, state: TextMap::new() }
    }
}

/// One recorded event-sourcing event with the field value after it.
#[derive(Debug, Clone, PartialEq, Eq)]
pub struct EventEntry {
    pub sequence: u64,
    pub field_name: std::string::String,
    pub event_name: std::string::String,
    pub args: Vec<PersistedValue>,
    pub value: PersistedValue,
}

/// What an event entry says.
#[verifier::ext_equal]
pub struct EventView {
    pub sequence: u64,
    pub field_name: Seq<char>,
    pub event_name: Seq<char>,
    pub args: Seq<PersistedValue>,
    pub value: PersistedValue,
}

impl View for EventEntry {
    type V = EventView;

    open spec fn view(&self) -> EventView {
        EventView {
            sequence: self.sequence,
            field_name: self.field_name@,
            event_name: self.event_name@,
            args: self.args@,
            value: self.value,
        }
    }
}

impl EventEntry {
    /// Owned copy.
    pub fn copied(&self) -> (r: Self)
        ensures
            r@ == self@,
    {
        EventEntry {
            sequence: self.sequence,
            field_name: self.field_name.clone(),
            event_name: self.event_name.clone(),
            args: copy_values(&self.args),
            value: self.value.copied(),
        }
    }
}

/// One journaled message.
#[derive(Debug, Clone, PartialEq, Eq)]
pub struct JournalEntry {
    pub sequence: u64,
    pub behavior_id: u16,
    pub payload: Vec<PersistedValue>,
}

/// What a journal entry says.
#[verifier::ext_equal]
pub struct JournalView {
    pub sequence: u64,
    pub behavior_id: u16,
    pub payload: Seq<PersistedValue>,
}

impl View for JournalEntry {
    type V = JournalView;

    open spec fn view(&self) -> JournalView {
        JournalView {
            sequence: self.sequence,
            behavior_id: self.behavior_id,
            payload: self.payload@,
        }
    }
}

impl JournalEntry {
    /// Owned copy.
    pub fn copied(&self) -> (r: Self)
        ensures
            r@ == self@,
    {
        JournalEntry {
            sequence: self.sequence,
            behavior_id: self.behavior_id,
            payload: copy_values(&self.payload),
        }
    }
}

/// Event entries by what they say.
pub open spec fn event_views(s: Seq<EventEntry>) -> Seq<EventView> {
    s.map_values(|e: EventEntry| e@)
}

/// Journal entries by what they say.
pub open spec fn journal_views(s: Seq<JournalEntry>) -> Seq<JournalView> {
    s.map_values(|e: JournalEntry| e@)
}

/// What kind of failure a store reports.
#[derive(Debug, Clone, Copy, PartialEq, Eq, Structural)]
pub enum StorageErrorKind {
    PermissionDenied,
    InvalidData,
    Other,
}

/// A failure of a store.
#[derive(Debug, Clone, PartialEq, Eq)]
pub struct StorageError {
    pub code: StorageErrorKind,
    pub message: std::string::String,
}

impl StorageError {
    pub fn new(code: StorageErrorKind, message: &str) -> (r: Self)
        ensures
            r.code == code,
            r.message@ == message@,
    {
        StorageError { code, message: text(message) }
    }

    pub fn kind(&self) -> (r: StorageErrorKind)
        ensures
            r == self.code,
    {
        self.code
    }
}

/// A unit of durable progress of one actor.
#[derive(Debug, Clone, PartialEq, Eq)]
pub struct DurableTransition {
    pub version: u16,
    pub actor_id: u64,
    pub activation_epoch: u64,
    pub sequence: u64,
    pub expected_previous_sequence: u64,
    pub workflow_events: Vec<WorkflowEvent>,
    pub durable_effects: Vec<DurableEffectPersistenceRecord>,
}

/// Receipt of a committed transition.
#[derive(Debug, Clone, Copy, PartialEq, Eq, Structural)]
pub struct DurableCommit {
    pub actor_id: u64,
    pub sequence: u64,
}

/// Records by what they say.
pub open spec fn record_views(
    s: Seq<DurableEffectPersistenceRecord>,
) -> Seq<durable_effect_persistence::PersistView> {
    s.map_values(|e: DurableEffectPersistenceRecord| e@)
}

/// Effects after the first `n` records, filed under their identities.
pub open spec fn effects_after(
    effects: Map<Seq<u8>, durable_effect_persistence::PersistView>,
    records: Seq<durable_effect_persistence::PersistView>,
    n: nat,
) -> Map<Seq<u8>, durable_effect_persistence::PersistView>
    decreases n,
{
    if n == 0 {
        effects
    } else {
        effects_after(effects, records, (n - 1) as nat).insert(
            records[n - 1].effect.spec.id,
            records[n - 1],
        )
    }
}

/// The durable history of one actor.
#[verifier::ext_equal]
pub struct ActorHistory {
    /// Highest sequence number recorded.
    pub head: u64,
    /// Highest activation epoch seen.
    pub epoch: u64,
    /// Sequence and state of the latest snapshot.
    pub snapshot: Option<(u64, Map<Seq<char>, PersistedValue>)>,
    pub events: Seq<EventView>,
    pub journal: Seq<JournalView>,
    /// Latest record of each durable effect.
    pub effects: Map<Seq<u8>, durable_effect_persistence::PersistView>,
}

/// The history of an actor that nothing was recorded of.
pub open spec fn no_history() -> ActorHistory {
    ActorHistory {
        head: 0,
        epoch: 0,
        snapshot: None,
        events: Seq::empty(),
        journal: Seq::empty(),
        effects: Map::empty(),
    }
}

/// The history after a committed transition.
pub open spec fn committed(h: ActorHistory, t: DurableTransition) -> ActorHistory {
    ActorHistory {
        head: t.sequence,
        epoch: if t.activation_epoch > h.epoch {
            t.activation_epoch
        } else {
            h.epoch
        },
        effects: effects_after(
            h.effects,
            record_views(t.durable_effects@),
            t.durable_effects@.len(),
        ),
        ..h
    }
}

/// Durable storage of actor histories.
pub trait PersistenceStore: Sized {
    /// The history of an actor.
    spec fn history(&self, actor_id: u64) -> ActorHistory;

    fn latest_sequence(&self, actor_id: u64) -> (r: u64)
        ensures
            r == self.history(actor_id).head,
    ;

    /// The latest record of a durable effect. A record is filed under its own
    /// identity.
    fn load_durable_effect(&self, actor_id: u64, id: DurableEffectId) -> (r: Result<
        Option<DurableEffectPersistenceRecord>,
        StorageError,
    >)
        ensures
            r matches Ok(found) ==> match found {
                Some(record) => self.history(actor_id).effects.contains_key(id.0@) && record@
                    == self.history(actor_id).effects[id.0@] && record@.effect.spec.id == id.0@,
                None => !self.history(actor_id).effects.contains_key(id.0@),
            },
    ;

    /// Record a transition as a whole or not at all.
    fn commit_transition(&mut self, transition: DurableTransition) -> (r: Result<
        DurableCommit,
        StorageError,
    >)
        ensures
            forall|a: u64|
                a != transition.actor_id ==> #[trigger] final(self).history(a) == old(self).history(
                    a,
                ),
            match r {
                Ok(c) => c == (DurableCommit {
                    actor_id: transition.actor_id,
                    sequence: transition.sequence,
                }) && final(self).history(transition.actor_id) == committed(
                    old(self).history(transition.actor_id),
                    transition,
                ),
                Err(_) => final(self).history(transition.actor_id) == old(self).history(
                    transition.actor_id,
                ),
            },
    ;

    /// The latest snapshot.
    fn load_snapshot(&self, actor_id: u64) -> (r: Option<ActorSnapshot>)
        ensures
            match r {
                Some(s) => self.history(actor_id).snapshot == Some((s.sequence, s.state@)),
                None => self.history(actor_id).snapshot is None,
            },
    ;

    fn read_events(&self, actor_id: u64) -> (r: Vec<EventEntry>)
        ensures
            event_views(r@) == self.history(actor_id).events,
    ;

    fn read_journal(&self, actor_id: u64) -> (r: Vec<JournalEntry>)
        ensures
            journal_views(r@) == self.history(actor_id).journal,
    ;
}

/// The recorded history of one actor.
struct ActorLog {
    head: u64,
    epoch: u64,
    snapshot: Option<ActorSnapshot>,
    events: Vec<EventEntry>,
    journal: Vec<JournalEntry>,
    effects: Vec<DurableEffectPersistenceRecord>,
}

/// The map of a list of records, the last one of an identity counting.
spec fn filed(
    records: Seq<durable_effect_persistence::PersistView>,
) -> Map<Seq<u8>, durable_effect_persistence::PersistView> {
    effects_after(Map::empty(), records, records.len())
}

spec fn snapshot_view(s: Option<ActorSnapshot>) -> Option<
    (u64, Map<Seq<char>, PersistedValue>),
> {
    match s {
        Some(x) => Some((x.sequence, x.state@)),
        None => None,
    }
}

impl ActorLog {
    spec fn shows(&self) -> ActorHistory {
        ActorHistory {
            head: self.head,
            epoch: self.epoch,
            snapshot: snapshot_view(self.snapshot),
            events: event_views(self.events@),
            journal: journal_views(self.journal@),
            effects: filed(record_views(self.effects@)),
        }
    }

    fn new() -> (r: Self)
        ensures
            r.shows() == no_history(),
    {
        let r: ActorLog = ActorLog {
            head: 0,
            epoch: 0,
            snapshot: None,
            events: Vec::new(),
            journal: Vec::new(),
            effects: Vec::new(),
        };
        assert(r.shows() =~= no_history());
        r
    }

    fn reach(&mut self, sequence: u64)
        ensures
            final(self).shows() == (ActorHistory {
                head: if sequence > old(self).head {
                    sequence
                } else {
                    old(self).head
                },
                ..old(self).shows()
            }),
    {
        if sequence > self.head {
            self.head = sequence;
        }
    }
}

/// Filing records one after another is filing them all.
proof fn filed_extends(
    base: Map<Seq<u8>, durable_effect_persistence::PersistView>,
    a: Seq<durable_effect_persistence::PersistView>,
    b: Seq<durable_effect_persistence::PersistView>,
    n: nat,
)
    requires
        n <= b.len(),
    ensures
        effects_after(base, a + b, a.len() + n) == effects_after(
            effects_after(base, a, a.len()),
            b,
            n,
        ),
    decreases n,
{
    if n == 0 {
        same_prefix(base, a, a + b, a.len());
    } else {
        filed_extends(base, a, b, (n - 1) as nat);
        assert((a + b)[a.len() + n - 1] == b[n - 1]);
    }
}

proof fn same_prefix(
    base: Map<Seq<u8>, durable_effect_persistence::PersistView>,
    a: Seq<durable_effect_persistence::PersistView>,
    b: Seq<durable_effect_persistence::PersistView>,
    n: nat,
)
    requires
        n <= a.len() <= b.len(),
        forall|i: int| 0 <= i < n ==> a[i] == b[i],
    ensures
        effects_after(base, a, n) == effects_after(base, b, n),
    decreases n,
{
    if n > 0 {
        same_prefix(base, a, b, (n - 1) as nat);
    }
}

/// In-memory store.
pub struct MemoryStore {
    logs: BTreeMap<u64, ActorLog>,
}

/// Why a store refuses a transition, if it does.
pub open spec fn transition_fault(h: ActorHistory, t: DurableTransition) -> Option<
    StorageErrorKind,
> {
    if t.version != DURABLE_TRANSITION_VERSION {
        Some(StorageErrorKind::InvalidData)
    } else if t.activation_epoch < h.epoch {
        Some(StorageErrorKind::PermissionDenied)
    } else if t.expected_previous_sequence != h.head || t.sequence
        != t.expected_previous_sequence + 1 {
        Some(StorageErrorKind::InvalidData)
    } else {
        None
    }
}

impl MemoryStore {
    spec fn log(&self, actor_id: u64) -> ActorHistory {
        if self.logs@.contains_key(actor_id) {
            self.logs@[actor_id].shows()
        } else {
            no_history()
        }
    }

    pub fn new() -> (r: Self)
        ensures
            forall|a: u64| #[trigger] r.history(a) == no_history(),
    {
        broadcast use vstd::std_specs::btree::group_btree_axioms;

        MemoryStore { logs: BTreeMap::new() }
    }

    fn take(&mut self, actor_id: u64) -> (r: ActorLog)
        ensures
            r.shows() == old(self).log(actor_id),
            forall|a: u64| a != actor_id ==> #[trigger] final(self).log(a) == old(self).log(a),
    {
        broadcast use vstd::std_specs::btree::group_btree_axioms;

        match self.logs.remove(&actor_id) {
            Some(log) => log,
            None => ActorLog::new(),
        }
    }

    fn put(&mut self, actor_id: u64, log: ActorLog)
        ensures
            final(self).log(actor_id) == log.shows(),
            forall|a: u64| a != actor_id ==> #[trigger] final(self).log(a) == old(self).log(a),
    {
        broadcast use vstd::std_specs::btree::group_btree_axioms;

        self.logs.insert(actor_id, log);
    }

    pub fn save_snapshot(&mut self, snapshot: ActorSnapshot)
        ensures
            final(self).history(snapshot.actor_id) == (ActorHistory {
                snapshot: Some((snapshot.sequence, snapshot.state@)),
                head: if snapshot.sequence > old(self).history(snapshot.actor_id).head {
                    snapshot.sequence
                } else {
                    old(self).history(snapshot.actor_id).head
                },
                ..old(self).history(snapshot.actor_id)
            }),
            forall|a: u64|
                a != snapshot.actor_id ==> #[trigger] final(self).history(a) == old(self).history(a),
    {
        let actor_id: u64 = snapshot.actor_id;
        let mut log: ActorLog = self.take(actor_id);
        log.reach(snapshot.sequence);
        log.snapshot = Some(snapshot);
        self.put(actor_id, log);
    }

    pub fn append_event(&mut self, actor_id: u64, event: EventEntry)
        ensures
            final(self).history(actor_id) == (ActorHistory {
                events: old(self).history(actor_id).events.push(event@),
                head: if event.sequence > old(self).history(actor_id).head {
                    event.sequence
                } else {
                    old(self).history(actor_id).head
                },
                ..old(self).history(actor_id)
            }),
            forall|a: u64|
                a != actor_id ==> #[trigger] final(self).history(a) == old(self).history(a),
    {
        let mut log: ActorLog = self.take(actor_id);
        log.reach(event.sequence);
        let ghost before = log.events@;
        log.events.push(event);
        assert(event_views(log.events@) =~= event_views(before).push(event@));
        self.put(actor_id, log);
    }

    pub fn append_journal(&mut self, actor_id: u64, entry: JournalEntry)
        ensures
            final(self).history(actor_id) == (ActorHistory {
                journal: old(self).history(actor_id).journal.push(entry@),
                head: if entry.sequence > old(self).history(actor_id).head {
                    entry.sequence
                } else {
                    old(self).history(actor_id).head
                },
                ..old(self).history(actor_id)
            }),
            forall|a: u64|
                a != actor_id ==> #[trigger] final(self).history(a) == old(self).history(a),
    {
        let mut log: ActorLog = self.take(actor_id);
        log.reach(entry.sequence);
        let ghost before = log.journal@;
        log.journal.push(entry);
        assert(journal_views(log.journal@) =~= journal_views(before).push(entry@));
        self.put(actor_id, log);
    }
}

impl PersistenceStore for MemoryStore {
    closed spec fn history(&self, actor_id: u64) -> ActorHistory {
        self.log(actor_id)
    }

    fn latest_sequence(&self, actor_id: u64) -> (r: u64) {
        broadcast use vstd::std_specs::btree::group_btree_axioms;

        match self.logs.get(&actor_id) {
            Some(log) => log.head,
            None => 0,
        }
    }

    fn load_durable_effect(&self, actor_id: u64, id: DurableEffectId) -> (r: Result<
        Option<DurableEffectPersistenceRecord>,
        StorageError,
    >)
        ensures
            r is Ok,
    {
        broadcast use vstd::std_specs::btree::group_btree_axioms;

        match self.logs.get(&actor_id) {
            Some(log) => {
                let ghost all = record_views(log.effects@);
                let mut i: usize = log.effects.len();
                while i > 0
                    invariant
                        i <= log.effects@.len(),
                        all == record_views(log.effects@),
                        effects_after(Map::empty(), all, i as nat).contains_key(id.0@) <==> filed(
                            all,
                        ).contains_key(id.0@),
                        filed(all).contains_key(id.0@) ==> effects_after(
                            Map::empty(),
                            all,
                            i as nat,
                        )[id.0@] == filed(all)[id.0@],
                        *log == self.logs@[actor_id],
                        self.logs@.contains_key(actor_id),
                    decreases i,
                {
                    i -= 1;
                    if log.effects[i].effect().spec().id.same(&id) {
                        return Ok(Some(log.effects[i].copied()));
                    }
                }
                Ok(None)
            },
            None => Ok(None),
        }
    }

    fn commit_transition(&mut self, transition: DurableTransition) -> (r: Result<
        DurableCommit,
        StorageError,
    >)
        ensures
            match r {
                Ok(_) => transition_fault(
                    old(self).history(transition.actor_id),
                    transition,
                ) is None,
                Err(e) => transition_fault(old(self).history(transition.actor_id), transition)
                    == Some(e.code),
            },
    {
        let actor_id: u64 = transition.actor_id;
        if transition.version != DURABLE_TRANSITION_VERSION {
            return Err(
                StorageError::new(
                    StorageErrorKind::InvalidData,
                    "unsupported durable transition version",
                ),
            );
        }
        let mut log: ActorLog = self.take(actor_id);
        if transition.activation_epoch < log.epoch {
            self.put(actor_id, log);
            return Err(
                StorageError::new(StorageErrorKind::PermissionDenied, "stale activation epoch"),
            );
        }
        if transition.expected_previous_sequence != log.head || log.head == u64::MAX
            || transition.sequence != log.head + 1 {
            self.put(actor_id, log);
            return Err(
                StorageError::new(
                    StorageErrorKind::InvalidData,
                    "durable transition does not follow the recorded history",
                ),
            );
        }
        let receipt: DurableCommit = DurableCommit { actor_id, sequence: transition.sequence };
        let ghost before = record_views(log.effects@);
        let ghost added = record_views(transition.durable_effects@);
        log.head = transition.sequence;
        if transition.activation_epoch > log.epoch {
            log.epoch = transition.activation_epoch;
        }
        let mut records: Vec<DurableEffectPersistenceRecord> = transition.durable_effects;
        log.effects.append(&mut records);
        proof {
            assert(record_views(log.effects@) =~= before + added);
            filed_extends(Map::empty(), before, added, added.len());
        }
        self.put(actor_id, log);
        Ok(receipt)
    }

    fn load_snapshot(&self, actor_id: u64) -> (r: Option<ActorSnapshot>) {
        broadcast use vstd::std_specs::btree::group_btree_axioms;

        match self.logs.get(&actor_id) {
            Some(log) => match &log.snapshot {
                Some(s) => Some(
                    ActorSnapshot {
                        actor_id: s.actor_id,
                        sequence: s.sequence,
                        state: copy_state(&s.state),
                    },
                ),
                None => None,
            },
            None => None,
        }
    }

    fn read_events(&self, actor_id: u64) -> (r: Vec<EventEntry>) {
        broadcast use vstd::std_specs::btree::group_btree_axioms;

        let mut r: Vec<EventEntry> = Vec::new();
        match self.logs.get(&actor_id) {
            Some(log) => {
                let mut i: usize = 0;
                while i < log.events.len()
                    invariant
                        i <= log.events@.len(),
                        event_views(r@) == event_views(log.events@).take(i as int),
                    decreases log.events@.len() - i,
                {
                    let ghost before = r@;
                    r.push(log.events[i].copied());
                    i += 1;
                    assert(event_views(r@) =~= event_views(before).push(
                        log.events@[i - 1]@,
                    ));
                    assert(event_views(r@) =~= event_views(log.events@).take(i as int));
                }
                assert(event_views(log.events@).take(i as int) =~= event_views(log.events@));
            },
            None => {
                assert(event_views(r@) =~= Seq::<EventView>::empty());
            },
        }
        r
    }

    fn read_journal(&self, actor_id: u64) -> (r: Vec<JournalEntry>) {
        broadcast use vstd::std_specs::btree::group_btree_axioms;

        let mut r: Vec<JournalEntry> = Vec::new();
        match self.logs.get(&actor_id) {
            Some(log) => {
                let mut i: usize = 0;
                while i < log.journal.len()
                    invariant
                        i <= log.journal@.len(),
                        journal_views(r@) == journal_views(log.journal@).take(i as int),
                    decreases log.journal@.len() - i,
                {
                    let ghost before = r@;
                    r.push(log.journal[i].copied());
                    i += 1;
                    assert(journal_views(r@) =~= journal_views(before).push(
                        log.journal@[i - 1]@,
                    ));
                    assert(journal_views(r@) =~= journal_views(log.journal@).take(i as int));
                }
                assert(journal_views(log.journal@).take(i as int) =~= journal_views(
                    log.journal@,
                ));
            },
            None => {
                assert(journal_views(r@) =~= Seq::<JournalView>::empty());
            },
        }
        r
    }
}

// ---------------------------------------------------------------------------
// Laws
// ---------------------------------------------------------------------------

/// Whether a value is a float that is no number.
pub open spec fn is_no_number(v: PersistedValue) -> bool {
    v matches PersistedValue::Float(bits) && bits % 0x8000_0000_0000_0000 > 0x7ff0_0000_0000_0000
}

/// Equality of persisted values is that of their contents: every value but a
/// not-a-number equals itself, equal values have the same kind and the same
/// contents, and only the two zeros are equal without being the same.
pub proof fn persisted_equality(a: PersistedValue, b: PersistedValue, c: PersistedValue)
    ensures
        a.equals(a) <==> !is_no_number(a),
        a.equals(b) ==> b.equals(a),
        a.equals(b) && b.equals(c) ==> a.equals(c),
        a.equals(b) ==> (a matches PersistedValue::String(s) && b matches PersistedValue::String(t)
            && s@ == t@) || (a matches PersistedValue::Float(x) && b matches PersistedValue::Float(
            y,
        ) && x % 0x8000_0000_0000_0000 == y % 0x8000_0000_0000_0000) || a == b,
        (a is Float && b is Float && a.equals(b) && a != b) ==> (a matches PersistedValue::Float(x)
            && x % 0x8000_0000_0000_0000 == 0),
{
}

/// Filing records keeps, for each identity, the last record that has it; other
/// identities keep what was filed before.
pub proof fn last_record_counts(
    effects: Map<Seq<u8>, durable_effect_persistence::PersistView>,
    records: Seq<durable_effect_persistence::PersistView>,
    n: nat,
    id: Seq<u8>,
)
    requires
        n <= records.len(),
    ensures
        ({
            let after = effects_after(effects, records, n);
            &&& forall|i: int|
                0 <= i < n && (#[trigger] records[i]).effect.spec.id == id && (forall|j: int|
                    i < j < n ==> (#[trigger] records[j]).effect.spec.id != id)
                    ==> after.contains_key(id) && after[id] == records[i]
            &&& (forall|i: int| 0 <= i < n ==> (#[trigger] records[i]).effect.spec.id != id) ==> (
            after.contains_key(id) <==> effects.contains_key(id)) && (effects.contains_key(id)
                ==> after[id] == effects[id])
        }),
    decreases n,
{
    if n > 0 {
        last_record_counts(effects, records, (n - 1) as nat, id);
        assert(records[n - 1] == records[n - 1]);
    }
}

/// A transition is accepted exactly where it is of the known version, its
/// activation is not older than one seen before, and it follows the last one
/// directly. Afterwards its sequence is the last one, and no older activation is
/// accepted again.
pub proof fn transitions_follow_one_another(
    h: ActorHistory,
    t: DurableTransition,
    later: DurableTransition,
)
    ensures
        transition_fault(h, t) is None <==> t.version == DURABLE_TRANSITION_VERSION
            && t.activation_epoch >= h.epoch && t.expected_previous_sequence == h.head && t.sequence
            == h.head + 1,
        transition_fault(h, t) == Some(StorageErrorKind::PermissionDenied) <==> t.version
            == DURABLE_TRANSITION_VERSION && t.activation_epoch < h.epoch,
        transition_fault(h, t) is None ==> {
            let after = committed(h, t);
            &&& after.head == h.head + 1
            &&& after.epoch == t.activation_epoch
            &&& after.snapshot == h.snapshot && after.events == h.events && after.journal
                == h.journal
            &&& transition_fault(after, later) is None ==> later.sequence == h.head + 2
                && later.activation_epoch >= t.activation_epoch
            &&& transition_fault(after, t) is Some
        },
{
}

} // verus!
