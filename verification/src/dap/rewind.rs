//! Time-travel rewind for durable entities.
//!
//! Rewind reconstructs the state of a durable entity *as of message #N* from
//! the persistence store, without re-executing behavior bytecode:
//!
//! 1. the latest snapshot whose `sequence <= N` is the base state;
//! 2. event-sourcing events with `sequence <= N` are overlaid in order, using
//!    the recorded value after each event;
//! 3. journal entries with `sequence <= N` are listed.

use crate::runtime::{self, EventEntry, JournalEntry, PersistedValue, PersistenceStore};
use crate::text::{self, sorted_set, text};
use crate::text_map::TextMap;
use vstd::prelude::*;

verus! {

/// State of one durable entity reconstructed as of `sequence`.
#[derive(Debug)]
pub struct RewoundState {
    pub actor_id: u64,
    /// The rewind target, clamped to `latest_sequence`.
    pub sequence: u64,
    /// Highest sequence number recorded for the entity.
    pub latest_sequence: u64,
    /// Sequence of the snapshot used as the replay base (0 = none).
    pub snapshot_sequence: u64,
    pub state: TextMap<PersistedValue>,
    pub journal: Vec<JournalEntry>,
    pub events: Vec<EventEntry>,
}

/// Immutable counterfactual branch captured from an entity's durable history.
#[derive(Debug)]
pub struct DurableBranch {
    pub branch_id: String,
    pub parent_actor_id: u64,
    pub fork_sequence: u64,
    pub parent_latest_sequence: u64,
    pub snapshot_sequence: u64,
    pub state: TextMap<PersistedValue>,
    pub journal: Vec<JournalEntry>,
    pub events: Vec<EventEntry>,
}

/// One field-level difference between two reconstructed durable states.
#[derive(Debug, Clone, PartialEq, Eq)]
pub struct StateDiff {
    pub field: String,
    pub before: Option<PersistedValue>,
    pub after: Option<PersistedValue>,
}

/// The events up to a sequence number, in order.
pub open spec fn events_up_to(s: Seq<runtime::EventView>, n: u64) -> Seq<runtime::EventView>
    decreases s.len(),
{
    if s.len() == 0 {
        Seq::empty()
    } else if s.last().sequence <= n {
        events_up_to(s.drop_last(), n).push(s.last())
    } else {
        events_up_to(s.drop_last(), n)
    }
}

/// The journal entries up to a sequence number, in order.
pub open spec fn journal_up_to(s: Seq<runtime::JournalView>, n: u64) -> Seq<runtime::JournalView>
    decreases s.len(),
{
    if s.len() == 0 {
        Seq::empty()
    } else if s.last().sequence <= n {
        journal_up_to(s.drop_last(), n).push(s.last())
    } else {
        journal_up_to(s.drop_last(), n)
    }
}

/// A state with the recorded values of events laid over it.
pub open spec fn overlaid(
    base: Map<Seq<char>, PersistedValue>,
    events: Seq<runtime::EventView>,
) -> Map<Seq<char>, PersistedValue>
    decreases events.len(),
{
    if events.len() == 0 {
        base
    } else {
        overlaid(base, events.drop_last()).insert(events.last().field_name, events.last().value)
    }
}

/// What a rewind shows.
#[verifier::ext_equal]
pub struct RewoundView {
    pub sequence: u64,
    pub latest_sequence: u64,
    pub snapshot_sequence: u64,
    pub state: Map<Seq<char>, PersistedValue>,
    pub journal: Seq<runtime::JournalView>,
    pub events: Seq<runtime::EventView>,
}

/// The history of an entity as of a sequence number.
pub open spec fn rewound(h: runtime::ActorHistory, target_seq: u64) -> RewoundView {
    let target = if target_seq < h.head {
        target_seq
    } else {
        h.head
    };
    let base = match h.snapshot {
        Some(s) => if s.0 <= target {
            s
        } else {
            (0, Map::empty())
        },
        None => (0, Map::empty()),
    };
    let events = events_up_to(h.events, target);
    RewoundView {
        sequence: target,
        latest_sequence: h.head,
        snapshot_sequence: base.0,
        state: overlaid(base.1, events),
        journal: journal_up_to(h.journal, target),
        events,
    }
}

impl View for RewoundState {
    type V = RewoundView;

    open spec fn view(&self) -> RewoundView {
        RewoundView {
            sequence: self.sequence,
            latest_sequence: self.latest_sequence,
            snapshot_sequence: self.snapshot_sequence,
            state: self.state@,
            journal: runtime::journal_views(self.journal@),
            events: runtime::event_views(self.events@),
        }
    }
}

impl View for DurableBranch {
    type V = RewoundView;

    open spec fn view(&self) -> RewoundView {
        RewoundView {
            sequence: self.fork_sequence,
            latest_sequence: self.parent_latest_sequence,
            snapshot_sequence: self.snapshot_sequence,
            state: self.state@,
            journal: runtime::journal_views(self.journal@),
            events: runtime::event_views(self.events@),
        }
    }
}

fn keep_events(events: &Vec<EventEntry>, target: u64) -> (r: Vec<EventEntry>)
    ensures
        runtime::event_views(r@) == events_up_to(runtime::event_views(events@), target),
{
    let mut r: Vec<EventEntry> = Vec::new();
    let ghost all = runtime::event_views(events@);
    let mut i: usize = 0;
    assert(runtime::event_views(r@) =~= events_up_to(all.take(0), target));
    while i < events.len()
        invariant
            i <= events@.len(),
            all == runtime::event_views(events@),
            runtime::event_views(r@) == events_up_to(all.take(i as int), target),
        decreases events@.len() - i,
    {
        proof {
            let next = all.take(i + 1);
            assert(next.drop_last() =~= all.take(i as int));
            assert(next.last() == events@[i as int]@);
        }
        if events[i].sequence <= target {
            let ghost before = r@;
            r.push(events[i].copied());
            assert(runtime::event_views(r@) =~= runtime::event_views(before).push(
                events@[i as int]@,
            ));
        }
        i += 1;
    }
    assert(all.take(i as int) =~= all);
    r
}

fn keep_journal(journal: &Vec<JournalEntry>, target: u64) -> (r: Vec<JournalEntry>)
    ensures
        runtime::journal_views(r@) == journal_up_to(runtime::journal_views(journal@), target),
{
    let mut r: Vec<JournalEntry> = Vec::new();
    let ghost all = runtime::journal_views(journal@);
    let mut i: usize = 0;
    assert(runtime::journal_views(r@) =~= journal_up_to(all.take(0), target));
    while i < journal.len()
        invariant
            i <= journal@.len(),
            all == runtime::journal_views(journal@),
            runtime::journal_views(r@) == journal_up_to(all.take(i as int), target),
        decreases journal@.len() - i,
    {
        proof {
            let next = all.take(i + 1);
            assert(next.drop_last() =~= all.take(i as int));
            assert(next.last() == journal@[i as int]@);
        }
        if journal[i].sequence <= target {
            let ghost before = r@;
            r.push(journal[i].copied());
            assert(runtime::journal_views(r@) =~= runtime::journal_views(before).push(
                journal@[i as int]@,
            ));
        }
        i += 1;
    }
    assert(all.take(i as int) =~= all);
    r
}

fn overlay(state: &mut TextMap<PersistedValue>, events: &Vec<EventEntry>)
    ensures
        final(state)@ == overlaid(old(state)@, runtime::event_views(events@)),
{
    let ghost base = state@;
    let ghost all = runtime::event_views(events@);
    let mut i: usize = 0;
    while i < events.len()
        invariant
            i <= events@.len(),
            all == runtime::event_views(events@),
            state@ == overlaid(base, all.take(i as int)),
        decreases events@.len() - i,
    {
        proof {
            let next = all.take(i + 1);
            assert(next.drop_last() =~= all.take(i as int));
            assert(next.last() == events@[i as int]@);
        }
        state.insert(events[i].field_name.clone(), events[i].value.copied());
        i += 1;
    }
    assert(all.take(i as int) =~= all);
}

/// Reconstruct the state of `actor_id` as of message `target_seq`.
pub fn rewind_entity<S: PersistenceStore>(store: &S, actor_id: u64, target_seq: u64) -> (r:
    RewoundState)
    ensures
        r.actor_id == actor_id,
        r@ == rewound(store.history(actor_id), target_seq),
{
    let latest: u64 = store.latest_sequence(actor_id);
    let target: u64 = if target_seq < latest {
        target_seq
    } else {
        latest
    };
    let mut snapshot_sequence: u64 = 0;
    let mut state: TextMap<PersistedValue> = TextMap::new();
    match store.load_snapshot(actor_id) {
        Some(snapshot) => {
            if snapshot.sequence <= target {
                snapshot_sequence = snapshot.sequence;
                state = snapshot.state;
            }
        },
        None => {},
    }
    let recorded: Vec<EventEntry> = store.read_events(actor_id);
    let events: Vec<EventEntry> = keep_events(&recorded, target);
    overlay(&mut state, &events);
    let messages: Vec<JournalEntry> = store.read_journal(actor_id);
    let journal: Vec<JournalEntry> = keep_journal(&messages, target);
    RewoundState {
        actor_id,
        sequence: target,
        latest_sequence: latest,
        snapshot_sequence,
        state,
        journal,
        events,
    }
}

/// Capture an immutable durable branch at `target_seq`. Nothing is written.
pub fn fork_entity_view<S: PersistenceStore>(
    store: &S,
    actor_id: u64,
    target_seq: u64,
    branch_id: &str,
) -> (r: DurableBranch)
    ensures
        r.branch_id@ == branch_id@,
        r.parent_actor_id == actor_id,
        r@ == rewound(store.history(actor_id), target_seq),
{
    let state: RewoundState = rewind_entity(store, actor_id, target_seq);
    DurableBranch {
        branch_id: text(branch_id),
        parent_actor_id: state.actor_id,
        fork_sequence: state.sequence,
        parent_latest_sequence: state.latest_sequence,
        snapshot_sequence: state.snapshot_sequence,
        state: state.state,
        journal: state.journal,
        events: state.events,
    }
}

/// The value of a field, if the state has it.
pub open spec fn field_value(m: Map<Seq<char>, PersistedValue>, k: Seq<char>) -> Option<
    PersistedValue,
> {
    if m.contains_key(k) {
        Some(m[k])
    } else {
        None
    }
}

/// Whether two states differ in a field.
pub open spec fn differs(
    before: Map<Seq<char>, PersistedValue>,
    after: Map<Seq<char>, PersistedValue>,
    k: Seq<char>,
) -> bool {
    match (field_value(before, k), field_value(after, k)) {
        (Some(a), Some(b)) => !a.equals(b),
        (None, None) => false,
        _ => true,
    }
}

/// The fields of a list of differences.
pub open spec fn diff_fields(d: Seq<StateDiff>) -> Seq<Seq<char>> {
    d.map_values(|x: StateDiff| x.field@)
}

/// Whether `d` lists, by ascending field, exactly the differing fields with
/// the value of each side.
pub open spec fn is_diff(
    d: Seq<StateDiff>,
    before: Map<Seq<char>, PersistedValue>,
    after: Map<Seq<char>, PersistedValue>,
) -> bool {
    &&& text::strictly_sorted(diff_fields(d))
    &&& forall|k: Seq<char>| #[trigger] diff_fields(d).contains(k) <==> differs(before, after, k)
    &&& forall|i: int|
        0 <= i < d.len() ==> (#[trigger] d[i]).before == field_value(before, d[i].field@)
            && d[i].after == field_value(after, d[i].field@)
}

fn copy_value(v: Option<&PersistedValue>) -> (r: Option<PersistedValue>)
    ensures
        match v {
            Some(x) => r == Some(*x),
            None => r is None,
        },
{
    match v {
        Some(x) => Some(x.copied()),
        None => None,
    }
}

fn values_equal(a: Option<&PersistedValue>, b: Option<&PersistedValue>) -> (r: bool)
    ensures
        r == match (a, b) {
            (Some(x), Some(y)) => x.equals(*y),
            (None, None) => true,
            _ => false,
        },
{
    match (a, b) {
        (Some(x), Some(y)) => x.same(y),
        (None, None) => true,
        _ => false,
    }
}

fn push_keys(out: &mut Vec<String>, m: &TextMap<PersistedValue>)
    ensures
        text::views(final(out)@) == text::views(old(out)@) + m.keys(),
        m.ordered(),
{
    let n: usize = m.len();
    let ghost start = text::views(out@);
    let mut i: usize = 0;
    assert(text::views(out@) =~= start + m.keys().take(0));
    while i < n
        invariant
            i <= n,
            n == m.keys().len(),
            m.ordered(),
            text::views(out@) == start + m.keys().take(i as int),
        decreases n - i,
    {
        let (k, _v) = m.at(i);
        let ghost before = text::views(out@);
        out.push(k.clone());
        i += 1;
        assert(text::views(out@) =~= before.push(m.keys()[i - 1]));
        assert(text::views(out@) =~= start + m.keys().take(i as int));
    }
    assert(m.keys().take(n as int) =~= m.keys());
}

/// Compute a deterministic field-level diff between two reconstructed states,
/// sorted by field name. Equal fields are omitted.
pub fn diff_states(before: &TextMap<PersistedValue>, after: &TextMap<PersistedValue>) -> (r: Vec<
    StateDiff,
>)
    ensures
        is_diff(r@, before@, after@),
{
    let mut all: Vec<String> = Vec::new();
    push_keys(&mut all, before);
    push_keys(&mut all, after);
    let keys: Vec<String> = sorted_set(&all);
    let ghost ks = text::views(keys@);
    proof {
        assert(text::views(Seq::<String>::empty()) =~= Seq::<Seq<char>>::empty());
        assert(text::views(all@) =~= before.keys() + after.keys());
        assert forall|k: Seq<char>| differs(before@, after@, k) implies #[trigger] ks.contains(
            k,
        ) by {
            if before@.contains_key(k) {
                let j = before.keys().index_of(k);
                assert((before.keys() + after.keys())[j] == k);
            } else {
                let j = after.keys().index_of(k);
                assert((before.keys() + after.keys())[before.keys().len() + j] == k);
            }
        }
    }
    let mut r: Vec<StateDiff> = Vec::new();
    let mut i: usize = 0;
    while i < keys.len()
        invariant
            i <= keys@.len(),
            ks == text::views(keys@),
            text::strictly_sorted(ks),
            text::strictly_sorted(diff_fields(r@)),
            forall|k: Seq<char>| #[trigger]
                diff_fields(r@).contains(k) <==> differs(before@, after@, k) && ks.take(
                    i as int,
                ).contains(k),
            forall|j: int|
                0 <= j < r@.len() ==> (#[trigger] r@[j]).before == field_value(
                    before@,
                    r@[j].field@,
                ) && r@[j].after == field_value(after@, r@[j].field@),
        decreases keys@.len() - i,
    {
        let old_value: Option<&PersistedValue> = before.get(keys[i].as_str());
        let new_value: Option<&PersistedValue> = after.get(keys[i].as_str());
        let ghost fields = diff_fields(r@);
        let ghost taken = ks.take(i as int);
        let ghost next = ks.take(i + 1);
        let ghost key = ks[i as int];
        proof {
            assert(next =~= taken.push(key));
            assert forall|k: Seq<char>| #[trigger] next.contains(k) <==> taken.contains(k) || k
                == key by {
                if taken.contains(k) {
                    let j = taken.index_of(k);
                    assert(next[j] == k);
                }
                if k == key {
                    assert(next[i as int] == k);
                }
            }
        }
        if !values_equal(old_value, new_value) {
            r.push(
                StateDiff {
                    field: keys[i].clone(),
                    before: copy_value(old_value),
                    after: copy_value(new_value),
                },
            );
            proof {
                assert(diff_fields(r@) =~= fields.push(key));
                assert forall|j: int| 0 <= j < fields.len() implies text::lex_lt(
                    #[trigger] fields[j],
                    key,
                ) by {
                    assert(fields.contains(fields[j]));
                    let m = taken.index_of(fields[j]);
                    assert(taken[m] == fields[j]);
                    assert(ks[m] == fields[j]);
                }
                assert forall|k: Seq<char>| #[trigger]
                    diff_fields(r@).contains(k) <==> fields.contains(k) || k == key by {
                    if fields.contains(k) {
                        let j = fields.index_of(k);
                        assert(diff_fields(r@)[j] == k);
                    }
                    if k == key {
                        assert(diff_fields(r@)[fields.len() as int] == k);
                    }
                }
            }
        }
        i += 1;
    }
    assert(ks.take(i as int) =~= ks);
    r
}

/// Compare a branch point with the parent's current durable head.
pub fn diff_branch_from_parent_head<S: PersistenceStore>(store: &S, branch: &DurableBranch) -> (r:
    Vec<StateDiff>)
    ensures
        is_diff(
            r@,
            branch.state@,
            rewound(store.history(branch.parent_actor_id), u64::MAX).state,
        ),
{
    let head: RewoundState = rewind_entity(store, branch.parent_actor_id, u64::MAX);
    diff_states(&branch.state, &head.state)
}

/// Step forward one message from a rewound position; nothing changes at the
/// head.
pub fn step_forward<S: PersistenceStore>(store: &S, state: &RewoundState) -> (r: RewoundState)
    ensures
        r.actor_id == state.actor_id,
        r@ == rewound(
            store.history(state.actor_id),
            if state.sequence < u64::MAX {
                (state.sequence + 1) as u64
            } else {
                u64::MAX
            },
        ),
{
    let next: u64 = if state.sequence < u64::MAX {
        state.sequence + 1
    } else {
        u64::MAX
    };
    rewind_entity(store, state.actor_id, next)
}

/// The directory of the durable store: the configured one, else the default
/// one if it exists.
pub fn store_dir(configured: Option<&str>, default_exists: bool) -> (r: Option<String>)
    ensures
        text::opt_view(r) == match configured {
            Some(p) => if p@.len() > 0 {
                Some(p@)
            } else if default_exists {
                Some(".nulang/store"@)
            } else {
                None
            },
            None => if default_exists {
                Some(".nulang/store"@)
            } else {
                None
            },
        },
{
    match configured {
        Some(p) => {
            if p.unicode_len() > 0 {
                return Some(text(p));
            }
        },
        None => {},
    }
    if default_exists {
        Some(text(".nulang/store"))
    } else {
        None
    }
}

/// Rewinding past the head shows the head.
pub proof fn rewind_clamps(h: runtime::ActorHistory, target_seq: u64)
    requires
        target_seq >= h.head,
    ensures
        rewound(h, target_seq) == rewound(h, h.head),
        rewound(h, target_seq).sequence == h.head,
{
}

/// No event or message after the target shows in a rewind.
pub proof fn rewind_shows_the_past_only(h: runtime::ActorHistory, target_seq: u64)
    ensures
        forall|i: int|
            0 <= i < rewound(h, target_seq).events.len() ==> (#[trigger] rewound(
                h,
                target_seq,
            ).events[i]).sequence <= target_seq,
        forall|i: int|
            0 <= i < rewound(h, target_seq).journal.len() ==> (#[trigger] rewound(
                h,
                target_seq,
            ).journal[i]).sequence <= target_seq,
        rewound(h, target_seq).snapshot_sequence <= target_seq,
{
    let t = rewound(h, target_seq).sequence;
    events_up_to_bounded(h.events, t);
    journal_up_to_bounded(h.journal, t);
}

proof fn events_up_to_bounded(s: Seq<runtime::EventView>, n: u64)
    ensures
        forall|i: int|
            0 <= i < events_up_to(s, n).len() ==> (#[trigger] events_up_to(s, n)[i]).sequence <= n,
    decreases s.len(),
{
    if s.len() > 0 {
        let d = events_up_to(s.drop_last(), n);
        events_up_to_bounded(s.drop_last(), n);
        assert forall|i: int| 0 <= i < events_up_to(s, n).len() implies (#[trigger] events_up_to(
            s,
            n,
        )[i]).sequence <= n by {
            if i < d.len() {
                assert(events_up_to(s, n)[i] == d[i]);
            }
        }
    }
}

proof fn journal_up_to_bounded(s: Seq<runtime::JournalView>, n: u64)
    ensures
        forall|i: int|
            0 <= i < journal_up_to(s, n).len() ==> (#[trigger] journal_up_to(s, n)[i]).sequence
                <= n,
    decreases s.len(),
{
    if s.len() > 0 {
        let d = journal_up_to(s.drop_last(), n);
        journal_up_to_bounded(s.drop_last(), n);
        assert forall|i: int| 0 <= i < journal_up_to(s, n).len() implies (#[trigger] journal_up_to(
            s,
            n,
        )[i]).sequence <= n by {
            if i < d.len() {
                assert(journal_up_to(s, n)[i] == d[i]);
            }
        }
    }
}

/// Whether events are recorded in the order of their sequence numbers.
pub open spec fn events_in_order(s: Seq<runtime::EventView>) -> bool {
    forall|i: int, j: int|
        0 <= i <= j < s.len() ==> (#[trigger] s[i]).sequence <= (#[trigger] s[j]).sequence
}

/// The events of exactly one sequence number.
pub open spec fn events_at(s: Seq<runtime::EventView>, n: u64) -> Seq<runtime::EventView>
    decreases s.len(),
{
    if s.len() == 0 {
        Seq::empty()
    } else if s.last().sequence == n {
        events_at(s.drop_last(), n).push(s.last())
    } else {
        events_at(s.drop_last(), n)
    }
}

proof fn events_step(s: Seq<runtime::EventView>, n: u64)
    requires
        events_in_order(s),
        n < u64::MAX,
    ensures
        events_up_to(s, (n + 1) as u64) == events_up_to(s, n) + events_at(s, (n + 1) as u64),
    decreases s.len(),
{
    let m = (n + 1) as u64;
    if s.len() > 0 {
        let p = s.drop_last();
        events_step(p, n);
        if s.last().sequence <= n {
            none_at(p, s.last().sequence, m);
            assert(events_at(s, m) =~= Seq::<runtime::EventView>::empty());
        }
        assert(events_up_to(s, m) =~= events_up_to(s, n) + events_at(s, m));
    } else {
        assert(events_up_to(s, m) =~= events_up_to(s, n) + events_at(s, m));
    }
}

proof fn none_at(s: Seq<runtime::EventView>, top: u64, m: u64)
    requires
        top < m,
        forall|i: int| 0 <= i < s.len() ==> (#[trigger] s[i]).sequence <= top,
    ensures
        events_at(s, m) == Seq::<runtime::EventView>::empty(),
    decreases s.len(),
{
    if s.len() > 0 {
        none_at(s.drop_last(), top, m);
    }
}

/// Laying two runs of events over a state is laying one after the other.
pub proof fn overlaid_concat(
    base: Map<Seq<char>, PersistedValue>,
    a: Seq<runtime::EventView>,
    b: Seq<runtime::EventView>,
)
    ensures
        overlaid(base, a + b) == overlaid(overlaid(base, a), b),
    decreases b.len(),
{
    if b.len() == 0 {
        assert(a + b =~= a);
    } else {
        assert((a + b).drop_last() =~= a + b.drop_last());
        overlaid_concat(base, a, b.drop_last());
    }
}

/// Stepping forward replays exactly the recorded values of the next message,
/// as long as no snapshot was taken at it.
pub proof fn forward_step_replays_next_events(h: runtime::ActorHistory, n: u64)
    requires
        n < h.head,
        events_in_order(h.events),
        h.snapshot matches Some(s) ==> s.0 != n + 1,
    ensures
        rewound(h, (n + 1) as u64).state == overlaid(
            rewound(h, n).state,
            events_at(h.events, (n + 1) as u64),
        ),
        rewound(h, (n + 1) as u64).sequence == n + 1,
{
    let m = (n + 1) as u64;
    events_step(h.events, n);
    let base = match h.snapshot {
        Some(s) => if s.0 <= n {
            s.1
        } else {
            Map::empty()
        },
        None => Map::empty(),
    };
    overlaid_concat(base, events_up_to(h.events, n), events_at(h.events, m));
}

/// Equal states, as far as their values are numbers or other values, have no
/// differences; and states without differences agree in every field.
pub proof fn no_diff_means_equal(
    d: Seq<StateDiff>,
    before: Map<Seq<char>, PersistedValue>,
    after: Map<Seq<char>, PersistedValue>,
)
    requires
        is_diff(d, before, after),
    ensures
        d.len() == 0 <==> (forall|k: Seq<char>| !#[trigger] differs(before, after, k)),
        d.len() == 0 ==> before.dom() == after.dom(),
{
    if d.len() == 0 {
        assert forall|k: Seq<char>| !#[trigger] differs(before, after, k) by {
            assert(!diff_fields(d).contains(k));
        }
        assert forall|k: Seq<char>| before.dom().contains(k) == after.dom().contains(k) by {
            assert(!differs(before, after, k));
        }
        assert(before.dom() =~= after.dom());
    } else {
        let k = diff_fields(d)[0];
        assert(diff_fields(d).contains(k));
    }
}

proof fn past_events_are_kept(s: Seq<runtime::EventView>, n: u64)
    ensures
        events_up_to(s, n) == s.filter(|e: runtime::EventView| e.sequence <= n),
    decreases s.len(),
{
    reveal(Seq::filter);
    if s.len() > 0 {
        past_events_are_kept(s.drop_last(), n);
    }
}

proof fn past_entries_are_kept(s: Seq<runtime::JournalView>, n: u64)
    ensures
        journal_up_to(s, n) == s.filter(|e: runtime::JournalView| e.sequence <= n),
    decreases s.len(),
{
    reveal(Seq::filter);
    if s.len() > 0 {
        past_entries_are_kept(s.drop_last(), n);
    }
}

proof fn last_event_decides(
    base: Map<Seq<char>, PersistedValue>,
    s: Seq<runtime::EventView>,
    n: u64,
    field: Seq<char>,
)
    ensures
        forall|i: int|
            0 <= i < s.len() && (#[trigger] s[i]).sequence <= n && s[i].field_name == field && (
            forall|j: int|
                i < j < s.len() ==> (#[trigger] s[j]).sequence > n || s[j].field_name != field)
                ==> field_value(overlaid(base, events_up_to(s, n)), field) == Some(s[i].value),
        (forall|i: int|
            0 <= i < s.len() ==> (#[trigger] s[i]).sequence > n || s[i].field_name != field)
            ==> field_value(overlaid(base, events_up_to(s, n)), field) == field_value(base, field),
    decreases s.len(),
{
    if s.len() > 0 {
        last_event_decides(base, s.drop_last(), n, field);
        let before = events_up_to(s.drop_last(), n);
        assert(before.push(s.last()).drop_last() =~= before);
        assert(s[s.len() - 1] == s.last());
        assert forall|i: int| 0 <= i < s.len() - 1 implies #[trigger] s[i] == s.drop_last()[i] by {}
    }
}

/// A rewound field has the value of its last event up to the target; where no
/// event reaches back to it, it has the value in the snapshot, if the snapshot is
/// not newer than the target.
pub proof fn rewound_fields_have_their_last_value(
    h: runtime::ActorHistory,
    target_seq: u64,
    field: Seq<char>,
)
    requires
        target_seq <= h.head,
    ensures
        forall|i: int|
            0 <= i < h.events.len() && (#[trigger] h.events[i]).sequence <= target_seq
                && h.events[i].field_name == field && (forall|j: int|
                i < j < h.events.len() ==> (#[trigger] h.events[j]).sequence > target_seq
                    || h.events[j].field_name != field) ==> field_value(
                rewound(h, target_seq).state,
                field,
            ) == Some(h.events[i].value),
        (forall|i: int|
            0 <= i < h.events.len() ==> (#[trigger] h.events[i]).sequence > target_seq
                || h.events[i].field_name != field) ==> field_value(
            rewound(h, target_seq).state,
            field,
        ) == (match h.snapshot {
            Some(s) => if s.0 <= target_seq {
                field_value(s.1, field)
            } else {
                None
            },
            None => None,
        }),
{
    let base = match h.snapshot {
        Some(s) => if s.0 <= target_seq {
            s.1
        } else {
            Map::empty()
        },
        None => Map::empty(),
    };
    last_event_decides(base, h.events, target_seq, field);
}

/// A rewound state has all events and journal entries up to the target, in their
/// order.
pub proof fn rewound_past_is_complete(h: runtime::ActorHistory, target_seq: u64)
    requires
        target_seq <= h.head,
    ensures
        rewound(h, target_seq).events == h.events.filter(
            |e: runtime::EventView| e.sequence <= target_seq,
        ),
        rewound(h, target_seq).journal == h.journal.filter(
            |e: runtime::JournalView| e.sequence <= target_seq,
        ),
        rewound(h, target_seq).sequence == target_seq,
        rewound(h, target_seq).latest_sequence == h.head,
{
    past_events_are_kept(h.events, target_seq);
    past_entries_are_kept(h.journal, target_seq);
}

/// Differences lead from one state to the other: a field that is listed has its
/// listed values on both sides, one that is not listed has equal values.
pub proof fn differences_lead_over(
    d: Seq<StateDiff>,
    before: Map<Seq<char>, PersistedValue>,
    after: Map<Seq<char>, PersistedValue>,
    i: int,
    k: Seq<char>,
)
    requires
        is_diff(d, before, after),
        0 <= i < d.len(),
    ensures
        d[i].before is Some <==> before.contains_key(d[i].field@),
        d[i].after is Some <==> after.contains_key(d[i].field@),
        d[i].before matches Some(v) ==> before[d[i].field@] == v,
        d[i].after matches Some(v) ==> after[d[i].field@] == v,
        !diff_fields(d).contains(k) ==> (before.contains_key(k) <==> after.contains_key(k)),
        !diff_fields(d).contains(k) && before.contains_key(k) ==> before[k].equals(after[k]),
{
    assert(diff_fields(d)[i] == d[i].field@);
    assert(diff_fields(d).contains(k) <==> differs(before, after, k));
}

} // verus!
