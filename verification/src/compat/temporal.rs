//! Temporal compatibility boundary.
//!
//! Protocol-adapter semantics only: a gateway decodes Temporal requests into
//! these types, then stages the resulting workflow events and durable effects
//! in an atomic durable transition.
//!
//! ```text
//! Temporal protocol -> compat::temporal -> Nulang durable primitives
//! ```

use crate::bytes::{self, push_all, sub_bytes};
use crate::durable_effect::{self, push_sized64, DeliverySemantics, DurableEffectId, DurableEffectRecord, DurableEffectSpec, EffectBoundary};
use crate::durable_effect_persistence::{self, DurableEffectPersistenceRecord};
use crate::hashing;
use crate::numbers;
use crate::runtime::WorkflowEvent;
use crate::text::{self, cat2, cat3, cat4, dec_of, push_dec, text};
use std::collections::BTreeMap;
use vstd::prelude::*;
use vstd::utf8::*;

verus! {

/// Version of the semantic contract shared with managed compatibility
/// adapters.
pub const TEMPORAL_COMPATIBILITY_CONTRACT_VERSION: u16 = 1;

#[derive(Debug, Clone, PartialEq, Eq)]
pub enum TemporalCompatError {
    EmptyField(&'static str),
    ZeroWorkflowTaskStartedEventId,
    ZeroTransitionSequence,
    NonMonotonicHistory { previous: u64, current: u64 },
    HistoryMissingWorkflowStart,
    DuplicateWorkflowStart,
    UnknownActivityScheduledEvent(u64),
    ActivityAlreadyTerminal(u64),
    UnknownTimerStartedEvent(u64),
    TimerAlreadyFired(u64),
    EventAfterTerminal { event_id: u64 },
    TooManyCommands,
}

impl TemporalCompatError {
    pub fn to_string(&self) -> (r: String)
        ensures
            r@ == match self {
                TemporalCompatError::EmptyField(field) => "Temporal compatibility field "@ + field@
                    + " cannot be empty"@,
                TemporalCompatError::ZeroWorkflowTaskStartedEventId =>
                    "Temporal workflow task started event id must be non-zero"@,
                TemporalCompatError::ZeroTransitionSequence =>
                    "Nulang durable transition sequence must be non-zero"@,
                TemporalCompatError::NonMonotonicHistory { previous, current } =>
                    "Temporal history event ids must increase strictly: previous "@ + text::dec(
                    *previous as nat,
                ) + ", current "@ + text::dec(*current as nat),
                TemporalCompatError::HistoryMissingWorkflowStart =>
                    "Temporal history is missing WorkflowExecutionStarted"@,
                TemporalCompatError::DuplicateWorkflowStart =>
                    "Temporal history contains more than one WorkflowExecutionStarted"@,
                TemporalCompatError::UnknownActivityScheduledEvent(id) =>
                    "Temporal activity terminal event references unknown scheduled event "@
                    + text::dec(*id as nat),
                TemporalCompatError::ActivityAlreadyTerminal(id) =>
                    "Temporal activity scheduled at event "@ + text::dec(*id as nat)
                    + " is already terminal"@,
                TemporalCompatError::UnknownTimerStartedEvent(id) =>
                    "Temporal TimerFired references unknown TimerStarted event "@ + text::dec(
                    *id as nat,
                ),
                TemporalCompatError::TimerAlreadyFired(id) => "Temporal timer started at event "@
                    + text::dec(*id as nat) + " already fired"@,
                TemporalCompatError::EventAfterTerminal { event_id } =>
                    "Temporal history event "@ + text::dec(*event_id as nat)
                    + " appears after workflow terminal state"@,
                TemporalCompatError::TooManyCommands =>
                    "Temporal workflow task contains more than u32::MAX commands"@,
            },
    {
        match self {
            TemporalCompatError::EmptyField(field) => cat3(
                "Temporal compatibility field ",
                field,
                " cannot be empty",
            ),
            TemporalCompatError::ZeroWorkflowTaskStartedEventId => text(
                "Temporal workflow task started event id must be non-zero",
            ),
            TemporalCompatError::ZeroTransitionSequence => text(
                "Nulang durable transition sequence must be non-zero",
            ),
            TemporalCompatError::NonMonotonicHistory { previous, current } => cat4(
                "Temporal history event ids must increase strictly: previous ",
                dec_of(*previous).as_str(),
                ", current ",
                dec_of(*current).as_str(),
            ),
            TemporalCompatError::HistoryMissingWorkflowStart => text(
                "Temporal history is missing WorkflowExecutionStarted",
            ),
            TemporalCompatError::DuplicateWorkflowStart => text(
                "Temporal history contains more than one WorkflowExecutionStarted",
            ),
            TemporalCompatError::UnknownActivityScheduledEvent(id) => cat2(
                "Temporal activity terminal event references unknown scheduled event ",
                dec_of(*id).as_str(),
            ),
            TemporalCompatError::ActivityAlreadyTerminal(id) => cat3(
                "Temporal activity scheduled at event ",
                dec_of(*id).as_str(),
                " is already terminal",
            ),
            TemporalCompatError::UnknownTimerStartedEvent(id) => cat2(
                "Temporal TimerFired references unknown TimerStarted event ",
                dec_of(*id).as_str(),
            ),
            TemporalCompatError::TimerAlreadyFired(id) => cat3(
                "Temporal timer started at event ",
                dec_of(*id).as_str(),
                " already fired",
            ),
            TemporalCompatError::EventAfterTerminal { event_id } => cat3(
                "Temporal history event ",
                dec_of(*event_id).as_str(),
                " appears after workflow terminal state",
            ),
            TemporalCompatError::TooManyCommands => text(
                "Temporal workflow task contains more than u32::MAX commands",
            ),
        }
    }
}

fn validate_non_empty(field: &'static str, value: &str) -> (r: Result<(), TemporalCompatError>)
    ensures
        r == (if value@.len() == 0 {
            Err(TemporalCompatError::EmptyField(field))
        } else {
            Ok(())
        }),
{
    let n: usize = value.unicode_len();
    if n == 0 {
        Err(TemporalCompatError::EmptyField(field))
    } else {
        Ok(())
    }
}

/// One length-prefixed component of a stable key; the length counts bytes.
pub open spec fn component(value: Seq<char>) -> Seq<char> {
    "/"@ + text::dec(encode_utf8(value).len()) + ":"@ + value
}

fn append_component(out: &mut String, value: &str)
    ensures
        final(out)@ == old(out)@ + component(value@),
{
    out.append("/");
    push_dec(out, value.as_bytes().len() as u64);
    out.append(":");
    out.append(value);
    assert(out@ =~= old(out)@ + component(value@));
}

/// Identity of one concrete Temporal workflow execution.
#[derive(Debug, Clone, PartialEq, Eq, Hash)]
pub struct TemporalWorkflowExecution {
    pub namespace: String,
    pub workflow_id: String,
    pub run_id: String,
}

/// The textual identity of an execution.
pub open spec fn execution_key(
    namespace: Seq<char>,
    workflow_id: Seq<char>,
    run_id: Seq<char>,
) -> Seq<char> {
    "temporal-execution/v1"@ + component(namespace) + component(workflow_id) + component(run_id)
}

impl TemporalWorkflowExecution {
    pub open spec fn key(self) -> Seq<char> {
        execution_key(self.namespace@, self.workflow_id@, self.run_id@)
    }

    pub fn new(namespace: &str, workflow_id: &str, run_id: &str) -> (r: Result<
        Self,
        TemporalCompatError,
    >)
        ensures
            match r {
                Ok(e) => e.namespace@ == namespace@ && e.workflow_id@ == workflow_id@ && e.run_id@
                    == run_id@ && namespace@.len() > 0 && workflow_id@.len() > 0 && run_id@.len()
                    > 0,
                Err(e) => e == (if namespace@.len() == 0 {
                    TemporalCompatError::EmptyField("namespace")
                } else if workflow_id@.len() == 0 {
                    TemporalCompatError::EmptyField("workflow_id")
                } else {
                    TemporalCompatError::EmptyField("run_id")
                }) && (namespace@.len() == 0 || workflow_id@.len() == 0 || run_id@.len() == 0),
            },
    {
        match validate_non_empty("namespace", namespace) {
            Ok(_) => {},
            Err(e) => {
                return Err(e);
            },
        }
        match validate_non_empty("workflow_id", workflow_id) {
            Ok(_) => {},
            Err(e) => {
                return Err(e);
            },
        }
        match validate_non_empty("run_id", run_id) {
            Ok(_) => {},
            Err(e) => {
                return Err(e);
            },
        }
        Ok(
            TemporalWorkflowExecution {
                namespace: text(namespace),
                workflow_id: text(workflow_id),
                run_id: text(run_id),
            },
        )
    }

    /// Collision-resistant textual identity. Components are length-prefixed so
    /// values containing separators cannot alias a different execution.
    pub fn stable_key(&self) -> (r: String)
        ensures
            r@ == self.key(),
    {
        let mut out: String = text("temporal-execution/v1");
        append_component(&mut out, self.namespace.as_str());
        append_component(&mut out, self.workflow_id.as_str());
        append_component(&mut out, self.run_id.as_str());
        out
    }
}

/// Encoding a text in two parts is encoding the parts.
pub proof fn encode_concat(a: Seq<char>, b: Seq<char>)
    ensures
        encode_utf8(a + b) == encode_utf8(a) + encode_utf8(b),
    decreases a.len(),
{
    if a.len() == 0 {
        assert(a + b =~= b);
        assert(encode_utf8(a) =~= Seq::<u8>::empty());
        assert(encode_utf8(a) + encode_utf8(b) =~= encode_utf8(b));
    } else {
        assert((a + b).drop_first() =~= a.drop_first() + b);
        encode_concat(a.drop_first(), b);
        assert(encode_utf8(a + b) =~= encode_utf8(a) + encode_utf8(b));
    }
}

/// Every character takes at least one byte.
proof fn encoded_at_least(a: Seq<char>)
    ensures
        encode_utf8(a).len() >= a.len(),
    decreases a.len(),
{
    if a.len() > 0 {
        encoded_at_least(a.drop_first());
    }
}

/// A decimal numeral has no colon.
proof fn dec_has_no_colon(n: nat)
    ensures
        forall|i: int| 0 <= i < text::dec(n).len() ==> #[trigger] text::dec(n)[i] != ':',
    decreases n,
{
    assert(text::digit_char((n % 10) as int) != ':');
    if n >= 10 {
        dec_has_no_colon(n / 10);
        assert forall|i: int| 0 <= i < text::dec(n).len() implies #[trigger] text::dec(n)[i]
            != ':' by {
            if i < text::dec(n / 10).len() {
                assert(text::dec(n)[i] == text::dec(n / 10)[i]);
            }
        }
    } else {
        assert(text::dec(n) =~= seq![text::digit_char(n as int)]);
        assert(n % 10 == n);
    }
}

/// Decimal numerals tell numbers apart.
proof fn dec_injective(a: nat, b: nat)
    requires
        text::dec(a) == text::dec(b),
    ensures
        a == b,
{
    let m = a + b;
    numbers::decimal_round_trip(a, m);
    numbers::decimal_round_trip(b, m);
}

/// What follows a prefix.
proof fn skip_front<T>(a: Seq<T>, b: Seq<T>)
    ensures
        (a + b).skip(a.len() as int) == b,
{
    assert((a + b).skip(a.len() as int) =~= b);
}

/// Four parts behind a prefix, grouped from the end.
proof fn group_four<T>(d: Seq<T>, a: Seq<T>, b: Seq<T>, c: Seq<T>, e: Seq<T>)
    ensures
        (d + a + b + c + e).skip(d.len() as int) == a + (b + (c + (e + Seq::<T>::empty()))),
{
    assert((d + a + b + c + e).skip(d.len() as int) =~= a + (b + (c + (e + Seq::<T>::empty()))));
}

/// A component can be split off the front of a text in one way only.
proof fn component_splits(a: Seq<char>, x: Seq<char>, b: Seq<char>, y: Seq<char>)
    requires
        component(a) + x == component(b) + y,
    ensures
        a == b,
        x == y,
{
    let na = encode_utf8(a).len();
    let nb = encode_utf8(b).len();
    let da = text::dec(na);
    let db = text::dec(nb);
    reveal_strlit("/");
    reveal_strlit(":");
    let s = component(a) + x;
    let t = component(b) + y;
    dec_has_no_colon(na);
    dec_has_no_colon(nb);
    assert(s[1 + da.len() as int] == ':');
    assert(t[1 + db.len() as int] == ':');
    if da.len() < db.len() {
        assert(t[1 + da.len() as int] == db[da.len() as int]);
        assert(false);
    }
    if db.len() < da.len() {
        assert(s[1 + db.len() as int] == da[db.len() as int]);
        assert(false);
    }
    assert(da =~= db) by {
        assert forall|i: int| 0 <= i < da.len() implies da[i] == db[i] by {
            assert(s[1 + i] == da[i]);
            assert(t[1 + i] == db[i]);
        }
    }
    dec_injective(na, nb);
    let k = 2 + da.len() as int;
    assert(s.skip(k) =~= a + x);
    assert(t.skip(k) =~= b + y);
    if a.len() <= b.len() {
        component_tail(a, x, b, y);
    } else {
        component_tail(b, y, a, x);
    }
}

proof fn component_tail(a: Seq<char>, x: Seq<char>, b: Seq<char>, y: Seq<char>)
    requires
        a + x == b + y,
        a.len() <= b.len(),
        encode_utf8(a).len() == encode_utf8(b).len(),
    ensures
        a == b,
        x == y,
{
    let rest = b.skip(a.len() as int);
    assert(b =~= a + rest) by {
        assert forall|i: int| 0 <= i < a.len() implies a[i] == b[i] by {
            assert((a + x)[i] == a[i]);
            assert((b + y)[i] == b[i]);
        }
    }
    encode_concat(a, rest);
    encoded_at_least(rest);
    assert(rest.len() == 0);
    assert(a =~= b);
    assert(x =~= (a + x).skip(a.len() as int));
    assert(y =~= (b + y).skip(b.len() as int));
}

/// Executions with the same stable key are the same execution, whatever
/// characters their parts hold.
pub proof fn execution_key_is_injective(
    namespace_a: Seq<char>,
    workflow_a: Seq<char>,
    run_a: Seq<char>,
    namespace_b: Seq<char>,
    workflow_b: Seq<char>,
    run_b: Seq<char>,
)
    requires
        execution_key(namespace_a, workflow_a, run_a) == execution_key(
            namespace_b,
            workflow_b,
            run_b,
        ),
    ensures
        namespace_a == namespace_b,
        workflow_a == workflow_b,
        run_a == run_b,
{
    let p = "temporal-execution/v1"@;
    let s = execution_key(namespace_a, workflow_a, run_a);
    let t = execution_key(namespace_b, workflow_b, run_b);
    let e = Seq::<char>::empty();
    assert(s.skip(p.len() as int) =~= component(namespace_a) + (component(workflow_a) + (component(
        run_a,
    ) + e)));
    assert(t.skip(p.len() as int) =~= component(namespace_b) + (component(workflow_b) + (component(
        run_b,
    ) + e)));
    component_splits(
        namespace_a,
        component(workflow_a) + (component(run_a) + e),
        namespace_b,
        component(workflow_b) + (component(run_b) + e),
    );
    component_splits(workflow_a, component(run_a) + e, workflow_b, component(run_b) + e);
    component_splits(run_a, e, run_b, e);
}

/// Temporal `SCHEDULE_ACTIVITY_TASK` data needed by the compatibility layer.
#[derive(Debug, Clone, PartialEq, Eq)]
pub struct TemporalActivityRequest {
    pub activity_id: String,
    pub activity_type: String,
    pub task_queue: String,
    pub input: Vec<u8>,
}

/// The canonical bytes of an activity request.
pub open spec fn activity_request_bytes(
    activity_id: Seq<char>,
    activity_type: Seq<char>,
    task_queue: Seq<char>,
    input: Seq<u8>,
) -> Seq<u8> {
    encode_utf8("temporal-activity-request/v1\0"@) + durable_effect::sized64(
        encode_utf8(activity_id),
    ) + durable_effect::sized64(encode_utf8(activity_type)) + durable_effect::sized64(
        encode_utf8(task_queue),
    ) + durable_effect::sized64(input)
}

/// The first empty required field of an activity, if any.
pub open spec fn activity_fault(
    activity_id: Seq<char>,
    activity_type: Seq<char>,
    task_queue: Seq<char>,
) -> Option<TemporalCompatError> {
    if activity_id.len() == 0 {
        Some(TemporalCompatError::EmptyField("activity_id"))
    } else if activity_type.len() == 0 {
        Some(TemporalCompatError::EmptyField("activity_type"))
    } else if task_queue.len() == 0 {
        Some(TemporalCompatError::EmptyField("task_queue"))
    } else {
        None
    }
}

fn validate_activity(activity_id: &str, activity_type: &str, task_queue: &str) -> (r: Result<
    (),
    TemporalCompatError,
>)
    ensures
        r == (match activity_fault(activity_id@, activity_type@, task_queue@) {
            Some(e) => Err(e),
            None => Ok(()),
        }),
{
    match validate_non_empty("activity_id", activity_id) {
        Ok(_) => {},
        Err(e) => {
            return Err(e);
        },
    }
    match validate_non_empty("activity_type", activity_type) {
        Ok(_) => {},
        Err(e) => {
            return Err(e);
        },
    }
    validate_non_empty("task_queue", task_queue)
}

impl TemporalActivityRequest {
    pub fn new(activity_id: &str, activity_type: &str, task_queue: &str, input: Vec<u8>) -> (r:
        Self)
        ensures
            r.activity_id@ == activity_id@,
            r.activity_type@ == activity_type@,
            r.task_queue@ == task_queue@,
            r.input == input,
    {
        TemporalActivityRequest {
            activity_id: text(activity_id),
            activity_type: text(activity_type),
            task_queue: text(task_queue),
            input,
        }
    }

    pub open spec fn fault(self) -> Option<TemporalCompatError> {
        activity_fault(self.activity_id@, self.activity_type@, self.task_queue@)
    }

    fn validate(&self) -> (r: Result<(), TemporalCompatError>)
        ensures
            r == (match self.fault() {
                Some(e) => Err(e),
                None => Ok(()),
            }),
    {
        validate_activity(
            self.activity_id.as_str(),
            self.activity_type.as_str(),
            self.task_queue.as_str(),
        )
    }

    pub open spec fn canonical(self) -> Seq<u8> {
        activity_request_bytes(
            self.activity_id@,
            self.activity_type@,
            self.task_queue@,
            self.input@,
        )
    }

    /// Canonical request bytes bound to the durable-effect journal record.
    pub fn durable_request_bytes(&self) -> (r: Vec<u8>)
        ensures
            r@ == self.canonical(),
    {
        let mut out: Vec<u8> = Vec::new();
        push_all(&mut out, "temporal-activity-request/v1\0".as_bytes());
        push_sized64(&mut out, self.activity_id.as_str().as_bytes());
        push_sized64(&mut out, self.activity_type.as_str().as_bytes());
        push_sized64(&mut out, self.task_queue.as_str().as_bytes());
        push_sized64(&mut out, self.input.as_slice());
        assert(out@ =~= self.canonical());
        out
    }
}

/// A sized byte string can be split off the front in one way only.
proof fn sized64_splits(a: Seq<u8>, x: Seq<u8>, b: Seq<u8>, y: Seq<u8>)
    requires
        durable_effect::sized64(a) + x == durable_effect::sized64(b) + y,
        a.len() < 0x1_0000_0000_0000_0000,
        b.len() < 0x1_0000_0000_0000_0000,
    ensures
        a == b,
        x == y,
{
    bytes::pow256_values();
    bytes::le_round_trip(a.len(), 8);
    bytes::le_round_trip(b.len(), 8);
    let s = durable_effect::sized64(a) + x;
    let t = durable_effect::sized64(b) + y;
    assert(s.take(8) =~= bytes::le_bytes(a.len(), 8));
    assert(t.take(8) =~= bytes::le_bytes(b.len(), 8));
    assert(a.len() == b.len());
    assert(s.skip(8).take(a.len() as int) =~= a);
    assert(t.skip(8).take(b.len() as int) =~= b);
    assert(s.skip(8).skip(a.len() as int) =~= x);
    assert(t.skip(8).skip(b.len() as int) =~= y);
}

/// Requests with the same canonical bytes are the same request, so a changed
/// dispatch field changes the journaled request.
pub proof fn activity_request_bytes_injective(
    id_a: Seq<char>,
    type_a: Seq<char>,
    queue_a: Seq<char>,
    input_a: Seq<u8>,
    id_b: Seq<char>,
    type_b: Seq<char>,
    queue_b: Seq<char>,
    input_b: Seq<u8>,
)
    requires
        activity_request_bytes(id_a, type_a, queue_a, input_a) == activity_request_bytes(
            id_b,
            type_b,
            queue_b,
            input_b,
        ),
        activity_request_bytes(id_a, type_a, queue_a, input_a).len() < 0x1_0000_0000_0000_0000,
    ensures
        id_a == id_b,
        type_a == type_b,
        queue_a == queue_b,
        input_a == input_b,
{
    let d = encode_utf8("temporal-activity-request/v1\0"@);
    let ia = encode_utf8(id_a);
    let ib = encode_utf8(id_b);
    let ta = encode_utf8(type_a);
    let tb = encode_utf8(type_b);
    let qa = encode_utf8(queue_a);
    let qb = encode_utf8(queue_b);
    let e = Seq::<u8>::empty();
    let x3 = durable_effect::sized64(input_a) + e;
    let y3 = durable_effect::sized64(input_b) + e;
    let x2 = durable_effect::sized64(qa) + x3;
    let y2 = durable_effect::sized64(qb) + y3;
    let x1 = durable_effect::sized64(ta) + x2;
    let y1 = durable_effect::sized64(tb) + y2;
    group_four(
        d,
        durable_effect::sized64(ia),
        durable_effect::sized64(ta),
        durable_effect::sized64(qa),
        durable_effect::sized64(input_a),
    );
    group_four(
        d,
        durable_effect::sized64(ib),
        durable_effect::sized64(tb),
        durable_effect::sized64(qb),
        durable_effect::sized64(input_b),
    );
    sized64_splits(ia, x1, ib, y1);
    sized64_splits(ta, x2, tb, y2);
    sized64_splits(qa, x3, qb, y3);
    sized64_splits(input_a, e, input_b, e);
    encode_utf8_decode_utf8(id_a);
    encode_utf8_decode_utf8(id_b);
    encode_utf8_decode_utf8(type_a);
    encode_utf8_decode_utf8(type_b);
    encode_utf8_decode_utf8(queue_a);
    encode_utf8_decode_utf8(queue_b);
}

/// Result of translating a Temporal activity command into durability
/// semantics.
#[derive(Debug, Clone, PartialEq, Eq)]
pub struct TemporalActivityPlan {
    pub request: TemporalActivityRequest,
    pub record: DurableEffectRecord,
}

impl TemporalActivityPlan {
    /// Persistence record to stage before external dispatch.
    pub fn prepared_persistence_record(&self) -> (r: DurableEffectPersistenceRecord)
        ensures
            r@ == (durable_effect_persistence::PersistView {
                effect: self.record@,
                compensates: None,
            }),
    {
        DurableEffectPersistenceRecord::from_effect(self.record.copied())
    }

    /// Mark this activity completed and return the persistence record that
    /// should be committed before the workflow observes the result.
    pub fn complete(self, result: Vec<u8>) -> (r: DurableEffectPersistenceRecord)
        ensures
            r@ == (durable_effect_persistence::PersistView {
                effect: durable_effect::completed(self.record@, result@),
                compensates: None,
            }),
    {
        DurableEffectPersistenceRecord::from_effect(self.record.complete(result))
    }
}

/// Temporal commands that can be represented by durable primitives.
#[derive(Debug, Clone, PartialEq, Eq)]
pub enum TemporalCommand {
    ScheduleActivity(TemporalActivityRequest),
    StartTimer { timer_id: String, duration_ms: u64 },
    CompleteWorkflow { result: Vec<u8> },
    FailWorkflow { message: String },
    ContinueAsNew { workflow_type: String, input: Vec<u8> },
}

/// Plan produced from a supported Temporal command.
#[derive(Debug, Clone)]
pub enum TemporalCommandPlan {
    Activity(TemporalActivityPlan),
    WorkflowEvent(WorkflowEvent),
    CompleteWorkflow { result: Vec<u8> },
    FailWorkflow { message: String },
    ContinueAsNew { workflow_type: String, input: Vec<u8> },
}

/// Replay context for one Temporal workflow task.
#[derive(Debug, Clone, PartialEq, Eq)]
pub struct TemporalWorkflowTaskContext {
    pub execution: TemporalWorkflowExecution,
    pub nulang_actor_id: u64,
    pub workflow_task_started_event_id: u64,
    pub transition_sequence: u64,
}

impl TemporalWorkflowTaskContext {
    pub fn new(
        execution: TemporalWorkflowExecution,
        nulang_actor_id: u64,
        workflow_task_started_event_id: u64,
        transition_sequence: u64,
    ) -> (r: Result<Self, TemporalCompatError>)
        ensures
            r == (if workflow_task_started_event_id == 0 {
                Err(TemporalCompatError::ZeroWorkflowTaskStartedEventId)
            } else if transition_sequence == 0 {
                Err(TemporalCompatError::ZeroTransitionSequence)
            } else {
                Ok(
                    TemporalWorkflowTaskContext {
                        execution,
                        nulang_actor_id,
                        workflow_task_started_event_id,
                        transition_sequence,
                    },
                )
            }),
    {
        if workflow_task_started_event_id == 0 {
            return Err(TemporalCompatError::ZeroWorkflowTaskStartedEventId);
        }
        if transition_sequence == 0 {
            return Err(TemporalCompatError::ZeroTransitionSequence);
        }
        Ok(
            TemporalWorkflowTaskContext {
                execution,
                nulang_actor_id,
                workflow_task_started_event_id,
                transition_sequence,
            },
        )
    }

    /// The key that an activity's durable identity is derived from.
    pub open spec fn activity_key(self, activity_id: Seq<char>) -> Seq<char> {
        self.execution.key() + "/workflow-task"@ + component(
            text::dec(self.workflow_task_started_event_id as nat),
        ) + "/activity"@ + component(activity_id)
    }

    fn activity_execution_key(&self, activity_id: &str) -> (r: String)
        ensures
            r@ == self.activity_key(activity_id@),
    {
        let mut out: String = self.execution.stable_key();
        out.append("/workflow-task");
        append_component(&mut out, dec_of(self.workflow_task_started_event_id).as_str());
        out.append("/activity");
        append_component(&mut out, activity_id);
        out
    }

    /// The record that preparing an activity journals.
    pub open spec fn activity_record(
        self,
        command_ordinal: u32,
        request: TemporalActivityRequest,
        delivery: DeliverySemantics,
    ) -> durable_effect::RecordView {
        let operation = "Temporal.Activity/"@ + request.activity_type@;
        durable_effect::prepared(
            durable_effect::SpecView {
                id: hashing::blake3_digest(
                    durable_effect::effect_preimage(
                        self.nulang_actor_id,
                        self.activity_key(request.activity_id@),
                        command_ordinal,
                        operation,
                    ),
                ),
                operation,
                boundary: EffectBoundary::External,
                delivery,
            },
            request.canonical(),
        )
    }

    /// Prepare a Temporal activity as an external durable effect, retryable at
    /// least once.
    pub fn prepare_activity(&self, command_ordinal: u32, request: TemporalActivityRequest) -> (r:
        Result<TemporalActivityPlan, TemporalCompatError>)
        ensures
            match r {
                Ok(plan) => request.fault() is None && plan.request == request && plan.record@
                    == self.activity_record(
                    command_ordinal,
                    request,
                    DeliverySemantics::AtLeastOnce,
                ),
                Err(e) => request.fault() == Some(e),
            },
    {
        self.prepare_activity_with_delivery(
            command_ordinal,
            request,
            DeliverySemantics::AtLeastOnce,
        )
    }

    pub fn prepare_activity_with_delivery(
        &self,
        command_ordinal: u32,
        request: TemporalActivityRequest,
        delivery: DeliverySemantics,
    ) -> (r: Result<TemporalActivityPlan, TemporalCompatError>)
        ensures
            match r {
                Ok(plan) => request.fault() is None && plan.request == request && plan.record@
                    == self.activity_record(command_ordinal, request, delivery),
                Err(e) => request.fault() == Some(e),
            },
    {
        match request.validate() {
            Ok(_) => {},
            Err(e) => {
                return Err(e);
            },
        }
        let key: String = self.activity_execution_key(request.activity_id.as_str());
        let operation: String = cat2("Temporal.Activity/", request.activity_type.as_str());
        let id: DurableEffectId = DurableEffectId::derive(
            self.nulang_actor_id,
            key.as_str(),
            command_ordinal,
            operation.as_str(),
        );
        let spec: DurableEffectSpec = DurableEffectSpec::new(
            id,
            operation.as_str(),
            EffectBoundary::External,
            delivery,
        );
        let durable_request: Vec<u8> = request.durable_request_bytes();
        let record: DurableEffectRecord = DurableEffectRecord::prepare(
            spec,
            durable_request.as_slice(),
        );
        Ok(TemporalActivityPlan { request, record })
    }

    /// Whether a plan is the one that a command with this ordinal translates to.
    pub open spec fn plans(
        self,
        command_ordinal: u32,
        command: TemporalCommand,
        plan: TemporalCommandPlan,
    ) -> bool {
        match command {
            TemporalCommand::ScheduleActivity(request) => (plan matches
                TemporalCommandPlan::Activity(p) && p.request == request && p.record@
                == self.activity_record(command_ordinal, request, DeliverySemantics::AtLeastOnce)),
            TemporalCommand::StartTimer { timer_id, duration_ms } => (plan matches
                TemporalCommandPlan::WorkflowEvent(WorkflowEvent::TimerSet {
                sequence,
                name,
                duration_ms: d,
            }) && sequence == self.transition_sequence && name@ == timer_id@ && d == duration_ms),
            TemporalCommand::CompleteWorkflow { result } => plan
                == (TemporalCommandPlan::CompleteWorkflow { result }),
            TemporalCommand::FailWorkflow { message } => plan
                == (TemporalCommandPlan::FailWorkflow { message }),
            TemporalCommand::ContinueAsNew { workflow_type, input } => plan
                == (TemporalCommandPlan::ContinueAsNew { workflow_type, input }),
        }
    }

    /// Translate one command emitted by a workflow task.
    ///
    /// `command_ordinal` is the ordinal in the complete command list, so that
    /// command reordering is observable during replay.
    pub fn plan_command(&self, command_ordinal: u32, command: TemporalCommand) -> (r: Result<
        TemporalCommandPlan,
        TemporalCompatError,
    >)
        ensures
            match r {
                Ok(plan) => command_fault(command) is None && self.plans(
                    command_ordinal,
                    command,
                    plan,
                ),
                Err(e) => command_fault(command) == Some(e),
            },
    {
        match command {
            TemporalCommand::ScheduleActivity(request) => match self.prepare_activity(
                command_ordinal,
                request,
            ) {
                Ok(plan) => Ok(TemporalCommandPlan::Activity(plan)),
                Err(e) => Err(e),
            },
            TemporalCommand::StartTimer { timer_id, duration_ms } => match self.timer_started(
                timer_id.as_str(),
                duration_ms,
            ) {
                Ok(event) => Ok(TemporalCommandPlan::WorkflowEvent(event)),
                Err(e) => Err(e),
            },
            TemporalCommand::CompleteWorkflow { result } => Ok(
                TemporalCommandPlan::CompleteWorkflow { result },
            ),
            TemporalCommand::FailWorkflow { message } => Ok(
                TemporalCommandPlan::FailWorkflow { message },
            ),
            TemporalCommand::ContinueAsNew { workflow_type, input } => match validate_non_empty(
                "workflow_type",
                workflow_type.as_str(),
            ) {
                Ok(_) => Ok(TemporalCommandPlan::ContinueAsNew { workflow_type, input }),
                Err(e) => Err(e),
            },
        }
    }

    /// Stage a Temporal timer as a durable workflow event.
    pub fn timer_started(&self, timer_id: &str, duration_ms: u64) -> (r: Result<
        WorkflowEvent,
        TemporalCompatError,
    >)
        ensures
            match r {
                Ok(event) => timer_id@.len() > 0 && (event matches WorkflowEvent::TimerSet {
                    sequence,
                    name,
                    duration_ms: d,
                } && sequence == self.transition_sequence && name@ == timer_id@ && d
                    == duration_ms),
                Err(e) => timer_id@.len() == 0 && e == TemporalCompatError::EmptyField("timer_id"),
            },
    {
        match validate_non_empty("timer_id", timer_id) {
            Ok(_) => Ok(
                WorkflowEvent::TimerSet {
                    sequence: self.transition_sequence,
                    name: text(timer_id),
                    duration_ms,
                },
            ),
            Err(e) => Err(e),
        }
    }

    pub fn timer_fired(&self, timer_id: &str) -> (r: Result<WorkflowEvent, TemporalCompatError>)
        ensures
            match r {
                Ok(event) => timer_id@.len() > 0 && (event matches WorkflowEvent::TimerFired {
                    sequence,
                    name,
                } && sequence == self.transition_sequence && name@ == timer_id@),
                Err(e) => timer_id@.len() == 0 && e == TemporalCompatError::EmptyField("timer_id"),
            },
    {
        match validate_non_empty("timer_id", timer_id) {
            Ok(_) => Ok(
                WorkflowEvent::TimerFired {
                    sequence: self.transition_sequence,
                    name: text(timer_id),
                },
            ),
            Err(e) => Err(e),
        }
    }

    pub fn signal_received(&self, signal_name: &str, payload: Option<String>) -> (r: Result<
        WorkflowEvent,
        TemporalCompatError,
    >)
        ensures
            match r {
                Ok(event) => signal_name@.len() > 0 && (event matches
                    WorkflowEvent::SignalReceived { sequence, name, payload: p } && sequence
                    == self.transition_sequence && name@ == signal_name@ && p == payload),
                Err(e) => signal_name@.len() == 0 && e == TemporalCompatError::EmptyField(
                    "signal_name",
                ),
            },
    {
        match validate_non_empty("signal_name", signal_name) {
            Ok(_) => Ok(
                WorkflowEvent::SignalReceived {
                    sequence: self.transition_sequence,
                    name: text(signal_name),
                    payload,
                },
            ),
            Err(e) => Err(e),
        }
    }
}

/// Why a command cannot be planned, if it cannot.
pub open spec fn command_fault(command: TemporalCommand) -> Option<TemporalCompatError> {
    match command {
        TemporalCommand::ScheduleActivity(request) => request.fault(),
        TemporalCommand::StartTimer { timer_id, .. } => if timer_id@.len() == 0 {
            Some(TemporalCompatError::EmptyField("timer_id"))
        } else {
            None
        },
        TemporalCommand::CompleteWorkflow { .. } => None,
        TemporalCommand::FailWorkflow { .. } => None,
        TemporalCommand::ContinueAsNew { workflow_type, .. } => if workflow_type@.len() == 0 {
            Some(TemporalCompatError::EmptyField("workflow_type"))
        } else {
            None
        },
    }
}

/// Seven parts behind a prefix, grouped from the end.
proof fn group_seven<T>(
    d: Seq<T>,
    a: Seq<T>,
    b: Seq<T>,
    c: Seq<T>,
    w: Seq<T>,
    t: Seq<T>,
    v: Seq<T>,
    i: Seq<T>,
)
    ensures
        (d + a + b + c + w + t + v + i).skip(d.len() as int) == a + (b + (c + (w + (t + (v + (i
            + Seq::<T>::empty())))))),
{
    let tail = c + (w + (t + (v + (i + Seq::<T>::empty()))));
    assert(c + w + t + v + i =~= tail);
    assert(d + a + b + c + w + t + v + i =~= d + (a + (b + (c + w + t + v + i))));
    skip_front(d, a + (b + tail));
}

/// Activities of different tasks, executions or activity ids are derived from
/// different keys.
pub proof fn activity_key_is_injective(
    a: TemporalWorkflowTaskContext,
    id_a: Seq<char>,
    b: TemporalWorkflowTaskContext,
    id_b: Seq<char>,
)
    requires
        a.activity_key(id_a) == b.activity_key(id_b),
    ensures
        a.execution.namespace@ == b.execution.namespace@,
        a.execution.workflow_id@ == b.execution.workflow_id@,
        a.execution.run_id@ == b.execution.run_id@,
        a.workflow_task_started_event_id == b.workflow_task_started_event_id,
        id_a == id_b,
{
    let p = "temporal-execution/v1"@;
    let w = "/workflow-task"@;
    let v = "/activity"@;
    let e = Seq::<char>::empty();
    let ta = text::dec(a.workflow_task_started_event_id as nat);
    let tb = text::dec(b.workflow_task_started_event_id as nat);
    let x5 = component(id_a) + e;
    let y5 = component(id_b) + e;
    let x4 = component(ta) + (v + x5);
    let y4 = component(tb) + (v + y5);
    let x3 = component(a.execution.run_id@) + (w + x4);
    let y3 = component(b.execution.run_id@) + (w + y4);
    let x2 = component(a.execution.workflow_id@) + x3;
    let y2 = component(b.execution.workflow_id@) + y3;
    group_seven(
        p,
        component(a.execution.namespace@),
        component(a.execution.workflow_id@),
        component(a.execution.run_id@),
        w,
        component(ta),
        v,
        component(id_a),
    );
    group_seven(
        p,
        component(b.execution.namespace@),
        component(b.execution.workflow_id@),
        component(b.execution.run_id@),
        w,
        component(tb),
        v,
        component(id_b),
    );
    component_splits(a.execution.namespace@, x2, b.execution.namespace@, y2);
    component_splits(a.execution.workflow_id@, x3, b.execution.workflow_id@, y3);
    component_splits(a.execution.run_id@, w + x4, b.execution.run_id@, w + y4);
    skip_front(w, x4);
    skip_front(w, y4);
    component_splits(ta, v + x5, tb, v + y5);
    dec_injective(
        a.workflow_task_started_event_id as nat,
        b.workflow_task_started_event_id as nat,
    );
    skip_front(v, x5);
    skip_front(v, y5);
    component_splits(id_a, e, id_b, e);
}

/// Protocol-neutral subset of Temporal history consumed by the compatibility
/// worker.
#[derive(Debug, Clone, PartialEq, Eq)]
pub enum TemporalHistoryEvent {
    WorkflowExecutionStarted { event_id: u64, workflow_type: String, input: Vec<u8> },
    ActivityTaskScheduled {
        event_id: u64,
        activity_id: String,
        activity_type: String,
        task_queue: String,
        input: Vec<u8>,
    },
    ActivityTaskCompleted { event_id: u64, scheduled_event_id: u64, result: Vec<u8> },
    ActivityTaskFailed { event_id: u64, scheduled_event_id: u64, message: String },
    TimerStarted { event_id: u64, timer_id: String, duration_ms: u64 },
    TimerFired { event_id: u64, started_event_id: u64 },
    WorkflowExecutionSignaled { event_id: u64, signal_name: String, payload: Option<Vec<u8>> },
    WorkflowExecutionCompleted { event_id: u64, result: Vec<u8> },
    WorkflowExecutionFailed { event_id: u64, message: String },
    WorkflowExecutionContinuedAsNew { event_id: u64, new_run_id: String },
}

impl TemporalHistoryEvent {
    pub open spec fn id(self) -> u64 {
        match self {
            TemporalHistoryEvent::WorkflowExecutionStarted { event_id, .. } => event_id,
            TemporalHistoryEvent::ActivityTaskScheduled { event_id, .. } => event_id,
            TemporalHistoryEvent::ActivityTaskCompleted { event_id, .. } => event_id,
            TemporalHistoryEvent::ActivityTaskFailed { event_id, .. } => event_id,
            TemporalHistoryEvent::TimerStarted { event_id, .. } => event_id,
            TemporalHistoryEvent::TimerFired { event_id, .. } => event_id,
            TemporalHistoryEvent::WorkflowExecutionSignaled { event_id, .. } => event_id,
            TemporalHistoryEvent::WorkflowExecutionCompleted { event_id, .. } => event_id,
            TemporalHistoryEvent::WorkflowExecutionFailed { event_id, .. } => event_id,
            TemporalHistoryEvent::WorkflowExecutionContinuedAsNew { event_id, .. } => event_id,
        }
    }

    /// Whether this event ends the workflow execution.
    pub open spec fn ends(self) -> bool {
        self is WorkflowExecutionCompleted || self is WorkflowExecutionFailed
            || self is WorkflowExecutionContinuedAsNew
    }

    pub fn event_id(&self) -> (r: u64)
        ensures
            r == self.id(),
    {
        match self {
            TemporalHistoryEvent::WorkflowExecutionStarted { event_id, .. } => *event_id,
            TemporalHistoryEvent::ActivityTaskScheduled { event_id, .. } => *event_id,
            TemporalHistoryEvent::ActivityTaskCompleted { event_id, .. } => *event_id,
            TemporalHistoryEvent::ActivityTaskFailed { event_id, .. } => *event_id,
            TemporalHistoryEvent::TimerStarted { event_id, .. } => *event_id,
            TemporalHistoryEvent::TimerFired { event_id, .. } => *event_id,
            TemporalHistoryEvent::WorkflowExecutionSignaled { event_id, .. } => *event_id,
            TemporalHistoryEvent::WorkflowExecutionCompleted { event_id, .. } => *event_id,
            TemporalHistoryEvent::WorkflowExecutionFailed { event_id, .. } => *event_id,
            TemporalHistoryEvent::WorkflowExecutionContinuedAsNew { event_id, .. } => *event_id,
        }
    }
}

#[derive(Debug, Clone, PartialEq, Eq)]
pub enum TemporalReplayedActivityState {
    Scheduled,
    Completed(Vec<u8>),
    Failed(String),
}

#[derive(Debug, Clone, PartialEq, Eq)]
pub struct TemporalReplayedActivity {
    pub scheduled_event_id: u64,
    pub activity_id: String,
    pub activity_type: String,
    pub task_queue: String,
    pub input: Vec<u8>,
    pub state: TemporalReplayedActivityState,
}

#[derive(Debug, Clone, PartialEq, Eq)]
pub struct TemporalReplayedTimer {
    pub started_event_id: u64,
    pub timer_id: String,
    pub duration_ms: u64,
    pub fired: bool,
}

#[derive(Debug, Clone, PartialEq, Eq)]
pub struct TemporalReplayedSignal {
    pub event_id: u64,
    pub signal_name: String,
    pub payload: Option<Vec<u8>>,
}

#[derive(Debug, Clone, PartialEq, Eq)]
pub enum TemporalTerminalState {
    Completed(Vec<u8>),
    Failed(String),
    ContinuedAsNew { new_run_id: String },
}

/// The state of a replayed activity.
pub enum ActivityOutcome {
    Scheduled,
    Completed(Seq<u8>),
    Failed(Seq<char>),
}

/// What a replayed activity says.
#[verifier::ext_equal]
pub struct ActivityView {
    pub scheduled_event_id: u64,
    pub activity_id: Seq<char>,
    pub activity_type: Seq<char>,
    pub task_queue: Seq<char>,
    pub input: Seq<u8>,
    pub state: ActivityOutcome,
}

/// What a replayed timer says.
#[verifier::ext_equal]
pub struct TimerView {
    pub started_event_id: u64,
    pub timer_id: Seq<char>,
    pub duration_ms: u64,
    pub fired: bool,
}

/// What a replayed signal says.
#[verifier::ext_equal]
pub struct SignalView {
    pub event_id: u64,
    pub signal_name: Seq<char>,
    pub payload: Option<Seq<u8>>,
}

/// How a workflow execution ended.
pub enum TerminalView {
    Completed(Seq<u8>),
    Failed(Seq<char>),
    ContinuedAsNew(Seq<char>),
}

/// The projection of a history, before it is known to have a start.
#[verifier::ext_equal]
pub struct ReplayView {
    pub workflow_type: Option<Seq<char>>,
    pub input: Seq<u8>,
    pub last_event_id: u64,
    pub activities: Map<u64, ActivityView>,
    pub timers: Map<u64, TimerView>,
    pub signals: Seq<SignalView>,
    pub terminal: Option<TerminalView>,
}

impl View for TemporalReplayedActivityState {
    type V = ActivityOutcome;

    open spec fn view(&self) -> ActivityOutcome {
        match self {
            TemporalReplayedActivityState::Scheduled => ActivityOutcome::Scheduled,
            TemporalReplayedActivityState::Completed(r) => ActivityOutcome::Completed(r@),
            TemporalReplayedActivityState::Failed(m) => ActivityOutcome::Failed(m@),
        }
    }
}

impl View for TemporalReplayedActivity {
    type V = ActivityView;

    open spec fn view(&self) -> ActivityView {
        ActivityView {
            scheduled_event_id: self.scheduled_event_id,
            activity_id: self.activity_id@,
            activity_type: self.activity_type@,
            task_queue: self.task_queue@,
            input: self.input@,
            state: self.state@,
        }
    }
}

impl View for TemporalReplayedTimer {
    type V = TimerView;

    open spec fn view(&self) -> TimerView {
        TimerView {
            started_event_id: self.started_event_id,
            timer_id: self.timer_id@,
            duration_ms: self.duration_ms,
            fired: self.fired,
        }
    }
}

/// The content of an optional payload.
pub open spec fn payload_view(p: Option<Vec<u8>>) -> Option<Seq<u8>> {
    match p {
        Some(v) => Some(v@),
        None => None,
    }
}

impl View for TemporalReplayedSignal {
    type V = SignalView;

    open spec fn view(&self) -> SignalView {
        SignalView {
            event_id: self.event_id,
            signal_name: self.signal_name@,
            payload: payload_view(self.payload),
        }
    }
}

impl View for TemporalTerminalState {
    type V = TerminalView;

    open spec fn view(&self) -> TerminalView {
        match self {
            TemporalTerminalState::Completed(r) => TerminalView::Completed(r@),
            TemporalTerminalState::Failed(m) => TerminalView::Failed(m@),
            TemporalTerminalState::ContinuedAsNew { new_run_id } => TerminalView::ContinuedAsNew(
                new_run_id@,
            ),
        }
    }
}

/// The projection of no events.
pub open spec fn replay_start() -> ReplayView {
    ReplayView {
        workflow_type: None,
        input: Seq::empty(),
        last_event_id: 0,
        activities: Map::empty(),
        timers: Map::empty(),
        signals: Seq::empty(),
        terminal: None,
    }
}

/// Settles a scheduled activity.
pub open spec fn settle(m: ReplayView, scheduled: u64, state: ActivityOutcome) -> Result<
    ReplayView,
    TemporalCompatError,
> {
    if !m.activities.contains_key(scheduled) {
        Err(TemporalCompatError::UnknownActivityScheduledEvent(scheduled))
    } else if !(m.activities[scheduled].state is Scheduled) {
        Err(TemporalCompatError::ActivityAlreadyTerminal(scheduled))
    } else {
        Ok(
            ReplayView {
                activities: m.activities.insert(
                    scheduled,
                    ActivityView { state, ..m.activities[scheduled] },
                ),
                ..m
            },
        )
    }
}

/// What an event adds, once its place in the history is sound.
pub open spec fn effect_of_event(m: ReplayView, event: TemporalHistoryEvent) -> Result<
    ReplayView,
    TemporalCompatError,
> {
    match event {
        TemporalHistoryEvent::WorkflowExecutionStarted { workflow_type, input, .. } =>
            if m.workflow_type is Some {
                Err(TemporalCompatError::DuplicateWorkflowStart)
            } else if workflow_type@.len() == 0 {
                Err(TemporalCompatError::EmptyField("workflow_type"))
            } else {
                Ok(ReplayView { workflow_type: Some(workflow_type@), input: input@, ..m })
            },
        TemporalHistoryEvent::ActivityTaskScheduled {
            event_id,
            activity_id,
            activity_type,
            task_queue,
            input,
        } => match activity_fault(activity_id@, activity_type@, task_queue@) {
            Some(e) => Err(e),
            None => Ok(
                ReplayView {
                    activities: m.activities.insert(
                        event_id,
                        ActivityView {
                            scheduled_event_id: event_id,
                            activity_id: activity_id@,
                            activity_type: activity_type@,
                            task_queue: task_queue@,
                            input: input@,
                            state: ActivityOutcome::Scheduled,
                        },
                    ),
                    ..m
                },
            ),
        },
        TemporalHistoryEvent::ActivityTaskCompleted { scheduled_event_id, result, .. } => settle(
            m,
            scheduled_event_id,
            ActivityOutcome::Completed(result@),
        ),
        TemporalHistoryEvent::ActivityTaskFailed { scheduled_event_id, message, .. } => settle(
            m,
            scheduled_event_id,
            ActivityOutcome::Failed(message@),
        ),
        TemporalHistoryEvent::TimerStarted { event_id, timer_id, duration_ms } =>
            if timer_id@.len() == 0 {
                Err(TemporalCompatError::EmptyField("timer_id"))
            } else {
                Ok(
                    ReplayView {
                        timers: m.timers.insert(
                            event_id,
                            TimerView {
                                started_event_id: event_id,
                                timer_id: timer_id@,
                                duration_ms,
                                fired: false,
                            },
                        ),
                        ..m
                    },
                )
            },
        TemporalHistoryEvent::TimerFired { started_event_id, .. } =>
            if !m.timers.contains_key(started_event_id) {
                Err(TemporalCompatError::UnknownTimerStartedEvent(started_event_id))
            } else if m.timers[started_event_id].fired {
                Err(TemporalCompatError::TimerAlreadyFired(started_event_id))
            } else {
                Ok(
                    ReplayView {
                        timers: m.timers.insert(
                            started_event_id,
                            TimerView { fired: true, ..m.timers[started_event_id] },
                        ),
                        ..m
                    },
                )
            },
        TemporalHistoryEvent::WorkflowExecutionSignaled { event_id, signal_name, payload } =>
            if signal_name@.len() == 0 {
                Err(TemporalCompatError::EmptyField("signal_name"))
            } else {
                Ok(
                    ReplayView {
                        signals: m.signals.push(
                            SignalView {
                                event_id,
                                signal_name: signal_name@,
                                payload: payload_view(payload),
                            },
                        ),
                        ..m
                    },
                )
            },
        TemporalHistoryEvent::WorkflowExecutionCompleted { result, .. } => Ok(
            ReplayView { terminal: Some(TerminalView::Completed(result@)), ..m },
        ),
        TemporalHistoryEvent::WorkflowExecutionFailed { message, .. } => Ok(
            ReplayView { terminal: Some(TerminalView::Failed(message@)), ..m },
        ),
        TemporalHistoryEvent::WorkflowExecutionContinuedAsNew { new_run_id, .. } =>
            if new_run_id@.len() == 0 {
                Err(TemporalCompatError::EmptyField("new_run_id"))
            } else {
                Ok(ReplayView { terminal: Some(TerminalView::ContinuedAsNew(new_run_id@)), ..m })
            },
    }
}

/// The projection after one more event.
pub open spec fn replay_event(m: ReplayView, event: TemporalHistoryEvent) -> Result<
    ReplayView,
    TemporalCompatError,
> {
    if event.id() <= m.last_event_id {
        Err(
            TemporalCompatError::NonMonotonicHistory {
                previous: m.last_event_id,
                current: event.id(),
            },
        )
    } else if m.terminal is Some {
        Err(TemporalCompatError::EventAfterTerminal { event_id: event.id() })
    } else {
        match effect_of_event(m, event) {
            Ok(n) => Ok(ReplayView { last_event_id: event.id(), ..n }),
            Err(e) => Err(e),
        }
    }
}

/// The projection of the first `n` events, or the first error among them.
pub open spec fn replayed(history: Seq<TemporalHistoryEvent>, n: nat) -> Result<
    ReplayView,
    TemporalCompatError,
>
    decreases n,
{
    if n == 0 {
        Ok(replay_start())
    } else {
        match replayed(history, (n - 1) as nat) {
            Ok(m) => replay_event(m, history[n - 1]),
            Err(e) => Err(e),
        }
    }
}

/// Deterministic projection of the supported Temporal history subset.
#[derive(Debug, Clone, PartialEq, Eq)]
pub struct TemporalReplayState {
    pub workflow_type: String,
    pub input: Vec<u8>,
    pub last_event_id: u64,
    pub activities: BTreeMap<u64, TemporalReplayedActivity>,
    pub timers: BTreeMap<u64, TemporalReplayedTimer>,
    pub signals: Vec<TemporalReplayedSignal>,
    pub terminal: Option<TemporalTerminalState>,
}

/// Replayed activities by what they say.
pub open spec fn activity_views(m: Map<u64, TemporalReplayedActivity>) -> Map<u64, ActivityView> {
    m.map_values(|a: TemporalReplayedActivity| a@)
}

/// Replayed timers by what they say.
pub open spec fn timer_views(m: Map<u64, TemporalReplayedTimer>) -> Map<u64, TimerView> {
    m.map_values(|t: TemporalReplayedTimer| t@)
}

/// Replayed signals by what they say.
pub open spec fn signal_views(s: Seq<TemporalReplayedSignal>) -> Seq<SignalView> {
    s.map_values(|x: TemporalReplayedSignal| x@)
}

/// How a workflow execution ended, if it did.
pub open spec fn terminal_view(t: Option<TemporalTerminalState>) -> Option<TerminalView> {
    match t {
        Some(x) => Some(x@),
        None => None,
    }
}

impl View for TemporalReplayState {
    type V = ReplayView;

    open spec fn view(&self) -> ReplayView {
        ReplayView {
            workflow_type: Some(self.workflow_type@),
            input: self.input@,
            last_event_id: self.last_event_id,
            activities: activity_views(self.activities@),
            timers: timer_views(self.timers@),
            signals: signal_views(self.signals@),
            terminal: terminal_view(self.terminal),
        }
    }
}

/// A replay under way.
struct Replayer {
    workflow_type: Option<String>,
    input: Vec<u8>,
    last_event_id: u64,
    activities: BTreeMap<u64, TemporalReplayedActivity>,
    timers: BTreeMap<u64, TemporalReplayedTimer>,
    signals: Vec<TemporalReplayedSignal>,
    terminal: Option<TemporalTerminalState>,
}

fn copy_bytes(s: &Vec<u8>) -> (r: Vec<u8>)
    ensures
        r@ == s@,
{
    let r: Vec<u8> = sub_bytes(s.as_slice(), 0, s.len());
    assert(r@ =~= s@);
    r
}

impl Replayer {
    spec fn shows(&self) -> ReplayView {
        ReplayView {
            workflow_type: text::opt_view(self.workflow_type),
            input: self.input@,
            last_event_id: self.last_event_id,
            activities: activity_views(self.activities@),
            timers: timer_views(self.timers@),
            signals: signal_views(self.signals@),
            terminal: terminal_view(self.terminal),
        }
    }

    fn new() -> (r: Self)
        ensures
            r.shows() == replay_start(),
    {
        let r: Replayer = Replayer {
            workflow_type: None,
            input: Vec::new(),
            last_event_id: 0,
            activities: BTreeMap::new(),
            timers: BTreeMap::new(),
            signals: Vec::new(),
            terminal: None,
        };
        assert(r.shows() =~= replay_start());
        r
    }

    fn start(&mut self, workflow_type: &str, input: &Vec<u8>) -> (r: Result<
        (),
        TemporalCompatError,
    >)
        ensures
            match r {
                Ok(_) => old(self).shows().workflow_type is None && workflow_type@.len() > 0
                    && final(self).shows() == (ReplayView {
                    workflow_type: Some(workflow_type@),
                    input: input@,
                    ..old(self).shows()
                }),
                Err(e) => e == (if old(self).shows().workflow_type is Some {
                    TemporalCompatError::DuplicateWorkflowStart
                } else {
                    TemporalCompatError::EmptyField("workflow_type")
                }) && (old(self).shows().workflow_type is Some || workflow_type@.len() == 0),
            },
    {
        if self.workflow_type.is_some() {
            return Err(TemporalCompatError::DuplicateWorkflowStart);
        }
        match validate_non_empty("workflow_type", workflow_type) {
            Ok(_) => {},
            Err(e) => {
                return Err(e);
            },
        }
        self.workflow_type = Some(text(workflow_type));
        self.input = copy_bytes(input);
        Ok(())
    }

    fn schedule(&mut self, activity: TemporalReplayedActivity)
        ensures
            final(self).shows() == (ReplayView {
                activities: old(self).shows().activities.insert(
                    activity.scheduled_event_id,
                    activity@,
                ),
                ..old(self).shows()
            }),
    {
        broadcast use vstd::std_specs::btree::group_btree_axioms;

        let key: u64 = activity.scheduled_event_id;
        self.activities.insert(key, activity);
        assert(self.shows().activities =~= old(self).shows().activities.insert(key, activity@));
    }

    fn settle(&mut self, scheduled: u64, state: TemporalReplayedActivityState) -> (r: Result<
        (),
        TemporalCompatError,
    >)
        ensures
            match r {
                Ok(_) => settle(old(self).shows(), scheduled, state@) == Ok::<
                    ReplayView,
                    TemporalCompatError,
                >(final(self).shows()),
                Err(e) => settle(old(self).shows(), scheduled, state@) == Err::<
                    ReplayView,
                    TemporalCompatError,
                >(e),
            },
    {
        broadcast use vstd::std_specs::btree::group_btree_axioms;

        let mut activity: TemporalReplayedActivity = match self.activities.remove(&scheduled) {
            Some(a) => a,
            None => {
                return Err(TemporalCompatError::UnknownActivityScheduledEvent(scheduled));
            },
        };
        assert(old(self).shows().activities[scheduled] == activity@);
        match activity.state {
            TemporalReplayedActivityState::Scheduled => {},
            _ => {
                return Err(TemporalCompatError::ActivityAlreadyTerminal(scheduled));
            },
        }
        let ghost before = activity@;
        activity.state = state;
        self.activities.insert(scheduled, activity);
        assert(activity@ =~= (ActivityView { state: state@, ..before }));
        assert(self.shows().activities =~= old(self).shows().activities.insert(
            scheduled,
            activity@,
        ));
        Ok(())
    }

    fn start_timer(&mut self, timer: TemporalReplayedTimer)
        ensures
            final(self).shows() == (ReplayView {
                timers: old(self).shows().timers.insert(timer.started_event_id, timer@),
                ..old(self).shows()
            }),
    {
        broadcast use vstd::std_specs::btree::group_btree_axioms;

        let key: u64 = timer.started_event_id;
        self.timers.insert(key, timer);
        assert(self.shows().timers =~= old(self).shows().timers.insert(key, timer@));
    }

    fn fire(&mut self, started: u64) -> (r: Result<(), TemporalCompatError>)
        ensures
            match r {
                Ok(_) => old(self).shows().timers.contains_key(started)
                    && !old(self).shows().timers[started].fired && final(self).shows()
                    == (ReplayView {
                    timers: old(self).shows().timers.insert(
                        started,
                        TimerView { fired: true, ..old(self).shows().timers[started] },
                    ),
                    ..old(self).shows()
                }),
                Err(e) => if !old(self).shows().timers.contains_key(started) {
                    e == TemporalCompatError::UnknownTimerStartedEvent(started)
                } else {
                    old(self).shows().timers[started].fired && e
                        == TemporalCompatError::TimerAlreadyFired(started)
                },
            },
    {
        broadcast use vstd::std_specs::btree::group_btree_axioms;

        let mut timer: TemporalReplayedTimer = match self.timers.remove(&started) {
            Some(t) => t,
            None => {
                return Err(TemporalCompatError::UnknownTimerStartedEvent(started));
            },
        };
        assert(old(self).shows().timers[started] == timer@);
        if timer.fired {
            return Err(TemporalCompatError::TimerAlreadyFired(started));
        }
        timer.fired = true;
        self.timers.insert(started, timer);
        assert(self.shows().timers =~= old(self).shows().timers.insert(started, timer@));
        Ok(())
    }

    fn signal(&mut self, signal: TemporalReplayedSignal)
        ensures
            final(self).shows() == (ReplayView {
                signals: old(self).shows().signals.push(signal@),
                ..old(self).shows()
            }),
    {
        self.signals.push(signal);
        assert(self.shows().signals =~= old(self).shows().signals.push(signal@));
    }

    fn apply(&mut self, event: &TemporalHistoryEvent) -> (r: Result<(), TemporalCompatError>)
        ensures
            match r {
                Ok(_) => effect_of_event(old(self).shows(), *event) == Ok::<
                    ReplayView,
                    TemporalCompatError,
                >(final(self).shows()),
                Err(e) => effect_of_event(old(self).shows(), *event) == Err::<
                    ReplayView,
                    TemporalCompatError,
                >(e),
            },
    {
        match event {
            TemporalHistoryEvent::WorkflowExecutionStarted { event_id: _, workflow_type, input } =>
                self.start(workflow_type.as_str(), input),
            TemporalHistoryEvent::ActivityTaskScheduled {
                event_id,
                activity_id,
                activity_type,
                task_queue,
                input,
            } => {
                match validate_activity(
                    activity_id.as_str(),
                    activity_type.as_str(),
                    task_queue.as_str(),
                ) {
                    Ok(_) => {},
                    Err(e) => {
                        return Err(e);
                    },
                }
                self.schedule(
                    TemporalReplayedActivity {
                        scheduled_event_id: *event_id,
                        activity_id: activity_id.clone(),
                        activity_type: activity_type.clone(),
                        task_queue: task_queue.clone(),
                        input: copy_bytes(input),
                        state: TemporalReplayedActivityState::Scheduled,
                    },
                );
                Ok(())
            },
            TemporalHistoryEvent::ActivityTaskCompleted {
                event_id: _,
                scheduled_event_id,
                result,
            } => self.settle(
                *scheduled_event_id,
                TemporalReplayedActivityState::Completed(copy_bytes(result)),
            ),
            TemporalHistoryEvent::ActivityTaskFailed {
                event_id: _,
                scheduled_event_id,
                message,
            } => self.settle(
                *scheduled_event_id,
                TemporalReplayedActivityState::Failed(message.clone()),
            ),
            TemporalHistoryEvent::TimerStarted { event_id, timer_id, duration_ms } => {
                match validate_non_empty("timer_id", timer_id.as_str()) {
                    Ok(_) => {},
                    Err(e) => {
                        return Err(e);
                    },
                }
                self.start_timer(
                    TemporalReplayedTimer {
                        started_event_id: *event_id,
                        timer_id: timer_id.clone(),
                        duration_ms: *duration_ms,
                        fired: false,
                    },
                );
                Ok(())
            },
            TemporalHistoryEvent::TimerFired { event_id: _, started_event_id } => self.fire(
                *started_event_id,
            ),
            TemporalHistoryEvent::WorkflowExecutionSignaled { event_id, signal_name, payload } => {
                match validate_non_empty("signal_name", signal_name.as_str()) {
                    Ok(_) => {},
                    Err(e) => {
                        return Err(e);
                    },
                }
                let copy: Option<Vec<u8>> = match payload {
                    Some(p) => Some(copy_bytes(p)),
                    None => None,
                };
                self.signal(
                    TemporalReplayedSignal {
                        event_id: *event_id,
                        signal_name: signal_name.clone(),
                        payload: copy,
                    },
                );
                Ok(())
            },
            TemporalHistoryEvent::WorkflowExecutionCompleted { event_id: _, result } => {
                self.terminal = Some(TemporalTerminalState::Completed(copy_bytes(result)));
                Ok(())
            },
            TemporalHistoryEvent::WorkflowExecutionFailed { event_id: _, message } => {
                self.terminal = Some(TemporalTerminalState::Failed(message.clone()));
                Ok(())
            },
            TemporalHistoryEvent::WorkflowExecutionContinuedAsNew { event_id: _, new_run_id } => {
                match validate_non_empty("new_run_id", new_run_id.as_str()) {
                    Ok(_) => {},
                    Err(e) => {
                        return Err(e);
                    },
                }
                self.terminal = Some(
                    TemporalTerminalState::ContinuedAsNew { new_run_id: new_run_id.clone() },
                );
                Ok(())
            },
        }
    }

    fn step(&mut self, event: &TemporalHistoryEvent) -> (r: Result<(), TemporalCompatError>)
        ensures
            match r {
                Ok(_) => replay_event(old(self).shows(), *event) == Ok::<
                    ReplayView,
                    TemporalCompatError,
                >(final(self).shows()),
                Err(e) => replay_event(old(self).shows(), *event) == Err::<
                    ReplayView,
                    TemporalCompatError,
                >(e),
            },
    {
        let event_id: u64 = event.event_id();
        if event_id <= self.last_event_id {
            return Err(
                TemporalCompatError::NonMonotonicHistory {
                    previous: self.last_event_id,
                    current: event_id,
                },
            );
        }
        if self.terminal.is_some() {
            return Err(TemporalCompatError::EventAfterTerminal { event_id });
        }
        match self.apply(event) {
            Ok(_) => {},
            Err(e) => {
                return Err(e);
            },
        }
        self.last_event_id = event_id;
        Ok(())
    }
}

/// An error of a part of a history is the error of the whole.
pub proof fn replay_error_persists(history: Seq<TemporalHistoryEvent>, n: nat, m: nat)
    requires
        n <= m,
        replayed(history, n) is Err,
    ensures
        replayed(history, m) == replayed(history, n),
    decreases m,
{
    if n < m {
        replay_error_persists(history, n, (m - 1) as nat);
    }
}

impl TemporalReplayState {
    pub fn replay(history: &[TemporalHistoryEvent]) -> (r: Result<Self, TemporalCompatError>)
        ensures
            match replayed(history@, history@.len()) {
                Err(e) => r == Err::<Self, TemporalCompatError>(e),
                Ok(m) => match r {
                    Ok(state) => m == state@,
                    Err(e) => m.workflow_type is None && e
                        == TemporalCompatError::HistoryMissingWorkflowStart,
                },
            },
    {
        let mut replayer: Replayer = Replayer::new();
        let mut i: usize = 0;
        while i < history.len()
            invariant
                i <= history.len(),
                replayed(history@, i as nat) == Ok::<ReplayView, TemporalCompatError>(
                    replayer.shows(),
                ),
            decreases history.len() - i,
        {
            match replayer.step(&history[i]) {
                Ok(_) => {},
                Err(e) => {
                    proof {
                        assert(replayed(history@, (i + 1) as nat) is Err);
                        replay_error_persists(history@, (i + 1) as nat, history@.len());
                    }
                    return Err(e);
                },
            }
            i += 1;
        }
        match replayer.workflow_type {
            Some(workflow_type) => Ok(
                TemporalReplayState {
                    workflow_type,
                    input: replayer.input,
                    last_event_id: replayer.last_event_id,
                    activities: replayer.activities,
                    timers: replayer.timers,
                    signals: replayer.signals,
                    terminal: replayer.terminal,
                },
            ),
            None => Err(TemporalCompatError::HistoryMissingWorkflowStart),
        }
    }
}

/// A replay that succeeds has seen strictly increasing, non-zero event ids,
/// and nothing after a terminal event.
pub proof fn replayed_history_is_ordered(history: Seq<TemporalHistoryEvent>, n: nat)
    requires
        n <= history.len(),
        replayed(history, n) is Ok,
    ensures
        forall|i: int, j: int|
            0 <= i < j < n ==> (#[trigger] history[i]).id() < (#[trigger] history[j]).id(),
        forall|i: int| 0 <= i < n ==> 0 < (#[trigger] history[i]).id() <= (replayed(
            history,
            n,
        )->Ok_0).last_event_id,
        forall|i: int| 0 <= i < n - 1 ==> !(#[trigger] history[i]).ends(),
        n > 0 ==> (replayed(history, n)->Ok_0).last_event_id == history[n - 1].id(),
        (replayed(history, n)->Ok_0).terminal is Some <==> n > 0 && history[n - 1].ends(),
    decreases n,
{
    if n > 0 {
        replayed_history_is_ordered(history, (n - 1) as nat);
    }
}

/// Every activity and timer is filed under the event that created it.
pub proof fn replayed_entries_keep_their_event(history: Seq<TemporalHistoryEvent>, n: nat)
    requires
        n <= history.len(),
        replayed(history, n) is Ok,
    ensures
        forall|k: u64| #[trigger]
            (replayed(history, n)->Ok_0).activities.contains_key(k) ==> (replayed(
                history,
                n,
            )->Ok_0).activities[k].scheduled_event_id == k,
        forall|k: u64| #[trigger]
            (replayed(history, n)->Ok_0).timers.contains_key(k) ==> (replayed(
                history,
                n,
            )->Ok_0).timers[k].started_event_id == k,
    decreases n,
{
    if n > 0 {
        replayed_entries_keep_their_event(history, (n - 1) as nat);
    }
}

/// An activity that has completed or failed keeps its outcome for the rest of
/// the history, and a fired timer stays fired.
pub proof fn replayed_outcomes_are_final(history: Seq<TemporalHistoryEvent>, n: nat, m: nat)
    requires
        n <= m <= history.len(),
        replayed(history, m) is Ok,
    ensures
        replayed(history, n) is Ok,
        forall|k: u64|
            (replayed(history, n)->Ok_0).activities.contains_key(k) && !((replayed(
                history,
                n,
            )->Ok_0).activities[k].state is Scheduled) ==> (#[trigger] (replayed(
                history,
                m,
            )->Ok_0).activities[k]) == (replayed(history, n)->Ok_0).activities[k],
        forall|k: u64|
            (replayed(history, n)->Ok_0).timers.contains_key(k) && (replayed(
                history,
                n,
            )->Ok_0).timers[k].fired ==> (#[trigger] (replayed(history, m)->Ok_0).timers[k])
                == (replayed(history, n)->Ok_0).timers[k],
        forall|k: u64| #[trigger]
            (replayed(history, n)->Ok_0).activities.contains_key(k) ==> (replayed(
                history,
                m,
            )->Ok_0).activities.contains_key(k),
        forall|k: u64| #[trigger]
            (replayed(history, n)->Ok_0).timers.contains_key(k) ==> (replayed(
                history,
                m,
            )->Ok_0).timers.contains_key(k),
    decreases m,
{
    if replayed(history, n) is Err {
        replay_error_persists(history, n, m);
    }
    if n < m {
        let p = (m - 1) as nat;
        replayed_outcomes_are_final(history, n, p);
        entries_are_older(history, p);
        let a = replayed(history, p)->Ok_0;
        let b = replayed(history, m)->Ok_0;
        assert(replay_event(a, history[m - 1]) == Ok::<ReplayView, TemporalCompatError>(b));
    }
}

/// Entries are filed under events already seen.
pub proof fn entries_are_older(history: Seq<TemporalHistoryEvent>, n: nat)
    requires
        n <= history.len(),
        replayed(history, n) is Ok,
    ensures
        forall|k: u64| #[trigger]
            (replayed(history, n)->Ok_0).activities.contains_key(k) ==> k <= (replayed(
                history,
                n,
            )->Ok_0).last_event_id,
        forall|k: u64| #[trigger]
            (replayed(history, n)->Ok_0).timers.contains_key(k) ==> k <= (replayed(
                history,
                n,
            )->Ok_0).last_event_id,
    decreases n,
{
    if n > 0 {
        entries_are_older(history, (n - 1) as nat);
    }
}

/// One workflow task as presented to the protocol-neutral worker core.
#[derive(Debug, Clone, PartialEq, Eq)]
pub struct TemporalWorkflowTask {
    pub execution: TemporalWorkflowExecution,
    pub nulang_actor_id: u64,
    pub workflow_task_started_event_id: u64,
    pub transition_sequence: u64,
    pub history: Vec<TemporalHistoryEvent>,
}

/// Validated and replayed workflow task ready for command generation.
#[derive(Debug, Clone, PartialEq, Eq)]
pub struct TemporalPreparedWorkflowTask {
    pub context: TemporalWorkflowTaskContext,
    pub replay: TemporalReplayState,
}

impl TemporalPreparedWorkflowTask {
    /// Translate a complete ordered command list into plans. The command index
    /// is the stable command ordinal.
    pub fn plan_commands(&self, commands: Vec<TemporalCommand>) -> (r: Result<
        Vec<TemporalCommandPlan>,
        TemporalCompatError,
    >)
        ensures
            match r {
                Ok(plans) => plans@.len() == commands@.len() && commands@.len() <= u32::MAX + 1
                    && forall|i: int|
                    0 <= i < commands@.len() ==> #[trigger] planned_at(
                        self.context,
                        commands@,
                        plans@,
                        i,
                    ),
                Err(e) => exists|i: int| #[trigger]
                    first_fault(commands@, i) && (if i <= u32::MAX {
                        command_fault(commands@[i]) == Some(e)
                    } else {
                        e == TemporalCompatError::TooManyCommands
                    }),
            },
    {
        let ghost all = commands@;
        let mut rest: Vec<TemporalCommand> = commands;
        let mut plans: Vec<TemporalCommandPlan> = Vec::new();
        let mut ordinal: u64 = 0;
        while rest.len() > 0
            invariant
                all == commands@,
                ordinal <= all.len(),
                ordinal <= u32::MAX + 1,
                rest@ == all.skip(ordinal as int),
                plans@.len() == ordinal,
                forall|i: int|
                    0 <= i < ordinal ==> #[trigger] planned_at(self.context, all, plans@, i),
            decreases rest.len(),
        {
            if ordinal > u32::MAX as u64 {
                proof {
                    assert forall|j: int| 0 <= j < ordinal implies command_fault(
                        #[trigger] all[j],
                    ) is None by {
                        assert(planned_at(self.context, all, plans@, j));
                    }
                    assert(first_fault(all, ordinal as int));
                }
                return Err(TemporalCompatError::TooManyCommands);
            }
            let command: TemporalCommand = rest.remove(0);
            assert(command == all[ordinal as int]);
            match self.context.plan_command(ordinal as u32, command) {
                Ok(plan) => {
                    let ghost before = plans@;
                    plans.push(plan);
                    proof {
                        assert forall|i: int| 0 <= i < ordinal + 1 implies #[trigger] planned_at(
                            self.context,
                            all,
                            plans@,
                            i,
                        ) by {
                            if i < ordinal {
                                assert(planned_at(self.context, all, before, i));
                            }
                        }
                    }
                },
                Err(e) => {
                    proof {
                        assert forall|j: int| 0 <= j < ordinal implies command_fault(
                            #[trigger] all[j],
                        ) is None by {
                            assert(planned_at(self.context, all, plans@, j));
                        }
                        assert(first_fault(all, ordinal as int));
                    }
                    return Err(e);
                },
            }
            ordinal += 1;
            assert(rest@ =~= all.skip(ordinal as int));
        }
        assert(ordinal == all.len());
        Ok(plans)
    }
}

/// Whether the command at `i` can be planned, and its plan stands at `i`.
pub open spec fn planned_at(
    context: TemporalWorkflowTaskContext,
    commands: Seq<TemporalCommand>,
    plans: Seq<TemporalCommandPlan>,
    i: int,
) -> bool {
    command_fault(commands[i]) is None && context.plans(i as u32, commands[i], plans[i])
}

/// Whether the command at `i` is the first that cannot be planned.
pub open spec fn first_fault(commands: Seq<TemporalCommand>, i: int) -> bool {
    &&& 0 <= i < commands.len()
    &&& i > u32::MAX || command_fault(commands[i]) is Some
    &&& i <= u32::MAX + 1
    &&& forall|j: int| 0 <= j < i ==> command_fault(#[trigger] commands[j]) is None
}

/// Protocol-independent worker core.
#[derive(Debug, Clone, Copy)]
pub struct TemporalWorkerCore;

impl TemporalWorkerCore {
    pub fn prepare_task(task: TemporalWorkflowTask) -> (r: Result<
        TemporalPreparedWorkflowTask,
        TemporalCompatError,
    >)
        ensures
            match replayed(task.history@, task.history@.len()) {
                Err(e) => r == Err::<TemporalPreparedWorkflowTask, TemporalCompatError>(e),
                Ok(m) => match r {
                    Ok(p) => m == p.replay@ && task.workflow_task_started_event_id != 0
                        && task.transition_sequence != 0 && p.context
                        == (TemporalWorkflowTaskContext {
                        execution: task.execution,
                        nulang_actor_id: task.nulang_actor_id,
                        workflow_task_started_event_id: task.workflow_task_started_event_id,
                        transition_sequence: task.transition_sequence,
                    }),
                    Err(e) => if m.workflow_type is None {
                        e == TemporalCompatError::HistoryMissingWorkflowStart
                    } else if task.workflow_task_started_event_id == 0 {
                        e == TemporalCompatError::ZeroWorkflowTaskStartedEventId
                    } else {
                        task.transition_sequence == 0 && e
                            == TemporalCompatError::ZeroTransitionSequence
                    },
                },
            },
    {
        let replay: TemporalReplayState = match TemporalReplayState::replay(
            task.history.as_slice(),
        ) {
            Ok(s) => s,
            Err(e) => {
                return Err(e);
            },
        };
        match TemporalWorkflowTaskContext::new(
            task.execution,
            task.nulang_actor_id,
            task.workflow_task_started_event_id,
            task.transition_sequence,
        ) {
            Ok(context) => Ok(TemporalPreparedWorkflowTask { context, replay }),
            Err(e) => Err(e),
        }
    }
}

} // verus!
