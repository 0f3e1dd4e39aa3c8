//! Storage-neutral coordination for durable external effects.
//!
//! Connects the state machine of `durable_effect` to the atomic persistence
//! contract. Logical effect identity is chosen by the caller.

use crate::bytes::sub_bytes;
use crate::durable_effect::{self, DurableEffectId, DurableEffectRecord, DurableEffectRecoveryAction, DurableEffectRequestMismatch, DurableEffectSpec};
use crate::durable_effect_persistence::{self, DurableEffectPersistenceRecord};
use crate::hashing;
use crate::runtime::{self, DurableCommit, DurableTransition, MemoryStore, PersistenceStore, StorageError, StorageErrorKind, DURABLE_TRANSITION_VERSION};
use crate::text::{self, cat2, cat3, debug_string, push_dec, text};
use vstd::prelude::*;

verus! {

/// Runtime-owned decision after durable recovery state has been inspected.
#[derive(Debug, Clone, PartialEq, Eq)]
pub enum DurableEffectDispatchDecision {
    /// A terminal receipt already exists. Return these bytes and do not call
    /// the provider again.
    ReplayRecordedResult(Vec<u8>),
    /// Dispatch may be retried and duplicates are part of the contract.
    DispatchAtLeastOnce { operation_id: DurableEffectId },
    /// Dispatch must reuse this operation ID as the deduplication key.
    DispatchWithDeduplication { operation_id: DurableEffectId },
    /// The configured backend owns recovery semantics.
    DelegateToBackend { operation_id: DurableEffectId },
}

/// A dispatch decision by what it says.
pub enum DispatchView {
    Replay(Seq<u8>),
    AtLeastOnce(Seq<u8>),
    WithDeduplication(Seq<u8>),
    Delegate(Seq<u8>),
}

impl DurableEffectDispatchDecision {
    pub open spec fn what(self) -> DispatchView {
        match self {
            DurableEffectDispatchDecision::ReplayRecordedResult(r) => DispatchView::Replay(r@),
            DurableEffectDispatchDecision::DispatchAtLeastOnce { operation_id } =>
                DispatchView::AtLeastOnce(operation_id.0@),
            DurableEffectDispatchDecision::DispatchWithDeduplication { operation_id } =>
                DispatchView::WithDeduplication(operation_id.0@),
            DurableEffectDispatchDecision::DelegateToBackend { operation_id } =>
                DispatchView::Delegate(operation_id.0@),
        }
    }
}

/// What may be done about an effect in the recorded state.
pub open spec fn dispatch(record: durable_effect::RecordView) -> DispatchView {
    match durable_effect::recovery(record) {
        durable_effect::ActionView::Replay(r) => DispatchView::Replay(r),
        durable_effect::ActionView::RetryAtLeastOnce(id) => DispatchView::AtLeastOnce(id),
        durable_effect::ActionView::RetryWithDeduplication(id) => DispatchView::WithDeduplication(
            id,
        ),
        durable_effect::ActionView::DelegateToBackend => DispatchView::Delegate(record.spec.id),
    }
}

#[derive(Debug, Clone, PartialEq, Eq)]
pub enum DurableEffectRuntimeError {
    Storage(StorageError),
    RequestMismatch(DurableEffectRequestMismatch),
    SpecMismatch {
        effect_id: DurableEffectId,
        expected: DurableEffectSpec,
        actual: DurableEffectSpec,
    },
    MissingPreparedEffect { effect_id: DurableEffectId },
}

/// The numbers of the first `n` bytes, separated by commas.
pub open spec fn byte_list(b: Seq<u8>, n: nat) -> Seq<char>
    decreases n,
{
    if n == 0 {
        Seq::empty()
    } else if n == 1 {
        text::dec(b[0] as nat)
    } else {
        byte_list(b, (n - 1) as nat) + ", "@ + text::dec(b[n - 1] as nat)
    }
}

/// The debug form of a specification.
pub open spec fn spec_shown(s: DurableEffectSpec) -> Seq<char> {
    "DurableEffectSpec { id: DurableEffectId(["@ + byte_list(s.id.0@, s.id.0@.len())
        + "]), effect_operation: "@ + text::debug_text(s.effect_operation@) + ", boundary: "@
        + durable_effect::boundary_name(s.boundary) + ", delivery: "@ + durable_effect::delivery_name(s.delivery) + " }"@
}

fn show_spec(s: &DurableEffectSpec) -> (r: String)
    ensures
        r@ == spec_shown(*s),
{
    let mut out: String = text("DurableEffectSpec { id: DurableEffectId([");
    let ghost head = out@;
    let mut i: usize = 0;
    assert(out@ =~= head + byte_list(s.id.0@, 0));
    while i < 32
        invariant
            i <= 32,
            s.id.0@.len() == 32,
            out@ == head + byte_list(s.id.0@, i as nat),
        decreases 32 - i,
    {
        let ghost before = byte_list(s.id.0@, i as nat);
        if i > 0 {
            out.append(", ");
        }
        push_dec(&mut out, s.id.0[i] as u64);
        i += 1;
        assert(i == 1 ==> before =~= Seq::empty());
        assert(out@ =~= head + byte_list(s.id.0@, i as nat));
    }
    out.append("]), effect_operation: ");
    out.append(debug_string(s.effect_operation.as_str()).as_str());
    out.append(", boundary: ");
    out.append(durable_effect::name_of_boundary(s.boundary));
    out.append(", delivery: ");
    out.append(durable_effect::name_of_delivery(s.delivery));
    out.append(" }");
    assert(s.id.0@.len() == 32);
    assert(out@ =~= spec_shown(*s));
    out
}

impl DurableEffectRuntimeError {
    /// The message of an error.
    pub open spec fn spec_text(self) -> Seq<char> {
        match self {
            DurableEffectRuntimeError::Storage(error) => "durable effect storage error: "@
                + error.message@,
            DurableEffectRuntimeError::RequestMismatch(error) => error.spec_text(),
            DurableEffectRuntimeError::SpecMismatch { effect_id, expected, actual } =>
                "durable effect "@ + hashing::hex_text(effect_id.0@)
                + " specification mismatch: expected "@ + spec_shown(expected) + ", got "@
                + spec_shown(actual),
            DurableEffectRuntimeError::MissingPreparedEffect { effect_id } => "durable effect "@
                + hashing::hex_text(effect_id.0@)
                + " cannot complete because no prepared record exists"@,
        }
    }

    pub fn to_string(&self) -> (r: String)
        ensures
            r@ == self.spec_text(),
    {
        match self {
            DurableEffectRuntimeError::Storage(error) => cat2(
                "durable effect storage error: ",
                error.message.as_str(),
            ),
            DurableEffectRuntimeError::RequestMismatch(error) => error.to_string(),
            DurableEffectRuntimeError::SpecMismatch { effect_id, expected, actual } => {
                let mut out: String = cat3(
                    "durable effect ",
                    effect_id.to_string().as_str(),
                    " specification mismatch: expected ",
                );
                out.append(show_spec(expected).as_str());
                out.append(", got ");
                out.append(show_spec(actual).as_str());
                out
            },
            DurableEffectRuntimeError::MissingPreparedEffect { effect_id } => cat3(
                "durable effect ",
                effect_id.to_string().as_str(),
                " cannot complete because no prepared record exists",
            ),
        }
    }
}

/// What to do about a durable effect of which nothing, or a record, is stored.
pub enum BeginStep {
    /// The stored record decides.
    Decided(DurableEffectDispatchDecision),
    /// This record must be stored before dispatch.
    Prepare(DurableEffectRecord),
}

/// What to do about a result that arrived for a stored record.
pub enum CompleteStep {
    /// A result is already stored; it stands.
    Recorded(Vec<u8>),
    /// This record must be stored before the result is used.
    Store(DurableEffectRecord),
}

fn copy_slice(s: &[u8]) -> (r: Vec<u8>)
    ensures
        r@ == s@,
{
    let r: Vec<u8> = sub_bytes(s, 0, s.len());
    assert(r@ =~= s@);
    r
}

fn decision(record: &DurableEffectRecord) -> (r: DurableEffectDispatchDecision)
    ensures
        r.what() == dispatch(record@),
{
    match record.recovery_action() {
        DurableEffectRecoveryAction::ReplayRecordedResult(result) =>
            DurableEffectDispatchDecision::ReplayRecordedResult(copy_slice(result)),
        DurableEffectRecoveryAction::RetryAtLeastOnce { operation_id } =>
            DurableEffectDispatchDecision::DispatchAtLeastOnce { operation_id },
        DurableEffectRecoveryAction::RetryWithDeduplication { operation_id } =>
            DurableEffectDispatchDecision::DispatchWithDeduplication { operation_id },
        DurableEffectRecoveryAction::DelegateToBackend =>
            DurableEffectDispatchDecision::DelegateToBackend { operation_id: record.spec().id },
    }
}

/// Whether an error says that the stored record does not match what is asked.
pub open spec fn mismatch(
    e: DurableEffectRuntimeError,
    expected: durable_effect::SpecView,
    request: Seq<u8>,
    existing: durable_effect::RecordView,
) -> bool {
    if existing.spec != expected {
        e matches DurableEffectRuntimeError::SpecMismatch { effect_id, expected: x, actual }
            && effect_id.0@ == expected.id && x@ == expected && actual@ == existing.spec
    } else {
        e matches DurableEffectRuntimeError::RequestMismatch(m) && request_mismatch(
            m,
            request,
            existing,
        )
    }
}

/// Whether a mismatch is that of this request and this record.
pub open spec fn request_mismatch(
    m: DurableEffectRequestMismatch,
    request: Seq<u8>,
    existing: durable_effect::RecordView,
) -> bool {
    m.effect_id.0@ == existing.spec.id && m.expected_digest@ == existing.digest && m.actual_digest@
        == hashing::blake3_digest(request) && m.actual_digest@ != m.expected_digest@
}

/// Whether a stored record is the one of this specification and request.
pub open spec fn agrees(
    existing: durable_effect::RecordView,
    spec: durable_effect::SpecView,
    request: Seq<u8>,
) -> bool {
    existing.spec == spec && existing.digest == hashing::blake3_digest(request)
}

fn validate_existing(
    expected: &DurableEffectSpec,
    request: &[u8],
    existing: &DurableEffectRecord,
) -> (r: Result<(), DurableEffectRuntimeError>)
    ensures
        match r {
            Ok(_) => agrees(existing@, expected@, request@),
            Err(e) => !agrees(existing@, expected@, request@) && mismatch(
                e,
                expected@,
                request@,
                existing@,
            ),
        },
{
    if !existing.spec().same(expected) {
        return Err(
            DurableEffectRuntimeError::SpecMismatch {
                effect_id: expected.id,
                expected: expected.copied(),
                actual: existing.spec().copied(),
            },
        );
    }
    match existing.validate_request(request) {
        Ok(_) => Ok(()),
        Err(e) => Err(DurableEffectRuntimeError::RequestMismatch(e)),
    }
}

/// Decide how a durable effect begins, given what is stored of it.
pub fn begin_step(
    existing: Option<&DurableEffectPersistenceRecord>,
    spec: DurableEffectSpec,
    request: &[u8],
) -> (r: Result<BeginStep, DurableEffectRuntimeError>)
    ensures
        match existing {
            Some(e) => match r {
                Ok(BeginStep::Decided(d)) => agrees(e@.effect, spec@, request@) && d.what()
                    == dispatch(e@.effect),
                Ok(BeginStep::Prepare(_)) => false,
                Err(err) => !agrees(e@.effect, spec@, request@) && mismatch(
                    err,
                    spec@,
                    request@,
                    e@.effect,
                ),
            },
            None => match r {
                Ok(BeginStep::Prepare(p)) => p@ == durable_effect::prepared(spec@, request@),
                _ => false,
            },
        },
{
    match existing {
        Some(e) => match validate_existing(&spec, request, e.effect()) {
            Ok(_) => Ok(BeginStep::Decided(decision(e.effect()))),
            Err(err) => Err(err),
        },
        None => Ok(BeginStep::Prepare(DurableEffectRecord::prepare(spec, request))),
    }
}

/// Decide what becomes of a result, given what is stored of its effect.
pub fn complete_step(
    existing: Option<&DurableEffectPersistenceRecord>,
    effect_id: DurableEffectId,
    request: &[u8],
    result: Vec<u8>,
) -> (r: Result<CompleteStep, DurableEffectRuntimeError>)
    ensures
        match existing {
            None => r == Err::<CompleteStep, DurableEffectRuntimeError>(
                DurableEffectRuntimeError::MissingPreparedEffect { effect_id },
            ),
            Some(e) => match r {
                Err(err) => e@.effect.digest != hashing::blake3_digest(request@) && (err matches
                    DurableEffectRuntimeError::RequestMismatch(m) && request_mismatch(
                    m,
                    request@,
                    e@.effect,
                )),
                Ok(CompleteStep::Recorded(bytes)) => e@.effect.digest == hashing::blake3_digest(
                    request@,
                ) && e@.effect.result == Some(bytes@),
                Ok(CompleteStep::Store(record)) => e@.effect.digest == hashing::blake3_digest(
                    request@,
                ) && e@.effect.result is None && record is Completed && record@
                    == durable_effect::completed(e@.effect, result@),
            },
        },
{
    let existing: &DurableEffectPersistenceRecord = match existing {
        Some(e) => e,
        None => {
            return Err(DurableEffectRuntimeError::MissingPreparedEffect { effect_id });
        },
    };
    match existing.effect().validate_request(request) {
        Ok(_) => {},
        Err(e) => {
            return Err(DurableEffectRuntimeError::RequestMismatch(e));
        },
    }
    match existing.effect().recovery_action() {
        DurableEffectRecoveryAction::ReplayRecordedResult(recorded) => {
            return Ok(CompleteStep::Recorded(copy_slice(recorded)));
        },
        _ => {},
    }
    Ok(CompleteStep::Store(existing.effect().copied().complete(result)))
}

/// The actor and the activation that a coordinator was made for. Both are
/// fixed when the coordinator is made.
pub struct Activation {
    actor_id: u64,
    epoch: u64,
}

impl Activation {
    /// The actor whose effects are coordinated.
    pub closed spec fn actor(&self) -> u64 {
        self.actor_id
    }

    /// The epoch under which effects are recorded.
    pub closed spec fn epoch(&self) -> u64 {
        self.epoch
    }
}

/// Coordinates one actor's durable external effects.
///
/// The activation epoch is supplied by the owning runtime; a stale one is
/// rejected by the store.
pub struct DurableEffectCoordinator<'a, S: PersistenceStore> {
    pub store: &'a mut S,
    pub activation: Activation,
}

/// The stored record of an effect, if any.
pub open spec fn stored(h: runtime::ActorHistory, id: Seq<u8>) -> Option<
    durable_effect::RecordView,
> {
    if h.effects.contains_key(id) {
        Some(h.effects[id].effect)
    } else {
        None
    }
}

/// A record that is no compensation.
pub open spec fn plain(
    record: durable_effect::RecordView,
) -> durable_effect_persistence::PersistView {
    durable_effect_persistence::PersistView { effect: record, compensates: None }
}

/// Whether `after` follows `before` by one transition that stores `record`
/// under an activation.
pub open spec fn stored_next(
    before: runtime::ActorHistory,
    after: runtime::ActorHistory,
    epoch: u64,
    record: durable_effect::RecordView,
) -> bool {
    &&& after.head == before.head + 1
    &&& after.epoch == (if epoch > before.epoch {
        epoch
    } else {
        before.epoch
    })
    &&& after.effects == before.effects.insert(record.spec.id, plain(record))
    &&& after.snapshot == before.snapshot
    &&& after.events == before.events
    &&& after.journal == before.journal
}

/// Whether a transition stores one record, and nothing else, behind the
/// history of an actor that ends at `previous`.
pub open spec fn carries(
    t: DurableTransition,
    actor_id: u64,
    epoch: u64,
    previous: u64,
    record: durable_effect::RecordView,
) -> bool {
    &&& t.version == DURABLE_TRANSITION_VERSION
    &&& t.actor_id == actor_id
    &&& t.activation_epoch == epoch
    &&& t.sequence == previous + 1
    &&& t.expected_previous_sequence == previous
    &&& t.workflow_events@.len() == 0
    &&& runtime::record_views(t.durable_effects@) == seq![plain(record)]
}

/// Whether `answer` is what the store returned when it was asked for an effect.
pub open spec fn load_returned<S: PersistenceStore>(
    store: S,
    actor_id: u64,
    id: DurableEffectId,
    answer: Result<Option<DurableEffectPersistenceRecord>, StorageError>,
) -> bool {
    call_ensures(S::load_durable_effect, (&store, actor_id, id), answer)
}

/// Whether `answer` is what the store returned when it was asked to record one
/// more transition, of this record under this activation.
pub open spec fn commit_returned<S: PersistenceStore>(
    store: S,
    actor_id: u64,
    epoch: u64,
    record: durable_effect::RecordView,
    answer: Result<DurableCommit, StorageError>,
) -> bool {
    exists|s: &mut S, t: DurableTransition|
        *s == store && carries(t, actor_id, epoch, store.history(actor_id).head, record)
            && #[trigger] call_ensures(S::commit_transition, (s, t), answer)
}

/// Whether an error says that no sequence number is left.
pub open spec fn is_overflow(e: DurableEffectRuntimeError) -> bool {
    e matches DurableEffectRuntimeError::Storage(s) && s.code == StorageErrorKind::InvalidData
        && s.message@ == "durable effect transition sequence overflow"@
}

/// Whether recording came to this end: `failure` is what went wrong, and
/// `after` the history that is left.
pub open spec fn commit_agrees<S: PersistenceStore>(
    store: S,
    actor_id: u64,
    epoch: u64,
    record: durable_effect::RecordView,
    after: runtime::ActorHistory,
    failure: Option<DurableEffectRuntimeError>,
) -> bool {
    let before = store.history(actor_id);
    if before.head == u64::MAX {
        after == before && (failure matches Some(e) && is_overflow(e))
    } else {
        exists|answer: Result<DurableCommit, StorageError>| #[trigger]
            commit_returned(store, actor_id, epoch, record, answer) && match answer {
                Ok(_) => failure is None && stored_next(before, after, epoch, record),
                Err(e) => after == before && failure == Some(
                    DurableEffectRuntimeError::Storage(e),
                ),
            }
    }
}

/// The failure of a result, if it failed.
pub open spec fn failure_of<T>(r: Result<T, DurableEffectRuntimeError>) -> Option<
    DurableEffectRuntimeError,
> {
    match r {
        Ok(_) => None,
        Err(e) => Some(e),
    }
}

/// Whether beginning an effect came to this end: an existing record decides
/// and nothing is written, or the intent is recorded first.
pub open spec fn begin_agrees<S: PersistenceStore>(
    store: S,
    actor_id: u64,
    epoch: u64,
    spec: DurableEffectSpec,
    request: Seq<u8>,
    after: runtime::ActorHistory,
    r: Result<DurableEffectDispatchDecision, DurableEffectRuntimeError>,
) -> bool {
    let before = store.history(actor_id);
    let intent = durable_effect::prepared(spec@, request);
    exists|answer: Result<Option<DurableEffectPersistenceRecord>, StorageError>| #[trigger]
        load_returned(store, actor_id, spec.id, answer) && match answer {
            Err(e) => after == before && failure_of(r) == Some(
                DurableEffectRuntimeError::Storage(e),
            ),
            Ok(Some(existing)) => after == before && match r {
                Ok(d) => agrees(existing@.effect, spec@, request) && d.what() == dispatch(
                    existing@.effect,
                ),
                Err(e) => !agrees(existing@.effect, spec@, request) && mismatch(
                    e,
                    spec@,
                    request,
                    existing@.effect,
                ),
            },
            Ok(None) => commit_agrees(store, actor_id, epoch, intent, after, failure_of(r)) && (
            r matches Ok(d) ==> d.what() == dispatch(intent)),
        }
}

/// Whether completing an effect came to this end: a result that is already
/// stored stands and nothing is written, or this result is recorded.
pub open spec fn complete_agrees<S: PersistenceStore>(
    store: S,
    actor_id: u64,
    epoch: u64,
    effect_id: DurableEffectId,
    request: Seq<u8>,
    result: Seq<u8>,
    after: runtime::ActorHistory,
    r: Result<Vec<u8>, DurableEffectRuntimeError>,
) -> bool {
    let before = store.history(actor_id);
    exists|answer: Result<Option<DurableEffectPersistenceRecord>, StorageError>| #[trigger]
        load_returned(store, actor_id, effect_id, answer) && match answer {
            Err(e) => after == before && failure_of(r) == Some(
                DurableEffectRuntimeError::Storage(e),
            ),
            Ok(None) => after == before && failure_of(r) == Some(
                DurableEffectRuntimeError::MissingPreparedEffect { effect_id },
            ),
            Ok(Some(existing)) => if existing@.effect.digest != hashing::blake3_digest(request) {
                after == before && (r matches Err(DurableEffectRuntimeError::RequestMismatch(m))
                    && request_mismatch(m, request, existing@.effect))
            } else {
                match existing@.effect.result {
                    Some(recorded) => after == before && (r matches Ok(bytes) && bytes@
                        == recorded),
                    None => commit_agrees(
                        store,
                        actor_id,
                        epoch,
                        durable_effect::completed(existing@.effect, result),
                        after,
                        failure_of(r),
                    ) && (r matches Ok(bytes) ==> bytes@ == result),
                }
            },
        }
}

impl<'a, S: PersistenceStore> DurableEffectCoordinator<'a, S> {
    /// The actor whose effects are coordinated.
    pub open spec fn actor(&self) -> u64 {
        self.activation.actor()
    }

    /// The epoch under which effects are recorded.
    pub open spec fn epoch(&self) -> u64 {
        self.activation.epoch()
    }

    pub fn new(store: &'a mut S, actor_id: u64, activation_epoch: u64) -> (r: Self)
        ensures
            *r.store == *old(store),
            *final(store) == *final(r.store),
            r.actor() == actor_id,
            r.epoch() == activation_epoch,
    {
        DurableEffectCoordinator { store, activation: Activation { actor_id, epoch: activation_epoch } }
    }

    fn commit_record(&mut self, record: DurableEffectPersistenceRecord) -> (r: Result<
        DurableCommit,
        DurableEffectRuntimeError,
    >)
        requires
            record@.compensates is None,
        ensures
            *final(final(self).store) == *final(old(self).store),
            final(self).actor() == old(self).actor(),
            final(self).epoch() == old(self).epoch(),
            forall|a: u64|
                a != old(self).actor() ==> #[trigger] final(self).store.history(a)
                    == old(self).store.history(a),
            commit_agrees(
                *old(self).store,
                old(self).actor(),
                old(self).epoch(),
                record@.effect,
                final(self).store.history(old(self).actor()),
                failure_of(r),
            ),
    {
        let previous: u64 = self.store.latest_sequence(self.activation.actor_id);
        if previous == u64::MAX {
            return Err(
                DurableEffectRuntimeError::Storage(
                    StorageError::new(
                        StorageErrorKind::InvalidData,
                        "durable effect transition sequence overflow",
                    ),
                ),
            );
        }
        let ghost view = record@;
        let mut durable_effects: Vec<DurableEffectPersistenceRecord> = Vec::new();
        durable_effects.push(record);
        let transition: DurableTransition = DurableTransition {
            version: DURABLE_TRANSITION_VERSION,
            actor_id: self.activation.actor_id,
            activation_epoch: self.activation.epoch,
            sequence: previous + 1,
            expected_previous_sequence: previous,
            workflow_events: Vec::new(),
            durable_effects,
        };
        let ghost store = *self.store;
        let ghost before = store.history(self.activation.actor_id);
        proof {
            reveal_with_fuel(runtime::effects_after, 2);
            assert(view =~= plain(view.effect));
            assert(runtime::record_views(transition.durable_effects@) =~= seq![view]);
            assert(carries(
                transition,
                self.activation.actor_id,
                self.activation.epoch,
                before.head,
                view.effect,
            ));
        }
        let answer: Result<DurableCommit, StorageError> = self.store.commit_transition(transition);
        assert(commit_returned(
            store,
            self.activation.actor_id,
            self.activation.epoch,
            view.effect,
            answer,
        ));
        match answer {
            Ok(c) => {
                proof {
                    let after = self.store.history(self.activation.actor_id);
                    assert(after == runtime::committed(before, transition));
                    assert(stored_next(before, after, self.activation.epoch, view.effect));
                }
                Ok(c)
            },
            Err(e) => Err(DurableEffectRuntimeError::Storage(e)),
        }
    }

    /// Inspect recovery history and durably prepare a new effect before any
    /// external dispatch.
    ///
    /// If a record already exists, no new transition is written.
    pub fn begin(&mut self, spec: DurableEffectSpec, request: &[u8]) -> (r: Result<
        DurableEffectDispatchDecision,
        DurableEffectRuntimeError,
    >)
        ensures
            *final(final(self).store) == *final(old(self).store),
            final(self).actor() == old(self).actor(),
            final(self).epoch() == old(self).epoch(),
            forall|a: u64|
                a != old(self).actor() ==> #[trigger] final(self).store.history(a)
                    == old(self).store.history(a),
            begin_agrees(
                *old(self).store,
                old(self).actor(),
                old(self).epoch(),
                spec,
                request@,
                final(self).store.history(old(self).actor()),
                r,
            ),
    {
        let ghost asked = spec;
        let loaded: Result<Option<DurableEffectPersistenceRecord>, StorageError> =
            self.store.load_durable_effect(self.activation.actor_id, spec.id);
        assert(load_returned(*old(self).store, self.activation.actor_id, asked.id, loaded));
        let found: Option<DurableEffectPersistenceRecord> = match loaded {
            Ok(f) => f,
            Err(e) => {
                return Err(DurableEffectRuntimeError::Storage(e));
            },
        };
        let existing: Option<&DurableEffectPersistenceRecord> = match &found {
            Some(record) => Some(record),
            None => None,
        };
        match begin_step(existing, spec, request) {
            Err(e) => Err(e),
            Ok(BeginStep::Decided(d)) => Ok(d),
            Ok(BeginStep::Prepare(prepared)) => {
                let d: DurableEffectDispatchDecision = decision(&prepared);
                match self.commit_record(DurableEffectPersistenceRecord::from_effect(prepared)) {
                    Ok(_) => Ok(d),
                    Err(e) => Err(e),
                }
            },
        }
    }

    /// Persist the terminal result for a previously prepared effect.
    ///
    /// Completion is monotonic: if a terminal result is already stored, those
    /// bytes are returned and no new transition is written.
    pub fn complete(&mut self, effect_id: DurableEffectId, request: &[u8], result: Vec<u8>) -> (r:
        Result<Vec<u8>, DurableEffectRuntimeError>)
        ensures
            *final(final(self).store) == *final(old(self).store),
            final(self).actor() == old(self).actor(),
            final(self).epoch() == old(self).epoch(),
            forall|a: u64|
                a != old(self).actor() ==> #[trigger] final(self).store.history(a)
                    == old(self).store.history(a),
            complete_agrees(
                *old(self).store,
                old(self).actor(),
                old(self).epoch(),
                effect_id,
                request@,
                result@,
                final(self).store.history(old(self).actor()),
                r,
            ),
    {
        let loaded: Result<Option<DurableEffectPersistenceRecord>, StorageError> =
            self.store.load_durable_effect(self.activation.actor_id, effect_id);
        assert(load_returned(*old(self).store, self.activation.actor_id, effect_id, loaded));
        let found: Option<DurableEffectPersistenceRecord> = match loaded {
            Ok(f) => f,
            Err(e) => {
                return Err(DurableEffectRuntimeError::Storage(e));
            },
        };
        let existing: Option<&DurableEffectPersistenceRecord> = match &found {
            Some(record) => Some(record),
            None => None,
        };
        match complete_step(existing, effect_id, request, result) {
            Err(e) => Err(e),
            Ok(CompleteStep::Recorded(bytes)) => Ok(bytes),
            Ok(CompleteStep::Store(record)) => {
                let durable_result: Vec<u8> = match &record {
                    DurableEffectRecord::Completed { result: r, .. } => copy_slice(r.as_slice()),
                    DurableEffectRecord::Prepared { .. } => Vec::new(),
                };
                match self.commit_record(DurableEffectPersistenceRecord::from_effect(record)) {
                    Ok(_) => Ok(durable_result),
                    Err(e) => Err(e),
                }
            },
        }
    }
}

// ---------------------------------------------------------------------------
// Laws
// ---------------------------------------------------------------------------

/// What the store holds of an effect decides how it begins; a failure of the
/// store is the one exception, and it writes nothing.
pub proof fn begin_follows_history<S: PersistenceStore>(
    store: S,
    actor_id: u64,
    epoch: u64,
    spec: DurableEffectSpec,
    request: Seq<u8>,
    after: runtime::ActorHistory,
    r: Result<DurableEffectDispatchDecision, DurableEffectRuntimeError>,
)
    requires
        begin_agrees(store, actor_id, epoch, spec, request, after, r),
    ensures
        r is Err ==> after == store.history(actor_id),
        match stored(store.history(actor_id), spec.id.0@) {
            Some(e) => after == store.history(actor_id) && match r {
                Ok(d) => agrees(e, spec@, request) && d.what() == dispatch(e),
                Err(err) => err is Storage || (!agrees(e, spec@, request) && mismatch(
                    err,
                    spec@,
                    request,
                    e,
                )),
            },
            None => match r {
                Ok(d) => d.what() == dispatch(durable_effect::prepared(spec@, request))
                    && stored_next(
                    store.history(actor_id),
                    after,
                    epoch,
                    durable_effect::prepared(spec@, request),
                ),
                Err(err) => err is Storage,
            },
        },
{
}

/// The first durable result is never replaced: once a completion succeeded,
/// another one for the same request returns the same bytes and writes nothing,
/// whatever result it brings and under whatever activation, unless the store
/// fails.
pub proof fn first_result_stands<S: PersistenceStore>(
    first_store: S,
    second_store: S,
    actor_id: u64,
    first_epoch: u64,
    second_epoch: u64,
    effect_id: DurableEffectId,
    request: Seq<u8>,
    first_result: Seq<u8>,
    second_result: Seq<u8>,
    between: runtime::ActorHistory,
    after: runtime::ActorHistory,
    first: Vec<u8>,
    second: Result<Vec<u8>, DurableEffectRuntimeError>,
)
    requires
        complete_agrees(
            first_store,
            actor_id,
            first_epoch,
            effect_id,
            request,
            first_result,
            between,
            Ok(first),
        ),
        second_store.history(actor_id) == between,
        complete_agrees(
            second_store,
            actor_id,
            second_epoch,
            effect_id,
            request,
            second_result,
            after,
            second,
        ),
        !(second matches Err(e) && e is Storage),
    ensures
        second matches Ok(bytes) && bytes@ == first@,
        after == between,
{
}

/// An older activation cannot prepare an effect in a [`MemoryStore`]: it is
/// refused for its epoch, and nothing is written.
pub proof fn stale_activation_cannot_prepare(
    store: MemoryStore,
    actor_id: u64,
    epoch: u64,
    spec: DurableEffectSpec,
    request: Seq<u8>,
    after: runtime::ActorHistory,
    r: Result<DurableEffectDispatchDecision, DurableEffectRuntimeError>,
)
    requires
        begin_agrees(store, actor_id, epoch, spec, request, after, r),
        stored(store.history(actor_id), spec.id.0@) is None,
        epoch < store.history(actor_id).epoch,
        store.history(actor_id).head < u64::MAX,
    ensures
        r matches Err(DurableEffectRuntimeError::Storage(e)) && e.code
            == StorageErrorKind::PermissionDenied,
        after == store.history(actor_id),
{
}

/// The current activation, or a newer one, prepares an effect in a
/// [`MemoryStore`] before it is told to dispatch.
pub proof fn current_activation_prepares(
    store: MemoryStore,
    actor_id: u64,
    epoch: u64,
    spec: DurableEffectSpec,
    request: Seq<u8>,
    after: runtime::ActorHistory,
    r: Result<DurableEffectDispatchDecision, DurableEffectRuntimeError>,
)
    requires
        begin_agrees(store, actor_id, epoch, spec, request, after, r),
        stored(store.history(actor_id), spec.id.0@) is None,
        epoch >= store.history(actor_id).epoch,
        store.history(actor_id).head < u64::MAX,
    ensures
        r matches Ok(d) && d.what() == dispatch(durable_effect::prepared(spec@, request)),
        stored_next(
            store.history(actor_id),
            after,
            epoch,
            durable_effect::prepared(spec@, request),
        ),
{
}

/// An older activation cannot complete an effect in a [`MemoryStore`]: it is
/// refused for its epoch, and nothing is written.
pub proof fn stale_activation_cannot_complete(
    store: MemoryStore,
    actor_id: u64,
    epoch: u64,
    effect_id: DurableEffectId,
    request: Seq<u8>,
    result: Seq<u8>,
    intent: durable_effect::RecordView,
    after: runtime::ActorHistory,
    r: Result<Vec<u8>, DurableEffectRuntimeError>,
)
    requires
        complete_agrees(store, actor_id, epoch, effect_id, request, result, after, r),
        stored(store.history(actor_id), effect_id.0@) == Some(intent),
        intent.digest == hashing::blake3_digest(request),
        intent.result is None,
        epoch < store.history(actor_id).epoch,
        store.history(actor_id).head < u64::MAX,
    ensures
        r matches Err(DurableEffectRuntimeError::Storage(e)) && e.code
            == StorageErrorKind::PermissionDenied,
        after == store.history(actor_id),
{
}

/// The current activation, or a newer one, completes a prepared effect in a
/// [`MemoryStore`].
pub proof fn current_activation_completes(
    store: MemoryStore,
    actor_id: u64,
    epoch: u64,
    effect_id: DurableEffectId,
    request: Seq<u8>,
    result: Seq<u8>,
    intent: durable_effect::RecordView,
    after: runtime::ActorHistory,
    r: Result<Vec<u8>, DurableEffectRuntimeError>,
)
    requires
        complete_agrees(store, actor_id, epoch, effect_id, request, result, after, r),
        stored(store.history(actor_id), effect_id.0@) == Some(intent),
        intent.digest == hashing::blake3_digest(request),
        intent.result is None,
        epoch >= store.history(actor_id).epoch,
        store.history(actor_id).head < u64::MAX,
    ensures
        r matches Ok(bytes) && bytes@ == result,
        stored_next(
            store.history(actor_id),
            after,
            epoch,
            durable_effect::completed(intent, result),
        ),
{
}

/// Dispatch follows the promise of the effect under its own identity; a recorded
/// result is given back instead.
pub proof fn dispatch_follows_the_promise(record: durable_effect::RecordView)
    ensures
        match dispatch(record) {
            DispatchView::Replay(r) => record.result == Some(r),
            DispatchView::AtLeastOnce(id) => record.result is None && id == record.spec.id
                && record.spec.delivery is AtLeastOnce,
            DispatchView::WithDeduplication(id) => record.result is None && id == record.spec.id
                && record.spec.delivery is EffectivelyOnceWithDeduplication,
            DispatchView::Delegate(id) => record.result is None && id == record.spec.id
                && record.spec.delivery is BackendDefined,
        },
{
}

/// A stored effect answers to its own specification and request alone: a retry of
/// the same request is taken up, one with another specification is not, nor one
/// whose request has another digest.
pub proof fn records_answer_to_their_request(
    existing: durable_effect::RecordView,
    a: durable_effect::SpecView,
    request_a: Seq<u8>,
    b: durable_effect::SpecView,
    request_b: Seq<u8>,
    result: Seq<u8>,
)
    ensures
        agrees(durable_effect::prepared(a, request_a), a, request_a),
        agrees(
            durable_effect::completed(durable_effect::prepared(a, request_a), result),
            a,
            request_a,
        ),
        agrees(existing, a, request_a) && agrees(existing, b, request_b) ==> a == b
            && hashing::blake3_digest(request_a) == hashing::blake3_digest(request_b),
{
}

} // verus!
