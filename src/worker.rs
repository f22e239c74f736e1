//! The decisions of the proof worker. The worker takes one request at a time:
//! it resolves the certificate (waiting while it is not yet available),
//! retrieves the payload, checks the commitment, runs the prover, and writes
//! the request back as done or failed. The caller performs each action and
//! reports what came of it as the next event.
use crate::artifact::{artifact_hex, hex_string};
use vstd::prelude::*;

verus! {

/// Seconds between two looks for a queued request when none was found.
pub const IDLE_BACKOFF_SECS: u64 = 5;

/// Seconds between two attempts to resolve a certificate.
pub const RESOLVE_RETRY_SECS: u64 = 1;

/// What the worker is busy with.
#[derive(Debug, Clone, PartialEq, Eq)]
pub enum WorkerState {
    Idle,
    Resolving(String),
    Retrieving(String),
    Checking(String),
    Proving(String),
}

/// What came of the last action.
#[derive(Debug, Clone, PartialEq, Eq)]
pub enum WorkerEvent {
    /// The oldest queued request, if any.
    Pending(Option<String>),
    /// The certificate is not available yet.
    CertificateMissing,
    CertificateFound,
    /// The certificate could not be looked up (a bad identifier, a failed call).
    ResolutionFailed,
    PayloadRetrieved,
    RetrievalFailed,
    /// The payload matches the certificate's commitment.
    ConsistencyChecked,
    ConsistencyFailed,
    /// The prover returned; the artifact is encoded.
    Proved(Vec<u8>),
    ProvingFailed,
    /// The result of the request was written.
    Recorded,
}

/// What to do next.
#[derive(Debug, Clone, PartialEq, Eq)]
pub enum WorkerAction {
    /// Wait this many seconds, then look for the oldest queued request.
    FetchPending(u64),
    /// Wait this many seconds, then look up the certificate of the request.
    ResolveCertificate(String, u64),
    RetrievePayload(String),
    CheckConsistency(String),
    Prove(String),
    /// Store this proof text for the request, which becomes done.
    StoreProof(String, String),
    /// Mark the request failed.
    MarkFailed(String),
}

/// The transition relation of the worker, on plain values: a request is
/// finished (stored or marked failed) only from the step that concerns it,
/// and every failure of a step marks the request failed. An event that does
/// not answer the current step sends the worker back to look for work; the
/// request it was busy with stays queued and is taken up again.
pub open spec fn worker_step(s: WorkerState, e: WorkerEvent) -> (WorkerState, WorkerAction) {
    match (s, e) {
        (WorkerState::Idle, WorkerEvent::Pending(None)) => (
            WorkerState::Idle,
            WorkerAction::FetchPending(IDLE_BACKOFF_SECS),
        ),
        (WorkerState::Idle, WorkerEvent::Pending(Some(id))) => (
            WorkerState::Resolving(id),
            WorkerAction::ResolveCertificate(id, 0),
        ),
        (WorkerState::Resolving(id), WorkerEvent::CertificateMissing) => (
            WorkerState::Resolving(id),
            WorkerAction::ResolveCertificate(id, RESOLVE_RETRY_SECS),
        ),
        (WorkerState::Resolving(id), WorkerEvent::CertificateFound) => (
            WorkerState::Retrieving(id),
            WorkerAction::RetrievePayload(id),
        ),
        (WorkerState::Resolving(id), WorkerEvent::ResolutionFailed) => (
            WorkerState::Idle,
            WorkerAction::MarkFailed(id),
        ),
        (WorkerState::Retrieving(id), WorkerEvent::PayloadRetrieved) => (
            WorkerState::Checking(id),
            WorkerAction::CheckConsistency(id),
        ),
        (WorkerState::Retrieving(id), WorkerEvent::RetrievalFailed) => (
            WorkerState::Idle,
            WorkerAction::MarkFailed(id),
        ),
        (WorkerState::Checking(id), WorkerEvent::ConsistencyChecked) => (
            WorkerState::Proving(id),
            WorkerAction::Prove(id),
        ),
        (WorkerState::Checking(id), WorkerEvent::ConsistencyFailed) => (
            WorkerState::Idle,
            WorkerAction::MarkFailed(id),
        ),
        (WorkerState::Proving(id), WorkerEvent::ProvingFailed) => (
            WorkerState::Idle,
            WorkerAction::MarkFailed(id),
        ),
        _ => (WorkerState::Idle, WorkerAction::FetchPending(0)),
    }
}

/// The request that the worker is busy with, if any.
pub open spec fn busy_with(s: WorkerState) -> Option<String> {
    match s {
        WorkerState::Idle => None,
        WorkerState::Resolving(id) => Some(id),
        WorkerState::Retrieving(id) => Some(id),
        WorkerState::Checking(id) => Some(id),
        WorkerState::Proving(id) => Some(id),
    }
}

/// The request that an action finishes, if it finishes one.
pub open spec fn finishes(a: WorkerAction) -> Option<String> {
    match a {
        WorkerAction::StoreProof(id, _) => Some(id),
        WorkerAction::MarkFailed(id) => Some(id),
        _ => None,
    }
}

/// The worker finishes only the request that it is busy with, and goes idle
/// when it does; a request that it takes up (from idle) is the one that the
/// table handed it.
pub proof fn lemma_worker_finishes_its_own_request(s: WorkerState, e: WorkerEvent)
    ensures
        finishes(worker_step(s, e).1) is Some ==> busy_with(s) == finishes(worker_step(s, e).1)
            && worker_step(s, e).0 == WorkerState::Idle,
        s == WorkerState::Idle && busy_with(worker_step(s, e).0) is Some ==> e == WorkerEvent::Pending(
            busy_with(worker_step(s, e).0),
        ),
        busy_with(s) is Some && busy_with(worker_step(s, e).0) is Some ==> busy_with(
            worker_step(s, e).0,
        ) == busy_with(s),
{
}

/// After the prover returns an artifact, the worker goes idle and stores the
/// artifact, as hex text, for the request.
pub open spec fn stores_artifact(r: (WorkerState, WorkerAction), id: String, artifact: Vec<u8>) -> bool {
    &&& r.0 == WorkerState::Idle
    &&& r.1 is StoreProof
    &&& r.1->StoreProof_0 == id
    &&& r.1->StoreProof_1@ == hex_string(artifact@)
}

/// The state after an event, the stored artifact included.
pub open spec fn next_state(s: WorkerState, e: WorkerEvent) -> WorkerState {
    if s is Proving && e is Proved {
        WorkerState::Idle
    } else {
        worker_step(s, e).0
    }
}

/// The request that the action after an event finishes, if any.
pub open spec fn next_finishes(s: WorkerState, e: WorkerEvent) -> Option<String> {
    if s is Proving && e is Proved {
        Some(s->Proving_0)
    } else {
        finishes(worker_step(s, e).1)
    }
}

/// `e` is one of the outcomes of the action that the worker performs in `s`.
pub open spec fn answers(s: WorkerState, e: WorkerEvent) -> bool {
    match s {
        WorkerState::Idle => e is Pending,
        WorkerState::Resolving(_) => e is CertificateMissing || e is CertificateFound
            || e is ResolutionFailed,
        WorkerState::Retrieving(_) => e is PayloadRetrieved || e is RetrievalFailed,
        WorkerState::Checking(_) => e is ConsistencyChecked || e is ConsistencyFailed,
        WorkerState::Proving(_) => e is Proved || e is ProvingFailed,
    }
}

/// How many steps a request has left at most, not counting waits for its
/// certificate.
pub open spec fn phases_left(s: WorkerState) -> nat {
    match s {
        WorkerState::Idle => 0,
        WorkerState::Resolving(_) => 4,
        WorkerState::Retrieving(_) => 3,
        WorkerState::Checking(_) => 2,
        WorkerState::Proving(_) => 1,
    }
}

/// The number of times the certificate was not yet available.
pub open spec fn waits(events: Seq<WorkerEvent>) -> nat
    decreases events.len(),
{
    if events.len() == 0 {
        0
    } else {
        waits(events.drop_first()) + if events[0] is CertificateMissing {
            1nat
        } else {
            0nat
        }
    }
}

/// Each event answers the action of the state it meets, up to the step that
/// finishes a request.
pub open spec fn answered_run(s: WorkerState, events: Seq<WorkerEvent>) -> bool
    decreases events.len(),
{
    events.len() == 0 || (answers(s, events[0]) && (next_finishes(s, events[0]) is Some
        || answered_run(next_state(s, events[0]), events.drop_first())))
}

/// One of the actions taken on these events finishes the request `id`.
pub open spec fn finishes_within(s: WorkerState, events: Seq<WorkerEvent>, id: String) -> bool
    decreases events.len(),
{
    events.len() > 0 && (next_finishes(s, events[0]) == Some(id) || finishes_within(
        next_state(s, events[0]),
        events.drop_first(),
        id,
    ))
}

/// A request that the worker has taken up is finished, stored or marked
/// failed, once its actions have been answered as many times as it has
/// steps left plus the number of waits for its certificate: the worker never
/// drops it, and only a certificate that never comes holds it up.
pub proof fn lemma_taken_request_is_finished(s: WorkerState, events: Seq<WorkerEvent>)
    requires
        busy_with(s) is Some,
        answered_run(s, events),
        events.len() >= phases_left(s) + waits(events),
    ensures
        finishes_within(s, events, busy_with(s)->Some_0),
    decreases events.len(),
{
    let e = events[0];
    let id = busy_with(s)->Some_0;
    if next_finishes(s, e) is None {
        let s2 = next_state(s, e);
        assert(busy_with(s2) == busy_with(s));
        lemma_taken_request_is_finished(s2, events.drop_first());
    }
}

/// The next state and action of the worker.
pub fn next_step(state: WorkerState, event: WorkerEvent) -> (r: (WorkerState, WorkerAction))
    ensures
        r.0 == next_state(state, event),
        finishes(r.1) == next_finishes(state, event),
        state is Proving && event is Proved ==> stores_artifact(
            r,
            state->Proving_0,
            event->Proved_0,
        ),
        !(state is Proving && event is Proved) ==> r == worker_step(state, event),
{
    match (state, event) {
        (WorkerState::Idle, WorkerEvent::Pending(None)) => (
            WorkerState::Idle,
            WorkerAction::FetchPending(IDLE_BACKOFF_SECS),
        ),
        (WorkerState::Idle, WorkerEvent::Pending(Some(id))) => {
            let again = id.clone();
            (WorkerState::Resolving(id), WorkerAction::ResolveCertificate(again, 0))
        },
        (WorkerState::Resolving(id), WorkerEvent::CertificateMissing) => {
            let again = id.clone();
            (WorkerState::Resolving(id), WorkerAction::ResolveCertificate(again, RESOLVE_RETRY_SECS))
        },
        (WorkerState::Resolving(id), WorkerEvent::CertificateFound) => {
            let again = id.clone();
            (WorkerState::Retrieving(id), WorkerAction::RetrievePayload(again))
        },
        (WorkerState::Resolving(id), WorkerEvent::ResolutionFailed) => (
            WorkerState::Idle,
            WorkerAction::MarkFailed(id),
        ),
        (WorkerState::Retrieving(id), WorkerEvent::PayloadRetrieved) => {
            let again = id.clone();
            (WorkerState::Checking(id), WorkerAction::CheckConsistency(again))
        },
        (WorkerState::Retrieving(id), WorkerEvent::RetrievalFailed) => (
            WorkerState::Idle,
            WorkerAction::MarkFailed(id),
        ),
        (WorkerState::Checking(id), WorkerEvent::ConsistencyChecked) => {
            let again = id.clone();
            (WorkerState::Proving(id), WorkerAction::Prove(again))
        },
        (WorkerState::Checking(id), WorkerEvent::ConsistencyFailed) => (
            WorkerState::Idle,
            WorkerAction::MarkFailed(id),
        ),
        (WorkerState::Proving(id), WorkerEvent::Proved(artifact)) => (
            WorkerState::Idle,
            WorkerAction::StoreProof(id, artifact_hex(artifact.as_slice())),
        ),
        (WorkerState::Proving(id), WorkerEvent::ProvingFailed) => (
            WorkerState::Idle,
            WorkerAction::MarkFailed(id),
        ),
        _ => (WorkerState::Idle, WorkerAction::FetchPending(0)),
    }
}

} // verus!
