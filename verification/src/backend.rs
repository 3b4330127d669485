//! The client of the signing backend and its retry policy.
//!
//! The backend is remote and may fail for a moment. `RetryPolicy::on_event`
//! says what follows each answer: hand the reply on, wait and call again, or
//! give up with an error. `SigningBackendClient` runs a request through that
//! policy over a backend function that the caller supplies; a caller that
//! must make the remote call itself, because it has to suspend while the
//! backend works, steps through `on_event` instead.
use vstd::prelude::*;
use crate::bytes::copy_bytes;
use crate::codec::DIGEST_LEN;
use crate::error::SignerError;
use crate::identity::KeyIdentity;

verus! {

/// How a backend call failed.
#[derive(Clone, Copy, Debug, PartialEq, Eq, Structural)]
pub enum BackendFailure {
    /// Network trouble or a timeout.
    Transient,
    /// Authorization refused, key not found and the like.
    Permanent,
}

/// What is asked of the backend for one identity.
#[derive(Debug)]
pub enum BackendRequest {
    /// The public key of the identity.
    PublicKey,
    /// A signature over this digest.
    Sign(Vec<u8>),
}

/// The mathematical value of a request.
pub enum RequestView {
    PublicKey,
    Sign(Seq<u8>),
}

impl View for BackendRequest {
    type V = RequestView;

    open spec fn view(&self) -> RequestView {
        match self {
            BackendRequest::PublicKey => RequestView::PublicKey,
            BackendRequest::Sign(digest) => RequestView::Sign(digest@),
        }
    }
}

/// A request is well formed unless it asks for a signature over a digest
/// that is not exactly 32 bytes long.
pub open spec fn well_formed(request: RequestView) -> bool {
    match request {
        RequestView::PublicKey => true,
        RequestView::Sign(digest) => digest.len() == DIGEST_LEN,
    }
}

/// What came back from one backend call.
#[derive(Debug)]
pub enum BackendEvent {
    Reply(Vec<u8>),
    Failed(BackendFailure),
}

/// What the caller does next.
#[derive(Debug)]
pub enum CallAction {
    /// Wait `delay_ms` milliseconds, then call the backend again.
    Retry { delay_ms: u64 },
    /// The call is over; these are the bytes that the backend returned.
    Done(Vec<u8>),
    /// The call is over and has failed.
    Fail(SignerError),
}

/// The progress of one logical backend call.
#[derive(Clone, Copy, Debug, PartialEq, Eq, Structural)]
pub struct CallState {
    /// How many times the call has been retried so far.
    pub retries: u32,
}

/// Bounded retry with exponential backoff.
#[derive(Clone, Copy, Debug, PartialEq, Eq, Structural)]
pub struct RetryPolicy {
    /// How many retries one call may use.
    pub max_retries: u32,
    /// The delay before the first retry.
    pub base_delay_ms: u64,
    /// No delay is longer than this.
    pub max_delay_ms: u64,
}

/// `base` doubled `times` times.
pub open spec fn doubled(base: nat, times: nat) -> nat
    decreases times,
{
    if times == 0 {
        base
    } else {
        2 * doubled(base, (times - 1) as nat)
    }
}

/// The delay before retry number `retry` (counted from 0): the base delay
/// doubled `retry` times, capped at the maximum delay.
pub open spec fn backoff(policy: RetryPolicy, retry: nat) -> nat {
    if doubled(policy.base_delay_ms as nat, retry) < policy.max_delay_ms {
        doubled(policy.base_delay_ms as nat, retry)
    } else {
        policy.max_delay_ms as nat
    }
}

/// Doubling more often never gives less.
pub proof fn lemma_doubled_grows(base: nat, fewer: nat, more: nat)
    requires
        fewer <= more,
    ensures
        doubled(base, fewer) <= doubled(base, more),
    decreases more,
{
    if fewer < more {
        lemma_doubled_grows(base, fewer, (more - 1) as nat);
    }
}

/// The mathematical value of an event.
pub enum EventView {
    Reply(Seq<u8>),
    Failed(BackendFailure),
}

/// The mathematical value of an action.
pub enum ActionView {
    Retry { delay_ms: nat },
    Done(Seq<u8>),
    Fail(SignerError),
}

impl View for BackendEvent {
    type V = EventView;

    open spec fn view(&self) -> EventView {
        match self {
            BackendEvent::Reply(bytes) => EventView::Reply(bytes@),
            BackendEvent::Failed(kind) => EventView::Failed(*kind),
        }
    }
}

impl View for CallAction {
    type V = ActionView;

    open spec fn view(&self) -> ActionView {
        match self {
            CallAction::Retry { delay_ms } => ActionView::Retry { delay_ms: *delay_ms as nat },
            CallAction::Done(bytes) => ActionView::Done(bytes@),
            CallAction::Fail(e) => ActionView::Fail(*e),
        }
    }
}

/// The failure kind as the signer reports it.
pub open spec fn error_of(kind: BackendFailure) -> SignerError {
    match kind {
        BackendFailure::Transient => SignerError::TransientBackend,
        BackendFailure::Permanent => SignerError::PermanentBackend,
    }
}

/// One step of a call: the state and the action that follow an event.
/// A reply ends the call. A permanent failure ends it at once. A transient
/// failure is retried while the budget lasts, each time after a longer
/// delay, and ends the call once the budget is spent.
pub open spec fn step(policy: RetryPolicy, retries: nat, event: EventView) -> (nat, ActionView) {
    match event {
        EventView::Reply(bytes) => (retries, ActionView::Done(bytes)),
        EventView::Failed(BackendFailure::Permanent) => (
            retries,
            ActionView::Fail(SignerError::PermanentBackend),
        ),
        EventView::Failed(BackendFailure::Transient) => if retries < policy.max_retries {
            (retries + 1, ActionView::Retry { delay_ms: backoff(policy, retries) })
        } else {
            (retries, ActionView::Fail(SignerError::TransientBackend))
        },
    }
}

/// How a call ends when the backend answers with `events` in turn, started
/// with `retries` retries already made: the final action and the number of
/// retries made by then. `None` while the events leave the call unfinished.
pub open spec fn run(policy: RetryPolicy, retries: nat, events: Seq<EventView>) -> Option<
    (ActionView, nat),
>
    decreases events.len(),
{
    if events.len() == 0 {
        None
    } else {
        let (next, action) = step(policy, retries, events[0]);
        match action {
            ActionView::Retry { .. } => run(policy, next, events.subrange(1, events.len() as int)),
            _ => Some((action, next)),
        }
    }
}

/// `count` transient failures in a row.
pub open spec fn transient_failures(count: nat) -> Seq<EventView> {
    Seq::new(count, |i: int| EventView::Failed(BackendFailure::Transient))
}

impl BackendFailure {
    pub fn to_error(&self) -> (e: SignerError)
        ensures
            e == error_of(*self),
    {
        match self {
            BackendFailure::Transient => SignerError::TransientBackend,
            BackendFailure::Permanent => SignerError::PermanentBackend,
        }
    }
}

impl RetryPolicy {
    pub fn new(max_retries: u32, base_delay_ms: u64, max_delay_ms: u64) -> (policy: RetryPolicy)
        ensures
            policy == (RetryPolicy { max_retries, base_delay_ms, max_delay_ms }),
    {
        RetryPolicy { max_retries, base_delay_ms, max_delay_ms }
    }

    /// The delay in milliseconds before retry number `retry`.
    pub fn backoff_delay(&self, retry: u32) -> (delay: u64)
        ensures
            delay == backoff(*self, retry as nat),
    {
        if self.base_delay_ms >= self.max_delay_ms {
            proof {
                lemma_doubled_grows(self.base_delay_ms as nat, 0, retry as nat);
            }
            return self.max_delay_ms;
        }
        let mut delay: u64 = self.base_delay_ms;
        let mut done: u32 = 0;
        while done < retry && delay < self.max_delay_ms
            invariant
                done <= retry,
                delay <= self.max_delay_ms,
                delay < self.max_delay_ms ==> delay == doubled(self.base_delay_ms as nat, done as nat),
                delay == self.max_delay_ms ==> doubled(self.base_delay_ms as nat, done as nat)
                    >= self.max_delay_ms,
            decreases retry - done,
        {
            if delay >= self.max_delay_ms - delay {
                delay = self.max_delay_ms;
            } else {
                delay = 2 * delay;
            }
            done += 1;
        }
        proof {
            lemma_doubled_grows(self.base_delay_ms as nat, done as nat, retry as nat);
        }
        delay
    }

    /// What to do after `event`, and the state of the call from then on.
    pub fn on_event(&self, state: CallState, event: BackendEvent) -> (next: (CallState, CallAction))
        ensures
            (next.0.retries as nat, next.1@) == step(*self, state.retries as nat, event@),
            event matches BackendEvent::Reply(bytes) ==> next.1 == CallAction::Done(bytes),
    {
        match event {
            BackendEvent::Reply(bytes) => (state, CallAction::Done(bytes)),
            BackendEvent::Failed(BackendFailure::Permanent) => (
                state,
                CallAction::Fail(SignerError::PermanentBackend),
            ),
            BackendEvent::Failed(BackendFailure::Transient) => {
                if state.retries < self.max_retries {
                    let delay_ms = self.backoff_delay(state.retries);
                    (CallState { retries: state.retries + 1 }, CallAction::Retry { delay_ms })
                } else {
                    (state, CallAction::Fail(SignerError::TransientBackend))
                }
            },
        }
    }
}

/// The events as mathematical values, in order.
pub open spec fn events_view(events: Seq<BackendEvent>) -> Seq<EventView> {
    Seq::new(events.len(), |i: int| events[i]@)
}

/// The view of how a recorded call ended.
pub open spec fn ending_view(ending: Option<(CallAction, u32)>) -> Option<(ActionView, nat)> {
    match ending {
        Some((action, retries)) => Some((action@, retries as nat)),
        None => None,
    }
}

impl RetryPolicy {
    /// Runs a recorded sequence of backend answers through the policy: the
    /// action that ends the call and the number of retries made, or `None`
    /// where the record stops before the call has ended. Answers recorded
    /// after the end of the call are not read.
    pub fn replay(&self, events: &Vec<BackendEvent>) -> (ending: Option<(CallAction, u32)>)
        ensures
            ending_view(ending) == run(*self, 0, events_view(events@)),
    {
        let ghost all = events_view(events@);
        let mut state = CallState::new();
        let mut i: usize = 0;
        assert(all.subrange(0, all.len() as int) =~= all);
        while i < events.len()
            invariant
                i <= events.len(),
                all == events_view(events@),
                run(*self, 0, all) == run(
                    *self,
                    state.retries as nat,
                    all.subrange(i as int, all.len() as int),
                ),
            decreases events.len() - i,
        {
            let event = match &events[i] {
                BackendEvent::Reply(bytes) => BackendEvent::Reply(copy_bytes(bytes)),
                BackendEvent::Failed(kind) => BackendEvent::Failed(*kind),
            };
            let ghost rest = all.subrange(i as int, all.len() as int);
            assert(rest[0] == event@);
            assert(rest.subrange(1, rest.len() as int) =~= all.subrange(
                i as int + 1,
                all.len() as int,
            ));
            let (next, action) = self.on_event(state, event);
            match action {
                CallAction::Retry { .. } => {
                    state = next;
                    i += 1;
                },
                _ => {
                    return Some((action, next.retries));
                },
            }
        }
        assert(all.subrange(i as int, all.len() as int).len() == 0);
        None
    }
}

impl CallState {
    /// A call that has not been retried yet.
    pub fn new() -> (state: CallState)
        ensures
            state.retries == 0,
    {
        CallState { retries: 0 }
    }
}

/// Opens a request for a public key. Nothing about it can be malformed.
pub fn start_public_key() -> (state: CallState)
    ensures
        state.retries == 0,
{
    CallState::new()
}

/// Opens a request for a signature over `digest`. A digest that is not
/// exactly 32 bytes long is refused at once: no call state is made, so no
/// backend call follows.
pub fn start_sign(digest: &Vec<u8>) -> (out: Result<CallState, SignerError>)
    ensures
        digest@.len() == DIGEST_LEN ==> out == Ok::<CallState, SignerError>(
            CallState { retries: 0 },
        ),
        digest@.len() != DIGEST_LEN ==> out == Err::<CallState, SignerError>(
            SignerError::InvalidInput,
        ),
{
    if digest.len() == DIGEST_LEN {
        Ok(CallState::new())
    } else {
        Err(SignerError::InvalidInput)
    }
}

/// The delay that precedes attempt number `attempt` of a call (counted
/// from 0): none before the first, then the backoff of each retry.
pub open spec fn delay_before(policy: RetryPolicy, attempt: nat) -> nat {
    if attempt == 0 {
        0
    } else {
        backoff(policy, (attempt - 1) as nat)
    }
}

/// Whether `event` is an answer that `backend` may give at attempt number
/// `attempt`, that is, when called after the delay that precedes it.
pub open spec fn answered<B: Fn(&KeyIdentity, &BackendRequest, u64) -> BackendEvent>(
    backend: B,
    identity: &KeyIdentity,
    request: &BackendRequest,
    policy: RetryPolicy,
    attempt: nat,
    event: BackendEvent,
) -> bool {
    backend.ensures((identity, request, delay_before(policy, attempt) as u64), event)
}

/// Whether each of the first `attempts` attempts met a transient failure.
pub open spec fn failed_transiently<B: Fn(&KeyIdentity, &BackendRequest, u64) -> BackendEvent>(
    backend: B,
    identity: &KeyIdentity,
    request: &BackendRequest,
    policy: RetryPolicy,
    attempts: nat,
) -> bool {
    forall|i: nat|
        i < attempts ==> #[trigger] answered(
            backend,
            identity,
            request,
            policy,
            i,
            BackendEvent::Failed(BackendFailure::Transient),
        )
}

/// How a call ends after `retries` retries: every attempt before the last
/// met a transient failure, and the last attempt decided. A reply is the
/// result. A permanent failure is the error. A transient failure is the
/// error only when it met the retry budget spent.
pub open spec fn ended_after<B: Fn(&KeyIdentity, &BackendRequest, u64) -> BackendEvent>(
    backend: B,
    identity: &KeyIdentity,
    request: &BackendRequest,
    policy: RetryPolicy,
    retries: nat,
    out: Result<Vec<u8>, SignerError>,
) -> bool {
    &&& retries <= policy.max_retries
    &&& failed_transiently(backend, identity, request, policy, retries)
    &&& match out {
        Ok(raw) => answered(backend, identity, request, policy, retries, BackendEvent::Reply(raw)),
        Err(e) => {
            ||| e == SignerError::PermanentBackend && answered(
                backend,
                identity,
                request,
                policy,
                retries,
                BackendEvent::Failed(BackendFailure::Permanent),
            )
            ||| e == SignerError::TransientBackend && retries == policy.max_retries && answered(
                backend,
                identity,
                request,
                policy,
                retries,
                BackendEvent::Failed(BackendFailure::Transient),
            )
        },
    }
}

/// What a call may end with: the outcome after some number of retries
/// within the budget.
pub open spec fn call_outcome<B: Fn(&KeyIdentity, &BackendRequest, u64) -> BackendEvent>(
    backend: B,
    identity: &KeyIdentity,
    request: &BackendRequest,
    policy: RetryPolicy,
    out: Result<Vec<u8>, SignerError>,
) -> bool {
    exists|retries: nat| #[trigger] ended_after(backend, identity, request, policy, retries, out)
}

/// The client of the signing backend. It owns the retry policy; the remote
/// call itself is the `backend` that each method is handed: a function that
/// waits the given number of milliseconds, makes one call for the identity
/// and the request, and reports what came back.
#[derive(Clone, Copy, Debug, PartialEq, Eq, Structural)]
pub struct SigningBackendClient {
    pub policy: RetryPolicy,
}

impl SigningBackendClient {
    pub fn new(policy: RetryPolicy) -> (client: SigningBackendClient)
        ensures
            client.policy == policy,
    {
        SigningBackendClient { policy }
    }

    /// Carries one request through: calls the backend, and again after each
    /// transient failure while the retry budget lasts. A request that is not
    /// well formed fails with `InvalidInput` and the backend is not called:
    /// for such a request nothing is asked of `backend`.
    pub fn perform<B: Fn(&KeyIdentity, &BackendRequest, u64) -> BackendEvent>(
        &self,
        identity: &KeyIdentity,
        request: &BackendRequest,
        backend: &B,
    ) -> (out: Result<Vec<u8>, SignerError>)
        requires
            well_formed(request@) ==> forall|delay_ms: u64|
                backend.requires((identity, request, delay_ms)),
        ensures
            !well_formed(request@) ==> out == Err::<Vec<u8>, SignerError>(SignerError::InvalidInput),
            well_formed(request@) ==> call_outcome(*backend, identity, request, self.policy, out),
    {
        let mut state: CallState = match request {
            BackendRequest::PublicKey => start_public_key(),
            BackendRequest::Sign(digest) => match start_sign(digest) {
                Ok(state) => state,
                Err(e) => {
                    return Err(e);
                },
            },
        };
        let mut delay_ms: u64 = 0;
        let mut outcome: Option<Result<Vec<u8>, SignerError>> = None;
        while outcome.is_none()
            invariant
                state.retries <= self.policy.max_retries,
                delay_ms == delay_before(self.policy, state.retries as nat),
                forall|d: u64| backend.requires((identity, request, d)),
                failed_transiently(*backend, identity, request, self.policy, state.retries as nat),
                outcome matches Some(out) ==> ended_after(
                    *backend,
                    identity,
                    request,
                    self.policy,
                    state.retries as nat,
                    out,
                ),
            decreases
                    (if outcome is None {
                        1int
                    } else {
                        0int
                    }),
                    self.policy.max_retries - state.retries,
        {
            let event = backend(identity, request, delay_ms);
            let ghost seen = event;
            assert(answered(*backend, identity, request, self.policy, state.retries as nat, seen));
            let (next, action) = self.policy.on_event(state, event);
            match action {
                CallAction::Done(raw) => {
                    assert(seen == BackendEvent::Reply(raw));
                    outcome = Some(Ok(raw));
                },
                CallAction::Fail(e) => {
                    assert(seen is Failed);
                    assert(seen == BackendEvent::Failed(seen->Failed_0));
                    outcome = Some(Err(e));
                },
                CallAction::Retry { delay_ms: wait } => {
                    assert(seen == BackendEvent::Failed(BackendFailure::Transient));
                    assert forall|i: nat| i < next.retries implies #[trigger] answered(
                        *backend,
                        identity,
                        request,
                        self.policy,
                        i,
                        BackendEvent::Failed(BackendFailure::Transient),
                    ) by {
                        if i < state.retries {
                        } else {
                            assert(i == state.retries);
                        }
                    }
                    state = next;
                    delay_ms = wait;
                },
            }
        }
        match outcome {
            Some(out) => out,
            None => Err(SignerError::TransientBackend),
        }
    }

    /// The public key of `identity`, as the backend gives it. Nothing is
    /// cached here.
    pub fn get_public_key<B: Fn(&KeyIdentity, &BackendRequest, u64) -> BackendEvent>(
        &self,
        identity: &KeyIdentity,
        backend: &B,
    ) -> (out: Result<Vec<u8>, SignerError>)
        requires
            may_fetch(*backend, identity),
        ensures
            call_outcome(*backend, identity, &BackendRequest::PublicKey, self.policy, out),
    {
        self.perform(identity, &BackendRequest::PublicKey, backend)
    }

    /// A signature of the key of `identity` over `digest`. A digest that is
    /// not exactly 32 bytes long fails with `InvalidInput` and the backend
    /// is not called: for such a digest nothing is asked of `backend`, so no
    /// call of it could be justified.
    pub fn sign<B: Fn(&KeyIdentity, &BackendRequest, u64) -> BackendEvent>(
        &self,
        identity: &KeyIdentity,
        digest: &Vec<u8>,
        backend: &B,
    ) -> (out: Result<Vec<u8>, SignerError>)
        requires
            digest@.len() == DIGEST_LEN ==> may_sign(*backend, identity, digest@),
        ensures
            digest@.len() != DIGEST_LEN ==> out == Err::<Vec<u8>, SignerError>(
                SignerError::InvalidInput,
            ),
            digest@.len() == DIGEST_LEN ==> signed_by(
                *backend,
                identity,
                self.policy,
                digest@,
                out,
            ),
    {
        if digest.len() != DIGEST_LEN {
            return Err(SignerError::InvalidInput);
        }
        let request = BackendRequest::Sign(copy_bytes(digest));
        let out = self.perform(identity, &request, backend);
        assert(request@ == RequestView::Sign(digest@) && call_outcome(
            *backend,
            identity,
            &request,
            self.policy,
            out,
        ));
        out
    }
}

/// Whether `backend` may be asked for a signature over `digest`.
pub open spec fn may_sign<B: Fn(&KeyIdentity, &BackendRequest, u64) -> BackendEvent>(
    backend: B,
    identity: &KeyIdentity,
    digest: Seq<u8>,
) -> bool {
    forall|request: BackendRequest, delay_ms: u64|
        request@ == RequestView::Sign(digest) ==> #[trigger] backend.requires(
            (identity, &request, delay_ms),
        )
}

/// Whether `backend` may be asked for the public key of `identity`.
pub open spec fn may_fetch<B: Fn(&KeyIdentity, &BackendRequest, u64) -> BackendEvent>(
    backend: B,
    identity: &KeyIdentity,
) -> bool {
    forall|delay_ms: u64| #[trigger]
        backend.requires((identity, &BackendRequest::PublicKey, delay_ms))
}

/// What a signing call over `digest` may end with: the outcome of a request
/// for a signature over exactly those bytes.
pub open spec fn signed_by<B: Fn(&KeyIdentity, &BackendRequest, u64) -> BackendEvent>(
    backend: B,
    identity: &KeyIdentity,
    policy: RetryPolicy,
    digest: Seq<u8>,
    out: Result<Vec<u8>, SignerError>,
) -> bool {
    exists|request: BackendRequest|
        request@ == RequestView::Sign(digest) && #[trigger] call_outcome(
            backend,
            identity,
            &request,
            policy,
            out,
        )
}

/// A call that meets `failures` transient failures and then a reply ends
/// with that reply after exactly `failures` retries, as long as the retry
/// budget covers them.
pub proof fn lemma_reply_after_transient_failures(
    policy: RetryPolicy,
    start: nat,
    failures: nat,
    reply: Seq<u8>,
)
    requires
        start + failures <= policy.max_retries,
    ensures
        run(policy, start, transient_failures(failures).push(EventView::Reply(reply))) == Some(
            (ActionView::Done(reply), start + failures),
        ),
    decreases failures,
{
    let events = transient_failures(failures).push(EventView::Reply(reply));
    if failures == 0 {
        assert(events[0] == EventView::Reply(reply));
    } else {
        let rest = transient_failures((failures - 1) as nat).push(EventView::Reply(reply));
        assert(events[0] == EventView::Failed(BackendFailure::Transient));
        assert(events.subrange(1, events.len() as int) =~= rest);
        lemma_reply_after_transient_failures(policy, start + 1, (failures - 1) as nat, reply);
    }
}

/// A call that meets only transient failures gives up at the failure that
/// finds the budget spent, having retried exactly as often as the budget
/// allows.
pub proof fn lemma_budget_exhausted(policy: RetryPolicy, start: nat)
    requires
        start <= policy.max_retries,
    ensures
        run(policy, start, transient_failures((policy.max_retries - start + 1) as nat)) == Some(
            (ActionView::Fail(SignerError::TransientBackend), policy.max_retries as nat),
        ),
    decreases policy.max_retries - start,
{
    let count = (policy.max_retries - start + 1) as nat;
    let events = transient_failures(count);
    assert(events[0] == EventView::Failed(BackendFailure::Transient));
    if start < policy.max_retries {
        assert(events.subrange(1, events.len() as int) =~= transient_failures((count - 1) as nat));
        lemma_budget_exhausted(policy, start + 1);
    }
}

/// A permanent failure ends a call at once, whatever the budget.
pub proof fn lemma_permanent_failure_is_final(policy: RetryPolicy, retries: nat, rest: Seq<EventView>)
    ensures
        run(
            policy,
            retries,
            seq![EventView::Failed(BackendFailure::Permanent)] + rest,
        ) == Some((ActionView::Fail(SignerError::PermanentBackend), retries)),
{
    let events = seq![EventView::Failed(BackendFailure::Permanent)] + rest;
    assert(events[0] == EventView::Failed(BackendFailure::Permanent));
}

} // verus!
