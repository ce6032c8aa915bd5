//! Forwarding a request upstream with a bounded number of attempts: how
//! each attempt is judged, and what follows a failed one.

use crate::json::{Json, JsonView};
use vstd::prelude::*;
use vstd::string::StringExecFns;

verus! {

/// The pause before the second attempt, in milliseconds; the pause before
/// each further attempt is one such unit longer.
pub const BASE_BACKOFF_MS: u64 = 100;

/// The classes of HTTP status that the forwarder tells apart.
#[derive(Clone, Copy, Debug, PartialEq, Eq, Structural)]
pub enum StatusClass {
    /// 500 to 599: the attempt failed and may be repeated.
    ServerError,
    /// 400 to 499: the request is refused for good.
    ClientError,
    /// Any other status: the body holds the response.
    Other,
}

/// The class of a status code.
pub open spec fn spec_classify_status(code: u16) -> StatusClass {
    if 500 <= code <= 599 {
        StatusClass::ServerError
    } else if 400 <= code <= 499 {
        StatusClass::ClientError
    } else {
        StatusClass::Other
    }
}

/// The class of a status code.
pub fn classify_status(code: u16) -> (class: StatusClass)
    ensures
        class == spec_classify_status(code),
{
    if 500 <= code && code <= 599 {
        StatusClass::ServerError
    } else if 400 <= code && code <= 499 {
        StatusClass::ClientError
    } else {
        StatusClass::Other
    }
}

/// What one attempt came to.
#[derive(Debug, PartialEq, Eq)]
pub enum AttemptOutcome {
    /// The upstream answered with this value.
    Success(Json),
    /// The attempt failed in a way that another attempt may mend.
    Retryable(String),
    /// The request failed for good.
    Terminal(String),
}

/// The mathematical value of an [`AttemptOutcome`].
pub enum OutcomeView {
    Success(JsonView),
    Retryable(Seq<char>),
    Terminal(Seq<char>),
}

impl View for AttemptOutcome {
    type V = OutcomeView;

    open spec fn view(&self) -> OutcomeView {
        match self {
            AttemptOutcome::Success(value) => OutcomeView::Success(value@),
            AttemptOutcome::Retryable(message) => OutcomeView::Retryable(message@),
            AttemptOutcome::Terminal(message) => OutcomeView::Terminal(message@),
        }
    }
}

/// What the forwarder does once the status of a response is known.
#[derive(Debug, PartialEq, Eq)]
pub enum StatusVerdict {
    /// The attempt is over, with this outcome; the body is not read.
    Settled(AttemptOutcome),
    /// The body is to be read and parsed as JSON.
    ReadBody,
}

/// The verdict on a status, given the text that the status displays as.
pub open spec fn spec_on_status(code: u16, text: Seq<char>) -> Option<OutcomeView> {
    match spec_classify_status(code) {
        StatusClass::ServerError => Some(OutcomeView::Retryable("upstream server error: "@ + text)),
        StatusClass::ClientError => Some(OutcomeView::Terminal("upstream client error: "@ + text)),
        StatusClass::Other => None,
    }
}

/// A failure of the transport (connection refused, timeout, name not
/// resolved): the attempt may be repeated.
pub fn on_transport_failure(message: String) -> (outcome: AttemptOutcome)
    ensures
        outcome@ == OutcomeView::Retryable(message@),
{
    AttemptOutcome::Retryable(message)
}

/// Judges a response by its status: a server error may be retried, a
/// client error is final, anything else sends the forwarder to the body.
pub fn on_status(code: u16, text: &str) -> (verdict: StatusVerdict)
    ensures
        match spec_on_status(code, text@) {
            Some(outcome) => verdict matches StatusVerdict::Settled(o) && o@ == outcome,
            None => verdict is ReadBody,
        },
{
    match classify_status(code) {
        StatusClass::ServerError => {
            let message = String::from_str("upstream server error: ").concat(text);
            StatusVerdict::Settled(AttemptOutcome::Retryable(message))
        },
        StatusClass::ClientError => {
            let message = String::from_str("upstream client error: ").concat(text);
            StatusVerdict::Settled(AttemptOutcome::Terminal(message))
        },
        StatusClass::Other => StatusVerdict::ReadBody,
    }
}

/// The outcome of an attempt whose body was read: the parsed value, or a
/// final failure where the body was no JSON.
pub open spec fn spec_on_body(body: Result<JsonView, Seq<char>>) -> OutcomeView {
    match body {
        Ok(value) => OutcomeView::Success(value),
        Err(message) => OutcomeView::Terminal(message),
    }
}

/// Judges the body of a response: parsed, it is the result; not parsed, the
/// request has failed for good.
pub fn on_body(body: Result<Json, String>) -> (outcome: AttemptOutcome)
    ensures
        outcome@ == spec_on_body(
            match body {
                Ok(value) => Ok(value@),
                Err(message) => Err(message@),
            },
        ),
{
    match body {
        Ok(value) => AttemptOutcome::Success(value),
        Err(message) => AttemptOutcome::Terminal(message),
    }
}

/// The pause after the failed attempt number `attempt` (counted from zero),
/// in milliseconds: linear in the attempt, and no more than fits.
pub open spec fn spec_backoff_ms(attempt: nat) -> u64 {
    if BASE_BACKOFF_MS * (attempt + 1) <= u64::MAX {
        (BASE_BACKOFF_MS * (attempt + 1)) as u64
    } else {
        u64::MAX
    }
}

/// The pause after the failed attempt number `attempt`.
pub fn backoff_ms(attempt: usize) -> (pause: u64)
    ensures
        pause == spec_backoff_ms(attempt as nat),
{
    let step: u64 = attempt as u64;
    if step <= (u64::MAX - BASE_BACKOFF_MS) / BASE_BACKOFF_MS {
        BASE_BACKOFF_MS * (step + 1)
    } else {
        u64::MAX
    }
}

/// The number of attempts that are made for a configured count: at least one.
pub open spec fn spec_budget(max_attempts: nat) -> nat {
    if max_attempts < 1 {
        1
    } else {
        max_attempts
    }
}

/// The message of a failure of which nothing was recorded.
pub open spec fn generic_failure() -> Seq<char> {
    "request failed"@
}

/// Where a forwarding call stands: the attempt that is under way, the
/// number of attempts allowed, and the last failure that may be retried.
#[derive(Debug, PartialEq, Eq)]
pub struct RetryState {
    attempt: usize,
    budget: usize,
    last_error: Option<String>,
}

/// The mathematical value of a [`RetryState`].
pub struct RetryView {
    pub attempt: nat,
    pub budget: nat,
    pub last_error: Option<Seq<char>>,
}

impl View for RetryState {
    type V = RetryView;

    closed spec fn view(&self) -> RetryView {
        RetryView {
            attempt: self.attempt as nat,
            budget: self.budget as nat,
            last_error: match self.last_error {
                Some(message) => Some(message@),
                None => None,
            },
        }
    }
}

/// What the forwarder does after an attempt.
#[derive(Debug, PartialEq, Eq)]
pub enum ForwardStep {
    /// Pause for `backoff_ms`, then make the next attempt in `state`.
    Retry { state: RetryState, backoff_ms: u64 },
    /// The call is over.
    Done(Result<Json, String>),
}

/// The mathematical value of a [`ForwardStep`].
pub enum StepView {
    Retry { state: RetryView, backoff_ms: u64 },
    Done(Result<JsonView, Seq<char>>),
}

impl View for ForwardStep {
    type V = StepView;

    open spec fn view(&self) -> StepView {
        match self {
            ForwardStep::Retry { state, backoff_ms } => StepView::Retry {
                state: state@,
                backoff_ms: *backoff_ms,
            },
            ForwardStep::Done(Ok(value)) => StepView::Done(Ok(value@)),
            ForwardStep::Done(Err(message)) => StepView::Done(Err(message@)),
        }
    }
}

/// What follows the attempt under way in `state`, once it came to `outcome`:
/// success and final failure end the call; a failure that may be retried
/// leads to a pause and the next attempt while attempts are left, and ends
/// the call with its message when none is.
pub open spec fn spec_next(state: RetryView, outcome: OutcomeView) -> StepView {
    match outcome {
        OutcomeView::Success(value) => StepView::Done(Ok(value)),
        OutcomeView::Terminal(message) => StepView::Done(Err(message)),
        OutcomeView::Retryable(message) => if state.attempt + 1 < state.budget {
            StepView::Retry {
                state: RetryView {
                    attempt: state.attempt + 1,
                    budget: state.budget,
                    last_error: Some(message),
                },
                backoff_ms: spec_backoff_ms(state.attempt),
            }
        } else {
            StepView::Done(Err(message))
        },
    }
}

impl RetryState {
    /// The state in which the first attempt is made.
    pub fn new(max_attempts: usize) -> (state: RetryState)
        ensures
            state@ == (RetryView {
                attempt: 0,
                budget: spec_budget(max_attempts as nat),
                last_error: None,
            }),
    {
        let budget: usize = if max_attempts < 1 {
            1
        } else {
            max_attempts
        };
        RetryState { attempt: 0, budget, last_error: None }
    }

    /// The number of the attempt under way, counted from zero.
    pub fn attempt(&self) -> (attempt: usize)
        ensures
            attempt == self@.attempt,
    {
        self.attempt
    }

    /// The message with which a call ends that has run out of attempts: the
    /// last failure recorded, or a generic one where none was.
    pub fn exhausted_message(self) -> (message: String)
        ensures
            message@ == match self@.last_error {
                Some(last) => last,
                None => generic_failure(),
            },
    {
        match self.last_error {
            Some(last) => last,
            None => String::from_str("request failed"),
        }
    }

    /// Decides what follows the attempt under way, which came to `outcome`.
    pub fn next(self, outcome: AttemptOutcome) -> (step: ForwardStep)
        ensures
            step@ == spec_next(self@, outcome@),
    {
        match outcome {
            AttemptOutcome::Success(value) => ForwardStep::Done(Ok(value)),
            AttemptOutcome::Terminal(message) => ForwardStep::Done(Err(message)),
            AttemptOutcome::Retryable(message) => {
                if self.budget > 0 && self.attempt < self.budget - 1 {
                    let pause = backoff_ms(self.attempt);
                    ForwardStep::Retry {
                        state: RetryState {
                            attempt: self.attempt + 1,
                            budget: self.budget,
                            last_error: Some(message),
                        },
                        backoff_ms: pause,
                    }
                } else {
                    let spent = RetryState {
                        attempt: self.attempt,
                        budget: self.budget,
                        last_error: Some(message),
                    };
                    ForwardStep::Done(Err(spent.exhausted_message()))
                }
            },
        }
    }
}

/// A forwarding call that starts in `state` and whose attempts come to
/// `outcomes`, one after the other: how it ends, if these attempts end it,
/// and the pauses that it makes on the way.
pub open spec fn spec_forward(state: RetryView, outcomes: Seq<OutcomeView>) -> (
    Option<Result<JsonView, Seq<char>>>,
    Seq<u64>,
)
    decreases outcomes.len(),
{
    if outcomes.len() == 0 {
        (None, Seq::empty())
    } else {
        match spec_next(state, outcomes[0]) {
            StepView::Done(result) => (Some(result), Seq::empty()),
            StepView::Retry { state: next, backoff_ms } => {
                let rest = spec_forward(next, outcomes.drop_first());
                (rest.0, seq![backoff_ms] + rest.1)
            },
        }
    }
}

/// The retry discipline: a call makes fewer pauses than it has attempts
/// left, so none after the last attempt, and the pause after the attempt
/// number `n` is `spec_backoff_ms(n)`.
pub proof fn lemma_forward_pauses(state: RetryView, outcomes: Seq<OutcomeView>)
    requires
        state.attempt < state.budget,
    ensures
        spec_forward(state, outcomes).1.len() < state.budget - state.attempt,
        spec_forward(state, outcomes).1.len() <= outcomes.len(),
        forall|k: int|
            0 <= k < spec_forward(state, outcomes).1.len() ==> #[trigger] spec_forward(
                state,
                outcomes,
            ).1[k] == spec_backoff_ms((state.attempt + k) as nat),
    decreases outcomes.len(),
{
    if outcomes.len() > 0 {
        match spec_next(state, outcomes[0]) {
            StepView::Done(result) => {},
            StepView::Retry { state: next, backoff_ms } => {
                lemma_forward_pauses(next, outcomes.drop_first());
                let rest = spec_forward(next, outcomes.drop_first());
                let all = spec_forward(state, outcomes).1;
                assert(all =~= seq![backoff_ms] + rest.1);
                assert forall|k: int| 0 <= k < all.len() implies #[trigger] all[k]
                    == spec_backoff_ms((state.attempt + k) as nat) by {
                    if k > 0 {
                        assert(all[k] == rest.1[k - 1]);
                    }
                }
            },
        }
    }
}

/// A call ends with the first attempt that succeeds or fails for good, if
/// the budget reaches that far: after `k` attempts that may be retried, the
/// outcome of the next one is the result, and `k` pauses were made.
pub proof fn lemma_forward_ends_at_first_final(
    state: RetryView,
    outcomes: Seq<OutcomeView>,
    k: int,
)
    requires
        0 <= k < outcomes.len(),
        state.attempt + k < state.budget,
        forall|i: int| 0 <= i < k ==> #[trigger] outcomes[i] is Retryable,
        !(outcomes[k] is Retryable),
    ensures
        spec_forward(state, outcomes).0 == Some(
            match outcomes[k] {
                OutcomeView::Success(value) => Ok::<JsonView, Seq<char>>(value),
                OutcomeView::Terminal(message) => Err(message),
                OutcomeView::Retryable(message) => Err(message),
            },
        ),
        spec_forward(state, outcomes).1.len() == k,
    decreases k,
{
    if k > 0 {
        assert(outcomes[0] is Retryable);
        let next = RetryView {
            attempt: state.attempt + 1,
            budget: state.budget,
            last_error: Some(outcomes[0]->Retryable_0),
        };
        let rest = outcomes.drop_first();
        assert forall|i: int| 0 <= i < k - 1 implies #[trigger] rest[i] is Retryable by {
            assert(rest[i] == outcomes[i + 1]);
        }
        assert(rest[k - 1] == outcomes[k]);
        lemma_forward_ends_at_first_final(next, rest, k - 1);
    }
}

/// A call whose attempts all fail in a way that may be retried ends when
/// the budget is spent, with the message of the last attempt.
pub proof fn lemma_forward_exhausts(state: RetryView, outcomes: Seq<OutcomeView>)
    requires
        state.attempt < state.budget,
        outcomes.len() == state.budget - state.attempt,
        forall|k: int| 0 <= k < outcomes.len() ==> #[trigger] outcomes[k] is Retryable,
    ensures
        spec_forward(state, outcomes).0 == Some(
            Err::<JsonView, Seq<char>>(outcomes.last()->Retryable_0),
        ),
        spec_forward(state, outcomes).1.len() == outcomes.len() - 1,
    decreases outcomes.len(),
{
    assert(outcomes[0] is Retryable);
    match spec_next(state, outcomes[0]) {
        StepView::Done(result) => {
            assert(outcomes.len() == 1);
        },
        StepView::Retry { state: next, backoff_ms } => {
            let rest = outcomes.drop_first();
            assert forall|k: int| 0 <= k < rest.len() implies #[trigger] rest[k] is Retryable by {
                assert(rest[k] == outcomes[k + 1]);
            }
            lemma_forward_exhausts(next, rest);
            assert(rest.last() == outcomes.last());
        },
    }
}

} // verus!
