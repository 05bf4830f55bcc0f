use vstd::prelude::*;

use crate::text::{decimal, decimal_of};

verus! {

/// The retry budget of a client: how many times a failed attempt is repeated,
/// and how long to wait between two attempts.
#[derive(Clone, Copy, Debug, PartialEq, Eq, Structural)]
pub struct RetryPolicy {
    pub max_retries: u16,
    pub retry_delay_ms: u64,
}

impl RetryPolicy {
    /// Total number of attempts that the policy allows.
    pub open spec fn total_attempts(self) -> nat {
        self.max_retries as nat + 1
    }
}

/// The terminal error of an operation.
#[derive(Debug)]
pub enum ExecutionError {
    /// The request never got a response (connection, timeout, name resolution).
    Transport { reason: String },
    /// The server answered with a status outside 200..=299.
    HttpStatus { status: u16, body: String },
    /// The server answered with success, but the body does not have the expected shape.
    Decode { reason: String, body: String },
    /// The request could not be duplicated for another attempt.
    Replay,
}

/// What one attempt came to.
#[derive(Debug)]
pub enum AttemptOutcome<T> {
    /// The request could not be duplicated for this attempt.
    NotReplayable,
    TransportFailure { reason: String },
    HttpFailure { status: u16, body: String },
    DecodeFailure { reason: String, body: String },
    Success(T),
}

/// What the executor asks its driver to do after an attempt.
#[derive(Debug)]
pub enum Step<T> {
    /// Wait this many milliseconds, then make the next attempt.
    Retry { delay_ms: u64 },
    /// Stop: the operation is over with this result.
    Finish(Result<T, ExecutionError>),
}

/// Whether `needle` occurs in `hay` as a contiguous piece.
pub open spec fn contains_piece(hay: Seq<char>, needle: Seq<char>) -> bool {
    exists|i: int|
        0 <= i <= hay.len() - needle.len() && #[trigger] hay.subrange(i, i + needle.len()) == needle
}

/// The text that describes an error to a person.
pub open spec fn message_of(e: ExecutionError) -> Seq<char> {
    match e {
        ExecutionError::Transport { reason } => "Network error: "@ + reason@,
        ExecutionError::HttpStatus { status, body } => "Request failed with status: "@ + decimal_of(
            status as nat,
        ) + " (body: "@ + body@ + ")"@,
        ExecutionError::Decode { reason, body } => "Failed to parse response: "@ + reason@
            + " (body: "@ + body@ + ")"@,
        ExecutionError::Replay => "Failed to clone request"@,
    }
}

impl ExecutionError {
    /// Describes the error, with the raw reason, status and body that it carries.
    pub fn message(&self) -> (r: String)
        ensures
            r@ == message_of(*self),
    {
        match self {
            ExecutionError::Transport { reason } => {
                let mut s = String::from_str("Network error: ");
                s.append(reason.as_str());
                s
            },
            ExecutionError::HttpStatus { status, body } => {
                let mut s = String::from_str("Request failed with status: ");
                let digits = decimal(*status as u64);
                s.append(digits.as_str());
                s.append(" (body: ");
                s.append(body.as_str());
                s.append(")");
                s
            },
            ExecutionError::Decode { reason, body } => {
                let mut s = String::from_str("Failed to parse response: ");
                s.append(reason.as_str());
                s.append(" (body: ");
                s.append(body.as_str());
                s.append(")");
                s
            },
            ExecutionError::Replay => String::from_str("Failed to clone request"),
        }
    }
}

/// The message of an error status names the numeric status code and repeats the
/// response body word for word.
pub proof fn lemma_status_message_names_code_and_body(status: u16, body: String)
    ensures
        contains_piece(
            message_of(ExecutionError::HttpStatus { status, body }),
            decimal_of(status as nat),
        ),
        contains_piece(message_of(ExecutionError::HttpStatus { status, body }), body@),
{
    reveal_strlit("Request failed with status: ");
    reveal_strlit(" (body: ");
    let head = "Request failed with status: "@;
    let m = message_of(ExecutionError::HttpStatus { status, body });
    let d = decimal_of(status as nat);
    let i = head.len() as int;
    assert(m.subrange(i, i + d.len()) =~= d);
    let j = (head.len() + d.len() + " (body: "@.len()) as int;
    assert(m.subrange(j, j + body@.len()) =~= body@);
}

/// Whether an HTTP status code means success.
pub open spec fn is_success_status(status: u16) -> bool {
    200 <= status <= 299
}

pub fn status_is_success(status: u16) -> (r: bool)
    ensures
        r == is_success_status(status),
{
    200 <= status && status <= 299
}

/// Whether an outcome is a failure that another attempt may cure.
pub open spec fn is_retryable<T>(outcome: AttemptOutcome<T>) -> bool {
    outcome is TransportFailure || outcome is HttpFailure || outcome is DecodeFailure
}

/// The error that a failed outcome stands for.
pub open spec fn error_of<T>(outcome: AttemptOutcome<T>) -> ExecutionError {
    match outcome {
        AttemptOutcome::TransportFailure { reason } => ExecutionError::Transport { reason },
        AttemptOutcome::HttpFailure { status, body } => ExecutionError::HttpStatus { status, body },
        AttemptOutcome::DecodeFailure { reason, body } => ExecutionError::Decode { reason, body },
        _ => ExecutionError::Replay,
    }
}

/// The decision taken once `made` attempts (this one included) have been made
/// under `policy`, the last of which came to `outcome`.
pub open spec fn decide<T>(policy: RetryPolicy, made: nat, outcome: AttemptOutcome<T>) -> Step<T> {
    match outcome {
        AttemptOutcome::Success(v) => Step::Finish(Ok(v)),
        AttemptOutcome::NotReplayable => Step::Finish(Err(ExecutionError::Replay)),
        _ => if made < policy.total_attempts() {
            Step::Retry { delay_ms: policy.retry_delay_ms }
        } else {
            Step::Finish(Err(error_of(outcome)))
        },
    }
}

/// Feeds `outcomes` in turn to an executor that has made `made` attempts, until it
/// finishes or the outcomes run out; gives the number of attempts made and the
/// result, if it finished.
pub open spec fn run_from<T>(policy: RetryPolicy, made: nat, outcomes: Seq<AttemptOutcome<T>>) -> (
    nat,
    Option<Result<T, ExecutionError>>,
)
    decreases outcomes.len(),
{
    if outcomes.len() == 0 {
        (made, None)
    } else {
        match decide(policy, made + 1, outcomes[0]) {
            Step::Finish(r) => (made + 1, Some(r)),
            Step::Retry { .. } => run_from(policy, made + 1, outcomes.drop_first()),
        }
    }
}

/// A whole operation: attempts and result of a fresh executor fed with `outcomes`.
pub open spec fn run<T>(policy: RetryPolicy, outcomes: Seq<AttemptOutcome<T>>) -> (
    nat,
    Option<Result<T, ExecutionError>>,
) {
    run_from(policy, 0, outcomes)
}

/// Classifies a response: a status outside 200..=299 is an HTTP failure whatever
/// the body; otherwise the decoded value, or the reason why decoding failed.
pub open spec fn classify<T>(status: u16, body: String, decoded: Result<T, String>) -> AttemptOutcome<T> {
    if !is_success_status(status) {
        AttemptOutcome::HttpFailure { status, body }
    } else {
        match decoded {
            Ok(v) => AttemptOutcome::Success(v),
            Err(reason) => AttemptOutcome::DecodeFailure { reason, body },
        }
    }
}

pub fn classify_response<T>(status: u16, body: String, decoded: Result<T, String>) -> (r: AttemptOutcome<T>)
    ensures
        r == classify(status, body, decoded),
{
    if !status_is_success(status) {
        AttemptOutcome::HttpFailure { status, body }
    } else {
        match decoded {
            Ok(v) => AttemptOutcome::Success(v),
            Err(reason) => AttemptOutcome::DecodeFailure { reason, body },
        }
    }
}

/// The retry executor of one operation: it counts the attempts made under a
/// policy and decides, after each, whether to stop or to try again.
#[derive(Debug)]
pub struct RetryExecutor {
    pub policy: RetryPolicy,
    pub attempts: u32,
}

impl RetryExecutor {
    /// The attempts made stay within the policy's budget.
    pub open spec fn wf(&self) -> bool {
        self.attempts as nat <= self.policy.total_attempts()
    }

    /// Whether the policy still allows an attempt.
    pub open spec fn can_attempt(&self) -> bool {
        (self.attempts as nat) < self.policy.total_attempts()
    }

    pub fn new(policy: RetryPolicy) -> (r: Self)
        ensures
            r.policy == policy,
            r.attempts == 0,
            r.wf(),
            r.can_attempt(),
    {
        RetryExecutor { policy, attempts: 0 }
    }

    /// Records the outcome of the attempt that was just made and says what to do next.
    pub fn record<T>(&mut self, outcome: AttemptOutcome<T>) -> (r: Step<T>)
        requires
            old(self).can_attempt(),
        ensures
            final(self).policy == old(self).policy,
            final(self).attempts == old(self).attempts + 1,
            final(self).wf(),
            r == decide(old(self).policy, final(self).attempts as nat, outcome),
            (r is Retry) ==> final(self).can_attempt(),
    {
        self.attempts = self.attempts + 1;
        match outcome {
            AttemptOutcome::Success(v) => Step::Finish(Ok(v)),
            AttemptOutcome::NotReplayable => Step::Finish(Err(ExecutionError::Replay)),
            AttemptOutcome::TransportFailure { reason } => self.after_failure(
                ExecutionError::Transport { reason },
            ),
            AttemptOutcome::HttpFailure { status, body } => self.after_failure(
                ExecutionError::HttpStatus { status, body },
            ),
            AttemptOutcome::DecodeFailure { reason, body } => self.after_failure(
                ExecutionError::Decode { reason, body },
            ),
        }
    }

    fn after_failure<T>(&self, error: ExecutionError) -> (r: Step<T>)
        requires
            self.wf(),
        ensures
            r == (if (self.attempts as nat) < self.policy.total_attempts() {
                Step::<T>::Retry { delay_ms: self.policy.retry_delay_ms }
            } else {
                Step::<T>::Finish(Err(error))
            }),
    {
        if self.attempts < self.policy.max_retries as u32 + 1 {
            Step::Retry { delay_ms: self.policy.retry_delay_ms }
        } else {
            Step::Finish(Err(error))
        }
    }
}

proof fn lemma_run_from_failing<T>(policy: RetryPolicy, made: nat, outcomes: Seq<AttemptOutcome<T>>)
    requires
        made < policy.total_attempts(),
        outcomes.len() >= policy.total_attempts() - made,
        forall|i: int| 0 <= i < outcomes.len() ==> is_retryable(#[trigger] outcomes[i]),
    ensures
        run_from(policy, made, outcomes) == (
            policy.total_attempts(),
            Some(Err::<T, ExecutionError>(error_of(outcomes[policy.total_attempts() - made - 1]))),
        ),
    decreases outcomes.len(),
{
    assert(is_retryable(outcomes[0]));
    if made + 1 < policy.total_attempts() {
        let rest = outcomes.drop_first();
        assert forall|i: int| 0 <= i < rest.len() implies is_retryable(#[trigger] rest[i]) by {
            assert(rest[i] == outcomes[i + 1]);
        }
        lemma_run_from_failing(policy, made + 1, rest);
        assert(rest[policy.total_attempts() - (made + 1) - 1] == outcomes[policy.total_attempts()
            - made - 1]);
    }
}

/// An endpoint that fails every attempt (no response, an error status, or an
/// undecodable body) is tried exactly `max_retries + 1` times, and the operation
/// then fails with the error of the last attempt.
pub proof fn lemma_always_failing_uses_whole_budget<T>(
    policy: RetryPolicy,
    outcomes: Seq<AttemptOutcome<T>>,
)
    requires
        outcomes.len() >= policy.total_attempts(),
        forall|i: int| 0 <= i < outcomes.len() ==> is_retryable(#[trigger] outcomes[i]),
    ensures
        run(policy, outcomes) == (
            policy.total_attempts(),
            Some(Err::<T, ExecutionError>(error_of(outcomes[policy.max_retries as int]))),
        ),
{
    lemma_run_from_failing(policy, 0, outcomes);
}

proof fn lemma_run_from_success<T>(
    policy: RetryPolicy,
    made: nat,
    outcomes: Seq<AttemptOutcome<T>>,
    k: int,
)
    requires
        0 <= k < outcomes.len(),
        made + k < policy.total_attempts(),
        forall|i: int| 0 <= i < k ==> is_retryable(#[trigger] outcomes[i]),
        outcomes[k] is Success,
    ensures
        run_from(policy, made, outcomes) == (
            (made + k + 1) as nat,
            Some(Ok::<T, ExecutionError>(outcomes[k]->Success_0)),
        ),
    decreases outcomes.len(),
{
    if k > 0 {
        assert(is_retryable(outcomes[0]));
        let rest = outcomes.drop_first();
        assert forall|i: int| 0 <= i < k - 1 implies is_retryable(#[trigger] rest[i]) by {
            assert(rest[i] == outcomes[i + 1]);
        }
        assert(rest[k - 1] == outcomes[k]);
        lemma_run_from_success(policy, made + 1, rest, k - 1);
    }
}

/// When the first `k` attempts fail and attempt `k` succeeds within the budget,
/// the operation returns the value decoded by attempt `k` after exactly `k + 1`
/// attempts.
pub proof fn lemma_first_success_is_returned<T>(
    policy: RetryPolicy,
    outcomes: Seq<AttemptOutcome<T>>,
    k: int,
)
    requires
        0 <= k < outcomes.len(),
        k < policy.total_attempts(),
        forall|i: int| 0 <= i < k ==> is_retryable(#[trigger] outcomes[i]),
        outcomes[k] is Success,
    ensures
        run(policy, outcomes) == ((k + 1) as nat, Some(Ok::<T, ExecutionError>(outcomes[k]->Success_0))),
{
    lemma_run_from_success(policy, 0, outcomes, k);
}

/// A success status whose body cannot be decoded is a retryable failure, and the
/// executor takes the same decision on it as on an error status: it counts
/// towards the budget and retries after the same delay, or ends the operation
/// with an error.
pub proof fn lemma_decode_failure_is_like_status_failure<T>(
    policy: RetryPolicy,
    made: nat,
    status: u16,
    body: String,
    reason: String,
    bad_status: u16,
    bad_body: String,
    bad_decoded: Result<T, String>,
)
    requires
        is_success_status(status),
        !is_success_status(bad_status),
    ensures
        is_retryable(classify(status, body, Err::<T, String>(reason))),
        is_retryable(classify(bad_status, bad_body, bad_decoded)),
        decide(policy, made, classify(status, body, Err::<T, String>(reason))) is Retry <==> decide(
            policy,
            made,
            classify(bad_status, bad_body, bad_decoded),
        ) is Retry,
        decide(policy, made, classify(status, body, Err::<T, String>(reason))) is Retry ==> decide(
            policy,
            made,
            classify(status, body, Err::<T, String>(reason)),
        ) == decide(policy, made, classify(bad_status, bad_body, bad_decoded)),
        decide(policy, made, classify(status, body, Err::<T, String>(reason))) is Finish ==> decide(
            policy,
            made,
            classify(status, body, Err::<T, String>(reason)),
        )->Finish_0 is Err,
{
}

} // verus!
