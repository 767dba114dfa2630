//! The sources a document can be asked of. Each adapter says what to
//! request and what a response means; none of them touches the network.

pub mod arxiv;
pub mod claude_cli;
pub mod filesystem;
pub mod semantic_scholar;
pub mod unpaywall;

use crate::rate_limit::{admits, after_check, RateLimiter, POLL_INTERVAL_MS};
use crate::retry::{
    advance, backoff_ms, classify_status, initial_progress, is_retryable, retryable_kind,
    status_error, AttemptOutcome, ErrorKind, RetryConfig, RetryExecutor, RetryProgress,
    RetryStatus, RetryStep,
};
use vstd::prelude::*;

verus! {

/// A GET request that an adapter wants made on its behalf.
#[derive(Debug)]
pub struct Request {
    /// The name under which the source's rate limiter counts this request.
    pub endpoint: String,
    /// Where to send it.
    pub url: String,
    /// The `User-Agent` header, where the source asks for one.
    pub user_agent: Option<String>,
    /// The `x-api-key` header, where a key is at hand.
    pub api_key: Option<String>,
    /// How failures of this request are retried.
    pub retry: RetryConfig,
}

/// Where a call to a source stands.
#[derive(Clone, Copy, Debug, PartialEq, Eq, Structural)]
pub enum CallStage {
    /// The call waits to be admitted by the source's rate limiter.
    AwaitingSlot,
    /// The request is out, or about to be sent again.
    Calling,
    /// The call has ended.
    Done,
}

/// What the caller of a source does next.
#[derive(Clone, Copy, Debug, PartialEq, Eq, Structural)]
pub enum CallStep {
    /// Sleep for this many milliseconds, then ask the limiter again with `poll`.
    Wait(u64),
    /// Send the request and report how it was answered with `on_status`.
    Send,
    /// Sleep for this many milliseconds, then send the request again.
    Backoff(u64),
    /// The source answered with success: hand the body to the adapter.
    Deliver,
    /// The call failed for good with an error of this kind.
    Fail(ErrorKind),
}

/// A report that the stage did not ask for.
#[derive(Clone, Copy, Debug, PartialEq, Eq, Structural)]
pub struct OutOfTurn;

/// The error that an answer amounts to: none for a status of success,
/// the error of the status for any other, a transport error where no
/// status came back at all.
pub open spec fn answer_error(status: Option<u16>) -> Option<ErrorKind> {
    match status {
        Some(code) => status_error(code),
        None => Some(ErrorKind::Transport),
    }
}

/// What the retry policy sees of an answer.
pub open spec fn answer_outcome(status: Option<u16>) -> AttemptOutcome {
    match answer_error(status) {
        Some(kind) => AttemptOutcome::Failed { retryable: retryable_kind(kind) },
        None => AttemptOutcome::Succeeded,
    }
}

/// One call to a source: first a slot of the source's rate limiter, then
/// the request, sent again after transport and server errors as the retry
/// policy allows. It decides; its caller sleeps and sends.
#[derive(Debug)]
pub struct SourceCall {
    executor: RetryExecutor,
    stage: CallStage,
}

/// What follows an answer to a request that is out, under a policy and
/// with the retries made so far.
pub open spec fn step_after(policy: RetryConfig, progress: RetryProgress, status: Option<u16>) -> CallStep {
    match answer_error(status) {
        None => CallStep::Deliver,
        Some(kind) => if retryable_kind(kind) && progress.retries < policy.max_retries {
            CallStep::Backoff(backoff_ms(policy, progress.retries) as u64)
        } else {
            CallStep::Fail(kind)
        },
    }
}

impl SourceCall {
    #[verifier::type_invariant]
    spec fn sound(&self) -> bool {
        self.stage != CallStage::Done ==> self.executor.progress().status == RetryStatus::Running
    }

    /// Where the call stands.
    pub closed spec fn current(&self) -> CallStage {
        self.stage
    }

    /// The retry policy of the call.
    pub closed spec fn policy(&self) -> RetryConfig {
        self.executor.policy()
    }

    /// How far the call has got with its retries.
    pub closed spec fn progress(&self) -> RetryProgress {
        self.executor.progress()
    }

    /// A call that has yet to be admitted by a rate limiter.
    pub fn new(retry: RetryConfig) -> (call: Self)
        ensures
            call.current() == CallStage::AwaitingSlot,
            call.policy() == retry,
            call.progress() == initial_progress(),
    {
        SourceCall { executor: RetryExecutor::new(retry), stage: CallStage::AwaitingSlot }
    }

    /// A call to a source that no rate limiter counts: its request can be
    /// sent at once.
    pub fn unlimited(retry: RetryConfig) -> (call: Self)
        ensures
            call.current() == CallStage::Calling,
            call.policy() == retry,
            call.progress() == initial_progress(),
    {
        SourceCall { executor: RetryExecutor::new(retry), stage: CallStage::Calling }
    }

    /// Where the call stands. A call that is not done has neither
    /// succeeded nor failed for good.
    pub fn stage(&self) -> (stage: CallStage)
        ensures
            stage == self.current(),
            stage != CallStage::Done ==> self.progress().status == RetryStatus::Running,
    {
        proof {
            use_type_invariant(self);
        }
        self.stage
    }

    /// Asks the limiter at `now` for a slot for `endpoint`. Admitted, the
    /// request is on record with the limiter and is to be sent; refused,
    /// nothing changes and the caller waits before it polls again. Only a
    /// call that awaits its slot asks the limiter; for any other the poll is
    /// out of turn and nothing changes.
    pub fn poll(&mut self, limiter: &mut RateLimiter, endpoint: &str, now: u64) -> (step: Result<
        CallStep,
        OutOfTurn,
    >)
        ensures
            final(self).policy() == old(self).policy(),
            final(self).progress() == old(self).progress(),
            final(limiter).window() == old(limiter).window(),
            final(limiter).limit() == old(limiter).limit(),
            forall|other: Seq<char>|
                other != endpoint@ ==> #[trigger] final(limiter).recorded(other) == old(
                    limiter,
                ).recorded(other),
            old(self).current() != CallStage::AwaitingSlot ==> {
                &&& step == Err::<CallStep, OutOfTurn>(OutOfTurn)
                &&& final(self).current() == old(self).current()
                &&& *final(limiter) == *old(limiter)
            },
            old(self).current() == CallStage::AwaitingSlot ==> {
                let admitted = admits(
                    old(limiter).recorded(endpoint@),
                    now,
                    old(limiter).window(),
                    old(limiter).limit(),
                );
                &&& final(limiter).recorded(endpoint@) == after_check(
                    old(limiter).recorded(endpoint@),
                    now,
                    old(limiter).window(),
                    old(limiter).limit(),
                )
                &&& step == Ok::<CallStep, OutOfTurn>(
                    if admitted {
                        CallStep::Send
                    } else {
                        CallStep::Wait(POLL_INTERVAL_MS)
                    },
                )
                &&& final(self).current() == if admitted {
                    CallStage::Calling
                } else {
                    CallStage::AwaitingSlot
                }
            },
    {
        proof {
            use_type_invariant(&*self);
        }
        match self.stage {
            CallStage::AwaitingSlot => {},
            _ => {
                return Err(OutOfTurn);
            },
        }
        match limiter.wait_for_slot(endpoint, now) {
            None => {
                self.stage = CallStage::Calling;
                Ok(CallStep::Send)
            },
            Some(sleep) => Ok(CallStep::Wait(sleep)),
        }
    }

    /// Takes the status with which the request was answered, or the news
    /// that no answer came. A status of success delivers the answer. A
    /// transport error, a status 5xx and the status 429 send the request
    /// again after the backoff of the policy, as long as retries are left.
    /// Any other status, and any error once the retries are used up, fails
    /// the call at once, without a wait. Only a call whose request is out
    /// takes a status; for any other the report is out of turn and nothing
    /// changes.
    pub fn on_status(&mut self, status: Option<u16>) -> (step: Result<CallStep, OutOfTurn>)
        ensures
            final(self).policy() == old(self).policy(),
            old(self).current() != CallStage::Calling ==> {
                &&& step == Err::<CallStep, OutOfTurn>(OutOfTurn)
                &&& final(self).current() == old(self).current()
                &&& final(self).progress() == old(self).progress()
            },
            old(self).current() == CallStage::Calling ==> {
                let next = step_after(old(self).policy(), old(self).progress(), status);
                &&& final(self).progress() == advance(
                    old(self).policy(),
                    old(self).progress(),
                    answer_outcome(status),
                )
                &&& step == Ok::<CallStep, OutOfTurn>(next)
                &&& final(self).current() == if next is Backoff {
                    CallStage::Calling
                } else {
                    CallStage::Done
                }
            },
    {
        proof {
            use_type_invariant(&*self);
        }
        match self.stage {
            CallStage::Calling => {},
            _ => {
                return Err(OutOfTurn);
            },
        }
        let error = match status {
            Some(code) => classify_status(code),
            None => Some(ErrorKind::Transport),
        };
        let result: Result<(), ErrorKind> = match error {
            Some(kind) => Err(kind),
            None => Ok(()),
        };
        let retryable = match error {
            Some(kind) => is_retryable(kind),
            None => false,
        };
        let mut executor = RetryExecutor::new(self.executor.config());
        core::mem::swap(&mut self.executor, &mut executor);
        let next = match executor.on_result(result, retryable) {
            RetryStep::Backoff(wait) => CallStep::Backoff(wait),
            RetryStep::Return(Ok(())) => {
                self.stage = CallStage::Done;
                CallStep::Deliver
            },
            RetryStep::Return(Err(kind)) => {
                self.stage = CallStage::Done;
                CallStep::Fail(kind)
            },
        };
        core::mem::swap(&mut self.executor, &mut executor);
        Ok(next)
    }
}

} // verus!
