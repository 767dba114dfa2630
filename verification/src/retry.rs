//! Retry policy: the error taxonomy, exponential backoff, and the decisions
//! of a retrying executor as a state machine that never sleeps itself.
//!
//! All durations are whole milliseconds.

use vstd::arithmetic::power::*;
use vstd::prelude::*;

verus! {

/// The kinds of failure an adapter call can end in.
#[derive(Clone, Copy, Debug, PartialEq, Eq, Structural)]
pub enum ErrorKind {
    /// The connection failed or timed out.
    Transport,
    /// The server answered 5xx, or 429 (rate limited).
    Server,
    /// The server answered 4xx other than 429.
    Client,
    /// The response could not be parsed.
    Parse,
    /// The payload was a paywall page or not a document.
    Validation,
    /// The durable store or the file system failed.
    Infrastructure,
}

/// Transport and server errors are worth another attempt; all others are terminal.
pub open spec fn retryable_kind(kind: ErrorKind) -> bool {
    kind == ErrorKind::Transport || kind == ErrorKind::Server
}

/// Whether an error of this kind is retried.
pub fn is_retryable(kind: ErrorKind) -> (retry: bool)
    ensures
        retry == retryable_kind(kind),
{
    match kind {
        ErrorKind::Transport => true,
        ErrorKind::Server => true,
        _ => false,
    }
}

/// The error kind of an HTTP status code: none for 2xx, `Server` for 5xx
/// and 429, `Client` for every other code.
pub open spec fn status_error(code: u16) -> Option<ErrorKind> {
    if 200 <= code < 300 {
        None
    } else if code == 429 || 500 <= code < 600 {
        Some(ErrorKind::Server)
    } else {
        Some(ErrorKind::Client)
    }
}

/// Classifies an HTTP status code.
pub fn classify_status(code: u16) -> (kind: Option<ErrorKind>)
    ensures
        kind == status_error(code),
{
    if 200 <= code && code < 300 {
        None
    } else if code == 429 || (500 <= code && code < 600) {
        Some(ErrorKind::Server)
    } else {
        Some(ErrorKind::Client)
    }
}

/// How often and how patiently an operation is retried.
#[derive(Clone, Copy, Debug, PartialEq, Eq, Structural)]
pub struct RetryConfig {
    /// Retries allowed after the first attempt.
    pub max_retries: u32,
    /// Wait before the first retry, in milliseconds.
    pub initial_backoff: u64,
    /// Upper bound of any wait, in milliseconds.
    pub max_backoff: u64,
    /// Whole-number factor by which the wait grows with each attempt.
    pub multiplier: u32,
}

/// The wait before the retry that follows attempt `attempt` (counted from
/// zero): `initial_backoff * multiplier^attempt`, capped at `max_backoff`.
pub open spec fn backoff_ms(config: RetryConfig, attempt: nat) -> nat {
    let grown = config.initial_backoff * pow(config.multiplier as int, attempt);
    if grown <= config.max_backoff {
        grown as nat
    } else {
        config.max_backoff as nat
    }
}

proof fn lemma_growth_step(initial: int, multiplier: int, i: nat)
    ensures
        initial * pow(multiplier, i + 1) == (initial * pow(multiplier, i)) * multiplier,
{
    reveal(pow);
    assert(pow(multiplier, i + 1) == multiplier * pow(multiplier, i));
    assert(initial * (multiplier * pow(multiplier, i)) == (initial * pow(multiplier, i))
        * multiplier) by (nonlinear_arith);
}

proof fn lemma_growth_monotone(initial: nat, multiplier: nat, a: nat, b: nat)
    requires
        multiplier >= 1,
        a <= b,
    ensures
        initial * pow(multiplier as int, a) <= initial * pow(multiplier as int, b),
        0 <= pow(multiplier as int, a),
{
    lemma_pow_positive(multiplier as int, a);
    lemma_pow_increases(multiplier, a, b);
    let pa = pow(multiplier as int, a);
    let pb = pow(multiplier as int, b);
    assert(initial * pa <= initial * pb) by (nonlinear_arith)
        requires
            pa <= pb,
            0 <= initial,
    ;
}

impl RetryConfig {
    /// The wait before the retry that follows attempt `attempt`.
    pub fn backoff_for_attempt(&self, attempt: u32) -> (backoff: u64)
        ensures
            backoff == backoff_ms(*self, attempt as nat),
            backoff <= self.max_backoff,
    {
        let cap = self.max_backoff;
        let initial = self.initial_backoff;
        proof {
            lemma_pow0(self.multiplier as int);
        }
        if attempt == 0 || self.multiplier == 1 || initial == 0 {
            proof {
                lemma1_pow(attempt as nat);
                assert(initial * pow(self.multiplier as int, attempt as nat) == initial)
                    by (nonlinear_arith)
                    requires
                        pow(self.multiplier as int, attempt as nat) == 1 || initial == 0,
                ;
            }
            return if initial <= cap {
                initial
            } else {
                cap
            };
        }
        if self.multiplier == 0 {
            proof {
                lemma0_pow(attempt as nat);
            }
            return 0;
        }
        if initial > cap {
            proof {
                lemma_growth_monotone(initial as nat, self.multiplier as nat, 0, attempt as nat);
            }
            return cap;
        }
        let mut value: u64 = initial;
        let mut i: u32 = 0;
        while i < attempt
            invariant
                i <= attempt,
                value <= cap,
                self.multiplier >= 2,
                initial == self.initial_backoff,
                cap == self.max_backoff,
                value == initial * pow(self.multiplier as int, i as nat),
            decreases attempt - i,
        {
            assert(value * self.multiplier <= 0xffff_ffff_ffff_ffff * 0xffff_ffff)
                by (nonlinear_arith)
                requires
                    value <= 0xffff_ffff_ffff_ffff,
                    self.multiplier <= 0xffff_ffff,
            ;
            let grown: u128 = (value as u128) * (self.multiplier as u128);
            proof {
                lemma_growth_step(initial as int, self.multiplier as int, i as nat);
                lemma_growth_monotone(
                    initial as nat,
                    self.multiplier as nat,
                    (i + 1) as nat,
                    attempt as nat,
                );
            }
            if grown > cap as u128 {
                return cap;
            }
            value = grown as u64;
            i += 1;
        }
        value
    }
}

impl Default for RetryConfig {
    /// Three retries, starting at half a second, doubling, at most thirty seconds.
    fn default() -> (config: Self)
        ensures
            config == (RetryConfig {
                max_retries: 3,
                initial_backoff: 500,
                max_backoff: 30_000,
                multiplier: 2,
            }),
    {
        RetryConfig { max_retries: 3, initial_backoff: 500, max_backoff: 30_000, multiplier: 2 }
    }
}

/// The wait never exceeds `max_backoff`, and with a growth factor of at
/// least one it never shrinks from one attempt to a later one.
pub proof fn lemma_backoff_monotone_and_capped(config: RetryConfig, earlier: nat, later: nat)
    requires
        config.multiplier >= 1,
        earlier <= later,
    ensures
        backoff_ms(config, earlier) <= backoff_ms(config, later),
        backoff_ms(config, later) <= config.max_backoff,
{
    lemma_growth_monotone(config.initial_backoff as nat, config.multiplier as nat, earlier, later);
}

/// How one attempt of the operation ended, as far as the retry policy cares.
#[derive(Clone, Copy, Debug, PartialEq, Eq, Structural)]
pub enum AttemptOutcome {
    /// The operation returned a value.
    Succeeded,
    /// The operation returned an error; `retryable` is what the caller's
    /// predicate said of it.
    Failed { retryable: bool },
}

/// Where a retried operation stands.
#[derive(Clone, Copy, Debug, PartialEq, Eq, Structural)]
pub enum RetryStatus {
    /// Another attempt is due.
    Running,
    /// An attempt succeeded.
    Succeeded,
    /// An attempt failed for good.
    Failed,
}

/// What the executor asks of its caller after an attempt.
#[derive(Debug, PartialEq, Eq)]
pub enum RetryStep<T, E> {
    /// Hand this result back; nothing more is attempted.
    Return(Result<T, E>),
    /// Sleep for this many milliseconds, then attempt again.
    Backoff(u64),
}

/// The mathematical state of a retried operation: how many waits were
/// asked for so far, and where it stands.
pub struct RetryProgress {
    pub retries: nat,
    pub status: RetryStatus,
}

/// The state before the first attempt.
pub open spec fn initial_progress() -> RetryProgress {
    RetryProgress { retries: 0, status: RetryStatus::Running }
}

/// An attempt that failed is repeated when the error is retryable and
/// retries remain.
pub open spec fn retries_again(
    config: RetryConfig,
    progress: RetryProgress,
    outcome: AttemptOutcome,
) -> bool {
    progress.status == RetryStatus::Running && outcome == (AttemptOutcome::Failed {
        retryable: true,
    }) && progress.retries < config.max_retries
}

/// The state after one more attempt ended in `outcome`. A finished
/// operation stays as it is.
pub open spec fn advance(
    config: RetryConfig,
    progress: RetryProgress,
    outcome: AttemptOutcome,
) -> RetryProgress {
    if progress.status != RetryStatus::Running {
        progress
    } else if outcome == AttemptOutcome::Succeeded {
        RetryProgress { retries: progress.retries, status: RetryStatus::Succeeded }
    } else if retries_again(config, progress, outcome) {
        RetryProgress { retries: progress.retries + 1, status: RetryStatus::Running }
    } else {
        RetryProgress { retries: progress.retries, status: RetryStatus::Failed }
    }
}

/// The state after the attempts ended in `outcomes`, in this order.
pub open spec fn progress_after(config: RetryConfig, outcomes: Seq<AttemptOutcome>) -> RetryProgress
    decreases outcomes.len(),
{
    if outcomes.len() == 0 {
        initial_progress()
    } else {
        advance(config, progress_after(config, outcomes.drop_last()), outcomes.last())
    }
}

/// The waits asked for while the attempts ended in `outcomes`, in order.
pub open spec fn waits_after(config: RetryConfig, outcomes: Seq<AttemptOutcome>) -> Seq<nat>
    decreases outcomes.len(),
{
    if outcomes.len() == 0 {
        Seq::empty()
    } else {
        let before = progress_after(config, outcomes.drop_last());
        let waits = waits_after(config, outcomes.drop_last());
        if retries_again(config, before, outcomes.last()) {
            waits.push(backoff_ms(config, before.retries))
        } else {
            waits
        }
    }
}

/// What one attempt's result means to the policy.
pub open spec fn outcome_of<T, E>(result: Result<T, E>, retryable: bool) -> AttemptOutcome {
    match result {
        Ok(_) => AttemptOutcome::Succeeded,
        Err(_) => AttemptOutcome::Failed { retryable },
    }
}

/// Decides, attempt by attempt, whether a failing operation is tried
/// again, and after what wait. The caller runs the operation and sleeps.
#[derive(Debug)]
pub struct RetryExecutor {
    config: RetryConfig,
    retries: u32,
    status: RetryStatus,
}

impl RetryExecutor {
    /// The policy this executor follows.
    pub closed spec fn policy(&self) -> RetryConfig {
        self.config
    }

    /// How far the operation has got: the waits asked for so far, and
    /// where it stands. With `policy`, this is all there is to an executor.
    pub closed spec fn progress(&self) -> RetryProgress {
        RetryProgress { retries: self.retries as nat, status: self.status }
    }

    /// An executor that has seen no attempt yet.
    pub fn new(config: RetryConfig) -> (executor: Self)
        ensures
            executor.progress() == initial_progress(),
            executor.policy() == config,
    {
        RetryExecutor { config, retries: 0, status: RetryStatus::Running }
    }

    /// The policy this executor follows.
    pub fn config(&self) -> (config: RetryConfig)
        ensures
            config == self.policy(),
    {
        self.config
    }

    /// How many waits were asked for so far.
    pub fn sleeps(&self) -> (count: u32)
        ensures
            count == self.progress().retries,
    {
        self.retries
    }

    /// Where the operation stands.
    pub fn status(&self) -> (status: RetryStatus)
        ensures
            status == self.progress().status,
    {
        self.status
    }

    /// Takes the result of one attempt, with what the caller's predicate
    /// said of its error, and says what to do next: a success is handed
    /// back; a retryable error with retries left asks for a wait; any other
    /// error is handed back at once. Once finished, every further result is
    /// handed back unchanged.
    pub fn on_result<T, E>(&mut self, result: Result<T, E>, retryable: bool) -> (step: RetryStep<
        T,
        E,
    >)
        ensures
            final(self).policy() == old(self).policy(),
            final(self).progress() == advance(
                old(self).policy(),
                old(self).progress(),
                outcome_of(result, retryable),
            ),
            step == if retries_again(
                old(self).policy(),
                old(self).progress(),
                outcome_of(result, retryable),
            ) {
                RetryStep::<T, E>::Backoff(
                    backoff_ms(old(self).policy(), old(self).progress().retries) as u64,
                )
            } else {
                RetryStep::Return(result)
            },
    {
        match self.status {
            RetryStatus::Running => {},
            _ => {
                return RetryStep::Return(result);
            },
        }
        match result {
            Ok(value) => {
                self.status = RetryStatus::Succeeded;
                RetryStep::Return(Ok(value))
            },
            Err(error) => {
                if retryable && self.retries < self.config.max_retries {
                    let wait = self.config.backoff_for_attempt(self.retries);
                    self.retries = self.retries + 1;
                    RetryStep::Backoff(wait)
                } else {
                    self.status = RetryStatus::Failed;
                    RetryStep::Return(Err(error))
                }
            },
        }
    }
}

/// `count` attempts that each failed with a retryable error.
pub open spec fn retryable_failures(count: nat) -> Seq<AttemptOutcome> {
    Seq::new(count, |i: int| AttemptOutcome::Failed { retryable: true })
}

proof fn lemma_failures_keep_running(config: RetryConfig, count: nat)
    requires
        count <= config.max_retries,
    ensures
        progress_after(config, retryable_failures(count)) == (RetryProgress {
            retries: count,
            status: RetryStatus::Running,
        }),
        waits_after(config, retryable_failures(count)) == Seq::new(
            count,
            |i: int| backoff_ms(config, i as nat),
        ),
    decreases count,
{
    let outcomes = retryable_failures(count);
    if count == 0 {
        assert(waits_after(config, outcomes) =~= Seq::new(0, |i: int| backoff_ms(config, i as nat)));
    } else {
        let shorter = (count - 1) as nat;
        lemma_failures_keep_running(config, shorter);
        assert(outcomes.drop_last() =~= retryable_failures(shorter));
        assert(waits_after(config, outcomes) =~= Seq::new(
            count,
            |i: int| backoff_ms(config, i as nat),
        ));
    }
}

/// When the predicate calls every error retryable and the operation fails
/// `failures` times, no more often than retries are allowed, and then
/// succeeds, the executor ends in success after exactly `failures` waits,
/// the i-th of them the backoff for attempt i.
pub proof fn lemma_succeeds_after_retryable_failures(config: RetryConfig, failures: nat)
    requires
        failures <= config.max_retries,
    ensures
        progress_after(config, retryable_failures(failures).push(AttemptOutcome::Succeeded)) == (
        RetryProgress { retries: failures, status: RetryStatus::Succeeded }),
        waits_after(config, retryable_failures(failures).push(AttemptOutcome::Succeeded))
            == Seq::new(failures, |i: int| backoff_ms(config, i as nat)),
        waits_after(config, retryable_failures(failures).push(AttemptOutcome::Succeeded)).len()
            == failures,
{
    lemma_failures_keep_running(config, failures);
    let outcomes = retryable_failures(failures).push(AttemptOutcome::Succeeded);
    assert(outcomes.drop_last() =~= retryable_failures(failures));
}

/// A terminal error on the first attempt ends the operation at once, with
/// no wait, whatever the policy.
pub proof fn lemma_terminal_error_fails_at_once(config: RetryConfig)
    ensures
        progress_after(config, seq![AttemptOutcome::Failed { retryable: false }]) == (
        RetryProgress { retries: 0, status: RetryStatus::Failed }),
        waits_after(config, seq![AttemptOutcome::Failed { retryable: false }]) == Seq::<
            nat,
        >::empty(),
{
    let outcomes = seq![AttemptOutcome::Failed { retryable: false }];
    assert(outcomes.drop_last() =~= Seq::<AttemptOutcome>::empty());
    assert(progress_after(config, outcomes.drop_last()) == initial_progress());
    assert(waits_after(config, outcomes.drop_last()) =~= Seq::<nat>::empty());
}

} // verus!
