//! The rules of a transport's life: when connecting, reading and writing
//! are allowed, and how often and after which delays a failed connection
//! attempt is repeated.
//!
//! Nothing here connects or waits.  A transport asks these rules what to do
//! next and tells them what happened.

use vstd::prelude::*;
use vstd::arithmetic::power2::{lemma2_to64, lemma_pow2_pos, lemma_pow2_unfold, pow2};
use crate::error::TransportError;

verus! {

/// The default number of connection attempts.
pub const DEFAULT_MAX_ATTEMPTS: u32 = 3;

/// The default delay before the first retry, in milliseconds.
pub const DEFAULT_RETRY_DELAY: u64 = 100;

/// How a failed connection attempt is repeated.
#[derive(Debug, Clone, Copy, PartialEq, Eq, Structural)]
pub struct RetryConfig {
    /// The number of attempts after which the last error is reported.  At
    /// least one attempt is always made.
    pub max_attempts: u32,
    /// The delay before the first retry, in milliseconds.
    pub retry_delay: u64,
    /// Whether the delay doubles with every retry.
    pub use_backoff: bool,
}

impl RetryConfig {
    /// Three attempts, a first delay of 100 milliseconds, doubling.
    pub open spec fn spec_default() -> RetryConfig {
        RetryConfig {
            max_attempts: DEFAULT_MAX_ATTEMPTS,
            retry_delay: DEFAULT_RETRY_DELAY,
            use_backoff: true,
        }
    }

    /// The number of attempts that are made when every attempt fails.
    pub open spec fn spec_attempts(self) -> nat {
        if self.max_attempts == 0 {
            1
        } else {
            self.max_attempts as nat
        }
    }

    /// The delay before the `n`-th retry, counted from one, as the rule
    /// gives it: the first delay, doubled `n - 1` times where the delay
    /// doubles.
    pub open spec fn spec_retry_delay(self, n: nat) -> nat
        recommends
            n >= 1,
    {
        if self.use_backoff {
            (self.retry_delay * pow2((n - 1) as nat)) as nat
        } else {
            self.retry_delay as nat
        }
    }
}

impl Default for RetryConfig {
    fn default() -> (r: Self)
        ensures
            r == RetryConfig::spec_default(),
    {
        RetryConfig {
            max_attempts: DEFAULT_MAX_ATTEMPTS,
            retry_delay: DEFAULT_RETRY_DELAY,
            use_backoff: true,
        }
    }
}

/// A delay: a number of milliseconds, doubled a number of times.  In this
/// form the delay that the rule gives is held exactly, however large it is.
#[derive(Debug, Clone, Copy, PartialEq, Eq, Structural)]
pub struct RetryDelay {
    /// The milliseconds before any doubling.
    pub base: u64,
    /// How often the milliseconds are doubled.
    pub doublings: u32,
}

impl RetryDelay {
    /// The delay in milliseconds.
    pub open spec fn spec_millis(self) -> nat {
        (self.base * pow2(self.doublings as nat)) as nat
    }

    /// The delay in milliseconds, where it fits 64 bits.
    pub fn checked_millis(&self) -> (r: Option<u64>)
        ensures
            match r {
                Some(millis) => millis == self.spec_millis(),
                None => self.spec_millis() > u64::MAX,
            },
    {
        if self.base == 0 {
            proof {
                assert(0 * pow2(self.doublings as nat) == 0) by (nonlinear_arith);
            }
            return Some(0);
        }
        let mut millis: u64 = self.base;
        let mut done: u32 = 0;
        proof {
            lemma2_to64();
            assert(self.base * 1 == self.base) by (nonlinear_arith);
        }
        while done < self.doublings
            invariant
                done <= self.doublings,
                self.base > 0,
                millis == self.base * pow2(done as nat),
            decreases self.doublings - done,
        {
            proof {
                lemma_doubled_once_more(self.base, done as nat);
            }
            if millis > u64::MAX / 2 {
                proof {
                    lemma_doublings_grow(self.base, (done + 1) as nat, self.doublings as nat);
                }
                return None;
            }
            millis = millis * 2;
            done = done + 1;
        }
        Some(millis)
    }

    /// The delay in milliseconds, or the largest 64-bit value where the
    /// delay is above it.
    pub fn saturating_millis(&self) -> (r: u64)
        ensures
            r == if self.spec_millis() > u64::MAX {
                u64::MAX as nat
            } else {
                self.spec_millis()
            },
    {
        match self.checked_millis() {
            Some(millis) => millis,
            None => u64::MAX,
        }
    }
}

/// Doubling once more doubles the milliseconds.
proof fn lemma_doubled_once_more(base: u64, doublings: nat)
    ensures
        base * pow2(doublings + 1) == 2 * (base * pow2(doublings)),
{
    lemma_pow2_unfold(doublings + 1);
    assert(base * (2 * pow2(doublings)) == 2 * (base * pow2(doublings))) by (nonlinear_arith);
}

/// More doublings do not make the milliseconds fewer.
proof fn lemma_doublings_grow(base: u64, fewer: nat, more: nat)
    requires
        fewer <= more,
    ensures
        base * pow2(fewer) <= base * pow2(more),
    decreases more - fewer,
{
    if fewer < more {
        lemma_doublings_grow(base, fewer, (more - 1) as nat);
        lemma_doubled_once_more(base, (more - 1) as nat);
        assert(base * pow2((more - 1) as nat) >= 0) by (nonlinear_arith)
            requires
                pow2((more - 1) as nat) >= 0,
        ;
    }
}

/// What to do after a failed connection attempt.
#[derive(Debug, Clone, PartialEq, Eq)]
pub enum RetryDecision<E> {
    /// Wait for the given delay, then attempt again.
    RetryAfter(RetryDelay),
    /// Attempt no more and report the given error.
    GiveUp(E),
}

/// The progress of a series of connection attempts as a mathematical value.
pub struct RetryView {
    /// The rule that is followed.
    pub config: RetryConfig,
    /// The number of failed attempts that were followed by a retry.
    pub failures: u32,
}

impl RetryView {
    /// The progress before the first attempt.
    pub open spec fn initial(config: RetryConfig) -> RetryView {
        RetryView { config, failures: 0 }
    }

    /// Whether the attempt that is under way is the last one: it is when it
    /// reaches the number of attempts that the rule allows.
    pub open spec fn gives_up(self) -> bool {
        self.failures + 1 >= self.config.max_attempts
    }

    /// The delay before the next retry: the first delay, doubled once for
    /// every retry that was made before, where the rule says so.
    pub open spec fn spec_delay(self) -> RetryDelay {
        RetryDelay {
            base: self.config.retry_delay,
            doublings: if self.config.use_backoff {
                self.failures
            } else {
                0
            },
        }
    }

    /// The progress after the attempt that is under way has failed.  Where
    /// it was the last one nothing changes; otherwise the failure is
    /// counted.
    pub open spec fn after_failure(self) -> RetryView {
        if self.gives_up() {
            self
        } else {
            RetryView { config: self.config, failures: (self.failures + 1) as u32 }
        }
    }

    /// The progress after `count` attempts in a row have failed.
    pub open spec fn after_failures(config: RetryConfig, count: nat) -> RetryView
        decreases count,
    {
        if count == 0 {
            RetryView::initial(config)
        } else {
            RetryView::after_failures(config, (count - 1) as nat).after_failure()
        }
    }

    /// The waits, in milliseconds and in their order, that lie between the
    /// attempts when the attempt under way and every later one fails: one
    /// after each failure but the last.
    pub open spec fn spec_waits(self) -> Seq<nat>
        decreases self.config.max_attempts - self.failures,
    {
        if self.gives_up() {
            Seq::empty()
        } else {
            seq![self.spec_delay().spec_millis()] + self.after_failure().spec_waits()
        }
    }
}

/// The progress of a series of connection attempts.
#[derive(Debug, Clone, Copy, PartialEq, Eq)]
pub struct RetryState {
    config: RetryConfig,
    failures: u32,
}

impl View for RetryState {
    type V = RetryView;

    closed spec fn view(&self) -> RetryView {
        RetryView { config: self.config, failures: self.failures }
    }
}

impl RetryState {
    #[verifier::type_invariant]
    spec fn counted(self) -> bool {
        self.failures == 0 || self.failures < self.config.max_attempts
    }

    /// The progress before the first attempt under the rule `config`.
    pub fn new(config: RetryConfig) -> (r: Self)
        ensures
            r@ == RetryView::initial(config),
    {
        RetryState { config, failures: 0 }
    }

    /// The number of the attempt that is under way, counted from one.
    pub fn attempt(&self) -> (r: u32)
        ensures
            r == self@.failures + 1,
    {
        proof {
            use_type_invariant(self);
        }
        self.failures + 1
    }

    /// Takes note that the attempt under way has failed with `error` and
    /// says what to do.  Where the attempt was the last that the rule
    /// allows, the error itself is handed back to be reported, and no wait
    /// is announced.  Otherwise the delay before the next attempt is
    /// announced.
    pub fn on_failure<E>(&mut self, error: E) -> (r: RetryDecision<E>)
        ensures
            final(self)@ == old(self)@.after_failure(),
            match r {
                RetryDecision::RetryAfter(delay) => !old(self)@.gives_up() && delay == old(
                    self,
                )@.spec_delay(),
                RetryDecision::GiveUp(reported) => old(self)@.gives_up() && reported == error,
            },
    {
        proof {
            use_type_invariant(&*self);
        }
        let attempt = self.failures + 1;
        if attempt >= self.config.max_attempts {
            return RetryDecision::GiveUp(error);
        }
        let doublings = if self.config.use_backoff {
            self.failures
        } else {
            0
        };
        let delay = RetryDelay { base: self.config.retry_delay, doublings };
        *self = RetryState { config: self.config, failures: attempt };
        RetryDecision::RetryAfter(delay)
    }
}

/// While fewer failures have occurred than the rule allows attempts, every
/// failure has been counted.
pub proof fn lemma_progress_after_failures(config: RetryConfig, count: nat)
    requires
        count < config.spec_attempts(),
    ensures
        RetryView::after_failures(config, count) == (RetryView { config, failures: count as u32 }),
    decreases count,
{
    if count > 0 {
        lemma_progress_after_failures(config, (count - 1) as nat);
    }
}

/// When every attempt fails, exactly as many attempts are made as the rule
/// allows, and at least one: each failure before the last is answered with
/// a retry, and the last with giving up.
pub proof fn lemma_attempts_when_all_fail(config: RetryConfig, failed: nat)
    requires
        failed < config.spec_attempts(),
    ensures
        RetryView::after_failures(config, failed).gives_up() <==> failed + 1
            == config.spec_attempts(),
{
    lemma_progress_after_failures(config, failed);
}

/// The delay that is announced before the `n`-th retry is the first delay
/// times two to the power of `n - 1` where the delay doubles, and the first
/// delay where it does not, whatever the numbers are.
pub proof fn lemma_nth_retry_delay(config: RetryConfig, n: nat)
    requires
        1 <= n < config.spec_attempts(),
    ensures
        !RetryView::after_failures(config, (n - 1) as nat).gives_up(),
        RetryView::after_failures(config, (n - 1) as nat).spec_delay().spec_millis()
            == config.spec_retry_delay(n),
        config.use_backoff ==> config.spec_retry_delay(n) == config.retry_delay * pow2(
            (n - 1) as nat,
        ),
        !config.use_backoff ==> config.spec_retry_delay(n) == config.retry_delay,
{
    lemma_progress_after_failures(config, (n - 1) as nat);
    lemma_pow2_pos((n - 1) as nat);
    assert(config.retry_delay * pow2((n - 1) as nat) >= 0) by (nonlinear_arith)
        requires
            pow2((n - 1) as nat) > 0,
    ;
    if !config.use_backoff {
        lemma2_to64();
        assert(config.retry_delay * 1 == config.retry_delay) by (nonlinear_arith);
    }
}

/// The waits that lie ahead of a series in which `failures` attempts have
/// failed and every further attempt fails too.
proof fn lemma_waits_ahead(config: RetryConfig, failures: nat)
    requires
        failures < config.spec_attempts(),
    ensures
        ({
            let waits = (RetryView { config, failures: failures as u32 }).spec_waits();
            &&& waits.len() == config.spec_attempts() - 1 - failures
            &&& forall|i: int|
                0 <= i < waits.len() ==> #[trigger] waits[i] == config.spec_retry_delay(
                    (failures + i + 1) as nat,
                )
        }),
    decreases config.spec_attempts() - failures,
{
    let state = RetryView { config, failures: failures as u32 };
    let waits = state.spec_waits();
    if !state.gives_up() {
        let ahead = state.after_failure().spec_waits();
        lemma_waits_ahead(config, failures + 1);
        lemma_progress_after_failures(config, failures);
        lemma_nth_retry_delay(config, failures + 1);
        assert forall|i: int| 0 <= i < waits.len() implies #[trigger] waits[i]
            == config.spec_retry_delay((failures + i + 1) as nat) by {
            if i > 0 {
                assert(waits[i] == ahead[i - 1]);
            }
        }
    }
}

/// When every attempt fails, one wait lies between each two attempts that
/// follow each other and none behind the last: there are as many waits as
/// attempts but one.  The wait behind the `n`-th failure, counted from one,
/// is the first delay times two to the power of `n - 1` where the delay
/// doubles, and the first delay where it does not: `waits[i]`, counted from
/// zero, is the first delay times two to the power of `i`.
pub proof fn lemma_waits_when_all_fail(config: RetryConfig)
    ensures
        ({
            let waits = RetryView::initial(config).spec_waits();
            &&& waits.len() == config.spec_attempts() - 1
            &&& forall|i: int|
                0 <= i < waits.len() ==> #[trigger] waits[i] == (if config.use_backoff {
                    config.retry_delay * pow2(i as nat)
                } else {
                    config.retry_delay as int
                })
        }),
{
    let waits = RetryView::initial(config).spec_waits();
    lemma_waits_ahead(config, 0);
    assert forall|i: int| 0 <= i < waits.len() implies #[trigger] waits[i] == (if config
        .use_backoff {
        config.retry_delay * pow2(i as nat)
    } else {
        config.retry_delay as int
    }) by {
        lemma_nth_retry_delay(config, (i + 1) as nat);
    }
}

/// Whether a transport holds a connection.
#[derive(Debug, Clone, Copy, PartialEq, Eq, Structural)]
pub enum LinkState {
    /// No connection is held: none was made yet, or it was closed.
    Disconnected,
    /// A connection is held.
    Connected,
}

impl LinkState {
    /// Whether a connection may be made: only where none is held.
    pub open spec fn spec_check_connect(self) -> Result<(), TransportError> {
        match self {
            LinkState::Disconnected => Ok(()),
            LinkState::Connected => Err(TransportError::AlreadyConnected),
        }
    }

    /// Whether bytes may be read or written: only where a connection is
    /// held.
    pub open spec fn spec_check_io(self) -> Result<(), TransportError> {
        match self {
            LinkState::Connected => Ok(()),
            LinkState::Disconnected => Err(TransportError::NotConnected),
        }
    }

    /// Whether a connection may be made.  The state is left as it is.
    pub fn check_connect(&self) -> (r: Result<(), TransportError>)
        ensures
            r == self.spec_check_connect(),
    {
        match self {
            LinkState::Disconnected => Ok(()),
            LinkState::Connected => Err(TransportError::AlreadyConnected),
        }
    }

    /// Whether bytes may be read or written.
    pub fn check_io(&self) -> (r: Result<(), TransportError>)
        ensures
            r == self.spec_check_io(),
    {
        match self {
            LinkState::Connected => Ok(()),
            LinkState::Disconnected => Err(TransportError::NotConnected),
        }
    }

    /// Closes the link and says whether there was a connection to shut
    /// down.  Closing a link that holds none changes nothing.
    pub fn close(&mut self) -> (r: bool)
        ensures
            *final(self) == LinkState::Disconnected,
            r == (*old(self) == LinkState::Connected),
    {
        let held = match self {
            LinkState::Connected => true,
            LinkState::Disconnected => false,
        };
        *self = LinkState::Disconnected;
        held
    }
}

} // verus!
