//! The supervisor of one symbol's streaming connection, as a state machine.
//! The surrounding task opens sessions, reads messages and sleeps; after each
//! ended attempt it hands the outcome in here and performs the action handed
//! back: reconnect after a delay, give up for good, or exit. The attempt
//! counter lives here and resets only when a new supervisor is made for the
//! symbol.
use vstd::prelude::*;

verus! {

use crate::backoff::spec_raw_delay;
use crate::backoff::backoff_delay_ms;
use crate::config::RetryConfig;

/// How one connection attempt ended.
pub enum AttemptOutcome {
    /// The session closed in an orderly way: the server sent a close frame,
    /// the stream ended, or the trade consumer is gone.
    Ended,
    /// The cancellation signal was observed.
    Cancelled,
    /// A transport error cut the attempt short.
    Failed,
}

/// What the supervising task must do next.
pub enum SupervisorAction {
    /// Sleep this many milliseconds, then reconnect.
    Retry { delay_ms: u64 },
    /// Retries are exhausted: exit permanently; only a fresh start request
    /// revives the feed.
    GiveUp,
    /// Exit cleanly.
    Exit,
}

/// The reconnection state of one symbol's connection: how many attempts have
/// failed, and the configured policy.
pub struct ConnectionSupervisor {
    failures: u32,
    retry: RetryConfig,
}

impl ConnectionSupervisor {
    /// The number of failed attempts so far.
    pub closed spec fn failures(&self) -> u32 {
        self.failures
    }

    /// The configured policy.
    pub closed spec fn retry(&self) -> RetryConfig {
        self.retry
    }

    /// A fresh supervisor: no attempt has failed yet.
    pub fn new(retry: &RetryConfig) -> (s: ConnectionSupervisor)
        ensures
            s.failures() == 0,
            s.retry() == *retry,
    {
        ConnectionSupervisor { failures: 0, retry: *retry }
    }

    /// Takes the outcome of the attempt that just ended and decides what
    /// follows. An orderly end or a cancellation exits; a failure counts, and
    /// either exhausts the retry budget or asks for a reconnect whose delay
    /// lies within +/-10% of the raw exponential backoff for the coming
    /// attempt.
    pub fn on_attempt_end(&mut self, outcome: AttemptOutcome) -> (action: SupervisorAction)
        requires
            old(self).retry().delay_cap_ok(),
        ensures
            final(self).retry() == old(self).retry(),
            !(outcome is Failed) ==> final(self).failures() == old(self).failures()
                && action is Exit,
            outcome is Failed && old(self).failures() >= old(self).retry().max_attempts
                ==> final(self).failures() == old(self).failures() && action is GiveUp,
            outcome is Failed && old(self).failures() < old(self).retry().max_attempts ==> {
                &&& final(self).failures() == old(self).failures() + 1
                &&& (old(self).failures() + 1 >= old(self).retry().max_attempts ==> action
                    is GiveUp)
                &&& (old(self).failures() + 1 < old(self).retry().max_attempts ==> (
                action matches SupervisorAction::Retry { delay_ms } && 9 * spec_raw_delay(
                    old(self).retry().base_delay_ms,
                    old(self).retry().max_delay_ms,
                    (old(self).failures() + 2) as u32,
                ) <= 10 * delay_ms && 10 * delay_ms <= 11 * spec_raw_delay(
                    old(self).retry().base_delay_ms,
                    old(self).retry().max_delay_ms,
                    (old(self).failures() + 2) as u32,
                )))
            },
    {
        match outcome {
            AttemptOutcome::Ended => SupervisorAction::Exit,
            AttemptOutcome::Cancelled => SupervisorAction::Exit,
            AttemptOutcome::Failed => {
                if self.failures >= self.retry.max_attempts {
                    return SupervisorAction::GiveUp;
                }
                let f = self.failures + 1;
                self.failures = f;
                if f >= self.retry.max_attempts {
                    SupervisorAction::GiveUp
                } else {
                    let delay_ms = backoff_delay_ms(
                        self.retry.base_delay_ms,
                        self.retry.max_delay_ms,
                        f + 1,
                    );
                    SupervisorAction::Retry { delay_ms }
                }
            }
        }
    }
}

} // verus!
