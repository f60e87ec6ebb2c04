//! Back-off for an unreliable light client: after a lost connection, the
//! next attempts are refused until a delay has passed; the delay doubles
//! after each further loss, up to a maximum, and a success resets it.
//!
//! Times are milliseconds on one clock; delays are milliseconds.

use vstd::prelude::*;

use crate::light_client::LightClientError;
use vstd::arithmetic::power::lemma_pow0;
use vstd::arithmetic::power2::{lemma_pow2_pos, lemma_pow2_unfold, pow2};

verus! {

/// The delays of the back-off policy.
#[derive(Clone, Copy, Debug)]
pub struct BackoffConfig {
    pub start_delay_ms: i64,
    pub max_delay_ms: i64,
}

impl Default for BackoffConfig {
    /// 125 ms at first, at most one second.
    fn default() -> (c: BackoffConfig)
        ensures
            c.start_delay_ms == 125,
            c.max_delay_ms == 1000,
    {
        BackoffConfig { start_delay_ms: 125, max_delay_ms: 1000 }
    }
}

impl BackoffConfig {
    /// One second at first, at most eight seconds.
    pub fn slow() -> (c: BackoffConfig)
        ensures
            c.start_delay_ms == 1000,
            c.max_delay_ms == 8000,
    {
        BackoffConfig { start_delay_ms: 1000, max_delay_ms: 8000 }
    }

}

/// The health of the connection as the back-off sees it.
#[derive(Clone, Copy, Debug, PartialEq, Eq, Structural)]
pub enum ConnectionStatus {
    Healthy,
    IntermittentFailure,
    ProlongedFailure,
}

/// The decision state of a back-off decorator.
#[derive(Clone, Copy, Debug)]
pub struct BackoffState {
    pub start_delay_ms: i64,
    pub max_delay_ms: i64,
    pub status: ConnectionStatus,
    pub delay_ms: i64,
    pub next_check_ms: i64,
}

/// The delay after one more lost connection: doubled, but at most `max`.
pub open spec fn next_delay(delay: int, max: int) -> int {
    if 2 * delay < max {
        2 * delay
    } else {
        max
    }
}

/// The delay after `k` lost connections in a row, starting from `delay`.
pub open spec fn delay_after_losses(delay: int, max: int, k: nat) -> int
    decreases k,
{
    if k == 0 {
        delay
    } else {
        next_delay(delay_after_losses(delay, max, (k - 1) as nat), max)
    }
}

/// The error returned while waiting to reconnect.
pub open spec fn is_waiting_error(e: LightClientError) -> bool {
    e matches LightClientError::ConnectionLost { reason } && reason@ == "Waiting to reconnect"@
}

impl BackoffState {
    /// Whether an attempt at `now` is refused without trying.
    pub open spec fn refuses(self, now_ms: int) -> bool {
        now_ms < self.next_check_ms && self.status != ConnectionStatus::Healthy
    }

    /// The state a back-off starts in: healthy, with the start delay,
    /// checked first at `now_ms`.
    pub open spec fn initial(config: BackoffConfig, now_ms: i64) -> BackoffState {
        BackoffState {
            start_delay_ms: config.start_delay_ms,
            max_delay_ms: config.max_delay_ms,
            status: ConnectionStatus::Healthy,
            delay_ms: config.start_delay_ms,
            next_check_ms: now_ms,
        }
    }

    /// The state after an attempt at `now_ms` with the given outcome: a
    /// success makes the connection healthy, resets the delay and checks
    /// at once; a lost connection schedules the next check one delay ahead,
    /// marks the failure intermittent while the delay is under the maximum
    /// and prolonged once it has reached it, and doubles the delay up to
    /// the maximum; any other outcome changes nothing.
    pub open spec fn after_send_spec(self, now_ms: i64, outcome: Result<(), LightClientError>) -> BackoffState {
        match outcome {
            Ok(_) => BackoffState {
                start_delay_ms: self.start_delay_ms,
                max_delay_ms: self.max_delay_ms,
                status: ConnectionStatus::Healthy,
                delay_ms: self.start_delay_ms,
                next_check_ms: now_ms,
            },
            Err(LightClientError::ConnectionLost { .. }) => BackoffState {
                start_delay_ms: self.start_delay_ms,
                max_delay_ms: self.max_delay_ms,
                status: if self.delay_ms < self.max_delay_ms {
                    ConnectionStatus::IntermittentFailure
                } else {
                    ConnectionStatus::ProlongedFailure
                },
                delay_ms: next_delay(self.delay_ms as int, self.max_delay_ms as int) as i64,
                next_check_ms: (now_ms + self.delay_ms) as i64,
            },
            Err(_) => self,
        }
    }

    /// What an attempt at `now_ms` needs of the clock and the delay: after
    /// a lost connection the next check and the doubled delay are still
    /// times and delays.
    pub open spec fn send_in_range(self, now_ms: i64, outcome: Result<(), LightClientError>) -> bool {
        outcome matches Err(LightClientError::ConnectionLost { .. }) ==> {
            &&& i64::MIN <= now_ms + self.delay_ms <= i64::MAX
            &&& i64::MIN <= 2 * self.delay_ms <= i64::MAX
        }
    }

    /// A healthy back-off, with the start delay, checked first at `now_ms`.
    pub fn new(config: BackoffConfig, now_ms: i64) -> (b: BackoffState)
        ensures
            b == BackoffState::initial(config, now_ms),
    {
        BackoffState {
            start_delay_ms: config.start_delay_ms,
            max_delay_ms: config.max_delay_ms,
            status: ConnectionStatus::Healthy,
            delay_ms: config.start_delay_ms,
            next_check_ms: now_ms,
        }
    }

    /// Whether a frame may be sent at `now_ms`: refused (with the error
    /// "Waiting to reconnect") while the connection is failing and the
    /// next check is still ahead; allowed otherwise.
    pub fn before_send(&self, now_ms: i64) -> (r: Result<(), LightClientError>)
        ensures
            r is Ok <==> !self.refuses(now_ms as int),
            r matches Err(e) ==> is_waiting_error(e),
    {
        if now_ms < self.next_check_ms && self.status != ConnectionStatus::Healthy {
            Err(LightClientError::ConnectionLost { reason: String::from_str("Waiting to reconnect") })
        } else {
            Ok(())
        }
    }

    /// Records the outcome of an attempt made at `now_ms` (see
    /// `after_send_spec`) and gives the outcome to report: success and a
    /// lost connection (with its reason) are passed on, `ProcessExited` is
    /// passed on and `Unlikely` stays `Unlikely`.
    pub fn after_send(&mut self, now_ms: i64, outcome: Result<(), LightClientError>) -> (r: Result<
        (),
        LightClientError,
    >)
        requires
            old(self).send_in_range(now_ms, outcome),
        ensures
            *final(self) == old(self).after_send_spec(now_ms, outcome),
            match outcome {
                Ok(_) => r is Ok,
                Err(LightClientError::ConnectionLost { reason }) => r matches Err(
                    LightClientError::ConnectionLost { reason: r2 },
                ) && r2@ == reason@,
                Err(LightClientError::ProcessExited) => r matches Err(LightClientError::ProcessExited),
                Err(LightClientError::Unlikely) => r matches Err(LightClientError::Unlikely),
            },
    {
        match outcome {
            Ok(_) => {
                self.status = ConnectionStatus::Healthy;
                self.delay_ms = self.start_delay_ms;
                self.next_check_ms = now_ms;
                Ok(())
            },
            Err(LightClientError::ConnectionLost { reason }) => {
                self.next_check_ms = now_ms + self.delay_ms;
                if self.delay_ms < self.max_delay_ms {
                    self.status = ConnectionStatus::IntermittentFailure;
                } else {
                    self.status = ConnectionStatus::ProlongedFailure;
                }
                let doubled = self.delay_ms * 2;
                self.delay_ms = if doubled < self.max_delay_ms {
                    doubled
                } else {
                    self.max_delay_ms
                };
                Err(LightClientError::ConnectionLost { reason })
            },
            Err(LightClientError::ProcessExited) => Err(LightClientError::ProcessExited),
            Err(LightClientError::Unlikely) => Err(LightClientError::Unlikely),
        }
    }
}

/// The state after a sequence of attempts, each a clock reading and its
/// outcome, starting from `state`.
pub open spec fn state_after_sends(
    state: BackoffState,
    sends: Seq<(i64, Result<(), LightClientError>)>,
) -> BackoffState
    decreases sends.len(),
{
    if sends.len() == 0 {
        state
    } else {
        state_after_sends(state, sends.drop_last()).after_send_spec(sends.last().0, sends.last().1)
    }
}

/// With a start delay that is not negative and not above the maximum, the
/// delay stays between the start delay and the maximum however many
/// attempts were made and whatever their outcomes; the configured delays
/// never change.
pub proof fn lemma_delay_stays_within_bounds(
    config: BackoffConfig,
    now_ms: i64,
    sends: Seq<(i64, Result<(), LightClientError>)>,
)
    requires
        0 <= config.start_delay_ms <= config.max_delay_ms,
    ensures
        ({
            let s = state_after_sends(BackoffState::initial(config, now_ms), sends);
            &&& s.start_delay_ms == config.start_delay_ms
            &&& s.max_delay_ms == config.max_delay_ms
            &&& config.start_delay_ms <= s.delay_ms <= config.max_delay_ms
        }),
    decreases sends.len(),
{
    if sends.len() > 0 {
        lemma_delay_stays_within_bounds(config, now_ms, sends.drop_last());
    }
}

/// A lost connection doubles the delay, but never beyond the maximum,
/// schedules the next check one (old) delay ahead and marks the
/// connection as failing: intermittently while the old delay was under the
/// maximum, prolonged once it had reached it.
pub proof fn lemma_loss_doubles_delay(state: BackoffState, now_ms: i64, outcome: Result<(), LightClientError>)
    requires
        outcome matches Err(LightClientError::ConnectionLost { .. }),
        state.send_in_range(now_ms, outcome),
    ensures
        ({
            let after = state.after_send_spec(now_ms, outcome);
            &&& after.delay_ms == if 2 * state.delay_ms < state.max_delay_ms {
                2 * state.delay_ms
            } else {
                state.max_delay_ms as int
            }
            &&& after.next_check_ms == now_ms + state.delay_ms
            &&& after.status != ConnectionStatus::Healthy
            &&& (after.status == ConnectionStatus::ProlongedFailure <==> state.delay_ms
                >= state.max_delay_ms)
            &&& after.start_delay_ms == state.start_delay_ms
            &&& after.max_delay_ms == state.max_delay_ms
        }),
{
}

/// A successful send makes the connection healthy, puts the delay back to
/// the start delay and refuses no later attempt.
pub proof fn lemma_success_resets(state: BackoffState, now_ms: i64, later_ms: int)
    ensures
        ({
            let after = state.after_send_spec(now_ms, Ok(()));
            &&& after.status == ConnectionStatus::Healthy
            &&& after.delay_ms == state.start_delay_ms
            &&& !after.refuses(later_ms)
        }),
{
}

/// Whether every attempt of a sequence lost the connection.
pub open spec fn all_lost(sends: Seq<(i64, Result<(), LightClientError>)>) -> bool {
    forall|j: int| 0 <= j < sends.len() ==> #[trigger] sends[j].1 matches Err(
        LightClientError::ConnectionLost { .. },
    )
}

/// After `k` lost connections in a row from a fresh back-off whose start
/// delay is not negative and not above the maximum, the delay is the start
/// delay times `2^k`, capped at the maximum.
pub proof fn lemma_losses_double_from_start(
    config: BackoffConfig,
    now_ms: i64,
    sends: Seq<(i64, Result<(), LightClientError>)>,
)
    requires
        0 <= config.start_delay_ms <= config.max_delay_ms,
        all_lost(sends),
    ensures
        state_after_sends(BackoffState::initial(config, now_ms), sends).delay_ms == if config.start_delay_ms
            * pow2(sends.len()) < config.max_delay_ms {
            config.start_delay_ms * pow2(sends.len())
        } else {
            config.max_delay_ms as int
        },
{
    lemma_losses_follow_doubling(config, now_ms, sends);
    lemma_delay_doubles_up_to_max(
        config.start_delay_ms as int,
        config.max_delay_ms as int,
        sends.len(),
    );
}

proof fn lemma_losses_follow_doubling(
    config: BackoffConfig,
    now_ms: i64,
    sends: Seq<(i64, Result<(), LightClientError>)>,
)
    requires
        0 <= config.start_delay_ms <= config.max_delay_ms,
        all_lost(sends),
    ensures
        state_after_sends(BackoffState::initial(config, now_ms), sends).delay_ms == delay_after_losses(
            config.start_delay_ms as int,
            config.max_delay_ms as int,
            sends.len(),
        ),
    decreases sends.len(),
{
    if sends.len() > 0 {
        let prev = sends.drop_last();
        assert(all_lost(prev)) by {
            assert forall|j: int| 0 <= j < prev.len() implies #[trigger] prev[j].1 matches Err(
                LightClientError::ConnectionLost { .. },
            ) by {
                assert(prev[j] == sends[j]);
            }
        }
        lemma_losses_follow_doubling(config, now_ms, prev);
        lemma_delay_stays_within_bounds(config, now_ms, prev);
        assert(sends.last() == sends[sends.len() - 1]);
    }
}

/// An exited process and an unexpected error leave the back-off as it was.
pub proof fn lemma_other_failures_change_nothing(state: BackoffState, now_ms: i64, outcome: Result<(), LightClientError>)
    requires
        outcome matches Err(e) && !(e is ConnectionLost),
    ensures
        state.after_send_spec(now_ms, outcome) == state,
{
}

/// A healthy connection is never refused.
pub proof fn lemma_healthy_is_never_refused(state: BackoffState, now_ms: int)
    requires
        state.status == ConnectionStatus::Healthy,
    ensures
        !state.refuses(now_ms),
{
}

/// After a connection is lost at `now`, every attempt before `now` plus
/// the delay that was current at the loss is refused, and the first
/// attempt at or after that moment is allowed.
pub proof fn lemma_loss_refuses_until_delay_passed(
    before: BackoffState,
    now_ms: i64,
    outcome: Result<(), LightClientError>,
    later_ms: int,
)
    requires
        outcome matches Err(LightClientError::ConnectionLost { .. }),
        before.send_in_range(now_ms, outcome),
    ensures
        before.after_send_spec(now_ms, outcome).refuses(later_ms) <==> later_ms < now_ms
            + before.delay_ms,
{
}

/// Starting from a delay no larger than the maximum, after `k` lost
/// connections in a row the delay is the starting delay times `2^k`,
/// capped at the maximum.
pub proof fn lemma_delay_doubles_up_to_max(delay: int, max: int, k: nat)
    requires
        0 <= delay <= max,
    ensures
        delay_after_losses(delay, max, k) == if delay * pow2(k) < max {
            delay * pow2(k)
        } else {
            max
        },
    decreases k,
{
    if k == 0 {
        lemma_pow0(2);
        assert(pow2(0) == 1);
        assert(delay * pow2(0) == delay);
    } else {
        lemma_pow2_unfold(k);
        lemma_delay_doubles_up_to_max(delay, max, (k - 1) as nat);
        let p = pow2((k - 1) as nat);
        lemma_pow2_pos((k - 1) as nat);
        assert(delay * pow2(k) == 2 * (delay * p)) by (nonlinear_arith)
            requires
                pow2(k) == 2 * p,
        ;
        assert(0 <= delay * p) by (nonlinear_arith)
            requires
                0 <= delay,
                0 < p,
        ;
        let prev = delay_after_losses(delay, max, (k - 1) as nat);
        assert(delay_after_losses(delay, max, k) == next_delay(prev, max));
        if delay * p < max {
            assert(prev == delay * p);
        } else {
            assert(prev == max);
            assert(delay * pow2(k) >= max);
        }
    }
}

/// A delay that has reached the maximum stays there while losses go on.
pub proof fn lemma_max_delay_is_stable(max: int)
    requires
        0 <= max,
    ensures
        next_delay(max, max) == max,
{
}

} // verus!
