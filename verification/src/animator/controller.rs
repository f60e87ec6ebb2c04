//! Frame timing of the animation controller. The controller's loop asks
//! at each tick whether a frame is due; the decisions are made here from
//! the clock reading (milliseconds) and the animation's frame interval.

use vstd::prelude::*;

verus! {

/// One second, in milliseconds: the longest the loop waits between checks.
pub const ONE_SECOND_MS: i64 = 1000;

/// One day, in milliseconds: the wait until the next frame of an animation
/// that does not move.
pub const ONE_DAY_MS: i64 = 86_400_000;

/// The longest single sleep of the frame loop, in milliseconds.
pub const MAX_SLEEP_MS: i64 = 33;

/// When the last frame was shown and when the next one is due.
#[derive(Clone, Copy, Debug)]
pub struct FrameTiming {
    pub last_frame_ms: i64,
    pub next_frame_ms: i64,
}

/// What the loop does at a tick.
#[derive(Clone, Copy, Debug, PartialEq, Eq, Structural)]
pub enum PollStep {
    /// No frame is due; check again at the given time.
    TryLater(i64),
    /// A frame is due: advance the animation by `delta_ms` and render it;
    /// should that fail, check again at `retry_ms`.
    Advance { delta_ms: i64, retry_ms: i64 },
}

/// The earlier of the next frame and one second from now.
pub open spec fn check_time(timing: FrameTiming, now_ms: int) -> int {
    if timing.next_frame_ms < now_ms + ONE_SECOND_MS {
        timing.next_frame_ms as int
    } else {
        now_ms + ONE_SECOND_MS
    }
}

/// The clock readings `poll` accepts: far enough from the ends of the
/// `i64` range for a day to be added and for the time since the last frame
/// to be taken.
pub open spec fn poll_in_range(timing: FrameTiming, now_ms: int, interval_ms: Option<i64>) -> bool {
    &&& now_ms + ONE_DAY_MS <= i64::MAX
    &&& i64::MIN <= now_ms - timing.last_frame_ms <= i64::MAX
    &&& (interval_ms matches Some(d) ==> i64::MIN <= now_ms + d <= i64::MAX)
}

/// The decision at a tick and the timing after it; see `FrameTiming::poll`.
pub open spec fn poll_spec(timing: FrameTiming, now_ms: i64, interval_ms: Option<i64>) -> (
    FrameTiming,
    PollStep,
) {
    if now_ms < timing.next_frame_ms {
        (timing, PollStep::TryLater(check_time(timing, now_ms as int) as i64))
    } else {
        (
            FrameTiming {
                last_frame_ms: now_ms,
                next_frame_ms: match interval_ms {
                    Some(d) => (now_ms + d) as i64,
                    None => (now_ms + ONE_DAY_MS) as i64,
                },
            },
            PollStep::Advance {
                delta_ms: (now_ms - timing.last_frame_ms) as i64,
                retry_ms: check_time(timing, now_ms as int) as i64,
            },
        )
    }
}

impl FrameTiming {
    /// Timing for an animation just (re)started at `now_ms`: its first
    /// frame is due at once.
    pub fn start(now_ms: i64) -> (t: FrameTiming)
        ensures
            t.last_frame_ms == now_ms,
            t.next_frame_ms == now_ms,
    {
        FrameTiming { last_frame_ms: now_ms, next_frame_ms: now_ms }
    }

    /// Makes the next frame due at once (after new parameters were set).
    pub fn due_now(&mut self, now_ms: i64)
        ensures
            final(self).next_frame_ms == now_ms,
            final(self).last_frame_ms == old(self).last_frame_ms,
    {
        self.next_frame_ms = now_ms;
    }

    /// The decision at a tick at `now_ms`, for an animation whose frame
    /// interval is `interval_ms` (`None` for one that does not move).
    /// Before the next frame is due: wait until the next frame or one
    /// second, whichever is first, and change nothing. Otherwise: the next
    /// frame is due one interval later (a day later for a still
    /// animation), the animation advances by the time since the last frame,
    /// and now becomes the time of the last frame.
    pub fn poll(&mut self, now_ms: i64, interval_ms: Option<i64>) -> (step: PollStep)
        requires
            poll_in_range(*old(self), now_ms as int, interval_ms),
        ensures
            (*final(self), step) == poll_spec(*old(self), now_ms, interval_ms),
    {
        let in_one_second = if self.next_frame_ms < now_ms + ONE_SECOND_MS {
            self.next_frame_ms
        } else {
            now_ms + ONE_SECOND_MS
        };
        if now_ms < self.next_frame_ms {
            return PollStep::TryLater(in_one_second);
        }
        self.next_frame_ms = match interval_ms {
            Some(d) => now_ms + d,
            None => now_ms + ONE_DAY_MS,
        };
        let delta = now_ms - self.last_frame_ms;
        self.last_frame_ms = now_ms;
        PollStep::Advance { delta_ms: delta, retry_ms: in_one_second }
    }
}

/// How long the loop sleeps before the next check at `next_check_ms`: the
/// time left, but no less than zero and no more than 33 ms.
pub fn sleep_duration_ms(next_check_ms: i64, now_ms: i64) -> (d: i64)
    requires
        i64::MIN <= next_check_ms - now_ms <= i64::MAX,
    ensures
        d == if next_check_ms - now_ms < 0 {
            0
        } else if next_check_ms - now_ms > MAX_SLEEP_MS {
            MAX_SLEEP_MS as int
        } else {
            next_check_ms - now_ms
        },
        0 <= d <= MAX_SLEEP_MS,
{
    let left = next_check_ms - now_ms;
    if left < 0 {
        0
    } else if left > MAX_SLEEP_MS {
        MAX_SLEEP_MS
    } else {
        left
    }
}

/// A tick before the next frame is due changes nothing and waits at most
/// one second.
pub proof fn lemma_waiting_changes_nothing(timing: FrameTiming, now_ms: i64, interval_ms: Option<i64>)
    requires
        now_ms < timing.next_frame_ms,
        poll_in_range(timing, now_ms as int, interval_ms),
    ensures
        poll_spec(timing, now_ms, interval_ms).0 == timing,
        poll_spec(timing, now_ms, interval_ms).1 matches PollStep::TryLater(t) && now_ms < t
            <= now_ms + ONE_SECOND_MS,
{
}

/// While no frame is due, the loop is told to check again at the earlier
/// of the time the next frame is due and one second from now: never later
/// than the frame is due, and never more than a second ahead. A due frame
/// is rendered with the same fallback check time.
pub proof fn lemma_check_again_at_earlier_of_frame_and_second(
    timing: FrameTiming,
    now_ms: i64,
    interval_ms: Option<i64>,
)
    requires
        poll_in_range(timing, now_ms as int, interval_ms),
    ensures
        ({
            let step = poll_spec(timing, now_ms, interval_ms).1;
            let t = match step {
                PollStep::TryLater(t) => t,
                PollStep::Advance { retry_ms, .. } => retry_ms,
            };
            &&& (step is TryLater <==> now_ms < timing.next_frame_ms)
            &&& t <= timing.next_frame_ms
            &&& t <= now_ms + 1000
            &&& (t == timing.next_frame_ms || t == now_ms + 1000)
        }),
{
}

/// A due frame moves the next frame one interval past now (a day past now
/// for an animation that does not move) and advances the animation by the
/// time since the previous frame.
pub proof fn lemma_due_frame_schedules_next(timing: FrameTiming, now_ms: i64, interval_ms: Option<i64>)
    requires
        poll_in_range(timing, now_ms as int, interval_ms),
        timing.next_frame_ms <= now_ms,
    ensures
        ({
            let (after, step) = poll_spec(timing, now_ms, interval_ms);
            &&& step matches PollStep::Advance { delta_ms, .. } && delta_ms == now_ms
                - timing.last_frame_ms
            &&& after.last_frame_ms == now_ms
            &&& after.next_frame_ms == match interval_ms {
                Some(d) => now_ms + d,
                None => now_ms + 86_400_000,
            }
        }),
{
}

/// Frames of a moving animation are at least one interval apart: after a
/// frame at `t1` with interval `d`, every tick before `t1 + d` waits.
pub proof fn lemma_frames_one_interval_apart(
    timing: FrameTiming,
    t1: i64,
    d: i64,
    t2: i64,
    next_interval: Option<i64>,
)
    requires
        poll_in_range(timing, t1 as int, Some(d)),
        poll_spec(timing, t1, Some(d)).1 is Advance,
        t2 < t1 + d,
    ensures
        poll_spec(poll_spec(timing, t1, Some(d)).0, t2, next_interval).1 is TryLater,
{
}

/// The time an animation advances by is the time since its previous
/// frame: after a frame at `t1`, a frame at `t2` advances it by `t2 - t1`.
pub proof fn lemma_advance_is_time_since_last_frame(
    timing: FrameTiming,
    t1: i64,
    i1: Option<i64>,
    t2: i64,
    i2: Option<i64>,
)
    requires
        poll_in_range(timing, t1 as int, i1),
        poll_spec(timing, t1, i1).1 is Advance,
        poll_in_range(poll_spec(timing, t1, i1).0, t2 as int, i2),
        poll_spec(poll_spec(timing, t1, i1).0, t2, i2).1 is Advance,
    ensures
        poll_spec(poll_spec(timing, t1, i1).0, t2, i2).1 matches PollStep::Advance { delta_ms, .. }
            && delta_ms == t2 - t1,
{
}

} // verus!
