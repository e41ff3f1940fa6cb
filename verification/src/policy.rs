//! The reconnect policy: how long to wait between attempts, and when a resumption handle counts
//! as stale.
use std::time::Duration;
use vstd::prelude::*;

verus! {

/// The length of a duration in nanoseconds, as `Duration::as_nanos` reports it.
pub uninterp spec fn nanoseconds(duration: Duration) -> nat;

/// `Duration::from_millis`: as long as `millis` milliseconds.
pub assume_specification[ Duration::from_millis ](millis: u64) -> (duration: Duration)
    ensures
        nanoseconds(duration) == millis * 1_000_000,
;

/// Exponential backoff: the base delay, doubled each time, up to a maximum.
pub struct Backoff {
    current_ms: u64,
    base_ms: u64,
    max_ms: u64,
}

/// The state of a [`Backoff`], in milliseconds.
pub struct BackoffView {
    /// The next delay.
    pub current_ms: nat,
    pub base_ms: nat,
    pub max_ms: nat,
}

impl View for Backoff {
    type V = BackoffView;

    closed spec fn view(&self) -> BackoffView {
        BackoffView {
            current_ms: self.current_ms as nat,
            base_ms: self.base_ms as nat,
            max_ms: self.max_ms as nat,
        }
    }
}

/// The delay that follows a delay of `current` under the maximum `max`.
pub open spec fn doubled(current: nat, max: nat) -> nat {
    if 2 * current <= max {
        2 * current
    } else {
        max
    }
}

impl BackoffView {
    /// A backoff that has handed out nothing yet.
    pub open spec fn fresh(base_ms: nat, max_ms: nat) -> BackoffView {
        BackoffView { current_ms: base_ms, base_ms, max_ms }
    }

    /// The state once the backoff starts over.
    pub open spec fn restarted(self) -> BackoffView {
        BackoffView { current_ms: self.base_ms, ..self }
    }

    /// The state once the next delay has been handed out.
    pub open spec fn advanced(self) -> BackoffView {
        BackoffView { current_ms: doubled(self.current_ms, self.max_ms), ..self }
    }

    /// The state once `steps` delays have been handed out.
    pub open spec fn advanced_by(self, steps: nat) -> BackoffView
        decreases steps,
    {
        if steps == 0 {
            self
        } else {
            self.advanced_by((steps - 1) as nat).advanced()
        }
    }
}

impl Backoff {
    pub fn new(base_ms: u64, max_ms: u64) -> (backoff: Backoff)
        ensures
            backoff@ == (BackoffView {
                current_ms: base_ms as nat,
                base_ms: base_ms as nat,
                max_ms: max_ms as nat,
            }),
            backoff@ == BackoffView::fresh(base_ms as nat, max_ms as nat),
    {
        Backoff { current_ms: base_ms, base_ms, max_ms }
    }

    /// The next delay. The one after it is twice as long, up to the maximum.
    pub fn next_delay(&mut self) -> (delay: Duration)
        requires
            2 * old(self)@.current_ms <= u64::MAX,
        ensures
            nanoseconds(delay) == old(self)@.current_ms * 1_000_000,
            final(self)@ == old(self)@.advanced(),
    {
        let delay = Duration::from_millis(self.current_ms);
        let twice: u64 = self.current_ms * 2;
        self.current_ms = if twice <= self.max_ms {
            twice
        } else {
            self.max_ms
        };
        delay
    }

    /// Starts over from the base delay.
    pub fn reset(&mut self)
        ensures
            final(self)@ == (BackoffView { current_ms: old(self)@.base_ms, ..old(self)@ }),
            final(self)@ == old(self)@.restarted(),
    {
        self.current_ms = self.base_ms;
    }
}

/// Counts consecutive failures and says when the resumption handle, likely stale by then, should
/// be dropped.
pub struct ReconnectState {
    fails: u32,
    reset_handle_after: u32,
}

/// The state of a [`ReconnectState`].
pub struct ReconnectStateView {
    /// Failures since the last success.
    pub fails: nat,
    /// The number of failures from which on the handle is dropped; 0 for never.
    pub reset_handle_after: nat,
}

impl ReconnectStateView {
    /// A count that starts.
    pub open spec fn fresh(reset_handle_after: nat) -> ReconnectStateView {
        ReconnectStateView { fails: 0, reset_handle_after }
    }

    /// The count after this many more failures.
    pub open spec fn failed_times(self, times: nat) -> ReconnectStateView
        decreases times,
    {
        if times == 0 {
            self
        } else {
            self.failed_times((times - 1) as nat).failed()
        }
    }

    /// The count after one more failure.
    pub open spec fn failed(self) -> ReconnectStateView {
        ReconnectStateView { fails: self.fails + 1, ..self }
    }

    /// The count after a success.
    pub open spec fn succeeded(self) -> ReconnectStateView {
        ReconnectStateView { fails: 0, ..self }
    }

    /// Whether the handle counts as stale.
    pub open spec fn is_stale(self) -> bool {
        self.reset_handle_after != 0 && self.fails >= self.reset_handle_after
    }
}

impl View for ReconnectState {
    type V = ReconnectStateView;

    closed spec fn view(&self) -> ReconnectStateView {
        ReconnectStateView {
            fails: self.fails as nat,
            reset_handle_after: self.reset_handle_after as nat,
        }
    }
}

impl ReconnectState {
    pub fn new(reset_handle_after: u32) -> (state: ReconnectState)
        ensures
            state@ == (ReconnectStateView {
                fails: 0,
                reset_handle_after: reset_handle_after as nat,
            }),
            state@ == ReconnectStateView::fresh(reset_handle_after as nat),
    {
        ReconnectState { fails: 0, reset_handle_after }
    }

    /// Records a success: the count starts over.
    pub fn on_success(&mut self)
        ensures
            final(self)@ == (ReconnectStateView { fails: 0, ..old(self)@ }),
            final(self)@ == old(self)@.succeeded(),
    {
        self.fails = 0;
    }

    /// Records a failure; true when the caller should drop the handle.
    pub fn on_failure(&mut self) -> (drop_handle: bool)
        requires
            old(self)@.fails < u32::MAX,
        ensures
            final(self)@ == (ReconnectStateView { fails: old(self)@.fails + 1, ..old(self)@ }),
            drop_handle == (old(self)@.reset_handle_after != 0 && old(self)@.fails + 1
                >= old(self)@.reset_handle_after),
            final(self)@ == old(self)@.failed(),
            drop_handle == final(self)@.is_stale(),
    {
        self.fails = self.fails + 1;
        self.reset_handle_after != 0 && self.fails >= self.reset_handle_after
    }

    /// Failures recorded since the last success.
    pub fn failures(&self) -> (fails: u32)
        ensures
            fails == self@.fails,
    {
        self.fails
    }
}

/// The n-th delay, counted from 0: the first one as it stands, each later one doubled as often,
/// up to the maximum.
pub proof fn law_delays_double_up_to_the_maximum(backoff: BackoffView, steps: nat)
    ensures
        steps == 0 ==> backoff.advanced_by(steps) == backoff,
        steps > 0 ==> backoff.advanced_by(steps) == (BackoffView {
            current_ms: if backoff.current_ms * vstd::arithmetic::power2::pow2(steps)
                <= backoff.max_ms {
                backoff.current_ms * vstd::arithmetic::power2::pow2(steps)
            } else {
                backoff.max_ms
            },
            ..backoff
        }),
    decreases steps,
{
    if steps > 0 {
        let before = (steps - 1) as nat;
        let power = vstd::arithmetic::power2::pow2(before);
        law_delays_double_up_to_the_maximum(backoff, before);
        vstd::arithmetic::power2::lemma_pow2_unfold(steps);
        assert(backoff.current_ms * (2 * power) == 2 * (backoff.current_ms * power))
            by (nonlinear_arith);
        if before == 0 {
            vstd::arithmetic::power2::lemma2_to64();
            assert(backoff.current_ms * power == backoff.current_ms) by (nonlinear_arith)
                requires
                    power == 1,
            ;
        }
    }
}

/// No delay is longer than the longer of the first one and the maximum, so a backoff that could
/// hand out its first delay can hand out any number of them.
pub proof fn law_delays_stay_bounded(backoff: BackoffView, steps: nat)
    ensures
        backoff.advanced_by(steps).current_ms <= backoff.current_ms
            || backoff.advanced_by(steps).current_ms <= backoff.max_ms,
{
    law_delays_double_up_to_the_maximum(backoff, steps);
}

/// However many delays were handed out, a backoff that starts over is as good as new.
pub proof fn law_restart_is_as_good_as_new(base_ms: nat, max_ms: nat, steps: nat)
    ensures
        BackoffView::fresh(base_ms, max_ms).advanced_by(steps).restarted() == BackoffView::fresh(
            base_ms,
            max_ms,
        ),
        BackoffView::fresh(base_ms, max_ms).current_ms == base_ms,
{
    law_delays_double_up_to_the_maximum(BackoffView::fresh(base_ms, max_ms), steps);
}

/// The handle counts as stale from the set number of failures in a row on, never where that
/// number is 0, and not before a success has been followed by as many failures again.
pub proof fn law_handle_is_stale_after_enough_failures(
    reset_handle_after: nat,
    before: nat,
    times: nat,
)
    requires
        times > 0,
    ensures
        ReconnectStateView::fresh(reset_handle_after).failed_times(times).is_stale() <==> 0
            < reset_handle_after <= times,
        ReconnectStateView::fresh(reset_handle_after).failed_times(before).succeeded().failed_times(
            times,
        ).is_stale() <==> 0 < reset_handle_after <= times,
        ReconnectStateView::fresh(reset_handle_after).failed_times(before).succeeded()
            == ReconnectStateView::fresh(reset_handle_after),
{
    lemma_failed_times(ReconnectStateView::fresh(reset_handle_after), times);
    lemma_failed_times(ReconnectStateView::fresh(reset_handle_after), before);
}

proof fn lemma_failed_times(state: ReconnectStateView, times: nat)
    ensures
        state.failed_times(times) == (ReconnectStateView {
            fails: state.fails + times,
            ..state
        }),
    decreases times,
{
    if times > 0 {
        lemma_failed_times(state, (times - 1) as nat);
    }
}

} // verus!
