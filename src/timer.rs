use vstd::prelude::*;

verus! {

/// What a countdown timer holds. Times are milliseconds on a monotonic clock
/// that the caller reads.
pub struct TimerView {
    pub seconds: u32,
    pub form_open: bool,
    pub running: bool,
    pub last_decrement: Option<u64>,
}

/// The state a cancelled timer is left in.
pub open spec fn cancelled(t: TimerView) -> TimerView {
    TimerView { seconds: 0, form_open: false, running: false, ..t }
}

/// Countdown before a delayed capture.
pub struct Timer {
    seconds: u32,
    timer_form_open: bool,
    is_timer_running: bool,
    last_decrement_time: Option<u64>,
}

impl View for Timer {
    type V = TimerView;

    closed spec fn view(&self) -> TimerView {
        TimerView {
            seconds: self.seconds,
            form_open: self.timer_form_open,
            running: self.is_timer_running,
            last_decrement: self.last_decrement_time,
        }
    }
}

impl Timer {
    pub fn new() -> (r: Self)
        ensures
            r@ == (TimerView { seconds: 0, form_open: false, running: false, last_decrement: None }),
    {
        Timer {
            seconds: 0,
            timer_form_open: false,
            is_timer_running: false,
            last_decrement_time: None,
        }
    }

    /// The countdown has run out: stop it at zero.
    pub fn handle_negative_timer(&mut self)
        ensures
            final(self)@ == (TimerView { seconds: 0, running: false, ..old(self)@ }),
    {
        self.seconds = 0;
        self.is_timer_running = false;
    }

    /// One more second has passed.
    pub fn handle_positive_timer(&mut self)
        requires
            old(self)@.seconds > 0,
        ensures
            final(self)@ == (TimerView { seconds: (old(self)@.seconds - 1) as u32, ..old(self)@ }),
    {
        self.seconds = self.seconds - 1;
    }

    /// Starts counting down from the current number of seconds at time `now`.
    pub fn start_timer(&mut self, now: u64)
        ensures
            final(self)@ == (TimerView {
                form_open: false,
                running: true,
                last_decrement: Some(now),
                ..old(self)@
            }),
    {
        self.timer_form_open = false;
        self.is_timer_running = true;
        self.last_decrement_time = Some(now);
    }

    pub fn cancel_timer(&mut self)
        ensures
            final(self)@ == cancelled(old(self)@),
    {
        self.timer_form_open = false;
        self.seconds = 0;
        self.is_timer_running = false;
    }

    pub fn is_timer_running(&self) -> (r: bool)
        ensures
            r == self@.running,
    {
        self.is_timer_running
    }

    pub fn get_seconds(&self) -> (r: u32)
        ensures
            r == self@.seconds,
    {
        self.seconds
    }

    pub fn open_timer_form(&mut self)
        ensures
            final(self)@ == (TimerView { form_open: true, ..old(self)@ }),
    {
        self.timer_form_open = true;
    }

    pub fn is_timer_form_open(&self) -> (r: bool)
        ensures
            r == self@.form_open,
    {
        self.timer_form_open
    }

    pub fn close_timer_form(&mut self)
        ensures
            final(self)@ == (TimerView { form_open: false, ..old(self)@ }),
    {
        self.timer_form_open = false;
    }

    /// Sets the number of seconds to count down from.
    pub fn set_seconds(&mut self, seconds: u32)
        ensures
            final(self)@ == (TimerView { seconds, ..old(self)@ }),
    {
        self.seconds = seconds;
    }

    /// Records `now` as the time of the last tick.
    pub fn set_last_decrement(&mut self, now: u64)
        ensures
            final(self)@ == (TimerView { last_decrement: Some(now), ..old(self)@ }),
    {
        self.last_decrement_time = Some(now);
    }

    pub fn last_decrement(&self) -> (r: Option<u64>)
        ensures
            r == self@.last_decrement,
    {
        self.last_decrement_time
    }
}

/// Cancelling a timer twice leaves it as cancelling it once does: stopped,
/// at zero seconds, with its form closed.
pub proof fn lemma_cancel_timer_idempotent(t: TimerView)
    ensures
        cancelled(cancelled(t)) == cancelled(t),
        cancelled(t).seconds == 0,
        !cancelled(t).form_open,
        !cancelled(t).running,
{
}

} // verus!
