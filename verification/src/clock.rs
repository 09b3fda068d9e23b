//! A pausable, fixed-interval update clock. It remembers when it last
//! granted an update and grants the next one only once more than
//! `time_step` milliseconds of real time have elapsed; while paused it
//! grants nothing. The decision logic is pure: the current time enters it
//! only as a plain millisecond value.

use vstd::prelude::*;

verus! {

/// A fixed-interval gate over wall-clock time. Times are milliseconds
/// since the Unix epoch; `time_step` is the minimum interval, in
/// milliseconds, between two granted updates.
pub struct SimpleClock {
    pub last_update_time: i64,
    pub time_step: i64,
    pub is_paused: bool,
}

impl SimpleClock {
    /// The interval is a duration, so it is never negative. Established
    /// at construction and preserved by every operation.
    pub open spec fn well_formed(self) -> bool {
        0 <= self.time_step
    }

    /// True iff a query at time `now` is granted: the clock is running
    /// and strictly more than `time_step` milliseconds have elapsed since
    /// the last granted update.
    pub open spec fn grants(self, now: int) -> bool {
        !self.is_paused && now - self.last_update_time > self.time_step
    }

    /// The clock state after a query at time `now`: a granted query
    /// restarts the interval from `now`, a denied one changes nothing.
    pub open spec fn after_query(self, now: i64) -> SimpleClock {
        if self.grants(now as int) {
            SimpleClock { last_update_time: now, ..self }
        } else {
            self
        }
    }

    /// The clock state after a pause toggle: only `is_paused` flips.
    pub open spec fn pause_toggled(self) -> SimpleClock {
        SimpleClock { is_paused: !self.is_paused, ..self }
    }

    /// A new, unpaused clock whose interval starts at time `now`.
    pub fn new_at(time_step: i64, now: i64) -> (clock: SimpleClock)
        requires
            0 <= time_step,
        ensures
            clock.well_formed(),
            clock.last_update_time == now,
            clock.time_step == time_step,
            !clock.is_paused,
    {
        SimpleClock { last_update_time: now, time_step, is_paused: false }
    }

    /// A new, unpaused clock whose interval starts at the current time.
    pub fn new(time_step: i64) -> (clock: SimpleClock)
        requires
            0 <= time_step,
        ensures
            clock.well_formed(),
            clock.time_step == time_step,
            !clock.is_paused,
    {
        let now = now_millis();
        SimpleClock::new_at(time_step, now)
    }

    /// Whether the clock is paused.
    pub fn is_paused(&self) -> (paused: bool)
        ensures
            paused == self.is_paused,
    {
        self.is_paused
    }

    /// Inverts the pause state. The remembered time of the last granted
    /// update is untouched, so unpausing resumes gating with the interval
    /// still measured from that update.
    pub fn toggle_pause(&mut self)
        ensures
            *final(self) == old(self).pause_toggled(),
    {
        self.is_paused = !self.is_paused;
    }

    /// Decides a query at the given time: grants iff the clock is running
    /// and strictly more than `time_step` milliseconds have elapsed since
    /// the last granted update. A grant restarts the interval from `now`;
    /// a denial, in particular any query while paused, changes nothing.
    pub fn should_update_at(&mut self, now: i64) -> (granted: bool)
        ensures
            granted == old(self).grants(now as int),
            *final(self) == old(self).after_query(now),
    {
        if self.is_paused {
            return false;
        }
        let delta: i128 = now as i128 - self.last_update_time as i128;
        let granted = delta > self.time_step as i128;
        if granted {
            self.last_update_time = now;
        }
        granted
    }

    /// Decides a query at the current time. The time is read from the
    /// wall clock, so which decision falls cannot be promised; what holds
    /// of every outcome is: a paused clock never grants and is left
    /// untouched, a denied query changes nothing, and a grant only moves
    /// `last_update_time` (to the moment of the grant).
    pub fn should_update(&mut self) -> (granted: bool)
        ensures
            final(self).is_paused == old(self).is_paused,
            final(self).time_step == old(self).time_step,
            old(self).is_paused ==> !granted,
            !granted ==> *final(self) == *old(self),
            granted ==> !old(self).is_paused,
            old(self).well_formed() ==> final(self).well_formed(),
    {
        let now = now_millis();
        self.should_update_at(now)
    }
}

/// Relies on chrono::Local::now and chrono::DateTime::timestamp_millis:
/// the current wall-clock time as milliseconds since the Unix epoch. The
/// result depends on the machine's clock, so nothing is promised of it.
#[verifier::external_body]
fn now_millis() -> (now: i64) {
    chrono::Local::now().timestamp_millis()
}

/// A freshly constructed clock grants nothing at the moment of its
/// construction: no time has elapsed yet, and the elapsed time must
/// strictly exceed the (nonnegative) interval.
pub proof fn lemma_fresh_clock_denies(clock: SimpleClock, now: int)
    requires
        clock.well_formed(),
        clock.last_update_time == now,
    ensures
        !clock.grants(now),
{
}

/// Right after a grant the clock denies anew: another query at the same
/// instant is refused, because the interval restarted at the moment of
/// the grant.
pub proof fn lemma_gate_recloses_after_grant(clock: SimpleClock, now: i64)
    requires
        clock.well_formed(),
        clock.grants(now as int),
    ensures
        !clock.after_query(now).grants(now as int),
{
}

/// A paused clock grants nothing, however much time has elapsed, and a
/// query leaves it untouched.
pub proof fn lemma_paused_clock_denies(clock: SimpleClock, now: i64)
    requires
        clock.is_paused,
    ensures
        !clock.grants(now as int),
        clock.after_query(now) == clock,
{
}

/// Pausing and unpausing returns the clock to exactly its prior state: in
/// particular `last_update_time` is untouched, so gating resumes with the
/// interval measured from the last granted update, not from the pause or
/// unpause moment.
pub proof fn lemma_pause_round_trip(clock: SimpleClock, now: int)
    ensures
        clock.pause_toggled().pause_toggled() == clock,
        clock.pause_toggled().last_update_time == clock.last_update_time,
        clock.pause_toggled().pause_toggled().grants(now) == clock.grants(now),
{
}

} // verus!
