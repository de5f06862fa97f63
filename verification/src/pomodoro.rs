//! The timer core: `Phase`, the pause-aware countdown `TimerState`, and the
//! `Session` state machine that owns them.
//!
//! Time is modelled as wall-clock readings in milliseconds handed in by the
//! caller. Every transition is a pure function of the previous state and the
//! reading, so pause/resume accounting is exact however irregular the host
//! loop's polling is, and a clock that jumps backwards simply contributes a
//! zero delta.

use crate::config::Config;
use vstd::prelude::*;
use vstd::string::StringExecFns;

verus! {

/// The two alternating timer modes: a work phase ("tomato") or a break.
#[derive(Clone, Copy, PartialEq, Eq, Structural, Debug)]
pub enum Phase {
    Tomato,
    Break,
}

/// The phase that follows `phase` when it completes or is skipped.
pub open spec fn spec_other_phase(phase: Phase) -> Phase {
    match phase {
        Phase::Tomato => Phase::Break,
        Phase::Break => Phase::Tomato,
    }
}

/// The configured length of a phase in milliseconds: the work or break
/// minutes, times 60 000.
pub open spec fn phase_duration_millis(timer_type: Phase, config: Config) -> int {
    match timer_type {
        Phase::Break => config.break_duration * 60 * 1000,
        Phase::Tomato => config.work_duration * 60 * 1000,
    }
}

/// Countdown state for the current phase instance.
///
/// `time_elapsed_in_millis` accumulates only while unpaused, and only by the
/// wall-clock delta measured since `previous_checking_time`; it never
/// decreases. A fresh state always starts paused with zero elapsed time.
#[derive(Clone, Copy, PartialEq, Eq, Structural, Debug)]
pub struct TimerState {
    pub time_elapsed_in_millis: u128,
    pub paused: bool,
    pub previous_checking_time: u128,
    pub duration: u128,
}

impl TimerState {
    /// A fresh countdown for `timer_type` as a specification-level value:
    /// paused, zero elapsed time, sampled at `now`.
    pub open spec fn spec_new(timer_type: Phase, config: Config, now: u128) -> TimerState {
        TimerState {
            duration: phase_duration_millis(timer_type, config) as u128,
            paused: true,
            time_elapsed_in_millis: 0,
            previous_checking_time: now,
        }
    }

    /// The paused copy of `self`: only the flag changes.
    pub open spec fn spec_pause(self) -> TimerState {
        TimerState { paused: true, ..self }
    }

    /// The resumed copy of `self`: only the flag changes.
    pub open spec fn spec_resume(self) -> TimerState {
        TimerState { paused: false, ..self }
    }

    /// The wall-clock delta since the last sample, clipped to zero when the
    /// clock went backwards.
    pub open spec fn spec_delta(self, now: u128) -> int {
        if now >= self.previous_checking_time {
            now - self.previous_checking_time
        } else {
            0
        }
    }

    /// The elapsed time after a tick at `now`, as an unbounded integer:
    /// unchanged while paused, otherwise grown by the clock delta.
    pub open spec fn spec_updated_elapsed(self, now: u128) -> int {
        if self.paused {
            self.time_elapsed_in_millis as int
        } else {
            self.time_elapsed_in_millis + self.spec_delta(now)
        }
    }

    /// The state after a tick at `now`: elapsed time per
    /// `spec_updated_elapsed`, sample point moved to `now`, flag and
    /// duration unchanged.
    pub open spec fn spec_update(self, now: u128) -> TimerState {
        TimerState {
            time_elapsed_in_millis: self.spec_updated_elapsed(now) as u128,
            previous_checking_time: now,
            ..self
        }
    }

    /// Whole seconds left before the phase completes: never negative, zero
    /// once the elapsed time meets the duration.
    pub open spec fn spec_time_remaining(self) -> int {
        if self.time_elapsed_in_millis >= self.duration {
            0
        } else {
            (self.duration - self.time_elapsed_in_millis) / 1000
        }
    }

    /// Whether the phase has run for its full duration.
    pub open spec fn spec_finished(self) -> bool {
        self.time_elapsed_in_millis >= self.duration
    }

    /// A fresh countdown for `timer_type`: full configured duration, paused,
    /// zero elapsed time, sampled at `now`.
    pub fn new(timer_type: Phase, config: Config, now: u128) -> (r: TimerState)
        ensures
            r == TimerState::spec_new(timer_type, config, now),
    {
        let duration: u128 = match timer_type {
            Phase::Break => (config.break_duration as u128) * 60 * 1000,
            Phase::Tomato => (config.work_duration as u128) * 60 * 1000,
        };
        TimerState {
            duration: duration,
            paused: true,
            time_elapsed_in_millis: 0,
            previous_checking_time: now,
        }
    }

    /// Resume when paused, pause when running.
    pub fn toggle_pause(&self) -> (r: TimerState)
        ensures
            self.paused ==> r == self.spec_resume(),
            !self.paused ==> r == self.spec_pause(),
            r.time_elapsed_in_millis == self.time_elapsed_in_millis,
            r.paused == !self.paused,
    {
        if self.paused {
            self.resume()
        } else {
            self.pause()
        }
    }

    /// Stop accumulating: elapsed time and sample point are untouched.
    pub fn pause(&self) -> (r: TimerState)
        ensures
            r == self.spec_pause(),
    {
        TimerState {
            paused: true,
            time_elapsed_in_millis: self.time_elapsed_in_millis,
            previous_checking_time: self.previous_checking_time,
            duration: self.duration,
        }
    }

    /// Start accumulating again: elapsed time and sample point are
    /// untouched, so time spent paused is never counted.
    pub fn resume(&self) -> (r: TimerState)
        ensures
            r == self.spec_resume(),
    {
        TimerState {
            time_elapsed_in_millis: self.time_elapsed_in_millis,
            paused: false,
            previous_checking_time: self.previous_checking_time,
            duration: self.duration,
        }
    }

    /// One tick at wall-clock reading `now`. While paused only the sample
    /// point moves (so no paused interval is ever counted after a resume);
    /// while running the clock delta since the last sample is added, with a
    /// backwards clock contributing zero.
    pub fn update(&self, now: u128) -> (r: TimerState)
        requires
            self.spec_updated_elapsed(now) <= u128::MAX,
        ensures
            r == self.spec_update(now),
            r.time_elapsed_in_millis == self.spec_updated_elapsed(now),
            r.time_elapsed_in_millis >= self.time_elapsed_in_millis,
            r.paused == self.paused,
            r.duration == self.duration,
            r.previous_checking_time == now,
    {
        if self.paused {
            TimerState {
                time_elapsed_in_millis: self.time_elapsed_in_millis,
                paused: true,
                previous_checking_time: now,
                duration: self.duration,
            }
        } else {
            let delta: u128 = if now >= self.previous_checking_time {
                now - self.previous_checking_time
            } else {
                0
            };
            TimerState {
                time_elapsed_in_millis: self.time_elapsed_in_millis + delta,
                paused: false,
                previous_checking_time: now,
                duration: self.duration,
            }
        }
    }

    /// Whole seconds left: `max(0, duration - elapsed) / 1000`.
    pub fn get_time_remaining(&self) -> (r: u128)
        ensures
            r == self.spec_time_remaining(),
            r >= 0,
    {
        if self.time_elapsed_in_millis >= self.duration {
            0
        } else {
            (self.duration - self.time_elapsed_in_millis) / 1000
        }
    }

    /// Whether the elapsed time has reached the configured duration.
    pub fn is_finished(&self) -> (r: bool)
        ensures
            r == self.spec_finished(),
    {
        self.time_elapsed_in_millis >= self.duration
    }
}

/// The full life of the timer from start until quit: the current phase and
/// its countdown, the count of completed work phases, and the on/off flag.
///
/// Once `on` is false the session is terminal: every operation other than a
/// read leaves it unchanged.
#[derive(Clone, Copy, PartialEq, Eq, Structural, Debug)]
pub struct Session {
    pub completed_tomatoes: u64,
    pub current_phase: Phase,
    pub timer_state: TimerState,
    pub on: bool,
    pub config: Config,
}

impl Session {
    /// The session with the on/off flag cleared; nothing else changes.
    pub open spec fn spec_quit(self) -> Session {
        Session { on: false, ..self }
    }

    /// The session after a pause toggle: the countdown's flag flips when the
    /// session is on, and nothing happens when it is off.
    pub open spec fn spec_toggle_pause(self) -> Session {
        if !self.on {
            self
        } else if self.timer_state.paused {
            Session { timer_state: self.timer_state.spec_resume(), ..self }
        } else {
            Session { timer_state: self.timer_state.spec_pause(), ..self }
        }
    }

    /// The session after a reset at `now`: a fresh paused countdown for the
    /// same phase; phase and completed count are kept. Off: unchanged.
    pub open spec fn spec_reset(self, now: u128) -> Session {
        if !self.on {
            self
        } else {
            Session {
                timer_state: TimerState::spec_new(self.current_phase, self.config, now),
                ..self
            }
        }
    }

    /// The session after a skip at `now`: the opposite phase with a fresh
    /// paused countdown; the completed count is untouched. Off: unchanged.
    pub open spec fn spec_skip(self, now: u128) -> Session {
        if !self.on {
            self
        } else {
            Session {
                current_phase: spec_other_phase(self.current_phase),
                timer_state: TimerState::spec_new(
                    spec_other_phase(self.current_phase),
                    self.config,
                    now,
                ),
                ..self
            }
        }
    }

    /// The session after its current phase completes at `now`: the phase
    /// flips, a fresh paused countdown for the next phase replaces the old
    /// one, and a completed work phase — and only a work phase — bumps the
    /// completed count.
    pub open spec fn spec_complete_phase(self, now: u128) -> Session {
        match self.current_phase {
            Phase::Tomato => Session {
                completed_tomatoes: (self.completed_tomatoes + 1) as u64,
                current_phase: Phase::Break,
                timer_state: TimerState::spec_new(Phase::Break, self.config, now),
                ..self
            },
            Phase::Break => Session {
                current_phase: Phase::Tomato,
                timer_state: TimerState::spec_new(Phase::Tomato, self.config, now),
                ..self
            },
        }
    }

    /// The session after one tick at `now`: nothing when off; otherwise the
    /// countdown is ticked first, the phase completion follows when the
    /// ticked countdown has reached its duration, and the ticked countdown
    /// is stored when it has not.
    pub open spec fn spec_update(self, now: u128) -> Session {
        if !self.on {
            self
        } else if self.timer_state.spec_update(now).spec_finished() {
            self.spec_complete_phase(now)
        } else {
            Session { timer_state: self.timer_state.spec_update(now), ..self }
        }
    }

    /// A fresh session: on, no completed work phases, in a work phase with
    /// a full paused countdown sampled at `now`.
    pub fn new(config: Config, now: u128) -> (s: Session)
        ensures
            s.completed_tomatoes == 0,
            s.current_phase == Phase::Tomato,
            s.timer_state == TimerState::spec_new(Phase::Tomato, config, now),
            s.on == true,
            s.config == config,
    {
        Session {
            completed_tomatoes: 0,
            current_phase: Phase::Tomato,
            timer_state: TimerState::new(Phase::Tomato, config, now),
            on: true,
            config: config,
        }
    }

    /// Whether the session is still running; false only after `quit`.
    pub fn is_on(&self) -> (r: bool)
        ensures
            r == self.on,
    {
        self.on
    }

    /// Whether the current countdown is paused.
    pub fn is_paused(&self) -> (r: bool)
        ensures
            r == self.timer_state.paused,
    {
        self.timer_state.paused
    }

    /// Turn the session off for good; nothing else changes.
    pub fn quit(&mut self)
        ensures
            *final(self) == old(self).spec_quit(),
            !final(self).on,
            final(self).completed_tomatoes == old(self).completed_tomatoes,
            final(self).current_phase == old(self).current_phase,
            final(self).timer_state == old(self).timer_state,
            final(self).config == old(self).config,
    {
        self.on = false;
    }

    /// How many work phases have completed naturally so far.
    pub fn get_completed_tomatoes(&self) -> (r: u64)
        ensures
            r == self.completed_tomatoes,
    {
        return self.completed_tomatoes;
    }

    /// The phase the session is currently in.
    pub fn get_current_phase(&self) -> (r: Phase)
        ensures
            r == self.current_phase,
    {
        return self.current_phase;
    }

    /// One tick at wall-clock reading `now`: the countdown is ticked first,
    /// and the phase completes the moment the ticked countdown has reached
    /// its duration.
    ///
    /// On completion a finished work phase bumps the completed count by
    /// exactly one, a finished break never does, and either way the ticked
    /// countdown is discarded and the opposite phase starts with a full
    /// paused countdown. Otherwise the ticked countdown is stored. The
    /// completed phase is returned so the host can fire the notification
    /// and sound cues exactly once; `None` means no completion. A session
    /// that is off is left entirely unchanged.
    pub fn update(&mut self, now: u128) -> (finished: Option<Phase>)
        requires
            old(self).on ==> old(self).timer_state.spec_updated_elapsed(now) <= u128::MAX,
            old(self).on && old(self).timer_state.spec_update(now).spec_finished()
                && old(self).current_phase == Phase::Tomato
                ==> old(self).completed_tomatoes < u64::MAX,
        ensures
            *final(self) == old(self).spec_update(now),
            finished == (if old(self).on
                && old(self).timer_state.spec_update(now).spec_finished() {
                Some(old(self).current_phase)
            } else {
                Option::<Phase>::None
            }),
            !old(self).on ==> *final(self) == *old(self),
            final(self).on == old(self).on,
            final(self).config == old(self).config,
            finished == Some(Phase::Tomato)
                ==> final(self).completed_tomatoes == old(self).completed_tomatoes + 1,
            finished != Some(Phase::Tomato)
                ==> final(self).completed_tomatoes == old(self).completed_tomatoes,
            finished is None ==> final(self).current_phase == old(self).current_phase,
    {
        if !self.on {
            return None;
        }
        let ticked = self.timer_state.update(now);
        if ticked.is_finished() {
            let completed = self.handle_finished_phase(now);
            Some(completed)
        } else {
            self.timer_state = ticked;
            None
        }
    }

    /// The completion step of `update`: flip the phase, install a fresh
    /// paused countdown for it, and count a finished work phase. Returns the
    /// phase that completed, for the host's notification and sound cues.
    fn handle_finished_phase(&mut self, now: u128) -> (completed: Phase)
        requires
            old(self).on,
            old(self).current_phase == Phase::Tomato
                ==> old(self).completed_tomatoes < u64::MAX,
        ensures
            *final(self) == old(self).spec_complete_phase(now),
            completed == old(self).current_phase,
    {
        match self.current_phase {
            Phase::Tomato => {
                self.completed_tomatoes = self.completed_tomatoes + 1;
                self.current_phase = Phase::Break;
                self.timer_state = TimerState::new(Phase::Break, self.config, now);
                Phase::Tomato
            },
            Phase::Break => {
                self.current_phase = Phase::Tomato;
                self.timer_state = TimerState::new(Phase::Tomato, self.config, now);
                Phase::Break
            },
        }
    }

    /// Toggle the countdown's paused flag; elapsed time is untouched either
    /// way, and a session that is off is left unchanged.
    pub fn toggle_pause(&mut self)
        ensures
            *final(self) == old(self).spec_toggle_pause(),
            !old(self).on ==> *final(self) == *old(self),
            old(self).on ==> final(self).timer_state.paused
                == !old(self).timer_state.paused,
            final(self).timer_state.time_elapsed_in_millis
                == old(self).timer_state.time_elapsed_in_millis,
            final(self).completed_tomatoes == old(self).completed_tomatoes,
            final(self).current_phase == old(self).current_phase,
            final(self).on == old(self).on,
    {
        if !self.on {
            return;
        }
        self.timer_state = self.timer_state.toggle_pause();
    }

    /// Re-arm the current phase from the start: a fresh paused countdown
    /// with the full configured duration. The phase and the completed count
    /// are preserved, and a session that is off is left unchanged.
    pub fn reset(&mut self, now: u128)
        ensures
            *final(self) == old(self).spec_reset(now),
            !old(self).on ==> *final(self) == *old(self),
            final(self).completed_tomatoes == old(self).completed_tomatoes,
            final(self).current_phase == old(self).current_phase,
            final(self).on == old(self).on,
            old(self).on ==> final(self).timer_state
                == TimerState::spec_new(old(self).current_phase, old(self).config, now),
            old(self).on ==> final(self).timer_state.paused,
            old(self).on ==> final(self).timer_state.spec_time_remaining()
                == phase_duration_millis(old(self).current_phase, old(self).config) / 1000,
    {
        if !self.on {
            return;
        }
        self.timer_state = TimerState::new(self.current_phase, self.config, now);
    }

    /// Jump to the opposite phase with a fresh paused countdown: a manual
    /// override, so the completed count never moves and no completion is
    /// reported. A session that is off is left unchanged.
    pub fn skip(&mut self, now: u128)
        ensures
            *final(self) == old(self).spec_skip(now),
            !old(self).on ==> *final(self) == *old(self),
            final(self).completed_tomatoes == old(self).completed_tomatoes,
            final(self).on == old(self).on,
            old(self).on ==> final(self).current_phase
                == spec_other_phase(old(self).current_phase),
            old(self).on ==> final(self).timer_state
                == TimerState::spec_new(spec_other_phase(old(self).current_phase),
                    old(self).config, now),
    {
        if !self.on {
            return;
        }
        match self.current_phase {
            Phase::Tomato => {
                self.timer_state = TimerState::new(Phase::Break, self.config, now);
                self.current_phase = Phase::Break;
            },
            Phase::Break => {
                self.timer_state = TimerState::new(Phase::Tomato, self.config, now);
                self.current_phase = Phase::Tomato;
            },
        }
    }

    /// Whole seconds left in the current phase.
    pub fn get_time_remaining(&self) -> (r: u128)
        ensures
            r == self.timer_state.spec_time_remaining(),
    {
        self.timer_state.get_time_remaining()
    }
}

/// The notification text asked for when `finished` completes naturally:
/// a finished work phase proposes the break, and the other way round.
pub open spec fn spec_completion_message(finished: Phase) -> Seq<char> {
    match finished {
        Phase::Tomato => "Start a break?"@,
        Phase::Break => "Start working?"@,
    }
}

/// The timer after a whole run of ticks, one per wall-clock reading in
/// `times`, in order.
pub open spec fn spec_run_updates(t: TimerState, times: Seq<u128>) -> TimerState
    decreases times.len(),
{
    if times.len() == 0 {
        t
    } else {
        spec_run_updates(t.spec_update(times[0]), times.drop_first())
    }
}

/// Law: while unpaused, a run of ticks with non-decreasing wall-clock
/// readings accumulates exactly the wall-clock span from the timer's last
/// sample point to the last reading — whatever the polling cadence was.
pub proof fn lemma_unpaused_updates_accumulate(t: TimerState, times: Seq<u128>)
    requires
        !t.paused,
        times.len() > 0,
        t.previous_checking_time <= times[0],
        forall|i: int, j: int| 0 <= i <= j < times.len() ==> times[i] <= times[j],
        t.time_elapsed_in_millis + times.last() - t.previous_checking_time <= u128::MAX,
    ensures
        spec_run_updates(t, times).time_elapsed_in_millis
            == t.time_elapsed_in_millis + (times.last() - t.previous_checking_time),
        spec_run_updates(t, times).previous_checking_time == times.last(),
        !spec_run_updates(t, times).paused,
        spec_run_updates(t, times).duration == t.duration,
    decreases times.len(),
{
    let t1 = t.spec_update(times[0]);
    assert(times[0] <= times.last());
    assert(t.spec_updated_elapsed(times[0]) <= u128::MAX);
    assert(t1.time_elapsed_in_millis
        == t.time_elapsed_in_millis + (times[0] - t.previous_checking_time));
    if times.len() == 1 {
        assert(times.last() == times[0]);
        assert(times.drop_first().len() == 0);
        assert(spec_run_updates(t1, times.drop_first()) == t1);
        assert(spec_run_updates(t, times) == t1);
    } else {
        let rest = times.drop_first();
        assert(rest.last() == times.last());
        assert forall|i: int, j: int| 0 <= i <= j < rest.len() implies rest[i] <= rest[j] by {
            assert(rest[i] == times[i + 1]);
            assert(rest[j] == times[j + 1]);
        }
        assert(rest[0] == times[1]);
        lemma_unpaused_updates_accumulate(t1, rest);
        assert(spec_run_updates(t, times) == spec_run_updates(t1, rest));
    }
}

/// Law: while paused, no run of ticks — however much wall-clock time the
/// readings span — advances the elapsed time, and the timer stays paused.
pub proof fn lemma_paused_updates_do_not_advance(t: TimerState, times: Seq<u128>)
    requires
        t.paused,
    ensures
        spec_run_updates(t, times).time_elapsed_in_millis == t.time_elapsed_in_millis,
        spec_run_updates(t, times).paused,
        spec_run_updates(t, times).duration == t.duration,
    decreases times.len(),
{
    if times.len() > 0 {
        lemma_paused_updates_do_not_advance(t.spec_update(times[0]), times.drop_first());
    }
}

/// Law: a pause, any run of ticks while paused, then a resume hands back a
/// running timer with exactly the elapsed time the original had — so pause
/// and resume cycles never leak paused wall-clock time into the count.
pub proof fn lemma_pause_resume_cycle_preserves_elapsed(t: TimerState, times: Seq<u128>)
    ensures
        spec_run_updates(t.spec_pause(), times).spec_resume().time_elapsed_in_millis
            == t.time_elapsed_in_millis,
        !spec_run_updates(t.spec_pause(), times).spec_resume().paused,
        spec_run_updates(t.spec_pause(), times).spec_resume().duration == t.duration,
{
    lemma_paused_updates_do_not_advance(t.spec_pause(), times);
}

/// Law: the remaining seconds are never negative, never grow under a tick,
/// stay put under a tick while paused, and are exactly zero once the
/// elapsed time has reached the duration.
pub proof fn lemma_time_remaining_monotonic(t: TimerState, now: u128)
    requires
        t.spec_updated_elapsed(now) <= u128::MAX,
    ensures
        t.spec_time_remaining() >= 0,
        t.spec_update(now).spec_time_remaining() <= t.spec_time_remaining(),
        t.paused ==> t.spec_update(now).spec_time_remaining() == t.spec_time_remaining(),
        t.spec_finished() ==> t.spec_time_remaining() == 0,
        t.spec_update(now).spec_finished()
            ==> t.spec_update(now).spec_time_remaining() == 0,
{
    let t1 = t.spec_update(now);
    if !t1.spec_finished() {
        vstd::arithmetic::div_mod::lemma_div_is_ordered(
            t1.duration - t1.time_elapsed_in_millis,
            t.duration - t.time_elapsed_in_millis,
            1000,
        );
    }
}

/// One control or tick operation on a session, for stating laws about whole
/// runs of operations. `Update` consumes the paired wall-clock reading, as
/// `Reset` and `Skip` do.
#[derive(Clone, Copy, PartialEq, Eq, Structural, Debug)]
pub enum SessionOp {
    TogglePause,
    Quit,
    Reset,
    Skip,
    Update,
}

/// The session after one operation, paired with the wall-clock reading the
/// time-taking operations use.
pub open spec fn spec_apply_op(s: Session, op: SessionOp, now: u128) -> Session {
    match op {
        SessionOp::TogglePause => s.spec_toggle_pause(),
        SessionOp::Quit => s.spec_quit(),
        SessionOp::Reset => s.spec_reset(now),
        SessionOp::Skip => s.spec_skip(now),
        SessionOp::Update => s.spec_update(now),
    }
}

/// The session after a whole run of operations, in order.
pub open spec fn spec_run_ops(s: Session, ops: Seq<(SessionOp, u128)>) -> Session
    decreases ops.len(),
{
    if ops.len() == 0 {
        s
    } else {
        spec_run_ops(spec_apply_op(s, ops[0].0, ops[0].1), ops.drop_first())
    }
}

/// Law: quitting is permanent. Once a session is off, no run of further
/// operations — ticks too — turns it back on or changes any other
/// observable state.
pub proof fn lemma_quit_is_permanent(s: Session, ops: Seq<(SessionOp, u128)>)
    requires
        !s.on,
    ensures
        spec_run_ops(s, ops) == s,
    decreases ops.len(),
{
    if ops.len() > 0 {
        assert(spec_apply_op(s, ops[0].0, ops[0].1) == s);
        lemma_quit_is_permanent(s, ops.drop_first());
    }
}

/// The notification text for a natural completion of `finished`.
pub fn completion_message(finished: Phase) -> (r: String)
    ensures
        r@ == spec_completion_message(finished),
{
    match finished {
        Phase::Tomato => String::from_str("Start a break?"),
        Phase::Break => String::from_str("Start working?"),
    }
}

} // verus!
