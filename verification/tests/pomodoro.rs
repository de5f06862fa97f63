use pomoxide::config::default_config;
use pomoxide::pomodoro::{completion_message, Phase, Session, TimerState};

#[test]
fn test_timerstate_new() {
    let br = TimerState::new(Phase::Break, default_config(), 0);
    assert_eq!(5 * 60 * 1000, br.duration);
    let tomato = TimerState::new(Phase::Tomato, default_config(), 0);
    assert_eq!(25 * 60 * 1000, tomato.duration);
}

#[test]
fn test_timerstate_pause_and_resume() {
    let mut state = TimerState::new(Phase::Tomato, default_config(), 0);
    assert_eq!(true, state.paused);
    state = state.resume();
    assert_eq!(false, state.paused);
    state = state.pause();
    assert_eq!(true, state.paused);
}

#[test]
fn timerstate_full_work_phase_countdown() {
    let state = TimerState::new(Phase::Tomato, default_config(), 0);
    assert_eq!(1500, state.get_time_remaining());
    // While paused, wall-clock time passing changes nothing but the sample.
    let still_paused = state.update(1_500_000);
    assert_eq!(1500, still_paused.get_time_remaining());
    assert_eq!(0, still_paused.time_elapsed_in_millis);
    // Once resumed, the same span finishes the phase exactly.
    let finished = still_paused.resume().update(1_500_000 + 1_500_000);
    assert!(finished.is_finished());
    assert_eq!(0, finished.get_time_remaining());
}

#[test]
fn timerstate_accumulates_deltas_between_samples() {
    let state = TimerState::new(Phase::Tomato, default_config(), 100);
    let running = state.resume();
    let after_first = running.update(400);
    assert_eq!(300, after_first.time_elapsed_in_millis);
    let after_second = after_first.update(1000);
    assert_eq!(900, after_second.time_elapsed_in_millis);
    assert_eq!(1000, after_second.previous_checking_time);
}

#[test]
fn timerstate_tolerates_clock_going_backwards() {
    let state = TimerState::new(Phase::Tomato, default_config(), 1000);
    let running = state.resume().update(3000);
    assert_eq!(2000, running.time_elapsed_in_millis);
    let rewound = running.update(500);
    assert_eq!(2000, rewound.time_elapsed_in_millis);
    assert_eq!(500, rewound.previous_checking_time);
}

#[test]
fn timerstate_pause_drops_time_spent_paused() {
    let state = TimerState::new(Phase::Tomato, default_config(), 0);
    let running = state.resume().update(1000);
    assert_eq!(1000, running.time_elapsed_in_millis);
    let paused = running.pause();
    // Hours pass while paused; ticks keep moving the sample point only.
    let parked = paused.update(5_000_000).update(9_000_000);
    assert_eq!(1000, parked.time_elapsed_in_millis);
    // Resuming and ticking counts only time after the last paused sample.
    let resumed = parked.resume().update(9_000_250);
    assert_eq!(1250, resumed.time_elapsed_in_millis);
}

#[test]
fn timerstate_toggle_pause_flips_only_the_flag() {
    let state = TimerState::new(Phase::Break, default_config(), 7);
    let toggled = state.toggle_pause();
    assert!(!toggled.paused);
    assert_eq!(state.time_elapsed_in_millis, toggled.time_elapsed_in_millis);
    assert_eq!(state.previous_checking_time, toggled.previous_checking_time);
    let back = toggled.toggle_pause();
    assert!(back.paused);
}

#[test]
fn session_work_completion_counts_one_tomato() {
    let mut session = Session::new(default_config(), 0);
    assert!(session.is_on());
    assert!(session.is_paused());
    session.toggle_pause();
    // Drive the simulated clock until the work phase has fully elapsed.
    let mut now: u128 = 0;
    let mut completed = None;
    while completed.is_none() {
        now += 60_000;
        completed = session.update(now);
    }
    assert_eq!(Some(Phase::Tomato), completed);
    assert_eq!(1, session.get_completed_tomatoes());
    assert_eq!(Phase::Break, session.get_current_phase());
    assert!(session.is_paused());
    assert_eq!(5 * 60, session.get_time_remaining());
}

#[test]
fn session_break_completion_counts_nothing() {
    let mut session = Session::new(default_config(), 0);
    session.skip(0);
    assert_eq!(Phase::Break, session.get_current_phase());
    session.toggle_pause();
    // The tick that brings the break timer to its duration completes it.
    let completed = session.update(5 * 60 * 1000);
    assert_eq!(Some(Phase::Break), completed);
    assert_eq!(0, session.get_completed_tomatoes());
    assert_eq!(Phase::Tomato, session.get_current_phase());
    assert_eq!(25 * 60, session.get_time_remaining());
}

#[test]
fn completion_triggers_on_the_reaching_tick() {
    let mut session = Session::new(default_config(), 0);
    session.toggle_pause();
    // One millisecond short: no completion yet, though the whole-second
    // display already reads zero.
    assert_eq!(None, session.update(1_499_999));
    assert_eq!(0, session.get_completed_tomatoes());
    assert_eq!(Phase::Tomato, session.get_current_phase());
    assert_eq!(0, session.get_time_remaining());
    // The tick on which elapsed time reaches the duration completes the
    // work phase at once.
    assert_eq!(Some(Phase::Tomato), session.update(1_500_000));
    assert_eq!(1, session.get_completed_tomatoes());
    assert_eq!(Phase::Break, session.get_current_phase());
    assert!(session.is_paused());
    assert_eq!(5 * 60, session.get_time_remaining());
}

#[test]
fn session_skip_never_changes_completed_tomatoes() {
    let mut session = Session::new(default_config(), 0);
    session.skip(10);
    assert_eq!(0, session.get_completed_tomatoes());
    assert_eq!(Phase::Break, session.get_current_phase());
    assert_eq!(5 * 60, session.get_time_remaining());
    assert!(session.is_paused());
    session.skip(20);
    assert_eq!(0, session.get_completed_tomatoes());
    assert_eq!(Phase::Tomato, session.get_current_phase());
    assert_eq!(25 * 60, session.get_time_remaining());
}

#[test]
fn session_reset_restores_full_duration_same_phase() {
    let mut session = Session::new(default_config(), 0);
    session.toggle_pause();
    session.update(90_000);
    assert_eq!(25 * 60 - 90, session.get_time_remaining());
    session.reset(90_000);
    assert_eq!(25 * 60, session.get_time_remaining());
    assert_eq!(Phase::Tomato, session.get_current_phase());
    assert_eq!(0, session.get_completed_tomatoes());
    assert!(session.is_paused());
}

#[test]
fn session_quit_is_permanent_and_freezes_state() {
    let mut session = Session::new(default_config(), 0);
    session.toggle_pause();
    session.update(1000);
    session.quit();
    assert!(!session.is_on());
    let frozen = session;
    session.update(2000);
    session.toggle_pause();
    session.reset(3000);
    session.skip(4000);
    assert!(!session.is_on());
    assert_eq!(frozen, session);
}

#[test]
fn completion_messages_propose_the_next_phase() {
    assert_eq!("Start a break?", completion_message(Phase::Tomato));
    assert_eq!("Start working?", completion_message(Phase::Break));
}
