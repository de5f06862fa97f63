use pomoxide::config::default_config;
use pomoxide::pomodoro::{Phase, Session};
use pomoxide::presentation::{
    paused_string, phase_string, time_in_minutes_and_seconds, time_string_from_seconds,
    time_to_string, tomatoes_done, Presentation,
};

#[test]
fn time_splits_into_minutes_and_seconds() {
    assert_eq!((25, 0), time_in_minutes_and_seconds(1500));
    assert_eq!((1, 5), time_in_minutes_and_seconds(65));
    assert_eq!((0, 0), time_in_minutes_and_seconds(0));
    assert_eq!((0, 59), time_in_minutes_and_seconds(59));
}

#[test]
fn time_strings_are_zero_padded() {
    assert_eq!("Time left: 25:00", time_string_from_seconds(1500));
    assert_eq!("Time left: 01:05", time_string_from_seconds(65));
    assert_eq!("Time left: 00:00", time_string_from_seconds(0));
    assert_eq!("Time left: 00:09", time_string_from_seconds(9));
    // Wider values than the clock face are printed unpadded.
    assert_eq!("Time left: 120:30", time_string_from_seconds(7230));
    assert_eq!("Time left: 07:42", time_to_string((7, 42)));
}

#[test]
fn tomato_counter_renders_in_decimal() {
    assert_eq!("\u{1f345} X 0", tomatoes_done(0));
    assert_eq!("\u{1f345} X 3", tomatoes_done(3));
    assert_eq!("\u{1f345} X 12345", tomatoes_done(12345));
}

#[test]
fn paused_marker_shows_only_when_paused() {
    assert_eq!("Paused", paused_string(true));
    assert_eq!("", paused_string(false));
}

#[test]
fn phase_lines_name_the_phase() {
    assert_eq!("You are working.", phase_string(Phase::Tomato));
    assert_eq!("You are on a break.", phase_string(Phase::Break));
}

#[test]
fn presentation_of_a_fresh_session() {
    let session = Session::new(default_config(), 0);
    let pres = Presentation::new(&session);
    assert_eq!("Time left: 25:00", pres.time_left);
    assert_eq!("Paused", pres.paused);
    assert_eq!("\u{1f345} X 0", pres.tomatoes_done);
    assert_eq!("You are working.", pres.phase);
    assert_eq!("Pomodoro", pres.title);
}

#[test]
fn presentation_tracks_session_changes() {
    let mut session = Session::new(default_config(), 0);
    session.toggle_pause();
    session.update(65_000);
    let pres = Presentation::new(&session);
    assert_eq!("Time left: 23:55", pres.time_left);
    assert_eq!("", pres.paused);
}
