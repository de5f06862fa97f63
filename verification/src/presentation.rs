//! The display strings derived from a session each tick: remaining time as
//! `MM:SS`, the paused marker, the completed-work counter, and the phase
//! line. Pure string building; the terminal drawing that consumes these is
//! the host's business.

use crate::pomodoro::{Phase, Session};
use crate::text::{
    push_char, push_decimal, push_decimal_pad2, spec_decimal, spec_decimal_pad2,
};
use vstd::prelude::*;
use vstd::string::StringExecFns;

verus! {

/// One frame's worth of presentation strings.
pub struct Presentation {
    pub time_left: String,
    pub paused: String,
    pub tomatoes_done: String,
    pub phase: String,
    pub title: String,
}

/// The minutes shown for a remaining-seconds value: the whole minutes,
/// clipped to zero in the (physically unreachable) case that they do not
/// fit the display's word size.
pub open spec fn spec_display_minutes(seconds: int) -> int {
    if seconds / 60 > u64::MAX {
        0
    } else {
        seconds / 60
    }
}

/// The remaining-time line for a minutes/seconds pair, both zero-padded to
/// two digits.
pub open spec fn spec_time_string(minutes: int, seconds: int) -> Seq<char> {
    "Time left: "@ + spec_decimal_pad2(minutes) + seq![':'] + spec_decimal_pad2(seconds)
}

/// The remaining-time line for a whole remaining-seconds value.
pub open spec fn spec_time_left_string(seconds: int) -> Seq<char> {
    spec_time_string(spec_display_minutes(seconds), seconds % 60)
}

/// The completed-work counter line.
pub open spec fn spec_tomatoes_string(count: int) -> Seq<char> {
    "🍅 X "@ + spec_decimal(count)
}

/// The paused marker: the word when paused, nothing otherwise.
pub open spec fn spec_paused_string(is_paused: bool) -> Seq<char> {
    if is_paused {
        "Paused"@
    } else {
        Seq::empty()
    }
}

/// The phase line.
pub open spec fn spec_phase_string(phase: Phase) -> Seq<char> {
    match phase {
        Phase::Break => "You are on a break."@,
        Phase::Tomato => "You are working."@,
    }
}

/// Split a remaining-seconds value into display minutes and leftover
/// seconds.
pub fn time_in_minutes_and_seconds(seconds: u128) -> (r: (u64, u64))
    ensures
        r.0 == spec_display_minutes(seconds as int),
        r.1 == seconds as int % 60,
{
    let minutes_wide: u128 = seconds / 60;
    let minutes: u64 = if minutes_wide > u64::MAX as u128 {
        0
    } else {
        minutes_wide as u64
    };
    let secs: u64 = (seconds % 60) as u64;
    (minutes, secs)
}

/// Render a minutes/seconds pair as the remaining-time line.
pub fn time_to_string(time: (u64, u64)) -> (r: String)
    ensures
        r@ == spec_time_string(time.0 as int, time.1 as int),
{
    let mut value = String::from_str("Time left: ");
    push_decimal_pad2(&mut value, time.0);
    push_char(&mut value, ':');
    push_decimal_pad2(&mut value, time.1);
    value
}

/// Render a whole remaining-seconds value as the remaining-time line.
pub fn time_string_from_seconds(seconds: u128) -> (r: String)
    ensures
        r@ == spec_time_left_string(seconds as int),
{
    time_to_string(time_in_minutes_and_seconds(seconds))
}

/// Render the completed-work counter line.
pub fn tomatoes_done(count: u64) -> (r: String)
    ensures
        r@ == spec_tomatoes_string(count as int),
{
    let mut value = String::from_str("🍅 X ");
    push_decimal(&mut value, count);
    value
}

/// Render the paused marker.
pub fn paused_string(is_paused: bool) -> (r: String)
    ensures
        r@ == spec_paused_string(is_paused),
{
    if is_paused {
        String::from_str("Paused")
    } else {
        String::new()
    }
}

/// Render the phase line.
pub fn phase_string(phase: Phase) -> (r: String)
    ensures
        r@ == spec_phase_string(phase),
{
    match phase {
        Phase::Break => String::from_str("You are on a break."),
        Phase::Tomato => String::from_str("You are working."),
    }
}

impl Presentation {
    /// Derive the frame's strings from the session's observable state.
    pub fn new(session: &Session) -> (p: Presentation)
        ensures
            p.time_left@ == spec_time_left_string(session.timer_state.spec_time_remaining()),
            p.paused@ == spec_paused_string(session.timer_state.paused),
            p.tomatoes_done@ == spec_tomatoes_string(session.completed_tomatoes as int),
            p.phase@ == spec_phase_string(session.current_phase),
            p.title@ == "Pomodoro"@,
    {
        Presentation {
            time_left: time_string_from_seconds(session.get_time_remaining()),
            paused: paused_string(session.is_paused()),
            tomatoes_done: tomatoes_done(session.get_completed_tomatoes()),
            phase: phase_string(session.get_current_phase()),
            title: String::from_str("Pomodoro"),
        }
    }
}

} // verus!
