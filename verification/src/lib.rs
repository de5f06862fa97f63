//! Core of a terminal Pomodoro timer: alternating work ("tomato") and break
//! phases, pause-aware elapsed-time accounting driven by wall-clock samples
//! handed in as plain millisecond values, keybinding-driven control dispatch,
//! and the derived display strings.
//!
//! All time-dependent and effectful operations take the current wall-clock
//! reading as an argument and report phase completions as return values, so
//! the whole state machine is verified; the host loop samples the clock,
//! forwards key events, and fires the notification and sound effects.

pub mod config;
pub mod controller;
pub mod pomodoro;
pub mod presentation;
pub mod text;
