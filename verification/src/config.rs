//! Configuration values the timer core is built from: the two phase lengths
//! in minutes, the four single-character keybindings, and whether the binding
//! summary is shown. Reading and parsing a configuration file is the host's
//! business; the core only consumes the plain values and supplies the
//! defaults used when no configuration is available.

use vstd::prelude::*;

verus! {

/// The four single-character keybindings that drive a session.
#[derive(Clone, Copy, PartialEq, Eq, Structural, Debug)]
pub struct Keybindings {
    pub pause: char,
    pub quit: char,
    pub reset: char,
    pub skip: char,
}

/// Full configuration captured at session creation: phase lengths in
/// minutes, keybindings, and whether the binding summary is displayed.
#[derive(Clone, Copy, PartialEq, Eq, Structural, Debug)]
pub struct Config {
    pub work_duration: u64,
    pub break_duration: u64,
    pub keybindings: Keybindings,
    pub show_bindings: bool,
}

/// The default bindings as a specification-level value.
pub open spec fn spec_default_keybindings() -> Keybindings {
    Keybindings { pause: 's', quit: 'q', reset: 'd', skip: 'f' }
}

/// The default bindings: `s` pauses, `q` quits, `d` resets, `f` skips.
pub fn default_keybindings() -> (kb: Keybindings)
    ensures
        kb == spec_default_keybindings(),
{
    Keybindings { pause: 's', quit: 'q', reset: 'd', skip: 'f' }
}

/// The default configuration as a specification-level value.
pub open spec fn spec_default_config() -> Config {
    Config {
        work_duration: 25,
        break_duration: 5,
        keybindings: spec_default_keybindings(),
        show_bindings: true,
    }
}

/// The default configuration: 25-minute work phases, 5-minute breaks,
/// default keybindings, binding summary shown.
pub fn default_config() -> (c: Config)
    ensures
        c == spec_default_config(),
{
    Config {
        work_duration: 25,
        break_duration: 5,
        keybindings: default_keybindings(),
        show_bindings: true,
    }
}

} // verus!
