use pomoxide::config::{default_config, default_keybindings, Config, Keybindings};
use pomoxide::controller::{Controller, Event, Key};
use pomoxide::pomodoro::{Phase, Session};

#[test]
fn describe_sorts_bindings_lexicographically() {
    let controller = Controller::new(&default_config());
    assert_eq!(
        "Controls: Pause:s, Quit:q, Reset:d, Skip:f",
        controller.get_description()
    );
}

#[test]
fn bound_keys_trigger_their_operations() {
    let config = default_config();
    let controller = Controller::new(&config);
    let mut session = Session::new(config, 0);

    controller.handle_key(Key::Char('s'), &mut session, 0);
    assert!(!session.is_paused());
    controller.handle_key(Key::Char('s'), &mut session, 0);
    assert!(session.is_paused());

    controller.handle_key(Key::Char('f'), &mut session, 5);
    assert_eq!(Phase::Break, session.get_current_phase());

    session.toggle_pause();
    session.update(5 + 30_000);
    assert_eq!(5 * 60 - 30, session.get_time_remaining());
    controller.handle_key(Key::Char('d'), &mut session, 40_000);
    assert_eq!(5 * 60, session.get_time_remaining());
    assert_eq!(Phase::Break, session.get_current_phase());

    controller.handle_key(Key::Char('q'), &mut session, 50_000);
    assert!(!session.is_on());
}

#[test]
fn unbound_or_non_character_input_changes_nothing() {
    let config = default_config();
    let controller = Controller::new(&config);
    let mut session = Session::new(config, 0);
    session.toggle_pause();
    session.update(1234);
    let snapshot = session;

    controller.handle_key(Key::Char('x'), &mut session, 9999);
    assert_eq!(snapshot, session);
    controller.handle_key(Key::Other, &mut session, 9999);
    assert_eq!(snapshot, session);
    controller.handle_input(Event::Tick, &mut session, 9999);
    assert_eq!(snapshot, session);
}

#[test]
fn handle_input_forwards_key_presses() {
    let config = default_config();
    let controller = Controller::new(&config);
    let mut session = Session::new(config, 0);
    controller.handle_input(Event::Input(Key::Char('q')), &mut session, 0);
    assert!(!session.is_on());
}

#[test]
fn duplicate_binding_resolves_to_last_registered_control() {
    // Pause and quit share a key: quit is registered later and wins, both
    // for dispatch and in the rendered summary.
    let config = Config {
        work_duration: 25,
        break_duration: 5,
        keybindings: Keybindings {
            pause: 'x',
            quit: 'x',
            reset: 'd',
            skip: 'f',
        },
        show_bindings: true,
    };
    let controller = Controller::new(&config);
    assert_eq!(
        "Controls: Quit:x, Reset:d, Skip:f",
        controller.get_description()
    );
    let mut session = Session::new(config, 0);
    let was_paused = session.is_paused();
    controller.handle_key(Key::Char('x'), &mut session, 0);
    assert!(!session.is_on());
    assert_eq!(was_paused, session.is_paused());
}

#[test]
fn empty_binding_table_renders_bare_word() {
    assert_eq!("Controls", Controller::build_description(&Vec::new()));
}

#[test]
fn default_configuration_values() {
    let kb = default_keybindings();
    assert_eq!('s', kb.pause);
    assert_eq!('q', kb.quit);
    assert_eq!('d', kb.reset);
    assert_eq!('f', kb.skip);
    let config = default_config();
    assert_eq!(25, config.work_duration);
    assert_eq!(5, config.break_duration);
    assert_eq!(kb, config.keybindings);
    assert!(config.show_bindings);
}
