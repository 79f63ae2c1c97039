use dual_deck::controller::{
    battery_percentage, map_gamepad_button, trigger_button, validate_config, ButtonNormalizer, ButtonState,
    ControllerAxis, ControllerButton, ControllerError, DigitalLatch, EventCounters, GamepadButton,
    NormalizedButton, SendResult, SinkAction,
};

fn normalizer() -> ButtonNormalizer {
    ButtonNormalizer::new(false)
}

/// The trigger comparisons of the default thresholds (press at 0.55,
/// release at 0.45) for a raw trigger reading.
fn levels(raw: i16) -> (bool, bool) {
    let value = f32::from(raw.max(0)) / f32::from(i16::MAX);
    (value >= 0.55, value <= 0.45)
}

fn trigger(state: &mut ButtonNormalizer, raw: i16, ts: u64) -> Option<NormalizedButton> {
    let (above, below) = levels(raw);
    state.trigger(ControllerAxis::L2, above, below, ts)
}

#[test]
fn digital_buttons_are_edge_triggered_with_original_timestamps() {
    let mut state = normalizer();

    let pressed = state.button(ControllerButton::Triangle, true, 123).unwrap();
    assert_eq!(pressed.timestamp_ns, 123);
    assert_eq!(pressed.button, ControllerButton::Triangle);
    assert_eq!(pressed.state, ButtonState::Pressed);
    assert!(state.button(ControllerButton::Triangle, true, 124).is_none());

    let released = state.button(ControllerButton::Triangle, false, 456).unwrap();
    assert_eq!(released.timestamp_ns, 456);
    assert_eq!(released.button, ControllerButton::Triangle);
    assert_eq!(released.state, ButtonState::Released);
}

#[test]
fn trigger_hysteresis_rejects_threshold_chatter() {
    let mut state = normalizer();

    assert!(trigger(&mut state, 17_000, 10).is_none());
    let pressed = trigger(&mut state, 19_000, 20);
    assert_eq!(
        pressed,
        Some(NormalizedButton { timestamp_ns: 20, button: ControllerButton::L2, state: ButtonState::Pressed })
    );
    assert!(trigger(&mut state, 16_000, 30).is_none());
    let released = trigger(&mut state, 14_000, 40);
    assert_eq!(
        released,
        Some(NormalizedButton { timestamp_ns: 40, button: ControllerButton::L2, state: ButtonState::Released })
    );
}

#[test]
fn pause_keeps_input_observation_active_without_synthetic_edges() {
    let mut state = normalizer();

    state.button(ControllerButton::Cross, true, 1).unwrap();
    assert!(state.set_paused(true).is_empty());
    assert!(state.pressed_buttons().contains(&ControllerButton::Cross));
    let released = state.button(ControllerButton::Cross, false, 3).unwrap();
    assert_eq!(released.state, ButtonState::Released);
    state.set_paused(false);
    assert_eq!(state.button(ControllerButton::Cross, true, 5).unwrap().state, ButtonState::Pressed);
}

#[test]
fn positional_face_buttons_use_playstation_names() {
    assert_eq!(map_gamepad_button(GamepadButton::North), Some(ControllerButton::Triangle));
    assert_eq!(map_gamepad_button(GamepadButton::East), Some(ControllerButton::Circle));
    assert_eq!(map_gamepad_button(GamepadButton::South), Some(ControllerButton::Cross));
    assert_eq!(map_gamepad_button(GamepadButton::West), Some(ControllerButton::Square));
}

#[test]
fn unsupported_extra_buttons_are_ignored() {
    assert_eq!(map_gamepad_button(GamepadButton::RightPaddle1), None);
}

#[test]
fn a_final_loss_reconciles_without_another_controller_event() {
    let mut events = EventCounters::new();
    assert_eq!(events.next_sequence(), 1);
    assert_eq!(events.lossy_sent(SendResult::Sent), SinkAction::Nothing);
    assert_eq!(events.next_sequence(), 2);
    assert_eq!(events.lossy_sent(SendResult::Full), SinkAction::RecordDropped(1));
    assert!(events.reconciliation_pending);
    assert_eq!(events.next_sequence(), 3);
    assert_eq!(events.notice_sent(SendResult::Sent), SinkAction::Nothing);
    assert_eq!(events.dropped, 1);
    assert!(!events.reconciliation_pending);
}

// ----- Further cases -----

#[test]
fn disconnect_releases_everything_held() {
    let mut state = normalizer();
    state.button(ControllerButton::Options, true, 1).unwrap();
    state.button(ControllerButton::Triangle, true, 2).unwrap();
    let (above, below) = levels(i16::MAX);
    state.trigger(ControllerAxis::R2, above, below, 3).unwrap();
    assert_eq!(
        state.pressed_buttons(),
        vec![ControllerButton::Triangle, ControllerButton::Options, ControllerButton::R2]
    );
    let released = state.disconnect(9);
    assert_eq!(
        released,
        vec![
            NormalizedButton { timestamp_ns: 9, button: ControllerButton::Triangle, state: ButtonState::Released },
            NormalizedButton { timestamp_ns: 9, button: ControllerButton::Options, state: ButtonState::Released },
            NormalizedButton { timestamp_ns: 9, button: ControllerButton::R2, state: ButtonState::Released },
        ]
    );
    assert!(state.pressed_buttons().is_empty());
}

#[test]
fn a_release_without_a_reported_press_is_silent() {
    let mut latch = DigitalLatch { physical: false, active: false };
    assert_eq!(latch.observe(true, false), None);
    assert_eq!(latch.observe(false, true), None);
    assert_eq!(latch.observe(true, true), Some(ButtonState::Pressed));
    assert!(latch.deactivate());
    assert_eq!(latch.observe(false, true), None);
}

#[test]
fn only_the_analog_triggers_double_as_buttons() {
    assert_eq!(trigger_button(ControllerAxis::L2), Some(ControllerButton::L2));
    assert_eq!(trigger_button(ControllerAxis::R2), Some(ControllerButton::R2));
    assert_eq!(trigger_button(ControllerAxis::LeftX), None);
}

#[test]
fn configuration_problems_are_named_in_order() {
    assert_eq!(validate_config(0, 1, true, true, 1, 1).unwrap_err(), "event capacity must be greater than zero");
    assert_eq!(
        validate_config(256, 0, false, true, 1, 1).unwrap_err(),
        "at least one controller product ID is required"
    );
    assert_eq!(
        validate_config(256, 1, false, true, 1, 1).unwrap_err(),
        "trigger thresholds must satisfy 0 <= release < press <= 1"
    );
    assert_eq!(validate_config(256, 1, true, false, 1, 1).unwrap_err(), "axis epsilon must be between zero and one");
    assert_eq!(validate_config(256, 1, true, true, 0, 1).unwrap_err(), "axis interval must be greater than zero");
    assert_eq!(
        validate_config(256, 1, true, true, 1, 0).unwrap_err(),
        "device info interval must be greater than zero"
    );
    assert!(validate_config(256, 1, true, true, 16_000_000, 2_000_000_000).is_ok());
}

#[test]
fn controller_errors_describe_themselves() {
    assert_eq!(
        ControllerError::InvalidConfiguration("bad".into()).message(),
        "invalid controller configuration: bad"
    );
    assert_eq!(ControllerError::AlreadyRunning.message(), "the controller runtime is already active");
    assert_eq!(
        ControllerError::InitializationTimedOut.message(),
        "the controller worker did not initialize within 10 seconds"
    );
}

#[test]
fn battery_percentages_outside_the_range_are_dropped() {
    assert_eq!(battery_percentage(55), Some(55));
    assert_eq!(battery_percentage(-1), None);
    assert_eq!(battery_percentage(101), None);
}

#[test]
fn a_closed_channel_asks_for_shutdown() {
    let mut events = EventCounters::new();
    assert_eq!(events.lossy_sent(SendResult::Closed), SinkAction::Shutdown);
    assert_eq!(events.notice_sent(SendResult::Closed), SinkAction::Shutdown);
    assert_eq!(events.notice_sent(SendResult::Full), SinkAction::Nothing);
}
