use dual_deck::controller::{ButtonState, ControllerButton as RawButton};
use dual_deck::dispatch::{
    collect_actions, dispatch_button, dispatch_snapshot, execution_status, execution_was_cancelled,
    input_active, map_button, ExecutionStatus, ScheduledAction, TriggerTracker,
};
use dual_deck::domain::{
    ActionDefinition, AppSettings, ControllerButton, ControllerInput, ExecutionOutcome, InputBinding,
    Timestamp, Trigger, UpdateChannel,
};
use dual_deck::error::CommandError;

fn binding(id: u128, trigger: Trigger) -> InputBinding {
    InputBinding {
        id,
        profile_id: 0x77,
        input: ControllerInput::Button(ControllerButton::Triangle),
        trigger,
        action: ActionDefinition::OpenUrl { url: "https://example.com".into() },
        label: "Test".into(),
        enabled: true,
        created_at: Timestamp { seconds: 0, nanos: 0 },
        updated_at: Timestamp { seconds: 0, nanos: 0 },
    }
}

fn settings(paused: bool) -> AppSettings {
    AppSettings {
        active_profile_id: 0x77,
        launch_at_startup: false,
        start_minimized: true,
        minimize_to_tray: true,
        close_to_tray: true,
        mappings_paused: paused,
        check_for_updates: false,
        automatic_profile_switching: false,
        action_toasts: true,
        controller_feedback: false,
        reduced_motion: false,
        update_channel: UpdateChannel::Stable,
    }
}

#[test]
fn press_and_release_fire_on_their_respective_edges() {
    let mut tracker = TriggerTracker::new();
    let pressed = binding(1, Trigger::Press);
    let released = binding(2, Trigger::Release);
    tracker.press(ControllerButton::Triangle);
    assert_eq!(collect_actions(&vec![pressed.clone(), released.clone()], 1, &mut tracker).len(), 1);
    tracker.release(ControllerButton::Triangle);
    assert_eq!(collect_actions(&vec![pressed, released], 2, &mut tracker).len(), 1);
}

#[test]
fn double_press_requires_two_edges_within_the_window() {
    let mut tracker = TriggerTracker::new();
    let binding = binding(1, Trigger::DoublePress { interval_ms: 300 });
    tracker.press(ControllerButton::Triangle);
    assert!(collect_actions(&vec![binding.clone()], 1_000_000, &mut tracker).is_empty());
    tracker.release(ControllerButton::Triangle);
    collect_actions(&vec![binding.clone()], 2_000_000, &mut tracker);
    tracker.press(ControllerButton::Triangle);
    assert_eq!(collect_actions(&vec![binding], 200_000_000, &mut tracker).len(), 1);
}

#[test]
fn maps_every_dualsense_button() {
    assert_eq!(map_button(RawButton::L1), ControllerButton::LeftBumper);
    assert_eq!(map_button(RawButton::PlayStation), ControllerButton::Playstation);
    assert_eq!(map_button(RawButton::Microphone), ControllerButton::Mute);
}

// ----- Further cases -----

#[test]
fn a_late_second_press_starts_a_new_window() {
    let mut tracker = TriggerTracker::new();
    let binding = binding(1, Trigger::DoublePress { interval_ms: 300 });
    tracker.press(ControllerButton::Triangle);
    assert!(collect_actions(&vec![binding.clone()], 0, &mut tracker).is_empty());
    tracker.release(ControllerButton::Triangle);
    collect_actions(&vec![binding.clone()], 1, &mut tracker);
    tracker.press(ControllerButton::Triangle);
    assert!(collect_actions(&vec![binding.clone()], 300_000_001, &mut tracker).is_empty());
    tracker.release(ControllerButton::Triangle);
    collect_actions(&vec![binding.clone()], 300_000_002, &mut tracker);
    tracker.press(ControllerButton::Triangle);
    assert_eq!(collect_actions(&vec![binding], 400_000_000, &mut tracker).len(), 1);
}

#[test]
fn long_press_is_current_until_release() {
    let mut tracker = TriggerTracker::new();
    let binding = binding(9, Trigger::LongPress { duration_ms: 500 });
    tracker.press(ControllerButton::Triangle);
    let scheduled = collect_actions(&vec![binding.clone()], 1, &mut tracker);
    assert_eq!(scheduled, vec![ScheduledAction::LongPress { binding_id: 9, generation: 1, duration_ms: 500 }]);
    assert!(tracker.generation_is_current(9, 1));
    tracker.release(ControllerButton::Triangle);
    assert!(collect_actions(&vec![binding], 2, &mut tracker).is_empty());
    assert!(!tracker.generation_is_current(9, 1));
    assert!(!tracker.generation_is_current(9, 2));
}

#[test]
fn hold_repeat_carries_its_timings() {
    let mut tracker = TriggerTracker::new();
    let binding = binding(4, Trigger::HoldRepeat { initial_delay_ms: 400, interval_ms: 100 });
    tracker.press(ControllerButton::Triangle);
    let scheduled = collect_actions(&vec![binding], 1, &mut tracker);
    assert_eq!(
        scheduled,
        vec![ScheduledAction::HoldRepeat { binding_id: 4, generation: 1, initial_delay_ms: 400, interval_ms: 100 }]
    );
    assert_eq!(scheduled[0].binding_id(), 4);
}

#[test]
fn an_unchanged_press_fires_once() {
    let mut tracker = TriggerTracker::new();
    let bindings = vec![binding(1, Trigger::Press), binding(2, Trigger::LongPress { duration_ms: 200 })];
    tracker.press(ControllerButton::Triangle);
    assert_eq!(collect_actions(&bindings, 1, &mut tracker).len(), 2);
    assert!(collect_actions(&bindings, 2, &mut tracker).is_empty());
}

#[test]
fn reset_invalidates_pending_runs() {
    let mut tracker = TriggerTracker::new();
    tracker.press(ControllerButton::Triangle);
    collect_actions(&vec![binding(3, Trigger::LongPress { duration_ms: 200 })], 1, &mut tracker);
    assert!(tracker.generation_is_current(3, 1));
    tracker.reset();
    assert!(!tracker.generation_is_current(3, 1));
    assert!(!tracker.generation_is_current(3, 2));
}

#[test]
fn combinations_need_every_button() {
    let combo = ControllerInput::Combination(vec![ControllerButton::Cross, ControllerButton::Circle]);
    assert_eq!(input_active(&combo, &vec![ControllerButton::Cross]), Some(false));
    assert_eq!(input_active(&combo, &vec![ControllerButton::Circle, ControllerButton::Cross]), Some(true));
    assert_eq!(input_active(&ControllerInput::Combination(Vec::new()), &vec![ControllerButton::Cross]), Some(false));
    assert_eq!(
        input_active(
            &ControllerInput::StickDirection(dual_deck::domain::StickDirection::LeftUp),
            &vec![ControllerButton::Cross]
        ),
        None
    );
}

#[test]
fn disabled_mappings_never_fire() {
    let mut tracker = TriggerTracker::new();
    let mut b = binding(1, Trigger::Press);
    b.enabled = false;
    tracker.press(ControllerButton::Triangle);
    assert!(collect_actions(&vec![b], 1, &mut tracker).is_empty());
}

#[test]
fn paused_mappings_ignore_buttons() {
    let mut tracker = TriggerTracker::new();
    let bindings = vec![binding(1, Trigger::Press)];
    assert!(dispatch_button(&mut tracker, &settings(true), &bindings, RawButton::Triangle, ButtonState::Pressed, 1).is_empty());
    assert_eq!(
        dispatch_button(&mut tracker, &settings(false), &bindings, RawButton::Triangle, ButtonState::Pressed, 2),
        vec![ScheduledAction::Immediate { binding_id: 1 }]
    );
}

#[test]
fn snapshots_replace_the_held_buttons() {
    let mut tracker = TriggerTracker::new();
    let bindings = vec![binding(1, Trigger::Press)];
    let fired = dispatch_snapshot(&mut tracker, false, true, &settings(false), &bindings, &vec![RawButton::Triangle], 1);
    assert_eq!(fired, vec![ScheduledAction::Immediate { binding_id: 1 }]);
    let none = dispatch_snapshot(&mut tracker, false, false, &settings(false), &bindings, &vec![RawButton::Triangle], 2);
    assert!(none.is_empty());
    assert!(tracker.pressed.is_empty());
}

#[test]
fn cancelling_codes_are_recognised() {
    assert!(execution_was_cancelled("bindingNotFound"));
    assert!(execution_was_cancelled("mappingsPaused"));
    assert!(!execution_was_cancelled("webhookRejected"));
    let outcome = ExecutionOutcome { completed_steps: 1, profile_switched_to: None };
    assert_eq!(execution_status(&Ok(Some(outcome))), ExecutionStatus::Completed);
    assert_eq!(execution_status(&Ok(None)), ExecutionStatus::Cancelled);
    let disabled = CommandError { code: "mappingDisabled".into(), message: "m".into() };
    assert_eq!(execution_status(&Err(disabled)), ExecutionStatus::Cancelled);
    let failed = CommandError { code: "openFailed".into(), message: "m".into() };
    assert_eq!(execution_status(&Err(failed)), ExecutionStatus::Failed);
}

#[test]
fn only_a_completed_run_keeps_a_hold_repeating() {
    assert!(dual_deck::dispatch::hold_continues(ExecutionStatus::Completed));
    assert!(!dual_deck::dispatch::hold_continues(ExecutionStatus::Cancelled));
    assert!(!dual_deck::dispatch::hold_continues(ExecutionStatus::Failed));
}
