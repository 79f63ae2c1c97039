use dual_deck::domain::{is_later, ActionDefinition, ActionStep, Timestamp};
use dual_deck::storage::{decode_stored_id, decode_stored_timestamp};
use dual_deck::validation::validate_action;

#[test]
fn stored_identifiers_decode_to_their_value() {
    assert_eq!(
        decode_stored_id("67e55044-10b1-426f-9247-bb680e5fe0c8").unwrap(),
        0x67e5504410b1426f9247bb680e5fe0c8
    );
    assert_eq!(decode_stored_id("00000000-0000-0000-0000-000000000001").unwrap(), 1);
    let error = decode_stored_id("not-a-uuid").unwrap_err();
    assert_eq!(error.code, "invalidStoredUuid");
    assert!(!error.message.is_empty());
}

#[test]
fn stored_timestamps_decode_to_seconds_and_nanoseconds() {
    assert_eq!(
        decode_stored_timestamp("2024-01-02T03:04:05.5+00:00").unwrap(),
        Timestamp { seconds: 1_704_164_645, nanos: 500_000_000 }
    );
    assert_eq!(
        decode_stored_timestamp("2024-01-02T03:04:05+02:00").unwrap(),
        Timestamp { seconds: 1_704_157_445, nanos: 0 }
    );
    assert_eq!(
        decode_stored_timestamp("9999-01-01T00:00:00Z").unwrap(),
        Timestamp { seconds: 253_370_764_800, nanos: 0 }
    );
    assert_eq!(
        decode_stored_timestamp("1500-06-01T00:00:00Z").unwrap(),
        Timestamp { seconds: -14_818_723_200, nanos: 0 }
    );
    let error = decode_stored_timestamp("yesterday").unwrap_err();
    assert_eq!(error.code, "invalidStoredTimestamp");
    assert!(!error.message.is_empty());
}

#[test]
fn later_compares_seconds_then_nanoseconds() {
    let base = Timestamp { seconds: 10, nanos: 5 };
    assert!(is_later(Timestamp { seconds: 11, nanos: 0 }, base));
    assert!(is_later(Timestamp { seconds: 10, nanos: 6 }, base));
    assert!(!is_later(base, base));
    assert!(!is_later(Timestamp { seconds: 9, nanos: 999_999_999 }, base));
}

fn delay(ms: u64) -> ActionDefinition {
    ActionDefinition::Delay { duration_ms: ms }
}

#[test]
fn nesting_refusal_leaves_the_node_counter_alone() {
    let mut nodes: usize = 5;
    let error = validate_action(&delay(10), 17, &mut nodes, 100).unwrap_err();
    assert_eq!(error.code, "actionNestingTooDeep");
    assert_eq!(nodes, 5);
}

#[test]
fn other_refusals_count_the_nodes_checked() {
    let mut nodes: usize = 100;
    assert_eq!(validate_action(&delay(10), 0, &mut nodes, 100).unwrap_err().code, "actionTooComplex");
    assert_eq!(nodes, 101);

    let mut nodes: usize = 0;
    assert_eq!(validate_action(&delay(u64::MAX), 0, &mut nodes, 100).unwrap_err().code, "delayTooLong");
    assert_eq!(nodes, 1);

    let steps = vec![
        ActionStep { action: delay(10), delay_after_ms: 0 },
        ActionStep { action: delay(u64::MAX), delay_after_ms: 0 },
        ActionStep { action: delay(10), delay_after_ms: 0 },
    ];
    let mut nodes: usize = 0;
    let multi = ActionDefinition::MultiAction { steps, stop_on_error: true };
    assert_eq!(validate_action(&multi, 0, &mut nodes, 100).unwrap_err().code, "delayTooLong");
    assert_eq!(nodes, 3);

    let steps = vec![ActionStep { action: delay(10), delay_after_ms: 0 }, ActionStep { action: delay(20), delay_after_ms: 0 }];
    let mut nodes: usize = 0;
    let multi = ActionDefinition::MultiAction { steps, stop_on_error: false };
    assert!(validate_action(&multi, 0, &mut nodes, 100).is_ok());
    assert_eq!(nodes, 3);
}
