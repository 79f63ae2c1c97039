use dual_deck::controller::{DUALSENSE_PRODUCT_ID, SONY_VENDOR_ID};
use dual_deck::discovery::{
    active_still_present, ignored_device_count, is_compatible_device, order_candidates, tried_first, DeviceCandidate,
};

fn candidate(id: u32, path: &str) -> DeviceCandidate {
    DeviceCandidate { id, path: path.to_string() }
}

fn order_of(candidates: &[DeviceCandidate]) -> Vec<(u32, String)> {
    candidates.iter().map(|c| (c.id, c.path.clone())).collect()
}

#[test]
fn only_allowed_sony_ps5_pads_are_compatible() {
    let allowed = vec![DUALSENSE_PRODUCT_ID];
    assert!(is_compatible_device(Some(SONY_VENDOR_ID), Some(DUALSENSE_PRODUCT_ID), true, &allowed));
    assert!(!is_compatible_device(Some(0x045e), Some(DUALSENSE_PRODUCT_ID), true, &allowed));
    assert!(!is_compatible_device(None, Some(DUALSENSE_PRODUCT_ID), true, &allowed));
    assert!(!is_compatible_device(Some(SONY_VENDOR_ID), None, true, &allowed));
    assert!(!is_compatible_device(Some(SONY_VENDOR_ID), Some(0x09cc), true, &allowed));
    assert!(!is_compatible_device(Some(SONY_VENDOR_ID), Some(DUALSENSE_PRODUCT_ID), false, &allowed));
    assert!(!is_compatible_device(Some(SONY_VENDOR_ID), Some(DUALSENSE_PRODUCT_ID), true, &Vec::new()));
    assert!(is_compatible_device(Some(SONY_VENDOR_ID), Some(0x0df2), true, &vec![0x0ce6, 0x0df2]));
}

#[test]
fn candidates_are_tried_by_lower_cased_path_then_id() {
    let ordered = order_candidates(vec![
        candidate(5, "/dev/hidraw-B"),
        candidate(9, "/dev/hidraw-a"),
        candidate(3, "/dev/hidraw-a"),
        candidate(7, ""),
        candidate(1, "/dev/hidraw-a0"),
    ]);
    assert_eq!(
        order_of(&ordered),
        vec![
            (7, String::new()),
            (3, "/dev/hidraw-a".to_string()),
            (9, "/dev/hidraw-a".to_string()),
            (1, "/dev/hidraw-a0".to_string()),
            (5, "/dev/hidraw-B".to_string()),
        ]
    );
}

#[test]
fn paths_differing_only_in_case_are_ordered_by_id() {
    let ordered = order_candidates(vec![candidate(4, "/DEV/X"), candidate(2, "/dev/x")]);
    assert_eq!(order_of(&ordered), vec![(2, "/dev/x".to_string()), (4, "/DEV/X".to_string())]);
    assert!(tried_first(&candidate(2, "/DEV/X"), &candidate(4, "/dev/x")));
    assert!(!tried_first(&candidate(4, "/dev/x"), &candidate(4, "/DEV/X")));
}

#[test]
fn ordering_keeps_every_candidate() {
    assert!(order_candidates(Vec::new()).is_empty());
    let ordered = order_candidates(vec![candidate(8, "b"), candidate(8, "b"), candidate(1, "a")]);
    assert_eq!(order_of(&ordered), vec![(1, "a".to_string()), (8, "b".to_string()), (8, "b".to_string())]);
}

#[test]
fn active_controller_must_be_connected_and_listed() {
    let candidates = vec![candidate(3, "/a"), candidate(6, "/b")];
    assert!(active_still_present(Some(6), true, &candidates));
    assert!(!active_still_present(Some(6), false, &candidates));
    assert!(!active_still_present(Some(4), true, &candidates));
    assert!(!active_still_present(None, true, &candidates));
    assert!(!active_still_present(Some(3), true, &Vec::new()));
}

#[test]
fn every_candidate_but_the_open_one_is_ignored() {
    assert_eq!(ignored_device_count(3, true), 2);
    assert_eq!(ignored_device_count(3, false), 3);
    assert_eq!(ignored_device_count(0, true), 0);
    assert_eq!(ignored_device_count(0, false), 0);
}

#[test]
fn second_dualsense_leaves_the_first_active() {
    let found = order_candidates(vec![candidate(6, "/dev/hidraw-0"), candidate(3, "/dev/hidraw-1")]);
    assert!(active_still_present(Some(3), true, &found));
    assert_eq!(ignored_device_count(found.len(), true), 1);
}
