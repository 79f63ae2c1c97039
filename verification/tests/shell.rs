use dual_deck::shell::{
    autostart_change, launched_at_startup, menu_command, shows_window_at_launch, tray_menu, window_hides,
    MenuCommand, WindowChange,
};
use dual_deck::domain::{ProfileDraft, Timestamp};

const EPOCH: Timestamp = Timestamp { seconds: 0, nanos: 0 };
use dual_deck::storage::Database;

#[test]
fn the_tray_menu_marks_the_active_profile() {
    let mut database = Database::open_in_memory(0x1000, EPOCH, false);
    database
        .create_profile(ProfileDraft { name: "Games".into(), description: None, automatic_app: None }, 0x2000, EPOCH)
        .expect("profile");
    let menu = tray_menu(&database.snapshot().expect("snapshot"));
    assert_eq!(menu.status, "Active: Default");
    assert_eq!(menu.pause_label, "Pause mappings");
    assert_eq!(menu.profiles[0].0, "profile:00000000-0000-0000-0000-000000001000");
    assert_eq!(menu.profiles[0].1, "✓ Default");
    assert_eq!(menu.profiles[1].1, "Games");
    assert_eq!(menu_command(&menu.profiles[1].0), MenuCommand::ActivateProfile(0x2000));
    database.set_mappings_paused(true);
    assert_eq!(tray_menu(&database.snapshot().expect("snapshot")).pause_label, "Resume mappings");
}

#[test]
fn menu_entries_are_recognised() {
    assert_eq!(menu_command("show"), MenuCommand::Show);
    assert_eq!(menu_command("toggle-pause"), MenuCommand::TogglePause);
    assert_eq!(menu_command("quit"), MenuCommand::Quit);
    assert_eq!(menu_command("profile:not-a-uuid"), MenuCommand::Ignore);
    assert_eq!(menu_command("other"), MenuCommand::Ignore);
}

#[test]
fn window_visibility_follows_the_settings() {
    assert!(launched_at_startup(&vec!["dual-deck".into(), "--minimized".into()]));
    assert!(!launched_at_startup(&vec!["dual-deck".into()]));
    assert!(!shows_window_at_launch(true, true));
    assert!(shows_window_at_launch(true, false));
    let settings = Database::open_in_memory(1, EPOCH, false).settings();
    assert!(window_hides(WindowChange::CloseRequested, Some(settings)));
    assert!(!window_hides(WindowChange::CloseRequested, None));
    assert!(window_hides(WindowChange::Resized { minimized: true }, Some(settings)));
    assert!(!window_hides(WindowChange::Resized { minimized: false }, Some(settings)));
    assert_eq!(autostart_change(true, false), Some(true));
    assert_eq!(autostart_change(true, true), None);
}
