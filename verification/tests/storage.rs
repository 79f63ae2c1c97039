use dual_deck::domain::{
    ActionDefinition, ActionStep, BindingDraft, ControllerButton, ControllerInput, InputBinding,
    ProfileDraft, StickDirection, Timestamp, Trigger, WebhookMethod, WebhookRequest,
};
use dual_deck::storage::{check_schema_version, name_with_suffix, Database, DATABASE_SCHEMA_VERSION};

const DEFAULT_ID: u128 = 0x1000;
const NOW: Timestamp = Timestamp { seconds: 1_700_000_000, nanos: 0 };
const LATER: Timestamp = Timestamp { seconds: 1_700_000_000, nanos: 1 };

fn database() -> Database {
    Database::open_in_memory(DEFAULT_ID, NOW, false)
}

fn create_profile(database: &mut Database, id: u128, name: &str) -> dual_deck::domain::Profile {
    database
        .create_profile(
            ProfileDraft { name: name.into(), description: None, automatic_app: None },
            id,
            NOW,
        )
        .expect("profile")
}

fn url_binding(profile_id: u128, input: ControllerButton, label: &str) -> BindingDraft {
    BindingDraft {
        profile_id,
        input: ControllerInput::Button(input),
        trigger: Trigger::Press,
        action: ActionDefinition::OpenUrl { url: "https://example.com".into() },
        label: label.into(),
        enabled: true,
    }
}

#[test]
fn creates_default_profile_and_settings() {
    let snapshot = database().snapshot().expect("snapshot");
    assert_eq!(snapshot.profiles.len(), 1);
    assert_eq!(snapshot.active_profile.name, "Default");
    assert_eq!(snapshot.settings.launch_at_startup, false);
    assert!(snapshot.settings.start_minimized);
    assert!(!snapshot.settings.check_for_updates);
}

#[test]
fn profile_crud_preserves_bindings() {
    let mut database = database();
    let profile = database
        .create_profile(
            ProfileDraft { name: "Streaming".into(), description: None, automatic_app: None },
            0x2000,
            NOW,
        )
        .expect("profile");
    let binding = database
        .create_binding(
            BindingDraft {
                profile_id: profile.id,
                input: ControllerInput::Button(ControllerButton::Triangle),
                trigger: Trigger::Press,
                action: ActionDefinition::OpenUrl { url: "https://example.com".into() },
                label: "Website".into(),
                enabled: true,
            },
            0x3000,
            NOW,
        )
        .expect("binding");
    assert_eq!(database.binding(binding.id).expect("stored").label, "Website");
    let duplicate = database
        .duplicate_profile(profile.id, 0x2001, &vec![0x3001], "spare", NOW)
        .expect("duplicate");
    assert_eq!(database.list_bindings(duplicate.id).len(), 1);
    database.delete_profile(profile.id).expect("delete");
    assert!(database.binding(binding.id).is_err());
}

#[test]
fn refuses_to_delete_last_profile() {
    let mut database = database();
    let id = database.settings().active_profile_id;
    let error = database.delete_profile(id).expect_err("must fail");
    assert_eq!(error.code, "lastProfile");
}

#[test]
fn preference_updates_preserve_active_profile_and_pause_state() {
    let mut database = database();
    let mut stale = database.settings();
    let profile = create_profile(&mut database, 0x2000, "Work");
    database.set_active_profile(profile.id).expect("active profile");
    database.set_mappings_paused(true);

    stale.close_to_tray = false;
    let updated = database.update_settings(stale);

    assert_eq!(updated.active_profile_id, profile.id);
    assert!(updated.mappings_paused);
    assert!(!updated.close_to_tray);
}

#[test]
fn rejects_reserved_controller_inputs() {
    let mut database = database();
    let profile_id = database.settings().active_profile_id;
    let error = database
        .create_binding(
            BindingDraft {
                profile_id,
                input: ControllerInput::StickDirection(StickDirection::LeftUp),
                trigger: Trigger::Press,
                action: ActionDefinition::OpenUrl { url: "https://example.com".into() },
                label: "Unsupported".into(),
                enabled: true,
            },
            0x3000,
            NOW,
        )
        .expect_err("reserved input");
    assert_eq!(error.code, "unsupportedControllerInput");
}

#[test]
fn rejects_database_versions_newer_than_supported() {
    let error = check_schema_version(DATABASE_SCHEMA_VERSION + 1).expect_err("future database must fail");
    assert_eq!(error.code, "unsupportedDatabaseVersion");
}

#[test]
fn migration_disables_older_duplicate_inputs_and_enforces_uniqueness() {
    let mut database = database();
    let profile_id = database.settings().active_profile_id;
    let older = database
        .create_binding(url_binding(profile_id, ControllerButton::Triangle, "Older"), 0x3000, NOW)
        .expect("older binding");
    let newer_id: u128 = 0x3001;
    database.bindings.push(InputBinding {
        id: newer_id,
        profile_id,
        input: ControllerInput::Button(ControllerButton::Triangle),
        trigger: Trigger::Press,
        action: ActionDefinition::OpenUrl { url: "https://example.com/newer".into() },
        label: "Newer".into(),
        enabled: true,
        created_at: Timestamp { seconds: 1_893_456_000, nanos: 0 },
        updated_at: Timestamp { seconds: 1_893_456_000, nanos: 0 },
    });

    database.retire_duplicate_inputs();

    assert!(!database.binding(older.id).expect("older stored").enabled);
    assert!(database.binding(newer_id).expect("newer stored").enabled);
    let error = database
        .create_binding(url_binding(profile_id, ControllerButton::Triangle, "Third"), 0x3002, NOW)
        .expect_err("duplicate active input");
    assert_eq!(error.code, "inputAlreadyMapped");
    let mut draft = url_binding(profile_id, ControllerButton::Triangle, "Disabled draft");
    draft.enabled = false;
    let disabled = database.create_binding(draft, 0x3003, NOW).expect("disabled duplicate");
    assert!(!disabled.enabled);
}

#[test]
fn duplicate_profile_rolls_back_when_a_binding_cannot_be_copied() {
    let mut database = database();
    let source = create_profile(&mut database, 0x2000, "Source");
    database
        .create_binding(url_binding(source.id, ControllerButton::Triangle, "First"), 0x3000, NOW)
        .expect("first binding");
    database
        .create_binding(url_binding(source.id, ControllerButton::Circle, "Fail during copy"), 0x3001, NOW)
        .expect("second binding");
    // A stored label longer than a new mapping may have makes the copy of
    // the second mapping fail.
    database.bindings[1].label = "x".repeat(121);
    let profile_count = database.list_profiles().len();

    database
        .duplicate_profile(source.id, 0x2001, &vec![0x3002, 0x3003], "spare", NOW)
        .expect_err("copy must fail");

    let profiles = database.list_profiles();
    assert_eq!(profiles.len(), profile_count);
    assert!(!profiles.iter().any(|profile| profile.name.contains("Copy")));
}

#[test]
fn snapshot_returns_all_bindings_in_one_coherent_view() {
    let mut database = database();
    let active_id = database.settings().active_profile_id;
    let other = create_profile(&mut database, 0x2000, "Other");
    let binding = database
        .create_binding(url_binding(other.id, ControllerButton::Triangle, "Other action"), 0x3000, NOW)
        .expect("other binding");

    let snapshot = database.snapshot().expect("snapshot");

    assert_eq!(snapshot.active_profile.id, active_id);
    assert_eq!(snapshot.bindings, vec![binding]);
}

#[test]
fn refuses_to_delete_a_profile_referenced_by_another_mapping() {
    let mut database = database();
    let target = create_profile(&mut database, 0x2000, "Target");
    let source = create_profile(&mut database, 0x2001, "Source");
    let binding = database
        .create_binding(
            BindingDraft {
                profile_id: source.id,
                input: ControllerInput::Button(ControllerButton::Triangle),
                trigger: Trigger::Press,
                action: ActionDefinition::SwitchProfile { profile_id: target.id },
                label: "Switch to target".into(),
                enabled: true,
            },
            0x3000,
            NOW,
        )
        .expect("profile switch");

    let error = database.delete_profile(target.id).expect_err("referenced profile must remain");

    assert_eq!(error.code, "profileInUse");
    assert_eq!(database.profile(target.id).expect("target remains").id, target.id);
    database.delete_binding(binding.id).expect("remove reference");
    database.delete_profile(target.id).expect("delete target");
}

#[test]
fn generated_profile_names_never_exceed_the_name_limit() {
    let mut database = database();
    let source_name = "A".repeat(80);
    let source = create_profile(&mut database, 0x2000, &source_name);

    let duplicate = database
        .duplicate_profile(source.id, 0x2001, &Vec::new(), "spare", NOW)
        .expect("duplicate");

    assert!(duplicate.name.chars().count() <= 80);
}

#[test]
fn rejects_oversized_webhook_headers() {
    let mut database = database();
    let profile_id = database.settings().active_profile_id;
    let headers = vec![("x-large".to_string(), "x".repeat(8_192 + 1))];
    let header_error = database
        .create_binding(
            BindingDraft {
                profile_id,
                input: ControllerInput::Button(ControllerButton::Circle),
                trigger: Trigger::Press,
                action: ActionDefinition::Webhook {
                    request: WebhookRequest {
                        url: "https://example.com/hook".into(),
                        method: WebhookMethod::Post,
                        headers,
                        body: None,
                        timeout_ms: 10_000,
                    },
                },
                label: "Webhook".into(),
                enabled: true,
            },
            0x3000,
            NOW,
        )
        .expect_err("oversized webhook header");
    assert_eq!(header_error.code, "invalidWebhook");
}

#[test]
fn rejects_oversized_paths_and_urls() {
    let mut database = database();
    let profile_id = database.settings().active_profile_id;
    let path_error = database
        .create_binding(
            BindingDraft {
                profile_id,
                input: ControllerInput::Button(ControllerButton::Triangle),
                trigger: Trigger::Press,
                action: ActionDefinition::OpenApplication {
                    path: "x".repeat(32_767 + 1),
                    arguments: Vec::new(),
                    working_directory: None,
                },
                label: "Oversized path".into(),
                enabled: true,
            },
            0x3000,
            NOW,
        )
        .expect_err("oversized path");
    assert_eq!(path_error.code, "invalidPath");

    let url_error = database
        .create_binding(
            BindingDraft {
                profile_id,
                input: ControllerInput::Button(ControllerButton::Circle),
                trigger: Trigger::Press,
                action: ActionDefinition::OpenUrl {
                    url: format!("https://example.com/{}", "x".repeat(8_192)),
                },
                label: "Oversized URL".into(),
                enabled: true,
            },
            0x3001,
            NOW,
        )
        .expect_err("oversized URL");
    assert_eq!(url_error.code, "invalidUrl");
}

#[test]
fn rejects_oversized_action_trees_and_nested_profile_switches() {
    let mut database = database();
    let profile_id = database.settings().active_profile_id;
    let nested_group = ActionDefinition::MultiAction {
        steps: (0..3)
            .map(|_| ActionStep { action: ActionDefinition::Delay { duration_ms: 0 }, delay_after_ms: 0 })
            .collect(),
        stop_on_error: true,
    };
    let oversized = ActionDefinition::MultiAction {
        steps: (0..100).map(|_| ActionStep { action: nested_group.clone(), delay_after_ms: 0 }).collect(),
        stop_on_error: true,
    };
    let tree_error = database
        .create_binding(
            BindingDraft {
                profile_id,
                input: ControllerInput::Button(ControllerButton::Triangle),
                trigger: Trigger::Press,
                action: oversized,
                label: "Oversized tree".into(),
                enabled: true,
            },
            0x3000,
            NOW,
        )
        .expect_err("oversized action tree");
    assert_eq!(tree_error.code, "actionTooComplex");

    let destination = create_profile(&mut database, 0x2000, "Destination");
    let nested_switch_error = database
        .create_binding(
            BindingDraft {
                profile_id,
                input: ControllerInput::Button(ControllerButton::Circle),
                trigger: Trigger::Press,
                action: ActionDefinition::MultiAction {
                    steps: vec![ActionStep {
                        action: ActionDefinition::SwitchProfile { profile_id: destination.id },
                        delay_after_ms: 0,
                    }],
                    stop_on_error: true,
                },
                label: "Nested switch".into(),
                enabled: true,
            },
            0x3001,
            NOW,
        )
        .expect_err("nested profile switch");
    assert_eq!(nested_switch_error.code, "nestedProfileSwitch");
}

// ----- Further cases -----

#[test]
fn copies_get_numbered_names_and_remapped_switches() {
    let mut database = database();
    let source = create_profile(&mut database, 0x2000, "Game");
    database
        .create_binding(
            BindingDraft {
                profile_id: source.id,
                input: ControllerInput::Button(ControllerButton::Cross),
                trigger: Trigger::Press,
                action: ActionDefinition::SwitchProfile { profile_id: source.id },
                label: "Stay".into(),
                enabled: true,
            },
            0x3000,
            NOW,
        )
        .expect("self switch");
    let first = database.duplicate_profile(source.id, 0x2001, &vec![0x3001], "spare", NOW).expect("first copy");
    assert_eq!(first.name, "Game Copy");
    let copies = database.list_bindings(first.id);
    assert_eq!(copies.len(), 1);
    assert_eq!(copies[0].action, ActionDefinition::SwitchProfile { profile_id: first.id });
    let second = database.duplicate_profile(source.id, 0x2002, &vec![0x3002], "spare", NOW).expect("second copy");
    assert_eq!(second.name, "Game Copy 2");
}

#[test]
fn long_names_are_shortened_before_the_suffix() {
    let name = name_with_suffix(&"B".repeat(80), " Copy");
    assert_eq!(name.chars().count(), 80);
    assert!(name.ends_with(" Copy"));
    assert_eq!(name_with_suffix("   ", " Copy"), "Copy");
}

#[test]
fn deleting_the_active_profile_activates_the_first_remaining_one() {
    let mut database = database();
    let other = create_profile(&mut database, 0x2000, "Other");
    database.set_active_profile(other.id).expect("activate");
    let settings = database.delete_profile(other.id).expect("delete");
    assert_eq!(settings.active_profile_id, DEFAULT_ID);
    assert_eq!(database.settings().active_profile_id, DEFAULT_ID);
}

#[test]
fn profile_names_are_unique_up_to_case() {
    let mut database = database();
    let error = database
        .create_profile(ProfileDraft { name: "  default ".into(), description: None, automatic_app: None }, 0x2000, NOW)
        .expect_err("taken name");
    assert_eq!(error.code, "profileNameInUse");
}

#[test]
fn unknown_profiles_and_mappings_are_reported() {
    let mut database = database();
    assert_eq!(database.set_active_profile(0x9999).expect_err("missing").code, "profileNotFound");
    assert_eq!(database.delete_binding(0x9999).expect_err("missing").code, "bindingNotFound");
    assert_eq!(database.binding(0x9999).expect_err("missing").code, "bindingNotFound");
}

#[test]
fn toggling_pause_flips_the_setting() {
    let mut database = database();
    assert!(database.toggle_mappings_paused().mappings_paused);
    assert!(!database.toggle_mappings_paused().mappings_paused);
}

#[test]
fn upsert_creates_then_updates() {
    let mut database = database();
    let profile_id = database.settings().active_profile_id;
    let created = database
        .upsert_binding(0x3000, url_binding(profile_id, ControllerButton::Square, "First"), NOW)
        .expect("created");
    assert_eq!(created.label, "First");
    let updated = database
        .upsert_binding(0x3000, url_binding(profile_id, ControllerButton::Square, " Second "), LATER)
        .expect("updated");
    assert_eq!(updated.label, "Second");
    assert_eq!(updated.created_at, NOW);
    assert_eq!(updated.updated_at, LATER);
    assert_eq!(database.list_bindings(profile_id).len(), 1);
}
