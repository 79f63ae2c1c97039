use dual_deck::domain::{KeyModifier, MediaCommand, VolumeCommand};
use dual_deck::platform::{
    check_launch, check_open_path, check_sound, close_result, ensure_regular_file, ensure_safe_close_target,
    hotkey_inputs, inputs_accepted, keyboard_input, media_key, shell_open_result, single_utf16_unit, text_inputs,
    unicode_input, unsupported, validate_executable_name, virtual_key, volume_key, KeyboardInput, SystemPlatform,
    KEY_UNICODE, KEY_UP,
};

/// The F1 virtual key.
const VK_F1: u16 = 0x70;

#[test]
fn validates_supported_keys() {
    assert_eq!(virtual_key("A", None).expect("A"), 65);
    assert_eq!(virtual_key("f24", None).expect("F24"), VK_F1 + 23);
    // What a US keyboard layout gives for ';'.
    assert!(virtual_key(";", Some(0x00ba)).is_ok());
    assert!(virtual_key("not-a-key", None).is_err());
}

#[test]
fn rejects_paths_as_process_names() {
    assert!(validate_executable_name("obs64.exe").is_ok());
    assert!(validate_executable_name("C:\\OBS\\obs64.exe").is_err());
    assert!(validate_executable_name("obs64").is_err());
    assert!(ensure_safe_close_target("explorer.exe", &None).is_err());
}

// ----- Further cases -----

#[test]
fn key_names_cover_letters_numbers_and_names() {
    assert_eq!(virtual_key(" a ", None).unwrap(), 65);
    assert_eq!(virtual_key("7", None).unwrap(), 0x37);
    assert_eq!(virtual_key("F1", None).unwrap(), 0x70);
    assert_eq!(virtual_key("F+5", None).unwrap(), 0x74);
    assert!(virtual_key("F25", None).is_err());
    assert_eq!(virtual_key("enter", None).unwrap(), 0x0d);
    assert_eq!(virtual_key("Numpad_Add", None).unwrap(), 0x6b);
    assert_eq!(virtual_key(";", Some(0x01ba)).unwrap(), 0xba);
    assert!(virtual_key(";", Some(-1)).is_err());
    let error = virtual_key(" nope ", None).unwrap_err();
    assert_eq!(error.code, "invalidHotkey");
    assert_eq!(error.message, "Unsupported hotkey: nope");
    assert_eq!(single_utf16_unit(" ; "), Some(0x3b));
    assert_eq!(single_utf16_unit("ab"), None);
}

#[test]
fn hotkeys_press_modifiers_around_the_key() {
    let inputs = hotkey_inputs(&vec![KeyModifier::Control, KeyModifier::Shift, KeyModifier::Control], 0x41);
    assert_eq!(
        inputs,
        vec![
            keyboard_input(0x11, false),
            keyboard_input(0x10, false),
            keyboard_input(0x41, false),
            keyboard_input(0x41, true),
            keyboard_input(0x10, true),
            keyboard_input(0x11, true),
        ]
    );
    assert_eq!(keyboard_input(0x41, true), KeyboardInput { virtual_key: 0x41, scan_code: 0, flags: KEY_UP });
}

#[test]
fn text_is_typed_as_utf16_units() {
    let inputs = text_inputs("a😀").unwrap();
    assert_eq!(
        inputs,
        vec![
            unicode_input(0x61, false),
            unicode_input(0x61, true),
            unicode_input(0xd83d, false),
            unicode_input(0xd83d, true),
            unicode_input(0xde00, false),
            unicode_input(0xde00, true),
        ]
    );
    assert_eq!(unicode_input(0x61, true).flags, KEY_UNICODE | KEY_UP);
    assert_eq!(text_inputs(&"x".repeat(10_001)).unwrap_err().code, "textTooLong");
}

#[test]
fn media_and_volume_keys() {
    assert_eq!(media_key(MediaCommand::PlayPause), 0xb3);
    assert_eq!(volume_key(VolumeCommand::Mute), 0xad);
}

#[test]
fn the_running_program_cannot_be_closed() {
    assert!(ensure_safe_close_target("Obs64.exe", &Some("OBS64.EXE".into())).is_err());
    assert!(ensure_safe_close_target("obs64.exe", &Some("dual-deck.exe".into())).is_ok());
    assert_eq!(validate_executable_name("  obs64.EXE ").unwrap(), "obs64.EXE");
}

#[test]
fn system_answers_are_reported() {
    assert!(shell_open_result(42).is_ok());
    assert_eq!(shell_open_result(2).unwrap_err().message, "Windows could not open the selected item (code 2)");
    assert_eq!(shell_open_result(-5).unwrap_err().message, "Windows could not open the selected item (code -5)");
    assert_eq!(close_result(false).unwrap_err().code, "applicationNotRunning");
    assert!(inputs_accepted(4, 4).is_ok());
    assert_eq!(inputs_accepted(3, 4).unwrap_err().code, "inputInjectionFailed");
    assert_eq!(unsupported().unwrap_err().code, "unsupportedPlatform");
    let _ = SystemPlatform::new();
}

#[test]
fn files_are_checked_before_use() {
    assert_eq!(ensure_regular_file(false, "soundNotFound").unwrap_err().code, "soundNotFound");
    assert!(check_launch(true, &Some("EXE".into()), &Vec::new(), None).is_ok());
    assert_eq!(check_launch(true, &Some("bat".into()), &Vec::new(), None).unwrap_err().code, "invalidApplication");
    assert_eq!(
        check_launch(true, &Some("exe".into()), &vec!["x".repeat(4_097)], None).unwrap_err().code,
        "invalidArguments"
    );
    assert_eq!(
        check_launch(true, &Some("exe".into()), &Vec::new(), Some(false)).unwrap_err().code,
        "workingDirectoryNotFound"
    );
    assert_eq!(check_sound(true, &Some("mp3".into())).unwrap_err().code, "unsupportedSoundFormat");
    assert_eq!(check_open_path(false).unwrap_err().code, "pathNotFound");
}
