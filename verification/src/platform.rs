//! The desktop side of actions: which keys a hotkey names, the keyboard
//! input events that type a hotkey or a text, which process names may be
//! closed, and how the answers of the operating system are reported. The
//! system calls themselves are made by the caller, with what these
//! functions decide.
use vstd::prelude::*;
use crate::domain::{KeyModifier, MediaCommand, VolumeCommand};
use crate::error::{CommandError, Fault};
use crate::text::{self, char_count, chars_of, eq_ignore_ascii_case, trim};

verus! {

/// The desktop on which actions run.
pub struct SystemPlatform;

impl SystemPlatform {
    /// The desktop of this machine.
    pub fn new() -> (p: SystemPlatform)
        ensures
            p == SystemPlatform,
    {
        SystemPlatform
    }
}

/// The answer to an action this platform cannot perform.
pub fn unsupported() -> (r: Result<(), CommandError>)
    ensures
        r matches Err(e) && e.is(Fault::UnsupportedPlatform),
{
    Err(Fault::UnsupportedPlatform.error())
}

// ----- Files and processes -----

/// A file action needs an existing regular file; `code` names the refusal.
pub fn ensure_regular_file(is_file: bool, code: &str) -> (r: Result<(), CommandError>)
    ensures
        is_file ==> r is Ok,
        !is_file ==> (r matches Err(e) && e.code@ == code@ && e.message@ == "The selected file was not found"@),
{
    if is_file {
        Ok(())
    } else {
        Err(CommandError::new(code, "The selected file was not found"))
    }
}

/// Whether a file extension is `expected` up to ASCII case.
pub open spec fn extension_is(extension: Option<Seq<char>>, expected: Seq<char>) -> bool {
    extension matches Some(x) && text::eq_ascii_case(x, expected)
}

/// The checks before launching an application, in order: an existing file,
/// an `.exe` extension, at most 64 arguments of at most 4096 bytes each,
/// and an existing working directory when one is given.
pub fn check_launch(
    is_file: bool,
    extension: &Option<String>,
    arguments: &Vec<String>,
    working_directory_exists: Option<bool>,
) -> (r: Result<(), CommandError>)
    ensures
        !is_file ==> (r matches Err(e) && e.code@ == "applicationNotFound"@),
        is_file && !extension_is(crate::domain::opt_view(*extension), "exe"@) ==> (r matches Err(e)
            && e.is(Fault::InvalidApplication)),
        is_file && extension_is(crate::domain::opt_view(*extension), "exe"@) && (arguments@.len() > 64
            || exists|i: int| 0 <= i < arguments@.len() && crate::validation::byte_len((#[trigger] arguments@[i])@) > 4096)
            ==> (r matches Err(e) && e.is(Fault::InvalidArguments)),
        is_file && extension_is(crate::domain::opt_view(*extension), "exe"@) && !(arguments@.len() > 64
            || exists|i: int| 0 <= i < arguments@.len() && crate::validation::byte_len((#[trigger] arguments@[i])@) > 4096)
            ==> if working_directory_exists == Some(false) {
            r matches Err(e) && e.code@ == "workingDirectoryNotFound"@ && e.message@
                == "The working directory was not found"@
        } else {
            r is Ok
        },
{
    if !is_file {
        return ensure_regular_file(is_file, "applicationNotFound");
    }
    let is_executable = match extension {
        Some(x) => eq_ignore_ascii_case(x.as_str(), "exe"),
        None => false,
    };
    if !is_executable {
        return Err(Fault::InvalidApplication.error());
    }
    if arguments.len() > 64 {
        return Err(Fault::InvalidArguments.error());
    }
    let mut i: usize = 0;
    while i < arguments.len()
        invariant
            is_file,
            extension_is(crate::domain::opt_view(*extension), "exe"@),
            arguments@.len() <= 64,
            i <= arguments@.len(),
            forall|k: int| 0 <= k < i ==> crate::validation::byte_len((#[trigger] arguments@[k])@) <= 4096,
        decreases arguments@.len() - i,
    {
        if arguments[i].as_str().len() > 4096 {
            return Err(Fault::InvalidArguments.error());
        }
        i += 1;
    }
    if working_directory_exists == Some(false) {
        return Err(CommandError::new("workingDirectoryNotFound", "The working directory was not found"));
    }
    Ok(())
}

/// A path to open must exist.
pub fn check_open_path(exists: bool) -> (r: Result<(), CommandError>)
    ensures
        exists ==> r is Ok,
        !exists ==> (r matches Err(e) && e.code@ == "pathNotFound"@ && e.message@
            == "The file or folder was not found"@),
{
    if exists {
        Ok(())
    } else {
        Err(CommandError::new("pathNotFound", "The file or folder was not found"))
    }
}

/// The checks before playing a sound: an existing file with a `.wav`
/// extension.
pub fn check_sound(is_file: bool, extension: &Option<String>) -> (r: Result<(), CommandError>)
    ensures
        !is_file ==> (r matches Err(e) && e.code@ == "soundNotFound"@),
        is_file && !extension_is(crate::domain::opt_view(*extension), "wav"@) ==> (r matches Err(e)
            && e.is(Fault::UnsupportedSoundFormat)),
        is_file && extension_is(crate::domain::opt_view(*extension), "wav"@) ==> r is Ok,
{
    if !is_file {
        return ensure_regular_file(is_file, "soundNotFound");
    }
    let is_wave = match extension {
        Some(x) => eq_ignore_ascii_case(x.as_str(), "wav"),
        None => false,
    };
    if !is_wave {
        return Err(Fault::UnsupportedSoundFormat.error());
    }
    Ok(())
}

/// Whether the system played the sound.
pub fn sound_played(played: bool) -> (r: Result<(), CommandError>)
    ensures
        played ==> r is Ok,
        !played ==> (r matches Err(e) && e.code@ == "soundPlaybackFailed"@ && e.message@
            == "Windows could not play the selected sound"@),
{
    if played {
        Ok(())
    } else {
        Err(CommandError::new("soundPlaybackFailed", "Windows could not play the selected sound"))
    }
}

/// The decimal text of a signed number.
pub open spec fn signed_decimal(n: int) -> Seq<char> {
    if n < 0 {
        "-"@ + text::decimal((-n) as nat)
    } else {
        text::decimal(n as nat)
    }
}

/// The answer of the shell to an open request: a status above 32 is
/// success.
pub fn shell_open_result(status: isize) -> (r: Result<(), CommandError>)
    ensures
        status > 32 ==> r is Ok,
        status <= 32 ==> (r matches Err(e) && e.code@ == "openFailed"@ && e.message@
            == "Windows could not open the selected item (code "@ + signed_decimal(status as int) + ")"@),
{
    if status > 32 {
        return Ok(());
    }
    let digits = if status < 0 {
        let magnitude: u64 = (0i128 - status as i128) as u64;
        text::concat("-", text::decimal_string(magnitude).as_str())
    } else {
        text::decimal_string(status as u64)
    };
    let mut message = "Windows could not open the selected item (code ".to_owned();
    message.append(digits.as_str());
    message.append(")");
    Err(CommandError { code: "openFailed".to_owned(), message })
}

/// Whether a character may appear in an executable name.
pub open spec fn name_char(c: char) -> bool {
    let v = c as u32;
    (0x30 <= v <= 0x39) || (0x41 <= v <= 0x5a) || (0x61 <= v <= 0x7a) || c == '-' || c == '_' || c
        == '.' || c == ' '
}

/// Whether `t` ends with `.exe` up to ASCII case.
pub open spec fn ends_with_exe(t: Seq<char>) -> bool {
    t.len() >= 4 && text::eq_ascii_case(t.subrange(t.len() - 4, t.len() as int), ".exe"@)
}

/// An executable name (trimmed) is 1 to 260 bytes of letters, digits, `-`,
/// `_`, `.` and spaces, ending in `.exe`.
pub open spec fn executable_name_ok(t: Seq<char>) -> bool {
    &&& t.len() > 0
    &&& crate::validation::byte_len(t) <= 260
    &&& ends_with_exe(t)
    &&& forall|i: int| 0 <= i < t.len() ==> name_char(#[trigger] t[i])
}

/// Checks an executable name given without a path; the trimmed name.
pub fn validate_executable_name(value: &str) -> (r: Result<String, CommandError>)
    ensures
        executable_name_ok(text::trimmed(value@)) ==> (r matches Ok(n) && n@ == text::trimmed(value@)),
        !executable_name_ok(text::trimmed(value@)) ==> (r matches Err(e) && e.is(
            Fault::ExecutableNameWithPath,
        )),
{
    let t = trim(value);
    let chars = chars_of(t.as_str());
    let n = chars.len();
    if n == 0 || t.as_str().len() > 260 || n < 4 {
        return Err(Fault::ExecutableNameWithPath.error());
    }
    let tail = t.as_str().substring_char(n - 4, n);
    if !eq_ignore_ascii_case(tail, ".exe") {
        return Err(Fault::ExecutableNameWithPath.error());
    }
    let mut i: usize = 0;
    while i < n
        invariant
            chars@ == t@,
            t@ == text::trimmed(value@),
            n == chars@.len(),
            i <= n,
            forall|k: int| 0 <= k < i ==> name_char(#[trigger] chars@[k]),
        decreases n - i,
    {
        let c = chars[i];
        let v = c as u32;
        if !((0x30 <= v && v <= 0x39) || (0x41 <= v && v <= 0x5a) || (0x61 <= v && v <= 0x7a) || c == '-'
            || c == '_' || c == '.' || c == ' ') {
            assert(!name_char(t@[i as int]));
            return Err(Fault::ExecutableNameWithPath.error());
        }
        i += 1;
    }
    Ok(t)
}

/// Windows processes that must never be closed, and this program.
pub open spec fn protected_name(name: Seq<char>) -> bool {
    ||| text::eq_ascii_case(name, "csrss.exe"@)
    ||| text::eq_ascii_case(name, "dual-deck.exe"@)
    ||| text::eq_ascii_case(name, "dwm.exe"@)
    ||| text::eq_ascii_case(name, "explorer.exe"@)
    ||| text::eq_ascii_case(name, "lsass.exe"@)
    ||| text::eq_ascii_case(name, "services.exe"@)
    ||| text::eq_ascii_case(name, "smss.exe"@)
    ||| text::eq_ascii_case(name, "svchost.exe"@)
    ||| text::eq_ascii_case(name, "wininit.exe"@)
    ||| text::eq_ascii_case(name, "winlogon.exe"@)
}

/// A process may be closed unless it is a protected system process or the
/// running program itself (`current_executable`, the file name of the
/// running executable when known), compared up to ASCII case.
pub fn ensure_safe_close_target(name: &str, current_executable: &Option<String>) -> (r: Result<
    (),
    CommandError,
>)
    ensures
        (protected_name(name@) || (current_executable matches Some(c) && text::eq_ascii_case(
            c@,
            name@,
        ))) ==> (r matches Err(e) && e.is(Fault::ProtectedApplication)),
        !(protected_name(name@) || (current_executable matches Some(c) && text::eq_ascii_case(
            c@,
            name@,
        ))) ==> r is Ok,
{
    let is_current = match current_executable {
        Some(c) => eq_ignore_ascii_case(c.as_str(), name),
        None => false,
    };
    let protected = eq_ignore_ascii_case("csrss.exe", name) || eq_ignore_ascii_case("dual-deck.exe", name)
        || eq_ignore_ascii_case("dwm.exe", name) || eq_ignore_ascii_case("explorer.exe", name)
        || eq_ignore_ascii_case("lsass.exe", name) || eq_ignore_ascii_case("services.exe", name)
        || eq_ignore_ascii_case("smss.exe", name) || eq_ignore_ascii_case("svchost.exe", name)
        || eq_ignore_ascii_case("wininit.exe", name) || eq_ignore_ascii_case("winlogon.exe", name);
    proof {
        assert forall|a: Seq<char>, b: Seq<char>| text::eq_ascii_case(a, b) == text::eq_ascii_case(b, a) by {
            if text::eq_ascii_case(a, b) {
                assert forall|i: int| 0 <= i < b.len() implies #[trigger] text::fold_ascii(b[i]) == text::fold_ascii(a[i]) by {
                    assert(text::fold_ascii(a[i]) == text::fold_ascii(b[i]));
                }
            }
            if text::eq_ascii_case(b, a) {
                assert forall|i: int| 0 <= i < a.len() implies #[trigger] text::fold_ascii(a[i]) == text::fold_ascii(b[i]) by {
                    assert(text::fold_ascii(b[i]) == text::fold_ascii(a[i]));
                }
            }
        }
    }
    if is_current || protected {
        Err(Fault::ProtectedApplication.error())
    } else {
        Ok(())
    }
}

/// Whether the task killer closed the process.
pub fn close_result(success: bool) -> (r: Result<(), CommandError>)
    ensures
        success ==> r is Ok,
        !success ==> (r matches Err(e) && e.code@ == "applicationNotRunning"@ && e.message@
            == "The application was not running or could not be closed"@),
{
    if success {
        Ok(())
    } else {
        Err(CommandError::new("applicationNotRunning", "The application was not running or could not be closed"))
    }
}

// ----- Keyboard input -----

/// `KEYEVENTF_KEYUP`: the key goes up.
pub const KEY_UP: u32 = 0x0002;

/// `KEYEVENTF_UNICODE`: the event carries a UTF-16 unit.
pub const KEY_UNICODE: u32 = 0x0004;

/// One keyboard event to inject.
#[derive(Clone, Copy, Debug, PartialEq, Eq, Structural)]
pub struct KeyboardInput {
    pub virtual_key: u16,
    pub scan_code: u16,
    pub flags: u32,
}

/// A key going down or (when `released`) up.
pub fn keyboard_input(key: u16, released: bool) -> (r: KeyboardInput)
    ensures
        r == (KeyboardInput { virtual_key: key, scan_code: 0, flags: if released { KEY_UP } else { 0 } }),
{
    KeyboardInput { virtual_key: key, scan_code: 0, flags: if released { KEY_UP } else { 0 } }
}

/// A UTF-16 unit typed down or (when `released`) up.
pub fn unicode_input(unit: u16, released: bool) -> (r: KeyboardInput)
    ensures
        r == (KeyboardInput {
            virtual_key: 0,
            scan_code: unit,
            flags: if released { KEY_UNICODE | KEY_UP } else { KEY_UNICODE },
        }),
{
    KeyboardInput {
        virtual_key: 0,
        scan_code: unit,
        flags: if released { KEY_UNICODE | KEY_UP } else { KEY_UNICODE },
    }
}

/// Whether the system accepted every event of a batch of `count` (the
/// count is compared as the 32-bit number the system call takes).
pub fn inputs_accepted(sent: u32, count: usize) -> (r: Result<(), CommandError>)
    ensures
        sent == count as u32 ==> r is Ok,
        sent != count as u32 ==> (r matches Err(e) && e.is(Fault::InputInjectionFailed)),
{
    if sent == count as u32 {
        Ok(())
    } else {
        Err(Fault::InputInjectionFailed.error())
    }
}

/// The virtual key of a modifier.
pub open spec fn modifier_code(m: KeyModifier) -> u16 {
    match m {
        KeyModifier::Control => 0x11,
        KeyModifier::Alt => 0x12,
        KeyModifier::Shift => 0x10,
        KeyModifier::Meta => 0x5b,
    }
}

/// The virtual key of a modifier.
pub fn modifier_key(m: KeyModifier) -> (r: u16)
    ensures
        r == modifier_code(m),
{
    match m {
        KeyModifier::Control => 0x11,
        KeyModifier::Alt => 0x12,
        KeyModifier::Shift => 0x10,
        KeyModifier::Meta => 0x5b,
    }
}

/// The virtual key of a media command.
pub fn media_key(command: MediaCommand) -> (r: u16)
    ensures
        r == match command {
            MediaCommand::PlayPause => 0xb3u16,
            MediaCommand::NextTrack => 0xb0u16,
            MediaCommand::PreviousTrack => 0xb1u16,
            MediaCommand::Stop => 0xb2u16,
        },
{
    match command {
        MediaCommand::PlayPause => 0xb3,
        MediaCommand::NextTrack => 0xb0,
        MediaCommand::PreviousTrack => 0xb1,
        MediaCommand::Stop => 0xb2,
    }
}

/// The virtual key of a volume command.
pub fn volume_key(command: VolumeCommand) -> (r: u16)
    ensures
        r == match command {
            VolumeCommand::Up => 0xafu16,
            VolumeCommand::Down => 0xaeu16,
            VolumeCommand::Mute => 0xadu16,
        },
{
    match command {
        VolumeCommand::Up => 0xaf,
        VolumeCommand::Down => 0xae,
        VolumeCommand::Mute => 0xad,
    }
}

/// The modifier keys of a hotkey, each once, in their first order.
pub open spec fn modifier_codes(m: Seq<KeyModifier>) -> Seq<u16>
    decreases m.len(),
{
    if m.len() == 0 {
        Seq::empty()
    } else {
        let rest = modifier_codes(m.drop_last());
        if rest.contains(modifier_code(m.last())) {
            rest
        } else {
            rest.push(modifier_code(m.last()))
        }
    }
}

/// The events of a hotkey: modifiers down in order, the key down and up,
/// modifiers up in reverse order.
pub open spec fn hotkey_events(mods: Seq<u16>, key: u16) -> Seq<KeyboardInput> {
    Seq::new(mods.len(), |i: int| KeyboardInput { virtual_key: mods[i], scan_code: 0, flags: 0 })
        + seq![
        KeyboardInput { virtual_key: key, scan_code: 0, flags: 0 },
        KeyboardInput { virtual_key: key, scan_code: 0, flags: KEY_UP },
    ] + Seq::new(
        mods.len(),
        |i: int| KeyboardInput { virtual_key: mods[mods.len() - 1 - i], scan_code: 0, flags: KEY_UP },
    )
}

/// The events that type a hotkey whose key is `key`.
pub fn hotkey_inputs(modifiers: &Vec<KeyModifier>, key: u16) -> (r: Vec<KeyboardInput>)
    ensures
        r@ == hotkey_events(modifier_codes(modifiers@), key),
{
    let mut codes: Vec<u16> = Vec::new();
    let mut i: usize = 0;
    while i < modifiers.len()
        invariant
            i <= modifiers@.len(),
            codes@ == modifier_codes(modifiers@.take(i as int)),
        decreases modifiers@.len() - i,
    {
        let code = modifier_key(modifiers[i]);
        proof {
            assert(modifiers@.take(i + 1).drop_last() =~= modifiers@.take(i as int));
        }
        let mut present = false;
        let mut k: usize = 0;
        while k < codes.len()
            invariant
                k <= codes@.len(),
                present == exists|j: int| 0 <= j < k && codes@[j] == code,
            decreases codes@.len() - k,
        {
            if codes[k] == code {
                present = true;
            }
            k += 1;
        }
        if !present {
            codes.push(code);
        }
        i += 1;
    }
    proof {
        assert(modifiers@.take(modifiers@.len() as int) =~= modifiers@);
    }
    let ghost mods = codes@;
    let n = codes.len();
    let mut out: Vec<KeyboardInput> = Vec::new();
    let mut j: usize = 0;
    while j < n
        invariant
            codes@ == mods,
            n == mods.len(),
            j <= n,
            out@ =~= Seq::new(j as nat, |i: int| KeyboardInput { virtual_key: mods[i], scan_code: 0, flags: 0 }),
        decreases n - j,
    {
        out.push(keyboard_input(codes[j], false));
        j += 1;
    }
    out.push(keyboard_input(key, false));
    out.push(keyboard_input(key, true));
    let mut j: usize = 0;
    while j < n
        invariant
            codes@ == mods,
            n == mods.len(),
            j <= n,
            out@ =~= Seq::new(n as nat, |i: int| KeyboardInput { virtual_key: mods[i], scan_code: 0, flags: 0 })
                + seq![
                KeyboardInput { virtual_key: key, scan_code: 0, flags: 0 },
                KeyboardInput { virtual_key: key, scan_code: 0, flags: KEY_UP },
            ] + Seq::new(
                j as nat,
                |i: int| KeyboardInput { virtual_key: mods[mods.len() - 1 - i], scan_code: 0, flags: KEY_UP },
            ),
        decreases n - j,
    {
        out.push(keyboard_input(codes[n - 1 - j], true));
        j += 1;
    }
    out
}

/// The UTF-16 units of one character.
pub open spec fn utf16_units(c: char) -> Seq<u16> {
    let v = c as u32;
    if v < 0x10000 {
        seq![v as u16]
    } else {
        let w = (v - 0x10000) as u32;
        seq![(0xd800 + w / 0x400) as u16, (0xdc00 + w % 0x400) as u16]
    }
}

/// The UTF-16 encoding of a text.
pub open spec fn utf16_of(s: Seq<char>) -> Seq<u16>
    decreases s.len(),
{
    if s.len() == 0 {
        Seq::empty()
    } else {
        utf16_of(s.drop_last()) + utf16_units(s.last())
    }
}

/// Each UTF-16 unit typed down then up.
pub open spec fn typing_events(units: Seq<u16>) -> Seq<KeyboardInput> {
    Seq::new(
        2 * units.len(),
        |i: int|
            KeyboardInput {
                virtual_key: 0,
                scan_code: units[i / 2],
                flags: if i % 2 == 0 { KEY_UNICODE } else { KEY_UNICODE | KEY_UP },
            },
    )
}

/// The events that type `text`: each of its UTF-16 units down then up. At
/// most 10,000 characters can be typed.
pub fn text_inputs(text: &str) -> (r: Result<Vec<KeyboardInput>, CommandError>)
    ensures
        text@.len() > 10_000 ==> (r matches Err(e) && e.is(Fault::TextTooLong)),
        text@.len() <= 10_000 ==> (r matches Ok(v) && v@ == typing_events(utf16_of(text@))),
{
    if char_count(text) > 10_000 {
        return Err(Fault::TextTooLong.error());
    }
    let chars = chars_of(text);
    let mut units: Vec<u16> = Vec::new();
    let mut i: usize = 0;
    while i < chars.len()
        invariant
            chars@ == text@,
            chars@.len() <= 10_000,
            i <= chars@.len(),
            units@ == utf16_of(chars@.take(i as int)),
            units@.len() <= 2 * i,
        decreases chars@.len() - i,
    {
        let v = chars[i] as u32;
        proof {
            assert(chars@.take(i + 1).drop_last() =~= chars@.take(i as int));
        }
        if v < 0x10000 {
            units.push(v as u16);
        } else {
            let w = v - 0x10000;
            units.push((0xd800 + w / 0x400) as u16);
            units.push((0xdc00 + w % 0x400) as u16);
        }
        proof {
            assert(units@ =~= utf16_of(chars@.take(i as int)) + utf16_units(chars@[i as int]));
        }
        i += 1;
    }
    proof {
        assert(chars@.take(chars@.len() as int) =~= chars@);
    }
    let ghost us = units@;
    let mut out: Vec<KeyboardInput> = Vec::new();
    let mut j: usize = 0;
    while j < units.len()
        invariant
            units@ == us,
            us.len() <= 20_000,
            j <= us.len(),
            out@ =~= typing_events(us.take(j as int)),
        decreases us.len() - j,
    {
        out.push(unicode_input(units[j], false));
        out.push(unicode_input(units[j], true));
        proof {
            assert forall|k: int| 0 <= k < 2 * (j + 1) implies #[trigger] out@[k] == typing_events(us.take(j + 1))[k] by {
                if k < 2 * j {
                    assert(out@[k] == typing_events(us.take(j as int))[k]);
                    assert(us.take(j as int)[k / 2] == us.take(j + 1)[k / 2]);
                } else {
                    assert(k / 2 == j);
                }
            }
        }
        j += 1;
    }
    proof {
        assert(us.take(us.len() as int) =~= us);
    }
    Ok(out)
}


// ----- Key names -----

/// A named key, compared up to ASCII case.
pub open spec fn named_key(t: Seq<char>) -> Option<u16> {
    if text::eq_ascii_case(t, "BACKSPACE"@) {
        Some(0x08u16)
    } else if text::eq_ascii_case(t, "TAB"@) {
        Some(0x09u16)
    } else if text::eq_ascii_case(t, "ENTER"@) || text::eq_ascii_case(t, "RETURN"@) {
        Some(0x0du16)
    } else if text::eq_ascii_case(t, "ESC"@) || text::eq_ascii_case(t, "ESCAPE"@) {
        Some(0x1bu16)
    } else if text::eq_ascii_case(t, "SPACE"@) {
        Some(0x20u16)
    } else if text::eq_ascii_case(t, "PAGEUP"@) {
        Some(0x21u16)
    } else if text::eq_ascii_case(t, "PAGEDOWN"@) {
        Some(0x22u16)
    } else if text::eq_ascii_case(t, "END"@) {
        Some(0x23u16)
    } else if text::eq_ascii_case(t, "HOME"@) {
        Some(0x24u16)
    } else if text::eq_ascii_case(t, "LEFT"@) {
        Some(0x25u16)
    } else if text::eq_ascii_case(t, "UP"@) {
        Some(0x26u16)
    } else if text::eq_ascii_case(t, "RIGHT"@) {
        Some(0x27u16)
    } else if text::eq_ascii_case(t, "DOWN"@) {
        Some(0x28u16)
    } else if text::eq_ascii_case(t, "PRINTSCREEN"@) {
        Some(0x2cu16)
    } else if text::eq_ascii_case(t, "INSERT"@) {
        Some(0x2du16)
    } else if text::eq_ascii_case(t, "DELETE"@) {
        Some(0x2eu16)
    } else if text::eq_ascii_case(t, "CAPSLOCK"@) {
        Some(0x14u16)
    } else if text::eq_ascii_case(t, "NUMLOCK"@) {
        Some(0x90u16)
    } else if text::eq_ascii_case(t, "SCROLLLOCK"@) {
        Some(0x91u16)
    } else if text::eq_ascii_case(t, "APPS"@) || text::eq_ascii_case(t, "MENU"@) {
        Some(0x5du16)
    } else if text::eq_ascii_case(t, "PLUS"@) {
        Some(0xbbu16)
    } else if text::eq_ascii_case(t, "MINUS"@) {
        Some(0xbdu16)
    } else if text::eq_ascii_case(t, "COMMA"@) {
        Some(0xbcu16)
    } else if text::eq_ascii_case(t, "PERIOD"@) {
        Some(0xbeu16)
    } else if text::eq_ascii_case(t, "NUMPAD_ADD"@) {
        Some(0x6bu16)
    } else if text::eq_ascii_case(t, "NUMPAD_SUBTRACT"@) {
        Some(0x6du16)
    } else if text::eq_ascii_case(t, "NUMPAD_MULTIPLY"@) {
        Some(0x6au16)
    } else if text::eq_ascii_case(t, "NUMPAD_DIVIDE"@) {
        Some(0x6fu16)
    } else if text::eq_ascii_case(t, "NUMPAD_DECIMAL"@) {
        Some(0x6eu16)
    } else {
        None
    }
}

/// Whether `a` and `b` name the same key: the same name up to ASCII case,
/// or the two spellings of Enter (`ENTER`, `RETURN`), of Escape (`ESC`,
/// `ESCAPE`) or of the menu key (`APPS`, `MENU`).
pub open spec fn same_key_name(a: Seq<char>, b: Seq<char>) -> bool {
    ||| text::eq_ascii_case(a, b)
    ||| (text::eq_ascii_case(a, "ENTER"@) || text::eq_ascii_case(a, "RETURN"@)) && (text::eq_ascii_case(
        b,
        "ENTER"@,
    ) || text::eq_ascii_case(b, "RETURN"@))
    ||| (text::eq_ascii_case(a, "ESC"@) || text::eq_ascii_case(a, "ESCAPE"@)) && (text::eq_ascii_case(
        b,
        "ESC"@,
    ) || text::eq_ascii_case(b, "ESCAPE"@))
    ||| (text::eq_ascii_case(a, "APPS"@) || text::eq_ascii_case(a, "MENU"@)) && (text::eq_ascii_case(
        b,
        "APPS"@,
    ) || text::eq_ascii_case(b, "MENU"@))
}

/// Two texts equal to a third up to ASCII case are equal to each other up
/// to ASCII case.
proof fn lemma_eq_ascii_case_through(a: Seq<char>, b: Seq<char>, l: Seq<char>)
    requires
        text::eq_ascii_case(a, l),
        text::eq_ascii_case(b, l),
    ensures
        text::eq_ascii_case(a, b),
{
    assert forall|i: int| 0 <= i < a.len() implies #[trigger] text::fold_ascii(a[i]) == text::fold_ascii(b[i]) by {
        assert(text::fold_ascii(a[i]) == text::fold_ascii(l[i]));
        assert(text::fold_ascii(b[i]) == text::fold_ascii(l[i]));
    }
}

/// Distinct keys have distinct virtual-key codes: two key names that
/// resolve to the same code name the same key.
pub proof fn lemma_named_keys_distinct(a: Seq<char>, b: Seq<char>)
    requires
        named_key(a) is Some,
        named_key(a) == named_key(b),
    ensures
        same_key_name(a, b),
{
    assert forall|l: Seq<char>| #[trigger] text::eq_ascii_case(a, l) && text::eq_ascii_case(b, l) implies text::eq_ascii_case(
        a,
        b,
    ) by {
        lemma_eq_ascii_case_through(a, b, l);
    }
}

/// The arrow keys, in any ASCII case, resolve to the Windows arrow codes:
/// `LEFT` 0x25, `UP` 0x26, `RIGHT` 0x27, `DOWN` 0x28.
pub proof fn lemma_arrow_keys(t: Seq<char>)
    ensures
        text::eq_ascii_case(t, "LEFT"@) ==> named_key(t) == Some(0x25u16),
        text::eq_ascii_case(t, "UP"@) ==> named_key(t) == Some(0x26u16),
        text::eq_ascii_case(t, "RIGHT"@) ==> named_key(t) == Some(0x27u16),
        text::eq_ascii_case(t, "DOWN"@) ==> named_key(t) == Some(0x28u16),
{
    reveal_strlit("BACKSPACE");
    reveal_strlit("TAB");
    reveal_strlit("ENTER");
    reveal_strlit("RETURN");
    reveal_strlit("ESC");
    reveal_strlit("ESCAPE");
    reveal_strlit("SPACE");
    reveal_strlit("PAGEUP");
    reveal_strlit("PAGEDOWN");
    reveal_strlit("END");
    reveal_strlit("HOME");
    reveal_strlit("LEFT");
    reveal_strlit("UP");
    reveal_strlit("RIGHT");
    reveal_strlit("DOWN");
    if text::eq_ascii_case(t, "LEFT"@) {
        assert(text::fold_ascii(t[0]) == text::fold_ascii('L'));
    }
    if text::eq_ascii_case(t, "DOWN"@) {
        assert(text::fold_ascii(t[0]) == text::fold_ascii('D'));
    }
    if text::eq_ascii_case(t, "RIGHT"@) {
        assert(text::fold_ascii(t[0]) == text::fold_ascii('R'));
    }
}

/// The virtual key of a named key.
fn named_key_code(t: &str) -> (r: Option<u16>)
    ensures
        r == named_key(t@),
{
    if eq_ignore_ascii_case(t, "BACKSPACE") {
        Some(0x08)
    } else if eq_ignore_ascii_case(t, "TAB") {
        Some(0x09)
    } else if eq_ignore_ascii_case(t, "ENTER") || eq_ignore_ascii_case(t, "RETURN") {
        Some(0x0d)
    } else if eq_ignore_ascii_case(t, "ESC") || eq_ignore_ascii_case(t, "ESCAPE") {
        Some(0x1b)
    } else if eq_ignore_ascii_case(t, "SPACE") {
        Some(0x20)
    } else if eq_ignore_ascii_case(t, "PAGEUP") {
        Some(0x21)
    } else if eq_ignore_ascii_case(t, "PAGEDOWN") {
        Some(0x22)
    } else if eq_ignore_ascii_case(t, "END") {
        Some(0x23)
    } else if eq_ignore_ascii_case(t, "HOME") {
        Some(0x24)
    } else if eq_ignore_ascii_case(t, "LEFT") {
        Some(0x25)
    } else if eq_ignore_ascii_case(t, "UP") {
        Some(0x26)
    } else if eq_ignore_ascii_case(t, "RIGHT") {
        Some(0x27)
    } else if eq_ignore_ascii_case(t, "DOWN") {
        Some(0x28)
    } else if eq_ignore_ascii_case(t, "PRINTSCREEN") {
        Some(0x2c)
    } else if eq_ignore_ascii_case(t, "INSERT") {
        Some(0x2d)
    } else if eq_ignore_ascii_case(t, "DELETE") {
        Some(0x2e)
    } else if eq_ignore_ascii_case(t, "CAPSLOCK") {
        Some(0x14)
    } else if eq_ignore_ascii_case(t, "NUMLOCK") {
        Some(0x90)
    } else if eq_ignore_ascii_case(t, "SCROLLLOCK") {
        Some(0x91)
    } else if eq_ignore_ascii_case(t, "APPS") || eq_ignore_ascii_case(t, "MENU") {
        Some(0x5d)
    } else if eq_ignore_ascii_case(t, "PLUS") {
        Some(0xbb)
    } else if eq_ignore_ascii_case(t, "MINUS") {
        Some(0xbd)
    } else if eq_ignore_ascii_case(t, "COMMA") {
        Some(0xbc)
    } else if eq_ignore_ascii_case(t, "PERIOD") {
        Some(0xbe)
    } else if eq_ignore_ascii_case(t, "NUMPAD_ADD") {
        Some(0x6b)
    } else if eq_ignore_ascii_case(t, "NUMPAD_SUBTRACT") {
        Some(0x6d)
    } else if eq_ignore_ascii_case(t, "NUMPAD_MULTIPLY") {
        Some(0x6a)
    } else if eq_ignore_ascii_case(t, "NUMPAD_DIVIDE") {
        Some(0x6f)
    } else if eq_ignore_ascii_case(t, "NUMPAD_DECIMAL") {
        Some(0x6e)
    } else {
        None
    }
}

/// The value of a run of decimal digits.
pub open spec fn digits_value(d: Seq<char>) -> nat
    decreases d.len(),
{
    if d.len() == 0 {
        0
    } else {
        digits_value(d.drop_last()) * 10 + ((d.last() as u32) - 0x30) as nat
    }
}

/// Every character is a decimal digit.
pub open spec fn all_digits(d: Seq<char>) -> bool {
    forall|i: int| 0 <= i < d.len() ==> 0x30 <= (#[trigger] d[i]) as u32 <= 0x39
}

/// What `str::parse::<u16>` makes of a text: decimal digits, optionally
/// after a `+`, whose value fits in 16 bits.
pub open spec fn parsed_u16(s: Seq<char>) -> Option<nat> {
    let d = if s.len() > 1 && s[0] == '+' {
        s.subrange(1, s.len() as int)
    } else {
        s
    };
    if d.len() > 0 && all_digits(d) && digits_value(d) <= 65535 {
        Some(digits_value(d))
    } else {
        None
    }
}

/// `min(n, 65536)`.
pub open spec fn capped(n: nat) -> nat {
    if n > 65536 {
        65536
    } else {
        n
    }
}

/// Parses a number the way `str::parse::<u16>` does.
fn parse_u16(chars: &Vec<char>, from: usize) -> (r: Option<u16>)
    requires
        from <= chars@.len(),
    ensures
        r matches Some(v) ==> parsed_u16(chars@.subrange(from as int, chars@.len() as int)) == Some(v as nat),
        r is None ==> parsed_u16(chars@.subrange(from as int, chars@.len() as int)) is None,
{
    let ghost s = chars@.subrange(from as int, chars@.len() as int);
    let mut start = from;
    if chars.len() - from > 1 && chars[from] == '+' {
        start = from + 1;
    }
    let ghost d = chars@.subrange(start as int, chars@.len() as int);
    proof {
        if s.len() > 1 && s[0] == '+' {
            assert(d =~= s.subrange(1, s.len() as int));
        } else {
            assert(d =~= s);
        }
    }
    if start == chars.len() {
        return None;
    }
    let mut value: u32 = 0;
    let mut i = start;
    while i < chars.len()
        invariant
            from <= start <= i <= chars@.len(),
            start < chars@.len(),
            s == chars@.subrange(from as int, chars@.len() as int),
            d == (if s.len() > 1 && s[0] == '+' {
                s.subrange(1, s.len() as int)
            } else {
                s
            }),
            d == chars@.subrange(start as int, chars@.len() as int),
            all_digits(chars@.subrange(start as int, i as int)),
            value == capped(digits_value(chars@.subrange(start as int, i as int))),
        decreases chars@.len() - i,
    {
        let c = chars[i] as u32;
        if c < 0x30 || c > 0x39 {
            proof {
                assert(d[i - start] == chars@[i as int]);
            }
            return None;
        }
        proof {
            let p = chars@.subrange(start as int, i as int);
            let q = chars@.subrange(start as int, i + 1);
            assert(q.drop_last() =~= p);
            assert(q.last() == chars@[i as int]);
            assert forall|k: int| 0 <= k < q.len() implies 0x30 <= (#[trigger] q[k]) as u32 <= 0x39 by {
                if k < p.len() {
                    assert(q[k] == p[k]);
                }
            }
        }
        let digit = c - 0x30;
        value = if value * 10 + digit > 65536 {
            65536
        } else {
            value * 10 + digit
        };
        i += 1;
    }
    if value > 65535 {
        None
    } else {
        Some(value as u16)
    }
}

/// The single ASCII letter or digit a key name may be, upper-cased.
pub open spec fn upper_code(c: char) -> u32 {
    let v = c as u32;
    if 0x61 <= v <= 0x7a {
        (v - 0x20) as u32
    } else {
        v
    }
}

/// Whether a code is an ASCII letter or digit.
pub open spec fn alnum_code(v: u32) -> bool {
    (0x30 <= v <= 0x39) || (0x41 <= v <= 0x5a) || (0x61 <= v <= 0x7a)
}

/// The virtual key a hotkey names (its trimmed text `t`): a single ASCII
/// letter or digit; otherwise a single UTF-16 unit that the keyboard layout
/// maps (`layout_key`, what the layout gives for it; -1 when it has no
/// key), by the low byte of the mapping; otherwise F1 to F24; otherwise a
/// named key, all up to ASCII case.
pub open spec fn key_code(t: Seq<char>, layout_key: Option<i16>) -> Option<u16> {
    if t.len() == 1 && (t[0] as u32) < 0x80 && alnum_code(t[0] as u32) {
        Some(upper_code(t[0]) as u16)
    } else if t.len() == 1 && (t[0] as u32) < 0x10000 && layout_key is Some && layout_key->0 != -1 {
        Some(((layout_key->0 as u16) & 0xffu16) as u16)
    } else if t.len() >= 1 && text::fold_ascii(t[0]) == 0x66 && parsed_u16(t.subrange(1, t.len() as int)) is Some
        && 1 <= parsed_u16(t.subrange(1, t.len() as int))->0 <= 24 {
        Some((0x70 + parsed_u16(t.subrange(1, t.len() as int))->0 - 1) as u16)
    } else {
        named_key(t)
    }
}

/// The UTF-16 unit of a key name when its trimmed text is a single one: the
/// unit whose layout mapping `virtual_key` needs.
pub fn single_utf16_unit(value: &str) -> (r: Option<u16>)
    ensures
        ({
            let t = text::trimmed(value@);
            r == if t.len() == 1 && (t[0] as u32) < 0x10000 {
                Some(t[0] as u32 as u16)
            } else {
                None::<u16>
            }
        }),
{
    let t = trim(value);
    let chars = chars_of(t.as_str());
    if chars.len() == 1 && (chars[0] as u32) < 0x10000 {
        Some(chars[0] as u32 as u16)
    } else {
        None
    }
}

/// The virtual key a hotkey's key name stands for; `layout_key` is what
/// the keyboard layout gives for the name's single UTF-16 unit
/// (`single_utf16_unit`), if it has one.
pub fn virtual_key(value: &str, layout_key: Option<i16>) -> (r: Result<u16, CommandError>)
    ensures
        match key_code(text::trimmed(value@), layout_key) {
            Some(k) => r == Ok::<u16, CommandError>(k),
            None => r matches Err(e) && e.code@ == "invalidHotkey"@ && e.message@ == "Unsupported hotkey: "@
                + text::trimmed(value@),
        },
{
    let t = trim(value);
    let chars = chars_of(t.as_str());
    if chars.len() == 1 {
        let v = chars[0] as u32;
        if v < 0x80 && ((0x30 <= v && v <= 0x39) || (0x41 <= v && v <= 0x5a) || (0x61 <= v && v <= 0x7a)) {
            let upper = if 0x61 <= v && v <= 0x7a {
                v - 0x20
            } else {
                v
            };
            return Ok(upper as u16);
        }
        if v < 0x10000 {
            if let Some(m) = layout_key {
                if m != -1 {
                    return Ok((m as u16) & 0xff);
                }
            }
        }
    }
    if chars.len() >= 1 && text::fold_char(chars[0]) == 0x66 {
        if let Some(k) = parse_u16(&chars, 1) {
            if 1 <= k && k <= 24 {
                return Ok(0x70 + k - 1);
            }
        }
    }
    match named_key_code(t.as_str()) {
        Some(k) => Ok(k),
        None => Err(CommandError { code: "invalidHotkey".to_owned(), message: text::concat("Unsupported hotkey: ", t.as_str()) }),
    }
}

} // verus!
