//! The decisions of the desktop shell around the editor: what the tray menu
//! shows, what a menu entry asks for, when the main window shows or hides,
//! and when the start-with-the-system entry changes.
use vstd::prelude::*;
use crate::domain::{AppSettings, AppSnapshot};
use crate::storage::{self, uuid_string};
use crate::text;

verus! {

/// The tray menu: the active profile, one entry per profile (identified
/// by `profile:` and the profile's UUID, the active one checked) and the
/// pause entry.
pub struct TrayMenu {
    pub status: String,
    pub profiles: Vec<(String, String)>,
    pub pause_label: String,
}

/// The label of a profile's menu entry.
pub open spec fn profile_label(name: Seq<char>, active: bool) -> Seq<char> {
    if active {
        "✓ "@ + name
    } else {
        name
    }
}

/// The tray menu for a snapshot.
pub fn tray_menu(snapshot: &AppSnapshot) -> (m: TrayMenu)
    ensures
        m.status@ == "Active: "@ + snapshot.active_profile.name@,
        m.profiles@.len() == snapshot.profiles@.len(),
        forall|i: int|
            0 <= i < snapshot.profiles@.len() ==> {
                let p = #[trigger] snapshot.profiles@[i];
                &&& m.profiles@[i].0@ == "profile:"@ + storage::uuid_text(p.id)
                &&& m.profiles@[i].1@ == profile_label(
                    p.name@,
                    p.id == snapshot.settings.active_profile_id,
                )
            },
        m.pause_label@ == if snapshot.settings.mappings_paused {
            "Resume mappings"@
        } else {
            "Pause mappings"@
        },
{
    let status = text::concat("Active: ", snapshot.active_profile.name.as_str());
    let mut profiles: Vec<(String, String)> = Vec::new();
    let mut i: usize = 0;
    while i < snapshot.profiles.len()
        invariant
            i <= snapshot.profiles@.len(),
            profiles@.len() == i,
            forall|k: int|
                0 <= k < i ==> {
                    let p = #[trigger] snapshot.profiles@[k];
                    &&& profiles@[k].0@ == "profile:"@ + storage::uuid_text(p.id)
                    &&& profiles@[k].1@ == profile_label(
                        p.name@,
                        p.id == snapshot.settings.active_profile_id,
                    )
                },
        decreases snapshot.profiles@.len() - i,
    {
        let p = &snapshot.profiles[i];
        let id = uuid_string(p.id);
        let key = text::concat("profile:", id.as_str());
        let label = if p.id == snapshot.settings.active_profile_id {
            text::concat("✓ ", p.name.as_str())
        } else {
            p.name.clone()
        };
        profiles.push((key, label));
        i += 1;
    }
    let pause_label = if snapshot.settings.mappings_paused {
        "Resume mappings".to_owned()
    } else {
        "Pause mappings".to_owned()
    };
    TrayMenu { status, profiles, pause_label }
}

/// What a tray menu entry asks for.
#[derive(Clone, Copy, Debug, PartialEq, Eq, Structural)]
pub enum MenuCommand {
    Show,
    TogglePause,
    Quit,
    ActivateProfile(u128),
    Ignore,
}

/// What the menu entry `id` asks for: `show`, `toggle-pause`, `quit`, or
/// `profile:` followed by a UUID; anything else is ignored.
pub open spec fn menu_request(id: Seq<char>) -> MenuCommand {
    if id == "show"@ {
        MenuCommand::Show
    } else if id == "toggle-pause"@ {
        MenuCommand::TogglePause
    } else if id == "quit"@ {
        MenuCommand::Quit
    } else if id.len() >= 8 && id.subrange(0, 8) == "profile:"@ {
        match storage::parsed_uuid(id.subrange(8, id.len() as int)) {
            Ok(v) => MenuCommand::ActivateProfile(v),
            Err(_) => MenuCommand::Ignore,
        }
    } else {
        MenuCommand::Ignore
    }
}

/// Reads a tray menu entry.
pub fn menu_command(id: &str) -> (r: MenuCommand)
    ensures
        r == menu_request(id@),
{
    if text::same_text(id, "show") {
        return MenuCommand::Show;
    }
    if text::same_text(id, "toggle-pause") {
        return MenuCommand::TogglePause;
    }
    if text::same_text(id, "quit") {
        return MenuCommand::Quit;
    }
    let n = text::char_count(id);
    if n >= 8 && text::same_text(id.substring_char(0, 8), "profile:") {
        return match storage::parse_uuid(id.substring_char(8, n)) {
            Ok(v) => MenuCommand::ActivateProfile(v),
            Err(_) => MenuCommand::Ignore,
        };
    }
    MenuCommand::Ignore
}

/// Whether the program was started by the system at login.
pub fn launched_at_startup(arguments: &Vec<String>) -> (r: bool)
    ensures
        r == exists|i: int|
            0 <= i < arguments@.len() && ((#[trigger] arguments@[i])@ == "--autostart"@
                || arguments@[i]@ == "--minimized"@),
{
    let mut i: usize = 0;
    while i < arguments.len()
        invariant
            i <= arguments@.len(),
            forall|k: int|
                0 <= k < i ==> !((#[trigger] arguments@[k])@ == "--autostart"@ || arguments@[k]@
                    == "--minimized"@),
        decreases arguments@.len() - i,
    {
        if text::same_text(arguments[i].as_str(), "--autostart") || text::same_text(
            arguments[i].as_str(),
            "--minimized",
        ) {
            return true;
        }
        i += 1;
    }
    false
}

/// The main window shows at launch unless the system started the program
/// and it should start minimised.
pub fn shows_window_at_launch(launched_at_startup: bool, start_minimized: bool) -> (r: bool)
    ensures
        r == !(launched_at_startup && start_minimized),
{
    !(launched_at_startup && start_minimized)
}

/// A change to the main window.
#[derive(Clone, Copy, Debug, PartialEq, Eq, Structural)]
pub enum WindowChange {
    CloseRequested,
    Resized { minimized: bool },
    Other,
}

/// Whether the main window hides (to the tray) on a change: a close when
/// closing goes to the tray, a minimising resize when minimising does;
/// without readable settings it does not.
pub fn window_hides(change: WindowChange, settings: Option<AppSettings>) -> (r: bool)
    ensures
        r == match change {
            WindowChange::CloseRequested => settings matches Some(s) && s.close_to_tray,
            WindowChange::Resized { minimized } => settings matches Some(s) && s.minimize_to_tray
                && minimized,
            WindowChange::Other => false,
        },
{
    match change {
        WindowChange::CloseRequested => match settings {
            Some(s) => s.close_to_tray,
            None => false,
        },
        WindowChange::Resized { minimized } => match settings {
            Some(s) => s.minimize_to_tray && minimized,
            None => false,
        },
        WindowChange::Other => false,
    }
}

/// The change to make to the start-with-the-system entry: none when it
/// already is as wanted.
pub fn autostart_change(enabled: bool, current: bool) -> (r: Option<bool>)
    ensures
        r == if enabled != current {
            Some(enabled)
        } else {
            None::<bool>
        },
{
    if enabled != current {
        Some(enabled)
    } else {
        None
    }
}

} // verus!
