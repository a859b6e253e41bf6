//! The tray menu's decisions: which command a menu entry stands for, and how
//! the settings follow the Enable, Theme and Start-at-Login entries.
use vstd::prelude::*;

use crate::settings::{AppSettings, ThemeId};
use crate::text::str_equals;

verus! {

/// What a tray menu entry asks for.
#[derive(Debug, Clone, Copy, PartialEq, Eq, Structural)]
pub enum TrayCommand {
    ToggleEnabled,
    SetTheme(ThemeId),
    StartDemo,
    ToggleAutostart,
    OpenLogs,
    Quit,
}

/// The command behind a menu entry id; `None` for an id the menu does not have.
pub open spec fn command_for(id: Seq<char>) -> Option<TrayCommand> {
    if id == "enable"@ {
        Some(TrayCommand::ToggleEnabled)
    } else if id == "theme_cyber_blue"@ {
        Some(TrayCommand::SetTheme(ThemeId::CyberBlue))
    } else if id == "theme_sakura"@ {
        Some(TrayCommand::SetTheme(ThemeId::Sakura))
    } else if id == "theme_minimal"@ {
        Some(TrayCommand::SetTheme(ThemeId::Minimal))
    } else if id == "demo"@ {
        Some(TrayCommand::StartDemo)
    } else if id == "autostart"@ {
        Some(TrayCommand::ToggleAutostart)
    } else if id == "logs"@ {
        Some(TrayCommand::OpenLogs)
    } else if id == "quit"@ {
        Some(TrayCommand::Quit)
    } else {
        None
    }
}

/// Reads the command behind a menu entry id.
pub fn menu_command(id: &str) -> (command: Option<TrayCommand>)
    ensures
        command == command_for(id@),
{
    if str_equals(id, "enable") {
        Some(TrayCommand::ToggleEnabled)
    } else if str_equals(id, "theme_cyber_blue") {
        Some(TrayCommand::SetTheme(ThemeId::CyberBlue))
    } else if str_equals(id, "theme_sakura") {
        Some(TrayCommand::SetTheme(ThemeId::Sakura))
    } else if str_equals(id, "theme_minimal") {
        Some(TrayCommand::SetTheme(ThemeId::Minimal))
    } else if str_equals(id, "demo") {
        Some(TrayCommand::StartDemo)
    } else if str_equals(id, "autostart") {
        Some(TrayCommand::ToggleAutostart)
    } else if str_equals(id, "logs") {
        Some(TrayCommand::OpenLogs)
    } else if str_equals(id, "quit") {
        Some(TrayCommand::Quit)
    } else {
        None
    }
}

/// The settings after the Enable entry is clicked: only `enabled` flips.
pub fn toggle_enabled(settings: AppSettings) -> (next: AppSettings)
    ensures
        next == (AppSettings { enabled: !settings.enabled, ..settings }),
{
    AppSettings { enabled: !settings.enabled, ..settings }
}

/// The settings after a theme entry is chosen: only the theme changes.
pub fn choose_theme(settings: AppSettings, theme: ThemeId) -> (next: AppSettings)
    ensures
        next == (AppSettings { theme, ..settings }),
{
    AppSettings { theme, ..settings }
}

/// At startup the login item is the truth: when the system reports whether
/// Codex Halo starts at login and that disagrees with the stored setting, the
/// setting follows it and must be saved. When the system cannot tell, the
/// stored setting stands.
pub fn reconcile_autostart(settings: AppSettings, reported: Option<bool>) -> (reconciled: (AppSettings, bool))
    ensures
        reconciled == match reported {
            Some(actual) => if actual != settings.start_at_login {
                (AppSettings { start_at_login: actual, ..settings }, true)
            } else {
                (settings, false)
            },
            None => (settings, false),
        },
{
    let actual = match reported {
        Some(actual) => actual,
        None => settings.start_at_login,
    };
    if actual != settings.start_at_login {
        (AppSettings { start_at_login: actual, ..settings }, true)
    } else {
        (settings, false)
    }
}

/// What clicking Start at Login asks for: the opposite of what the system
/// reports, an unknown state counting as off.
pub fn autostart_wanted(reported: Option<bool>) -> (desired: bool)
    ensures
        desired == match reported {
            Some(enabled) => !enabled,
            None => true,
        },
{
    match reported {
        Some(enabled) => !enabled,
        None => true,
    }
}

/// After asking the system to switch the login item to `desired`: on success
/// the setting follows (and is saved) and the entry shows `desired`; on
/// failure the settings stay and the entry shows the previous state again.
pub fn autostart_outcome(settings: AppSettings, desired: bool, switched: bool) -> (outcome: (AppSettings, bool))
    ensures
        outcome == if switched {
            (AppSettings { start_at_login: desired, ..settings }, desired)
        } else {
            (settings, !desired)
        },
{
    if switched {
        (AppSettings { start_at_login: desired, ..settings }, desired)
    } else {
        (settings, !desired)
    }
}

} // verus!
