//! User preferences: the theme names, their defaults, and how a stored
//! settings file is recovered when it is missing or corrupt.
use vstd::prelude::*;

use crate::platform::{app_data_entry_in, component_texts, data_local_dir, HaloPath};

use std::path::PathBuf;
use crate::text::str_equals;

verus! {

/// The three visual personalities of the halo.
#[derive(Debug, Clone, Copy, PartialEq, Eq, Structural)]
pub enum ThemeId {
    CyberBlue,
    Sakura,
    Minimal,
}

/// The stored name of a theme.
pub open spec fn theme_name(theme: ThemeId) -> Seq<char> {
    match theme {
        ThemeId::CyberBlue => "cyber-blue"@,
        ThemeId::Sakura => "sakura"@,
        ThemeId::Minimal => "minimal"@,
    }
}

/// The theme stored under `text`, if any.
pub open spec fn theme_named(text: Seq<char>) -> Option<ThemeId> {
    if text == "cyber-blue"@ {
        Some(ThemeId::CyberBlue)
    } else if text == "sakura"@ {
        Some(ThemeId::Sakura)
    } else if text == "minimal"@ {
        Some(ThemeId::Minimal)
    } else {
        None
    }
}

impl ThemeId {
    /// Reads a theme from its stored name.
    pub fn parse(value: &str) -> (theme: Option<ThemeId>)
        ensures
            theme == theme_named(value@),
    {
        if str_equals(value, "cyber-blue") {
            Some(ThemeId::CyberBlue)
        } else if str_equals(value, "sakura") {
            Some(ThemeId::Sakura)
        } else if str_equals(value, "minimal") {
            Some(ThemeId::Minimal)
        } else {
            None
        }
    }

    /// The stored name of this theme.
    pub fn as_str(self) -> (name: &'static str)
        ensures
            name@ == theme_name(self),
    {
        match self {
            ThemeId::CyberBlue => "cyber-blue",
            ThemeId::Sakura => "sakura",
            ThemeId::Minimal => "minimal",
        }
    }
}

/// The persisted preferences.
#[derive(Debug, Clone, Copy, PartialEq, Eq, Structural)]
pub struct AppSettings {
    pub enabled: bool,
    pub theme: ThemeId,
    pub start_at_login: bool,
}

/// Enabled, Cyber Blue, not started at login.
pub open spec fn default_settings() -> AppSettings {
    AppSettings { enabled: true, theme: ThemeId::CyberBlue, start_at_login: false }
}

impl Default for AppSettings {
    /// Enabled, Cyber Blue, not started at login.
    fn default() -> (settings: AppSettings)
        ensures
            settings == default_settings(),
    {
        AppSettings { enabled: true, theme: ThemeId::CyberBlue, start_at_login: false }
    }
}

/// What was found where the settings are stored.
#[derive(Debug, Clone, Copy, PartialEq, Eq, Structural)]
pub enum StoredSettings {
    /// The file was read and holds valid settings.
    Parsed(AppSettings),
    /// The file was read but does not hold valid settings.
    Invalid,
    /// There is no settings file yet.
    Missing,
    /// The file exists but could not be read.
    Unreadable,
}

/// The settings to use, and whether defaults must be written back.
#[derive(Debug, Clone, Copy, PartialEq, Eq, Structural)]
pub struct LoadedSettings {
    pub settings: AppSettings,
    pub write_defaults: bool,
}

/// Valid stored settings are used as they are; a corrupt or missing file is
/// replaced by the defaults; an unreadable file yields the defaults and is left alone.
pub open spec fn recovered(stored: StoredSettings) -> LoadedSettings {
    match stored {
        StoredSettings::Parsed(settings) => LoadedSettings { settings, write_defaults: false },
        StoredSettings::Invalid => LoadedSettings {
            settings: default_settings(),
            write_defaults: true,
        },
        StoredSettings::Missing => LoadedSettings {
            settings: default_settings(),
            write_defaults: true,
        },
        StoredSettings::Unreadable => LoadedSettings {
            settings: default_settings(),
            write_defaults: false,
        },
    }
}

impl AppSettings {
    /// The settings file under a local data directory:
    /// `Codex Halo/settings.json`, present exactly when the data directory is.
    pub fn config_path_in(data: Option<PathBuf>) -> (path: Option<HaloPath>)
        ensures
            path is Some <==> data is Some,
            path matches Some(p) ==> p.root == data.unwrap() && component_texts(&p) == seq![
                "Codex Halo"@,
                "settings.json"@,
            ],
    {
        app_data_entry_in(data, "settings.json")
    }

    /// The settings file: `settings.json` in the application data directory.
    pub fn config_path() -> (path: Option<HaloPath>)
        ensures
            path matches Some(p) ==> component_texts(&p) == seq!["Codex Halo"@, "settings.json"@],
    {
        AppSettings::config_path_in(data_local_dir())
    }

    /// Decides which settings to use from what was found in storage.
    pub fn recover(stored: StoredSettings) -> (loaded: LoadedSettings)
        ensures
            loaded == recovered(stored),
    {
        match stored {
            StoredSettings::Parsed(settings) => LoadedSettings { settings, write_defaults: false },
            StoredSettings::Invalid => LoadedSettings {
                settings: AppSettings::default(),
                write_defaults: true,
            },
            StoredSettings::Missing => LoadedSettings {
                settings: AppSettings::default(),
                write_defaults: true,
            },
            StoredSettings::Unreadable => LoadedSettings {
                settings: AppSettings::default(),
                write_defaults: false,
            },
        }
    }
}

/// Every theme reads back from its stored name.
pub proof fn law_theme_name_round_trip(theme: ThemeId)
    ensures
        theme_named(theme_name(theme)) == Some(theme),
{
    reveal_strlit("cyber-blue");
    reveal_strlit("sakura");
    reveal_strlit("minimal");
    assert("sakura"@.len() != "cyber-blue"@.len());
    assert("minimal"@.len() != "cyber-blue"@.len());
    assert("minimal"@.len() != "sakura"@.len());
}

/// Recovering never keeps anything but valid stored settings or the defaults,
/// and defaults are written back exactly when nothing usable was stored and
/// the file was not merely unreadable.
pub proof fn law_corrupt_settings_recover_to_defaults(stored: StoredSettings)
    requires
        !(stored is Parsed),
    ensures
        recovered(stored).settings == default_settings(),
        recovered(stored).write_defaults == !(stored is Unreadable),
{
}

} // verus!
