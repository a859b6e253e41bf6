use codex_halo::menu::{
    autostart_outcome, autostart_wanted, choose_theme, menu_command, reconcile_autostart,
    toggle_enabled, TrayCommand,
};
use codex_halo::settings::{AppSettings, LoadedSettings, StoredSettings, ThemeId};

#[test]
fn default_settings() {
    assert_eq!(
        AppSettings::default(),
        AppSettings { enabled: true, theme: ThemeId::CyberBlue, start_at_login: false }
    );
}

#[test]
fn theme_names_round_trip() {
    for theme in [ThemeId::CyberBlue, ThemeId::Sakura, ThemeId::Minimal] {
        assert_eq!(ThemeId::parse(theme.as_str()), Some(theme));
    }
    assert_eq!(ThemeId::CyberBlue.as_str(), "cyber-blue");
    assert_eq!(ThemeId::parse("cyber_blue"), None);
}

#[test]
fn stored_settings_are_kept() {
    let stored = AppSettings { enabled: false, theme: ThemeId::Sakura, start_at_login: true };
    assert_eq!(
        AppSettings::recover(StoredSettings::Parsed(stored)),
        LoadedSettings { settings: stored, write_defaults: false }
    );
}

#[test]
fn corrupt_or_missing_settings_restore_defaults() {
    for stored in [StoredSettings::Invalid, StoredSettings::Missing] {
        assert_eq!(
            AppSettings::recover(stored),
            LoadedSettings { settings: AppSettings::default(), write_defaults: true }
        );
    }
    assert_eq!(
        AppSettings::recover(StoredSettings::Unreadable),
        LoadedSettings { settings: AppSettings::default(), write_defaults: false }
    );
}

#[test]
fn settings_file_lies_in_the_app_data_directory() {
    if let Some(path) = AppSettings::config_path() {
        assert_eq!(path.components, vec!["Codex Halo", "settings.json"]);
    }
}

#[test]
fn menu_ids_map_to_commands() {
    assert_eq!(menu_command("enable"), Some(TrayCommand::ToggleEnabled));
    assert_eq!(menu_command("theme_cyber_blue"), Some(TrayCommand::SetTheme(ThemeId::CyberBlue)));
    assert_eq!(menu_command("theme_sakura"), Some(TrayCommand::SetTheme(ThemeId::Sakura)));
    assert_eq!(menu_command("theme_minimal"), Some(TrayCommand::SetTheme(ThemeId::Minimal)));
    assert_eq!(menu_command("demo"), Some(TrayCommand::StartDemo));
    assert_eq!(menu_command("autostart"), Some(TrayCommand::ToggleAutostart));
    assert_eq!(menu_command("logs"), Some(TrayCommand::OpenLogs));
    assert_eq!(menu_command("quit"), Some(TrayCommand::Quit));
    assert_eq!(menu_command("title"), None);
}

#[test]
fn menu_entries_change_one_setting_each() {
    let settings = AppSettings::default();
    assert_eq!(toggle_enabled(settings), AppSettings { enabled: false, ..settings });
    assert_eq!(choose_theme(settings, ThemeId::Minimal), AppSettings { theme: ThemeId::Minimal, ..settings });
}

#[test]
fn login_item_state_wins_at_startup() {
    let settings = AppSettings::default();
    assert_eq!(
        reconcile_autostart(settings, Some(true)),
        (AppSettings { start_at_login: true, ..settings }, true)
    );
    assert_eq!(reconcile_autostart(settings, Some(false)), (settings, false));
    assert_eq!(reconcile_autostart(settings, None), (settings, false));
}

#[test]
fn start_at_login_toggles_against_the_system_state() {
    assert!(autostart_wanted(None));
    assert!(autostart_wanted(Some(false)));
    assert!(!autostart_wanted(Some(true)));
    let settings = AppSettings::default();
    assert_eq!(
        autostart_outcome(settings, true, true),
        (AppSettings { start_at_login: true, ..settings }, true)
    );
    assert_eq!(autostart_outcome(settings, true, false), (settings, false));
}
