use musicsloth::settings::{
    AppSettings, FadeSettings, InterfaceSettings, LanguageSettings, PlaybackSettings,
    ReplayGainSettings, TabConfig, ThemeSettings, SETTINGS_FILE_NAME,
};
use std::path::PathBuf;

#[test]
fn settings_file_lies_in_the_application_directory() {
    let dir = PathBuf::from("data").join("musicsloth");
    let path = AppSettings::get_settings_path(&dir);
    assert_eq!(path, dir.join("settings.json"));
    assert_eq!(path.file_name().unwrap(), "settings.json");
    assert_eq!(path.parent().unwrap(), dir.as_path());
    assert_eq!(SETTINGS_FILE_NAME, "settings.json");
}

#[test]
fn default_settings() {
    let settings = AppSettings::default();
    assert_eq!(settings.version, 1);
    assert_eq!(settings.language.language, "en");
    assert_eq!(settings.interface.theme.mode, "dark");
    assert_eq!(settings.interface.theme.accent_color, "#4CAF50");
    assert_eq!(settings.interface.theme.font_family, "system-ui");
    assert!(settings.interface.quick_actions.is_empty());
    assert!(!settings.playback.gapless);
    assert!(!settings.playback.equalizer_enabled);
    assert_eq!(settings.playback.equalizer_preset, "flat");
    assert!(!settings.playback.fade.enabled);
    assert_eq!(settings.playback.fade.fade_in_ms, 0);
    assert_eq!(settings.playback.fade.fade_out_ms, 0);
    assert!(settings.playback.replay_gain.enabled);
    assert!(settings.playback.replay_gain.calculate_unanalyzed);
    assert!(settings.playback.replay_gain.analyze_on_scan);
    assert_eq!(settings.playback.replay_gain.segments_per_minute, 10);
}

#[test]
fn default_tabs_in_their_order() {
    let tabs = InterfaceSettings::default().tabs;
    let expected = [
        ("queues", "Queues"),
        ("library", "Library"),
        ("playlists", "Playlists"),
        ("artists", "Artists"),
        ("albums", "Albums"),
        ("genres", "Genres"),
    ];
    assert_eq!(tabs.len(), expected.len());
    for (order, (tab, (id, label))) in tabs.iter().zip(expected).enumerate() {
        assert_eq!(tab.id, id);
        assert_eq!(tab.label, label);
        assert!(tab.visible);
        assert_eq!(tab.order, order as i32);
    }
}

#[test]
fn defaults_of_the_parts() {
    let tab = TabConfig::default();
    assert_eq!((tab.id.as_str(), tab.label.as_str(), tab.visible, tab.order), ("", "", true, 0));
    assert_eq!(LanguageSettings::default().language, "en");
    assert_eq!(ThemeSettings::default().mode, "dark");
    assert!(!FadeSettings::default().enabled);
    assert_eq!(ReplayGainSettings::default().segments_per_minute, 10);
    assert_eq!(PlaybackSettings::default().equalizer_preset, "flat");
}

#[test]
fn without_a_file_the_defaults_are_loaded() {
    let loaded = AppSettings::load(false, None).unwrap();
    assert_eq!(loaded.version, 1);
    assert_eq!(loaded.interface.tabs.len(), 6);
    let mut stored = AppSettings::default();
    stored.version = 7;
    stored.language.language = "fr".to_string();
    let ignored = AppSettings::load(false, Some(stored.clone())).unwrap();
    assert_eq!(ignored.version, 1);
    let loaded = AppSettings::load(true, Some(stored)).unwrap();
    assert_eq!(loaded.version, 7);
    assert_eq!(loaded.language.language, "fr");
    assert!(AppSettings::load(true, None).is_none());
}
