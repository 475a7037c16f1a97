//! Application settings and their defaults.
//!
//! Reading and writing the settings file is the caller's business; what the
//! settings are when no file exists is decided here.

use std::path::PathBuf;
use vstd::prelude::*;

verus! {

/// Name of the settings file inside the application's data directory.
pub const SETTINGS_FILE_NAME: &'static str = "settings.json";

/// A path of the standard library.  Verus does not look inside it.
#[verifier::external_type_specification]
#[verifier::external_body]
pub struct ExPathBuf(PathBuf);

/// Visibility and order of one tab.
#[derive(Debug, Clone)]
pub struct TabConfig {
    pub id: String,
    pub label: String,
    pub visible: bool,
    pub order: i32,
}

/// Language settings.
#[derive(Debug, Clone)]
pub struct LanguageSettings {
    pub language: String,
}

/// Theme settings.
#[derive(Debug, Clone)]
pub struct ThemeSettings {
    pub mode: String,
    pub accent_color: String,
    pub font_family: String,
}

/// Interface settings.
#[derive(Debug, Clone)]
pub struct InterfaceSettings {
    pub theme: ThemeSettings,
    pub tabs: Vec<TabConfig>,
    pub quick_actions: Vec<String>,
}

/// Fade settings, in milliseconds.
#[derive(Debug, Clone)]
pub struct FadeSettings {
    pub enabled: bool,
    pub fade_in_ms: i32,
    pub fade_out_ms: i32,
}

/// Replay gain settings.
#[derive(Debug, Clone)]
pub struct ReplayGainSettings {
    pub enabled: bool,
    pub calculate_unanalyzed: bool,
    pub analyze_on_scan: bool,
    pub segments_per_minute: i32,
}

/// Playback settings.
#[derive(Debug, Clone)]
pub struct PlaybackSettings {
    pub gapless: bool,
    pub fade: FadeSettings,
    pub equalizer_enabled: bool,
    pub equalizer_preset: String,
    pub replay_gain: ReplayGainSettings,
}

/// All settings of the application.
#[derive(Debug, Clone)]
pub struct AppSettings {
    pub version: i32,
    pub language: LanguageSettings,
    pub interface: InterfaceSettings,
    pub playback: PlaybackSettings,
}

/// Whether `tab` is the visible tab `id` labelled `label` at place `order`.
pub open spec fn is_tab(tab: TabConfig, id: Seq<char>, label: Seq<char>, order: int) -> bool {
    tab.id@ == id && tab.label@ == label && tab.visible && tab.order == order
}

/// Whether `tabs` are the six tabs of a fresh installation, in their order.
pub open spec fn default_tabs(tabs: Seq<TabConfig>) -> bool {
    &&& tabs.len() == 6
    &&& is_tab(tabs[0], "queues"@, "Queues"@, 0)
    &&& is_tab(tabs[1], "library"@, "Library"@, 1)
    &&& is_tab(tabs[2], "playlists"@, "Playlists"@, 2)
    &&& is_tab(tabs[3], "artists"@, "Artists"@, 3)
    &&& is_tab(tabs[4], "albums"@, "Albums"@, 4)
    &&& is_tab(tabs[5], "genres"@, "Genres"@, 5)
}

/// Whether `theme` is the default one: dark, green, in the system's font.
pub open spec fn default_theme(theme: ThemeSettings) -> bool {
    theme.mode@ == "dark"@ && theme.accent_color@ == "#4CAF50"@ && theme.font_family@
        == "system-ui"@
}

/// Whether `fade` is the default: no fading.
pub open spec fn default_fade(fade: FadeSettings) -> bool {
    !fade.enabled && fade.fade_in_ms == 0 && fade.fade_out_ms == 0
}

/// Whether `gain` is the default: everything on, ten segments a minute.
pub open spec fn default_replay_gain(gain: ReplayGainSettings) -> bool {
    gain.enabled && gain.calculate_unanalyzed && gain.analyze_on_scan && gain.segments_per_minute
        == 10
}

/// Whether `interface` is the default interface.
pub open spec fn default_interface(interface: InterfaceSettings) -> bool {
    default_theme(interface.theme) && default_tabs(interface.tabs@) && interface.quick_actions@.len()
        == 0
}

/// Whether `playback` is the default playback.
pub open spec fn default_playback(playback: PlaybackSettings) -> bool {
    &&& !playback.gapless
    &&& default_fade(playback.fade)
    &&& !playback.equalizer_enabled
    &&& playback.equalizer_preset@ == "flat"@
    &&& default_replay_gain(playback.replay_gain)
}

/// Whether `settings` are those of a fresh installation.
pub open spec fn default_settings(settings: AppSettings) -> bool {
    &&& settings.version == 1
    &&& settings.language.language@ == "en"@
    &&& default_interface(settings.interface)
    &&& default_playback(settings.playback)
}

/// A visible tab.
fn tab(id: &str, label: &str, order: i32) -> (made: TabConfig)
    ensures
        is_tab(made, id@, label@, order as int),
{
    TabConfig { id: id.to_owned(), label: label.to_owned(), visible: true, order }
}

impl Default for TabConfig {
    fn default() -> (made: TabConfig)
        ensures
            made.id@.len() == 0,
            made.label@.len() == 0,
            made.visible,
            made.order == 0,
    {
        TabConfig { id: String::new(), label: String::new(), visible: true, order: 0 }
    }
}

impl Default for LanguageSettings {
    fn default() -> (made: LanguageSettings)
        ensures
            made.language@ == "en"@,
    {
        LanguageSettings { language: "en".to_owned() }
    }
}

impl Default for ThemeSettings {
    fn default() -> (made: ThemeSettings)
        ensures
            default_theme(made),
    {
        ThemeSettings {
            mode: "dark".to_owned(),
            accent_color: "#4CAF50".to_owned(),
            font_family: "system-ui".to_owned(),
        }
    }
}

impl Default for InterfaceSettings {
    fn default() -> (made: InterfaceSettings)
        ensures
            default_interface(made),
    {
        let mut tabs: Vec<TabConfig> = Vec::new();
        tabs.push(tab("queues", "Queues", 0));
        tabs.push(tab("library", "Library", 1));
        tabs.push(tab("playlists", "Playlists", 2));
        tabs.push(tab("artists", "Artists", 3));
        tabs.push(tab("albums", "Albums", 4));
        tabs.push(tab("genres", "Genres", 5));
        InterfaceSettings { theme: ThemeSettings::default(), tabs, quick_actions: Vec::new() }
    }
}

impl Default for FadeSettings {
    fn default() -> (made: FadeSettings)
        ensures
            default_fade(made),
    {
        FadeSettings { enabled: false, fade_in_ms: 0, fade_out_ms: 0 }
    }
}

impl Default for ReplayGainSettings {
    fn default() -> (made: ReplayGainSettings)
        ensures
            default_replay_gain(made),
    {
        ReplayGainSettings {
            enabled: true,
            calculate_unanalyzed: true,
            analyze_on_scan: true,
            segments_per_minute: 10,
        }
    }
}

impl Default for PlaybackSettings {
    fn default() -> (made: PlaybackSettings)
        ensures
            default_playback(made),
    {
        PlaybackSettings {
            gapless: false,
            fade: FadeSettings::default(),
            equalizer_enabled: false,
            equalizer_preset: "flat".to_owned(),
            replay_gain: ReplayGainSettings::default(),
        }
    }
}

impl Default for AppSettings {
    fn default() -> (made: AppSettings)
        ensures
            default_settings(made),
    {
        AppSettings {
            version: 1,
            language: LanguageSettings::default(),
            interface: InterfaceSettings::default(),
            playback: PlaybackSettings::default(),
        }
    }
}

/// `Path::join`: `directory` with `name` adjoined.  How the two are joined is
/// the platform's matter, so nothing is stated of the result.
#[verifier::external_body]
fn join_path(directory: &PathBuf, name: &str) -> (joined: PathBuf) {
    directory.join(name)
}

impl AppSettings {
    /// Where the settings file lies: `SETTINGS_FILE_NAME` inside `app_dir`.
    pub fn get_settings_path(app_dir: &PathBuf) -> (path: PathBuf) {
        join_path(app_dir, SETTINGS_FILE_NAME)
    }

    /// The settings in force where the settings file `exists` or not and
    /// `stored` is what was read from it: without a file the defaults, else
    /// what was stored.
    pub fn load(exists: bool, stored: Option<AppSettings>) -> (loaded: Option<AppSettings>)
        ensures
            !exists ==> loaded is Some && default_settings(loaded->Some_0),
            exists ==> loaded == stored,
    {
        if !exists {
            Some(AppSettings::default())
        } else {
            stored
        }
    }
}

} // verus!
