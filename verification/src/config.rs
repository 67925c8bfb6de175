//! The settings that outlive a run.

use vstd::prelude::*;

verus! {

/// The themes offered in the settings.
#[derive(Debug, Clone, Copy, PartialEq, Eq, Structural)]
pub enum AppTheme {
    Light,
    Dark,
    Dracula,
    Nord,
    SolarizedLight,
    SolarizedDark,
    GruvboxLight,
    GruvboxDark,
    CatppuccinLatte,
    CatppuccinFrappe,
    CatppuccinMacchiato,
    CatppuccinMocha,
    TokyoNight,
    TokyoNightStorm,
    TokyoNightLight,
    KanagawaWave,
    KanagawaDragon,
    KanagawaLotus,
    Moonfly,
    Nightfly,
    Oxocarbon,
}

/// All themes, in the order in which they are offered.
pub open spec fn all_themes() -> Seq<AppTheme> {
    seq![
        AppTheme::Light,
        AppTheme::Dark,
        AppTheme::Dracula,
        AppTheme::Nord,
        AppTheme::SolarizedLight,
        AppTheme::SolarizedDark,
        AppTheme::GruvboxLight,
        AppTheme::GruvboxDark,
        AppTheme::CatppuccinLatte,
        AppTheme::CatppuccinFrappe,
        AppTheme::CatppuccinMacchiato,
        AppTheme::CatppuccinMocha,
        AppTheme::TokyoNight,
        AppTheme::TokyoNightStorm,
        AppTheme::TokyoNightLight,
        AppTheme::KanagawaWave,
        AppTheme::KanagawaDragon,
        AppTheme::KanagawaLotus,
        AppTheme::Moonfly,
        AppTheme::Nightfly,
        AppTheme::Oxocarbon,
    ]
}

/// The place of a theme among all themes.
pub open spec fn theme_index(theme: AppTheme) -> int {
    match theme {
        AppTheme::Light => 0,
        AppTheme::Dark => 1,
        AppTheme::Dracula => 2,
        AppTheme::Nord => 3,
        AppTheme::SolarizedLight => 4,
        AppTheme::SolarizedDark => 5,
        AppTheme::GruvboxLight => 6,
        AppTheme::GruvboxDark => 7,
        AppTheme::CatppuccinLatte => 8,
        AppTheme::CatppuccinFrappe => 9,
        AppTheme::CatppuccinMacchiato => 10,
        AppTheme::CatppuccinMocha => 11,
        AppTheme::TokyoNight => 12,
        AppTheme::TokyoNightStorm => 13,
        AppTheme::TokyoNightLight => 14,
        AppTheme::KanagawaWave => 15,
        AppTheme::KanagawaDragon => 16,
        AppTheme::KanagawaLotus => 17,
        AppTheme::Moonfly => 18,
        AppTheme::Nightfly => 19,
        AppTheme::Oxocarbon => 20,
    }
}

/// The name of a theme as the user reads it.
pub open spec fn theme_label(theme: AppTheme) -> Seq<char> {
    match theme {
        AppTheme::Light => "Hell (Light)"@,
        AppTheme::Dark => "Dunkel (Dark)"@,
        AppTheme::Dracula => "Dracula"@,
        AppTheme::Nord => "Nord"@,
        AppTheme::SolarizedLight => "Solarized Light"@,
        AppTheme::SolarizedDark => "Solarized Dark"@,
        AppTheme::GruvboxLight => "Gruvbox Light"@,
        AppTheme::GruvboxDark => "Gruvbox Dark"@,
        AppTheme::CatppuccinLatte => "Catppuccin Latte"@,
        AppTheme::CatppuccinFrappe => "Catppuccin Frappé"@,
        AppTheme::CatppuccinMacchiato => "Catppuccin Macchiato"@,
        AppTheme::CatppuccinMocha => "Catppuccin Mocha"@,
        AppTheme::TokyoNight => "Tokyo Night"@,
        AppTheme::TokyoNightStorm => "Tokyo Night Storm"@,
        AppTheme::TokyoNightLight => "Tokyo Night Light"@,
        AppTheme::KanagawaWave => "Kanagawa Wave"@,
        AppTheme::KanagawaDragon => "Kanagawa Dragon"@,
        AppTheme::KanagawaLotus => "Kanagawa Lotus"@,
        AppTheme::Moonfly => "Moonfly"@,
        AppTheme::Nightfly => "Nightfly"@,
        AppTheme::Oxocarbon => "Oxocarbon"@,
    }
}

/// Every theme is offered, at one place.
pub proof fn law_every_theme_offered_once(theme: AppTheme, i: int)
    ensures
        0 <= theme_index(theme) < all_themes().len(),
        all_themes()[theme_index(theme)] == theme,
        0 <= i < all_themes().len() && all_themes()[i] == theme ==> i == theme_index(theme),
{
}

impl AppTheme {
    /// All themes, in the order in which they are offered.
    pub fn all() -> (r: Vec<AppTheme>)
        ensures
            r@ == all_themes(),
    {
        vec![
            AppTheme::Light,
            AppTheme::Dark,
            AppTheme::Dracula,
            AppTheme::Nord,
            AppTheme::SolarizedLight,
            AppTheme::SolarizedDark,
            AppTheme::GruvboxLight,
            AppTheme::GruvboxDark,
            AppTheme::CatppuccinLatte,
            AppTheme::CatppuccinFrappe,
            AppTheme::CatppuccinMacchiato,
            AppTheme::CatppuccinMocha,
            AppTheme::TokyoNight,
            AppTheme::TokyoNightStorm,
            AppTheme::TokyoNightLight,
            AppTheme::KanagawaWave,
            AppTheme::KanagawaDragon,
            AppTheme::KanagawaLotus,
            AppTheme::Moonfly,
            AppTheme::Nightfly,
            AppTheme::Oxocarbon,
        ]
    }

    /// The name as the user reads it.
    pub fn label(&self) -> (r: &'static str)
        ensures
            r@ == theme_label(*self),
    {
        match self {
            AppTheme::Light => "Hell (Light)",
            AppTheme::Dark => "Dunkel (Dark)",
            AppTheme::Dracula => "Dracula",
            AppTheme::Nord => "Nord",
            AppTheme::SolarizedLight => "Solarized Light",
            AppTheme::SolarizedDark => "Solarized Dark",
            AppTheme::GruvboxLight => "Gruvbox Light",
            AppTheme::GruvboxDark => "Gruvbox Dark",
            AppTheme::CatppuccinLatte => "Catppuccin Latte",
            AppTheme::CatppuccinFrappe => "Catppuccin Frappé",
            AppTheme::CatppuccinMacchiato => "Catppuccin Macchiato",
            AppTheme::CatppuccinMocha => "Catppuccin Mocha",
            AppTheme::TokyoNight => "Tokyo Night",
            AppTheme::TokyoNightStorm => "Tokyo Night Storm",
            AppTheme::TokyoNightLight => "Tokyo Night Light",
            AppTheme::KanagawaWave => "Kanagawa Wave",
            AppTheme::KanagawaDragon => "Kanagawa Dragon",
            AppTheme::KanagawaLotus => "Kanagawa Lotus",
            AppTheme::Moonfly => "Moonfly",
            AppTheme::Nightfly => "Nightfly",
            AppTheme::Oxocarbon => "Oxocarbon",
        }
    }
}

impl Default for AppTheme {
    /// The light theme.
    fn default() -> (r: Self)
        ensures
            r == AppTheme::Light,
    {
        AppTheme::Light
    }
}

/// The colours offered for the current match in the editor.
///
/// The chosen one is stored with the settings and restored at the next start.
#[derive(Debug, Clone, Copy, PartialEq, Eq, Structural)]
pub enum HighlightColor {
    /// Yellow, the default.
    Yellow,
    Green,
    Red,
}

/// The name of a colour as the user reads it.
pub open spec fn color_label(color: HighlightColor) -> Seq<char> {
    match color {
        HighlightColor::Yellow => "Gelb"@,
        HighlightColor::Green => "Grün"@,
        HighlightColor::Red => "Rot"@,
    }
}

impl HighlightColor {
    /// The name as the user reads it.
    pub fn label(&self) -> (r: &'static str)
        ensures
            r@ == color_label(*self),
    {
        match self {
            HighlightColor::Yellow => "Gelb",
            HighlightColor::Green => "Grün",
            HighlightColor::Red => "Rot",
        }
    }
}

impl Default for HighlightColor {
    /// Yellow.
    fn default() -> (r: Self)
        ensures
            r == HighlightColor::Yellow,
    {
        HighlightColor::Yellow
    }
}

/// The colour of settings that name none.
pub fn default_highlight_color() -> (r: HighlightColor)
    ensures
        r == HighlightColor::Yellow,
{
    HighlightColor::Yellow
}

/// The window mode of settings that name none.
pub fn default_is_fullscreen() -> (r: bool)
    ensures
        r == false,
{
    false
}

/// The settings that the rules of this library read or write.
#[derive(Debug, Clone)]
pub struct Config {
    /// The project directory at the start.
    pub default_path: String,
    pub theme: AppTheme,
    /// Whether the window filled the screen when it was last seen.
    pub is_fullscreen: bool,
    /// The colour chosen for the current match in the editor.
    pub highlight_color: HighlightColor,
}

/// What a [`Config`] holds.
#[verifier::ext_equal]
pub struct ConfigModel {
    pub default_path: Seq<char>,
    pub theme: AppTheme,
    pub is_fullscreen: bool,
    pub highlight_color: HighlightColor,
}

impl View for Config {
    type V = ConfigModel;

    open spec fn view(&self) -> ConfigModel {
        ConfigModel {
            default_path: self.default_path@,
            theme: self.theme,
            is_fullscreen: self.is_fullscreen,
            highlight_color: self.highlight_color,
        }
    }
}

/// The settings of a first start.
pub open spec fn default_config() -> ConfigModel {
    ConfigModel {
        default_path: Seq::empty(),
        theme: AppTheme::Light,
        is_fullscreen: false,
        highlight_color: HighlightColor::Yellow,
    }
}

impl Default for Config {
    /// The settings of a first start.
    fn default() -> (r: Self)
        ensures
            r@ == default_config(),
    {
        Config {
            default_path: String::new(),
            theme: AppTheme::default(),
            is_fullscreen: default_is_fullscreen(),
            highlight_color: default_highlight_color(),
        }
    }
}

} // verus!
