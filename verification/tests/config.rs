use cargo_gui::config::{
    default_highlight_color, default_is_fullscreen, AppTheme, Config, HighlightColor,
};

#[test]
fn defaults_of_a_first_start() {
    let config = Config::default();
    assert_eq!(config.default_path, "");
    assert_eq!(config.theme, AppTheme::Light);
    assert!(!config.is_fullscreen);
    assert_eq!(config.highlight_color, HighlightColor::Yellow);
    assert_eq!(default_highlight_color(), HighlightColor::default());
    assert!(!default_is_fullscreen());
}

#[test]
fn every_theme_has_its_name() {
    let all = AppTheme::all();
    assert_eq!(all.len(), 21);
    let labels: Vec<&str> = all.iter().map(|t| t.label()).collect();
    assert_eq!(labels[0], "Hell (Light)");
    assert_eq!(labels[1], "Dunkel (Dark)");
    assert_eq!(labels[9], "Catppuccin Frappé");
    assert_eq!(labels[20], "Oxocarbon");
    for (i, label) in labels.iter().enumerate() {
        assert_eq!(labels.iter().position(|l| l == label), Some(i));
        assert_eq!(all.iter().filter(|t| **t == all[i]).count(), 1);
    }
}

#[test]
fn colours_have_their_names() {
    assert_eq!(HighlightColor::Yellow.label(), "Gelb");
    assert_eq!(HighlightColor::Green.label(), "Grün");
    assert_eq!(HighlightColor::Red.label(), "Rot");
}
