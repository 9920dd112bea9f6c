use dawnline::config::Config;
use dawnline::theme::{DawnTheme, Rgb};

#[test]
fn theme_name_and_accent_are_selectable() {
    let dawn = DawnTheme::named("dawn");
    let opal = DawnTheme::named("opal");
    let mist = DawnTheme::named("mist");

    assert_ne!(dawn.accent, opal.accent);
    assert_ne!(opal.accent, mist.accent);

    let rose = DawnTheme::named("mist").with_accent_name("rose");

    assert_ne!(rose.accent, mist.accent);
}

#[test]
fn unknown_theme_falls_back_to_dawn_and_unknown_accent_keeps_color() {
    assert_eq!(DawnTheme::named("sepia"), DawnTheme::dawn());
    let mist = DawnTheme::named("mist");
    assert_eq!(mist.with_accent_name("neon"), mist);
    assert_eq!(DawnTheme::dawn().accent, Rgb(213, 183, 122));
    assert_eq!(DawnTheme::named("dawn").with_accent_name("sage").accent, Rgb(150, 180, 140));
    assert_eq!(DawnTheme::named("opal").with_accent_name("gold").accent, DawnTheme::dawn().accent);
}

#[test]
fn default_config_matches_documented_values() {
    let config = Config::default();
    assert_eq!(config.tagline, "Know what matters.");
    assert_eq!(config.planning.block_style, "mixed");
    assert_eq!(config.planning.loose_labels, vec!["Now", "Next", "Later"]);
    assert_eq!(config.review.scope, "day");
    assert_eq!(config.review.history_grouping, "day");
    assert_eq!(config.focus.default_minutes, 45);
    assert_eq!(config.focus.presets, vec![25, 45, 90]);
    assert_eq!(config.focus.mode, "countdown");
    assert_eq!(config.theme.name, "dawn");
    assert_eq!(config.theme.accent, "gold");
}
