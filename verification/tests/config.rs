use ped::color::{ColorValue, Colors};
use ped::config::{
    color_value_text, default_bindings, Configuration, ExternalConfiguration, Settings, SettingsPatch, Theme,
    ThemePatch,
};
use ped::error::Error;
use ped::key::Key;
use ped::opt::Options;

fn no_theme() -> ThemePatch {
    ThemePatch {
        text_fg: None,
        text_bg: None,
        select_bg: None,
        spotlight_bg: None,
        whitespace_fg: None,
        accent_fg: None,
        echo_fg: None,
        prompt_fg: None,
        banner_fg: None,
        active_bg: None,
        inactive_bg: None,
        margin_fg: None,
        margin_bg: None,
        line_fg: None,
    }
}

fn args(list: &[&str]) -> Vec<String> {
    list.iter().map(|s| s.to_string()).collect()
}

#[test]
fn default_settings_and_theme() {
    let s = Settings::default();
    assert!(s.spotlight && s.lines && !s.eol && !s.tab_hard && s.tab_size == 4 && !s.track_lateral);
    let t = Theme::default();
    assert!(t.text_fg == 252 && t.text_bg == 233 && t.select_bg == 88 && t.line_fg == 81);
}

#[test]
fn default_bindings_are_valid() {
    let b = match default_bindings() {
        Ok(b) => b,
        Err(e) => panic!("default bindings failed: {:?}", e),
    };
    assert!(b.find(&vec![Key::Control(17)]) == Some(&"quit".to_string()));
    assert!(b.find(&vec![Key::Control(27), Key::Char('h'), Key::Char('k')]) == Some(&"help-keys".to_string()));
}

#[test]
fn settings_patch_applies_given_values() {
    let mut s = Settings::default();
    s.apply(&Some(SettingsPatch {
        spotlight: Some(false),
        lines: None,
        eol: Some(true),
        tab_hard: None,
        tab_size: Some(8),
        track_lateral: None,
    }));
    assert!(!s.spotlight && s.lines && s.eol && !s.tab_hard && s.tab_size == 8);
    let before = s;
    s.apply(&None);
    assert!(s == before);
}

#[test]
fn options_override_settings() {
    let opts = match Options::parse(&args(&["--tab-size", "2", "--tab-hard"])) {
        Ok(o) => o,
        Err(e) => panic!("options expected: {:?}", e),
    };
    let mut s = Settings::default();
    s.apply_opts(&opts);
    assert!(s.tab_size == 2 && s.tab_hard);
}

#[test]
fn theme_resolves_names_and_numbers() {
    let colors = Colors::default();
    let mut t = Theme::default();
    let mut p = no_theme();
    p.text_fg = Some(ColorValue::Name("red".to_string()));
    p.text_bg = Some(ColorValue::Number(17));
    p.line_fg = Some(ColorValue::Name("42".to_string()));
    assert!(t.apply(&Some(p), &colors).is_ok());
    assert!(t.text_fg == 1 && t.text_bg == 17 && t.line_fg == 42 && t.select_bg == 88);
}

#[test]
fn theme_with_unknown_color_stops_there() {
    let colors = Colors::default();
    let mut t = Theme::default();
    let mut p = no_theme();
    p.text_fg = Some(ColorValue::Number(3));
    p.echo_fg = Some(ColorValue::Name("mauve".to_string()));
    match t.apply(&Some(p), &colors) {
        Err(Error::InvalidColor { name }) => assert!(name == "mauve"),
        _ => panic!("invalid color expected"),
    }
    assert!(t.text_fg == 3);
    let mut rest = t;
    rest.text_fg = Theme::default().text_fg;
    assert!(rest == Theme::default());
    assert!(color_value_text(&ColorValue::Number(7)) == "7");
}

#[test]
fn external_configuration_applies_in_turn() {
    let mut config = match Configuration::new() {
        Ok(c) => c,
        Err(e) => panic!("configuration expected: {:?}", e),
    };
    let mut theme = no_theme();
    theme.accent_fg = Some(ColorValue::Name("mine".to_string()));
    let ext = ExternalConfiguration {
        settings: Some(SettingsPatch {
            spotlight: None,
            lines: Some(false),
            eol: None,
            tab_hard: None,
            tab_size: None,
            track_lateral: Some(true),
        }),
        colors: Some(vec![("mine".to_string(), 99)]),
        theme: Some(theme),
        bindings: Some(vec![("C-b".to_string(), "redo".to_string())]),
    };
    assert!(config.apply(&ext).is_ok());
    assert!(!config.settings.lines && config.settings.track_lateral);
    assert!(config.theme.accent_fg == 99);
    assert!(config.bindings.find(&vec![Key::Control(2)]) == Some(&"redo".to_string()));
}

#[test]
fn external_configuration_rejects_bad_binding() {
    let mut config = match Configuration::new() {
        Ok(c) => c,
        Err(e) => panic!("configuration expected: {:?}", e),
    };
    let ext = ExternalConfiguration {
        settings: None,
        colors: None,
        theme: None,
        bindings: Some(vec![("C-b".to_string(), "no-such-op".to_string())]),
    };
    match config.apply(&ext) {
        Err(Error::InvalidOp { op }) => assert!(op == "no-such-op"),
        _ => panic!("invalid op expected"),
    }
}

#[test]
fn theme_applies_colors_up_to_an_unknown_one() {
    let colors = Colors::default();
    let mut theme = Theme::default();
    let before = theme;
    let mut patch = no_theme();
    patch.text_fg = Some(ColorValue::Number(1));
    patch.text_bg = Some(ColorValue::Number(2));
    patch.select_bg = Some(ColorValue::Name("no-such-color".to_string()));
    patch.line_fg = Some(ColorValue::Number(3));
    match theme.apply(&Some(patch), &colors) {
        Err(Error::InvalidColor { name }) => assert_eq!(name, "no-such-color"),
        _ => panic!("expected an invalid color"),
    }
    assert_eq!(theme.text_fg, 1);
    assert_eq!(theme.text_bg, 2);
    assert_eq!(theme.select_bg, before.select_bg);
    assert_eq!(theme.line_fg, before.line_fg);
}
