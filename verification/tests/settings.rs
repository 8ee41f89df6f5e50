use syntax_tree::control_error::{ControlError, ErrorCode};
use syntax_tree::settings_values::{
    accessibility_verbosity_value, adjacent_zoom_level, bool_setting_value, rename_title,
    setting_change, string_setting_value, tab_group_move_direction, theme_name, toggled_value,
    u32_setting_value, valid_font_size, valid_zoom_level, AccessibilityVerbosity, Direction,
    GroupMove, SettingChange, SettingValue,
};

const ZOOM: [u16; 7] = [50, 67, 80, 100, 110, 125, 150];

fn assert_error<T: std::fmt::Debug>(r: Result<T, ControlError>, code: ErrorCode, message: &str) {
    let e = r.unwrap_err();
    assert_eq!(e.code, code);
    assert_eq!(e.message, message);
}

fn text(s: &str) -> SettingValue {
    SettingValue::String(s.to_string())
}

#[test]
fn zoom_steps_between_neighbours() {
    assert_eq!(adjacent_zoom_level(&ZOOM, 100, 100, true), 110);
    assert_eq!(adjacent_zoom_level(&ZOOM, 100, 100, false), 80);
    assert_eq!(adjacent_zoom_level(&ZOOM, 100, 150, true), 150);
    assert_eq!(adjacent_zoom_level(&ZOOM, 100, 50, false), 50);
}

#[test]
fn unknown_zoom_steps_from_the_default() {
    assert_eq!(adjacent_zoom_level(&ZOOM, 100, 93, true), 110);
    assert_eq!(adjacent_zoom_level(&ZOOM, 100, 93, false), 80);
    // An unknown default steps from the first level.
    assert_eq!(adjacent_zoom_level(&ZOOM, 99, 93, true), 67);
    assert_eq!(adjacent_zoom_level(&ZOOM, 99, 93, false), 50);
}

#[test]
fn zoom_down_undoes_zoom_up() {
    for &z in &ZOOM[..ZOOM.len() - 1] {
        let up = adjacent_zoom_level(&ZOOM, 100, z, true);
        assert_eq!(adjacent_zoom_level(&ZOOM, 100, up, false), z);
    }
    for &z in &ZOOM[1..] {
        let down = adjacent_zoom_level(&ZOOM, 100, z, false);
        assert_eq!(adjacent_zoom_level(&ZOOM, 100, down, true), z);
    }
}

#[test]
fn every_zoom_step_is_a_valid_zoom_level() {
    for current in [0u16, 50, 93, 100, 150, 400] {
        for increase in [true, false] {
            let z = adjacent_zoom_level(&ZOOM, 100, current, increase);
            assert_eq!(valid_zoom_level(z as u32, &ZOOM).unwrap(), z);
        }
    }
}

#[test]
fn zoom_level_validation() {
    assert_eq!(valid_zoom_level(125, &ZOOM).unwrap(), 125);
    assert_error(
        valid_zoom_level(120, &ZOOM),
        ErrorCode::InvalidParams,
        "zoom level must be one of the supported zoom percentages",
    );
    let e = valid_zoom_level(70_000, &ZOOM).unwrap_err();
    assert_eq!(e.code, ErrorCode::InvalidParams);
    assert_eq!(e.message, "zoom level is outside the supported range");
    assert!(e.details.is_some());
}

#[test]
fn font_size_bounds() {
    assert_eq!(valid_font_size(5).unwrap(), 5);
    assert_eq!(valid_font_size(25).unwrap(), 25);
    assert_error(valid_font_size(4), ErrorCode::InvalidParams, "font size must be between 5 and 25");
    assert_error(valid_font_size(26), ErrorCode::InvalidParams, "font size must be between 5 and 25");
}

#[test]
fn value_shapes() {
    assert!(bool_setting_value("k", &SettingValue::Bool(true)).unwrap());
    assert_error(bool_setting_value("k", &text("yes")), ErrorCode::InvalidParams, "k requires a boolean value");
    assert_eq!(string_setting_value("k", &text("x")).unwrap(), "x");
    assert_error(string_setting_value("k", &SettingValue::Other), ErrorCode::InvalidParams, "k requires a string value");
    assert_eq!(u32_setting_value("k", &SettingValue::Unsigned(7)).unwrap(), 7);
    assert_error(
        u32_setting_value("k", &SettingValue::Unsigned(1 << 40)),
        ErrorCode::InvalidParams,
        "k requires a non-negative integer value",
    );
    assert_error(u32_setting_value("k", &SettingValue::Bool(false)), ErrorCode::InvalidParams, "k requires a non-negative integer value");
}

#[test]
fn verbosity_names() {
    for name in ["Verbose", "verbose", "VERBOSE"] {
        assert_eq!(accessibility_verbosity_value("k", &text(name)).unwrap(), AccessibilityVerbosity::Verbose);
    }
    for name in ["Concise", "concise", "CONCISE"] {
        assert_eq!(accessibility_verbosity_value("k", &text(name)).unwrap(), AccessibilityVerbosity::Concise);
    }
    assert_error(
        accessibility_verbosity_value("k", &text("vErBoSe")),
        ErrorCode::InvalidParams,
        "accessibility.accessibility_verbosity must be Verbose or Concise",
    );
    assert_error(accessibility_verbosity_value("k", &SettingValue::Bool(true)), ErrorCode::InvalidParams, "k requires a string value");
}

#[test]
fn titles_and_theme_names_are_trimmed() {
    assert_eq!(rename_title("tab.rename", "  Build \t").unwrap(), "Build");
    assert_error(rename_title("tab.rename", " \n "), ErrorCode::InvalidParams, "tab.rename title cannot be empty");
    assert_eq!(theme_name("theme.set", " Dracula ").unwrap(), "Dracula");
    assert_error(theme_name("theme.set", ""), ErrorCode::InvalidParams, "theme.set theme name cannot be empty");
}

#[test]
fn allowlisted_setting_changes() {
    assert!(setting_change("appearance.unknown", &SettingValue::Bool(true), &ZOOM).is_none());
    assert!(matches!(
        setting_change("appearance.themes.theme", &text("Dark"), &ZOOM),
        Some(Ok(SettingChange::Theme(ref t))) if t == "Dark"
    ));
    assert!(matches!(
        setting_change("appearance.themes.system_theme", &SettingValue::Bool(true), &ZOOM),
        Some(Ok(SettingChange::SystemTheme(true)))
    ));
    assert!(matches!(
        setting_change("appearance.themes.light_theme", &text("Light"), &ZOOM),
        Some(Ok(SettingChange::LightTheme(ref t))) if t == "Light"
    ));
    assert!(matches!(
        setting_change("appearance.themes.dark_theme", &text("Night"), &ZOOM),
        Some(Ok(SettingChange::DarkTheme(ref t))) if t == "Night"
    ));
    assert!(matches!(
        setting_change("appearance.text.font_name", &text("Hack"), &ZOOM),
        Some(Ok(SettingChange::FontName(ref t))) if t == "Hack"
    ));
    assert_error(
        setting_change("appearance.text.font_name", &text("  "), &ZOOM).unwrap(),
        ErrorCode::InvalidParams,
        "appearance.text.font_name cannot be empty",
    );
    assert!(matches!(
        setting_change("appearance.text.font_size", &SettingValue::Unsigned(14), &ZOOM),
        Some(Ok(SettingChange::FontSize(14)))
    ));
    assert_error(
        setting_change("appearance.text.font_size", &SettingValue::Unsigned(40), &ZOOM).unwrap(),
        ErrorCode::InvalidParams,
        "font size must be between 5 and 25",
    );
    assert!(matches!(
        setting_change("appearance.window.zoom_level", &SettingValue::Unsigned(125), &ZOOM),
        Some(Ok(SettingChange::ZoomLevel(125)))
    ));
    assert!(matches!(
        setting_change("terminal.input.syntax_highlighting", &SettingValue::Bool(false), &ZOOM),
        Some(Ok(SettingChange::SyntaxHighlighting(false)))
    ));
    assert!(matches!(
        setting_change("terminal.input.error_underlining_enabled", &SettingValue::Bool(true), &ZOOM),
        Some(Ok(SettingChange::ErrorUnderlining(true)))
    ));
    assert!(matches!(
        setting_change("accessibility.accessibility_verbosity", &text("concise"), &ZOOM),
        Some(Ok(SettingChange::AccessibilityVerbosity(AccessibilityVerbosity::Concise)))
    ));
    assert_error(
        setting_change("terminal.input.syntax_highlighting", &text("on"), &ZOOM).unwrap(),
        ErrorCode::InvalidParams,
        "terminal.input.syntax_highlighting requires a boolean value",
    );
}

#[test]
fn toggles_flip_booleans_only() {
    assert!(!toggled_value("k", &SettingValue::Bool(true)).unwrap());
    assert!(toggled_value("k", &SettingValue::Bool(false)).unwrap());
    assert_error(
        toggled_value("appearance.text.font_size", &SettingValue::Unsigned(12)),
        ErrorCode::InvalidParams,
        "appearance.text.font_size is not a boolean setting and cannot be toggled",
    );
}

#[test]
fn groups_move_only_up_or_down() {
    assert_eq!(tab_group_move_direction(Direction::Up).unwrap(), GroupMove::Up);
    assert_eq!(tab_group_move_direction(Direction::Down).unwrap(), GroupMove::Down);
    for d in [Direction::Left, Direction::Right, Direction::Previous, Direction::Next] {
        assert_error(tab_group_move_direction(d), ErrorCode::InvalidParams, "tab.group.move only accepts up or down");
    }
}

#[test]
fn a_trimmed_title_trims_to_itself() {
    let once = rename_title("tab.rename", " \u{3000}Logs 2\t").unwrap();
    assert_eq!(once, "Logs 2");
    assert_eq!(rename_title("tab.rename", &once).unwrap(), once);
}
