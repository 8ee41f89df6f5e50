//! Validation of the values that local-control requests ask settings to take,
//! and the zoom-level steps.

use vstd::prelude::*;

use crate::control_error::{concat2, ControlError, ErrorCode};
use crate::text::{str_equal, trim, trimmed};

verus! {

/// A setting value as a request carries it, by the shapes the settings read.
#[derive(Debug)]
pub enum SettingValue {
    Bool(bool),
    String(String),
    /// A non-negative integer that fits in `u64`.
    Unsigned(u64),
    /// Any other value (null, negative or fractional numbers, arrays, objects).
    Other,
}

/// Index of the first `x` in `s`, if any.
pub open spec fn first_index(s: Seq<u16>, x: u16) -> Option<int>
    decreases s.len(),
{
    if s.len() == 0 {
        None
    } else if s[0] == x {
        Some(0)
    } else {
        match first_index(s.drop_first(), x) {
            Some(i) => Some(i + 1),
            None => None,
        }
    }
}

proof fn lemma_first_index_bound(s: Seq<u16>, x: u16)
    ensures
        first_index(s, x) matches Some(i) ==> 0 <= i < s.len() && s[i] == x,
        first_index(s, x) is None ==> !s.contains(x),
    decreases s.len(),
{
    if s.len() > 0 {
        lemma_first_index_bound(s.drop_first(), x);
        if first_index(s, x) is None {
            assert forall|i: int| 0 <= i < s.len() implies s[i] != x by {
                if i > 0 {
                    assert(s[i] == s.drop_first()[i - 1]);
                }
            }
        }
    }
}

fn position(values: &[u16], x: u16) -> (r: Option<usize>)
    ensures
        (match r {
            Some(i) => Some(i as int),
            None => None,
        }) == first_index(values@, x),
{
    let mut i: usize = 0;
    assert(values@.skip(0) =~= values@);
    while i < values.len()
        invariant
            i <= values.len(),
            first_index(values@, x) == (match first_index(values@.skip(i as int), x) {
                Some(k) => Some(k + i),
                None => None,
            }),
        decreases values.len() - i,
    {
        assert(values@.skip(i as int)[0] == values@[i as int]);
        assert(values@.skip(i as int).drop_first() =~= values@.skip(i + 1));
        if values[i] == x {
            return Some(i);
        }
        i += 1;
    }
    assert(values@.skip(i as int) =~= Seq::<u16>::empty());
    None
}

/// The zoom level one step up (`increase`) or down from `current` among
/// `values`, staying at the ends; an unknown `current` steps from `default`,
/// and an unknown `default` from the first level.
pub open spec fn adjacent_zoom(values: Seq<u16>, default: u16, current: u16, increase: bool) -> u16 {
    let default_index = match first_index(values, default) {
        Some(i) => i,
        None => 0,
    };
    let current_index = match first_index(values, current) {
        Some(i) => i,
        None => default_index,
    };
    let next = if increase {
        if current_index + 1 < values.len() {
            current_index + 1
        } else {
            values.len() - 1
        }
    } else if current_index > 0 {
        current_index - 1
    } else {
        0
    };
    values[next]
}

/// No value occurs twice in `s`.
pub open spec fn distinct_values(s: Seq<u16>) -> bool {
    forall|i: int, j: int| 0 <= i < j < s.len() ==> s[i] != s[j]
}

proof fn lemma_first_index_of_distinct(s: Seq<u16>, i: int)
    requires
        distinct_values(s),
        0 <= i < s.len(),
    ensures
        first_index(s, s[i]) == Some(i),
{
    lemma_first_index_bound(s, s[i]);
    assert(s.contains(s[i]));
}

/// Among distinct zoom levels, stepping down undoes stepping up from any
/// supported level below the highest.
pub proof fn lemma_zoom_down_undoes_up(values: Seq<u16>, default: u16, current: u16)
    requires
        distinct_values(values),
        values.contains(current),
        current != values.last(),
    ensures
        adjacent_zoom(values, default, adjacent_zoom(values, default, current, true), false) == current,
{
    let i = choose|i: int| 0 <= i < values.len() && values[i] == current;
    lemma_first_index_of_distinct(values, i);
    assert(i + 1 < values.len());
    lemma_first_index_of_distinct(values, i + 1);
}

/// Among distinct zoom levels, stepping up undoes stepping down from any
/// supported level above the lowest.
pub proof fn lemma_zoom_up_undoes_down(values: Seq<u16>, default: u16, current: u16)
    requires
        distinct_values(values),
        values.contains(current),
        current != values[0],
    ensures
        adjacent_zoom(values, default, adjacent_zoom(values, default, current, false), true) == current,
{
    let i = choose|i: int| 0 <= i < values.len() && values[i] == current;
    lemma_first_index_of_distinct(values, i);
    assert(i > 0);
    lemma_first_index_of_distinct(values, i - 1);
}

/// A zoom step never leaves the supported levels, so the level it picks is
/// one a request may set ([`valid_zoom_level`] accepts it).
pub proof fn lemma_zoom_step_is_supported(values: Seq<u16>, default: u16, current: u16, increase: bool)
    requires
        values.len() > 0,
    ensures
        values.contains(adjacent_zoom(values, default, current, increase)),
{
    lemma_first_index_bound(values, default);
    lemma_first_index_bound(values, current);
    let z = adjacent_zoom(values, default, current, increase);
    let default_index = match first_index(values, default) {
        Some(i) => i,
        None => 0,
    };
    let current_index = match first_index(values, current) {
        Some(i) => i,
        None => default_index,
    };
    let next = if increase {
        if current_index + 1 < values.len() {
            current_index + 1
        } else {
            values.len() - 1
        }
    } else if current_index > 0 {
        current_index - 1
    } else {
        0
    };
    assert(values[next] == z);
}

/// The zoom level next to `current` among the supported `values`
/// ([`adjacent_zoom`]).
pub fn adjacent_zoom_level(values: &[u16], default: u16, current: u16, increase: bool) -> (z: u16)
    requires
        values@.len() > 0,
    ensures
        z == adjacent_zoom(values@, default, current, increase),
        values@.contains(z),
{
    proof {
        lemma_first_index_bound(values@, default);
        lemma_first_index_bound(values@, current);
    }
    let default_index = match position(values, default) {
        Some(i) => i,
        None => 0,
    };
    let current_index = match position(values, current) {
        Some(i) => i,
        None => default_index,
    };
    assert(current_index < values@.len());
    let next = if increase {
        if current_index < values.len() - 1 {
            current_index + 1
        } else {
            values.len() - 1
        }
    } else if current_index > 0 {
        current_index - 1
    } else {
        0
    };
    values[next]
}

/// A font size a request may set: 5 to 25 points.
pub fn valid_font_size(value: u32) -> (r: Result<u32, ControlError>)
    ensures
        5 <= value <= 25 <==> r is Ok,
        r matches Ok(v) ==> v == value,
        r matches Err(e) ==> e.code == ErrorCode::InvalidParams && e.message@
            == "font size must be between 5 and 25"@,
{
    if 5 <= value && value <= 25 {
        return Ok(value);
    }
    Err(ControlError::new(ErrorCode::InvalidParams, String::from_str("font size must be between 5 and 25")))
}

/// A zoom level a request may set: one of the supported `values`.
pub fn valid_zoom_level(value: u32, values: &[u16]) -> (r: Result<u16, ControlError>)
    ensures
        (value <= u16::MAX && values@.contains(value as u16)) <==> r is Ok,
        r matches Ok(v) ==> v == value,
        r matches Err(e) ==> e.code == ErrorCode::InvalidParams,
        r matches Err(e) ==> value > u16::MAX ==> e.message@
            == "zoom level is outside the supported range"@,
        r matches Err(e) ==> value <= u16::MAX ==> e.message@
            == "zoom level must be one of the supported zoom percentages"@,
{
    if value > 0xffff {
        return Err(
            ControlError::with_details(
                ErrorCode::InvalidParams,
                String::from_str("zoom level is outside the supported range"),
                String::from_str("out of range integral type conversion attempted"),
            ),
        );
    }
    let value = value as u16;
    proof {
        lemma_first_index_bound(values@, value);
    }
    if position(values, value).is_some() {
        return Ok(value);
    }
    Err(
        ControlError::new(
            ErrorCode::InvalidParams,
            String::from_str("zoom level must be one of the supported zoom percentages"),
        ),
    )
}

/// A boolean setting value.
pub fn bool_setting_value(key: &str, value: &SettingValue) -> (r: Result<bool, ControlError>)
    ensures
        match *value {
            SettingValue::Bool(b) => r == Ok::<bool, ControlError>(b),
            _ => r matches Err(e) && e.code == ErrorCode::InvalidParams && e.message@ == key@
                + " requires a boolean value"@,
        },
{
    match value {
        SettingValue::Bool(b) => Ok(*b),
        _ => Err(ControlError::new(ErrorCode::InvalidParams, concat2(key, " requires a boolean value"))),
    }
}

/// A string setting value.
pub fn string_setting_value(key: &str, value: &SettingValue) -> (r: Result<String, ControlError>)
    ensures
        match *value {
            SettingValue::String(s) => r matches Ok(t) && t@ == s@,
            _ => r matches Err(e) && e.code == ErrorCode::InvalidParams && e.message@ == key@
                + " requires a string value"@,
        },
{
    match value {
        SettingValue::String(s) => Ok(s.clone()),
        _ => Err(ControlError::new(ErrorCode::InvalidParams, concat2(key, " requires a string value"))),
    }
}

/// A non-negative integer setting value that fits in `u32`.
pub fn u32_setting_value(key: &str, value: &SettingValue) -> (r: Result<u32, ControlError>)
    ensures
        match *value {
            SettingValue::Unsigned(n) if n <= u32::MAX => r == Ok::<u32, ControlError>(n as u32),
            _ => r matches Err(e) && e.code == ErrorCode::InvalidParams && e.message@ == key@
                + " requires a non-negative integer value"@,
        },
{
    match value {
        SettingValue::Unsigned(n) if *n <= 0xffff_ffff => Ok(*n as u32),
        _ => Err(
            ControlError::new(
                ErrorCode::InvalidParams,
                concat2(key, " requires a non-negative integer value"),
            ),
        ),
    }
}

/// How much the accessibility announcements say.
#[derive(Clone, Copy, Debug, PartialEq, Eq, Structural)]
pub enum AccessibilityVerbosity {
    Verbose,
    Concise,
}

/// The verbosity a value names: `Verbose` or `Concise`, in title, lower or upper case.
pub open spec fn verbosity_named(s: Seq<char>) -> Option<AccessibilityVerbosity> {
    if s == "Verbose"@ || s == "verbose"@ || s == "VERBOSE"@ {
        Some(AccessibilityVerbosity::Verbose)
    } else if s == "Concise"@ || s == "concise"@ || s == "CONCISE"@ {
        Some(AccessibilityVerbosity::Concise)
    } else {
        None
    }
}

/// An accessibility-verbosity setting value ([`verbosity_named`]).
pub fn accessibility_verbosity_value(key: &str, value: &SettingValue) -> (r: Result<
    AccessibilityVerbosity,
    ControlError,
>)
    ensures
        match *value {
            SettingValue::String(s) => match verbosity_named(s@) {
                Some(v) => r == Ok::<AccessibilityVerbosity, ControlError>(v),
                None => r matches Err(e) && e.code == ErrorCode::InvalidParams && e.message@
                    == "accessibility.accessibility_verbosity must be Verbose or Concise"@,
            },
            _ => r matches Err(e) && e.code == ErrorCode::InvalidParams && e.message@ == key@
                + " requires a string value"@,
        },
{
    let s = string_setting_value(key, value)?;
    let s = s.as_str();
    if str_equal(s, "Verbose") || str_equal(s, "verbose") || str_equal(s, "VERBOSE") {
        Ok(AccessibilityVerbosity::Verbose)
    } else if str_equal(s, "Concise") || str_equal(s, "concise") || str_equal(s, "CONCISE") {
        Ok(AccessibilityVerbosity::Concise)
    } else {
        Err(
            ControlError::new(
                ErrorCode::InvalidParams,
                String::from_str("accessibility.accessibility_verbosity must be Verbose or Concise"),
            ),
        )
    }
}

/// A non-blank title or name from a request, trimmed; `what` names the
/// parameter in the error (`"title"`, `"theme name"`).
pub open spec fn trimmed_name(s: Seq<char>) -> Option<Seq<char>> {
    if trim(s).len() == 0 {
        None
    } else {
        Some(trim(s))
    }
}

/// The title a rename request asks for: `title` trimmed, refused when blank.
pub fn rename_title(action: &str, title: &str) -> (r: Result<String, ControlError>)
    ensures
        match trimmed_name(title@) {
            Some(t) => r matches Ok(s) && s@ == t,
            None => r matches Err(e) && e.code == ErrorCode::InvalidParams && e.message@
                == action@ + " title cannot be empty"@,
        },
{
    let t = trimmed(title);
    if t.as_str().is_empty() {
        Err(ControlError::new(ErrorCode::InvalidParams, concat2(action, " title cannot be empty")))
    } else {
        Ok(t)
    }
}

/// The theme a request names: `theme_name` trimmed, refused when blank.
pub fn theme_name(action: &str, name: &str) -> (r: Result<String, ControlError>)
    ensures
        match trimmed_name(name@) {
            Some(t) => r matches Ok(s) && s@ == t,
            None => r matches Err(e) && e.code == ErrorCode::InvalidParams && e.message@
                == action@ + " theme name cannot be empty"@,
        },
{
    let t = trimmed(name);
    if t.as_str().is_empty() {
        Err(
            ControlError::new(
                ErrorCode::InvalidParams,
                concat2(action, " theme name cannot be empty"),
            ),
        )
    } else {
        Ok(t)
    }
}

/// What an allowlisted setting request asks to change, its value validated.
#[derive(Debug)]
pub enum SettingChange {
    Theme(String),
    SystemTheme(bool),
    LightTheme(String),
    DarkTheme(String),
    FontName(String),
    FontSize(u32),
    ZoomLevel(u16),
    SyntaxHighlighting(bool),
    ErrorUnderlining(bool),
    AccessibilityVerbosity(AccessibilityVerbosity),
}

/// The setting keys a request can change.
pub open spec fn known_setting_key(key: Seq<char>) -> bool {
    ||| key == "appearance.themes.theme"@
    ||| key == "appearance.themes.system_theme"@
    ||| key == "appearance.themes.light_theme"@
    ||| key == "appearance.themes.dark_theme"@
    ||| key == "appearance.text.font_name"@
    ||| key == "appearance.text.font_size"@
    ||| key == "appearance.window.zoom_level"@
    ||| key == "terminal.input.syntax_highlighting"@
    ||| key == "terminal.input.error_underlining_enabled"@
    ||| key == "accessibility.accessibility_verbosity"@
}

/// `r` is the error a value of the wrong shape for `key` is answered with.
pub open spec fn is_shape_error<T>(r: Result<T, ControlError>, key: Seq<char>, wanted: Seq<char>) -> bool {
    r matches Err(e) && e.code == ErrorCode::InvalidParams && e.message@ == key + wanted
}

/// What a value for a string-valued key asks: `make(s)` for a string `s`.
pub open spec fn string_change(
    r: Result<SettingChange, ControlError>,
    key: Seq<char>,
    value: SettingValue,
    variant: spec_fn(SettingChange) -> Option<Seq<char>>,
) -> bool {
    match value {
        SettingValue::String(s) => r matches Ok(c) && variant(c) == Some(s@),
        _ => is_shape_error(r, key, " requires a string value"@),
    }
}

/// What a value for a boolean-valued key asks.
pub open spec fn bool_change(
    r: Result<SettingChange, ControlError>,
    key: Seq<char>,
    value: SettingValue,
    variant: spec_fn(SettingChange) -> Option<bool>,
) -> bool {
    match value {
        SettingValue::Bool(b) => r matches Ok(c) && variant(c) == Some(b),
        _ => is_shape_error(r, key, " requires a boolean value"@),
    }
}

/// The change that `key` with `value` asks for, or why it is refused;
/// `None` for a key that names no changeable setting. `zoom_levels` are the
/// supported zoom levels.
pub fn setting_change(key: &str, value: &SettingValue, zoom_levels: &[u16]) -> (r: Option<
    Result<SettingChange, ControlError>,
>)
    ensures
        r is None <==> !known_setting_key(key@),
        key@ == "appearance.themes.theme"@ ==> (r matches Some(res) && string_change(
            res,
            key@,
            *value,
            |c: SettingChange| if let SettingChange::Theme(t) = c { Some(t@) } else { None },
        )),
        key@ == "appearance.themes.system_theme"@ ==> (r matches Some(res) && bool_change(
            res,
            key@,
            *value,
            |c: SettingChange| if let SettingChange::SystemTheme(b) = c { Some(b) } else { None },
        )),
        key@ == "appearance.themes.light_theme"@ ==> (r matches Some(res) && string_change(
            res,
            key@,
            *value,
            |c: SettingChange| if let SettingChange::LightTheme(t) = c { Some(t@) } else { None },
        )),
        key@ == "appearance.themes.dark_theme"@ ==> (r matches Some(res) && string_change(
            res,
            key@,
            *value,
            |c: SettingChange| if let SettingChange::DarkTheme(t) = c { Some(t@) } else { None },
        )),
        key@ == "appearance.text.font_name"@ ==> (r matches Some(res) && match *value {
            SettingValue::String(s) => if trim(s@).len() == 0 {
                (res matches Err(e) && e.code == ErrorCode::InvalidParams && e.message@
                    == "appearance.text.font_name cannot be empty"@)
            } else {
                (res matches Ok(SettingChange::FontName(t)) && t@ == s@)
            },
            _ => is_shape_error(res, key@, " requires a string value"@),
        }),
        key@ == "appearance.text.font_size"@ ==> (r matches Some(res) && match *value {
            SettingValue::Unsigned(n) => if n <= u32::MAX {
                if 5 <= n <= 25 {
                    (res matches Ok(SettingChange::FontSize(v)) && v == n)
                } else {
                    (res matches Err(e) && e.code == ErrorCode::InvalidParams && e.message@
                        == "font size must be between 5 and 25"@)
                }
            } else {
                is_shape_error(res, key@, " requires a non-negative integer value"@)
            },
            _ => is_shape_error(res, key@, " requires a non-negative integer value"@),
        }),
        key@ == "appearance.window.zoom_level"@ ==> (r matches Some(res) && match *value {
            SettingValue::Unsigned(n) => if n <= u32::MAX {
                if n <= u16::MAX && zoom_levels@.contains(n as u16) {
                    (res matches Ok(SettingChange::ZoomLevel(v)) && v == n)
                } else {
                    (res matches Err(e) && e.code == ErrorCode::InvalidParams)
                }
            } else {
                is_shape_error(res, key@, " requires a non-negative integer value"@)
            },
            _ => is_shape_error(res, key@, " requires a non-negative integer value"@),
        }),
        key@ == "terminal.input.syntax_highlighting"@ ==> (r matches Some(res) && bool_change(
            res,
            key@,
            *value,
            |c: SettingChange|
                if let SettingChange::SyntaxHighlighting(b) = c { Some(b) } else { None },
        )),
        key@ == "terminal.input.error_underlining_enabled"@ ==> (r matches Some(res)
            && bool_change(
            res,
            key@,
            *value,
            |c: SettingChange|
                if let SettingChange::ErrorUnderlining(b) = c { Some(b) } else { None },
        )),
        key@ == "accessibility.accessibility_verbosity"@ ==> (r matches Some(res) && match *value {
            SettingValue::String(s) => match verbosity_named(s@) {
                Some(v) => (res matches Ok(SettingChange::AccessibilityVerbosity(w)) && w == v),
                None => (res matches Err(e) && e.code == ErrorCode::InvalidParams && e.message@
                    == "accessibility.accessibility_verbosity must be Verbose or Concise"@),
            },
            _ => is_shape_error(res, key@, " requires a string value"@),
        }),
{
    proof {
        reveal_strlit("appearance.themes.theme");
        reveal_strlit("appearance.themes.system_theme");
        reveal_strlit("appearance.themes.light_theme");
        reveal_strlit("appearance.themes.dark_theme");
        reveal_strlit("appearance.text.font_name");
        reveal_strlit("appearance.text.font_size");
        reveal_strlit("appearance.window.zoom_level");
        reveal_strlit("terminal.input.syntax_highlighting");
        reveal_strlit("terminal.input.error_underlining_enabled");
        reveal_strlit("accessibility.accessibility_verbosity");
        assert("appearance.themes.theme"@.len() == 23);
        assert("appearance.themes.system_theme"@.len() == 30);
        assert("appearance.themes.light_theme"@.len() == 29);
        assert("appearance.themes.dark_theme"@.len() == 28);
        assert("appearance.text.font_name"@.len() == 25);
        assert("appearance.text.font_size"@.len() == 25);
        assert("appearance.window.zoom_level"@.len() == 28);
        assert("terminal.input.syntax_highlighting"@.len() == 34);
        assert("terminal.input.error_underlining_enabled"@.len() == 40);
        assert("accessibility.accessibility_verbosity"@.len() == 37);
        assert("appearance.themes.dark_theme"@[11] == 't' && "appearance.window.zoom_level"@[11] == 'w');
        assert("appearance.text.font_name"@[21] == 'n' && "appearance.text.font_size"@[21] == 's');
    }
    if str_equal(key, "appearance.themes.theme") {
        Some(
            match string_setting_value(key, value) {
                Ok(s) => Ok(SettingChange::Theme(s)),
                Err(e) => Err(e),
            },
        )
    } else if str_equal(key, "appearance.themes.system_theme") {
        Some(
            match bool_setting_value(key, value) {
                Ok(b) => Ok(SettingChange::SystemTheme(b)),
                Err(e) => Err(e),
            },
        )
    } else if str_equal(key, "appearance.themes.light_theme") {
        Some(
            match string_setting_value(key, value) {
                Ok(s) => Ok(SettingChange::LightTheme(s)),
                Err(e) => Err(e),
            },
        )
    } else if str_equal(key, "appearance.themes.dark_theme") {
        Some(
            match string_setting_value(key, value) {
                Ok(s) => Ok(SettingChange::DarkTheme(s)),
                Err(e) => Err(e),
            },
        )
    } else if str_equal(key, "appearance.text.font_name") {
        Some(
            match string_setting_value(key, value) {
                Ok(font_name) => {
                    let t = trimmed(font_name.as_str());
                    if t.as_str().is_empty() {
                        Err(
                            ControlError::new(
                                ErrorCode::InvalidParams,
                                String::from_str("appearance.text.font_name cannot be empty"),
                            ),
                        )
                    } else {
                        Ok(SettingChange::FontName(font_name))
                    }
                },
                Err(e) => Err(e),
            },
        )
    } else if str_equal(key, "appearance.text.font_size") {
        Some(
            match u32_setting_value(key, value) {
                Ok(n) => match valid_font_size(n) {
                    Ok(v) => Ok(SettingChange::FontSize(v)),
                    Err(e) => Err(e),
                },
                Err(e) => Err(e),
            },
        )
    } else if str_equal(key, "appearance.window.zoom_level") {
        Some(
            match u32_setting_value(key, value) {
                Ok(n) => match valid_zoom_level(n, zoom_levels) {
                    Ok(v) => Ok(SettingChange::ZoomLevel(v)),
                    Err(e) => Err(e),
                },
                Err(e) => Err(e),
            },
        )
    } else if str_equal(key, "terminal.input.syntax_highlighting") {
        Some(
            match bool_setting_value(key, value) {
                Ok(b) => Ok(SettingChange::SyntaxHighlighting(b)),
                Err(e) => Err(e),
            },
        )
    } else if str_equal(key, "terminal.input.error_underlining_enabled") {
        Some(
            match bool_setting_value(key, value) {
                Ok(b) => Ok(SettingChange::ErrorUnderlining(b)),
                Err(e) => Err(e),
            },
        )
    } else if str_equal(key, "accessibility.accessibility_verbosity") {
        Some(
            match accessibility_verbosity_value(key, value) {
                Ok(v) => Ok(SettingChange::AccessibilityVerbosity(v)),
                Err(e) => Err(e),
            },
        )
    } else {
        None
    }
}

/// The value a toggle sets: the opposite of the setting's current value,
/// which must be a boolean.
pub fn toggled_value(key: &str, current: &SettingValue) -> (r: Result<bool, ControlError>)
    ensures
        match *current {
            SettingValue::Bool(b) => r == Ok::<bool, ControlError>(!b),
            _ => r matches Err(e) && e.code == ErrorCode::InvalidParams && e.message@ == key@
                + " is not a boolean setting and cannot be toggled"@,
        },
{
    match current {
        SettingValue::Bool(b) => Ok(!*b),
        _ => Err(
            ControlError::new(
                ErrorCode::InvalidParams,
                concat2(key, " is not a boolean setting and cannot be toggled"),
            ),
        ),
    }
}

/// The direction a request moves a tab group in.
#[derive(Clone, Copy, Debug, PartialEq, Eq, Structural)]
pub enum Direction {
    Up,
    Down,
    Left,
    Right,
    Previous,
    Next,
}

/// The move a tab group makes.
#[derive(Clone, Copy, Debug, PartialEq, Eq, Structural)]
pub enum GroupMove {
    Up,
    Down,
}

/// The group move a direction asks for: only up and down move a group.
pub fn tab_group_move_direction(direction: Direction) -> (r: Result<GroupMove, ControlError>)
    ensures
        direction == Direction::Up ==> r matches Ok(GroupMove::Up),
        direction == Direction::Down ==> r matches Ok(GroupMove::Down),
        direction != Direction::Up && direction != Direction::Down ==> (r matches Err(e) && e.code
            == ErrorCode::InvalidParams && e.message@ == "tab.group.move only accepts up or down"@),
{
    match direction {
        Direction::Up => Ok(GroupMove::Up),
        Direction::Down => Ok(GroupMove::Down),
        _ => Err(
            ControlError::new(
                ErrorCode::InvalidParams,
                String::from_str("tab.group.move only accepts up or down"),
            ),
        ),
    }
}

} // verus!
