//! The appearance settings of an application from its `manifest.yml`: the
//! choices it names (theme, density, where notifications show) and the
//! colours it gives as hex text, each falling back to a default.

use crate::json::{string_eq, text};
use vstd::prelude::*;
use vstd::string::StringSliceAdditionalSpecFns;

verus! {

#[derive(Clone, Copy, PartialEq, Eq, Structural, Debug)]
pub enum Theme {
    Light,
    Dark,
    System,
}

#[derive(Clone, Copy, PartialEq, Eq, Structural, Debug)]
pub enum NotificationPosition {
    TopRight,
    BottomRight,
    BottomCenter,
}

#[derive(Clone, Copy, PartialEq, Eq, Structural, Debug)]
pub enum Density {
    Compact,
    Comfortable,
    Spacious,
}

/// The text of an optional string slice.
pub open spec fn opt_name(o: Option<&str>) -> Option<Seq<char>> {
    match o {
        Some(t) => Some(t@),
        None => None,
    }
}

/// The theme a name selects: `dark`, `system`, and light for anything else.
pub open spec fn theme_spec(name: Option<Seq<char>>) -> Theme {
    if name == Some("dark"@) {
        Theme::Dark
    } else if name == Some("system"@) {
        Theme::System
    } else {
        Theme::Light
    }
}

/// The density a name selects: `compact`, `spacious`, and comfortable for
/// anything else.
pub open spec fn density_spec(name: Option<Seq<char>>) -> Density {
    if name == Some("compact"@) {
        Density::Compact
    } else if name == Some("spacious"@) {
        Density::Spacious
    } else {
        Density::Comfortable
    }
}

/// Where notifications show: `top-right`, `bottom-right`, and bottom
/// center for anything else.
pub open spec fn position_spec(name: Option<Seq<char>>) -> NotificationPosition {
    if name == Some("top-right"@) {
        NotificationPosition::TopRight
    } else if name == Some("bottom-right"@) {
        NotificationPosition::BottomRight
    } else {
        NotificationPosition::BottomCenter
    }
}

fn name_is(name: Option<&str>, word: &str) -> (b: bool)
    ensures
        b == (opt_name(name) == Some(word@)),
{
    match name {
        Some(n) => string_eq(&text(n), &text(word)),
        None => false,
    }
}

impl Theme {
    /// The theme that `theme:` names.
    pub fn from_name(name: Option<&str>) -> (t: Theme)
        ensures
            t == theme_spec(opt_name(name)),
    {
        if name_is(name, "dark") {
            Theme::Dark
        } else if name_is(name, "system") {
            Theme::System
        } else {
            Theme::Light
        }
    }
}

impl Density {
    /// The density that `density:` names.
    pub fn from_name(name: Option<&str>) -> (d: Density)
        ensures
            d == density_spec(opt_name(name)),
    {
        if name_is(name, "compact") {
            Density::Compact
        } else if name_is(name, "spacious") {
            Density::Spacious
        } else {
            Density::Comfortable
        }
    }
}

impl NotificationPosition {
    /// The position that `notifications.position:` names.
    pub fn from_name(name: Option<&str>) -> (p: NotificationPosition)
        ensures
            p == position_spec(opt_name(name)),
    {
        if name_is(name, "top-right") {
            NotificationPosition::TopRight
        } else if name_is(name, "bottom-right") {
            NotificationPosition::BottomRight
        } else {
            NotificationPosition::BottomCenter
        }
    }
}

/// A colour, with its channels as the renderer takes them: already
/// multiplied by alpha, or not yet.
#[derive(Clone, Copy, PartialEq, Eq, Structural, Debug)]
pub enum Color {
    Premultiplied { r: u8, g: u8, b: u8, a: u8 },
    Unmultiplied { r: u8, g: u8, b: u8, a: u8 },
}

impl Color {
    /// An opaque colour.
    pub fn rgb(r: u8, g: u8, b: u8) -> (c: Color)
        ensures
            c == (Color::Premultiplied { r, g, b, a: 255 }),
    {
        Color::Premultiplied { r, g, b, a: 255 }
    }

    /// White.
    pub fn white() -> (c: Color)
        ensures
            c == (Color::Premultiplied { r: 255, g: 255, b: 255, a: 255 }),
    {
        Color::Premultiplied { r: 255, g: 255, b: 255, a: 255 }
    }
}

/// The value of a hex digit byte.
pub open spec fn hex_digit(b: u8) -> Option<int> {
    if 48 <= b <= 57 {
        Some(b - 48)
    } else if 97 <= b <= 102 {
        Some(b - 87)
    } else if 65 <= b <= 70 {
        Some(b - 55)
    } else {
        None
    }
}

/// What `u8::from_str_radix(_, 16)` reads from two bytes: two hex digits,
/// or `+` and one.
pub open spec fn hex_pair(b0: u8, b1: u8) -> Option<u8> {
    if b0 == 43 {
        match hex_digit(b1) {
            Some(v) => Some(v as u8),
            None => None,
        }
    } else {
        match (hex_digit(b0), hex_digit(b1)) {
            (Some(x), Some(y)) => Some((16 * x + y) as u8),
            _ => None,
        }
    }
}

/// The bytes of a colour text after one leading `#`, if any.
pub open spec fn hex_body(bytes: Seq<u8>) -> Seq<u8> {
    if bytes.len() > 0 && bytes[0] == 35 {
        bytes.drop_first()
    } else {
        bytes
    }
}

/// The colour a hex text gives: `RRGGBB` an opaque colour, `RRGGBBAA` one
/// with alpha not yet multiplied in, with or without a leading `#`.
pub open spec fn hex_color(bytes: Seq<u8>) -> Option<Color> {
    let body = hex_body(bytes);
    if body.len() == 6 {
        match (hex_pair(body[0], body[1]), hex_pair(body[2], body[3]), hex_pair(body[4], body[5])) {
            (Some(r), Some(g), Some(b)) => Some(Color::Premultiplied { r, g, b, a: 255 }),
            _ => None,
        }
    } else if body.len() == 8 {
        match (
            hex_pair(body[0], body[1]),
            hex_pair(body[2], body[3]),
            hex_pair(body[4], body[5]),
            hex_pair(body[6], body[7]),
        ) {
            (Some(r), Some(g), Some(b), Some(a)) => Some(Color::Unmultiplied { r, g, b, a }),
            _ => None,
        }
    } else {
        None
    }
}

fn hex_digit_of(b: u8) -> (r: Option<u8>)
    ensures
        match r {
            Some(v) => hex_digit(b) == Some(v as int) && v < 16,
            None => hex_digit(b) is None,
        },
{
    if 48 <= b && b <= 57 {
        Some(b - 48)
    } else if 97 <= b && b <= 102 {
        Some(b - 87)
    } else if 65 <= b && b <= 70 {
        Some(b - 55)
    } else {
        None
    }
}

fn hex_pair_of(b0: u8, b1: u8) -> (r: Option<u8>)
    ensures
        r == hex_pair(b0, b1),
{
    if b0 == 43 {
        match hex_digit_of(b1) {
            Some(v) => Some(v),
            None => None,
        }
    } else {
        match (hex_digit_of(b0), hex_digit_of(b1)) {
            (Some(x), Some(y)) => Some(16 * x + y),
            _ => None,
        }
    }
}

/// The colour of a hex text (`RRGGBB` or `RRGGBBAA`, with or without a
/// leading `#`), or `None` when it is not one.
pub fn parse_hex_color(hex: &str) -> (c: Option<Color>)
    ensures
        c == hex_color(hex.spec_bytes()),
{
    let bytes = hex.as_bytes();
    let start: usize = if bytes.len() > 0 && bytes[0] == 35 {
        1
    } else {
        0
    };
    let ghost body = hex_body(bytes@);
    assert(body =~= bytes@.subrange(start as int, bytes@.len() as int));
    let n = bytes.len() - start;
    if n == 6 {
        let r = hex_pair_of(bytes[start], bytes[start + 1]);
        let g = hex_pair_of(bytes[start + 2], bytes[start + 3]);
        let b = hex_pair_of(bytes[start + 4], bytes[start + 5]);
        match (r, g, b) {
            (Some(r), Some(g), Some(b)) => Some(Color::Premultiplied { r, g, b, a: 255 }),
            _ => None,
        }
    } else if n == 8 {
        let r = hex_pair_of(bytes[start], bytes[start + 1]);
        let g = hex_pair_of(bytes[start + 2], bytes[start + 3]);
        let b = hex_pair_of(bytes[start + 4], bytes[start + 5]);
        let a = hex_pair_of(bytes[start + 6], bytes[start + 7]);
        match (r, g, b, a) {
            (Some(r), Some(g), Some(b), Some(a)) => Some(Color::Unmultiplied { r, g, b, a }),
            _ => None,
        }
    } else {
        None
    }
}

/// The colour a setting gives, or the default when it gives none.
pub open spec fn color_or_spec(raw: Option<Seq<u8>>, default: Color) -> Color {
    match raw {
        Some(bytes) => match hex_color(bytes) {
            Some(c) => c,
            None => default,
        },
        None => default,
    }
}

/// The bytes of an optional setting.
pub open spec fn opt_bytes(raw: Option<String>) -> Option<Seq<u8>> {
    match raw {
        Some(t) => Some(vstd::utf8::encode_utf8(t@)),
        None => None,
    }
}

/// The colour a setting gives, or `default`.
pub fn color_or(raw: &Option<String>, default: Color) -> (c: Color)
    ensures
        c == color_or_spec(opt_bytes(*raw), default),
{
    match raw {
        Some(t) => match parse_hex_color(t.as_str()) {
            Some(c) => c,
            None => default,
        },
        None => default,
    }
}

/// The colours of a theme.
#[derive(Clone, Copy, PartialEq, Eq, Structural, Debug)]
pub struct ColorPalette {
    pub bg_primary: Color,
    pub bg_surface: Color,
    pub bg_elevated: Color,
    pub bg_overlay: Color,
    pub text_primary: Color,
    pub text_secondary: Color,
    pub text_on_accent: Color,
    pub accent: Color,
    pub accent_hover: Color,
    pub accent_subtle: Color,
    pub border: Color,
    pub error_text: Color,
    pub error_bg: Color,
    pub error_border: Color,
    pub toast_success: Color,
    pub toast_bg: Color,
}

/// The colours a theme may set in `manifest.yml`, as hex texts.
pub struct RawColors {
    pub bg_primary: Option<String>,
    pub bg_surface: Option<String>,
    pub bg_elevated: Option<String>,
    pub bg_overlay: Option<String>,
    pub text_primary: Option<String>,
    pub text_secondary: Option<String>,
    pub text_on_accent: Option<String>,
    pub accent: Option<String>,
    pub accent_hover: Option<String>,
    pub accent_subtle: Option<String>,
    pub border: Option<String>,
    pub error_text: Option<String>,
    pub error_bg: Option<String>,
    pub error_border: Option<String>,
    pub toast_success: Option<String>,
    pub toast_bg: Option<String>,
}

/// The palette the settings give: each colour set, or the default's.
pub open spec fn resolve_spec(raw: &RawColors, d: ColorPalette) -> ColorPalette {
    ColorPalette {
        bg_primary: color_or_spec(opt_bytes(raw.bg_primary), d.bg_primary),
        bg_surface: color_or_spec(opt_bytes(raw.bg_surface), d.bg_surface),
        bg_elevated: color_or_spec(opt_bytes(raw.bg_elevated), d.bg_elevated),
        bg_overlay: color_or_spec(opt_bytes(raw.bg_overlay), d.bg_overlay),
        text_primary: color_or_spec(opt_bytes(raw.text_primary), d.text_primary),
        text_secondary: color_or_spec(opt_bytes(raw.text_secondary), d.text_secondary),
        text_on_accent: color_or_spec(opt_bytes(raw.text_on_accent), d.text_on_accent),
        accent: color_or_spec(opt_bytes(raw.accent), d.accent),
        accent_hover: color_or_spec(opt_bytes(raw.accent_hover), d.accent_hover),
        accent_subtle: color_or_spec(opt_bytes(raw.accent_subtle), d.accent_subtle),
        border: color_or_spec(opt_bytes(raw.border), d.border),
        error_text: color_or_spec(opt_bytes(raw.error_text), d.error_text),
        error_bg: color_or_spec(opt_bytes(raw.error_bg), d.error_bg),
        error_border: color_or_spec(opt_bytes(raw.error_border), d.error_border),
        toast_success: color_or_spec(opt_bytes(raw.toast_success), d.toast_success),
        toast_bg: color_or_spec(opt_bytes(raw.toast_bg), d.toast_bg),
    }
}

/// The palette the settings give, each colour falling back to `defaults`.
pub fn resolve_palette(raw: &RawColors, defaults: &ColorPalette) -> (p: ColorPalette)
    ensures
        p == resolve_spec(raw, *defaults),
{
    ColorPalette {
        bg_primary: color_or(&raw.bg_primary, defaults.bg_primary),
        bg_surface: color_or(&raw.bg_surface, defaults.bg_surface),
        bg_elevated: color_or(&raw.bg_elevated, defaults.bg_elevated),
        bg_overlay: color_or(&raw.bg_overlay, defaults.bg_overlay),
        text_primary: color_or(&raw.text_primary, defaults.text_primary),
        text_secondary: color_or(&raw.text_secondary, defaults.text_secondary),
        text_on_accent: color_or(&raw.text_on_accent, defaults.text_on_accent),
        accent: color_or(&raw.accent, defaults.accent),
        accent_hover: color_or(&raw.accent_hover, defaults.accent_hover),
        accent_subtle: color_or(&raw.accent_subtle, defaults.accent_subtle),
        border: color_or(&raw.border, defaults.border),
        error_text: color_or(&raw.error_text, defaults.error_text),
        error_bg: color_or(&raw.error_bg, defaults.error_bg),
        error_border: color_or(&raw.error_border, defaults.error_border),
        toast_success: color_or(&raw.toast_success, defaults.toast_success),
        toast_bg: color_or(&raw.toast_bg, defaults.toast_bg),
    }
}

/// The default light palette.
pub open spec fn light_spec() -> ColorPalette {
    ColorPalette {
        bg_primary: Color::Premultiplied { r: 0xFA, g: 0xFA, b: 0xFC, a: 255 },
        bg_surface: Color::Premultiplied { r: 255, g: 255, b: 255, a: 255 },
        bg_elevated: Color::Premultiplied { r: 255, g: 255, b: 255, a: 255 },
        bg_overlay: Color::Premultiplied { r: 0x10, g: 0x10, b: 0x18, a: 180 },
        text_primary: Color::Premultiplied { r: 0x1A, g: 0x1A, b: 0x2E, a: 255 },
        text_secondary: Color::Premultiplied { r: 0x6B, g: 0x70, b: 0x80, a: 255 },
        text_on_accent: Color::Premultiplied { r: 255, g: 255, b: 255, a: 255 },
        accent: Color::Premultiplied { r: 0x2D, g: 0x5B, b: 0xE3, a: 255 },
        accent_hover: Color::Premultiplied { r: 0x1E, g: 0x4B, b: 0xD1, a: 255 },
        accent_subtle: Color::Premultiplied { r: 0xEB, g: 0xF0, b: 0xFD, a: 255 },
        border: Color::Premultiplied { r: 0xE8, g: 0xEA, b: 0xED, a: 255 },
        error_text: Color::Premultiplied { r: 0xDC, g: 0x26, b: 0x26, a: 255 },
        error_bg: Color::Premultiplied { r: 0xFE, g: 0xF2, b: 0xF2, a: 255 },
        error_border: Color::Premultiplied { r: 0xFE, g: 0xCA, b: 0xCA, a: 255 },
        toast_success: Color::Premultiplied { r: 0x05, g: 0x96, b: 0x69, a: 255 },
        toast_bg: Color::Premultiplied { r: 0x1A, g: 0x1A, b: 0x2E, a: 255 },
    }
}

/// The default dark palette.
pub open spec fn dark_spec() -> ColorPalette {
    ColorPalette {
        bg_primary: Color::Premultiplied { r: 0x0F, g: 0x0F, b: 0x14, a: 255 },
        bg_surface: Color::Premultiplied { r: 0x1A, g: 0x1A, b: 0x24, a: 255 },
        bg_elevated: Color::Premultiplied { r: 0x22, g: 0x22, b: 0x2E, a: 255 },
        bg_overlay: Color::Premultiplied { r: 0x00, g: 0x00, b: 0x00, a: 200 },
        text_primary: Color::Premultiplied { r: 0xF0, g: 0xF0, b: 0xF5, a: 255 },
        text_secondary: Color::Premultiplied { r: 0x9A, g: 0x9A, b: 0xAA, a: 255 },
        text_on_accent: Color::Premultiplied { r: 255, g: 255, b: 255, a: 255 },
        accent: Color::Premultiplied { r: 0x5B, g: 0x8D, b: 0xF8, a: 255 },
        accent_hover: Color::Premultiplied { r: 0x7A, g: 0xA5, b: 0xFA, a: 255 },
        accent_subtle: Color::Premultiplied { r: 0x1E, g: 0x29, b: 0x3D, a: 255 },
        border: Color::Premultiplied { r: 0x2E, g: 0x2E, b: 0x3A, a: 255 },
        error_text: Color::Premultiplied { r: 0xF8, g: 0x71, b: 0x71, a: 255 },
        error_bg: Color::Premultiplied { r: 0x2D, g: 0x15, b: 0x15, a: 255 },
        error_border: Color::Premultiplied { r: 0x5C, g: 0x22, b: 0x22, a: 255 },
        toast_success: Color::Premultiplied { r: 0x34, g: 0xD3, b: 0x99, a: 255 },
        toast_bg: Color::Premultiplied { r: 0x1A, g: 0x1A, b: 0x2E, a: 255 },
    }
}

impl ColorPalette {
    pub fn default_light() -> (p: ColorPalette)
        ensures
            p == light_spec(),
    {
        ColorPalette {
            bg_primary: Color::Premultiplied { r: 0xFA, g: 0xFA, b: 0xFC, a: 255 },
            bg_surface: Color::Premultiplied { r: 255, g: 255, b: 255, a: 255 },
            bg_elevated: Color::Premultiplied { r: 255, g: 255, b: 255, a: 255 },
            bg_overlay: Color::Premultiplied { r: 0x10, g: 0x10, b: 0x18, a: 180 },
            text_primary: Color::Premultiplied { r: 0x1A, g: 0x1A, b: 0x2E, a: 255 },
            text_secondary: Color::Premultiplied { r: 0x6B, g: 0x70, b: 0x80, a: 255 },
            text_on_accent: Color::Premultiplied { r: 255, g: 255, b: 255, a: 255 },
            accent: Color::Premultiplied { r: 0x2D, g: 0x5B, b: 0xE3, a: 255 },
            accent_hover: Color::Premultiplied { r: 0x1E, g: 0x4B, b: 0xD1, a: 255 },
            accent_subtle: Color::Premultiplied { r: 0xEB, g: 0xF0, b: 0xFD, a: 255 },
            border: Color::Premultiplied { r: 0xE8, g: 0xEA, b: 0xED, a: 255 },
            error_text: Color::Premultiplied { r: 0xDC, g: 0x26, b: 0x26, a: 255 },
            error_bg: Color::Premultiplied { r: 0xFE, g: 0xF2, b: 0xF2, a: 255 },
            error_border: Color::Premultiplied { r: 0xFE, g: 0xCA, b: 0xCA, a: 255 },
            toast_success: Color::Premultiplied { r: 0x05, g: 0x96, b: 0x69, a: 255 },
            toast_bg: Color::Premultiplied { r: 0x1A, g: 0x1A, b: 0x2E, a: 255 },
        }
    }

    pub fn default_dark() -> (p: ColorPalette)
        ensures
            p == dark_spec(),
    {
        ColorPalette {
            bg_primary: Color::Premultiplied { r: 0x0F, g: 0x0F, b: 0x14, a: 255 },
            bg_surface: Color::Premultiplied { r: 0x1A, g: 0x1A, b: 0x24, a: 255 },
            bg_elevated: Color::Premultiplied { r: 0x22, g: 0x22, b: 0x2E, a: 255 },
            bg_overlay: Color::Premultiplied { r: 0x00, g: 0x00, b: 0x00, a: 200 },
            text_primary: Color::Premultiplied { r: 0xF0, g: 0xF0, b: 0xF5, a: 255 },
            text_secondary: Color::Premultiplied { r: 0x9A, g: 0x9A, b: 0xAA, a: 255 },
            text_on_accent: Color::Premultiplied { r: 255, g: 255, b: 255, a: 255 },
            accent: Color::Premultiplied { r: 0x5B, g: 0x8D, b: 0xF8, a: 255 },
            accent_hover: Color::Premultiplied { r: 0x7A, g: 0xA5, b: 0xFA, a: 255 },
            accent_subtle: Color::Premultiplied { r: 0x1E, g: 0x29, b: 0x3D, a: 255 },
            border: Color::Premultiplied { r: 0x2E, g: 0x2E, b: 0x3A, a: 255 },
            error_text: Color::Premultiplied { r: 0xF8, g: 0x71, b: 0x71, a: 255 },
            error_bg: Color::Premultiplied { r: 0x2D, g: 0x15, b: 0x15, a: 255 },
            error_border: Color::Premultiplied { r: 0x5C, g: 0x22, b: 0x22, a: 255 },
            toast_success: Color::Premultiplied { r: 0x34, g: 0xD3, b: 0x99, a: 255 },
            toast_bg: Color::Premultiplied { r: 0x1A, g: 0x1A, b: 0x2E, a: 255 },
        }
    }
}

/// The palette a theme draws with: the dark one for the dark theme, the
/// light one otherwise.
pub fn palette_for(theme: Theme, light: &ColorPalette, dark: &ColorPalette) -> (p: ColorPalette)
    ensures
        p == (if theme == Theme::Dark {
            *dark
        } else {
            *light
        }),
{
    match theme {
        Theme::Dark => *dark,
        _ => *light,
    }
}

/// The settings of `manifest.yml` that are not sizes or durations, as
/// written: each may be missing.
pub struct RawSettings {
    pub theme: Option<String>,
    pub density: Option<String>,
    pub notification_position: Option<String>,
    pub colors: RawColors,
    pub colors_dark: RawColors,
    pub sidebar_bg: Option<String>,
    pub sidebar_text: Option<String>,
    pub sidebar_text_active: Option<String>,
    pub sidebar_item_active_bg: Option<String>,
    pub dialog_bg: Option<String>,
    pub input_bg: Option<String>,
    pub input_border: Option<String>,
    pub focus_ring_color: Option<String>,
    pub notification_max_visible: Option<u8>,
    pub mcp_port: Option<u16>,
    pub window_resizable: Option<bool>,
    pub window_always_on_top: Option<bool>,
    pub window_start_maximized: Option<bool>,
    pub window_start_fullscreen: Option<bool>,
    pub scrollbar_auto_hide: Option<bool>,
    pub shadows_enabled: Option<bool>,
    pub linux_categories: Option<Vec<String>>,
}

/// Those settings resolved, each missing one by its default.
pub struct Settings {
    pub theme: Theme,
    pub density: Density,
    pub notification_position: NotificationPosition,
    pub colors: ColorPalette,
    pub colors_dark: ColorPalette,
    pub sidebar_bg: Color,
    pub sidebar_text: Color,
    pub sidebar_text_active: Color,
    pub sidebar_item_active_bg: Color,
    pub dialog_bg: Color,
    pub input_bg: Color,
    pub input_border: Color,
    /// No focus ring colour when none is set or it is not a colour.
    pub focus_ring_color: Option<Color>,
    pub notification_max_visible: u8,
    /// Port of the MCP HTTP server; 0 keeps it off.
    pub mcp_port: u16,
    pub window_resizable: bool,
    pub window_always_on_top: bool,
    pub window_start_maximized: bool,
    pub window_start_fullscreen: bool,
    pub scrollbar_auto_hide: bool,
    pub shadows_enabled: bool,
    pub linux_categories: Vec<String>,
}

/// The text of an optional setting.
pub open spec fn opt_setting(o: Option<String>) -> Option<Seq<char>> {
    match o {
        Some(t) => Some(t@),
        None => None,
    }
}

/// The value of an optional flag, or its default.
pub open spec fn flag_or(o: Option<bool>, default: bool) -> bool {
    match o {
        Some(b) => b,
        None => default,
    }
}

/// The colour a setting gives, if it gives one.
pub open spec fn opt_color_spec(raw: Option<Seq<u8>>) -> Option<Color> {
    match raw {
        Some(bytes) => hex_color(bytes),
        None => None,
    }
}

fn opt_str(o: &Option<String>) -> (r: Option<&str>)
    ensures
        opt_name(r) == opt_setting(*o),
{
    match o {
        Some(t) => Some(t.as_str()),
        None => None,
    }
}

fn flag(o: Option<bool>, default: bool) -> (b: bool)
    ensures
        b == flag_or(o, default),
{
    match o {
        Some(b) => b,
        None => default,
    }
}

/// The settings resolved: names select their choice, colours fall back
/// to the defaults of the light theme (sidebar, dialog and input ones to
/// their own), flags and numbers to their defaults. A colour text that is
/// not hex falls back to its default too.
pub fn resolve_settings(raw: RawSettings) -> (s: Settings)
    ensures
        s.theme == theme_spec(opt_setting(raw.theme)),
        s.density == density_spec(opt_setting(raw.density)),
        s.notification_position == position_spec(opt_setting(raw.notification_position)),
        s.colors == resolve_spec(&raw.colors, light_spec()),
        s.colors_dark == resolve_spec(&raw.colors_dark, dark_spec()),
        s.sidebar_bg == color_or_spec(opt_bytes(raw.sidebar_bg), Color::Premultiplied { r: 0xF3, g: 0xF4, b: 0xF6, a: 255 }),
        s.sidebar_text == color_or_spec(
            opt_bytes(raw.sidebar_text),
            Color::Premultiplied { r: 0x4B, g: 0x50, b: 0x63, a: 255 },
        ),
        s.sidebar_text_active == color_or_spec(
            opt_bytes(raw.sidebar_text_active),
            Color::Premultiplied { r: 0x1A, g: 0x1A, b: 0x2E, a: 255 },
        ),
        s.sidebar_item_active_bg == color_or_spec(
            opt_bytes(raw.sidebar_item_active_bg),
            Color::Premultiplied { r: 255, g: 255, b: 255, a: 255 },
        ),
        s.dialog_bg == color_or_spec(opt_bytes(raw.dialog_bg), Color::Premultiplied { r: 255, g: 255, b: 255, a: 255 }),
        s.input_bg == color_or_spec(opt_bytes(raw.input_bg), Color::Premultiplied { r: 255, g: 255, b: 255, a: 255 }),
        s.input_border == color_or_spec(
            opt_bytes(raw.input_border),
            Color::Premultiplied { r: 0xD1, g: 0xD5, b: 0xDB, a: 255 },
        ),
        s.focus_ring_color == opt_color_spec(opt_bytes(raw.focus_ring_color)),
        s.notification_max_visible == (match raw.notification_max_visible {
            Some(n) => n,
            None => 3u8,
        }),
        s.mcp_port == (match raw.mcp_port {
            Some(p) => p,
            None => 0u16,
        }),
        s.window_resizable == flag_or(raw.window_resizable, true),
        s.window_always_on_top == flag_or(raw.window_always_on_top, false),
        s.window_start_maximized == flag_or(raw.window_start_maximized, false),
        s.window_start_fullscreen == flag_or(raw.window_start_fullscreen, false),
        s.scrollbar_auto_hide == flag_or(raw.scrollbar_auto_hide, true),
        s.shadows_enabled == flag_or(raw.shadows_enabled, true),
        s.linux_categories@ == (match raw.linux_categories {
            Some(v) => v@,
            None => Seq::<String>::empty(),
        }),
{
    let light = ColorPalette::default_light();
    let dark = ColorPalette::default_dark();
    let colors = resolve_palette(&raw.colors, &light);
    let colors_dark = resolve_palette(&raw.colors_dark, &dark);
    let focus_ring_color = match &raw.focus_ring_color {
        Some(t) => parse_hex_color(t.as_str()),
        None => None,
    };
    Settings {
        theme: Theme::from_name(opt_str(&raw.theme)),
        density: Density::from_name(opt_str(&raw.density)),
        notification_position: NotificationPosition::from_name(opt_str(&raw.notification_position)),
        colors,
        colors_dark,
        sidebar_bg: color_or(&raw.sidebar_bg, Color::rgb(0xF3, 0xF4, 0xF6)),
        sidebar_text: color_or(&raw.sidebar_text, Color::rgb(0x4B, 0x50, 0x63)),
        sidebar_text_active: color_or(&raw.sidebar_text_active, Color::rgb(0x1A, 0x1A, 0x2E)),
        sidebar_item_active_bg: color_or(&raw.sidebar_item_active_bg, Color::white()),
        dialog_bg: color_or(&raw.dialog_bg, Color::white()),
        input_bg: color_or(&raw.input_bg, Color::white()),
        input_border: color_or(&raw.input_border, Color::rgb(0xD1, 0xD5, 0xDB)),
        focus_ring_color,
        notification_max_visible: match raw.notification_max_visible {
            Some(n) => n,
            None => 3,
        },
        mcp_port: match raw.mcp_port {
            Some(p) => p,
            None => 0,
        },
        window_resizable: flag(raw.window_resizable, true),
        window_always_on_top: flag(raw.window_always_on_top, false),
        window_start_maximized: flag(raw.window_start_maximized, false),
        window_start_fullscreen: flag(raw.window_start_fullscreen, false),
        scrollbar_auto_hide: flag(raw.scrollbar_auto_hide, true),
        shadows_enabled: flag(raw.shadows_enabled, true),
        linux_categories: match raw.linux_categories {
            Some(v) => v,
            None => Vec::new(),
        },
    }
}

/// A colour may be written with or without its leading `#`: both give the
/// same colour, or both none.
pub proof fn law_hash_is_optional(bytes: Seq<u8>)
    requires
        bytes.len() == 0 || bytes[0] != 35,
    ensures
        hex_color(seq![35u8] + bytes) == hex_color(bytes),
{
    let with_hash = seq![35u8] + bytes;
    assert(with_hash.drop_first() =~= bytes);
}

} // verus!
