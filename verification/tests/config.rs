use scrawler::config::{
    color_or, palette_for, parse_hex_color, resolve_palette, resolve_settings,
    Color, ColorPalette, Density, NotificationPosition, RawColors, RawSettings, Theme,
};

fn no_colors() -> RawColors {
    RawColors {
        bg_primary: None,
        bg_surface: None,
        bg_elevated: None,
        bg_overlay: None,
        text_primary: None,
        text_secondary: None,
        text_on_accent: None,
        accent: None,
        accent_hover: None,
        accent_subtle: None,
        border: None,
        error_text: None,
        error_bg: None,
        error_border: None,
        toast_success: None,
        toast_bg: None,
    }
}

fn no_settings() -> RawSettings {
    RawSettings {
        theme: None,
        density: None,
        notification_position: None,
        colors: no_colors(),
        colors_dark: no_colors(),
        sidebar_bg: None,
        sidebar_text: None,
        sidebar_text_active: None,
        sidebar_item_active_bg: None,
        dialog_bg: None,
        input_bg: None,
        input_border: None,
        focus_ring_color: None,
        notification_max_visible: None,
        mcp_port: None,
        window_resizable: None,
        window_always_on_top: None,
        window_start_maximized: None,
        window_start_fullscreen: None,
        scrollbar_auto_hide: None,
        shadows_enabled: None,
        linux_categories: None,
    }
}

#[test]
fn hex_colors_with_and_without_hash() {
    assert_eq!(parse_hex_color("#2D5BE3"), Some(Color::Premultiplied { r: 0x2D, g: 0x5B, b: 0xE3, a: 255 }));
    assert_eq!(parse_hex_color("2d5be3"), parse_hex_color("#2d5be3"));
    assert_eq!(parse_hex_color("#10101880"), Some(Color::Unmultiplied { r: 0x10, g: 0x10, b: 0x18, a: 0x80 }));
}

#[test]
fn hex_colors_rejected() {
    assert_eq!(parse_hex_color("#12345"), None);
    assert_eq!(parse_hex_color("##123456"), None);
    assert_eq!(parse_hex_color("#12345g"), None);
    assert_eq!(parse_hex_color(""), None);
}

#[test]
fn hex_pair_accepts_a_plus_sign_as_from_str_radix_does() {
    assert_eq!(parse_hex_color("+f0000"), Some(Color::Premultiplied { r: 15, g: 0, b: 0, a: 255 }));
}

#[test]
fn text_with_other_characters_is_no_colour() {
    assert_eq!(parse_hex_color("#aé123"), None);
    assert_eq!(parse_hex_color("#aé1234"), None);
    assert_eq!(parse_hex_color("é"), None);
    assert_eq!(parse_hex_color("blue"), None);
}

#[test]
fn an_invalid_colour_falls_back_to_its_default() {
    let mut raw = no_settings();
    raw.colors.accent = Some("#aébcd".into());
    raw.sidebar_bg = Some("blue".into());
    let s = resolve_settings(raw);
    assert_eq!(s.colors.accent, ColorPalette::default_light().accent);
    assert_eq!(s.colors.accent, Color::rgb(0x2D, 0x5B, 0xE3));
    assert_eq!(s.sidebar_bg, Color::rgb(0xF3, 0xF4, 0xF6));
}

#[test]
fn color_or_falls_back() {
    let d = Color::white();
    assert_eq!(color_or(&None, d), d);
    assert_eq!(color_or(&Some("nope".into()), d), d);
    assert_eq!(color_or(&Some("#000000".into()), d), Color::rgb(0, 0, 0));
}

#[test]
fn names_select_choices() {
    assert_eq!(Theme::from_name(Some("dark")), Theme::Dark);
    assert_eq!(Theme::from_name(Some("system")), Theme::System);
    assert_eq!(Theme::from_name(Some("Dark")), Theme::Light);
    assert_eq!(Theme::from_name(None), Theme::Light);
    assert_eq!(Density::from_name(Some("compact")), Density::Compact);
    assert_eq!(Density::from_name(Some("spacious")), Density::Spacious);
    assert_eq!(Density::from_name(None), Density::Comfortable);
    assert_eq!(NotificationPosition::from_name(Some("top-right")), NotificationPosition::TopRight);
    assert_eq!(NotificationPosition::from_name(Some("bottom-right")), NotificationPosition::BottomRight);
    assert_eq!(NotificationPosition::from_name(Some("left")), NotificationPosition::BottomCenter);
}

#[test]
fn palette_keeps_defaults_and_takes_settings() {
    let mut raw = no_colors();
    raw.accent = Some("#FF0000".into());
    let light = ColorPalette::default_light();
    let p = resolve_palette(&raw, &light);
    assert_eq!(p.accent, Color::rgb(255, 0, 0));
    assert_eq!(p.bg_primary, light.bg_primary);
    assert_eq!(light.bg_primary, Color::rgb(0xFA, 0xFA, 0xFC));
    assert_eq!(ColorPalette::default_dark().bg_overlay, Color::Premultiplied { r: 0, g: 0, b: 0, a: 200 });
}

#[test]
fn dark_theme_uses_dark_palette() {
    let light = ColorPalette::default_light();
    let dark = ColorPalette::default_dark();
    assert_eq!(palette_for(Theme::Dark, &light, &dark), dark);
    assert_eq!(palette_for(Theme::Light, &light, &dark), light);
    assert_eq!(palette_for(Theme::System, &light, &dark), light);
}

#[test]
fn settings_defaults() {
    let raw = no_settings();
    let s = resolve_settings(raw);
    assert_eq!(s.theme, Theme::Light);
    assert_eq!(s.density, Density::Comfortable);
    assert_eq!(s.notification_position, NotificationPosition::BottomCenter);
    assert_eq!(s.colors, ColorPalette::default_light());
    assert_eq!(s.colors_dark, ColorPalette::default_dark());
    assert_eq!(s.sidebar_bg, Color::rgb(0xF3, 0xF4, 0xF6));
    assert_eq!(s.sidebar_text, Color::rgb(0x4B, 0x50, 0x63));
    assert_eq!(s.input_border, Color::rgb(0xD1, 0xD5, 0xDB));
    assert_eq!(s.dialog_bg, Color::white());
    assert_eq!(s.focus_ring_color, None);
    assert_eq!(s.notification_max_visible, 3);
    assert_eq!(s.mcp_port, 0);
    assert!(s.window_resizable && !s.window_always_on_top && !s.window_start_maximized && !s.window_start_fullscreen);
    assert!(s.scrollbar_auto_hide && s.shadows_enabled);
    assert!(s.linux_categories.is_empty());
}

#[test]
fn settings_given() {
    let mut raw = no_settings();
    raw.theme = Some("dark".into());
    raw.mcp_port = Some(8765);
    raw.focus_ring_color = Some("#112233".into());
    raw.sidebar_bg = Some("#000000".into());
    raw.window_resizable = Some(false);
    raw.linux_categories = Some(vec!["Office".into()]);
    let s = resolve_settings(raw);
    assert_eq!(s.theme, Theme::Dark);
    assert_eq!(s.mcp_port, 8765);
    assert_eq!(s.focus_ring_color, Some(Color::rgb(0x11, 0x22, 0x33)));
    assert_eq!(s.sidebar_bg, Color::rgb(0, 0, 0));
    assert!(!s.window_resizable);
    assert_eq!(s.linux_categories, vec!["Office".to_string()]);
}
