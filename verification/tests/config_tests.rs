use mu_t::config::{color_text_valid, parse_color, Color, Config, ConfigToml, Theme, ThemeToml};

#[test]
fn colors_are_read_from_hex_texts() {
    assert_eq!(parse_color("#ff8000"), Some(Color::Rgb(255, 128, 0)));
    assert_eq!(parse_color("1e1E1e"), Some(Color::Rgb(30, 30, 30)));
    assert_eq!(parse_color("##0a0b0c"), Some(Color::Rgb(10, 11, 12)));
    // a pair may be a `+` and one digit, as `u8::from_str_radix` reads it
    assert_eq!(parse_color("+f+a+1"), Some(Color::Rgb(15, 10, 1)));
    assert_eq!(parse_color("#fff"), None);
    assert_eq!(parse_color("zzzzzz"), None);
    assert_eq!(parse_color("#ff80001"), None);
    assert_eq!(parse_color("-1ffff"), None);
}

#[test]
fn color_texts_cut_inside_a_character_are_refused() {
    assert!(color_text_valid("#ff8000"));
    assert!(color_text_valid("é1234"));
    assert_eq!(parse_color("é1234"), None);
    assert!(!color_text_valid("aé123"));
}

#[test]
fn themes_hold_their_colours() {
    let d = Theme::dark();
    assert_eq!(d.status_bg, Color::Rgb(30, 30, 30));
    assert_eq!(d.ghost_fg, Color::Rgb(80, 80, 100));
    let l = Theme::light();
    assert_eq!(l.status_bg, Color::Rgb(220, 220, 220));
    assert_eq!(l.err_fg, Color::Rgb(200, 40, 40));
}

#[test]
fn default_configuration_is_dark_with_autosave() {
    let raw = ConfigToml::default();
    assert!(raw.theme.overrides_valid());
    let c = Config::from_toml(raw);
    assert_eq!(c.theme.status_fg, Theme::dark().status_fg);
    assert_eq!(c.theme.selection_bg, Color::Rgb(50, 60, 100));
    assert_eq!(c.syntax, "base16-ocean.dark");
    assert_eq!(c.tab_width, 4);
    assert_eq!(c.auto_save_interval, 10);
}

#[test]
fn light_theme_with_overrides() {
    let mut raw = ConfigToml::default();
    raw.theme.name = String::from("light");
    raw.theme.status_bg = Some(String::from("#010203"));
    raw.theme.ok_fg = Some(String::from("not a colour"));
    raw.editor.auto_save_interval = 0;
    let c = Config::from_toml(raw);
    assert_eq!(c.theme.status_bg, Color::Rgb(1, 2, 3));
    assert_eq!(c.theme.ok_fg, Theme::light().ok_fg);
    assert_eq!(c.theme.status_fg, Theme::light().status_fg);
    assert_eq!(c.auto_save_interval, 0);
    let t = ThemeToml::default();
    assert_eq!(t.name, "dark");
}
