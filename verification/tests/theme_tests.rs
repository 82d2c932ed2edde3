use clocktui::layout::{center_vertical, centered_rect, inset, Rect};
use clocktui::theme::{
    choose_theme_source, invalid_theme_message, legacy_theme_file_path, parse_color, parse_palette,
    parse_theme, read_color, read_theme, theme_file_path, theme_file_path_from_config_dir, Color,
    RawAppTheme, RawClockTheme, RawModalTheme, RawThemeFile, RawTimezonesTheme, Reading, ThemeSource,
};
use std::path::PathBuf;

fn s(v: &str) -> String {
    v.to_string()
}

fn sample_raw() -> RawThemeFile {
    RawThemeFile {
        app: RawAppTheme { background: s("#070A10") },
        clock: RawClockTheme {
            panel_background: s("#0A0E18"),
            panel_border: s("#50B4DC"),
            title: s("#BEF0FF"),
            shadow: s("#18222C"),
            digits: vec![s("#FFFFFF"), s("#EEEEEE")],
        },
        timezones: RawTimezonesTheme {
            panel_background: s("#121A24"),
            accents: vec![s("#7AD2FF")],
            label: s("#DCE4EC"),
            time: s("#FFFFFF"),
            offset: s("#94ABBE"),
        },
        modal: RawModalTheme {
            panel_background: s("#0C121E"),
            panel_border: s("#7CEAFF"),
            title: s("#C8F2FF"),
            question: s("#E8EEF4"),
            hint: s("#8EA8BA"),
            option_default: s("#CDD5DF"),
            option_selected_foreground: s("#000000"),
            option_selected_background: s("#7CEAFF"),
        },
    }
}

// A complete theme, written out as its tables.
#[test]
fn parses_valid_theme_toml() {
    let theme = parse_theme(&sample_raw()).expect("valid theme");

    assert_eq!(theme.app_background, Color::Rgb(7, 10, 16));
    assert_eq!(theme.clock_digits.len(), 2);
}

#[test]
fn builds_theme_path_under_theme_directory() {
    let path = PathBuf::from(theme_file_path_from_config_dir("/tmp/clocktui", "dark"));
    assert_eq!(path, PathBuf::from("/tmp/clocktui/themes/dark/theme.toml"));
}

#[test]
fn theme_paths_pass_directory_errors_through() {
    assert_eq!(
        theme_file_path(Ok(s("/c")), "sunset").unwrap(),
        "/c/themes/sunset/theme.toml"
    );
    assert_eq!(legacy_theme_file_path(Ok(s("/c")), "sunset").unwrap(), "/c/sunset/theme.toml");
    assert_eq!(theme_file_path(Err(s("no home")), "x").unwrap_err(), "no home");
    assert_eq!(legacy_theme_file_path(Err(s("no home")), "x").unwrap_err(), "no home");
}

#[test]
fn theme_fields_hold_their_colours() {
    let theme = parse_theme(&sample_raw()).expect("valid theme");
    assert_eq!(theme.clock_panel_border, Color::Rgb(0x50, 0xB4, 0xDC));
    assert_eq!(theme.timezone_offset, Color::Rgb(0x94, 0xAB, 0xBE));
    assert_eq!(theme.modal_option_selected_foreground, Color::Rgb(0, 0, 0));
    assert_eq!(theme.modal_option_selected_background, Color::Rgb(0x7C, 0xEA, 0xFF));
    assert_eq!(theme.clock_digits, vec![Color::Rgb(255, 255, 255), Color::Rgb(0xEE, 0xEE, 0xEE)]);
    assert_eq!(theme.timezone_panel_border_accents, vec![Color::Rgb(0x7A, 0xD2, 0xFF)]);
}

#[test]
fn colour_errors_name_the_failing_part() {
    assert_eq!(parse_color("k", "#1a2B3c"), Ok(Color::Rgb(0x1a, 0x2b, 0x3c)));
    assert_eq!(parse_color("k", "123456").unwrap_err(), "k must use #RRGGBB, got 123456");
    assert_eq!(parse_color("k", "#12345").unwrap_err(), "k must use #RRGGBB, got #12345");
    assert_eq!(parse_color("k", "#1234567").unwrap_err(), "k must use #RRGGBB, got #1234567");
    assert_eq!(parse_color("k", "").unwrap_err(), "k must use #RRGGBB, got ");
    assert_eq!(parse_color("k", "#zz3456").unwrap_err(), "k has an invalid red component: #zz3456");
    assert_eq!(parse_color("k", "#12zz56").unwrap_err(), "k has an invalid green component: #12zz56");
    assert_eq!(parse_color("k", "#1234zz").unwrap_err(), "k has an invalid blue component: #1234zz");
    // u8::from_str_radix takes a leading plus sign.
    assert_eq!(parse_color("k", "#+f+f+f"), Ok(Color::Rgb(15, 15, 15)));
    assert_eq!(parse_color("k", "#-f0000").unwrap_err(), "k has an invalid red component: #-f0000");
    // Two-byte characters on the component boundaries are read, and rejected.
    assert_eq!(parse_color("k", "#é1234").unwrap_err(), "k has an invalid red component: #é1234");
    assert_eq!(parse_color("k", "#12é34").unwrap_err(), "k has an invalid green component: #12é34");
}

#[test]
fn slices_across_a_character_stop_the_reading() {
    assert!(matches!(read_color("k", "#1é234"), Reading::Panics));
    assert!(matches!(read_color("k", "#123é4"), Reading::Panics));
    assert!(matches!(read_color("k", "#€123"), Reading::Panics));
    let hex = "1é234";
    assert!(!hex.is_char_boundary(2));
}

#[test]
fn palette_errors_name_the_element() {
    assert_eq!(
        parse_palette("clock.digits", &vec![s("#000000"), s("#111111"), s("red")]).unwrap_err(),
        "clock.digits[2] must use #RRGGBB, got red"
    );
    let mut long = vec![s("#000000"); 12];
    long[11] = s("#00000g");
    assert_eq!(
        parse_palette("p", &long).unwrap_err(),
        "p[11] has an invalid blue component: #00000g"
    );
    assert_eq!(parse_palette("p", &vec![]), Ok(vec![]));
}

#[test]
fn empty_palettes_are_rejected_in_order() {
    let mut raw = sample_raw();
    raw.clock.digits = vec![];
    raw.timezones.accents = vec![];
    raw.app.background = s("bad");
    assert_eq!(parse_theme(&raw).unwrap_err(), "clock.digits must include at least 1 color");
    raw.clock.digits = vec![s("#FFFFFF")];
    assert_eq!(parse_theme(&raw).unwrap_err(), "timezones.accents must include at least 1 color");
    raw.timezones.accents = vec![s("#FFFFFF")];
    assert_eq!(parse_theme(&raw).unwrap_err(), "app.background must use #RRGGBB, got bad");
}

#[test]
fn first_bad_single_colour_is_reported() {
    let mut raw = sample_raw();
    raw.modal.hint = s("#GG0000");
    raw.timezones.time = s("nope");
    assert_eq!(parse_theme(&raw).unwrap_err(), "timezones.time must use #RRGGBB, got nope");
    raw.timezones.time = s("#FFFFFF");
    assert_eq!(parse_theme(&raw).unwrap_err(), "modal.hint has an invalid red component: #GG0000");
}

#[test]
fn read_theme_reports_an_unreadable_slice() {
    let mut raw = sample_raw();
    raw.clock.title = s("#1é234");
    assert!(matches!(read_theme(&raw), Reading::Panics));
    raw.clock.panel_border = s("bad");
    assert!(matches!(read_theme(&raw), Reading::Rejected(_)));
}

#[test]
fn digit_colours_saturate_and_accents_cycle() {
    let mut raw = sample_raw();
    raw.timezones.accents = vec![s("#010101"), s("#020202"), s("#030303")];
    let theme = parse_theme(&raw).expect("valid theme");
    assert_eq!(theme.clock_digit_color(0), Color::Rgb(255, 255, 255));
    assert_eq!(theme.clock_digit_color(1), Color::Rgb(0xEE, 0xEE, 0xEE));
    assert_eq!(theme.clock_digit_color(9), Color::Rgb(0xEE, 0xEE, 0xEE));
    assert_eq!(theme.timezone_accent_color(0), Color::Rgb(1, 1, 1));
    assert_eq!(theme.timezone_accent_color(4), Color::Rgb(2, 2, 2));
    assert_eq!(theme.timezone_accent_color(5), Color::Rgb(3, 3, 3));
}

#[test]
fn colour_text_reads_back() {
    for (r, g, b) in [(0u8, 0u8, 0u8), (255, 255, 255), (7, 10, 16), (0xAB, 0xCD, 0xEF)] {
        let text = format!("#{r:02X}{g:02X}{b:02X}");
        assert_eq!(parse_color("any", &text), Ok(Color::Rgb(r, g, b)));
    }
}

#[test]
fn theme_source_falls_back_in_order() {
    match choose_theme_source("dark", s("/p"), Ok(s("text")), None).unwrap() {
        ThemeSource::File { contents, path } => {
            assert_eq!(contents, "text");
            assert_eq!(path, "/p");
        }
        other => panic!("unexpected {other:?}"),
    }
    match choose_theme_source("dark", s("/p"), Err(s("e1")), Some((s("/l"), Ok(s("old")))))
        .unwrap()
    {
        ThemeSource::File { contents, path } => {
            assert_eq!(contents, "old");
            assert_eq!(path, "/l");
        }
        other => panic!("unexpected {other:?}"),
    }
    match choose_theme_source("default", s("/p"), Err(s("e1")), Some((s("/l"), Err(s("e2")))))
        .unwrap()
    {
        ThemeSource::BuiltinDefault { path } => assert_eq!(path, "/p"),
        other => panic!("unexpected {other:?}"),
    }
    assert_eq!(
        choose_theme_source("dark", s("/p"), Err(s("e1")), Some((s("/l"), Err(s("e2")))))
            .unwrap_err(),
        "Failed to read /p: e1; also failed legacy path /l: e2"
    );
    assert_eq!(invalid_theme_message("/p", "bad"), "Invalid /p: bad");
}

#[test]
fn layout_helpers_stay_inside_their_area() {
    let area = Rect { x: 2, y: 3, width: 40, height: 10 };
    assert_eq!(inset(area, 2, 1), Rect { x: 4, y: 4, width: 36, height: 8 });
    assert_eq!(inset(area, 30, 1).width, 0);
    assert_eq!(centered_rect(46, 7, area), Rect { x: 2, y: 4, width: 40, height: 7 });
    assert_eq!(centered_rect(10, 4, area), Rect { x: 17, y: 6, width: 10, height: 4 });
    assert_eq!(center_vertical(area, 3), Rect { x: 2, y: 6, width: 40, height: 3 });
    assert_eq!(center_vertical(area, 0), area);
    assert_eq!(center_vertical(area, 12), area);
}
