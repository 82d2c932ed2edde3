use clocktui::config::{
    apply_cli_overrides, apply_raw_config, label_from_timezone_name, Config, RawConfigFile,
    RawThemeConfig, RawTimezoneEntry, RawTimezoneSpec, TimezoneSpec,
};
use clocktui::paths::{config_dir_from, config_file_path, join};

fn empty_raw() -> RawConfigFile {
    RawConfigFile {
        primary_timezone: None,
        primary_zone: None,
        refresh_interval_ms: None,
        timezones: None,
        theme: None,
    }
}

fn args(list: &[&str]) -> Vec<String> {
    list.iter().map(|s| s.to_string()).collect()
}

// [theme]
// theme = "sunset"
#[test]
fn applies_theme_from_config_file() {
    let raw = RawConfigFile {
        theme: Some(RawThemeConfig { theme: Some("sunset".to_string()) }),
        ..empty_raw()
    };

    let mut cfg = Config::default();
    apply_raw_config(&mut cfg, raw);

    assert_eq!(cfg.theme_name, "sunset");
}

// refresh_interval_ms = 250
#[test]
fn applies_refresh_interval_from_config_file() {
    let raw = RawConfigFile { refresh_interval_ms: Some(250), ..empty_raw() };
    let mut cfg = Config::default();
    apply_raw_config(&mut cfg, raw);
    assert_eq!(cfg.refresh_interval_ms, 250);
}

// primary_timezone = "America/New_York"
#[test]
fn applies_primary_timezone_from_new_key() {
    let raw = RawConfigFile { primary_timezone: Some("America/New_York".to_string()), ..empty_raw() };
    let mut cfg = Config::default();
    apply_raw_config(&mut cfg, raw);
    assert_eq!(cfg.primary_zone, "America/New_York");
}

// timezones = ["Europe/London", "Asia/Tokyo"]
#[test]
fn applies_timezones_from_string_list() {
    let raw = RawConfigFile {
        timezones: Some(vec![
            RawTimezoneEntry::Name("Europe/London".to_string()),
            RawTimezoneEntry::Name("Asia/Tokyo".to_string()),
        ]),
        ..empty_raw()
    };

    let mut cfg = Config::default();
    apply_raw_config(&mut cfg, raw);

    assert_eq!(cfg.timezones.len(), 2);
    assert_eq!(cfg.timezones[0].name, "Europe/London");
    assert_eq!(cfg.timezones[0].label, "London");
    assert_eq!(cfg.timezones[1].name, "Asia/Tokyo");
    assert_eq!(cfg.timezones[1].label, "Tokyo");
}

// [[timezones]]
// name = "America/Argentina/Buenos_Aires"
#[test]
fn generates_label_when_missing_in_table_format() {
    let raw = RawConfigFile {
        timezones: Some(vec![RawTimezoneEntry::Detailed(RawTimezoneSpec {
            label: None,
            name: "America/Argentina/Buenos_Aires".to_string(),
        })]),
        ..empty_raw()
    };

    let mut cfg = Config::default();
    apply_raw_config(&mut cfg, raw);

    assert_eq!(cfg.timezones.len(), 1);
    assert_eq!(cfg.timezones[0].label, "Buenos Aires");
    assert_eq!(cfg.timezones[0].name, "America/Argentina/Buenos_Aires");
}

#[test]
fn defaults_match_the_readme() {
    let cfg = Config::default();
    assert_eq!(cfg.primary_zone, "America/Sao_Paulo");
    assert_eq!(cfg.refresh_interval_ms, 1000);
    assert!(cfg.timezones.is_empty());
    assert_eq!(cfg.theme_name, "default");
}

#[test]
fn new_primary_key_wins_over_the_old_one() {
    let raw = RawConfigFile {
        primary_timezone: Some("Asia/Tokyo".to_string()),
        primary_zone: Some("Europe/Paris".to_string()),
        ..empty_raw()
    };
    let mut cfg = Config::default();
    apply_raw_config(&mut cfg, raw);
    assert_eq!(cfg.primary_zone, "Asia/Tokyo");

    let raw = RawConfigFile { primary_zone: Some("Europe/Paris".to_string()), ..empty_raw() };
    let mut cfg = Config::default();
    apply_raw_config(&mut cfg, raw);
    assert_eq!(cfg.primary_zone, "Europe/Paris");
}

#[test]
fn zero_refresh_interval_becomes_one_millisecond() {
    let raw = RawConfigFile { refresh_interval_ms: Some(0), ..empty_raw() };
    let mut cfg = Config::default();
    apply_raw_config(&mut cfg, raw);
    assert_eq!(cfg.refresh_interval_ms, 1);
}

#[test]
fn theme_table_without_name_keeps_the_theme() {
    let raw = RawConfigFile { theme: Some(RawThemeConfig { theme: None }), ..empty_raw() };
    let mut cfg = Config::default();
    apply_raw_config(&mut cfg, raw);
    assert_eq!(cfg.theme_name, "default");
}

#[test]
fn table_labels_are_trimmed_and_blank_ones_derived() {
    let raw = RawConfigFile {
        timezones: Some(vec![
            RawTimezoneEntry::Detailed(RawTimezoneSpec {
                label: Some("  Home \t".to_string()),
                name: "Europe/Lisbon".to_string(),
            }),
            RawTimezoneEntry::Detailed(RawTimezoneSpec {
                label: Some(" \u{3000} ".to_string()),
                name: "America/Los_Angeles".to_string(),
            }),
        ]),
        ..empty_raw()
    };
    let mut cfg = Config::default();
    apply_raw_config(&mut cfg, raw);
    assert_eq!(cfg.timezones[0].label, "Home");
    assert_eq!(cfg.timezones[1].label, "Los Angeles");
}

#[test]
fn labels_come_from_the_last_segment() {
    assert_eq!(label_from_timezone_name("UTC"), "UTC");
    assert_eq!(label_from_timezone_name("America/Sao_Paulo"), "Sao Paulo");
    assert_eq!(label_from_timezone_name("Etc/"), "");
    assert_eq!(label_from_timezone_name(""), "");
    let once = label_from_timezone_name("America/North_Dakota/New_Salem");
    assert_eq!(once, "New Salem");
    assert_eq!(label_from_timezone_name(&once), once);
}

#[test]
fn from_name_derives_the_label() {
    let spec = TimezoneSpec::from_name("Asia/Kolkata".to_string());
    assert_eq!(spec.label, "Kolkata");
    assert_eq!(spec.name, "Asia/Kolkata");
}

#[test]
fn cli_overrides_primary_theme_and_zones() {
    let mut cfg = Config::default();
    cfg.timezones = vec![TimezoneSpec::from_name("Europe/Paris".to_string())];
    apply_cli_overrides(
        &mut cfg,
        args(&[
            "--primary",
            "America/New_York",
            "--timezone",
            "Asia/Tokyo",
            "--timezone=Europe/Lisbon",
            "--theme=dark",
            "stray",
        ]),
    );
    assert_eq!(cfg.primary_zone, "America/New_York");
    assert_eq!(cfg.theme_name, "dark");
    assert_eq!(cfg.timezones.len(), 2);
    assert_eq!(cfg.timezones[0].name, "Asia/Tokyo");
    assert_eq!(cfg.timezones[0].label, "Tokyo");
    assert_eq!(cfg.timezones[1].name, "Europe/Lisbon");
    assert_eq!(cfg.refresh_interval_ms, 1000);
}

#[test]
fn cli_without_zones_keeps_configured_zones() {
    let mut cfg = Config::default();
    cfg.timezones = vec![TimezoneSpec::from_name("Europe/Paris".to_string())];
    apply_cli_overrides(&mut cfg, args(&["--primary=UTC", "--theme", "light", "--primary"]));
    assert_eq!(cfg.primary_zone, "UTC");
    assert_eq!(cfg.theme_name, "light");
    assert_eq!(cfg.timezones.len(), 1);
    assert_eq!(cfg.timezones[0].name, "Europe/Paris");
}

#[test]
fn last_cli_setting_wins() {
    let mut cfg = Config::default();
    apply_cli_overrides(&mut cfg, args(&["--theme", "a", "--theme=b", "--primary=", "--timezone"]));
    assert_eq!(cfg.theme_name, "b");
    assert_eq!(cfg.primary_zone, "");
    assert!(cfg.timezones.is_empty());
}

#[test]
fn config_dir_prefers_xdg_and_falls_back_to_home() {
    assert_eq!(
        config_dir_from(Some("/x/cfg".to_string()), Some("/home/u".to_string())).unwrap(),
        "/x/cfg/clocktui"
    );
    assert_eq!(config_dir_from(None, Some("/home/u".to_string())).unwrap(), "/home/u/.config/clocktui");
    assert_eq!(config_dir_from(Some(String::new()), None).unwrap(), "clocktui");
    assert_eq!(config_dir_from(None, None).unwrap_err(), "HOME environment variable is not set");
    assert_eq!(
        config_file_path(Ok("/home/u/.config/clocktui".to_string())).unwrap(),
        "/home/u/.config/clocktui/config.toml"
    );
    assert_eq!(config_file_path(Err("no home".to_string())).unwrap_err(), "no home");
}

#[test]
fn join_matches_pathbuf_join() {
    let cases = [
        ("/tmp/clocktui", "themes"),
        ("/tmp/clocktui/", "themes"),
        ("", "themes"),
        ("/tmp", "/etc/theme"),
        ("rel", "a/b"),
        ("/", "x"),
    ];
    for (base, part) in cases {
        let expected = std::path::PathBuf::from(base).join(part);
        assert_eq!(join(base, part), expected.to_str().unwrap(), "{base:?} + {part:?}");
    }
}
