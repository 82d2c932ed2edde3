use clocktui::app::{poll_timeout, tick_is_due, AppAction, ClockApp, KeyCode, KeyEvent, KeyModifiers};
use clocktui::config::{Config, TimezoneSpec};

#[test]
fn ctrl_q_opens_confirmation_modal() {
    let mut app = ClockApp::new(Config::default()).expect("valid config");
    let action = app.handle_key(KeyEvent::new(KeyCode::Char('q'), KeyModifiers::CONTROL));
    assert_eq!(action, AppAction::Redraw);
    assert!(app.show_quit);
    assert!(app.select_yes);
}

#[test]
fn no_then_enter_closes_confirmation() {
    let mut app = ClockApp::new(Config::default()).expect("valid config");
    app.show_quit = true;
    app.select_yes = true;

    let action = app.handle_key(KeyEvent::new(KeyCode::Left, KeyModifiers::NONE));
    assert_eq!(action, AppAction::Redraw);
    assert!(!app.select_yes);

    let action = app.handle_key(KeyEvent::new(KeyCode::Enter, KeyModifiers::NONE));
    assert_eq!(action, AppAction::Redraw);
    assert!(!app.show_quit);
}

#[test]
fn yes_then_enter_quits() {
    let mut app = ClockApp::new(Config::default()).expect("valid config");
    app.show_quit = true;
    app.select_yes = false;

    let action = app.handle_key(KeyEvent::new(KeyCode::Right, KeyModifiers::NONE));
    assert_eq!(action, AppAction::Redraw);
    assert!(app.select_yes);

    let action = app.handle_key(KeyEvent::new(KeyCode::Enter, KeyModifiers::NONE));
    assert_eq!(action, AppAction::Quit);
}

#[test]
fn closed_dialog_ignores_other_keys() {
    let mut app = ClockApp::new(Config::default()).expect("valid config");
    for code in [KeyCode::Enter, KeyCode::Esc, KeyCode::Left, KeyCode::Char('q'), KeyCode::Other] {
        assert_eq!(app.handle_key(KeyEvent::new(code, KeyModifiers::NONE)), AppAction::Idle);
        assert!(!app.show_quit);
        assert!(app.select_yes);
    }
}

#[test]
fn ctrl_q_then_enter_quits_from_a_fresh_clock() {
    let mut app = ClockApp::new(Config::default()).expect("valid config");
    app.select_yes = false;
    assert_eq!(
        app.handle_key(KeyEvent::new(KeyCode::Char('q'), KeyModifiers::CONTROL)),
        AppAction::Redraw
    );
    assert_eq!(app.handle_key(KeyEvent::new(KeyCode::Enter, KeyModifiers::NONE)), AppAction::Quit);
}

#[test]
fn vi_keys_and_esc_work_in_the_dialog() {
    let mut app = ClockApp::new(Config::default()).expect("valid config");
    app.show_quit = true;
    assert_eq!(app.handle_key(KeyEvent::new(KeyCode::Char('h'), KeyModifiers::NONE)), AppAction::Redraw);
    assert!(!app.select_yes);
    assert_eq!(app.handle_key(KeyEvent::new(KeyCode::Char('h'), KeyModifiers::NONE)), AppAction::Idle);
    assert_eq!(app.handle_key(KeyEvent::new(KeyCode::Char('l'), KeyModifiers::NONE)), AppAction::Redraw);
    assert!(app.select_yes);
    assert_eq!(app.handle_key(KeyEvent::new(KeyCode::Right, KeyModifiers::NONE)), AppAction::Idle);
    assert_eq!(app.handle_key(KeyEvent::new(KeyCode::Char('q'), KeyModifiers::CONTROL)), AppAction::Idle);
    assert!(app.show_quit);
    assert_eq!(app.handle_key(KeyEvent::new(KeyCode::Esc, KeyModifiers::NONE)), AppAction::Redraw);
    assert!(!app.show_quit);
    assert!(app.select_yes);
}

#[test]
fn new_clock_keeps_labels_in_order() {
    let mut cfg = Config::default();
    cfg.timezones = vec![
        TimezoneSpec { label: "London".to_string(), name: "Europe/London".to_string() },
        TimezoneSpec { label: "Tokyo".to_string(), name: "Asia/Tokyo".to_string() },
    ];
    let app = ClockApp::new(cfg).expect("valid config");
    assert_eq!(app.zones.len(), 2);
    assert_eq!(app.zones[0].label, "London");
    assert_eq!(app.zones[0].tz, chrono_tz::Tz::Europe__London);
    assert_eq!(app.zones[1].label, "Tokyo");
    assert_eq!(app.zones[1].tz, chrono_tz::Tz::Asia__Tokyo);
    assert_eq!(app.primary_tz, chrono_tz::Tz::America__Sao_Paulo);
    assert!(!app.show_quit);
    assert!(app.select_yes);
}

#[test]
fn unknown_primary_zone_is_an_error() {
    let mut cfg = Config::default();
    cfg.primary_zone = "Mars/Olympus".to_string();
    cfg.timezones = vec![TimezoneSpec { label: "X".to_string(), name: "Nowhere/X".to_string() }];
    let err = ClockApp::new(cfg).unwrap_err();
    assert_eq!(err, "Invalid primary timezone: Mars/Olympus");
}

#[test]
fn first_unknown_zone_is_the_error() {
    let mut cfg = Config::default();
    cfg.timezones = vec![
        TimezoneSpec { label: "A".to_string(), name: "Europe/Paris".to_string() },
        TimezoneSpec { label: "B".to_string(), name: "europe/paris".to_string() },
        TimezoneSpec { label: "C".to_string(), name: "Nowhere/C".to_string() },
    ];
    let err = ClockApp::new(cfg).unwrap_err();
    assert_eq!(err, "Invalid timezone: europe/paris");
}

#[test]
fn from_parsed_reports_the_first_missing_zone() {
    let mut cfg = Config::default();
    cfg.timezones = vec![
        TimezoneSpec { label: "A".to_string(), name: "a".to_string() },
        TimezoneSpec { label: "B".to_string(), name: "b".to_string() },
    ];
    let err = ClockApp::from_parsed(
        cfg.clone(),
        Some(chrono_tz::Tz::UTC),
        vec![Some(chrono_tz::Tz::UTC), None],
    )
    .unwrap_err();
    assert_eq!(err, "Invalid timezone: b");
    let err = ClockApp::from_parsed(cfg.clone(), None, vec![None, None]).unwrap_err();
    assert_eq!(err, "Invalid primary timezone: America/Sao_Paulo");
    let app = ClockApp::from_parsed(
        cfg,
        Some(chrono_tz::Tz::UTC),
        vec![Some(chrono_tz::Tz::Europe__Berlin), Some(chrono_tz::Tz::Asia__Tokyo)],
    )
    .expect("all parsed");
    assert_eq!(app.zones[1].label, "B");
    assert_eq!(app.zones[1].tz, chrono_tz::Tz::Asia__Tokyo);
}

#[test]
fn waiting_time_is_what_is_left_of_the_interval() {
    let second = 1_000_000_000u128;
    assert_eq!(poll_timeout(second, 250_000_000), 750_000_000);
    assert_eq!(poll_timeout(second, second), 0);
    assert_eq!(poll_timeout(second, 3 * second), 0);
    assert!(!tick_is_due(second, second - 1));
    assert!(tick_is_due(second, second));
    assert!(tick_is_due(second, 2 * second));
}
