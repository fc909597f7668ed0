use rat::config::Config;
use rat::timeout::{duration_given, parsed_timeout, set_timeout_at, unset_timeout, unset_timeout_at};

#[test]
fn parsed_timeout_valid_duration() {
    assert_eq!(parsed_timeout("30"), Some(30));
}

#[test]
fn parsed_timeout_zero_means_disabled() {
    assert_eq!(parsed_timeout("0"), None);
}

#[test]
fn parsed_timeout_non_numeric_falls_back_to_disabled() {
    assert_eq!(parsed_timeout("banana"), None);
}

#[test]
fn set_timeout_persists_duration() {
    let mut config = Config::default();
    set_timeout_at(&mut config, "45");
    assert_eq!(config.time_out, Some(45));
}

#[test]
fn set_timeout_zero_clears_existing_value() {
    let mut config = Config { time_out: Some(45), ..Default::default() };
    set_timeout_at(&mut config, "0");
    assert_eq!(config.time_out, None);
}

#[test]
fn unset_timeout_clears_existing_value() {
    let mut config = Config { time_out: Some(45), ..Default::default() };
    unset_timeout_at(&mut config);
    assert_eq!(config.time_out, None);
}

#[test]
fn parsed_timeout_follows_integer_parsing() {
    assert_eq!(parsed_timeout("-5"), Some(-5));
    assert_eq!(parsed_timeout("+7"), Some(7));
    assert_eq!(parsed_timeout("2147483647"), Some(i32::MAX));
    assert_eq!(parsed_timeout("-2147483648"), Some(i32::MIN));
    assert_eq!(parsed_timeout("2147483648"), None);
    assert_eq!(parsed_timeout(" 30"), None);
    assert_eq!(parsed_timeout("30s"), None);
    assert_eq!(parsed_timeout(""), None);
    assert_eq!(parsed_timeout("-"), None);
    assert_eq!(parsed_timeout("+"), None);
    assert_eq!(parsed_timeout("007"), Some(7));
    for text in ["30", "-5", "+7", "2147483648", "banana", "", "-0", "99999999999"] {
        let expected = text.parse::<i32>().unwrap_or(0);
        let expected = if expected == 0 { None } else { Some(expected) };
        assert_eq!(parsed_timeout(text), expected, "for {text:?}");
    }
}

#[test]
fn set_timeout_keeps_the_other_settings() {
    let mut config = Config {
        default_folder: Some("/w".to_string()),
        ignored_folders: Some(vec![".git".to_string()]),
        time_out: None,
    };
    set_timeout_at(&mut config, "12");
    assert_eq!(config.time_out, Some(12));
    assert_eq!(config.default_folder.as_deref(), Some("/w"));
    assert_eq!(config.ignored_folders, Some(vec![".git".to_string()]));
}

#[test]
fn empty_duration_is_not_given() {
    assert!(!duration_given(""));
    assert!(duration_given("banana"));
    assert!(duration_given(" "));
    assert!(duration_given("30"));
}

#[test]
fn unset_after_set_leaves_no_timeout() {
    let mut config = Config::default();
    set_timeout_at(&mut config, "30");
    unset_timeout(&mut config);
    assert_eq!(config.time_out, None);
}
