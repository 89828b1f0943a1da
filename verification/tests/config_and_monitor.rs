use check_websites::config::{build_config, parse_u64, site_list, ConfigError};
use check_websites::monitor::Monitor;
use check_websites::tracker::{EventKind, RawStatus};

fn full_config(
    interval: Option<&str>,
    identifier: Option<&str>,
    target: Option<&str>,
    sites: Option<&str>,
    retries: Option<&str>,
) -> Result<check_websites::config::Config, ConfigError> {
    build_config(
        interval.map(|s| s.to_string()),
        identifier.map(|s| s.to_string()),
        target.map(|s| s.to_string()),
        sites.map(|s| s.to_string()),
        retries.map(|s| s.to_string()),
    )
}

#[test]
fn complete_configuration_is_accepted() {
    let config = full_config(
        Some("60"),
        Some("prod"),
        Some("https://hooks.example.com/T000/B000/x"),
        Some("https://a.example https://b.example"),
        Some("3"),
    )
    .unwrap();
    assert_eq!(config.interval, 60);
    assert_eq!(config.identifier, "prod");
    assert_eq!(config.notification_target, "https://hooks.example.com/T000/B000/x");
    assert_eq!(
        config.endpoints,
        vec!["https://a.example".to_string(), "https://b.example".to_string()]
    );
    assert_eq!(config.retry_threshold, 3);
}

#[test]
fn missing_identifier_is_fatal() {
    let result = full_config(Some("60"), None, Some("url"), Some("a"), Some("3"));
    assert_eq!(result.err().unwrap(), ConfigError::MissingIdentifier);
}

#[test]
fn missing_notification_target_is_fatal() {
    let result = full_config(Some("60"), Some("id"), None, Some("a"), Some("3"));
    assert_eq!(result.err().unwrap(), ConfigError::MissingNotificationTarget);
}

#[test]
fn missing_sites_is_fatal() {
    let result = full_config(Some("60"), Some("id"), Some("url"), None, Some("3"));
    assert_eq!(result.err().unwrap(), ConfigError::MissingEndpoints);
}

#[test]
fn blank_sites_are_fatal() {
    let result = full_config(Some("60"), Some("id"), Some("url"), Some("   "), Some("3"));
    assert_eq!(result.err().unwrap(), ConfigError::MissingEndpoints);
}

#[test]
fn optional_fields_fall_back_to_defaults() {
    let config = full_config(None, Some("id"), Some("url"), Some("a"), None).unwrap();
    assert_eq!(config.interval, 90);
    assert_eq!(config.retry_threshold, 5);
}

#[test]
fn malformed_numbers_fall_back_to_defaults() {
    let config = full_config(
        Some("ninety"),
        Some("id"),
        Some("url"),
        Some("a"),
        Some("-3"),
    )
    .unwrap();
    assert_eq!(config.interval, 90);
    assert_eq!(config.retry_threshold, 5);
}

#[test]
fn zero_and_oversized_numbers_fall_back_to_defaults() {
    let config = full_config(
        Some("0"),
        Some("id"),
        Some("url"),
        Some("a"),
        Some("18446744073709551616"),
    )
    .unwrap();
    assert_eq!(config.interval, 90);
    assert_eq!(config.retry_threshold, 5);
}

#[test]
fn sites_are_split_and_deduplicated_in_order() {
    let sites = site_list("b  a b c a");
    assert_eq!(
        sites,
        vec!["b".to_string(), "a".to_string(), "c".to_string()]
    );
}

#[test]
fn site_list_of_blanks_is_empty() {
    assert_eq!(site_list(""), Vec::<String>::new());
    assert_eq!(site_list("    "), Vec::<String>::new());
}

#[test]
fn parse_u64_accepts_digits_only() {
    assert_eq!(parse_u64("0"), Some(0));
    assert_eq!(parse_u64("42"), Some(42));
    assert_eq!(parse_u64("18446744073709551615"), Some(u64::MAX));
    assert_eq!(parse_u64("18446744073709551616"), None);
    assert_eq!(parse_u64(""), None);
    assert_eq!(parse_u64("4x2"), None);
    assert_eq!(parse_u64(" 42"), None);
}

#[test]
fn monitor_tracks_endpoints_independently() {
    let endpoints = vec!["a".to_string(), "b".to_string()];
    let mut monitor = Monitor::new(endpoints, 2);

    let events = monitor.run_cycle(&vec![RawStatus::Down, RawStatus::Up]);
    assert_eq!(events, vec![None, None]);

    let events = monitor.run_cycle(&vec![RawStatus::Down, RawStatus::Up]);
    assert_eq!(events, vec![Some(EventKind::DownAlert), None]);

    let events = monitor.run_cycle(&vec![RawStatus::Up, RawStatus::Down]);
    assert_eq!(events, vec![Some(EventKind::UpAgainAlert), None]);

    let events = monitor.run_cycle(&vec![RawStatus::Up, RawStatus::Down]);
    assert_eq!(events, vec![None, Some(EventKind::DownAlert)]);
}

#[test]
fn endpoints_are_found_by_name() {
    let monitor = Monitor::new(vec!["a".to_string(), "b".to_string()], 2);
    assert_eq!(monitor.find_endpoint(&"a".to_string()), Some(0));
    assert_eq!(monitor.find_endpoint(&"b".to_string()), Some(1));
    assert_eq!(monitor.find_endpoint(&"c".to_string()), None);
}

#[test]
fn single_endpoint_update() {
    let mut monitor = Monitor::new(vec!["a".to_string()], 1);
    let event = monitor.update_endpoint(0, RawStatus::Down);
    assert_eq!(event, Some(EventKind::DownAlert));
    let event = monitor.update_endpoint(0, RawStatus::Down);
    assert_eq!(event, None);
    let event = monitor.update_endpoint(0, RawStatus::Up);
    assert_eq!(event, Some(EventKind::UpAgainAlert));
}
