use std::collections::HashMap;

use happy_wakey_cli::cli::{transition_request, valid_local_time, validate_base_url};
use happy_wakey_cli::settings::Settings;

fn settings(values: &HashMap<String, String>) -> Settings {
    let mut s = Settings::new();
    for (k, v) in values {
        s.insert(k.clone(), v.clone());
    }
    s
}

#[test]
fn url_and_token_boundaries_are_strict() {
    assert!(validate_base_url("http://api.example.test", "API").is_err());
    assert!(validate_base_url("https://user@api.example.test", "API").is_err());
    assert!(validate_base_url("https://api.example.test/path", "API").is_err());
    assert!(validate_base_url("https://api.example.test", "API").is_ok());
    assert!(validate_base_url("https://98.90.186.114", "API").is_err());
    assert!(validate_base_url("https://[2001:db8::1]/", "API").is_err());
}

#[test]
fn local_time_parser_is_total_and_bounded() {
    assert!(valid_local_time("07:30"));
    assert!(valid_local_time("23:59:59"));
    assert!(!valid_local_time("24:00"));
    assert!(!valid_local_time("7:30"));
    assert!(!valid_local_time("noon"));
}

#[test]
fn snooze_is_the_only_transition_with_a_deadline() {
    let now = chrono::Utc::now().to_rfc3339();
    let fresh = uuid::Uuid::new_v4().to_string();
    let mut values = HashMap::from([
        (
            "HAPPY_WAKEY_OCCURRENCE_ID".to_owned(),
            uuid::Uuid::new_v4().to_string(),
        ),
        ("HAPPY_WAKEY_EXPECTED_GENERATION".into(), "4".into()),
        ("HAPPY_WAKEY_TRANSITION_EVENT".into(), "snooze".into()),
    ]);
    assert!(transition_request(&settings(&values), &fresh, &now).is_err());
    values.insert(
        "HAPPY_WAKEY_SNOOZE_UNTIL".into(),
        "2026-08-25T12:15:00Z".into(),
    );
    assert!(transition_request(&settings(&values), &fresh, &now).is_ok());
    values.insert("HAPPY_WAKEY_TRANSITION_EVENT".into(), "complete".into());
    assert!(transition_request(&settings(&values), &fresh, &now).is_err());
}
