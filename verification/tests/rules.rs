use std::collections::HashMap;

use happy_wakey_cli::alarm_draft::{
    accept_volume_bits, build_create_alarm_request, normalize_tags, normalize_weekdays,
    parse_local_time, AlarmDraft, AlarmDraftError, DraftField,
};
use happy_wakey_cli::cli::{
    access_token, accept_chunk, bounded_text, endpoint_url, create_alarm_request, decimal_text, early_action,
    finish_invocation, parse_bool, parse_command, parse_event, parse_number, public_numeric_host,
    required, response_head, transition_path, transition_request, valid_local_time,
    validate_base_url, validate_uuid, verify_outcome, BodyRefusal, CliError, Command,
    EarlyAction, TransitionEvent, VerifyOutcome,
};
use happy_wakey_cli::settings::Settings;
use happy_wakey_cli::text::{compare_text, parse_unsigned, same_text, TextOrder};

const ID: &str = "11111111-1111-4111-8111-111111111111";

fn settings(pairs: &[(&str, &str)]) -> Settings {
    let mut s = Settings::new();
    for (k, v) in pairs {
        s.insert((*k).to_owned(), (*v).to_owned());
    }
    s
}

fn alarm_pairs() -> Vec<(&'static str, &'static str)> {
    vec![
        ("HAPPY_WAKEY_ALARM_LABEL", "Weekday"),
        ("HAPPY_WAKEY_ALARM_LOCAL_TIME", "07:30"),
        ("HAPPY_WAKEY_ALARM_TIME_ZONE", "America/Chicago"),
        ("HAPPY_WAKEY_ALARM_WEEKDAYS", "[5,1,3,1]"),
        ("HAPPY_WAKEY_ALARM_ENABLED", "true"),
        ("HAPPY_WAKEY_ALARM_SOUND", "bell"),
        ("HAPPY_WAKEY_ALARM_VOLUME", "0.8"),
        ("HAPPY_WAKEY_ALARM_GRADUAL_SECONDS", "30"),
        ("HAPPY_WAKEY_ALARM_TAGS", "[\"zeta\",\"alpha\",\"zeta\"]"),
    ]
}

fn with(pairs: &[(&'static str, &'static str)], key: &'static str, value: &'static str) -> Settings {
    let mut s = settings(pairs);
    s.insert(key.to_owned(), value.to_owned());
    s
}

fn volume(v: f32) -> Option<u32> {
    Some(v.to_bits())
}

fn draft<'a>(label: &'a str, time_zone: &'a str, weekdays: &'a [u8], tags: &'a [String]) -> AlarmDraft<'a> {
    AlarmDraft {
        transition_id: ID,
        label,
        local_time: "06:45:10",
        time_zone,
        weekdays,
        enabled: false,
        sound: "chime",
        volume_bits: 0.5f32.to_bits(),
        gradual_seconds: 1800,
        tags,
    }
}

#[test]
fn weekday_normal_form_ignores_order_and_repeats() {
    let a = normalize_weekdays(&[3, 1, 3, 5]).unwrap();
    let b = normalize_weekdays(&[5, 3, 1]).unwrap();
    assert_eq!(a, b);
    assert_eq!(normalize_weekdays(&a).unwrap(), a);
}

#[test]
fn tag_normal_form_ignores_order_and_repeats() {
    let a = normalize_tags(&["b".to_owned(), "a".to_owned(), "b".to_owned()]).unwrap();
    let b = normalize_tags(&["a".to_owned(), "b".to_owned()]).unwrap();
    assert_eq!(a, b);
    assert_eq!(normalize_tags(&a).unwrap(), a);
}

#[test]
fn tags_sort_by_bytes() {
    let tags = ["é".to_owned(), "z".to_owned(), "Z".to_owned(), "a".to_owned()];
    assert_eq!(normalize_tags(&tags).unwrap(), vec!["Z", "a", "z", "é"]);
    assert_eq!(compare_text("é", "z"), TextOrder::Greater);
    assert_eq!(compare_text("ab", "abc"), TextOrder::Less);
    assert!(same_text("abc", "abc"));
    assert!(!same_text("abc", "abd"));
}

#[test]
fn tag_errors_name_the_first_bad_tag() {
    let long = "x".repeat(41);
    assert_eq!(
        normalize_tags(&["ok".to_owned(), long.clone(), "".to_owned()]),
        Err(AlarmDraftError::TooLong { field: DraftField::Tag, max: 40 })
    );
    assert_eq!(
        normalize_tags(&["".to_owned(), long]),
        Err(AlarmDraftError::EmptyOrControl { field: DraftField::Tag })
    );
    let twenty: Vec<String> = (0..20).map(|i| format!("t{i:02}")).collect();
    assert_eq!(normalize_tags(&twenty).unwrap().len(), 20);
    let mut repeated = twenty.clone();
    repeated.push("t00".to_owned());
    assert_eq!(normalize_tags(&repeated).unwrap().len(), 20);
}

#[test]
fn text_rules_agree_on_what_they_accept() {
    for value in ["", "a\u{7}", "plain", "é", "\u{9f}x", "x\u{a0}"] {
        let draft_ok = normalize_tags(&[value.to_owned()]).is_ok();
        let setting_ok = bounded_text(value, 40, "tag").is_ok();
        assert_eq!(draft_ok, setting_ok, "{value:?}");
    }
    assert!(bounded_text("\u{a0}", 40, "tag").is_ok());
    assert!(bounded_text("\u{85}", 40, "tag").is_err());
}

#[test]
fn draft_and_setting_clocks_agree() {
    assert!(parse_local_time("+7:30").is_err());
    assert!(!valid_local_time("+7:30"));
    assert!(!valid_local_time("23:+5:09"));
    assert!(!valid_local_time("-1:30"));
    assert!(!valid_local_time("é:30"));
    assert!(!valid_local_time("07:30:"));
    assert!(!valid_local_time(""));
    for text in ["00:00", "23:59", "12:30:45", "00:00:00"] {
        assert!(parse_local_time(text).is_ok());
        assert!(valid_local_time(text));
    }
    let t = parse_local_time("00:00:00").unwrap();
    assert_eq!((t.hour, t.minute, t.second), (0, 0, Some(0)));
}

#[test]
fn volume_bits_follow_the_unit_interval() {
    assert_eq!(accept_volume_bits((-0.0f32).to_bits()), Ok(0x8000_0000));
    assert_eq!(accept_volume_bits(f32::MIN_POSITIVE.to_bits()), Ok(f32::MIN_POSITIVE.to_bits()));
    assert!(accept_volume_bits(f32::INFINITY.to_bits()).is_err());
    assert!(accept_volume_bits(f32::NEG_INFINITY.to_bits()).is_err());
    assert!(accept_volume_bits((-f32::MIN_POSITIVE).to_bits()).is_err());
    assert!(accept_volume_bits(1.000_000_1f32.to_bits()).is_err());
}

#[test]
fn draft_errors_come_in_field_order() {
    let days = [1u8];
    let tags = ["t".to_owned()];
    let request = build_create_alarm_request(draft("Lbl", "UTC", &days, &tags)).unwrap();
    assert_eq!(request.transition_id, ID);
    assert_eq!(request.local_time, "06:45:10");
    assert!(!request.enabled);
    assert_eq!(request.gradual_seconds, 1800);
    assert_eq!(request.sound, "chime");
    assert_eq!(
        build_create_alarm_request(draft("", "UTC", &[9], &tags)),
        Err(AlarmDraftError::EmptyOrControl { field: DraftField::Label })
    );
    let long = "é".repeat(61);
    assert_eq!(
        build_create_alarm_request(draft(&long, "UTC", &days, &tags)),
        Err(AlarmDraftError::TooLong { field: DraftField::Label, max: 120 })
    );
    assert_eq!(
        build_create_alarm_request(draft("L", "ab", &[9], &tags)),
        Err(AlarmDraftError::TimeZoneTooShort)
    );
    assert_eq!(
        build_create_alarm_request(draft("L", "é", &days, &tags)),
        Err(AlarmDraftError::TimeZoneTooShort)
    );
    assert!(build_create_alarm_request(draft("L", "éa", &days, &tags)).is_ok());
    let long_zone = "z".repeat(65);
    assert_eq!(
        build_create_alarm_request(draft("L", &long_zone, &days, &tags)),
        Err(AlarmDraftError::TooLong { field: DraftField::TimeZone, max: 64 })
    );
    let mut d = draft("L", "UTC", &days, &tags);
    d.sound = "\n";
    assert_eq!(
        build_create_alarm_request(d),
        Err(AlarmDraftError::EmptyOrControl { field: DraftField::Sound })
    );
    let mut d = draft("L", "UTC", &days, &tags);
    d.gradual_seconds = 1801;
    assert_eq!(build_create_alarm_request(d), Err(AlarmDraftError::GradualSecondsInvalid));
    let many: Vec<String> = (0..21).map(|i| format!("t{i}")).collect();
    assert_eq!(
        build_create_alarm_request(draft("L", "UTC", &days, &many)),
        Err(AlarmDraftError::TooManyTags)
    );
}

#[test]
fn draft_error_messages() {
    assert_eq!(
        AlarmDraftError::TooLong { field: DraftField::TimeZone, max: 64 }.message(),
        "time zone is empty, too long, or contains controls"
    );
    assert_eq!(
        AlarmDraftError::EmptyOrControl { field: DraftField::Label }.message(),
        "label is empty, too long, or contains controls"
    );
    assert_eq!(
        AlarmDraftError::GradualSecondsInvalid.message(),
        "gradual seconds must not exceed 1800"
    );
    assert_eq!(AlarmDraftError::TooManyTags.message(), "at most 20 unique tags are allowed");
    assert_eq!(DraftField::Sound.as_str(), "sound");
}

#[test]
fn alarm_settings_build_a_normalized_request() {
    let values = settings(&alarm_pairs());
    let request = create_alarm_request(&values, ID, volume(0.8)).unwrap();
    assert_eq!(request.transition_id, ID);
    assert_eq!(request.label, "Weekday");
    assert_eq!(request.weekdays, vec![1, 3, 5]);
    assert_eq!(request.tags, vec!["alpha", "zeta"]);
    assert!(request.enabled);
    assert_eq!(f32::from_bits(request.volume_bits), 0.8);
    assert_eq!(request.gradual_seconds, 30);
}

#[test]
fn alarm_settings_errors() {
    let pairs = alarm_pairs();
    assert_eq!(
        create_alarm_request(&settings(&pairs), "not-a-uuid", volume(0.8)),
        Err(CliError::InvalidUuid { label: "transition ID".to_owned() })
    );
    let explicit = with(&pairs, "HAPPY_WAKEY_TRANSITION_ID", ID);
    assert!(create_alarm_request(&explicit, "not-a-uuid", volume(0.8)).is_ok());
    let no_label: Vec<_> = pairs.iter().copied().filter(|(k, _)| *k != "HAPPY_WAKEY_ALARM_LABEL").collect();
    assert_eq!(
        create_alarm_request(&settings(&no_label), ID, volume(0.8)),
        Err(CliError::MissingSetting { key: "HAPPY_WAKEY_ALARM_LABEL".to_owned() })
    );
    assert_eq!(
        create_alarm_request(&with(&pairs, "HAPPY_WAKEY_ALARM_LABEL", ""), ID, volume(0.8)),
        Err(CliError::MissingSetting { key: "HAPPY_WAKEY_ALARM_LABEL".to_owned() })
    );
    assert_eq!(
        create_alarm_request(&with(&pairs, "HAPPY_WAKEY_ALARM_LOCAL_TIME", "24:00"), ID, volume(0.8)),
        Err(CliError::LocalTimeInvalid)
    );
    assert_eq!(
        create_alarm_request(&with(&pairs, "HAPPY_WAKEY_ALARM_LOCAL_TIME", "+7:30"), ID, volume(0.8)),
        Err(CliError::LocalTimeInvalid)
    );
    assert_eq!(
        create_alarm_request(&with(&pairs, "HAPPY_WAKEY_ALARM_TIME_ZONE", "ab"), ID, volume(0.8)),
        Err(CliError::TimeZoneTooShort)
    );
    assert_eq!(
        create_alarm_request(&with(&pairs, "HAPPY_WAKEY_ALARM_WEEKDAYS", "1,2"), ID, volume(0.8)),
        Err(CliError::NotJsonArray { key: "HAPPY_WAKEY_ALARM_WEEKDAYS".to_owned() })
    );
    assert_eq!(
        create_alarm_request(&with(&pairs, "HAPPY_WAKEY_ALARM_WEEKDAYS", "[300]"), ID, volume(0.8)),
        Err(CliError::NotJsonArray { key: "HAPPY_WAKEY_ALARM_WEEKDAYS".to_owned() })
    );
    assert_eq!(
        create_alarm_request(&with(&pairs, "HAPPY_WAKEY_ALARM_WEEKDAYS", "[]"), ID, volume(0.8)),
        Err(CliError::WeekdaysInvalid)
    );
    assert_eq!(
        create_alarm_request(&with(&pairs, "HAPPY_WAKEY_ALARM_ENABLED", "yes"), ID, volume(0.8)),
        Err(CliError::NotBoolean { key: "HAPPY_WAKEY_ALARM_ENABLED".to_owned() })
    );
    assert_eq!(
        create_alarm_request(&with(&pairs, "HAPPY_WAKEY_ALARM_SOUND", "\t"), ID, volume(0.8)),
        Err(CliError::InvalidText { label: "sound".to_owned() })
    );
    assert_eq!(
        create_alarm_request(&settings(&pairs), ID, None),
        Err(CliError::InvalidNumber { key: "HAPPY_WAKEY_ALARM_VOLUME".to_owned() })
    );
    assert_eq!(
        create_alarm_request(&settings(&pairs), ID, volume(1.5)),
        Err(CliError::VolumeInvalid)
    );
    assert_eq!(
        create_alarm_request(&with(&pairs, "HAPPY_WAKEY_ALARM_GRADUAL_SECONDS", "4294967296"), ID, volume(0.8)),
        Err(CliError::InvalidNumber { key: "HAPPY_WAKEY_ALARM_GRADUAL_SECONDS".to_owned() })
    );
    assert_eq!(
        create_alarm_request(&with(&pairs, "HAPPY_WAKEY_ALARM_GRADUAL_SECONDS", "1801"), ID, volume(0.8)),
        Err(CliError::GradualSecondsInvalid)
    );
    assert_eq!(
        create_alarm_request(&with(&pairs, "HAPPY_WAKEY_ALARM_TAGS", "[\"\"]"), ID, volume(0.8)),
        Err(CliError::InvalidText { label: "tag".to_owned() })
    );
    assert_eq!(
        create_alarm_request(&with(&pairs, "HAPPY_WAKEY_ALARM_TAGS", "{}"), ID, volume(0.8)),
        Err(CliError::NotJsonArray { key: "HAPPY_WAKEY_ALARM_TAGS".to_owned() })
    );
    let many = format!("[{}]", (0..21).map(|i| format!("\"t{i}\"")).collect::<Vec<_>>().join(","));
    let mut s = settings(&pairs);
    s.insert("HAPPY_WAKEY_ALARM_TAGS".to_owned(), many);
    assert_eq!(create_alarm_request(&s, ID, volume(0.8)), Err(CliError::TooManyTags));
}

#[test]
fn transition_settings() {
    let occurrence = "22222222-2222-4222-8222-222222222222";
    let base = [
        ("HAPPY_WAKEY_OCCURRENCE_ID", occurrence),
        ("HAPPY_WAKEY_EXPECTED_GENERATION", "+4"),
        ("HAPPY_WAKEY_TRANSITION_EVENT", "mark_missed"),
        ("HAPPY_WAKEY_CLIENT_TIME", "2026-08-25T12:00:00Z"),
    ];
    let values = settings(&base);
    let (id, request) = transition_request(&values, ID, "now").unwrap();
    assert_eq!(id, occurrence);
    assert_eq!(request.transition_id, ID);
    assert_eq!(request.expected_generation, 4);
    assert_eq!(request.event, TransitionEvent::MarkMissed);
    assert_eq!(request.snooze_until, None);
    assert_eq!(request.client_time, "2026-08-25T12:00:00Z");
    let no_time = settings(&base[..3]);
    assert_eq!(transition_request(&no_time, ID, "now").unwrap().1.client_time, "now");
    assert_eq!(
        transition_request(&settings(&base[1..]), ID, "now"),
        Err(CliError::MissingSetting { key: "HAPPY_WAKEY_OCCURRENCE_ID".to_owned() })
    );
    let mut bad = settings(&base);
    bad.insert("HAPPY_WAKEY_OCCURRENCE_ID".to_owned(), "x".to_owned());
    assert_eq!(
        transition_request(&bad, ID, "now"),
        Err(CliError::InvalidUuid { label: "occurrence ID".to_owned() })
    );
    assert_eq!(
        transition_request(&values, "x", "now"),
        Err(CliError::InvalidUuid { label: "transition ID".to_owned() })
    );
    let mut bad = settings(&base);
    bad.insert("HAPPY_WAKEY_EXPECTED_GENERATION".to_owned(), "-1".to_owned());
    assert_eq!(
        transition_request(&bad, ID, "now"),
        Err(CliError::InvalidNumber { key: "HAPPY_WAKEY_EXPECTED_GENERATION".to_owned() })
    );
    let mut bad = settings(&base);
    bad.insert("HAPPY_WAKEY_TRANSITION_EVENT".to_owned(), "dismiss".to_owned());
    assert_eq!(transition_request(&bad, ID, "now"), Err(CliError::UnknownEvent));
    let mut snooze = settings(&base);
    snooze.insert("HAPPY_WAKEY_TRANSITION_EVENT".to_owned(), "snooze".to_owned());
    assert_eq!(transition_request(&snooze, ID, "now"), Err(CliError::SnoozeNeedsDeadline));
    snooze.insert("HAPPY_WAKEY_SNOOZE_UNTIL".to_owned(), "".to_owned());
    let accepted = transition_request(&snooze, ID, "now").unwrap().1;
    assert_eq!(accepted.snooze_until, Some(String::new()));
    let mut late = settings(&base);
    late.insert("HAPPY_WAKEY_SNOOZE_UNTIL".to_owned(), "t".to_owned());
    assert_eq!(transition_request(&late, ID, "now"), Err(CliError::DeadlineOnlyForSnooze));
}

#[test]
fn events_and_commands_by_name() {
    assert_eq!(parse_event("fire"), Some(TransitionEvent::Fire));
    assert_eq!(parse_event("acknowledge"), Some(TransitionEvent::Acknowledge));
    assert_eq!(parse_event("cancel"), Some(TransitionEvent::Cancel));
    assert_eq!(parse_event("Fire"), None);
    assert_eq!(parse_command("alarms create"), Ok(Command::AlarmsCreate));
    assert_eq!(parse_command("occurrences transition"), Ok(Command::OccurrencesTransition));
    assert_eq!(parse_command("alarms"), Err(CliError::UnknownCommand));
}

#[test]
fn uuids_and_paths() {
    assert!(validate_uuid(ID, "transition ID").is_ok());
    assert_eq!(
        validate_uuid("11111111", "occurrence ID"),
        Err(CliError::InvalidUuid { label: "occurrence ID".to_owned() })
    );
    assert_eq!(
        transition_path(ID).unwrap(),
        format!("v1/occurrences/{ID}/transitions")
    );
    assert!(transition_path("../x").is_err());
}

#[test]
fn uuid_text_forms() {
    let accepted = [
        "67e5504410b1426f9247bb680e5fe0c8",
        "67e55044-10b1-426f-9247-bb680e5fe0c8",
        "F9168C5E-CEB2-4faa-B6BF-329BF39FA1E4",
        "{6d93bade-bd9f-4e13-8914-9474e1e3567b}",
        "urn:uuid:67e55044-10b1-426f-9247-bb680e5fe0c8",
        "URN:Uuid:67e55044-10b1-426f-9247-bb680e5fe0c8",
    ];
    for text in accepted {
        assert!(validate_uuid(text, "ID").is_ok(), "{text}");
    }
    let refused = [
        "",
        "{}",
        "67e55044-10b1-426f-9247-bb680e5fe0c",
        "67e55044-10b1-426f-9247-bb680e5fe0c8a",
        "67e5504410b1426f9247bb680e5fe0cg",
        "67e55044_10b1-426f-9247-bb680e5fe0c8",
        "(6d93bade-bd9f-4e13-8914-9474e1e3567b)",
        "urn:uid:-67e55044-10b1-426f-9247-bb680e5fe0c8",
        "67e55044-10b1-426f-9247-bb680e5fe0\u{e9}",
    ];
    for text in refused {
        assert_eq!(
            validate_uuid(text, "ID"),
            Err(CliError::InvalidUuid { label: "ID".to_owned() }),
            "{text}"
        );
    }
}

#[test]
fn base_url_boundaries() {
    assert!(validate_base_url("https://127.0.0.1", "API").is_ok());
    assert!(validate_base_url("https://[::1]/", "API").is_ok());
    assert!(validate_base_url("https://localhost", "API").is_ok());
    assert_eq!(
        validate_base_url("https://api.example.test?x=1", "API").unwrap_err(),
        CliError::BaseUrlNotAuthority { label: "API".to_owned() }
    );
    assert!(validate_base_url("https://api.example.test/#f", "API").is_err());
    assert!(validate_base_url("https://u:p@api.example.test", "API").is_err());
    assert_eq!(
        validate_base_url("not a url", "Shared Auth").unwrap_err(),
        CliError::InvalidBaseUrl { label: "Shared Auth".to_owned() }
    );
    assert_eq!(
        validate_base_url("https://10.0.0.1", "API").unwrap_err(),
        CliError::BaseUrlPublicIp { label: "API".to_owned() }
    );
    let url = validate_base_url("https://api.example.test", "API").unwrap();
    assert_eq!(url, "https://api.example.test/");
    assert_eq!(
        validate_base_url("HTTPS://API.Example.Test:443", "API").unwrap(),
        "https://api.example.test/"
    );
    assert_eq!(
        endpoint_url(&url, "v1/alarms").as_deref(),
        Some("https://api.example.test/v1/alarms")
    );
    assert_eq!(
        endpoint_url(&url, &transition_path(ID).unwrap()).unwrap(),
        format!("https://api.example.test/v1/occurrences/{ID}/transitions")
    );
    assert_eq!(endpoint_url("not a url", "v1/alarms"), None);
}

#[test]
fn numeric_hosts() {
    assert!(!public_numeric_host(None, true));
    assert!(!public_numeric_host(Some("[::1]"), true));
    assert!(!public_numeric_host(Some("127.0.0.1"), true));
    assert!(public_numeric_host(Some("98.90.186.114"), true));
    assert!(public_numeric_host(Some("[2001:db8::1]"), true));
    assert!(!public_numeric_host(Some("example.test"), false));
}

#[test]
fn access_tokens() {
    assert_eq!(access_token(None), Err(CliError::MissingToken));
    assert_eq!(access_token(Some(String::new())), Err(CliError::MalformedToken));
    assert_eq!(access_token(Some("a b".to_owned())), Err(CliError::MalformedToken));
    assert_eq!(access_token(Some("a\u{7f}".to_owned())), Err(CliError::MalformedToken));
    assert_eq!(access_token(Some("tök".to_owned())), Ok("tök".to_owned()));
    let max = "t".repeat(16 * 1024);
    assert_eq!(access_token(Some(max.clone())), Ok(max));
    assert_eq!(access_token(Some("t".repeat(16 * 1024 + 1))), Err(CliError::MalformedToken));
    assert_eq!(CliError::MissingToken.message(), "HAPPY_WAKEY_ACCESS_TOKEN is required");
}

#[test]
fn rejected_flags_name_only_counts() {
    let mut flags = Settings::new();
    flags.insert("HAPPY_WAKEY_ACCESS_TOKEN".to_owned(), "do-not-print-this".to_owned());
    let error = finish_invocation("verify".to_owned(), flags, 1, 0).unwrap_err();
    let message = error.message();
    assert!(message.contains("1 unknown option"));
    assert!(!message.contains("do-not-print-this"));
    assert_eq!(message, "flags2env rejected 1 unknown option(s) and 0 invalid value(s)");
    let mut flags = Settings::new();
    flags.insert("HAPPY_WAKEY_PRETTY".to_owned(), "true".to_owned());
    let inv = finish_invocation("alarms list".to_owned(), flags, 0, 0).unwrap();
    assert!(inv.pretty);
    assert_eq!(inv.command, "alarms list");
    assert!(!finish_invocation("verify".to_owned(), Settings::new(), 0, 0).unwrap().pretty);
}

#[test]
fn settings_lookups() {
    let mut s = settings(&[("K", "1"), ("E", "")]);
    assert_eq!(s.get("K"), Some("1"));
    s.insert("K".to_owned(), "2".to_owned());
    assert_eq!(s.get("K"), Some("2"));
    assert_eq!(s.get("k"), None);
    assert_eq!(required(&s, "E"), Err(CliError::MissingSetting { key: "E".to_owned() }));
    assert_eq!(parse_bool(&settings(&[("B", "false")]), "B"), Ok(false));
    assert_eq!(parse_number(&settings(&[("N", "+5")]), "N", u64::MAX), Ok(5));
    assert_eq!(
        parse_number(&settings(&[("N", "+")]), "N", u64::MAX),
        Err(CliError::InvalidNumber { key: "N".to_owned() })
    );
    assert_eq!(parse_number(&settings(&[("N", "18446744073709551615")]), "N", u64::MAX), Ok(u64::MAX));
    assert!(parse_number(&settings(&[("N", "18446744073709551616")]), "N", u64::MAX).is_err());
    assert_eq!(parse_unsigned("007", 255), Some(7));
    assert_eq!(parse_unsigned("256", 255), None);
    assert_eq!(parse_unsigned("1a", 255), None);
}

#[test]
fn early_actions() {
    let args = |v: &[&str]| v.iter().map(|s| s.to_string()).collect::<Vec<_>>();
    assert_eq!(early_action(&args(&["happy-wakey"])), EarlyAction::ShowUsage);
    assert_eq!(early_action(&args(&["happy-wakey", "verify", "-h"])), EarlyAction::ShowUsage);
    assert_eq!(early_action(&args(&["happy-wakey", "-V", "--help"])), EarlyAction::ShowUsage);
    assert_eq!(early_action(&args(&["happy-wakey", "--version"])), EarlyAction::ShowVersion);
    assert_eq!(early_action(&args(&["happy-wakey", "verify"])), EarlyAction::Run);
}

#[test]
fn response_decisions() {
    assert_eq!(verify_outcome(200), VerifyOutcome::Valid);
    assert_eq!(verify_outcome(401), VerifyOutcome::Invalid);
    assert_eq!(verify_outcome(500), VerifyOutcome::UnexpectedStatus);
    assert_eq!(response_head(false, None, 10), Err(BodyRefusal::Status));
    assert_eq!(response_head(true, Some(11), 10), Err(BodyRefusal::TooLarge));
    assert_eq!(response_head(true, Some(10), 10), Ok(()));
    assert_eq!(accept_chunk(4, 6, 10), Some(10));
    assert_eq!(accept_chunk(4, 7, 10), None);
    assert_eq!(accept_chunk(usize::MAX, 1, usize::MAX), None);
    let mut kept = 0;
    for chunk in [3usize, 3, 3, 3] {
        match accept_chunk(kept, chunk, 10) {
            Some(total) => kept = total,
            None => break,
        }
    }
    assert_eq!(kept, 9);
}

#[test]
fn decimal_texts() {
    assert_eq!(decimal_text(0), "0");
    assert_eq!(decimal_text(1907), "1907");
    assert_eq!(decimal_text(usize::MAX), usize::MAX.to_string());
}

#[test]
fn settings_from_map() {
    let map = HashMap::from([("A".to_owned(), "x".to_owned())]);
    let mut s = Settings::new();
    for (k, v) in &map {
        s.insert(k.clone(), v.clone());
    }
    assert_eq!(s.get("A"), Some("x"));
}
