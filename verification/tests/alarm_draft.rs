use happy_wakey_cli::alarm_draft::{
    accept_gradual_seconds, accept_volume_bits, build_create_alarm_request, normalize_tags,
    normalize_weekdays, parse_local_time, AlarmDraft, AlarmDraftError, DraftField, LocalTime,
};

fn draft<'a>(
    local_time: &'a str,
    weekdays: &'a [u8],
    tags: &'a [String],
    volume: f32,
    gradual_seconds: u32,
) -> AlarmDraft<'a> {
    AlarmDraft {
        transition_id: "11111111-1111-4111-8111-111111111111",
        label: "Weekday",
        local_time,
        time_zone: "America/Chicago",
        weekdays,
        enabled: true,
        sound: "bell",
        volume_bits: volume.to_bits(),
        gradual_seconds,
        tags,
    }
}

fn accept_volume(volume: f32) -> Result<f32, AlarmDraftError> {
    accept_volume_bits(volume.to_bits()).map(f32::from_bits)
}

#[test]
fn weekdays_are_sorted_unique_and_bounded() {
    assert_eq!(normalize_weekdays(&[5, 1, 1, 3]).unwrap(), vec![1, 3, 5]);
    assert_eq!(normalize_weekdays(&[0]).unwrap(), vec![0]);
    assert_eq!(normalize_weekdays(&[]), Err(AlarmDraftError::WeekdaysInvalid));
    assert_eq!(
        normalize_weekdays(&[1, 2, 3, 4, 5, 6, 0, 2]),
        Ok(vec![0, 1, 2, 3, 4, 5, 6])
    );
    assert_eq!(normalize_weekdays(&[7]), Err(AlarmDraftError::WeekdaysInvalid));
    assert_eq!(
        normalize_weekdays(&[0, 1, 2, 3, 4, 5, 6, 1]),
        Ok(vec![0, 1, 2, 3, 4, 5, 6])
    );
}

#[test]
fn local_time_parser_is_total_and_exhaustive() {
    let parsed = parse_local_time("07:30").unwrap();
    assert_eq!(
        parsed,
        LocalTime {
            hour: 7,
            minute: 30,
            second: None,
            as_text: "07:30",
        }
    );
    assert_eq!(parse_local_time("23:59:59").unwrap().second, Some(59));
    assert_eq!(parse_local_time("24:00"), Err(AlarmDraftError::LocalTimeInvalid));
    assert_eq!(parse_local_time("7:30"), Err(AlarmDraftError::LocalTimeInvalid));
    assert_eq!(parse_local_time("noon"), Err(AlarmDraftError::LocalTimeInvalid));
    assert_eq!(parse_local_time("12:60"), Err(AlarmDraftError::LocalTimeInvalid));
    assert_eq!(parse_local_time("12:30:60"), Err(AlarmDraftError::LocalTimeInvalid));
    assert_eq!(
        parse_local_time("12:30:00:00"),
        Err(AlarmDraftError::LocalTimeInvalid)
    );
}

#[test]
fn volume_and_gradual_seconds_reject_out_of_range() {
    assert_eq!(accept_volume(0.0), Ok(0.0));
    assert_eq!(accept_volume(1.0), Ok(1.0));
    assert_eq!(accept_volume(0.8), Ok(0.8));
    assert_eq!(accept_volume(-0.1), Err(AlarmDraftError::VolumeInvalid));
    assert_eq!(accept_volume(1.01), Err(AlarmDraftError::VolumeInvalid));
    assert_eq!(accept_volume(f32::NAN), Err(AlarmDraftError::VolumeInvalid));
    assert_eq!(accept_gradual_seconds(0), Ok(0));
    assert_eq!(accept_gradual_seconds(1800), Ok(1800));
    assert_eq!(
        accept_gradual_seconds(1801),
        Err(AlarmDraftError::GradualSecondsInvalid)
    );
}

#[test]
fn tags_are_bounded_sorted_and_unique() {
    let tags = ["zeta".to_owned(), "alpha".to_owned(), "alpha".to_owned()];
    assert_eq!(
        normalize_tags(&tags).unwrap(),
        vec!["alpha".to_owned(), "zeta".to_owned()]
    );
    assert_eq!(
        normalize_tags(&["\u{0007}".to_owned()]),
        Err(AlarmDraftError::EmptyOrControl {
            field: DraftField::Tag
        })
    );
    let too_many: Vec<String> = (0..21).map(|index| format!("t{index:02}")).collect();
    assert_eq!(normalize_tags(&too_many), Err(AlarmDraftError::TooManyTags));
}

#[test]
fn build_request_keeps_valid_draft_and_rejects_illegal_states() {
    let weekdays = [5, 1, 3];
    let tags = [String::from("work")];
    let request = build_create_alarm_request(draft("07:30", &weekdays, &tags, 0.8, 30)).unwrap();
    assert_eq!(request.weekdays, vec![1, 3, 5]);
    assert_eq!(request.local_time, "07:30");
    assert_eq!(f32::from_bits(request.volume_bits), 0.8);
    assert_eq!(request.tags, vec!["work"]);

    assert_eq!(
        build_create_alarm_request(draft("25:00", &weekdays, &tags, 0.8, 30)),
        Err(AlarmDraftError::LocalTimeInvalid)
    );
    assert_eq!(
        build_create_alarm_request(draft("07:30", &[9], &tags, 0.8, 30)),
        Err(AlarmDraftError::WeekdaysInvalid)
    );
    assert_eq!(
        build_create_alarm_request(draft("07:30", &weekdays, &tags, 2.0, 30)),
        Err(AlarmDraftError::VolumeInvalid)
    );
}
