//! The decisions of the command-line client: which settings a command needs,
//! how they are checked, and what request or error results.
use vstd::prelude::*;
use crate::settings::Settings;
use crate::alarm_draft::{
    normalize_tags, normalize_weekdays, strictly_increasing, strictly_sorted_texts, text_check,
    texts, first_tag_error, volume_in_range, weekdays_acceptable, CreateAlarmRequest,
    AlarmRequestView, AlarmDraftError, clock_fields, parse_local_time, DraftField,
    VOLUME_ONE_BITS, VOLUME_NEGATIVE_ZERO_BITS,
};
use crate::outside::{
    parse_url, url_components, join_url, url_joined, HostKind, UrlParts, UrlPartsView,
    json_byte_array, json_string_array, parse_json_byte_array, parse_json_string_array,
    uuid_parses, uuid_text_accepted,
};
use crate::text::{
    byte_len, has_control, has_control_char, same_text, unsigned_from_str, parse_unsigned,
    utf8_len,
};

verus! {

/// Why a command was refused.
#[derive(Debug, Clone, PartialEq, Eq)]
pub enum CliError {
    MissingSetting { key: String },
    InvalidUuid { label: String },
    InvalidText { label: String },
    LocalTimeInvalid,
    TimeZoneTooShort,
    NotJsonArray { key: String },
    WeekdaysInvalid,
    NotBoolean { key: String },
    InvalidNumber { key: String },
    VolumeInvalid,
    GradualSecondsInvalid,
    TooManyTags,
    UnknownEvent,
    SnoozeNeedsDeadline,
    DeadlineOnlyForSnooze,
    InvalidBaseUrl { label: String },
    BaseUrlNotAuthority { label: String },
    BaseUrlPublicIp { label: String },
    MissingToken,
    MalformedToken,
    CredentialRejected,
    FlagsRejected { unknown_options: usize, invalid_values: usize },
    UnknownCommand,
}

/// What a [`CliError`] holds, as mathematical values.
pub enum CliErrorView {
    MissingSetting { key: Seq<char> },
    InvalidUuid { label: Seq<char> },
    InvalidText { label: Seq<char> },
    LocalTimeInvalid,
    TimeZoneTooShort,
    NotJsonArray { key: Seq<char> },
    WeekdaysInvalid,
    NotBoolean { key: Seq<char> },
    InvalidNumber { key: Seq<char> },
    VolumeInvalid,
    GradualSecondsInvalid,
    TooManyTags,
    UnknownEvent,
    SnoozeNeedsDeadline,
    DeadlineOnlyForSnooze,
    InvalidBaseUrl { label: Seq<char> },
    BaseUrlNotAuthority { label: Seq<char> },
    BaseUrlPublicIp { label: Seq<char> },
    MissingToken,
    MalformedToken,
    CredentialRejected,
    FlagsRejected { unknown_options: usize, invalid_values: usize },
    UnknownCommand,
}

impl View for CliError {
    type V = CliErrorView;

    open spec fn view(&self) -> CliErrorView {
        match self {
            CliError::MissingSetting { key } => CliErrorView::MissingSetting { key: key@ },
            CliError::InvalidUuid { label } => CliErrorView::InvalidUuid { label: label@ },
            CliError::InvalidText { label } => CliErrorView::InvalidText { label: label@ },
            CliError::LocalTimeInvalid => CliErrorView::LocalTimeInvalid,
            CliError::TimeZoneTooShort => CliErrorView::TimeZoneTooShort,
            CliError::NotJsonArray { key } => CliErrorView::NotJsonArray { key: key@ },
            CliError::WeekdaysInvalid => CliErrorView::WeekdaysInvalid,
            CliError::NotBoolean { key } => CliErrorView::NotBoolean { key: key@ },
            CliError::InvalidNumber { key } => CliErrorView::InvalidNumber { key: key@ },
            CliError::VolumeInvalid => CliErrorView::VolumeInvalid,
            CliError::GradualSecondsInvalid => CliErrorView::GradualSecondsInvalid,
            CliError::TooManyTags => CliErrorView::TooManyTags,
            CliError::UnknownEvent => CliErrorView::UnknownEvent,
            CliError::SnoozeNeedsDeadline => CliErrorView::SnoozeNeedsDeadline,
            CliError::DeadlineOnlyForSnooze => CliErrorView::DeadlineOnlyForSnooze,
            CliError::InvalidBaseUrl { label } => CliErrorView::InvalidBaseUrl { label: label@ },
            CliError::BaseUrlNotAuthority { label } => CliErrorView::BaseUrlNotAuthority {
                label: label@,
            },
            CliError::BaseUrlPublicIp { label } => CliErrorView::BaseUrlPublicIp { label: label@ },
            CliError::MissingToken => CliErrorView::MissingToken,
            CliError::MalformedToken => CliErrorView::MalformedToken,
            CliError::CredentialRejected => CliErrorView::CredentialRejected,
            CliError::FlagsRejected { unknown_options, invalid_values } =>
                CliErrorView::FlagsRejected {
                unknown_options: *unknown_options,
                invalid_values: *invalid_values,
            },
            CliError::UnknownCommand => CliErrorView::UnknownCommand,
        }
    }
}

/// The decimal digits of `n`, most significant first, without leading zeros.
pub open spec fn decimal_digits(n: nat) -> Seq<char>
    decreases n,
{
    if n < 10 {
        seq![digit_char(n)]
    } else {
        decimal_digits(n / 10).push(digit_char(n % 10))
    }
}

pub open spec fn digit_char(d: nat) -> char {
    if d == 0 {
        '0'
    } else if d == 1 {
        '1'
    } else if d == 2 {
        '2'
    } else if d == 3 {
        '3'
    } else if d == 4 {
        '4'
    } else if d == 5 {
        '5'
    } else if d == 6 {
        '6'
    } else if d == 7 {
        '7'
    } else if d == 8 {
        '8'
    } else {
        '9'
    }
}

fn digit_text(d: usize) -> (r: &'static str)
    requires
        d < 10,
    ensures
        r@ == seq![digit_char(d as nat)],
{
    proof {
        reveal_strlit("0");
        reveal_strlit("1");
        reveal_strlit("2");
        reveal_strlit("3");
        reveal_strlit("4");
        reveal_strlit("5");
        reveal_strlit("6");
        reveal_strlit("7");
        reveal_strlit("8");
        reveal_strlit("9");
    }
    if d == 0 {
        "0"
    } else if d == 1 {
        "1"
    } else if d == 2 {
        "2"
    } else if d == 3 {
        "3"
    } else if d == 4 {
        "4"
    } else if d == 5 {
        "5"
    } else if d == 6 {
        "6"
    } else if d == 7 {
        "7"
    } else if d == 8 {
        "8"
    } else {
        "9"
    }
}

/// `n` written in decimal, as `Display` writes it.
pub fn decimal_text(n: usize) -> (r: String)
    ensures
        r@ == decimal_digits(n as nat),
    decreases n,
{
    if n < 10 {
        String::from_str(digit_text(n))
    } else {
        let mut s = decimal_text(n / 10);
        s.append(digit_text(n % 10));
        s
    }
}

impl CliErrorView {
    pub open spec fn message_text(self) -> Seq<char> {
        match self {
            CliErrorView::MissingSetting { key } => "required setting "@ + key + " is missing"@,
            CliErrorView::InvalidUuid { label } => label + " must be an RFC 4122 UUID"@,
            CliErrorView::InvalidText { label } => label
                + " is empty, too long, or contains controls"@,
            CliErrorView::LocalTimeInvalid => "local time must be HH:MM or HH:MM:SS"@,
            CliErrorView::TimeZoneTooShort => "time zone must contain at least three characters"@,
            CliErrorView::NotJsonArray { key } => key + " must be a JSON array"@,
            CliErrorView::WeekdaysInvalid => "weekdays must contain one to seven unique values from 0 through 6"@,
            CliErrorView::NotBoolean { key } => key + " must be a boolean"@,
            CliErrorView::InvalidNumber { key } => key + " has an invalid numeric value"@,
            CliErrorView::VolumeInvalid => "volume must be between 0 and 1"@,
            CliErrorView::GradualSecondsInvalid => "gradual seconds must not exceed 1800"@,
            CliErrorView::TooManyTags => "at most 20 unique tags are allowed"@,
            CliErrorView::UnknownEvent => "event must be fire, acknowledge, snooze, complete, mark_missed, or cancel"@,
            CliErrorView::SnoozeNeedsDeadline => "snooze requires --snooze-until"@,
            CliErrorView::DeadlineOnlyForSnooze => "--snooze-until is valid only for the snooze event"@,
            CliErrorView::InvalidBaseUrl { label } => label + " base URL is invalid"@,
            CliErrorView::BaseUrlNotAuthority { label } => label
                + " base URL must be a credential-free HTTPS authority"@,
            CliErrorView::BaseUrlPublicIp { label } => label
                + " base URL must use a DNS name, not a public IP"@,
            CliErrorView::MissingToken => "HAPPY_WAKEY_ACCESS_TOKEN is required"@,
            CliErrorView::MalformedToken => "HAPPY_WAKEY_ACCESS_TOKEN is malformed"@,
            CliErrorView::CredentialRejected => "credential is not valid for the configured Shared Auth realm"@,
            CliErrorView::FlagsRejected { unknown_options, invalid_values } => "flags2env rejected "@
                + decimal_digits(unknown_options as nat) + " unknown option(s) and "@
                + decimal_digits(invalid_values as nat) + " invalid value(s)"@,
            CliErrorView::UnknownCommand => "unknown or incomplete command; run happy-wakey --help"@,
        }
    }
}

fn text_then(first: &str, rest: &str) -> (r: String)
    ensures
        r@ == first@ + rest@,
{
    let mut s = String::from_str(first);
    s.append(rest);
    s
}

impl CliError {
    /// The human-readable description of the error.
    pub fn message(&self) -> (r: String)
        ensures
            r@ == self@.message_text(),
    {
        match self {
            CliError::MissingSetting { key } => {
                let mut s = text_then("required setting ", key.as_str());
                s.append(" is missing");
                s
            },
            CliError::InvalidUuid { label } => text_then(label.as_str(), " must be an RFC 4122 UUID"),
            CliError::InvalidText { label } => text_then(
                label.as_str(),
                " is empty, too long, or contains controls",
            ),
            CliError::LocalTimeInvalid => String::from_str("local time must be HH:MM or HH:MM:SS"),
            CliError::TimeZoneTooShort => String::from_str(
                "time zone must contain at least three characters",
            ),
            CliError::NotJsonArray { key } => text_then(key.as_str(), " must be a JSON array"),
            CliError::WeekdaysInvalid => String::from_str(
                "weekdays must contain one to seven unique values from 0 through 6",
            ),
            CliError::NotBoolean { key } => text_then(key.as_str(), " must be a boolean"),
            CliError::InvalidNumber { key } => text_then(
                key.as_str(),
                " has an invalid numeric value",
            ),
            CliError::VolumeInvalid => String::from_str("volume must be between 0 and 1"),
            CliError::GradualSecondsInvalid => String::from_str(
                "gradual seconds must not exceed 1800",
            ),
            CliError::TooManyTags => String::from_str("at most 20 unique tags are allowed"),
            CliError::UnknownEvent => String::from_str(
                "event must be fire, acknowledge, snooze, complete, mark_missed, or cancel",
            ),
            CliError::SnoozeNeedsDeadline => String::from_str("snooze requires --snooze-until"),
            CliError::DeadlineOnlyForSnooze => String::from_str(
                "--snooze-until is valid only for the snooze event",
            ),
            CliError::InvalidBaseUrl { label } => text_then(label.as_str(), " base URL is invalid"),
            CliError::BaseUrlNotAuthority { label } => text_then(
                label.as_str(),
                " base URL must be a credential-free HTTPS authority",
            ),
            CliError::BaseUrlPublicIp { label } => text_then(
                label.as_str(),
                " base URL must use a DNS name, not a public IP",
            ),
            CliError::MissingToken => String::from_str("HAPPY_WAKEY_ACCESS_TOKEN is required"),
            CliError::MalformedToken => String::from_str("HAPPY_WAKEY_ACCESS_TOKEN is malformed"),
            CliError::CredentialRejected => String::from_str(
                "credential is not valid for the configured Shared Auth realm",
            ),
            CliError::FlagsRejected { unknown_options, invalid_values } => {
                let mut s = String::from_str("flags2env rejected ");
                let u = decimal_text(*unknown_options);
                s.append(u.as_str());
                s.append(" unknown option(s) and ");
                let v = decimal_text(*invalid_values);
                s.append(v.as_str());
                s.append(" invalid value(s)");
                s
            },
            CliError::UnknownCommand => String::from_str(
                "unknown or incomplete command; run happy-wakey --help",
            ),
        }
    }
}

/// A result with its error taken by its view.
pub open spec fn error_view<T>(r: Result<T, CliError>) -> Result<T, CliErrorView> {
    match r {
        Ok(t) => Ok(t),
        Err(e) => Err(e@),
    }
}

/// The value of a setting that is present and non-empty.
pub open spec fn setting(m: Map<Seq<char>, Seq<char>>, key: Seq<char>) -> Option<Seq<char>> {
    if m.contains_key(key) && m[key].len() > 0 {
        Some(m[key])
    } else {
        None
    }
}

/// The value of a required setting: present and non-empty.
pub fn required<'a>(values: &'a Settings, key: &str) -> (r: Result<&'a str, CliError>)
    ensures
        match r {
            Ok(v) => setting(values@, key@) == Some(v@),
            Err(e) => setting(values@, key@) is None && e@ == (CliErrorView::MissingSetting {
                key: key@,
            }),
        },
{
    match values.get(key) {
        Some(v) => {
            if v.is_empty() {
                Err(CliError::MissingSetting { key: key.to_owned() })
            } else {
                Ok(v)
            }
        },
        None => Err(CliError::MissingSetting { key: key.to_owned() }),
    }
}

pub open spec fn bool_outcome(m: Map<Seq<char>, Seq<char>>, key: Seq<char>) -> Result<
    bool,
    CliErrorView,
> {
    match setting(m, key) {
        None => Err(CliErrorView::MissingSetting { key }),
        Some(v) => if v == "true"@ {
            Ok(true)
        } else if v == "false"@ {
            Ok(false)
        } else {
            Err(CliErrorView::NotBoolean { key })
        },
    }
}

/// A required setting that reads `true` or `false`.
pub fn parse_bool(values: &Settings, key: &str) -> (r: Result<bool, CliError>)
    ensures
        error_view(r) == bool_outcome(values@, key@),
{
    let v = required(values, key)?;
    if same_text(v, "true") {
        Ok(true)
    } else if same_text(v, "false") {
        Ok(false)
    } else {
        Err(CliError::NotBoolean { key: key.to_owned() })
    }
}

pub open spec fn number_outcome(m: Map<Seq<char>, Seq<char>>, key: Seq<char>, max: nat) -> Result<
    nat,
    CliErrorView,
> {
    match setting(m, key) {
        None => Err(CliErrorView::MissingSetting { key }),
        Some(v) => match unsigned_from_str(v, max) {
            Some(n) => Ok(n),
            None => Err(CliErrorView::InvalidNumber { key }),
        },
    }
}

/// A required setting read as an unsigned number of a type whose largest
/// value is `max` (`u32::MAX` for `u32`, `u64::MAX` for `u64`), as `FromStr`
/// reads it.
pub fn parse_number(values: &Settings, key: &str, max: u64) -> (r: Result<u64, CliError>)
    ensures
        match r {
            Ok(n) => number_outcome(values@, key@, max as nat) == Ok::<nat, CliErrorView>(
                n as nat,
            ),
            Err(e) => number_outcome(values@, key@, max as nat) == Err::<nat, CliErrorView>(e@),
        },
{
    let v = required(values, key)?;
    match parse_unsigned(v, max) {
        Some(n) => Ok(n),
        None => Err(CliError::InvalidNumber { key: key.to_owned() }),
    }
}

/// A text setting is non-empty, at most `max` bytes long and free of control
/// characters.
pub open spec fn text_acceptable(value: Seq<char>, max: nat) -> bool {
    value.len() > 0 && utf8_len(value) <= max && !has_control_char(value)
}

/// Accepts a non-empty text of at most `max` bytes without control
/// characters, and returns a copy of it.
pub fn bounded_text(value: &str, max: usize, label: &str) -> (r: Result<String, CliError>)
    ensures
        match r {
            Ok(s) => text_acceptable(value@, max as nat) && s@ == value@,
            Err(e) => !text_acceptable(value@, max as nat) && e@ == (CliErrorView::InvalidText {
                label: label@,
            }),
        },
{
    if value.is_empty() || byte_len(value) > max || has_control(value) {
        return Err(CliError::InvalidText { label: label.to_owned() });
    }
    Ok(value.to_owned())
}

/// A text is a time of day `HH:MM` or `HH:MM:SS`: two or three pieces between
/// colons, each exactly two ASCII digits, with hour at most 23 and minute and
/// second at most 59. These are the texts the alarm draft's parser accepts.
pub open spec fn local_time_accepted(s: Seq<char>) -> bool {
    clock_fields(s) is Some
}

/// Whether a text is a time of day `HH:MM` or `HH:MM:SS` in range.
pub fn valid_local_time(value: &str) -> (r: bool)
    ensures
        r == local_time_accepted(value@),
{
    parse_local_time(value).is_ok()
}

pub const TRANSITION_ID_KEY: &'static str = "HAPPY_WAKEY_TRANSITION_ID";
pub const ALARM_LABEL_KEY: &'static str = "HAPPY_WAKEY_ALARM_LABEL";
pub const ALARM_LOCAL_TIME_KEY: &'static str = "HAPPY_WAKEY_ALARM_LOCAL_TIME";
pub const ALARM_TIME_ZONE_KEY: &'static str = "HAPPY_WAKEY_ALARM_TIME_ZONE";
pub const ALARM_WEEKDAYS_KEY: &'static str = "HAPPY_WAKEY_ALARM_WEEKDAYS";
pub const ALARM_ENABLED_KEY: &'static str = "HAPPY_WAKEY_ALARM_ENABLED";
pub const ALARM_SOUND_KEY: &'static str = "HAPPY_WAKEY_ALARM_SOUND";
pub const ALARM_VOLUME_KEY: &'static str = "HAPPY_WAKEY_ALARM_VOLUME";
pub const ALARM_GRADUAL_SECONDS_KEY: &'static str = "HAPPY_WAKEY_ALARM_GRADUAL_SECONDS";
pub const ALARM_TAGS_KEY: &'static str = "HAPPY_WAKEY_ALARM_TAGS";

/// Whether a text names a UUID, as `uuid::Uuid::parse_str` decides.
pub fn validate_uuid(value: &str, label: &str) -> (r: Result<(), CliError>)
    ensures
        match r {
            Ok(()) => uuid_text_accepted(value@),
            Err(e) => !uuid_text_accepted(value@) && e@ == (CliErrorView::InvalidUuid {
                label: label@,
            }),
        },
{
    if uuid_parses(value) {
        Ok(())
    } else {
        Err(CliError::InvalidUuid { label: label.to_owned() })
    }
}

/// The first check, in the order the alarm settings are checked, that they
/// fail. `transition_id_ok` says whether the transition ID names a UUID;
/// `weekdays`, `tags` and `volume_bits` are what the weekday, tag and volume
/// settings read as (a JSON byte array, a JSON string array, the bits of an
/// `f32`), where they read as one.
pub open spec fn alarm_settings_error(
    m: Map<Seq<char>, Seq<char>>,
    transition_id_ok: bool,
    weekdays: Option<Seq<u8>>,
    tags: Option<Seq<Seq<char>>>,
    volume_bits: Option<u32>,
) -> Option<CliErrorView> {
    let label = setting(m, ALARM_LABEL_KEY@);
    let local_time = setting(m, ALARM_LOCAL_TIME_KEY@);
    let time_zone = setting(m, ALARM_TIME_ZONE_KEY@);
    let sound = setting(m, ALARM_SOUND_KEY@);
    let gradual = number_outcome(m, ALARM_GRADUAL_SECONDS_KEY@, u32::MAX as nat);
    if !transition_id_ok {
        Some(CliErrorView::InvalidUuid { label: "transition ID"@ })
    } else if label is None {
        Some(CliErrorView::MissingSetting { key: ALARM_LABEL_KEY@ })
    } else if !text_acceptable(label->0, 120) {
        Some(CliErrorView::InvalidText { label: "label"@ })
    } else if local_time is None {
        Some(CliErrorView::MissingSetting { key: ALARM_LOCAL_TIME_KEY@ })
    } else if !local_time_accepted(local_time->0) {
        Some(CliErrorView::LocalTimeInvalid)
    } else if time_zone is None {
        Some(CliErrorView::MissingSetting { key: ALARM_TIME_ZONE_KEY@ })
    } else if !text_acceptable(time_zone->0, 64) {
        Some(CliErrorView::InvalidText { label: "time zone"@ })
    } else if utf8_len(time_zone->0) < 3 {
        Some(CliErrorView::TimeZoneTooShort)
    } else if setting(m, ALARM_WEEKDAYS_KEY@) is None {
        Some(CliErrorView::MissingSetting { key: ALARM_WEEKDAYS_KEY@ })
    } else if weekdays is None {
        Some(CliErrorView::NotJsonArray { key: ALARM_WEEKDAYS_KEY@ })
    } else if !weekdays_acceptable(weekdays->0) {
        Some(CliErrorView::WeekdaysInvalid)
    } else if bool_outcome(m, ALARM_ENABLED_KEY@) is Err {
        Some(bool_outcome(m, ALARM_ENABLED_KEY@)->Err_0)
    } else if sound is None {
        Some(CliErrorView::MissingSetting { key: ALARM_SOUND_KEY@ })
    } else if !text_acceptable(sound->0, 128) {
        Some(CliErrorView::InvalidText { label: "sound"@ })
    } else if setting(m, ALARM_VOLUME_KEY@) is None {
        Some(CliErrorView::MissingSetting { key: ALARM_VOLUME_KEY@ })
    } else if volume_bits is None {
        Some(CliErrorView::InvalidNumber { key: ALARM_VOLUME_KEY@ })
    } else if !volume_in_range(volume_bits->0) {
        Some(CliErrorView::VolumeInvalid)
    } else if gradual is Err {
        Some(gradual->Err_0)
    } else if gradual->Ok_0 > 1800 {
        Some(CliErrorView::GradualSecondsInvalid)
    } else if setting(m, ALARM_TAGS_KEY@) is None {
        Some(CliErrorView::MissingSetting { key: ALARM_TAGS_KEY@ })
    } else if tags is None {
        Some(CliErrorView::NotJsonArray { key: ALARM_TAGS_KEY@ })
    } else if exists|i: int|
        0 <= i < tags->0.len() && !text_acceptable(#[trigger] tags->0[i], 40) {
        Some(CliErrorView::InvalidText { label: "tag"@ })
    } else if tags->0.to_set().len() > 20 {
        Some(CliErrorView::TooManyTags)
    } else {
        None
    }
}

/// An accepted request holds the settings' values, with weekdays and tags in
/// normal form: strictly increasing, and the same set as what was read.
pub open spec fn alarm_request_matches(
    q: AlarmRequestView,
    m: Map<Seq<char>, Seq<char>>,
    transition_id: Seq<char>,
    weekdays: Option<Seq<u8>>,
    tags: Option<Seq<Seq<char>>>,
    volume_bits: Option<u32>,
) -> bool {
    &&& q.transition_id == transition_id
    &&& setting(m, ALARM_LABEL_KEY@) == Some(q.label)
    &&& setting(m, ALARM_LOCAL_TIME_KEY@) == Some(q.local_time)
    &&& setting(m, ALARM_TIME_ZONE_KEY@) == Some(q.time_zone)
    &&& strictly_increasing(q.weekdays)
    &&& weekdays is Some && q.weekdays.to_set() == weekdays->0.to_set()
    &&& bool_outcome(m, ALARM_ENABLED_KEY@) == Ok::<bool, CliErrorView>(q.enabled)
    &&& setting(m, ALARM_SOUND_KEY@) == Some(q.sound)
    &&& volume_bits == Some(q.volume_bits)
    &&& number_outcome(m, ALARM_GRADUAL_SECONDS_KEY@, u32::MAX as nat) == Ok::<
        nat,
        CliErrorView,
    >(q.gradual_seconds as nat)
    &&& strictly_sorted_texts(q.tags)
    &&& tags is Some && q.tags.to_set() == tags->0.to_set()
}

/// The first tag error is absent exactly when every tag is acceptable.
pub proof fn lemma_first_tag_error_none(ts: Seq<Seq<char>>)
    ensures
        first_tag_error(ts) is None <==> forall|i: int|
            0 <= i < ts.len() ==> text_check(#[trigger] ts[i], 40, DraftField::Tag) is None,
        first_tag_error(ts) is Some ==> first_tag_error(ts)->0 != AlarmDraftError::TooManyTags,
    decreases ts.len(),
{
    if ts.len() > 0 {
        lemma_first_tag_error_none(ts.drop_last());
        if first_tag_error(ts.drop_last()) is None {
            assert forall|i: int| 0 <= i < ts.len() - 1 implies text_check(
                #[trigger] ts[i],
                40,
                DraftField::Tag,
            ) is None by {
                assert(ts.drop_last()[i] == ts[i]);
            }
        } else {
            let i = choose|i: int|
                0 <= i < ts.len() - 1 && text_check(
                    #[trigger] ts.drop_last()[i],
                    40,
                    DraftField::Tag,
                ) is Some;
            assert(ts[i] == ts.drop_last()[i]);
        }
    }
}

/// Checks alarm settings whose outside readings are already made, and builds
/// the request. `transition_id_ok` says whether `transition_id` names a
/// UUID; `weekdays`, `tags` and `volume_bits` are what the weekday, tag and
/// volume settings read as, where they read as such.
pub fn assemble_alarm_request(
    values: &Settings,
    transition_id: String,
    transition_id_ok: bool,
    weekdays: Option<Vec<u8>>,
    tags: Option<Vec<String>>,
    volume_bits: Option<u32>,
) -> (r: Result<CreateAlarmRequest, CliError>)
    ensures
        ({
            let w = match weekdays {
                Some(v) => Some(v@),
                None => None,
            };
            let t = match tags {
                Some(v) => Some(texts(v@)),
                None => None,
            };
            match r {
                Ok(q) => alarm_settings_error(values@, transition_id_ok, w, t, volume_bits) is None
                    && alarm_request_matches(q@, values@, transition_id@, w, t, volume_bits),
                Err(e) => alarm_settings_error(values@, transition_id_ok, w, t, volume_bits)
                    == Some(e@),
            }
        }),
{
    if !transition_id_ok {
        return Err(CliError::InvalidUuid { label: "transition ID".to_owned() });
    }
    let label = bounded_text(required(values, ALARM_LABEL_KEY)?, 120, "label")?;
    let local_time_text = required(values, ALARM_LOCAL_TIME_KEY)?;
    if !valid_local_time(local_time_text) {
        return Err(CliError::LocalTimeInvalid);
    }
    let local_time = local_time_text.to_owned();
    let time_zone = bounded_text(required(values, ALARM_TIME_ZONE_KEY)?, 64, "time zone")?;
    if byte_len(time_zone.as_str()) < 3 {
        return Err(CliError::TimeZoneTooShort);
    }
    required(values, ALARM_WEEKDAYS_KEY)?;
    let weekdays = match weekdays {
        Some(w) => w,
        None => {
            return Err(CliError::NotJsonArray { key: ALARM_WEEKDAYS_KEY.to_owned() });
        },
    };
    let weekdays = match normalize_weekdays(weekdays.as_slice()) {
        Ok(w) => w,
        Err(_) => {
            return Err(CliError::WeekdaysInvalid);
        },
    };
    let enabled = parse_bool(values, ALARM_ENABLED_KEY)?;
    let sound = bounded_text(required(values, ALARM_SOUND_KEY)?, 128, "sound")?;
    required(values, ALARM_VOLUME_KEY)?;
    let volume_bits = match volume_bits {
        Some(v) => v,
        None => {
            return Err(CliError::InvalidNumber { key: ALARM_VOLUME_KEY.to_owned() });
        },
    };
    if !(volume_bits <= VOLUME_ONE_BITS || volume_bits == VOLUME_NEGATIVE_ZERO_BITS) {
        return Err(CliError::VolumeInvalid);
    }
    let gradual_seconds = parse_number(values, ALARM_GRADUAL_SECONDS_KEY, 0xFFFF_FFFF)?;
    if gradual_seconds > 1800 {
        return Err(CliError::GradualSecondsInvalid);
    }
    required(values, ALARM_TAGS_KEY)?;
    let tags = match tags {
        Some(t) => t,
        None => {
            return Err(CliError::NotJsonArray { key: ALARM_TAGS_KEY.to_owned() });
        },
    };
    proof {
        lemma_first_tag_error_none(texts(tags@));
    }
    let tags = match normalize_tags(tags.as_slice()) {
        Ok(t) => t,
        Err(AlarmDraftError::TooManyTags) => {
            return Err(CliError::TooManyTags);
        },
        Err(_) => {
            return Err(CliError::InvalidText { label: "tag".to_owned() });
        },
    };
    Ok(
        CreateAlarmRequest {
            transition_id,
            label,
            local_time,
            time_zone,
            weekdays,
            enabled,
            sound,
            volume_bits,
            gradual_seconds: gradual_seconds as u32,
            tags,
        },
    )
}

/// The transition ID a command uses: the setting's, else the fresh one.
pub open spec fn chosen_transition_id(m: Map<Seq<char>, Seq<char>>, fresh: Seq<char>) -> Seq<
    char,
> {
    if m.contains_key(TRANSITION_ID_KEY@) {
        m[TRANSITION_ID_KEY@]
    } else {
        fresh
    }
}

/// What the weekday setting reads as, as a JSON byte array.
pub open spec fn weekdays_read(m: Map<Seq<char>, Seq<char>>) -> Option<Seq<u8>> {
    if m.contains_key(ALARM_WEEKDAYS_KEY@) {
        json_byte_array(m[ALARM_WEEKDAYS_KEY@])
    } else {
        None
    }
}

/// What the tag setting reads as, as a JSON string array.
pub open spec fn tags_read(m: Map<Seq<char>, Seq<char>>) -> Option<Seq<Seq<char>>> {
    if m.contains_key(ALARM_TAGS_KEY@) {
        json_string_array(m[ALARM_TAGS_KEY@])
    } else {
        None
    }
}

/// Builds an alarm-create request from settings. `fresh_id` is the
/// transition ID to use where the settings name none; `volume_bits` is the
/// bit pattern of the `f32` that the volume setting reads as, where it reads
/// as one.
pub fn create_alarm_request(values: &Settings, fresh_id: &str, volume_bits: Option<u32>) -> (r:
    Result<CreateAlarmRequest, CliError>)
    ensures
        ({
            let id = chosen_transition_id(values@, fresh_id@);
            let ok = uuid_text_accepted(id);
            let w = weekdays_read(values@);
            let t = tags_read(values@);
            match r {
                Ok(q) => alarm_settings_error(values@, ok, w, t, volume_bits) is None
                    && alarm_request_matches(q@, values@, id, w, t, volume_bits),
                Err(e) => alarm_settings_error(values@, ok, w, t, volume_bits) == Some(e@),
            }
        }),
{
    let transition_id = match values.get(TRANSITION_ID_KEY) {
        Some(id) => id.to_owned(),
        None => fresh_id.to_owned(),
    };
    let transition_id_ok = uuid_parses(transition_id.as_str());
    let weekdays = match values.get(ALARM_WEEKDAYS_KEY) {
        Some(text) => parse_json_byte_array(text),
        None => None,
    };
    let tags = match values.get(ALARM_TAGS_KEY) {
        Some(text) => parse_json_string_array(text),
        None => None,
    };
    assemble_alarm_request(values, transition_id, transition_id_ok, weekdays, tags, volume_bits)
}

pub const OCCURRENCE_ID_KEY: &'static str = "HAPPY_WAKEY_OCCURRENCE_ID";
pub const EXPECTED_GENERATION_KEY: &'static str = "HAPPY_WAKEY_EXPECTED_GENERATION";
pub const TRANSITION_EVENT_KEY: &'static str = "HAPPY_WAKEY_TRANSITION_EVENT";
pub const SNOOZE_UNTIL_KEY: &'static str = "HAPPY_WAKEY_SNOOZE_UNTIL";
pub const CLIENT_TIME_KEY: &'static str = "HAPPY_WAKEY_CLIENT_TIME";

/// A lifecycle event of an alarm occurrence.
#[derive(Debug, Clone, Copy, PartialEq, Eq, Structural)]
pub enum TransitionEvent {
    Fire,
    Acknowledge,
    Snooze,
    Complete,
    MarkMissed,
    Cancel,
}

/// The name by which each event is given on the command line.
pub open spec fn event_name(e: TransitionEvent) -> Seq<char> {
    match e {
        TransitionEvent::Fire => "fire"@,
        TransitionEvent::Acknowledge => "acknowledge"@,
        TransitionEvent::Snooze => "snooze"@,
        TransitionEvent::Complete => "complete"@,
        TransitionEvent::MarkMissed => "mark_missed"@,
        TransitionEvent::Cancel => "cancel"@,
    }
}

pub open spec fn event_named(name: Seq<char>) -> Option<TransitionEvent> {
    if name == "fire"@ {
        Some(TransitionEvent::Fire)
    } else if name == "acknowledge"@ {
        Some(TransitionEvent::Acknowledge)
    } else if name == "snooze"@ {
        Some(TransitionEvent::Snooze)
    } else if name == "complete"@ {
        Some(TransitionEvent::Complete)
    } else if name == "mark_missed"@ {
        Some(TransitionEvent::MarkMissed)
    } else if name == "cancel"@ {
        Some(TransitionEvent::Cancel)
    } else {
        None
    }
}

/// The event a name stands for.
pub fn parse_event(name: &str) -> (r: Option<TransitionEvent>)
    ensures
        r == event_named(name@),
{
    if same_text(name, "fire") {
        Some(TransitionEvent::Fire)
    } else if same_text(name, "acknowledge") {
        Some(TransitionEvent::Acknowledge)
    } else if same_text(name, "snooze") {
        Some(TransitionEvent::Snooze)
    } else if same_text(name, "complete") {
        Some(TransitionEvent::Complete)
    } else if same_text(name, "mark_missed") {
        Some(TransitionEvent::MarkMissed)
    } else if same_text(name, "cancel") {
        Some(TransitionEvent::Cancel)
    } else {
        None
    }
}

/// The body of a generation-fenced occurrence transition request.
#[derive(Debug, Clone, PartialEq, Eq)]
pub struct TransitionRequest {
    pub transition_id: String,
    pub expected_generation: u64,
    pub event: TransitionEvent,
    pub snooze_until: Option<String>,
    pub client_time: String,
}

/// What a [`TransitionRequest`] holds, as mathematical values.
pub struct TransitionRequestView {
    pub transition_id: Seq<char>,
    pub expected_generation: u64,
    pub event: TransitionEvent,
    pub snooze_until: Option<Seq<char>>,
    pub client_time: Seq<char>,
}

impl View for TransitionRequest {
    type V = TransitionRequestView;

    open spec fn view(&self) -> TransitionRequestView {
        TransitionRequestView {
            transition_id: self.transition_id@,
            expected_generation: self.expected_generation,
            event: self.event,
            snooze_until: match self.snooze_until {
                Some(s) => Some(s@),
                None => None,
            },
            client_time: self.client_time@,
        }
    }
}

/// The first check, in order, that transition settings fail.
/// `occurrence_ok` and `transition_ok` say whether the occurrence ID and the
/// transition ID name UUIDs.
pub open spec fn transition_error(
    m: Map<Seq<char>, Seq<char>>,
    occurrence_ok: bool,
    transition_ok: bool,
) -> Option<CliErrorView> {
    let generation = number_outcome(m, EXPECTED_GENERATION_KEY@, u64::MAX as nat);
    let event = setting(m, TRANSITION_EVENT_KEY@);
    let snooze = m.contains_key(SNOOZE_UNTIL_KEY@);
    if setting(m, OCCURRENCE_ID_KEY@) is None {
        Some(CliErrorView::MissingSetting { key: OCCURRENCE_ID_KEY@ })
    } else if !occurrence_ok {
        Some(CliErrorView::InvalidUuid { label: "occurrence ID"@ })
    } else if !transition_ok {
        Some(CliErrorView::InvalidUuid { label: "transition ID"@ })
    } else if generation is Err {
        Some(generation->Err_0)
    } else if event is None {
        Some(CliErrorView::MissingSetting { key: TRANSITION_EVENT_KEY@ })
    } else if event_named(event->0) is None {
        Some(CliErrorView::UnknownEvent)
    } else if event_named(event->0) == Some(TransitionEvent::Snooze) && !snooze {
        Some(CliErrorView::SnoozeNeedsDeadline)
    } else if event_named(event->0) != Some(TransitionEvent::Snooze) && snooze {
        Some(CliErrorView::DeadlineOnlyForSnooze)
    } else {
        None
    }
}

/// An accepted transition request holds the settings' values.
pub open spec fn transition_matches(
    occurrence_id: Seq<char>,
    q: TransitionRequestView,
    m: Map<Seq<char>, Seq<char>>,
    fresh_id: Seq<char>,
    now: Seq<char>,
) -> bool {
    &&& setting(m, OCCURRENCE_ID_KEY@) == Some(occurrence_id)
    &&& q.transition_id == chosen_transition_id(m, fresh_id)
    &&& number_outcome(m, EXPECTED_GENERATION_KEY@, u64::MAX as nat) == Ok::<nat, CliErrorView>(
        q.expected_generation as nat,
    )
    &&& setting(m, TRANSITION_EVENT_KEY@) is Some
    &&& event_named(setting(m, TRANSITION_EVENT_KEY@)->0) == Some(q.event)
    &&& q.snooze_until == (if m.contains_key(SNOOZE_UNTIL_KEY@) {
        Some(m[SNOOZE_UNTIL_KEY@])
    } else {
        None
    })
    &&& q.client_time == (if m.contains_key(CLIENT_TIME_KEY@) {
        m[CLIENT_TIME_KEY@]
    } else {
        now
    })
}

/// Checks transition settings whose UUID readings are already made, and
/// builds the request. `fresh_id` is the transition ID to use where the
/// settings name none, `now` the client time to use where they name none;
/// `occurrence_ok` and `transition_ok` say whether the occurrence ID and the
/// transition ID name UUIDs.
pub fn decide_transition_request<'a>(
    values: &'a Settings,
    fresh_id: &str,
    now: &str,
    occurrence_ok: bool,
    transition_ok: bool,
) -> (r: Result<(&'a str, TransitionRequest), CliError>)
    ensures
        match r {
            Ok((occurrence_id, q)) => transition_error(values@, occurrence_ok, transition_ok) is None
                && transition_matches(occurrence_id@, q@, values@, fresh_id@, now@) && (q.event
                == TransitionEvent::Snooze <==> q.snooze_until is Some),
            Err(e) => transition_error(values@, occurrence_ok, transition_ok) == Some(e@),
        },
{
    let occurrence_id = required(values, OCCURRENCE_ID_KEY)?;
    if !occurrence_ok {
        return Err(CliError::InvalidUuid { label: "occurrence ID".to_owned() });
    }
    let transition_id = match values.get(TRANSITION_ID_KEY) {
        Some(id) => id.to_owned(),
        None => fresh_id.to_owned(),
    };
    if !transition_ok {
        return Err(CliError::InvalidUuid { label: "transition ID".to_owned() });
    }
    let expected_generation = parse_number(values, EXPECTED_GENERATION_KEY, u64::MAX)?;
    let event = match parse_event(required(values, TRANSITION_EVENT_KEY)?) {
        Some(event) => event,
        None => {
            return Err(CliError::UnknownEvent);
        },
    };
    let snooze_until = match values.get(SNOOZE_UNTIL_KEY) {
        Some(s) => Some(s.to_owned()),
        None => None,
    };
    if event == TransitionEvent::Snooze && snooze_until.is_none() {
        return Err(CliError::SnoozeNeedsDeadline);
    }
    if event != TransitionEvent::Snooze && snooze_until.is_some() {
        return Err(CliError::DeadlineOnlyForSnooze);
    }
    let client_time = match values.get(CLIENT_TIME_KEY) {
        Some(t) => t.to_owned(),
        None => now.to_owned(),
    };
    Ok(
        (
            occurrence_id,
            TransitionRequest {
                transition_id,
                expected_generation,
                event,
                snooze_until,
                client_time,
            },
        ),
    )
}

/// Builds an occurrence transition request from settings. `fresh_id` is the
/// transition ID to use where the settings name none, `now` the client time
/// to use where they name none. A deadline comes with the snooze event and
/// with no other.
pub fn transition_request<'a>(values: &'a Settings, fresh_id: &str, now: &str) -> (r: Result<
    (&'a str, TransitionRequest),
    CliError,
>)
    ensures
        ({
            let occurrence_ok = setting(values@, OCCURRENCE_ID_KEY@) is Some && uuid_text_accepted(
                setting(values@, OCCURRENCE_ID_KEY@)->0,
            );
            let transition_ok = uuid_text_accepted(chosen_transition_id(values@, fresh_id@));
            match r {
                Ok((occurrence_id, q)) => transition_error(values@, occurrence_ok, transition_ok)
                    is None && transition_matches(occurrence_id@, q@, values@, fresh_id@, now@) && (
                q.event == TransitionEvent::Snooze <==> q.snooze_until is Some),
                Err(e) => transition_error(values@, occurrence_ok, transition_ok) == Some(e@),
            }
        }),
{
    let occurrence_ok = match values.get(OCCURRENCE_ID_KEY) {
        Some(id) => !id.is_empty() && uuid_parses(id),
        None => false,
    };
    let transition_ok = match values.get(TRANSITION_ID_KEY) {
        Some(id) => uuid_parses(id),
        None => uuid_parses(fresh_id),
    };
    decide_transition_request(values, fresh_id, now, occurrence_ok, transition_ok)
}

/// The API path of an occurrence's transitions, once the occurrence ID is
/// known to name a UUID.
pub fn transition_path(occurrence_id: &str) -> (r: Result<String, CliError>)
    ensures
        match r {
            Ok(path) => uuid_text_accepted(occurrence_id@) && path@ == "v1/occurrences/"@
                + occurrence_id@ + "/transitions"@,
            Err(e) => !uuid_text_accepted(occurrence_id@) && e@ == (CliErrorView::InvalidUuid {
                label: "occurrence ID"@,
            }),
        },
{
    validate_uuid(occurrence_id, "occurrence ID")?;
    let mut path = text_then("v1/occurrences/", occurrence_id);
    path.append("/transitions");
    Ok(path)
}

/// Largest response body the product API may send.
pub const MAX_RESPONSE_BYTES: usize = 1024 * 1024;
/// Largest response body Shared Auth may send.
pub const MAX_AUTH_RESPONSE_BYTES: usize = 64 * 1024;
/// Largest access token accepted, in bytes.
pub const MAX_TOKEN_BYTES: usize = 16 * 1024;

/// A host text without the square brackets of an IPv6 literal.
pub open spec fn without_brackets(h: Seq<char>) -> Seq<char> {
    if h.len() >= 2 && h[0] == '[' && h[h.len() - 1] == ']' {
        h.subrange(1, h.len() - 1)
    } else {
        h
    }
}

/// A host is a public numeric host when it is an IP address literal other
/// than the loopback names `127.0.0.1`, `localhost` and `::1`.
pub open spec fn is_public_numeric_host(host: Option<Seq<char>>, ip_literal: bool) -> bool {
    match host {
        None => false,
        Some(h) => {
            let inner = without_brackets(h);
            !(inner == "127.0.0.1"@ || inner == "localhost"@ || inner == "::1"@) && ip_literal
        },
    }
}

/// Whether a URL host names a public IP address rather than a DNS name.
/// `ip_literal` says whether the host is an IP address literal.
pub fn public_numeric_host(host: Option<&str>, ip_literal: bool) -> (r: bool)
    ensures
        r == is_public_numeric_host(
            match host {
                Some(h) => Some(h@),
                None => None,
            },
            ip_literal,
        ),
{
    let host = match host {
        Some(h) => h,
        None => {
            return false;
        },
    };
    let n = host.unicode_len();
    let inner = if n >= 2 && host.get_char(0) == '[' && host.get_char(n - 1) == ']' {
        host.substring_char(1, n - 1)
    } else {
        host
    };
    if same_text(inner, "127.0.0.1") || same_text(inner, "localhost") || same_text(inner, "::1") {
        return false;
    }
    ip_literal
}

/// The host of parsed URL components is one that the `url` crate classed as
/// an IPv4 or IPv6 address.
pub open spec fn host_is_ip(p: UrlPartsView) -> bool {
    p.host_kind == Some(HostKind::Ipv4) || p.host_kind == Some(HostKind::Ipv6)
}

/// The components of a base URL name a credential-free HTTPS authority: an
/// `https` URL with a host, no username or password, an empty or `/` path,
/// and no query or fragment.
pub open spec fn is_plain_https_authority(p: UrlPartsView) -> bool {
    &&& p.scheme == "https"@
    &&& p.host is Some
    &&& p.username.len() == 0
    &&& p.password is None
    &&& (p.path.len() == 0 || p.path == "/"@)
    &&& p.query is None
    &&& p.fragment is None
}

pub open spec fn base_url_error(p: UrlPartsView, label: Seq<char>) -> Option<CliErrorView> {
    if !is_plain_https_authority(p) {
        Some(CliErrorView::BaseUrlNotAuthority { label })
    } else if is_public_numeric_host(p.host, host_is_ip(p)) {
        Some(CliErrorView::BaseUrlPublicIp { label })
    } else {
        None
    }
}

/// Checks the components of a parsed base URL.
pub fn check_base_url(parts: &UrlParts, label: &str) -> (r: Result<(), CliError>)
    ensures
        match r {
            Ok(()) => base_url_error(parts@, label@) is None,
            Err(e) => base_url_error(parts@, label@) == Some(e@),
        },
{
    if !same_text(parts.scheme.as_str(), "https") || parts.host.is_none()
        || !parts.username.as_str().is_empty() || parts.password.is_some() || !(parts.path.as_str().is_empty()
        || same_text(parts.path.as_str(), "/")) || parts.query.is_some()
        || parts.fragment.is_some() {
        return Err(CliError::BaseUrlNotAuthority { label: label.to_owned() });
    }
    let ip_literal = match parts.host_kind {
        Some(HostKind::Ipv4) | Some(HostKind::Ipv6) => true,
        _ => false,
    };
    let host = match &parts.host {
        Some(h) => Some(h.as_str()),
        None => None,
    };
    if public_numeric_host(host, ip_literal) {
        return Err(CliError::BaseUrlPublicIp { label: label.to_owned() });
    }
    Ok(())
}

/// Parses a base URL and accepts it only as a credential-free HTTPS authority
/// with a DNS name; gives the text of the parsed URL.
pub fn validate_base_url(raw: &str, label: &str) -> (r: Result<String, CliError>)
    ensures
        match r {
            Ok(url) => url_components(raw@) is Some && url@ == url_components(raw@)->0.serialization
                && base_url_error(url_components(raw@)->0, label@) is None,
            Err(e) => match url_components(raw@) {
                None => e@ == (CliErrorView::InvalidBaseUrl { label: label@ }),
                Some(p) => base_url_error(p, label@) == Some(e@),
            },
        },
{
    match parse_url(raw) {
        Some(parts) => {
            check_base_url(&parts, label)?;
            Ok(parts.serialization)
        },
        None => Err(CliError::InvalidBaseUrl { label: label.to_owned() }),
    }
}

/// The URL of an endpoint: the reference `path` resolved against `base`, as
/// `url::Url::join` resolves it.
pub fn endpoint_url(base: &str, path: &str) -> (r: Option<String>)
    ensures
        match r {
            Some(u) => url_joined(base@, path@) == Some(u@),
            None => url_joined(base@, path@) is None,
        },
{
    join_url(base, path)
}

pub open spec fn is_ascii_whitespace_byte(b: u8) -> bool {
    b == 0x20 || b == 0x09 || b == 0x0A || b == 0x0C || b == 0x0D
}

pub open spec fn is_ascii_control_byte(b: u8) -> bool {
    b < 0x20 || b == 0x7F
}

/// An access token is non-empty, at most 16 KiB long, and none of its bytes
/// is ASCII whitespace or an ASCII control byte.
pub open spec fn token_acceptable(t: Seq<char>) -> bool {
    let bytes = vstd::utf8::encode_utf8(t);
    &&& t.len() > 0
    &&& bytes.len() <= 16 * 1024
    &&& forall|i: int|
        0 <= i < bytes.len() ==> !is_ascii_whitespace_byte(#[trigger] bytes[i])
            && !is_ascii_control_byte(bytes[i])
}

/// Accepts the access token read from the environment, if any was set.
pub fn access_token(raw: Option<String>) -> (r: Result<String, CliError>)
    ensures
        match r {
            Ok(t) => raw is Some && t == raw->0 && token_acceptable(t@),
            Err(e) => match raw {
                None => e@ == CliErrorView::MissingToken,
                Some(t) => !token_acceptable(t@) && e@ == CliErrorView::MalformedToken,
            },
        },
{
    let token = match raw {
        Some(t) => t,
        None => {
            return Err(CliError::MissingToken);
        },
    };
    let bytes = token.as_str().as_bytes();
    if token.as_str().is_empty() || bytes.len() > MAX_TOKEN_BYTES {
        return Err(CliError::MalformedToken);
    }
    for i in 0..bytes.len()
        invariant
            raw == Some(token),
            bytes@ == vstd::utf8::encode_utf8(token@),
            forall|j: int|
                0 <= j < i ==> !is_ascii_whitespace_byte(#[trigger] bytes@[j])
                    && !is_ascii_control_byte(bytes@[j]),
    {
        let b = bytes[i];
        if b == 0x20 || b == 0x09 || b == 0x0A || b == 0x0C || b == 0x0D || b < 0x20 || b == 0x7F {
            assert(is_ascii_whitespace_byte(bytes@[i as int]) || is_ascii_control_byte(
                bytes@[i as int],
            ));
            assert(!token_acceptable(token@));
            return Err(CliError::MalformedToken);
        }
    }
    Ok(token)
}

pub const PRETTY_KEY: &'static str = "HAPPY_WAKEY_PRETTY";

/// A parsed command line: the command, its settings, and whether output is
/// pretty-printed.
#[derive(Debug)]
pub struct Invocation {
    pub command: String,
    pub values: Settings,
    pub pretty: bool,
}

/// Accepts what the flag parser made of the command line, unless it found
/// unknown options or invalid values; the refusal names only how many.
pub fn finish_invocation(
    command: String,
    flags: Settings,
    unknown_options: usize,
    invalid_values: usize,
) -> (r: Result<Invocation, CliError>)
    ensures
        match r {
            Ok(inv) => unknown_options == 0 && invalid_values == 0 && inv.command == command
                && inv.values@ == flags@ && inv.pretty == (flags@.contains_key(PRETTY_KEY@)
                && flags@[PRETTY_KEY@] == "true"@),
            Err(e) => (unknown_options != 0 || invalid_values != 0) && e@
                == (CliErrorView::FlagsRejected { unknown_options, invalid_values }),
        },
{
    if unknown_options != 0 || invalid_values != 0 {
        return Err(CliError::FlagsRejected { unknown_options, invalid_values });
    }
    let pretty = match flags.get(PRETTY_KEY) {
        Some(value) => same_text(value, "true"),
        None => false,
    };
    Ok(Invocation { command, values: flags, pretty })
}

/// The commands the client offers.
#[derive(Debug, Clone, Copy, PartialEq, Eq, Structural)]
pub enum Command {
    Capabilities,
    Verify,
    AlarmsList,
    AlarmsCreate,
    OccurrencesTransition,
}

/// The name by which each command is given on the command line.
pub open spec fn command_name(c: Command) -> Seq<char> {
    match c {
        Command::Capabilities => "capabilities"@,
        Command::Verify => "verify"@,
        Command::AlarmsList => "alarms list"@,
        Command::AlarmsCreate => "alarms create"@,
        Command::OccurrencesTransition => "occurrences transition"@,
    }
}

pub open spec fn command_named(name: Seq<char>) -> Option<Command> {
    if name == "capabilities"@ {
        Some(Command::Capabilities)
    } else if name == "verify"@ {
        Some(Command::Verify)
    } else if name == "alarms list"@ {
        Some(Command::AlarmsList)
    } else if name == "alarms create"@ {
        Some(Command::AlarmsCreate)
    } else if name == "occurrences transition"@ {
        Some(Command::OccurrencesTransition)
    } else {
        None
    }
}

/// The command a resolved command name stands for.
pub fn parse_command(name: &str) -> (r: Result<Command, CliError>)
    ensures
        match r {
            Ok(c) => command_named(name@) == Some(c),
            Err(e) => command_named(name@) is None && e@ == CliErrorView::UnknownCommand,
        },
{
    if same_text(name, "capabilities") {
        Ok(Command::Capabilities)
    } else if same_text(name, "verify") {
        Ok(Command::Verify)
    } else if same_text(name, "alarms list") {
        Ok(Command::AlarmsList)
    } else if same_text(name, "alarms create") {
        Ok(Command::AlarmsCreate)
    } else if same_text(name, "occurrences transition") {
        Ok(Command::OccurrencesTransition)
    } else {
        Err(CliError::UnknownCommand)
    }
}

/// What to do with the raw arguments before any parsing.
#[derive(Debug, Clone, Copy, PartialEq, Eq, Structural)]
pub enum EarlyAction {
    ShowUsage,
    ShowVersion,
    Run,
}

pub open spec fn has_arg(args: Seq<Seq<char>>, a: Seq<char>, b: Seq<char>) -> bool {
    exists|i: int| 0 <= i < args.len() && (#[trigger] args[i] == a || args[i] == b)
}

pub open spec fn early_action_of(args: Seq<Seq<char>>) -> EarlyAction {
    if args.len() == 1 || has_arg(args, "--help"@, "-h"@) {
        EarlyAction::ShowUsage
    } else if has_arg(args, "--version"@, "-V"@) {
        EarlyAction::ShowVersion
    } else {
        EarlyAction::Run
    }
}

fn any_arg(args: &[String], a: &str, b: &str) -> (r: bool)
    ensures
        r == has_arg(args@.map_values(|s: String| s@), a@, b@),
{
    let ghost v = args@.map_values(|s: String| s@);
    for i in 0..args.len()
        invariant
            v == args@.map_values(|s: String| s@),
            forall|j: int| 0 <= j < i ==> !(#[trigger] v[j] == a@ || v[j] == b@),
    {
        if same_text(args[i].as_str(), a) || same_text(args[i].as_str(), b) {
            assert(v[i as int] == args@[i as int]@);
            return true;
        }
    }
    false
}

/// Usage is shown when no arguments follow the program name or help is
/// asked for; else the version when it is asked for; else the command runs.
pub fn early_action(args: &[String]) -> (r: EarlyAction)
    ensures
        r == early_action_of(args@.map_values(|s: String| s@)),
{
    if args.len() == 1 || any_arg(args, "--help", "-h") {
        EarlyAction::ShowUsage
    } else if any_arg(args, "--version", "-V") {
        EarlyAction::ShowVersion
    } else {
        EarlyAction::Run
    }
}

/// What Shared Auth's answer to a verification request means.
#[derive(Debug, Clone, Copy, PartialEq, Eq, Structural)]
pub enum VerifyOutcome {
    Valid,
    Invalid,
    UnexpectedStatus,
}

/// Status 200 means the credential is valid, 401 that it is not; any other
/// status is unexpected.
pub fn verify_outcome(status: u16) -> (r: VerifyOutcome)
    ensures
        r == (if status == 200 {
            VerifyOutcome::Valid
        } else if status == 401 {
            VerifyOutcome::Invalid
        } else {
            VerifyOutcome::UnexpectedStatus
        }),
{
    if status == 200 {
        VerifyOutcome::Valid
    } else if status == 401 {
        VerifyOutcome::Invalid
    } else {
        VerifyOutcome::UnexpectedStatus
    }
}

/// Why a response body is refused.
#[derive(Debug, Clone, Copy, PartialEq, Eq, Structural)]
pub enum BodyRefusal {
    Status,
    TooLarge,
}

/// Decides on a response before its body is read: it must have a success
/// status and must not announce more than `limit` bytes.
pub fn response_head(success: bool, content_length: Option<u64>, limit: usize) -> (r: Result<
    (),
    BodyRefusal,
>)
    ensures
        r == (if !success {
            Err(BodyRefusal::Status)
        } else if content_length is Some && content_length->0 > limit {
            Err(BodyRefusal::TooLarge)
        } else {
            Ok(())
        }),
{
    if !success {
        return Err(BodyRefusal::Status);
    }
    match content_length {
        Some(length) => {
            if length > limit as u64 {
                return Err(BodyRefusal::TooLarge);
            }
        },
        None => {},
    }
    Ok(())
}

/// Accepts the next chunk of a response body of which `received` bytes are
/// already kept, unless the body would then exceed `limit` bytes; returns
/// how many bytes are kept then.
pub fn accept_chunk(received: usize, chunk_len: usize, limit: usize) -> (r: Option<usize>)
    ensures
        match r {
            Some(total) => total == received + chunk_len && total <= limit,
            None => received + chunk_len > limit,
        },
{
    if chunk_len > limit || received > limit - chunk_len {
        None
    } else {
        Some(received + chunk_len)
    }
}

} // verus!
