//! Alarm-create drafts: explicit inputs, immutable values, typed errors.
//!
//! Minting identifiers and reading flags happen outside this module; it only
//! turns already-resolved values into a validated [`CreateAlarmRequest`].
use vstd::prelude::*;
use crate::text::{
    byte_len, colon_pieces, compare_text, has_control, has_control_char, is_ascii_digit,
    digit_value, lemma_text_order, split_on, sketches, text_lt, utf8_len, ColonPieces, describes,
    PieceSketch, TextOrder,
};

verus! {

const MAX_LABEL_CHARS: usize = 120;
const MAX_TIME_ZONE_CHARS: usize = 64;
const MIN_TIME_ZONE_CHARS: usize = 3;
const MAX_SOUND_CHARS: usize = 128;
const MAX_TAG_CHARS: usize = 40;
const MAX_TAGS: usize = 20;
const MAX_GRADUAL_SECONDS: u32 = 1800;

/// The bit pattern of the `f32` value 1.0.
pub const VOLUME_ONE_BITS: u32 = 0x3F80_0000;
/// The bit pattern of the `f32` value -0.0.
pub const VOLUME_NEGATIVE_ZERO_BITS: u32 = 0x8000_0000;

/// A text field of a draft, named in errors.
#[derive(Debug, Clone, Copy, PartialEq, Eq, Structural)]
pub enum DraftField {
    Label,
    TimeZone,
    Sound,
    Tag,
}

impl DraftField {
    pub open spec fn name(self) -> Seq<char> {
        match self {
            DraftField::Label => "label"@,
            DraftField::TimeZone => "time zone"@,
            DraftField::Sound => "sound"@,
            DraftField::Tag => "tag"@,
        }
    }

    /// The field's name as messages print it.
    pub fn as_str(self) -> (r: &'static str)
        ensures
            r@ == self.name(),
    {
        match self {
            DraftField::Label => "label",
            DraftField::TimeZone => "time zone",
            DraftField::Sound => "sound",
            DraftField::Tag => "tag",
        }
    }
}

/// Why a draft was refused.
#[derive(Debug, Clone, PartialEq, Eq, Structural)]
pub enum AlarmDraftError {
    EmptyOrControl { field: DraftField },
    TooLong { field: DraftField, max: usize },
    TimeZoneTooShort,
    LocalTimeInvalid,
    WeekdaysInvalid,
    VolumeInvalid,
    GradualSecondsInvalid,
    TooManyTags,
}

impl AlarmDraftError {
    pub open spec fn message_text(self) -> Seq<char> {
        match self {
            AlarmDraftError::EmptyOrControl { field } => field.name()
                + " is empty, too long, or contains controls"@,
            AlarmDraftError::TooLong { field, .. } => field.name()
                + " is empty, too long, or contains controls"@,
            AlarmDraftError::TimeZoneTooShort => "time zone must contain at least three characters"@,
            AlarmDraftError::LocalTimeInvalid => "local time must be HH:MM or HH:MM:SS"@,
            AlarmDraftError::WeekdaysInvalid => "weekdays must contain one to seven unique values from 0 through 6"@,
            AlarmDraftError::VolumeInvalid => "volume must be between 0 and 1"@,
            AlarmDraftError::GradualSecondsInvalid => "gradual seconds must not exceed 1800"@,
            AlarmDraftError::TooManyTags => "at most 20 unique tags are allowed"@,
        }
    }

    /// The human-readable description of the error.
    pub fn message(&self) -> (r: String)
        ensures
            r@ == self.message_text(),
    {
        match self {
            AlarmDraftError::EmptyOrControl { field } | AlarmDraftError::TooLong { field, .. } => {
                let mut s = String::from_str(field.as_str());
                s.append(" is empty, too long, or contains controls");
                s
            },
            AlarmDraftError::TimeZoneTooShort => String::from_str(
                "time zone must contain at least three characters",
            ),
            AlarmDraftError::LocalTimeInvalid => String::from_str(
                "local time must be HH:MM or HH:MM:SS",
            ),
            AlarmDraftError::WeekdaysInvalid => String::from_str(
                "weekdays must contain one to seven unique values from 0 through 6",
            ),
            AlarmDraftError::VolumeInvalid => String::from_str("volume must be between 0 and 1"),
            AlarmDraftError::GradualSecondsInvalid => String::from_str(
                "gradual seconds must not exceed 1800",
            ),
            AlarmDraftError::TooManyTags => String::from_str("at most 20 unique tags are allowed"),
        }
    }
}

/// A wall-clock time of day parsed from `HH:MM` or `HH:MM:SS`.
#[derive(Debug, Clone, Copy, PartialEq, Eq)]
pub struct LocalTime<'a> {
    pub hour: u8,
    pub minute: u8,
    pub second: Option<u8>,
    pub as_text: &'a str,
}

/// Which error, if any, a text field of at most `max` bytes draws: it must be
/// non-empty and free of control characters, then short enough.
pub open spec fn text_check(value: Seq<char>, max: usize, field: DraftField) -> Option<
    AlarmDraftError,
> {
    if value.len() == 0 || has_control_char(value) {
        Some(AlarmDraftError::EmptyOrControl { field })
    } else if utf8_len(value) > max {
        Some(AlarmDraftError::TooLong { field, max })
    } else {
        None
    }
}

fn bounded_text(value: &str, max: usize, field: DraftField) -> (r: Result<String, AlarmDraftError>)
    ensures
        match r {
            Ok(s) => text_check(value@, max, field) is None && s@ == value@,
            Err(e) => text_check(value@, max, field) == Some(e),
        },
{
    if value.is_empty() || has_control(value) {
        return Err(AlarmDraftError::EmptyOrControl { field });
    }
    if byte_len(value) > max {
        return Err(AlarmDraftError::TooLong { field, max });
    }
    Ok(value.to_owned())
}

/// Accepts a wake-up ramp of at most 1800 seconds and returns it unchanged.
pub fn accept_gradual_seconds(seconds: u32) -> (r: Result<u32, AlarmDraftError>)
    ensures
        match r {
            Ok(v) => v == seconds && seconds <= 1800,
            Err(e) => e == AlarmDraftError::GradualSecondsInvalid && seconds > 1800,
        },
{
    if seconds <= MAX_GRADUAL_SECONDS {
        Ok(seconds)
    } else {
        Err(AlarmDraftError::GradualSecondsInvalid)
    }
}

/// Whether the `f32` whose bit pattern is `bits` is finite and lies in
/// `0.0..=1.0`: the non-negative values up to 1.0 are exactly the patterns
/// up to that of 1.0, and -0.0 compares equal to 0.0.
pub open spec fn volume_in_range(bits: u32) -> bool {
    bits <= VOLUME_ONE_BITS || bits == VOLUME_NEGATIVE_ZERO_BITS
}

/// Accepts a volume, given as the bit pattern of an `f32`, that is finite and
/// between 0 and 1 inclusive, and returns it unchanged.
pub fn accept_volume_bits(bits: u32) -> (r: Result<u32, AlarmDraftError>)
    ensures
        match r {
            Ok(v) => v == bits && volume_in_range(bits),
            Err(e) => e == AlarmDraftError::VolumeInvalid && !volume_in_range(bits),
        },
{
    if bits <= VOLUME_ONE_BITS || bits == VOLUME_NEGATIVE_ZERO_BITS {
        Ok(bits)
    } else {
        Err(AlarmDraftError::VolumeInvalid)
    }
}

/// The value of a clock piece made of exactly two ASCII digits, if it is at
/// most `max`.
pub open spec fn two_digit_unit(piece: Seq<char>, max: u8) -> Option<u8> {
    if piece.len() == 2 && is_ascii_digit(piece[0]) && is_ascii_digit(piece[1]) && digit_value(
        piece[0],
    ) * 10 + digit_value(piece[1]) <= max {
        Some((digit_value(piece[0]) * 10 + digit_value(piece[1])) as u8)
    } else {
        None
    }
}

/// Hour, minute and optional second of a text of the form `HH:MM` or
/// `HH:MM:SS` with hour at most 23 and minute and second at most 59.
pub open spec fn clock_fields(s: Seq<char>) -> Option<(u8, u8, Option<u8>)> {
    let p = split_on(s, ':');
    if p.len() == 2 {
        match (two_digit_unit(p[0], 23), two_digit_unit(p[1], 59)) {
            (Some(h), Some(m)) => Some((h, m, None)),
            _ => None,
        }
    } else if p.len() == 3 {
        match (two_digit_unit(p[0], 23), two_digit_unit(p[1], 59), two_digit_unit(p[2], 59)) {
            (Some(h), Some(m), Some(sec)) => Some((h, m, Some(sec))),
            _ => None,
        }
    } else {
        None
    }
}

fn parse_two_digit_unit(piece: PieceSketch, max: u8, Ghost(p): Ghost<Seq<char>>) -> (r: Result<
    u8,
    AlarmDraftError,
>)
    requires
        sketches(piece, p),
    ensures
        match r {
            Ok(v) => two_digit_unit(p, max) == Some(v),
            Err(e) => e == AlarmDraftError::LocalTimeInvalid && two_digit_unit(p, max) is None,
        },
{
    if piece.len == 2 && '0' <= piece.first && piece.first <= '9' && '0' <= piece.second
        && piece.second <= '9' {
        let tens = (piece.first as u32 - '0' as u32) as u8;
        let ones = (piece.second as u32 - '0' as u32) as u8;
        let value = tens * 10 + ones;
        if value <= max {
            Ok(value)
        } else {
            Err(AlarmDraftError::LocalTimeInvalid)
        }
    } else {
        Err(AlarmDraftError::LocalTimeInvalid)
    }
}

fn decode_clock<'a>(text: &'a str, pieces: &ColonPieces) -> (r: Result<
    LocalTime<'a>,
    AlarmDraftError,
>)
    requires
        describes(*pieces, text@),
        pieces.count == 2 || pieces.count == 3,
    ensures
        match r {
            Ok(t) => clock_fields(text@) == Some((t.hour, t.minute, t.second)) && t.as_text
                == text,
            Err(e) => e == AlarmDraftError::LocalTimeInvalid && clock_fields(text@) is None,
        },
{
    let ghost p = split_on(text@, ':');
    let hour = parse_two_digit_unit(pieces.p0, 23, Ghost(p[0]))?;
    let minute = parse_two_digit_unit(pieces.p1, 59, Ghost(p[1]))?;
    let second = if pieces.count == 3 {
        Some(parse_two_digit_unit(pieces.p2, 59, Ghost(p[2]))?)
    } else {
        None
    };
    Ok(LocalTime { hour, minute, second, as_text: text })
}

/// Parses `HH:MM` or `HH:MM:SS`; every other shape is refused.
pub fn parse_local_time(value: &str) -> (r: Result<LocalTime<'_>, AlarmDraftError>)
    ensures
        match r {
            Ok(t) => clock_fields(value@) == Some((t.hour, t.minute, t.second)) && t.as_text
                == value,
            Err(e) => e == AlarmDraftError::LocalTimeInvalid && clock_fields(value@) is None,
        },
{
    let pieces = colon_pieces(value);
    if pieces.count == 2 || pieces.count == 3 {
        decode_clock(value, &pieces)
    } else {
        Err(AlarmDraftError::LocalTimeInvalid)
    }
}

/// Weekday numbers a draft may hold: at least one, each from 0 through 6.
pub open spec fn weekdays_acceptable(days: Seq<u8>) -> bool {
    days.len() > 0 && forall|i: int| 0 <= i < days.len() ==> #[trigger] days[i] <= 6
}

pub open spec fn strictly_increasing(v: Seq<u8>) -> bool {
    forall|i: int, j: int| 0 <= i < j < v.len() ==> v[i] < v[j]
}

/// Sorts, removes repeats from and bounds weekday numbers, leaving the input
/// untouched.
pub fn normalize_weekdays(days: &[u8]) -> (r: Result<Vec<u8>, AlarmDraftError>)
    ensures
        match r {
            Ok(v) => weekdays_acceptable(days@) && strictly_increasing(v@) && v@.to_set()
                == days@.to_set() && 1 <= v@.len() <= 7,
            Err(e) => e == AlarmDraftError::WeekdaysInvalid && !weekdays_acceptable(days@),
        },
{
    if days.len() == 0 {
        return Err(AlarmDraftError::WeekdaysInvalid);
    }
    let mut present: Vec<bool> = Vec::new();
    for k in 0..7usize
        invariant
            present@.len() == k,
            forall|j: int| 0 <= j < k ==> !present@[j],
    {
        present.push(false);
    }
    for i in 0..days.len()
        invariant
            present@.len() == 7,
            forall|j: int|
                0 <= j < 7 ==> (present@[j] <==> exists|t: int|
                    0 <= t < i && #[trigger] days@[t] == j),
            forall|t: int| 0 <= t < i ==> #[trigger] days@[t] <= 6,
    {
        let d = days[i];
        if d > 6 {
            return Err(AlarmDraftError::WeekdaysInvalid);
        }
        present.set(d as usize, true);
        assert forall|j: int| 0 <= j < 7 implies (present@[j] <==> exists|t: int|
            0 <= t < i + 1 && #[trigger] days@[t] == j) by {
            if j == d {
                assert(days@[i as int] == j);
            }
        }
    }
    let mut out: Vec<u8> = Vec::new();
    for k in 0..7u8
        invariant
            present@.len() == 7,
            forall|j: int|
                0 <= j < 7 ==> (present@[j] <==> exists|t: int|
                    0 <= t < days@.len() && #[trigger] days@[t] == j),
            strictly_increasing(out@),
            out@.len() <= k,
            forall|t: int| 0 <= t < out@.len() ==> #[trigger] out@[t] < k,
            forall|x: u8| out@.contains(x) <==> (x < k && present@[x as int]),
    {
        let ghost old_out = out@;
        if present[k as usize] {
            out.push(k);
        }
        assert forall|x: u8| out@.contains(x) <==> (x < k + 1 && present@[x as int]) by {
            if out@.contains(x) {
                let t = choose|t: int| 0 <= t < out@.len() && #[trigger] out@[t] == x;
                if t < old_out.len() {
                    assert(old_out[t] == x);
                }
            }
            if x < k + 1 && present@[x as int] {
                if x < k {
                    let t = choose|t: int| 0 <= t < old_out.len() && #[trigger] old_out[t] == x;
                    assert(out@[t] == x);
                } else {
                    assert(out@[out@.len() - 1] == x);
                }
            }
        }
    }
    proof {
        assert forall|x: u8| out@.contains(x) <==> days@.contains(x) by {
            if days@.contains(x) {
                let t = choose|t: int| 0 <= t < days@.len() && days@[t] == x;
                assert(days@[t] <= 6);
            }
        }
        assert(out@.to_set() =~= days@.to_set());
        assert(days@.contains(days@[0]));
    }
    Ok(out)
}

pub open spec fn texts(s: Seq<String>) -> Seq<Seq<char>> {
    s.map_values(|t: String| t@)
}

pub open spec fn strictly_sorted_texts(v: Seq<Seq<char>>) -> bool {
    forall|i: int, j: int| 0 <= i < j < v.len() ==> text_lt(v[i], v[j])
}

/// The error of the first tag, in order, that is not an acceptable tag text.
pub open spec fn first_tag_error(ts: Seq<Seq<char>>) -> Option<AlarmDraftError>
    decreases ts.len(),
{
    if ts.len() == 0 {
        None
    } else {
        match first_tag_error(ts.drop_last()) {
            Some(e) => Some(e),
            None => text_check(ts.last(), 40, DraftField::Tag),
        }
    }
}

proof fn lemma_first_tag_error_prefix(ts: Seq<Seq<char>>, k: int)
    requires
        0 <= k <= ts.len(),
        first_tag_error(ts.take(k)) is Some,
    ensures
        first_tag_error(ts) == first_tag_error(ts.take(k)),
    decreases ts.len() - k,
{
    if k < ts.len() {
        assert(ts.drop_last().take(k) =~= ts.take(k));
        lemma_first_tag_error_prefix(ts.drop_last(), k);
    } else {
        assert(ts.take(k) =~= ts);
    }
}

/// A sequence of texts in strictly increasing order has no repeats.
pub proof fn lemma_sorted_texts_distinct(v: Seq<Seq<char>>)
    requires
        strictly_sorted_texts(v),
    ensures
        v.no_duplicates(),
        v.to_set().len() == v.len(),
{
    assert forall|i: int, j: int| 0 <= i < v.len() && 0 <= j < v.len() && i != j implies v[i]
        != v[j] by {
        lemma_text_order(v[i], v[j], v[j]);
        lemma_text_order(v[j], v[i], v[i]);
    }
    v.unique_seq_to_set();
}

/// Bounds, sorts and removes repeats from tags, leaving the input untouched.
pub fn normalize_tags(tags: &[String]) -> (r: Result<Vec<String>, AlarmDraftError>)
    ensures
        match r {
            Ok(v) => first_tag_error(texts(tags@)) is None && texts(tags@).to_set().len() <= 20
                && strictly_sorted_texts(texts(v@)) && texts(v@).to_set() == texts(
                tags@,
            ).to_set(),
            Err(e) => match first_tag_error(texts(tags@)) {
                Some(e0) => e == e0,
                None => e == AlarmDraftError::TooManyTags && texts(tags@).to_set().len() > 20,
            },
        },
{
    let ghost ts = texts(tags@);
    let mut out: Vec<String> = Vec::new();
    assert(ts.take(0) =~= Seq::<Seq<char>>::empty());
    assert(texts(out@) =~= Seq::<Seq<char>>::empty());
    for i in 0..tags.len()
        invariant
            ts == texts(tags@),
            first_tag_error(ts.take(i as int)) is None,
            strictly_sorted_texts(texts(out@)),
            texts(out@).to_set() == ts.take(i as int).to_set(),
    {
        assert(ts.take(i + 1).drop_last() =~= ts.take(i as int));
        assert(ts.take(i + 1).last() == tags@[i as int]@);
        let tag = match bounded_text(tags[i].as_str(), MAX_TAG_CHARS, DraftField::Tag) {
            Ok(t) => t,
            Err(e) => {
                proof {
                    lemma_first_tag_error_prefix(ts, i + 1);
                }
                return Err(e);
            },
        };
        let ghost before = texts(out@);
        let mut j: usize = 0;
        while j < out.len() && compare_text(out[j].as_str(), tag.as_str()) == TextOrder::Less
            invariant
                before == texts(out@),
                j <= out@.len(),
                forall|t: int| 0 <= t < j ==> text_lt(#[trigger] before[t], tag@),
            decreases out@.len() - j,
        {
            j = j + 1;
        }
        if j < out.len() && compare_text(out[j].as_str(), tag.as_str()) == TextOrder::Equal {
            proof {
                assert(before[j as int] == tag@);
                assert forall|x: Seq<char>| #[trigger]
                    before.to_set().contains(x) == ts.take(i + 1).to_set().contains(x) by {
                    if x == tag@ {
                        assert(before.contains(x));
                        assert(ts.take(i + 1)[i as int] == x);
                    }
                    if ts.take(i + 1).to_set().contains(x) {
                        let t = choose|t: int|
                            0 <= t < ts.take(i + 1).len() && #[trigger] ts.take(i + 1)[t] == x;
                        if t < i {
                            assert(ts.take(i as int)[t] == x);
                        }
                    }
                    if before.to_set().contains(x) {
                        assert(ts.take(i as int).to_set().contains(x));
                        let t = choose|t: int| 0 <= t < ts.take(i as int).len() && #[trigger] ts.take(i as int)[t] == x;
                        assert(ts.take(i + 1)[t] == x);
                    }
                }
                assert(before.to_set() =~= ts.take(i + 1).to_set());
            }
        } else {
            proof {
                if j < out@.len() {
                    lemma_text_order(tag@, before[j as int], tag@);
                }
            }
            out.insert(j, tag);
            proof {
                let now = texts(out@);
                assert(now =~= before.insert(j as int, tag@));
                assert forall|a: int, b: int| 0 <= a < b < now.len() implies text_lt(
                    now[a],
                    now[b],
                ) by {
                    if b < j {
                    } else if a < j && b == j {
                    } else if a < j && b > j {
                        lemma_text_order(before[a], tag@, before[b - 1]);
                    } else if a == j {
                        if b - 1 > j {
                            lemma_text_order(tag@, before[j as int], before[b - 1]);
                        }
                    } else {
                    }
                }
                assert forall|x: Seq<char>| #[trigger]
                    now.to_set().contains(x) == ts.take(i + 1).to_set().contains(x) by {
                    if x == tag@ {
                        assert(now[j as int] == x);
                        assert(ts.take(i + 1)[i as int] == x);
                    }
                    if ts.take(i + 1).to_set().contains(x) && x != tag@ {
                        let t = choose|t: int|
                            0 <= t < ts.take(i + 1).len() && #[trigger] ts.take(i + 1)[t] == x;
                        assert(t < i);
                        assert(ts.take(i as int)[t] == x);
                        assert(before.to_set().contains(x));
                        let u = choose|u: int| 0 <= u < before.len() && #[trigger] before[u] == x;
                        if u < j {
                            assert(now[u] == x);
                        } else {
                            assert(now[u + 1] == x);
                        }
                    }
                    if now.to_set().contains(x) && x != tag@ {
                        let u = choose|u: int| 0 <= u < now.len() && #[trigger] now[u] == x;
                        if u < j {
                            assert(before[u] == x);
                        } else {
                            assert(before[u - 1] == x);
                        }
                        assert(before.to_set().contains(x));
                        assert(ts.take(i as int).to_set().contains(x));
                        let t = choose|t: int| 0 <= t < ts.take(i as int).len() && #[trigger] ts.take(i as int)[t] == x;
                        assert(ts.take(i + 1)[t] == x);
                    }
                }
                assert(now.to_set() =~= ts.take(i + 1).to_set());
            }
        }
    }
    proof {
        assert(ts.take(tags@.len() as int) =~= ts);
        lemma_sorted_texts_distinct(texts(out@));
    }
    if out.len() > MAX_TAGS {
        Err(AlarmDraftError::TooManyTags)
    } else {
        Ok(out)
    }
}

/// Already-resolved create-alarm inputs. Callers mint identifiers and read
/// flags. The volume is carried as the bit pattern of its `f32` value
/// (`f32::to_bits`).
#[derive(Debug, Clone, PartialEq)]
pub struct AlarmDraft<'a> {
    pub transition_id: &'a str,
    pub label: &'a str,
    pub local_time: &'a str,
    pub time_zone: &'a str,
    pub weekdays: &'a [u8],
    pub enabled: bool,
    pub sound: &'a str,
    pub volume_bits: u32,
    pub gradual_seconds: u32,
    pub tags: &'a [String],
}

/// The validated body of an alarm-create request. The volume is the bit
/// pattern of its `f32` value.
#[derive(Debug, Clone, PartialEq)]
pub struct CreateAlarmRequest {
    pub transition_id: String,
    pub label: String,
    pub local_time: String,
    pub time_zone: String,
    pub weekdays: Vec<u8>,
    pub enabled: bool,
    pub sound: String,
    pub volume_bits: u32,
    pub gradual_seconds: u32,
    pub tags: Vec<String>,
}

/// What a [`CreateAlarmRequest`] holds, as mathematical values.
pub struct AlarmRequestView {
    pub transition_id: Seq<char>,
    pub label: Seq<char>,
    pub local_time: Seq<char>,
    pub time_zone: Seq<char>,
    pub weekdays: Seq<u8>,
    pub enabled: bool,
    pub sound: Seq<char>,
    pub volume_bits: u32,
    pub gradual_seconds: u32,
    pub tags: Seq<Seq<char>>,
}

impl View for CreateAlarmRequest {
    type V = AlarmRequestView;

    open spec fn view(&self) -> AlarmRequestView {
        AlarmRequestView {
            transition_id: self.transition_id@,
            label: self.label@,
            local_time: self.local_time@,
            time_zone: self.time_zone@,
            weekdays: self.weekdays@,
            enabled: self.enabled,
            sound: self.sound@,
            volume_bits: self.volume_bits,
            gradual_seconds: self.gradual_seconds,
            tags: texts(self.tags@),
        }
    }
}

/// The first check, in the order the draft's fields are checked, that the
/// draft fails.
pub open spec fn draft_error(d: AlarmDraft) -> Option<AlarmDraftError> {
    if text_check(d.label@, 120, DraftField::Label) is Some {
        text_check(d.label@, 120, DraftField::Label)
    } else if clock_fields(d.local_time@) is None {
        Some(AlarmDraftError::LocalTimeInvalid)
    } else if text_check(d.time_zone@, 64, DraftField::TimeZone) is Some {
        text_check(d.time_zone@, 64, DraftField::TimeZone)
    } else if utf8_len(d.time_zone@) < 3 {
        Some(AlarmDraftError::TimeZoneTooShort)
    } else if !weekdays_acceptable(d.weekdays@) {
        Some(AlarmDraftError::WeekdaysInvalid)
    } else if text_check(d.sound@, 128, DraftField::Sound) is Some {
        text_check(d.sound@, 128, DraftField::Sound)
    } else if !volume_in_range(d.volume_bits) {
        Some(AlarmDraftError::VolumeInvalid)
    } else if d.gradual_seconds > 1800 {
        Some(AlarmDraftError::GradualSecondsInvalid)
    } else if first_tag_error(texts(d.tags@)) is Some {
        first_tag_error(texts(d.tags@))
    } else if texts(d.tags@).to_set().len() > 20 {
        Some(AlarmDraftError::TooManyTags)
    } else {
        None
    }
}

/// A request holds the draft's values, with weekdays and tags in their
/// normal form: strictly increasing, and the same set as the draft's.
pub open spec fn request_matches_draft(q: AlarmRequestView, d: AlarmDraft) -> bool {
    &&& q.transition_id == d.transition_id@
    &&& q.label == d.label@
    &&& q.local_time == d.local_time@
    &&& q.time_zone == d.time_zone@
    &&& strictly_increasing(q.weekdays)
    &&& q.weekdays.to_set() == d.weekdays@.to_set()
    &&& q.enabled == d.enabled
    &&& q.sound == d.sound@
    &&& q.volume_bits == d.volume_bits
    &&& q.gradual_seconds == d.gradual_seconds
    &&& strictly_sorted_texts(q.tags)
    &&& q.tags.to_set() == texts(d.tags@).to_set()
}

/// Validates a draft and normalizes it into a request.
pub fn build_create_alarm_request(draft: AlarmDraft<'_>) -> (r: Result<
    CreateAlarmRequest,
    AlarmDraftError,
>)
    ensures
        match r {
            Ok(q) => draft_error(draft) is None && request_matches_draft(q@, draft),
            Err(e) => draft_error(draft) == Some(e),
        },
{
    let label = bounded_text(draft.label, MAX_LABEL_CHARS, DraftField::Label)?;
    let local_time = parse_local_time(draft.local_time)?;
    let time_zone = bounded_text(draft.time_zone, MAX_TIME_ZONE_CHARS, DraftField::TimeZone)?;
    if byte_len(time_zone.as_str()) < MIN_TIME_ZONE_CHARS {
        return Err(AlarmDraftError::TimeZoneTooShort);
    }
    let weekdays = normalize_weekdays(draft.weekdays)?;
    let sound = bounded_text(draft.sound, MAX_SOUND_CHARS, DraftField::Sound)?;
    let volume_bits = accept_volume_bits(draft.volume_bits)?;
    let gradual_seconds = accept_gradual_seconds(draft.gradual_seconds)?;
    let tags = normalize_tags(draft.tags)?;
    Ok(
        CreateAlarmRequest {
            transition_id: draft.transition_id.to_owned(),
            label,
            local_time: local_time.as_text.to_owned(),
            time_zone,
            weekdays,
            enabled: draft.enabled,
            sound,
            volume_bits,
            gradual_seconds,
            tags,
        },
    )
}

} // verus!
