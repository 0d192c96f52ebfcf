//! Properties that relate several functions of the library, or several calls.
use vstd::prelude::*;
use crate::alarm_draft::{
    clock_fields, draft_error, strictly_increasing, strictly_sorted_texts, text_check, texts,
    weekdays_acceptable, AlarmDraft, DraftField,
};
use crate::cli::{
    command_name, command_named, decimal_digits, digit_char, event_name, event_named, token_acceptable, Command,
    TransitionEvent, alarm_settings_error, bool_outcome, lemma_first_tag_error_none, local_time_accepted,
    number_outcome, setting, text_acceptable, CliErrorView, ALARM_ENABLED_KEY,
    ALARM_GRADUAL_SECONDS_KEY, ALARM_LABEL_KEY, ALARM_LOCAL_TIME_KEY, ALARM_SOUND_KEY,
    ALARM_TAGS_KEY, ALARM_TIME_ZONE_KEY, ALARM_VOLUME_KEY, ALARM_WEEKDAYS_KEY,
};
use crate::text::{
    all_digits, decimal_value, digit_value, is_ascii_digit, joined, unsigned_from_str, lemma_bytes_lt_lexicographic, lemma_split_append_plain,
    lemma_split_joined, lemma_text_order, split_on, text_lt,
};
use vstd::utf8::encode_utf8;

verus! {

/// Weekday lists have one normal form: two strictly increasing lists of the
/// same weekdays are equal. So `normalize_weekdays` gives the same list for
/// any order of, and any repeats in, the same weekdays.
pub proof fn law_weekday_normal_form_is_unique(a: Seq<u8>, b: Seq<u8>)
    requires
        strictly_increasing(a),
        strictly_increasing(b),
        a.to_set() == b.to_set(),
    ensures
        a == b,
    decreases a.len(),
{
    if a.len() == 0 {
        if b.len() > 0 {
            assert(b.to_set().contains(b[0]));
        }
        assert(a =~= b);
    } else {
        assert(a.to_set().contains(a[0]));
        assert(b.to_set().contains(a[0]));
        let j = choose|j: int| 0 <= j < b.len() && b[j] == a[0];
        assert(b.to_set().contains(b[0]));
        let i = choose|i: int| 0 <= i < a.len() && a[i] == b[0];
        assert(j == 0) by {
            if j > 0 {
                assert(b[0] < b[j]);
                if i > 0 {
                    assert(a[0] < a[i]);
                }
            }
        }
        let a1 = a.drop_first();
        let b1 = b.drop_first();
        assert forall|x: u8| a1.to_set().contains(x) <==> b1.to_set().contains(x) by {
            if a1.to_set().contains(x) {
                let k = choose|k: int| 0 <= k < a1.len() && a1[k] == x;
                assert(a[k + 1] == x);
                assert(a[0] < a[k + 1]);
                assert(a.to_set().contains(x));
                let t = choose|t: int| 0 <= t < b.len() && b[t] == x;
                assert(t != 0);
                assert(b1[t - 1] == x);
            }
            if b1.to_set().contains(x) {
                let k = choose|k: int| 0 <= k < b1.len() && b1[k] == x;
                assert(b[k + 1] == x);
                assert(b[0] < b[k + 1]);
                assert(b.to_set().contains(x));
                let t = choose|t: int| 0 <= t < a.len() && a[t] == x;
                assert(t != 0);
                assert(a1[t - 1] == x);
            }
        }
        assert(a1.to_set() =~= b1.to_set());
        law_weekday_normal_form_is_unique(a1, b1);
        assert(a =~= b) by {
            assert forall|k: int| 0 <= k < a.len() implies a[k] == b[k] by {
                if k > 0 {
                    assert(a[k] == a1[k - 1]);
                    assert(b[k] == b1[k - 1]);
                }
            }
        }
    }
}

/// Normalizing weekdays twice gives what normalizing once gives: a list that
/// `normalize_weekdays` returned is returned unchanged when normalized again.
pub proof fn law_normalize_weekdays_is_idempotent(days: Seq<u8>, once: Seq<u8>, twice: Seq<u8>)
    requires
        weekdays_acceptable(days),
        strictly_increasing(once),
        once.to_set() == days.to_set(),
        strictly_increasing(twice),
        twice.to_set() == once.to_set(),
    ensures
        twice == once,
{
    law_weekday_normal_form_is_unique(twice, once);
}

/// Tag lists have one normal form: two lists of texts in strictly increasing
/// byte order holding the same texts are equal. So `normalize_tags` gives the
/// same list for any order of, and any repeats in, the same tags.
pub proof fn law_tag_normal_form_is_unique(a: Seq<Seq<char>>, b: Seq<Seq<char>>)
    requires
        strictly_sorted_texts(a),
        strictly_sorted_texts(b),
        a.to_set() == b.to_set(),
    ensures
        a == b,
    decreases a.len(),
{
    if a.len() == 0 {
        if b.len() > 0 {
            assert(b.to_set().contains(b[0]));
        }
        assert(a =~= b);
    } else {
        assert(a.to_set().contains(a[0]));
        assert(b.to_set().contains(a[0]));
        let j = choose|j: int| 0 <= j < b.len() && b[j] == a[0];
        assert(b.to_set().contains(b[0]));
        let i = choose|i: int| 0 <= i < a.len() && a[i] == b[0];
        assert(j == 0) by {
            if j > 0 {
                assert(text_lt(b[0], b[j]));
                if i > 0 {
                    assert(text_lt(a[0], a[i]));
                    lemma_text_order(b[0], a[0], b[0]);
                } else {
                    lemma_text_order(b[0], b[0], b[0]);
                }
            }
        }
        let a1 = a.drop_first();
        let b1 = b.drop_first();
        assert forall|x: Seq<char>| a1.to_set().contains(x) <==> b1.to_set().contains(x) by {
            if a1.to_set().contains(x) {
                let k = choose|k: int| 0 <= k < a1.len() && a1[k] == x;
                assert(a[k + 1] == x);
                assert(text_lt(a[0], a[k + 1]));
                lemma_text_order(a[0], a[0], a[0]);
                assert(a.to_set().contains(x));
                let t = choose|t: int| 0 <= t < b.len() && b[t] == x;
                assert(t != 0);
                assert(b1[t - 1] == x);
            }
            if b1.to_set().contains(x) {
                let k = choose|k: int| 0 <= k < b1.len() && b1[k] == x;
                assert(b[k + 1] == x);
                assert(text_lt(b[0], b[k + 1]));
                lemma_text_order(b[0], b[0], b[0]);
                assert(b.to_set().contains(x));
                let t = choose|t: int| 0 <= t < a.len() && a[t] == x;
                assert(t != 0);
                assert(a1[t - 1] == x);
            }
        }
        assert(a1.to_set() =~= b1.to_set());
        law_tag_normal_form_is_unique(a1, b1);
        assert(a =~= b) by {
            assert forall|k: int| 0 <= k < a.len() implies a[k] == b[k] by {
                if k > 0 {
                    assert(a[k] == a1[k - 1]);
                    assert(b[k] == b1[k - 1]);
                }
            }
        }
    }
}

/// The draft's text rule and the settings' text rule accept the same texts;
/// they differ only in the error they name.
pub proof fn law_text_rules_agree(value: Seq<char>, max: usize, field: DraftField)
    ensures
        text_check(value, max, field) is None <==> text_acceptable(value, max as nat),
{
}

/// The settings' time-of-day check and the draft's parser accept the same
/// texts.
pub proof fn law_clock_rules_agree(s: Seq<char>)
    ensures
        local_time_accepted(s) <==> clock_fields(s) is Some,
{
}

/// Settings and a draft that hold the same values are accepted or refused
/// alike: the settings-side request builder accepts them exactly when the
/// draft builder accepts the draft.
pub proof fn law_settings_and_draft_agree(
    m: Map<Seq<char>, Seq<char>>,
    weekdays: Option<Seq<u8>>,
    tags: Option<Seq<Seq<char>>>,
    volume_bits: Option<u32>,
    d: AlarmDraft,
)
    requires
        setting(m, ALARM_LABEL_KEY@) == Some(d.label@),
        setting(m, ALARM_LOCAL_TIME_KEY@) == Some(d.local_time@),
        setting(m, ALARM_TIME_ZONE_KEY@) == Some(d.time_zone@),
        setting(m, ALARM_WEEKDAYS_KEY@) is Some,
        weekdays == Some(d.weekdays@),
        bool_outcome(m, ALARM_ENABLED_KEY@) == Ok::<bool, CliErrorView>(d.enabled),
        setting(m, ALARM_SOUND_KEY@) == Some(d.sound@),
        setting(m, ALARM_VOLUME_KEY@) is Some,
        volume_bits == Some(d.volume_bits),
        number_outcome(m, ALARM_GRADUAL_SECONDS_KEY@, u32::MAX as nat) == Ok::<nat, CliErrorView>(
            d.gradual_seconds as nat,
        ),
        setting(m, ALARM_TAGS_KEY@) is Some,
        tags == Some(texts(d.tags@)),
    ensures
        alarm_settings_error(m, true, weekdays, tags, volume_bits) is None <==> draft_error(d) is None,
{
    lemma_first_tag_error_none(texts(d.tags@));
    let ts = texts(d.tags@);
    if exists|i: int| 0 <= i < ts.len() && !text_acceptable(#[trigger] ts[i], 40) {
        let i = choose|i: int| 0 <= i < ts.len() && !text_acceptable(#[trigger] ts[i], 40);
        assert(text_check(ts[i], 40, DraftField::Tag) is Some);
    }
}

/// Each event name stands for the event of that name and no other: a name
/// gives an event exactly when it is that event's name, so the six names give
/// six different events.
pub proof fn law_event_names_round_trip(name: Seq<char>, e: TransitionEvent)
    ensures
        event_named(name) == Some(e) <==> name == event_name(e),
{
    reveal_strlit("fire");
    assert("fire"@.len() == 4 && "fire"@[0] == 'f');
    reveal_strlit("acknowledge");
    assert("acknowledge"@.len() == 11 && "acknowledge"@[0] == 'a');
    reveal_strlit("snooze");
    assert("snooze"@.len() == 6 && "snooze"@[0] == 's');
    reveal_strlit("complete");
    assert("complete"@.len() == 8 && "complete"@[0] == 'c');
    reveal_strlit("mark_missed");
    assert("mark_missed"@.len() == 11 && "mark_missed"@[0] == 'm');
    reveal_strlit("cancel");
    assert("cancel"@.len() == 6 && "cancel"@[0] == 'c');
}

/// Different events have different names.
pub proof fn law_event_names_are_distinct(a: TransitionEvent, b: TransitionEvent)
    ensures
        event_name(a) == event_name(b) ==> a == b,
{
    law_event_names_round_trip(event_name(a), a);
    law_event_names_round_trip(event_name(a), b);
}

/// Each command name stands for the command of that name and no other: a
/// name gives a command exactly when it is that command's name.
pub proof fn law_command_names_round_trip(name: Seq<char>, c: Command)
    ensures
        command_named(name) == Some(c) <==> name == command_name(c),
{
    reveal_strlit("capabilities");
    assert("capabilities"@.len() == 12 && "capabilities"@[0] == 'c');
    reveal_strlit("verify");
    assert("verify"@.len() == 6 && "verify"@[0] == 'v');
    reveal_strlit("alarms list");
    assert("alarms list"@.len() == 11 && "alarms list"@[0] == 'a');
    reveal_strlit("alarms create");
    assert("alarms create"@.len() == 13 && "alarms create"@[0] == 'a');
    reveal_strlit("occurrences transition");
    assert("occurrences transition"@.len() == 22 && "occurrences transition"@[0] == 'o');
}

/// Different commands have different names.
pub proof fn law_command_names_are_distinct(a: Command, b: Command)
    ensures
        command_name(a) == command_name(b) ==> a == b,
{
    law_command_names_round_trip(command_name(a), a);
    law_command_names_round_trip(command_name(a), b);
}

/// Tags are ordered lexicographically by their UTF-8 bytes: `a` comes before
/// `b` exactly when, at the first index where their bytes differ, `a`'s byte
/// is the smaller, or when `a`'s bytes are a proper prefix of `b`'s.
pub proof fn law_text_order_is_lexicographic(a: Seq<char>, b: Seq<char>)
    ensures
        text_lt(a, b) <==> ({
            let x = encode_utf8(a);
            let y = encode_utf8(b);
            (exists|i: int| 0 <= i < x.len() && i < y.len() && x.take(i) == y.take(i) && x[i] < y[i])
                || (x.len() < y.len() && x == y.take(x.len() as int))
        }),
{
    lemma_bytes_lt_lexicographic(encode_utf8(a), encode_utf8(b));
}

/// A token is accepted exactly when it is non-empty, at most 16 KiB long, and
/// each of its bytes lies above the space character and is not DEL. So every
/// non-empty token of printable, non-space ASCII within the limit is
/// accepted, and so is one holding non-ASCII text.
pub proof fn law_token_bytes_above_space(t: Seq<char>)
    ensures
        token_acceptable(t) <==> (t.len() > 0 && encode_utf8(t).len() <= 16 * 1024 && forall|i: int|
            0 <= i < encode_utf8(t).len() ==> #[trigger] encode_utf8(t)[i] > 0x20
                && encode_utf8(t)[i] != 0x7F),
{
}

/// The clock fields of a text are the decimal values of its two-digit pieces:
/// the text is `HH:MM` or `HH:MM:SS` with ASCII digits, and hour, minute and
/// second are ten times the first digit of their piece plus the second.
pub proof fn law_clock_fields_are_the_digit_pairs(s: Seq<char>, h: u8, m: u8, sec: Option<u8>)
    requires
        clock_fields(s) == Some((h, m, sec)),
    ensures
        s.len() == (if sec is Some { 8int } else { 5int }),
        is_ascii_digit(s[0]) && is_ascii_digit(s[1]) && s[2] == ':' && is_ascii_digit(s[3])
            && is_ascii_digit(s[4]),
        h == 10 * digit_value(s[0]) + digit_value(s[1]) && h <= 23,
        m == 10 * digit_value(s[3]) + digit_value(s[4]) && m <= 59,
        sec is Some ==> s[5] == ':' && is_ascii_digit(s[6]) && is_ascii_digit(s[7]) && sec->0 == 10
            * digit_value(s[6]) + digit_value(s[7]) && sec->0 <= 59,
{
    let p = split_on(s, ':');
    lemma_split_joined(s, ':');
    if p.len() == 2 {
        let q = p.drop_last();
        assert(joined(q, ':') == p[0]);
        assert(s == joined(q, ':').push(':') + p[1]);
        assert(s =~= p[0].push(':') + p[1]);
    } else {
        let q = p.drop_last();
        let r = q.drop_last();
        assert(joined(r, ':') == p[0]);
        assert(joined(q, ':') == joined(r, ':').push(':') + p[1]);
        assert(s == joined(q, ':').push(':') + p[2]);
        assert(s =~= (p[0].push(':') + p[1]).push(':') + p[2]);
    }
}

/// Every `HH:MM` or `HH:MM:SS` text of ASCII digits with hour at most 23 and
/// minute and second at most 59 has clock fields.
pub proof fn law_clock_texts_are_accepted(s: Seq<char>)
    requires
        s.len() == 5 || s.len() == 8,
        is_ascii_digit(s[0]) && is_ascii_digit(s[1]) && s[2] == ':' && is_ascii_digit(s[3])
            && is_ascii_digit(s[4]),
        10 * digit_value(s[0]) + digit_value(s[1]) <= 23,
        10 * digit_value(s[3]) + digit_value(s[4]) <= 59,
        s.len() == 8 ==> s[5] == ':' && is_ascii_digit(s[6]) && is_ascii_digit(s[7]) && 10
            * digit_value(s[6]) + digit_value(s[7]) <= 59,
    ensures
        clock_fields(s) is Some,
{
    let e = Seq::<char>::empty();
    let p0 = s.subrange(0, 2);
    let p1 = s.subrange(3, 5);
    assert(!p0.contains(':')) by {
        if p0.contains(':') {
            let k = choose|k: int| 0 <= k < p0.len() && p0[k] == ':';
        }
    }
    assert(!p1.contains(':')) by {
        if p1.contains(':') {
            let k = choose|k: int| 0 <= k < p1.len() && p1[k] == ':';
        }
    }
    lemma_split_append_plain(e, p0, ':');
    assert(e + p0 =~= p0);
    assert(split_on(p0, ':') =~= seq![p0]);
    let a = p0.push(':');
    assert(a.drop_last() =~= p0);
    assert(split_on(a, ':') =~= seq![p0, e]);
    lemma_split_append_plain(a, p1, ':');
    assert(split_on(a + p1, ':') =~= seq![p0, p1]);
    if s.len() == 5 {
        assert(s =~= a + p1);
    } else {
        let p2 = s.subrange(6, 8);
        assert(!p2.contains(':')) by {
            if p2.contains(':') {
                let k = choose|k: int| 0 <= k < p2.len() && p2[k] == ':';
            }
        }
        let b = (a + p1).push(':');
        assert(b.drop_last() =~= a + p1);
        assert(split_on(b, ':') =~= seq![p0, p1, e]);
        lemma_split_append_plain(b, p2, ':');
        assert(split_on(b + p2, ':') =~= seq![p0, p1, p2]);
        assert(s =~= b + p2);
    }
}

/// Each decimal digit character reads back as the digit it writes.
proof fn lemma_digit_char_value(d: nat)
    requires
        d < 10,
    ensures
        is_ascii_digit(digit_char(d)),
        digit_value(digit_char(d)) == d,
{
}

/// The decimal text of a number is all digits and reads back as the number.
proof fn lemma_decimal_digits_value(n: nat)
    ensures
        decimal_digits(n).len() > 0,
        all_digits(decimal_digits(n)),
        decimal_value(decimal_digits(n)) == n,
    decreases n,
{
    if n < 10 {
        lemma_digit_char_value(n);
        let d = decimal_digits(n);
        assert(d.drop_last() =~= Seq::<char>::empty());
        assert(decimal_value(d.drop_last()) == 0);
        assert(decimal_value(d) == decimal_value(d.drop_last()) * 10 + digit_value(d.last()));
    } else {
        lemma_decimal_digits_value(n / 10);
        lemma_digit_char_value(n % 10);
        let d = decimal_digits(n);
        assert(d.drop_last() =~= decimal_digits(n / 10));
        assert(d.last() == digit_char(n % 10));
        assert((n / 10) * 10 + n % 10 == n) by (nonlinear_arith);
        assert(decimal_value(d) == decimal_value(d.drop_last()) * 10 + digit_value(d.last()));
        assert forall|i: int| 0 <= i < d.len() implies is_ascii_digit(#[trigger] d[i]) by {
            if i < d.len() - 1 {
                assert(d[i] == decimal_digits(n / 10)[i]);
            }
        }
    }
}

/// A number setting reads back every number written in decimal, with or
/// without a leading `+`, as long as it is within the type's largest value.
pub proof fn law_decimal_numbers_read_back(n: nat, max: nat)
    requires
        n <= max,
    ensures
        unsigned_from_str(decimal_digits(n), max) == Some(n),
        unsigned_from_str(seq!['+'] + decimal_digits(n), max) == Some(n),
{
    lemma_decimal_digits_value(n);
    let d = decimal_digits(n);
    assert(d[0] != '+');
    assert((seq!['+'] + d).drop_first() =~= d);
}

/// A yes-or-no setting reads as `true` exactly when it is the text `true`,
/// and as `false` exactly when it is the text `false`.
pub proof fn law_bool_setting_names_its_value(m: Map<Seq<char>, Seq<char>>, key: Seq<char>, b: bool)
    ensures
        bool_outcome(m, key) == Ok::<bool, CliErrorView>(b) <==> setting(m, key) == Some(
            if b {
                "true"@
            } else {
                "false"@
            },
        ),
{
    reveal_strlit("true");
    reveal_strlit("false");
    assert("true"@.len() == 4 && "false"@.len() == 5);
}

proof fn lemma_adjacent_chain(v: Seq<u8>, i: int, j: int)
    requires
        forall|k: int| 0 <= k < v.len() - 1 ==> #[trigger] v[k] < v[k + 1],
        0 <= i < j < v.len(),
    ensures
        v[i] < v[j],
    decreases j - i,
{
    if i + 1 < j {
        lemma_adjacent_chain(v, i, j - 1);
        assert(v[j - 1] < v[j]);
    } else {
        assert(v[i] < v[i + 1]);
    }
}

/// Normalised weekdays ascend: a list is in normal order exactly when each
/// day is below the one after it.
pub proof fn law_weekdays_ascend_step_by_step(v: Seq<u8>)
    ensures
        strictly_increasing(v) <==> forall|k: int| 0 <= k < v.len() - 1 ==> #[trigger] v[k] < v[k
            + 1],
{
    if forall|k: int| 0 <= k < v.len() - 1 ==> #[trigger] v[k] < v[k + 1] {
        assert forall|i: int, j: int| 0 <= i < j < v.len() implies v[i] < v[j] by {
            lemma_adjacent_chain(v, i, j);
        }
    }
    if strictly_increasing(v) {
        assert forall|k: int| 0 <= k < v.len() - 1 implies #[trigger] v[k] < v[k + 1] by {
            assert(0 <= k < k + 1 < v.len());
        }
    }
}

} // verus!
