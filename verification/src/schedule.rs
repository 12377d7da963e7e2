use vstd::prelude::*;

use chrono::{Datelike, Local, LocalResult, NaiveDate, NaiveDateTime, TimeZone, Timelike, Utc};

use crate::text::{all_digits, is_digit, lemma_nat_digits, nat_digits};

verus! {

/// A date and time without a time zone, as chrono holds it.
#[verifier::external_type_specification]
#[verifier::external_body]
pub struct ExNaiveDateTime(NaiveDateTime);

/// A date and time without a time zone, field by field. `nanosecond` may reach
/// 1_999_999_999, which chrono uses for a leap second.
#[derive(Clone, Copy, PartialEq, Eq, Structural, Debug)]
pub struct DateTimeFields {
    pub year: i32,
    pub month: u32,
    pub day: u32,
    pub hour: u32,
    pub minute: u32,
    pub second: u32,
    pub nanosecond: u32,
}

/// The ranges that the fields of every chrono date and time keep.
pub open spec fn valid_fields(f: DateTimeFields) -> bool {
    valid_time(fields_tuple(f))
}

/// The ranges of month, day, hour, minute, second and nanosecond, for a date and time
/// given as `(year, month, day, hour, minute, second, nanosecond)`.
pub open spec fn valid_time(t: (int, int, int, int, int, int, int)) -> bool {
    &&& 1 <= t.1 <= 12
    &&& 1 <= t.2 <= 31
    &&& 0 <= t.3 < 24
    &&& 0 <= t.4 < 60
    &&& 0 <= t.5 < 60
    &&& 0 <= t.6 < 2_000_000_000
}

/// Days in the years before `year` (with March as the first month), counted from a fixed
/// day, in the proleptic Gregorian calendar.
pub open spec fn year_base(year: int) -> int {
    365 * year + year / 4 - year / 100 + year / 400
}

/// Days from March 1 to the first day of `month`.
pub open spec fn month_offset(month: int) -> int {
    (153 * ((month + 9) % 12) + 2) / 5
}

/// The number of a calendar day, one more for each following day.
pub open spec fn day_count(year: int, month: int, day: int) -> int {
    let y = if month <= 2 {
        year - 1
    } else {
        year
    };
    year_base(y) + month_offset(month) + day - 1
}

/// The number of a whole second (leap seconds aside), one more for each following second.
pub open spec fn second_count(t: (int, int, int, int, int, int, int)) -> int {
    day_count(t.0, t.1, t.2) * 86400 + t.3 * 3600 + t.4 * 60 + t.5
}

/// Whether two dates and times lie less than a day apart.
pub open spec fn within_a_day(a: (int, int, int, int, int, int, int), b: (
    int,
    int,
    int,
    int,
    int,
    int,
    int,
)) -> bool {
    -86400 < second_count(a) - second_count(b) < 86400
}

/// Whether chrono's `NaiveDate::from_ymd_opt(year, month, day)`, then
/// `NaiveDate::and_hms_opt(hour, minute, second)`, then `with_nanosecond(nanosecond)` give a
/// date and time.
pub uninterp spec fn naive_datetime_exists(
    year: int,
    month: int,
    day: int,
    hour: int,
    minute: int,
    second: int,
    nanosecond: int,
) -> bool;

/// Whether chrono has a date and time with these fields.
pub open spec fn fields_exist(f: DateTimeFields) -> bool {
    naive_datetime_exists(
        f.year as int,
        f.month as int,
        f.day as int,
        f.hour as int,
        f.minute as int,
        f.second as int,
        f.nanosecond as int,
    )
}

/// The fields as a tuple of integers.
pub open spec fn fields_tuple(f: DateTimeFields) -> (int, int, int, int, int, int, int) {
    (
        f.year as int,
        f.month as int,
        f.day as int,
        f.hour as int,
        f.minute as int,
        f.second as int,
        f.nanosecond as int,
    )
}

/// The fields of the date and time that chrono's `NaiveDateTime::parse_from_str(text,
/// pattern)` reads, or `None` where it fails.
pub uninterp spec fn parsed_datetime(text: Seq<char>, pattern: Seq<char>) -> Option<
    (int, int, int, int, int, int, int),
>;

/// The pattern in which schedule times are written and stored.
pub open spec fn schedule_pattern() -> Seq<char> {
    "%Y-%m-%d %H:%M:%S"@
}

/// `count` zero digits.
pub open spec fn zeros(count: nat) -> Seq<char> {
    Seq::new(count, |i: int| '0')
}

/// The digits of `n`, zero-padded on the left to at least `width` characters.
pub open spec fn padded(n: nat, width: nat) -> Seq<char> {
    if nat_digits(n).len() < width {
        zeros((width - nat_digits(n).len()) as nat) + nat_digits(n)
    } else {
        nat_digits(n)
    }
}

/// A year as `%Y` writes it: four digits for 0 through 9999, else a sign and at least four
/// digits.
pub open spec fn year_text(year: int) -> Seq<char> {
    if 0 <= year <= 9999 {
        padded(year as nat, 4)
    } else if year > 9999 {
        seq!['+'] + padded(year as nat, 4)
    } else {
        seq!['-'] + padded((-year) as nat, 4)
    }
}

/// The second as `%S` writes it, 60 during a leap second.
pub open spec fn shown_second(f: DateTimeFields) -> nat {
    (f.second + f.nanosecond / 1_000_000_000) as nat
}

/// A date and time as the schedule pattern writes it.
pub open spec fn schedule_text(f: DateTimeFields) -> Seq<char> {
    year_text(f.year as int) + seq!['-'] + padded(f.month as nat, 2) + seq!['-'] + padded(
        f.day as nat,
        2,
    ) + seq![' '] + padded(f.hour as nat, 2) + seq![':'] + padded(f.minute as nat, 2) + seq![':']
        + padded(shown_second(f), 2)
}

/// Whether a text is the schedule pattern's writing of some date and time, and so has the
/// stored form where that time's year lies in 0 through 9999.
pub open spec fn is_schedule_text(t: Seq<char>) -> bool {
    exists|f: DateTimeFields|
        valid_fields(f) && #[trigger] schedule_text(f) == t && (0 <= f.year <= 9999
            ==> has_schedule_shape(t))
}

/// Whether a text is the schedule pattern's writing of a UTC time that chrono may give
/// for the local time `local`: less than a day away, with the same fraction of a second.
pub open spec fn is_utc_text_of(t: Seq<char>, local: (int, int, int, int, int, int, int)) -> bool {
    exists|f: DateTimeFields|
        valid_fields(f) && #[trigger] schedule_text(f) == t && within_a_day(fields_tuple(f), local)
            && f.nanosecond == local.6
}

/// Whether a text has the stored form `YYYY-MM-DD HH:MM:SS`.
pub open spec fn has_schedule_shape(t: Seq<char>) -> bool {
    &&& t.len() == 19
    &&& t[4] == '-' && t[7] == '-' && t[10] == ' ' && t[13] == ':' && t[16] == ':'
    &&& forall|i: int|
        0 <= i < 19 && i != 4 && i != 7 && i != 10 && i != 13 && i != 16 ==> is_digit(
            #[trigger] t[i],
        )
}

/// The chrono date and time's fields, read with its `Datelike` and `Timelike` getters.
/// Claims the ranges that chrono's types keep, and that `from_ymd_opt`, `and_hms_opt` and
/// `with_nanosecond` rebuild the value from them.
#[verifier::external_body]
fn fields_of(value: &NaiveDateTime) -> (r: DateTimeFields)
    ensures
        valid_fields(r),
        fields_exist(r),
{
    DateTimeFields {
        year: value.year(),
        month: value.month(),
        day: value.day(),
        hour: value.hour(),
        minute: value.minute(),
        second: value.second(),
        nanosecond: value.nanosecond(),
    }
}

/// Calls chrono's `NaiveDate::from_ymd_opt`, `NaiveDate::and_hms_opt` and then
/// `with_nanosecond`: the date and time with these fields, where chrono has one (a leap
/// second may follow any second, as `with_nanosecond` allows).
#[verifier::external_body]
fn naive_of(f: &DateTimeFields) -> (r: Option<NaiveDateTime>)
    ensures
        r is Some <==> naive_datetime_exists(
            f.year as int,
            f.month as int,
            f.day as int,
            f.hour as int,
            f.minute as int,
            f.second as int,
            f.nanosecond as int,
        ),
{
    match NaiveDate::from_ymd_opt(f.year, f.month, f.day) {
        Some(date) => match date.and_hms_opt(f.hour, f.minute, f.second) {
            Some(time) => time.with_nanosecond(f.nanosecond),
            None => None,
        },
        None => None,
    }
}

/// Calls chrono's `NaiveDateTime::parse_from_str` and reads the fields of the result.
#[verifier::external_body]
fn parse_datetime(text: &str, pattern: &str) -> (r: Option<DateTimeFields>)
    ensures
        match r {
            Some(f) => parsed_datetime(text@, pattern@) == Some(fields_tuple(f)) && valid_fields(f)
                && fields_exist(f),
            None => parsed_datetime(text@, pattern@) is None,
        },
{
    match NaiveDateTime::parse_from_str(text, pattern) {
        Ok(value) => Some(fields_of(&value)),
        Err(_) => None,
    }
}

/// Calls chrono's `Utc::now` and reads the fields of its UTC date and time. Which time
/// comes back is the clock's; chrono panics when the clock reads before 1970.
#[verifier::external_body]
fn utc_now() -> (r: DateTimeFields)
    ensures
        valid_fields(r),
        fields_exist(r),
{
    fields_of(&Utc::now().naive_utc())
}

/// Calls `format(pattern)` of chrono's `NaiveDateTime` on the date and time with these
/// fields and writes it to a `String`; `None` where chrono has no such date and time.
/// For the schedule pattern the text is the year as `%Y` writes it, then month, day, hour,
/// minute and second as two digits each (the second reads 60 during a leap second).
#[verifier::external_body]
fn format_datetime(value: &DateTimeFields, pattern: &str) -> (r: Option<String>)
    requires
        pattern@ == schedule_pattern(),
    ensures
        r is Some <==> fields_exist(*value),
        r matches Some(t) ==> t@ == schedule_text(*value),
{
    match naive_of(value) {
        Some(naive) => Some(naive.format(pattern).to_string()),
        None => None,
    }
}

/// A UTC time that chrono may give for a local time: a chrono date and time less than a
/// day away from it, with the same fraction of a second.
pub open spec fn is_utc_candidate(utc: DateTimeFields, local: DateTimeFields) -> bool {
    &&& valid_fields(utc)
    &&& fields_exist(utc)
    &&& within_a_day(fields_tuple(utc), fields_tuple(local))
    &&& utc.nanosecond == local.nanosecond
}

/// How a wall-clock time of the machine's time zone maps to UTC, field by field.
pub enum LocalMapping {
    /// Exactly one UTC time.
    Single(DateTimeFields),
    /// Two UTC times (a fold), earliest first.
    Ambiguous(DateTimeFields, DateTimeFields),
    /// No UTC time (a gap), or the zone could not be read.
    Unresolved,
}

/// Calls chrono's `Local.from_local_datetime` on the date and time with these fields and
/// reads the fields of each candidate's UTC time. Which candidates come back rests on the
/// machine's time zone. Claimed of each: it is a chrono date and time, it is the local time
/// shifted by an offset of less than a day (chrono's `FixedOffset` bound, applied by
/// `checked_sub_offset`), and it keeps the local time's fraction of a second.
#[verifier::external_body]
fn local_to_utc(local: &DateTimeFields) -> (r: LocalMapping)
    ensures
        r matches LocalMapping::Single(d) ==> is_utc_candidate(d, *local),
        r matches LocalMapping::Ambiguous(a, b) ==> is_utc_candidate(a, *local)
            && is_utc_candidate(b, *local),
{
    match naive_of(local) {
        Some(naive) => match Local.from_local_datetime(&naive) {
            LocalResult::Single(d) => LocalMapping::Single(fields_of(&d.naive_utc())),
            LocalResult::Ambiguous(a, b) => LocalMapping::Ambiguous(
                fields_of(&a.naive_utc()),
                fields_of(&b.naive_utc()),
            ),
            LocalResult::None => LocalMapping::Unresolved,
        },
        None => LocalMapping::Unresolved,
    }
}

/// How the machine's time zone maps a local time to UTC, as chrono's
/// `Local.from_local_datetime` answers.
pub fn utc_mapping(local: &DateTimeFields) -> (r: LocalMapping)
    ensures
        r matches LocalMapping::Single(d) ==> is_utc_candidate(d, *local),
        r matches LocalMapping::Ambiguous(a, b) ==> is_utc_candidate(a, *local)
            && is_utc_candidate(b, *local),
{
    local_to_utc(local)
}

/// The fields of a date and time given as a tuple of integers.
pub open spec fn fields_from_tuple(t: (int, int, int, int, int, int, int)) -> DateTimeFields {
    DateTimeFields {
        year: t.0 as i32,
        month: t.1 as u32,
        day: t.2 as u32,
        hour: t.3 as u32,
        minute: t.4 as u32,
        second: t.5 as u32,
        nanosecond: t.6 as u32,
    }
}

/// The pattern in which schedule times are written and stored.
pub fn schedule_format() -> (r: &'static str)
    ensures
        r@ == schedule_pattern(),
{
    proof {
        reveal_strlit("%Y-%m-%d %H:%M:%S");
    }
    "%Y-%m-%d %H:%M:%S"
}

/// Why a schedule time could not be read.
#[derive(Clone, Copy, PartialEq, Eq, Structural, Debug)]
pub enum ScheduleError {
    /// The text is not a date and time in the schedule pattern.
    InvalidFormat,
    /// The local time has no single UTC time.
    UnresolvedLocalTime,
}

impl ScheduleError {
    /// The message under which the server reports the error.
    pub fn message(&self) -> (r: &'static str)
        ensures
            r@ == (match self {
                ScheduleError::InvalidFormat => "Failed to parse date"@,
                ScheduleError::UnresolvedLocalTime => "Ambiguous time or conversion failure"@,
            }),
    {
        match self {
            ScheduleError::InvalidFormat => {
                proof {
                    reveal_strlit("Failed to parse date");
                }
                "Failed to parse date"
            },
            ScheduleError::UnresolvedLocalTime => {
                proof {
                    reveal_strlit("Ambiguous time or conversion failure");
                }
                "Ambiguous time or conversion failure"
            },
        }
    }
}

/// The UTC time of a mapping that has exactly one.
pub fn single_mapping(mapping: LocalMapping) -> (r: Option<DateTimeFields>)
    ensures
        match mapping {
            LocalMapping::Single(d) => r == Some(d),
            _ => r is None,
        },
{
    match mapping {
        LocalMapping::Single(d) => Some(d),
        _ => None,
    }
}

/// The stored UTC text of a local schedule time's mapping: its single UTC time in the
/// schedule pattern, or an error where it has none, two, or one chrono has no date for.
pub fn scheduled_utc_text(mapping: LocalMapping) -> (r: Result<String, ScheduleError>)
    ensures
        match mapping {
            LocalMapping::Single(d) => if fields_exist(d) {
                r matches Ok(t) && t@ == schedule_text(d)
            } else {
                r == Err::<String, ScheduleError>(ScheduleError::UnresolvedLocalTime)
            },
            _ => r == Err::<String, ScheduleError>(ScheduleError::UnresolvedLocalTime),
        },
{
    match single_mapping(mapping) {
        Some(utc) => match format_datetime(&utc, schedule_format()) {
            Some(text) => Ok(text),
            None => Err(ScheduleError::UnresolvedLocalTime),
        },
        None => Err(ScheduleError::UnresolvedLocalTime),
    }
}

/// The current UTC time in the schedule pattern.
pub fn current_utc_text() -> (r: String)
    ensures
        is_schedule_text(r@),
{
    let now = utc_now();
    match format_datetime(&now, schedule_format()) {
        Some(text) => {
            proof {
                if 0 <= now.year <= 9999 {
                    lemma_schedule_text_shape(now);
                }
            }
            assert(schedule_text(now) == text@);
            text
        },
        None => {
            assert(false);
            String::new()
        },
    }
}

/// The UTC text under which a request's schedule time is stored: the current UTC time
/// where none is given or it is empty, else the given local time converted to UTC, both in
/// the schedule pattern. Text that chrono does not read in the schedule pattern gives
/// `InvalidFormat`; a local time without a single UTC time gives `UnresolvedLocalTime`.
pub fn convert_scheduled_at(scheduled_at: Option<&str>) -> (r: Result<String, ScheduleError>)
    ensures
        r matches Ok(t) ==> is_schedule_text(t@),
        match scheduled_at {
            None => r is Ok,
            Some(text) => if text@.len() == 0 {
                r is Ok
            } else {
                &&& (r == Err::<String, ScheduleError>(ScheduleError::InvalidFormat)) <==> parsed_datetime(
                    text@,
                    schedule_pattern(),
                ) is None
                &&& parsed_datetime(text@, schedule_pattern()) matches Some(local) ==> {
                    &&& r is Ok || r == Err::<String, ScheduleError>(
                        ScheduleError::UnresolvedLocalTime,
                    )
                    &&& r matches Ok(t) ==> is_utc_text_of(t@, local)
                    &&& r matches Ok(t) ==> exists|d: DateTimeFields|
                        #[trigger] call_ensures(
                            utc_mapping,
                            (&fields_from_tuple(local),),
                            LocalMapping::Single(d),
                        ) && t@ == schedule_text(d)
                    &&& (1 <= local.0 <= 9998 && r is Ok) ==> has_schedule_shape(r->Ok_0@)
                }
            },
        },
{
    match scheduled_at {
        Some(text) => {
            if text.is_empty() {
                Ok(current_utc_text())
            } else {
                match parse_datetime(text, schedule_format()) {
                    Some(local) => {
                        let zone = utc_mapping;
                        let mapping = zone(&local);
                        let ghost single = single_mapping_spec(mapping);
                        let r = scheduled_utc_text(mapping);
                        proof {
                            assert(fields_from_tuple(fields_tuple(local)) == local);
                            if let Some(d) = single {
                                if r is Ok {
                                    assert(call_ensures(zone, (&local,), LocalMapping::Single(d)));
                                    lemma_within_a_day_year(fields_tuple(d), fields_tuple(local));
                                    if 0 <= d.year <= 9999 {
                                        lemma_schedule_text_shape(d);
                                    }
                                    assert(schedule_text(d) == r->Ok_0@);
                                }
                            }
                        }
                        r
                    },
                    None => Err(ScheduleError::InvalidFormat),
                }
            }
        },
        None => Ok(current_utc_text()),
    }
}

/// The single UTC time of a mapping, if it has one.
pub open spec fn single_mapping_spec(mapping: LocalMapping) -> Option<DateTimeFields> {
    match mapping {
        LocalMapping::Single(d) => Some(d),
        _ => None,
    }
}

/// A year on, the day count grows by 364 to 366 days.
pub proof fn lemma_year_base_step(year: int)
    ensures
        364 <= year_base(year + 1) - year_base(year) <= 366,
{
    assert(0 <= (year + 1) / 4 - year / 4 <= 1);
    assert(0 <= (year + 1) / 100 - year / 100 <= 1);
    assert(0 <= (year + 1) / 400 - year / 400 <= 1);
}

/// Over `k` years the day count grows by at least `364 * k` days.
pub proof fn lemma_year_base_grows(year: int, k: nat)
    ensures
        year_base(year + k) >= year_base(year) + 364 * k,
    decreases k,
{
    if k > 0 {
        lemma_year_base_grows(year, (k - 1) as nat);
        lemma_year_base_step(year + k - 1);
    }
}

/// A date's day number lies from its year's January 1 up to, not including, the next
/// year's January 1.
pub proof fn lemma_day_count_in_year(t: (int, int, int, int, int, int, int))
    requires
        valid_time(t),
    ensures
        day_count(t.0, 1, 1) <= day_count(t.0, t.1, t.2) < day_count(t.0 + 1, 1, 1),
{
    lemma_year_base_step(t.0 - 1);
    assert(month_offset(1) == 306);
    assert(month_offset(2) == 337);
    assert(month_offset(3) == 0);
    assert(month_offset(4) == 31);
    assert(month_offset(5) == 61);
    assert(month_offset(6) == 92);
    assert(month_offset(7) == 122);
    assert(month_offset(8) == 153);
    assert(month_offset(9) == 184);
    assert(month_offset(10) == 214);
    assert(month_offset(11) == 245);
    assert(month_offset(12) == 275);
}

/// Two dates and times less than a day apart lie in the same year or in adjacent years.
pub proof fn lemma_within_a_day_year(
    a: (int, int, int, int, int, int, int),
    b: (int, int, int, int, int, int, int),
)
    requires
        valid_time(a),
        valid_time(b),
        within_a_day(a, b),
    ensures
        b.0 - 1 <= a.0 <= b.0 + 1,
{
    let da = day_count(a.0, a.1, a.2);
    let db = day_count(b.0, b.1, b.2);
    let ta = a.3 * 3600 + a.4 * 60 + a.5;
    let tb = b.3 * 3600 + b.4 * 60 + b.5;
    assert(0 <= ta < 86400 && 0 <= tb < 86400);
    assert(-1 <= da - db <= 1) by (nonlinear_arith)
        requires
            0 <= ta < 86400,
            0 <= tb < 86400,
            -86400 < (da * 86400 + ta) - (db * 86400 + tb) < 86400,
    ;
    lemma_day_count_in_year(a);
    lemma_day_count_in_year(b);
    if a.0 >= b.0 + 2 {
        lemma_year_base_grows(b.0, (a.0 - 1 - b.0) as nat);
        lemma_year_base_step(b.0);
    }
    if b.0 >= a.0 + 2 {
        lemma_year_base_grows(a.0, (b.0 - 1 - a.0) as nat);
        lemma_year_base_step(a.0);
    }
}

/// Powers of ten.
pub open spec fn pow10(k: nat) -> nat
    decreases k,
{
    if k == 0 {
        1
    } else {
        10 * pow10((k - 1) as nat)
    }
}

/// A number below `10^k` (`k >= 1`) has at most `k` digits.
pub proof fn lemma_digits_fit(n: nat, k: nat)
    requires
        k >= 1,
        n < pow10(k),
    ensures
        nat_digits(n).len() <= k,
    decreases n,
{
    if n >= 10 {
        assert(k >= 2) by {
            if k == 1 {
                assert(pow10(1) == 10 * pow10(0));
            }
        }
        assert(pow10(k) == 10 * pow10((k - 1) as nat));
        assert(n / 10 < pow10((k - 1) as nat));
        lemma_digits_fit(n / 10, (k - 1) as nat);
    }
}

/// Zero-padding a number below `10^width` gives exactly `width` digits.
pub proof fn lemma_padded(n: nat, width: nat)
    requires
        width >= 1,
        n < pow10(width),
    ensures
        padded(n, width).len() == width,
        all_digits(padded(n, width)),
{
    lemma_digits_fit(n, width);
    lemma_nat_digits(n);
    let p = padded(n, width);
    if nat_digits(n).len() < width {
        let z = zeros((width - nat_digits(n).len()) as nat);
        assert forall|i: int| 0 <= i < p.len() implies is_digit(#[trigger] p[i]) by {
            if i < z.len() {
                assert(p[i] == z[i]);
            } else {
                assert(p[i] == nat_digits(n)[i - z.len()]);
            }
        }
    }
}

/// Every date and time of years 0 through 9999 is stored as `YYYY-MM-DD HH:MM:SS`.
pub proof fn lemma_schedule_text_shape(f: DateTimeFields)
    requires
        valid_fields(f),
        0 <= f.year <= 9999,
    ensures
        has_schedule_shape(schedule_text(f)),
{
    assert(pow10(2) == 100) by {
        assert(pow10(0) == 1);
        assert(pow10(1) == 10);
    }
    assert(pow10(4) == 10000) by {
        assert(pow10(3) == 1000) by {
            assert(pow10(2) == 100) by {
                assert(pow10(1) == 10);
            }
        }
    }
    let y = padded(f.year as nat, 4);
    let mo = padded(f.month as nat, 2);
    let d = padded(f.day as nat, 2);
    let h = padded(f.hour as nat, 2);
    let mi = padded(f.minute as nat, 2);
    let s = padded(shown_second(f), 2);
    lemma_padded(f.year as nat, 4);
    lemma_padded(f.month as nat, 2);
    lemma_padded(f.day as nat, 2);
    lemma_padded(f.hour as nat, 2);
    lemma_padded(f.minute as nat, 2);
    lemma_padded(shown_second(f), 2);
    let t = schedule_text(f);
    assert(t =~= seq![y[0], y[1], y[2], y[3], '-', mo[0], mo[1], '-', d[0], d[1], ' ', h[0], h[1], ':', mi[0], mi[1], ':', s[0], s[1]]);
    assert forall|i: int|
        0 <= i < 19 && i != 4 && i != 7 && i != 10 && i != 13 && i != 16 implies is_digit(
        #[trigger] t[i],
    ) by {
        assert(is_digit(y[0]) && is_digit(y[1]) && is_digit(y[2]) && is_digit(y[3]));
        assert(is_digit(mo[0]) && is_digit(mo[1]) && is_digit(d[0]) && is_digit(d[1]));
        assert(is_digit(h[0]) && is_digit(h[1]) && is_digit(mi[0]) && is_digit(mi[1]));
        assert(is_digit(s[0]) && is_digit(s[1]));
    }
}

} // verus!
