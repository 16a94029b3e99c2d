//! How counts and points in time are written out.

use chrono::{DateTime, Datelike, Local, NaiveDate, NaiveDateTime, Offset, TimeZone, Timelike, Utc};

use vstd::prelude::*;

use crate::text;
use crate::view;
use crate::text::{copy_of, decimal_of};

verus! {

/// How many terminals are attached, in words.
pub open spec fn attached_text(count: int) -> Seq<char> {
    if count == 1 {
        "1 terminal"@
    } else {
        text::decimal(count as nat) + " terminals"@
    }
}

/// Format an attachment count into a human-readable string.
pub fn format_attached(count: usize) -> (s: String)
    ensures
        s@ == attached_text(count as int),
{
    if count == 1 {
        copy_of("1 terminal")
    } else {
        let mut s = decimal_of(count);
        s.push_str(" terminals");
        s
    }
}

/// The ending of a word for so many things.
pub open spec fn plural_end(count: int) -> Seq<char> {
    if count == 1 {
        ""@
    } else {
        "s"@
    }
}

pub fn plural(count: usize) -> (s: &'static str)
    ensures
        s@ == plural_end(count as int),
{
    if count == 1 {
        ""
    } else {
        "s"
    }
}

/// A text filled up with spaces to a width.
pub open spec fn column(text: Seq<char>, width: int) -> Seq<char> {
    if text.len() < width {
        text + view::spaces((width - text.len()) as nat)
    } else {
        text
    }
}

/// A text filled up with spaces to a width.
pub fn column_of(text: &str, width: usize) -> (s: String)
    ensures
        s@ == column(text@, width as int),
{
    let mut s = copy_of(text);
    let len = text.unicode_len();
    if len < width {
        let fill = crate::view::space_text(width - len);
        s.push_str(fill.as_str());
    }
    s
}

/// A column is at least as wide as asked, and holds the text unchanged.
pub proof fn column_holds_its_text(text: Seq<char>, width: int)
    ensures
        column(text, width).len() >= width,
        column(text, width).len() >= text.len(),
        column(text, width).take(text.len() as int) == text,
{
    assert(column(text, width).take(text.len() as int) =~= text);
}

// ── Points in time ─────────────────────────────────────────────────

/// A point in time on the local calendar and clock.
#[derive(Debug, Clone, Copy, PartialEq, Eq, Structural)]
pub struct LocalTime {
    pub year: i32,
    pub month: u32,
    pub day: u32,
    pub hour: u32,
    pub minute: u32,
}

/// How many days a month has.
pub open spec fn days_in(year: int, month: int) -> int {
    if month == 2 {
        if year % 4 == 0 && (year % 100 != 0 || year % 400 == 0) {
            29
        } else {
            28
        }
    } else if month == 4 || month == 6 || month == 9 || month == 11 {
        30
    } else {
        31
    }
}

impl LocalTime {
    /// Whether there is such a day and such a time of day.
    pub open spec fn valid(self) -> bool {
        &&& -262143 <= self.year <= 262142
        &&& 1 <= self.month <= 12
        &&& 1 <= self.day <= days_in(self.year as int, self.month as int)
        &&& self.hour < 24
        &&& self.minute < 60
    }

    pub open spec fn same_day(self, other: LocalTime) -> bool {
        self.year == other.year && self.month == other.month && self.day == other.day
    }
}

/// How many leap days lie between the start of the year 1 and that of a year.
pub open spec fn leap_days_before(year: int) -> int {
    (year - 1) / 4 - (year - 1) / 100 + (year - 1) / 400
}

/// How many days of a year go before a month.
pub open spec fn days_before_month(year: int, month: int) -> int
    decreases month,
{
    if month <= 1 {
        0
    } else {
        days_before_month(year, month - 1) + days_in(year, month - 1)
    }
}

/// How many days lie between the start of 1970 and a day.
pub open spec fn days_since_1970(year: int, month: int, day: int) -> int {
    365 * (year - 1970) + leap_days_before(year) - leap_days_before(1970) + days_before_month(
        year,
        month,
    ) + day - 1
}

/// The seconds that a clock which shows this time has counted since the start of 1970.
pub open spec fn clock_seconds(t: LocalTime) -> int {
    days_since_1970(t.year as int, t.month as int, t.day as int) * 86400 + t.hour * 3600 + t.minute
        * 60
}

/// Whether a local clock, which is less than a day ahead or behind, can show this time at a
/// point in time.
pub open spec fn can_show(t: LocalTime, secs: int) -> bool {
    -86400 - 60 < clock_seconds(t) - secs < 86400
}

/// Whether a point in time is far from where calendars end, and no leap second.
pub open spec fn on_every_calendar(instant: (i64, u32)) -> bool {
    -8_000_000_000_000 <= instant.0 <= 8_000_000_000_000 && instant.1 < 1_000_000_000
}

/// Two digits, with a leading zero.
pub open spec fn two_digits(n: int) -> Seq<char> {
    if n < 10 {
        "0"@ + text::decimal(n as nat)
    } else {
        text::decimal(n as nat)
    }
}

/// The short name of a month.
pub open spec fn month_name(month: int) -> Seq<char> {
    if month == 1 {
        "Jan"@
    } else if month == 2 {
        "Feb"@
    } else if month == 3 {
        "Mar"@
    } else if month == 4 {
        "Apr"@
    } else if month == 5 {
        "May"@
    } else if month == 6 {
        "Jun"@
    } else if month == 7 {
        "Jul"@
    } else if month == 8 {
        "Aug"@
    } else if month == 9 {
        "Sep"@
    } else if month == 10 {
        "Oct"@
    } else if month == 11 {
        "Nov"@
    } else {
        "Dec"@
    }
}

/// The time of day: hour and minute.
pub open spec fn clock(t: LocalTime) -> Seq<char> {
    two_digits(t.hour as int) + ":"@ + two_digits(t.minute as int)
}

/// The day and the time of day.
pub open spec fn dated(t: LocalTime) -> Seq<char> {
    month_name(t.month as int) + " "@ + two_digits(t.day as int) + " "@ + clock(t)
}

/// The point in time that a text denotes: seconds since the start of 1970 and nanoseconds, as
/// `chrono` reads it.
pub uninterp spec fn instant_of(text: Seq<char>) -> Option<(i64, u32)>;

/// `<chrono::DateTime<Utc> as FromStr>::from_str` reads a point in time in (a relaxed form of)
/// the notation of RFC 3339. Its result depends on the text alone.
#[verifier::external_body]
fn parse_instant(text: &str) -> (instant: Option<(i64, u32)>)
    ensures
        instant == instant_of(text@),
{
    let parsed = text.parse::<DateTime<Utc>>();
    parsed.ok().map(|t| (t.timestamp(), t.timestamp_subsec_nanos()))
}

/// `chrono::Local` gives the local calendar date and time of a point in time. What it gives
/// depends on the time zone of the machine. Every time zone is less than a day ahead or behind,
/// and gives a date that exists; there is one except where calendars end.
#[verifier::external_body]
fn local_time(secs: i64, nanos: u32) -> (local: Option<LocalTime>)
    ensures
        local matches Some(t) ==> t.valid() && can_show(t, secs as int),
        on_every_calendar((secs, nanos)) ==> local is Some,
{
    let utc = DateTime::from_timestamp(secs, nanos)?.naive_utc();
    let t = utc.checked_add_offset(Local.offset_from_utc_datetime(&utc).fix())?;
    Some(
        LocalTime {
            year: t.year(),
            month: t.month(),
            day: t.day(),
            hour: t.hour(),
            minute: t.minute(),
        },
    )
}

/// `chrono::Local::now` reads the clock. Only that the date exists is claimed.
#[verifier::external_body]
fn local_now() -> (now: LocalTime)
    ensures
        now.valid(),
{
    let t = Local::now();
    LocalTime { year: t.year(), month: t.month(), day: t.day(), hour: t.hour(), minute: t.minute() }
}

/// `chrono::NaiveDateTime::format` writes out a date and time: `%H` and `%M` are the hour and
/// the minute with two digits each, `%b` the short name of the month and `%d` the day with two
/// digits. Stated of the two patterns in use.
#[verifier::external_body]
fn written_out(t: LocalTime, pattern: &str) -> (s: String)
    requires
        t.valid(),
        pattern@ == "%H:%M"@ || pattern@ == "%b %d %H:%M"@,
    ensures
        pattern@ == "%H:%M"@ ==> s@ == clock(t),
        pattern@ == "%b %d %H:%M"@ ==> s@ == dated(t),
{
    let day = NaiveDate::from_ymd_opt(t.year, t.month, t.day);
    let at: Option<NaiveDateTime> = day.and_then(|d| d.and_hms_opt(t.hour, t.minute, 0));
    at.map(|a| a.format(pattern).to_string()).unwrap_or_default()
}

/// When something was started, seen from now: the time of day, and the day if it is another.
pub open spec fn started_text(local: LocalTime, now: LocalTime) -> Seq<char> {
    if local.same_day(now) {
        clock(local)
    } else {
        dated(local)
    }
}

/// When something was started, seen from now: the time of day, and the day if it is another.
pub fn started_at(local: LocalTime, now: LocalTime) -> (s: String)
    requires
        local.valid(),
    ensures
        s@ == started_text(local, now),
{
    if local.year == now.year && local.month == now.month && local.day == now.day {
        written_out(local, "%H:%M")
    } else {
        written_out(local, "%b %d %H:%M")
    }
}

/// Whether a text says when something was started that was started at `rfc3339`: it is written
/// out on a local clock, except where it is no timestamp, or where calendars end.
pub open spec fn shows_start(rfc3339: Seq<char>, s: Seq<char>) -> bool {
    match instant_of(rfc3339) {
        None => s == rfc3339,
        Some(instant) => {
            ||| !on_every_calendar(instant) && s == rfc3339
            ||| exists|local: LocalTime, now: LocalTime|
                local.valid() && now.valid() && can_show(local, instant.0 as int) && s
                    == #[trigger] started_text(local, now)
        },
    }
}

/// Format an RFC 3339 timestamp into a human-readable relative time string.
///
/// A text that is no timestamp, or one that local time does not reach, is given back unchanged.
pub fn format_started(rfc3339: &str) -> (s: String)
    ensures
        shows_start(rfc3339@, s@),
{
    let (secs, nanos) = match parse_instant(rfc3339) {
        Some(instant) => instant,
        None => return copy_of(rfc3339),
    };
    let local = match local_time(secs, nanos) {
        Some(t) => t,
        None => return copy_of(rfc3339),
    };
    let now = local_now();
    started_at(local, now)
}

// ── Laws ───────────────────────────────────────────────────────────

/// One day follows the other: within a month, over its end and over the end of the year. The
/// count begins with the year 1970.
pub proof fn days_follow_each_other(year: int, month: int, day: int)
    requires
        1 <= month < 12,
    ensures
        days_since_1970(year, month, day + 1) == days_since_1970(year, month, day) + 1,
        days_since_1970(year, month + 1, 1) == days_since_1970(year, month, days_in(year, month))
            + 1,
        days_since_1970(year + 1, 1, 1) == days_since_1970(year, 12, 31) + 1,
        days_since_1970(1970, 1, 1) == 0,
{
    reveal_with_fuel(days_before_month, 13);
    assert(days_before_month(year, 12) == 306 + days_in(year, 2));
}

/// Thirty days hath September, April, June and November; February has one day more in a leap
/// year, which every fourth year is but for three centuries out of four.
pub proof fn months_have_their_days(year: int)
    ensures
        forall|m: int| 1 <= m <= 12 && m != 2 ==> (#[trigger] days_in(year, m) == 30 <==> m == 4 || m
            == 6 || m == 9 || m == 11),
        forall|m: int| 1 <= m <= 12 && m != 2 ==> 30 <= #[trigger] days_in(year, m) <= 31,
        days_in(year, 2) == 29 <==> year % 400 == 0 || (year % 4 == 0 && year % 100 != 0),
        days_in(year, 2) == 28 || days_in(year, 2) == 29,
        days_in(year + 400, 2) == days_in(year, 2),
{
}

/// The names of the months are the parts of one text, three letters each.
pub proof fn months_are_named_in_order(month: int)
    requires
        1 <= month <= 12,
    ensures
        month_name(month) == "JanFebMarAprMayJunJulAugSepOctNovDec"@.subrange(
            3 * month - 3,
            3 * month,
        ),
{
    reveal_strlit("JanFebMarAprMayJunJulAugSepOctNovDec");
    reveal_strlit("Jan");
    reveal_strlit("Feb");
    reveal_strlit("Mar");
    reveal_strlit("Apr");
    reveal_strlit("May");
    reveal_strlit("Jun");
    reveal_strlit("Jul");
    reveal_strlit("Aug");
    reveal_strlit("Sep");
    reveal_strlit("Oct");
    reveal_strlit("Nov");
    reveal_strlit("Dec");
    assert(month_name(month) =~= "JanFebMarAprMayJunJulAugSepOctNovDec"@.subrange(
        3 * month - 3,
        3 * month,
    ));
}

/// The value of two digits.
pub open spec fn two_digit_value(s: Seq<char>) -> int {
    (s[0] as int - '0' as int) * 10 + (s[1] as int - '0' as int)
}

/// A number below a hundred is written with two digits, which are its digits.
pub proof fn two_digits_are_read_back(n: int)
    requires
        0 <= n < 100,
    ensures
        two_digits(n).len() == 2,
        two_digit_value(two_digits(n)) == n,
{
    reveal_strlit("0");
    text::decimal_is_digit_by_digit(n as nat);
    if n >= 10 {
        text::decimal_is_digit_by_digit((n / 10) as nat);
        let s = text::decimal(n as nat);
        assert(s.drop_last()[0] == s[0]);
    }
}

/// The time of day has the hour, a colon and the minute.
pub proof fn clocks_are_read_back(t: LocalTime)
    requires
        t.valid(),
    ensures
        clock(t).len() == 5,
        two_digit_value(clock(t).take(2)) == t.hour,
        clock(t)[2] == ':',
        two_digit_value(clock(t).skip(3)) == t.minute,
{
    reveal_strlit(":");
    two_digits_are_read_back(t.hour as int);
    two_digits_are_read_back(t.minute as int);
    assert(clock(t).take(2) =~= two_digits(t.hour as int));
    assert(clock(t).skip(3) =~= two_digits(t.minute as int));
}

/// A start on this day is told by its time of day alone. One on another day begins with the
/// month and the day, and ends with the time of day.
pub proof fn starts_are_told_by_day_and_time(local: LocalTime, now: LocalTime)
    requires
        local.valid(),
    ensures
        ({
            let s = started_text(local, now);
            let today = local.year == now.year && local.month == now.month && local.day == now.day;
            &&& today ==> s == clock(local)
            &&& !today ==> {
                &&& s.len() == 12
                &&& s.take(3) == month_name(local.month as int)
                &&& s[3] == ' '
                &&& two_digit_value(s.subrange(4, 6)) == local.day
                &&& s[6] == ' '
                &&& s.skip(7) == clock(local)
            }
        }),
{
    reveal_strlit(" ");
    clocks_are_read_back(local);
    two_digits_are_read_back(local.day as int);
    months_are_named_in_order(local.month as int);
    reveal_strlit("JanFebMarAprMayJunJulAugSepOctNovDec");
    let s = dated(local);
    assert(month_name(local.month as int).len() == 3);
    assert(s.take(3) =~= month_name(local.month as int));
    assert(s.subrange(4, 6) =~= two_digits(local.day as int));
    assert(s.skip(7) =~= clock(local));
}

/// A count is followed by its noun, which is in the singular for one alone.
pub proof fn counts_are_followed_by_their_noun(count: int)
    requires
        count >= 0,
    ensures
        attached_text(count) == text::decimal(count as nat) + " terminal"@ + plural_end(count),
        plural_end(count).len() == 0 <==> count == 1,
        count != 1 ==> plural_end(count) == seq!['s'],
{
    reveal_strlit("1 terminal");
    reveal_strlit(" terminals");
    reveal_strlit(" terminal");
    reveal_strlit("");
    reveal_strlit("s");
    text::decimal_is_digit_by_digit(count as nat);
    if count == 1 {
        assert(text::decimal(1) =~= seq!['1']);
    }
    assert(attached_text(count) =~= text::decimal(count as nat) + " terminal"@ + plural_end(count));
}

/// What comes after a later point of the same day has more seconds, and days count for more
/// than hours, hours for more than minutes.
pub proof fn seconds_follow_the_clock(a: LocalTime, b: LocalTime)
    requires
        a.valid(),
        b.valid(),
        a.same_day(b),
    ensures
        clock_seconds(b) - clock_seconds(a) == ((b.hour - a.hour) * 60 + (b.minute - a.minute)) * 60,
{
}

} // verus!
