//! Points in time, and how long ago or how long something was.

use crate::text::{
    decimal, decimal_is_short, decimal_text, is_printable_ascii, joined, signed_decimal,
    signed_decimal_text, ten_to,
};
use vstd::prelude::*;

verus! {

/// The second in which the first representable day, January 1 of the year -262143, begins.
pub const MIN_SECS: i64 = -8334601228800;

/// The last second of the last representable day, December 31 of the year 262142.
pub const MAX_SECS: i64 = 8210266876799;

/// Whether seconds and nanoseconds make up a point in time. Nanoseconds from one to two thousand
/// million stand for a leap second, which only the last second of a minute can be followed by.
pub open spec fn is_timestamp(secs: int, nanos: int) -> bool {
    &&& MIN_SECS <= secs <= MAX_SECS
    &&& 0 <= nanos
    &&& nanos < 1_000_000_000 || (nanos < 2_000_000_000 && secs % 60 == 59)
}

/// A point in time: the seconds since the start of 1970, in UTC, and the nanoseconds since then.
#[derive(Clone, Copy, Debug, PartialEq, Eq)]
pub struct Timestamp {
    secs: i64,
    nanos: u32,
}

impl Timestamp {
    #[verifier::type_invariant]
    spec fn well_formed(self) -> bool {
        is_timestamp(self.secs as int, self.nanos as int)
    }

    /// The seconds since the start of 1970.
    pub closed spec fn secs(self) -> int {
        self.secs as int
    }

    /// The nanoseconds since the last second.
    pub closed spec fn nanos(self) -> int {
        self.nanos as int
    }

    /// Makes a point in time, where there is one.
    pub fn new(secs: i64, nanos: u32) -> (r: Option<Timestamp>)
        ensures
            r is Some == is_timestamp(secs as int, nanos as int),
            r matches Some(t) ==> t.secs() == secs && t.nanos() == nanos,
    {
        if secs < MIN_SECS || secs > MAX_SECS || nanos >= 2_000_000_000 {
            return None;
        }
        if nanos >= 1_000_000_000 {
            let second: i64 = (secs - MIN_SECS) % 60;
            if second != 59 {
                return None;
            }
        }
        Some(Timestamp { secs, nanos })
    }
}

/// The nanoseconds from one point in time to another. A leap second counts where the time of day
/// shows that it has passed in between.
pub open spec fn nanos_between(later: Timestamp, earlier: Timestamp) -> int {
    let later_of_day = later.secs() % 86400;
    let earlier_of_day = earlier.secs() % 86400;
    let leap: int = if later_of_day > earlier_of_day && earlier.nanos() >= 1_000_000_000 {
        1
    } else if later_of_day < earlier_of_day && later.nanos() >= 1_000_000_000 {
        -1
    } else {
        0
    };
    (later.secs() - earlier.secs() + leap) * 1_000_000_000 + later.nanos() - earlier.nanos()
}

/// Whole seconds, without the fraction of one, of some nanoseconds.
pub open spec fn whole_seconds(nanos: int) -> int {
    if nanos < 0 {
        -((-nanos) / 1_000_000_000)
    } else {
        nanos / 1_000_000_000
    }
}

/// The whole seconds from one point in time to another; negative where the second comes first.
pub open spec fn seconds_between(later: Timestamp, earlier: Timestamp) -> int {
    whole_seconds(nanos_between(later, earlier))
}

/// `chrono::DateTime::<Utc>::signed_duration_since`, read with `TimeDelta::num_seconds`: the
/// difference of two points in time, cut off to whole seconds. Points in time that `Timestamp` can
/// hold are those that `DateTime::from_timestamp` makes a `DateTime` of, so converting never fails.
#[verifier::external_body]
fn signed_seconds_since(later: Timestamp, earlier: Timestamp) -> (r: i64)
    ensures
        r == seconds_between(later, earlier),
{
    let later: chrono::DateTime<chrono::Utc> =
        chrono::DateTime::from_timestamp(later.secs, later.nanos).unwrap();
    let earlier: chrono::DateTime<chrono::Utc> =
        chrono::DateTime::from_timestamp(earlier.secs, earlier.nanos).unwrap();
    later.signed_duration_since(earlier).num_seconds()
}

/// A day of the Gregorian calendar. Months count from 0, days of the month from 1.
#[derive(Clone, Copy, Debug, PartialEq, Eq)]
pub struct CivilDate {
    pub year: i32,
    pub month0: u32,
    pub day: u32,
}

/// A year with a twenty-ninth of February.
pub open spec fn is_leap_year(year: int) -> bool {
    year % 4 == 0 && (year % 100 != 0 || year % 400 == 0)
}

/// The days of a year before the first of a month; for month 12, all of them.
pub open spec fn days_before_month(year: int, month0: int) -> int {
    let leap: int = if is_leap_year(year) {
        1
    } else {
        0
    };
    if month0 <= 0 {
        0
    } else if month0 == 1 {
        31
    } else if month0 == 2 {
        59 + leap
    } else if month0 == 3 {
        90 + leap
    } else if month0 == 4 {
        120 + leap
    } else if month0 == 5 {
        151 + leap
    } else if month0 == 6 {
        181 + leap
    } else if month0 == 7 {
        212 + leap
    } else if month0 == 8 {
        243 + leap
    } else if month0 == 9 {
        273 + leap
    } else if month0 == 10 {
        304 + leap
    } else if month0 == 11 {
        334 + leap
    } else {
        365 + leap
    }
}

/// The days from the first of January of the year 1 to that of another year.
pub open spec fn days_before_year(year: int) -> int {
    365 * (year - 1) + (year - 1) / 4 - (year - 1) / 100 + (year - 1) / 400
}

impl CivilDate {
    /// The calendar has such a day.
    pub open spec fn exists_in_calendar(self) -> bool {
        &&& 0 <= self.month0 < 12
        &&& 1 <= self.day <= days_before_month(self.year as int, self.month0 + 1)
            - days_before_month(self.year as int, self.month0 as int)
    }

    /// The days from the first of January 1970 to this day.
    pub open spec fn days_since_1970(self) -> int {
        days_before_year(self.year as int) - days_before_year(1970) + days_before_month(
            self.year as int,
            self.month0 as int,
        ) + self.day - 1
    }

    /// The day on which a point in time lies, in UTC.
    pub open spec fn is_day_of(self, t: Timestamp) -> bool {
        self.exists_in_calendar() && self.days_since_1970() == t.secs() / 86400
    }
}

/// `chrono::Datelike::year`, `month0` and `day` on a `DateTime<Utc>`: the day of the proleptic
/// Gregorian calendar on which a point in time lies in UTC. No two days of the calendar lie at the
/// same distance from 1970, so the clause leaves one day only.
#[verifier::external_body]
fn utc_day(t: Timestamp) -> (r: CivilDate)
    ensures
        r.is_day_of(t),
{
    let t: chrono::DateTime<chrono::Utc> =
        chrono::DateTime::from_timestamp(t.secs, t.nanos).unwrap();
    CivilDate {
        year: chrono::Datelike::year(&t),
        month0: chrono::Datelike::month0(&t),
        day: chrono::Datelike::day(&t),
    }
}

/// A time that the system clock can give: a point in time from the start of 1970 on, and within no
/// leap second.
pub open spec fn is_clock_time(t: Timestamp) -> bool {
    &&& 0 <= t.secs() <= MAX_SECS
    &&& 0 <= t.nanos() < 1_000_000_000
}

/// `chrono::Utc::now`: the time of the system clock, as the seconds and nanoseconds that have passed
/// since the start of 1970. The clock must not stand before that, nor past the last representable
/// day. Which time it gives is not said.
#[verifier::external_body]
pub(crate) fn utc_now() -> (r: Timestamp)
    ensures
        is_clock_time(r),
{
    let now: chrono::DateTime<chrono::Utc> = chrono::Utc::now();
    Timestamp { secs: now.timestamp(), nanos: now.timestamp_subsec_nanos() }
}

/// How long something took, in words: minutes and seconds, or seconds alone below a minute.
pub open spec fn duration_words(start: Timestamp, end: Timestamp) -> Seq<char> {
    let signed = seconds_between(end, start);
    let total = if signed < 0 {
        -signed
    } else {
        signed
    };
    if total < 60 {
        decimal(total as nat) + "s"@
    } else {
        decimal((total / 60) as nat) + "m "@ + decimal((total % 60) as nat) + "s"@
    }
}

proof fn lemma_seconds_between_bound(later: Timestamp, earlier: Timestamp)
    requires
        is_timestamp(later.secs(), later.nanos()),
        is_timestamp(earlier.secs(), earlier.nanos()),
    ensures
        -20_000_000_000_000 < seconds_between(later, earlier) < 20_000_000_000_000,
{
}

/// Says how long the time from `start` to `end` is, whichever of the two comes first.
pub fn format_duration(start: Timestamp, end: Timestamp) -> (r: String)
    ensures
        r@ == duration_words(start, end),
{
    proof {
        use_type_invariant(&start);
        use_type_invariant(&end);
        lemma_seconds_between_bound(end, start);
    }
    let signed: i64 = signed_seconds_since(end, start);
    let total: u64 = if signed < 0 {
        (-signed) as u64
    } else {
        signed as u64
    };
    if total < 60 {
        joined(decimal_text(total).as_str(), "s")
    } else {
        let minutes: String = joined(decimal_text(total / 60).as_str(), "m ");
        let seconds: String = joined(decimal_text(total % 60).as_str(), "s");
        let r: String = joined(minutes.as_str(), seconds.as_str());
        assert(r@ =~= duration_words(start, end));
        r
    }
}

/// The whole years, and the whole months beyond them, from one day to another.
pub open spec fn calendar_age(now: CivilDate, then: CivilDate) -> (int, int) {
    let months = now.month0 - then.month0 - (if now.day < then.day {
        1int
    } else {
        0int
    });
    if months < 0 {
        (now.year - then.year - 1, months + 12)
    } else {
        (now.year - then.year, months)
    }
}

/// An age of more than some weeks, in words.
pub open spec fn calendar_age_words(now: CivilDate, then: CivilDate) -> Seq<char> {
    let (years, months) = calendar_age(now, then);
    if years == 0 {
        if months == 1 {
            "1m ago"@
        } else {
            signed_decimal(months) + "mo ago"@
        }
    } else if years == 1 {
        "last year"@
    } else {
        signed_decimal(years) + "y ago"@
    }
}

/// The day of a point in time.
pub open spec fn day_of(t: Timestamp) -> CivilDate {
    choose|d: CivilDate| d.is_day_of(t)
}

/// How long ago something was, in words. What lies in the future, or five weeks back or more, is
/// told by the calendar; everything else by the largest unit that it fills.
pub open spec fn relative_time(now: Timestamp, then: Timestamp) -> Seq<char> {
    let seconds = seconds_between(now, then);
    if 0 <= seconds < 60 {
        decimal(seconds as nat) + "s ago"@
    } else if 60 <= seconds < 3600 {
        decimal((seconds / 60) as nat) + "m ago"@
    } else if 3600 <= seconds < 86400 {
        decimal((seconds / 3600) as nat) + "h ago"@
    } else if 86400 <= seconds < 172800 {
        "yesterday"@
    } else if 172800 <= seconds < 604800 {
        decimal((seconds / 86400) as nat) + "d ago"@
    } else if 604800 <= seconds < 3024000 {
        decimal((seconds / 604800) as nat) + "w ago"@
    } else {
        calendar_age_words(day_of(now), day_of(then))
    }
}

/// Later years begin on later days, each at least 365 days after the one before.
proof fn lemma_days_before_year(a: int, b: int)
    requires
        a < b,
    ensures
        days_before_year(a) + days_before_month(a, 12) <= days_before_year(b),
    decreases b - a,
{
    lemma_year_length(b - 1);
    if a < b - 1 {
        lemma_days_before_year(a, b - 1);
    }
}

proof fn lemma_year_length(y: int)
    ensures
        days_before_year(y + 1) == days_before_year(y) + days_before_month(y, 12),
{
    lemma_quotient_step(y, 4);
    lemma_quotient_step(y, 100);
    lemma_quotient_step(y, 400);
    lemma_multiple_of_multiple(y, 4, 25);
    lemma_multiple_of_multiple(y, 100, 4);
    lemma_year_length_from_quotients(
        y,
        y / 4 - (y - 1) / 4,
        y / 100 - (y - 1) / 100,
        y / 400 - (y - 1) / 400,
    );
}

/// The length of a year, from what its number adds to the quotients that count leap days.
proof fn lemma_year_length_from_quotients(y: int, by4: int, by100: int, by400: int)
    requires
        by4 == y / 4 - (y - 1) / 4,
        by100 == y / 100 - (y - 1) / 100,
        by400 == y / 400 - (y - 1) / 400,
        365 + by4 - by100 + by400 == days_before_month(y, 12),
    ensures
        days_before_year(y + 1) == days_before_year(y) + days_before_month(y, 12),
{
}

/// A multiple of a product is a multiple of its factor.
proof fn lemma_multiple_of_multiple(y: int, d: int, e: int)
    requires
        d > 1,
        e > 1,
    ensures
        y % (d * e) == 0 ==> y % d == 0,
{
    if y % (d * e) == 0 {
        let q = y / (d * e);
        assert(d * e > 0) by (nonlinear_arith)
            requires
                d > 1,
                e > 1,
        ;
        vstd::arithmetic::div_mod::lemma_fundamental_div_mod(y, d * e);
        assert(y == (q * e) * d + 0) by (nonlinear_arith)
            requires
                y == (d * e) * q + 0,
        ;
        vstd::arithmetic::div_mod::lemma_fundamental_div_mod_converse(y, d, q * e, 0);
    }
}

/// A quotient grows where the dividend reaches a multiple.
proof fn lemma_quotient_step(y: int, d: int)
    requires
        d > 1,
    ensures
        y / d - (y - 1) / d == (if y % d == 0 {
            1int
        } else {
            0int
        }),
{
    let q = y / d;
    let r = y % d;
    vstd::arithmetic::div_mod::lemma_fundamental_div_mod(y, d);
    vstd::arithmetic::div_mod::lemma_mod_bound(y, d);
    if r == 0 {
        assert(y - 1 == (q - 1) * d + (d - 1)) by (nonlinear_arith)
            requires
                y == d * q + r,
                r == 0,
        ;
        vstd::arithmetic::div_mod::lemma_fundamental_div_mod_converse(y - 1, d, q - 1, d - 1);
    } else {
        assert(y - 1 == q * d + (r - 1)) by (nonlinear_arith)
            requires
                y == d * q + r,
        ;
        vstd::arithmetic::div_mod::lemma_fundamental_div_mod_converse(y - 1, d, q, r - 1);
    }
}

/// A date comes before another in the order of year, month and day.
pub open spec fn is_earlier_date(a: CivilDate, b: CivilDate) -> bool {
    ||| a.year < b.year
    ||| a.year == b.year && a.month0 < b.month0
    ||| a.year == b.year && a.month0 == b.month0 && a.day < b.day
}

/// Dates follow one another as the days that they name do.
pub proof fn dates_follow_days(a: CivilDate, b: CivilDate)
    requires
        a.exists_in_calendar(),
        b.exists_in_calendar(),
    ensures
        is_earlier_date(a, b) <==> a.days_since_1970() < b.days_since_1970(),
        a == b <==> a.days_since_1970() == b.days_since_1970(),
{
    if a.year < b.year {
        lemma_days_before_year(a.year as int, b.year as int);
    } else if b.year < a.year {
        lemma_days_before_year(b.year as int, a.year as int);
    }
}

/// A date that is the day of a point in time is `day_of` it.
proof fn lemma_day_of(d: CivilDate, t: Timestamp)
    requires
        d.is_day_of(t),
    ensures
        day_of(t) == d,
{
    dates_follow_days(d, day_of(t));
}

fn calendar_age_text(now: CivilDate, then: CivilDate) -> (r: String)
    requires
        now.exists_in_calendar(),
        then.exists_in_calendar(),
    ensures
        r@ == calendar_age_words(now, then),
{
    let mut years: i64 = now.year as i64 - then.year as i64;
    let mut months: i64 = now.month0 as i64 - then.month0 as i64;
    if now.day < then.day {
        months = months - 1;
    }
    if months < 0 {
        years = years - 1;
        months = months + 12;
    }
    if years == 0 {
        if months == 1 {
            "1m ago".to_owned()
        } else {
            joined(signed_decimal_text(months).as_str(), "mo ago")
        }
    } else if years == 1 {
        "last year".to_owned()
    } else {
        joined(signed_decimal_text(years).as_str(), "y ago")
    }
}

/// Says how long before `now` the point in time `then` was.
pub fn format_relative_time_at(now: Timestamp, then: Timestamp) -> (r: String)
    ensures
        r@ == relative_time(now, then),
{
    let seconds: i64 = signed_seconds_since(now, then);
    if 0 <= seconds && seconds < 60 {
        joined(decimal_text(seconds as u64).as_str(), "s ago")
    } else if 60 <= seconds && seconds < 3600 {
        joined(decimal_text(seconds as u64 / 60).as_str(), "m ago")
    } else if 3600 <= seconds && seconds < 86400 {
        joined(decimal_text(seconds as u64 / 3600).as_str(), "h ago")
    } else if 86400 <= seconds && seconds < 604800 {
        let days: u64 = seconds as u64 / 86400;
        if days == 1 {
            "yesterday".to_owned()
        } else {
            joined(decimal_text(days).as_str(), "d ago")
        }
    } else if 604800 <= seconds && seconds < 3024000 {
        let weeks: u64 = seconds as u64 / 604800;
        joined(decimal_text(weeks).as_str(), "w ago")
    } else {
        let today: CivilDate = utc_day(now);
        let day: CivilDate = utc_day(then);
        proof {
            lemma_day_of(today, now);
            lemma_day_of(day, then);
        }
        calendar_age_text(today, day)
    }
}

/// Says how long ago, by the system clock, a point in time was.
pub fn format_relative_time(then: Timestamp) -> (r: String)
    ensures
        exists|now: Timestamp|
            is_clock_time(now) && r@ == #[trigger] relative_time(now, then),
{
    let now: Timestamp = utc_now();
    format_relative_time_at(now, then)
}

/// Where one point in time does not come before another, no part of its age is negative, and the
/// months beyond whole years do not fill another year.
pub proof fn age_of_the_past_is_not_negative(now: CivilDate, then: CivilDate)
    requires
        now.exists_in_calendar(),
        then.exists_in_calendar(),
        then.days_since_1970() <= now.days_since_1970(),
    ensures
        calendar_age(now, then).0 >= 0,
        0 <= calendar_age(now, then).1 < 12,
{
    dates_follow_days(then, now);
    dates_follow_days(now, then);
}

/// Among the years from `first` up to `last` is the one that a day lies in.
proof fn lemma_year_of_day(day: int, first: int, last: int) -> (year: int)
    requires
        first < last,
        days_before_year(first) <= day < days_before_year(last),
    ensures
        first <= year < last,
        days_before_year(year) <= day < days_before_year(year) + days_before_month(year, 12),
    decreases last - first,
{
    lemma_year_length(last - 1);
    if days_before_year(last - 1) <= day {
        last - 1
    } else {
        lemma_year_of_day(day, first, last - 1)
    }
}

/// Among the months of a year before `last` is the one that a day lies in.
proof fn lemma_month_of_day(day: int, year: int, last: int) -> (month0: int)
    requires
        0 < last <= 12,
        0 <= day < days_before_month(year, last),
    ensures
        0 <= month0 < last,
        days_before_month(year, month0) <= day < days_before_month(year, month0 + 1),
    decreases last,
{
    if days_before_month(year, last - 1) <= day {
        last - 1
    } else {
        lemma_month_of_day(day, year, last - 1)
    }
}

/// Every point in time lies on a day of the calendar, and on one only.
pub proof fn every_time_has_its_day(t: Timestamp)
    requires
        is_timestamp(t.secs(), t.nanos()),
    ensures
        day_of(t).is_day_of(t),
        forall|d: CivilDate| #[trigger] d.is_day_of(t) ==> d == day_of(t),
{
    let since_1970 = t.secs() / 86400;
    let since_year_1 = since_1970 + days_before_year(1970);
    let year = lemma_year_of_day(since_year_1, -262143, 262143);
    let day_of_year = since_year_1 - days_before_year(year);
    let month0 = lemma_month_of_day(day_of_year, year, 12);
    let d = CivilDate {
        year: year as i32,
        month0: month0 as u32,
        day: (day_of_year - days_before_month(year, month0) + 1) as u32,
    };
    assert(d.is_day_of(t));
    assert forall|e: CivilDate| #[trigger] e.is_day_of(t) implies e == day_of(t) by {
        lemma_day_of(e, t);
    }
}

/// From one day to another that is 31 days later or more it is at least a month by the calendar.
pub proof fn days_of_a_month_make_a_month(now: CivilDate, then: CivilDate)
    requires
        now.exists_in_calendar(),
        then.exists_in_calendar(),
        then.days_since_1970() + 31 <= now.days_since_1970(),
    ensures
        calendar_age(now, then).0 >= 1 || calendar_age(now, then).1 >= 1,
{
    age_of_the_past_is_not_negative(now, then);
    lemma_year_length(then.year as int);
}

/// What lies five weeks back or more is told by the calendar, as an age of at least one month.
pub proof fn five_weeks_make_a_month(now: Timestamp, then: Timestamp)
    requires
        is_timestamp(now.secs(), now.nanos()),
        is_timestamp(then.secs(), then.nanos()),
        seconds_between(now, then) >= 3024000,
    ensures
        relative_time(now, then) == calendar_age_words(day_of(now), day_of(then)),
        ({
            let (years, months) = calendar_age(day_of(now), day_of(then));
            years >= 0 && 0 <= months < 12 && (years >= 1 || months >= 1)
        }),
{
    every_time_has_its_day(now);
    every_time_has_its_day(then);
    assert(now.secs() - then.secs() >= 3023999);
    assert(now.secs() / 86400 - then.secs() / 86400 >= 34);
    age_of_the_past_is_not_negative(day_of(now), day_of(then));
    days_of_a_month_make_a_month(day_of(now), day_of(then));
}

/// A duration reads the same in both directions.
pub proof fn duration_has_no_direction(a: Timestamp, b: Timestamp)
    ensures
        duration_words(a, b) == duration_words(b, a),
{
    assert(nanos_between(a, b) == -nanos_between(b, a));
}

/// Ages that are told in days are two to six of them, and those that are told in weeks one to four.
pub proof fn days_and_weeks_are_few(now: Timestamp, then: Timestamp)
    ensures
        172800 <= seconds_between(now, then) < 604800 ==> exists|days: nat|
            2 <= days <= 6 && relative_time(now, then) == #[trigger] decimal(days) + "d ago"@,
        604800 <= seconds_between(now, then) < 3024000 ==> exists|weeks: nat|
            1 <= weeks <= 4 && relative_time(now, then) == #[trigger] decimal(weeks) + "w ago"@,
{
    let seconds = seconds_between(now, then);
    if 172800 <= seconds < 604800 {
        let days = (seconds / 86400) as nat;
        assert(relative_time(now, then) == decimal(days) + "d ago"@);
    } else if 604800 <= seconds < 3024000 {
        let weeks = (seconds / 604800) as nat;
        assert(relative_time(now, then) == decimal(weeks) + "w ago"@);
    }
}

proof fn lemma_joined_printable(a: Seq<char>, b: Seq<char>)
    requires
        is_printable_ascii(a),
        is_printable_ascii(b),
    ensures
        is_printable_ascii(a + b),
{
    assert forall|i: int| 0 <= i < (a + b).len() implies ' ' <= #[trigger] (a + b)[i] <= '~' by {
        if i < a.len() {
            assert((a + b)[i] == a[i]);
        } else {
            assert((a + b)[i] == b[i - a.len()]);
        }
    }
}

proof fn lemma_signed_decimal_is_short(n: int)
    requires
        -10_000_000_000 < n < 10_000_000_000,
    ensures
        signed_decimal(n).len() <= 11,
        is_printable_ascii(signed_decimal(n)),
{
    assert(ten_to(10) == 10_000_000_000) by {
        reveal_with_fuel(ten_to, 11);
    }
    if n < 0 {
        decimal_is_short((-n) as nat, 10);
        lemma_joined_printable(seq!['-'], decimal((-n) as nat));
    } else {
        decimal_is_short(n as nat, 10);
    }
}

/// An age in words is a short text of printable ASCII characters.
pub proof fn relative_time_is_short(now: Timestamp, then: Timestamp)
    ensures
        relative_time(now, then).len() <= 17,
        is_printable_ascii(relative_time(now, then)),
{
    let seconds = seconds_between(now, then);
    reveal_strlit("s ago");
    reveal_strlit("m ago");
    reveal_strlit("h ago");
    reveal_strlit("yesterday");
    reveal_strlit("d ago");
    reveal_strlit("w ago");
    reveal_strlit("1m ago");
    reveal_strlit("mo ago");
    reveal_strlit("last year");
    reveal_strlit("y ago");
    assert(ten_to(2) == 100) by {
        reveal_with_fuel(ten_to, 3);
    }
    if 0 <= seconds < 60 {
        decimal_is_short(seconds as nat, 2);
        lemma_joined_printable(decimal(seconds as nat), "s ago"@);
    } else if 60 <= seconds < 3600 {
        decimal_is_short((seconds / 60) as nat, 2);
        lemma_joined_printable(decimal((seconds / 60) as nat), "m ago"@);
    } else if 3600 <= seconds < 86400 {
        decimal_is_short((seconds / 3600) as nat, 2);
        lemma_joined_printable(decimal((seconds / 3600) as nat), "h ago"@);
    } else if 172800 <= seconds < 604800 {
        decimal_is_short((seconds / 86400) as nat, 2);
        lemma_joined_printable(decimal((seconds / 86400) as nat), "d ago"@);
    } else if 604800 <= seconds < 3024000 {
        decimal_is_short((seconds / 604800) as nat, 2);
        lemma_joined_printable(decimal((seconds / 604800) as nat), "w ago"@);
    } else if !(86400 <= seconds < 172800) {
        let (years, months) = calendar_age(day_of(now), day_of(then));
        lemma_signed_decimal_is_short(years);
        lemma_signed_decimal_is_short(months);
        lemma_joined_printable(signed_decimal(months), "mo ago"@);
        lemma_joined_printable(signed_decimal(years), "y ago"@);
    }
}

/// The minutes and seconds of a duration add up to it, and there is never a full minute of seconds.
/// Minutes are left out where there are none.
pub proof fn minutes_and_seconds_add_up(start: Timestamp, end: Timestamp) -> (r: (nat, nat))
    ensures
        ({
            let (minutes, seconds) = r;
            let apart = seconds_between(end, start);
            &&& seconds < 60
            &&& 60 * minutes + seconds == apart || 60 * minutes + seconds == -apart
            &&& minutes == 0 ==> duration_words(start, end) == decimal(seconds) + "s"@
            &&& minutes > 0 ==> duration_words(start, end) == decimal(minutes) + "m "@ + decimal(
                seconds,
            ) + "s"@
        }),
{
    let apart = seconds_between(end, start);
    let total = if apart < 0 {
        -apart
    } else {
        apart
    };
    ((total / 60) as nat, (total % 60) as nat)
}

/// An age of less than five weeks is told as so many of a unit: as many as are full, and fewer than
/// fill the next unit. One day is yesterday.
pub proof fn ages_are_counts_of_the_largest_unit(now: Timestamp, then: Timestamp) -> (n: nat)
    ensures
        ({
            let age = seconds_between(now, then);
            let words = relative_time(now, then);
            &&& 0 <= age < 60 ==> n == age && words == decimal(n) + "s ago"@
            &&& 60 <= age < 60 * 60 ==> 60 * n <= age < 60 * (n + 1) && words == decimal(n)
                + "m ago"@
            &&& 60 * 60 <= age < 24 * 3600 ==> 3600 * n <= age < 3600 * (n + 1) && words == decimal(
                n,
            ) + "h ago"@
            &&& 86400 <= age < 2 * 86400 ==> words == "yesterday"@
            &&& 2 * 86400 <= age < 7 * 86400 ==> 86400 * n <= age < 86400 * (n + 1) && words
                == decimal(n) + "d ago"@
            &&& 7 * 86400 <= age < 35 * 86400 ==> 604800 * n <= age < 604800 * (n + 1) && words
                == decimal(n) + "w ago"@
        }),
{
    let age = seconds_between(now, then);
    if 0 <= age < 60 {
        age as nat
    } else if 60 <= age < 3600 {
        (age / 60) as nat
    } else if 3600 <= age < 86400 {
        (age / 3600) as nat
    } else if 86400 <= age < 604800 {
        (age / 86400) as nat
    } else if age >= 604800 {
        (age / 604800) as nat
    } else {
        0
    }
}

/// An age by the calendar counts full months: so many months after the one day lies on or before the
/// other, and one month more lies after it. Months beyond full years are fewer than twelve.
pub proof fn calendar_ages_count_full_months(now: CivilDate, then: CivilDate)
    requires
        now.exists_in_calendar(),
        then.exists_in_calendar(),
    ensures
        ({
            let (years, months) = calendar_age(now, then);
            let reached = 12 * then.year + then.month0 + 12 * years + months;
            let present = 12 * now.year + now.month0;
            &&& 0 <= months < 12
            &&& reached < present || (reached == present && then.day <= now.day)
            &&& present < reached + 1 || (present == reached + 1 && now.day < then.day)
        }),
{
}

/// An age by the calendar is told in years where there are any, and in months otherwise; one year
/// and one month have words of their own.
pub proof fn calendar_ages_are_told_in_years_or_months(now: Timestamp, then: Timestamp)
    requires
        !(0 <= seconds_between(now, then) < 35 * 86400),
    ensures
        ({
            let (years, months) = calendar_age(day_of(now), day_of(then));
            let words = relative_time(now, then);
            &&& years == 0 && months == 1 ==> words == "1m ago"@
            &&& years == 0 && months != 1 ==> words == signed_decimal(months) + "mo ago"@
            &&& years == 1 ==> words == "last year"@
            &&& years < 0 || years > 1 ==> words == signed_decimal(years) + "y ago"@
        }),
{
}

/// Every second of the representable days is a point in time with any fraction, and the last second
/// of every minute also with a leap second after it.
pub proof fn every_second_is_a_point_in_time(secs: int, nanos: int)
    requires
        -8334601228800 <= secs <= 8210266876799,
        0 <= nanos < 1_000_000_000,
    ensures
        is_timestamp(secs, nanos),
        is_timestamp(secs, nanos + 1_000_000_000) <==> secs % 60 == 59,
        !is_timestamp(secs, nanos + 2_000_000_000),
        !is_timestamp(secs, -1 - nanos),
        !is_timestamp(8210266876800 + nanos, nanos),
        !is_timestamp(-8334601228801 - nanos, nanos),
{
}

} // verus!
