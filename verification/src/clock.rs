//! The clock, and times and dates as texts.
use crate::numeral::push_padded;
use std::time::{Duration, Instant, SystemTime, SystemTimeError};
use vstd::prelude::*;

verus! {

/// `std::time::SystemTime`, a time by the clock.
#[verifier::external_type_specification]
#[verifier::external_body]
pub struct ExSystemTime(SystemTime);

/// `std::time::SystemTimeError`, for a time that lies before another.
#[verifier::external_type_specification]
#[verifier::external_body]
pub struct ExSystemTimeError(SystemTimeError);

/// `std::time::Instant`, a time that never runs back.
#[verifier::external_type_specification]
#[verifier::external_body]
pub struct ExInstant(Instant);

/// `SystemTime::now` reads the clock; nothing is known of what it says.
pub assume_specification[ SystemTime::now ]() -> (r: SystemTime)
;

/// `SystemTime::duration_since` is the length of time from one time to
/// another; nothing is known of it, as nothing is known of the two.
pub assume_specification[ SystemTime::duration_since ](
    t: &SystemTime,
    earlier: SystemTime,
) -> (r: Result<Duration, SystemTimeError>)
;

/// What `Duration::as_secs` gives for a length of time: its whole seconds.
pub uninterp spec fn whole_seconds(d: Duration) -> u64;

/// What `Duration::subsec_millis` gives for a length of time: the whole
/// milliseconds beyond its whole seconds.
pub uninterp spec fn sub_millis(d: Duration) -> u32;

/// `Duration::as_secs` gives the whole seconds of a length of time, which depend
/// on nothing else.
pub assume_specification[ Duration::as_secs ](d: &Duration) -> (r: u64)
    ensures
        r == whole_seconds(*d),
;

/// `Duration::subsec_millis` gives the whole milliseconds beyond the whole
/// seconds of a length of time, which depend on nothing else and are less than a
/// second.
pub assume_specification[ Duration::subsec_millis ](d: &Duration) -> (r: u32)
    ensures
        r == sub_millis(*d),
        r < 1000,
;

/// `Instant::now` reads the clock that never runs back.
pub assume_specification[ Instant::now ]() -> (r: Instant)
;

/// `std::time::UNIX_EPOCH`, the start of 1970 in UTC.
#[verifier::external_body]
fn epoch() -> (r: SystemTime) {
    std::time::UNIX_EPOCH
}

/// A time by the clock: seconds since the start of 1970 in UTC, and
/// milliseconds.
#[derive(Copy, Clone, Debug, PartialEq, Eq, Structural)]
pub struct Moment {
    pub secs: u64,
    pub millis: u32,
}

impl Moment {
    /// The milliseconds are less than a second.
    pub open spec fn wf(self) -> bool {
        self.millis < 1000
    }
}

/// The time that lies some seconds and milliseconds after the start of 1970.
pub fn moment_of(secs: u64, millis: u32) -> (r: Moment)
    requires
        millis < 1000,
    ensures
        r.wf(),
        r.secs == secs,
        r.millis == millis,
{
    Moment { secs, millis }
}

/// The time that lies some while after the start of 1970, or nothing if it lies
/// before. It has the seconds and the milliseconds of the while.
pub fn moment_after(since: Result<Duration, SystemTimeError>) -> (r: Option<Moment>)
    ensures
        since is Err ==> r is None,
        since matches Ok(d) ==> (r matches Some(m) && {
            &&& m.wf()
            &&& m.secs == whole_seconds(d)
            &&& m.millis == sub_millis(d)
        }),
{
    match since {
        Ok(d) => Some(moment_of(d.as_secs(), d.subsec_millis())),
        Err(_) => None,
    }
}

/// The time now, or nothing if the clock says that 1970 has not begun.
pub fn moment_now() -> (r: Option<Moment>)
    ensures
        r matches Some(m) ==> m.wf(),
{
    moment_after(SystemTime::now().duration_since(epoch()))
}

/// Whether a year has a 29th of February.
pub open spec fn is_leap(y: int) -> bool {
    y % 4 == 0 && (y % 100 != 0 || y % 400 == 0)
}

/// How many days a month has.
pub open spec fn month_days(y: int, m: int) -> int {
    if m == 2 {
        if is_leap(y) {
            29
        } else {
            28
        }
    } else if m == 4 || m == 6 || m == 9 || m == 11 {
        30
    } else {
        31
    }
}

/// How many days of a year lie before a month.
pub open spec fn month_start(y: int, m: int) -> int
    decreases m,
{
    if m <= 1 {
        0
    } else {
        month_start(y, m - 1) + month_days(y, m - 1)
    }
}

/// How many days lie between the start of 1970 and the start of a year.
pub open spec fn year_start(y: int) -> int {
    365 * (y - 1970) + (y - 1) / 4 - (y - 1) / 100 + (y - 1) / 400 - 477
}

/// Whether a day is one of the calendar.
pub open spec fn is_date(y: int, m: int, d: int) -> bool {
    1 <= m <= 12 && 1 <= d <= month_days(y, m)
}

/// How many days lie between the start of 1970 and a day.
pub open spec fn day_number(y: int, m: int, d: int) -> int {
    year_start(y) + month_start(y, m) + d - 1
}

/// How many days of a year lie before each month.
proof fn lemma_month_starts(y: int)
    ensures
        ({
            let l: int = if is_leap(y) {
                1
            } else {
                0
            };
            &&& month_start(y, 1) == 0
            &&& month_start(y, 2) == 31
            &&& month_start(y, 3) == 59 + l
            &&& month_start(y, 4) == 90 + l
            &&& month_start(y, 5) == 120 + l
            &&& month_start(y, 6) == 151 + l
            &&& month_start(y, 7) == 181 + l
            &&& month_start(y, 8) == 212 + l
            &&& month_start(y, 9) == 243 + l
            &&& month_start(y, 10) == 273 + l
            &&& month_start(y, 11) == 304 + l
            &&& month_start(y, 12) == 334 + l
        }),
{
    assert(month_start(y, 1) == 0);
    assert(month_start(y, 2) == month_start(y, 1) + month_days(y, 1));
    assert(month_start(y, 3) == month_start(y, 2) + month_days(y, 2));
    assert(month_start(y, 4) == month_start(y, 3) + month_days(y, 3));
    assert(month_start(y, 5) == month_start(y, 4) + month_days(y, 4));
    assert(month_start(y, 6) == month_start(y, 5) + month_days(y, 5));
    assert(month_start(y, 7) == month_start(y, 6) + month_days(y, 6));
    assert(month_start(y, 8) == month_start(y, 7) + month_days(y, 7));
    assert(month_start(y, 9) == month_start(y, 8) + month_days(y, 8));
    assert(month_start(y, 10) == month_start(y, 9) + month_days(y, 9));
    assert(month_start(y, 11) == month_start(y, 10) + month_days(y, 10));
    assert(month_start(y, 12) == month_start(y, 11) + month_days(y, 11));
}

/// By how much a quotient of a year differs from that of the year before.
proof fn lemma_quotient_step(y: int, k: int)
    requires
        k == 4 || k == 100 || k == 400,
    ensures
        y / k - (y - 1) / k == if y % k == 0 {
            1int
        } else {
            0
        },
{
}

/// The years follow each other without a gap: 1970 starts at day 0, and each
/// year ends where the next one starts.
#[verifier::spinoff_prover]
pub proof fn law_years_follow(y: int)
    ensures
        year_start(1970) == 0,
        year_start(y + 1) == year_start(y) + month_start(y, 12) + month_days(y, 12),
{
    lemma_quotient_step(y, 4);
    lemma_quotient_step(y, 100);
    lemma_quotient_step(y, 400);
    assert(year_start(y + 1) - year_start(y) == if is_leap(y) {
        366int
    } else {
        365
    }) by {
        if y % 100 == 0 {
            assert(y % 4 == 0);
        }
        if y % 400 == 0 {
            assert(y % 100 == 0);
        }
    }
    lemma_month_starts(y);
}

/// A year of 400 years from March on: where the year of a day in it starts.
#[verifier::spinoff_prover]
proof fn lemma_year_of_era(doe: int, yoe: int)
    requires
        0 <= doe < 146097,
        yoe == (doe - doe / 1460 + doe / 36524 - doe / 146096) / 365,
    ensures
        0 <= yoe < 400,
        0 <= doe - (365 * yoe + yoe / 4 - yoe / 100) <= 365,
        doe - (365 * yoe + yoe / 4 - yoe / 100) == 365 ==> is_leap(yoe + 1),
{
}

/// The date of a day, by how many days lie between the start of 1970 and it.
pub fn days_to_date(days: u64) -> (r: (u64, u64, u64))
    requires
        days <= u64::MAX - 719468,
    ensures
        is_date(r.0 as int, r.1 as int, r.2 as int),
        day_number(r.0 as int, r.1 as int, r.2 as int) == days,
{
    let z: u64 = days + 719468;
    let era: u64 = z / 146097;
    let doe: u64 = z - era * 146097;
    let yoe: u64 = (doe - doe / 1460 + doe / 36524 - doe / 146096) / 365;
    proof {
        lemma_year_of_era(doe as int, yoe as int);
    }
    let y: u64 = yoe + era * 400;
    let doy: u64 = doe - (365 * yoe + yoe / 4 - yoe / 100);
    let mp: u64 = (5 * doy + 2) / 153;
    let d: u64 = doy - (153 * mp + 2) / 5 + 1;
    let m: u64 = if mp < 10 {
        mp + 3
    } else {
        mp - 9
    };
    let year: u64 = if m <= 2 {
        y + 1
    } else {
        y
    };
    proof {
        lemma_date(era as int, yoe as int, doy as int, mp as int);
    }
    (year, m, d)
}

/// A day of a year that starts in March, in the calendar.
proof fn lemma_date(era: int, yoe: int, doy: int, mp: int)
    requires
        0 <= era,
        0 <= yoe < 400,
        0 <= doy <= 365,
        doy == 365 ==> is_leap(yoe + 1),
        mp == (5 * doy + 2) / 153,
    ensures
        ({
            let d = doy - (153 * mp + 2) / 5 + 1;
            let m = if mp < 10 {
                mp + 3
            } else {
                mp - 9
            };
            let y = if m <= 2 {
                yoe + era * 400 + 1
            } else {
                yoe + era * 400
            };
            &&& is_date(y, m, d)
            &&& day_number(y, m, d) == era * 146097 + 365 * yoe + yoe / 4 - yoe / 100 + doy - 719468
        }),
{
    let y = yoe + era * 400;
    lemma_month_starts(y);
    lemma_month_starts(y + 1);
    assert(is_leap(y) == is_leap(yoe));
    assert(is_leap(y + 1) == is_leap(yoe + 1));
    assert(y / 4 == yoe / 4 + era * 100);
    assert(y / 100 == yoe / 100 + era * 4);
    assert(y / 400 == era);
    assert(0 <= mp <= 11);
    law_years_follow(y);
}

/// The date of a day is the only one with its number.
pub proof fn law_dates_are_distinct(y1: int, m1: int, d1: int, y2: int, m2: int, d2: int)
    requires
        is_date(y1, m1, d1),
        is_date(y2, m2, d2),
        day_number(y1, m1, d1) == day_number(y2, m2, d2),
    ensures
        y1 == y2,
        m1 == m2,
        d1 == d2,
{
    lemma_within_year(y1, m1, d1);
    lemma_within_year(y2, m2, d2);
    if y1 < y2 {
        lemma_years_grow(y1 + 1, y2);
    } else if y2 < y1 {
        lemma_years_grow(y2 + 1, y1);
    } else {
        lemma_month_starts(y1);
    }
}

/// A day of the calendar lies within its year.
pub proof fn lemma_within_year(y: int, m: int, d: int)
    requires
        is_date(y, m, d),
    ensures
        year_start(y) <= day_number(y, m, d) < year_start(y + 1),
{
    lemma_month_starts(y);
    law_years_follow(y);
}

/// A later year does not start earlier.
pub proof fn lemma_years_grow(a: int, b: int)
    requires
        a <= b,
    ensures
        year_start(a) <= year_start(b),
    decreases b - a,
{
    if a < b {
        lemma_years_grow(a + 1, b);
        law_years_follow(a);
        lemma_month_starts(a);
    }
}

/// The time of day, in hours, minutes, seconds and milliseconds.
pub open spec fn clock_text(t: Option<Moment>) -> Seq<char> {
    match t {
        Some(m) => crate::numeral::padded((m.secs as nat / 3600) % 24, 10, 2) + ":"@
            + crate::numeral::padded((m.secs as nat / 60) % 60, 10, 2) + ":"@
            + crate::numeral::padded(m.secs as nat % 60, 10, 2) + "."@ + crate::numeral::padded(
            m.millis as nat,
            10,
            3,
        ),
        None => "??:??:??.???"@,
    }
}

/// The time of day of a moment as a text.
pub fn format_system_time(t: Option<Moment>) -> (r: String)
    ensures
        r@ == clock_text(t),
{
    match t {
        Some(m) => {
            let mut s = String::new();
            push_padded(&mut s, ((m.secs / 3600) % 24) as u128, 10, 2);
            s.append(":");
            push_padded(&mut s, ((m.secs / 60) % 60) as u128, 10, 2);
            s.append(":");
            push_padded(&mut s, (m.secs % 60) as u128, 10, 2);
            s.append(".");
            push_padded(&mut s, m.millis as u128, 10, 3);
            assert(s@ =~= clock_text(t));
            s
        },
        None => "??:??:??.???".to_string(),
    }
}

/// Whether a text is the date and the time of a moment without separators.
pub open spec fn is_stamp(t: Option<Moment>, s: Seq<char>) -> bool {
    match t {
        Some(m) => exists|y: nat, mo: nat, d: nat|
            #![trigger is_date(y as int, mo as int, d as int)]
            is_date(y as int, mo as int, d as int) && day_number(y as int, mo as int, d as int)
                == m.secs / 86400 && s == stamp(y, mo, d, m.secs as nat % 86400),
        None => s == "unknown"@,
    }
}

/// A date and a second of the day without separators.
pub open spec fn stamp(y: nat, m: nat, d: nat, sec: nat) -> Seq<char> {
    crate::numeral::padded(y, 10, 4) + crate::numeral::padded(m, 10, 2) + crate::numeral::padded(
        d,
        10,
        2,
    ) + "_"@ + crate::numeral::padded(sec / 3600, 10, 2) + crate::numeral::padded(
        (sec % 3600) / 60,
        10,
        2,
    ) + crate::numeral::padded(sec % 60, 10, 2)
}

/// The date and the time of a moment, for a file name.
pub fn date_stamp(t: Option<Moment>) -> (r: String)
    ensures
        is_stamp(t, r@),
{
    match t {
        Some(m) => {
            let sec: u64 = m.secs % 86400;
            let (y, mo, d) = days_to_date(m.secs / 86400);
            let mut s = String::new();
            push_padded(&mut s, y as u128, 10, 4);
            push_padded(&mut s, mo as u128, 10, 2);
            push_padded(&mut s, d as u128, 10, 2);
            s.append("_");
            push_padded(&mut s, (sec / 3600) as u128, 10, 2);
            push_padded(&mut s, ((sec % 3600) / 60) as u128, 10, 2);
            push_padded(&mut s, (sec % 60) as u128, 10, 2);
            assert(s@ =~= stamp(y as nat, mo as nat, d as nat, sec as nat));
            assert(is_date(y as nat as int, mo as nat as int, d as nat as int));
            s
        },
        None => "unknown".to_string(),
    }
}

/// The time that an export is marked with: the years of 365 days since 1970,
/// with the first of January for the day, and the time of day.
pub open spec fn export_text(t: Option<Moment>) -> Seq<char> {
    let secs = match t {
        Some(m) => m.secs as nat,
        None => 0,
    };
    crate::numeral::padded(1970 + (secs / 86400) / 365, 10, 4) + "-"@ + "01"@ + "-"@ + "01"@
        + "_"@ + crate::numeral::padded((secs % 86400) / 3600, 10, 2) + "-"@
        + crate::numeral::padded((secs % 3600) / 60, 10, 2) + "-"@ + crate::numeral::padded(
        secs % 60,
        10,
        2,
    )
}

/// The time that an export made at a moment is marked with.
pub fn chrono_at(t: Option<Moment>) -> (r: String)
    ensures
        r@ == export_text(t),
{
    let secs: u64 = match t {
        Some(m) => m.secs,
        None => 0,
    };
    let mut s = String::new();
    push_padded(&mut s, 1970 + ((secs / 86400) / 365) as u128, 10, 4);
    s.append("-");
    s.append("01");
    s.append("-");
    s.append("01");
    s.append("_");
    push_padded(&mut s, ((secs % 86400) / 3600) as u128, 10, 2);
    s.append("-");
    push_padded(&mut s, ((secs % 3600) / 60) as u128, 10, 2);
    s.append("-");
    push_padded(&mut s, (secs % 60) as u128, 10, 2);
    assert(s@ =~= export_text(t));
    s
}

} // verus!
