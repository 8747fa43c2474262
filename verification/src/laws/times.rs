//! Times and dates as texts: what can be read out of them.
use crate::clock::{
    clock_text, day_number, export_text, is_date, is_leap, is_stamp, month_days, stamp, year_start,
    Moment,
};
use crate::laws::numbers::{law_width_is_filled, law_written_number_is_read};
use crate::numeral::{padded, unsigned_of};
use vstd::prelude::*;

verus! {

/// The number that stands in a text from one place up to another.
pub open spec fn reads(s: Seq<char>, from: int, to: int) -> int {
    match unsigned_of(s.subrange(from, to), 10, 1_000_000) {
        Some(n) => n as int,
        None => -1,
    }
}

proof fn lemma_field(n: nat, width: nat)
    requires
        n < 100 && width == 2 || n < 1000 && width == 3 || n < 10000 && width == 4,
    ensures
        padded(n, 10, width).len() == width,
        unsigned_of(padded(n, 10, width), 10, 1_000_000) == Some(n),
{
    assert(vstd::arithmetic::power::pow(10, 2) == 100 && vstd::arithmetic::power::pow(10, 3) == 1000
        && vstd::arithmetic::power::pow(10, 4) == 10000) by {
        reveal_with_fuel(vstd::arithmetic::power::pow, 5);
    }
    law_width_is_filled(n, 10, width, 0);
    law_written_number_is_read(n, 10, width, 1_000_000);
}

proof fn lemma_time_parts(secs: nat)
    ensures
        ((secs / 3600) % 24) * 3600 + ((secs / 60) % 60) * 60 + secs % 60 == secs % 86400,
{
    let h = secs / 3600;
    let m = secs / 60;
    assert(m / 60 == h);
    assert(h / 24 == secs / 86400);
}

proof fn lemma_clock_parts(a: Seq<char>, b: Seq<char>, c: Seq<char>, d: Seq<char>)
    requires
        a.len() == 2,
        b.len() == 2,
        c.len() == 2,
        d.len() == 3,
    ensures
        ({
            let s = a + ":"@ + b + ":"@ + c + "."@ + d;
            &&& s.len() == 12
            &&& s.subrange(0, 2) == a && s.subrange(3, 5) == b && s.subrange(6, 8) == c
            &&& s.subrange(9, 12) == d
            &&& s[2] == ':' && s[5] == ':' && s[8] == '.'
        }),
{
    reveal_strlit(":");
    reveal_strlit(".");
    let s = a + ":"@ + b + ":"@ + c + "."@ + d;
    assert(s.subrange(0, 2) =~= a);
    assert(s.subrange(3, 5) =~= b);
    assert(s.subrange(6, 8) =~= c);
    assert(s.subrange(9, 12) =~= d);
}

/// The time of day is shown in hours, minutes, seconds and milliseconds, which together
/// are the time since the day began; where there is no clock, it is shown that nothing
/// is known.
pub proof fn law_time_of_day_can_be_read(m: Moment)
    requires
        m.wf(),
    ensures
        clock_text(None) == "??:??:??.???"@,
        ({
            let s = clock_text(Some(m));
            let hours = reads(s, 0, 2);
            let minutes = reads(s, 3, 5);
            let seconds = reads(s, 6, 8);
            &&& s.len() == 12
            &&& s[2] == ':' && s[5] == ':' && s[8] == '.'
            &&& 0 <= hours < 24 && 0 <= minutes < 60 && 0 <= seconds < 60
            &&& hours * 3600 + minutes * 60 + seconds == m.secs % 86400
            &&& reads(s, 9, 12) == m.millis
        }),
{
    let h = (m.secs as nat / 3600) % 24;
    let mi = (m.secs as nat / 60) % 60;
    let se = m.secs as nat % 60;
    lemma_field(h, 2);
    lemma_field(mi, 2);
    lemma_field(se, 2);
    lemma_field(m.millis as nat, 3);
    lemma_time_parts(m.secs as nat);
    lemma_clock_parts(
        padded(h, 10, 2),
        padded(mi, 10, 2),
        padded(se, 10, 2),
        padded(m.millis as nat, 10, 3),
    );
}

/// The days of the months, and the years that have one more.
pub proof fn law_months_have_days(y: int)
    ensures
        month_days(y, 1) == 31 && month_days(y, 3) == 31 && month_days(y, 4) == 30 && month_days(
            y,
            5,
        ) == 31 && month_days(y, 6) == 30,
        month_days(y, 7) == 31 && month_days(y, 8) == 31 && month_days(y, 9) == 30 && month_days(
            y,
            10,
        ) == 31 && month_days(y, 11) == 30 && month_days(y, 12) == 31,
        month_days(y, 2) == 28 || month_days(y, 2) == 29,
        month_days(y, 2) == 29 <==> is_leap(y),
        y % 4 != 0 ==> !is_leap(y),
        y % 4 == 0 && y % 100 != 0 ==> is_leap(y),
        y % 100 == 0 && y % 400 != 0 ==> !is_leap(y),
        y % 400 == 0 ==> is_leap(y),
{
}

/// The first day is the first of January 1970, and each day has the number behind that
/// of the day before it, also from month to month and from year to year.
pub proof fn law_days_follow_each_other(y: int, m: int, d: int)
    requires
        is_date(y, m, d),
    ensures
        day_number(1970, 1, 1) == 0,
        is_date(y, m, d + 1) ==> day_number(y, m, d + 1) == day_number(y, m, d) + 1,
        !is_date(y, m, d + 1) && m < 12 ==> is_date(y, m + 1, 1) && day_number(y, m + 1, 1)
            == day_number(y, m, d) + 1,
        !is_date(y, m, d + 1) && m == 12 ==> is_date(y + 1, 1, 1) && day_number(y + 1, 1, 1)
            == day_number(y, m, d) + 1,
        year_start(y) == day_number(y, 1, 1),
{
    crate::clock::law_years_follow(y);
    crate::clock::law_years_follow(1970);
    assert(crate::clock::month_start(y, m + 1) == crate::clock::month_start(y, m) + month_days(
        y,
        m,
    ));
    assert(crate::clock::month_start(y + 1, 1) == 0);
    assert(crate::clock::month_start(1970, 1) == 0);
}

/// The stamp of a moment up to the year 9999 is its date and its time of day, which can
/// be read from it.
pub proof fn law_stamp_can_be_read(m: Moment, s: Seq<char>)
    requires
        is_stamp(Some(m), s),
        m.secs / 86400 < day_number(10000, 1, 1),
    ensures
        s.len() == 15,
        s[8] == '_',
        is_date(reads(s, 0, 4), reads(s, 4, 6), reads(s, 6, 8)),
        day_number(reads(s, 0, 4), reads(s, 4, 6), reads(s, 6, 8)) == m.secs / 86400,
        0 <= reads(s, 11, 13) < 60 && 0 <= reads(s, 13, 15) < 60,
        reads(s, 9, 11) * 3600 + reads(s, 11, 13) * 60 + reads(s, 13, 15) == m.secs % 86400,
{
    reveal_strlit("_");
    let (y, mo, d) = choose|y: nat, mo: nat, d: nat|
        #![trigger is_date(y as int, mo as int, d as int)]
        is_date(y as int, mo as int, d as int) && day_number(y as int, mo as int, d as int)
            == m.secs / 86400 && s == stamp(y, mo, d, m.secs as nat % 86400);
    if y >= 10000 {
        crate::clock::lemma_years_grow(10000, y as int);
        crate::clock::lemma_within_year(y as int, mo as int, d as int);
        assert(crate::clock::month_start(10000, 1) == 0);
        assert(false);
    }
    let sec = m.secs as nat % 86400;
    lemma_field(y, 4);
    lemma_field(mo, 2);
    lemma_field(d, 2);
    lemma_field(sec / 3600, 2);
    lemma_field((sec % 3600) / 60, 2);
    lemma_field(sec % 60, 2);
    assert(s.subrange(0, 4) =~= padded(y, 10, 4));
    assert(s.subrange(4, 6) =~= padded(mo, 10, 2));
    assert(s.subrange(6, 8) =~= padded(d, 10, 2));
    assert(s.subrange(9, 11) =~= padded(sec / 3600, 10, 2));
    assert(s.subrange(11, 13) =~= padded((sec % 3600) / 60, 10, 2));
    assert(s.subrange(13, 15) =~= padded(sec % 60, 10, 2));
}

/// Where there is no clock, the stamp says that nothing is known.
pub proof fn law_stamp_without_clock(s: Seq<char>)
    ensures
        is_stamp(None, s) <==> s == "unknown"@,
{
}

/// The mark of an export is a year, counted by 365 days, the first of January, and the
/// time of day; where there is no clock, it is that of the start of 1970.
pub proof fn law_export_mark_can_be_read(t: Option<Moment>)
    requires
        t matches Some(m) ==> m.secs / 86400 < 365 * 8030,
    ensures
        ({
            let s = export_text(t);
            let secs: int = match t {
                Some(m) => m.secs as int,
                None => 0,
            };
            &&& s.len() == 19
            &&& s.subrange(4, 11) == "-01-01_"@
            &&& s[13] == '-' && s[16] == '-'
            &&& 365 * (reads(s, 0, 4) - 1970) <= secs / 86400 < 365 * (reads(s, 0, 4) - 1969)
            &&& 0 <= reads(s, 14, 16) < 60 && 0 <= reads(s, 17, 19) < 60
            &&& reads(s, 11, 13) * 3600 + reads(s, 14, 16) * 60 + reads(s, 17, 19) == secs % 86400
        }),
{
    reveal_strlit("-");
    reveal_strlit("01");
    reveal_strlit("_");
    reveal_strlit("-01-01_");
    let s = export_text(t);
    let secs: nat = match t {
        Some(m) => m.secs as nat,
        None => 0,
    };
    let y = 1970 + (secs / 86400) / 365;
    lemma_field(y, 4);
    lemma_field((secs % 86400) / 3600, 2);
    lemma_field((secs % 3600) / 60, 2);
    lemma_field(secs % 60, 2);
    assert(s.subrange(0, 4) =~= padded(y, 10, 4));
    assert(s.subrange(4, 11) =~= "-01-01_"@);
    assert(s.subrange(11, 13) =~= padded((secs % 86400) / 3600, 10, 2));
    assert(s.subrange(14, 16) =~= padded((secs % 3600) / 60, 10, 2));
    assert(s.subrange(17, 19) =~= padded(secs % 60, 10, 2));
}

} // verus!
