//! Civil (proleptic Gregorian, UTC) dates from day counts since 1970-01-01,
//! and the ISO-8601 millisecond timestamp text built from them.
use vstd::prelude::*;
use crate::text::{padded, push_padded};

verus! {

pub open spec fn is_leap(y: int) -> bool {
    y % 4 == 0 && (y % 100 != 0 || y % 400 == 0)
}

pub open spec fn year_len(y: int) -> int {
    if is_leap(y) {
        366
    } else {
        365
    }
}

/// Days from 1970-01-01 to the first day of year `y`.
pub open spec fn days_before_year(y: int) -> int
    decreases y - 1970,
{
    if y <= 1970 {
        0
    } else {
        days_before_year(y - 1) + year_len(y - 1)
    }
}

/// Length of month `m` (1 to 12) of year `y`.
pub open spec fn month_len(y: int, m: int) -> int {
    if m == 2 {
        if is_leap(y) {
            29
        } else {
            28
        }
    } else if m == 4 || m == 6 || m == 9 || m == 11 {
        30
    } else {
        31
    }
}

/// Days from the start of year `y` to the first day of month `m`.
pub open spec fn days_before_month(y: int, m: int) -> int
    decreases m,
{
    if m <= 1 {
        0
    } else {
        days_before_month(y, m - 1) + month_len(y, m - 1)
    }
}

/// `(y, m, d)` is the date that lies `days` days after 1970-01-01.
pub open spec fn is_date_of(days: int, y: int, m: int, d: int) -> bool {
    &&& y >= 1970
    &&& 1 <= m <= 12
    &&& 1 <= d <= month_len(y, m)
    &&& days == days_before_year(y) + days_before_month(y, m) + d - 1
}

proof fn lemma_months_fill_year(y: int)
    ensures
        days_before_month(y, 13) == year_len(y),
{
    reveal_with_fuel(days_before_month, 13);
}

fn is_leap_year(y: u64) -> (r: bool)
    ensures
        r == is_leap(y as int),
{
    y % 4 == 0 && (y % 100 != 0 || y % 400 == 0)
}

fn days_in_month(y: u64, m: u64) -> (r: u64)
    ensures
        r == month_len(y as int, m as int),
{
    if m == 2 {
        if is_leap_year(y) {
            29
        } else {
            28
        }
    } else if m == 4 || m == 6 || m == 9 || m == 11 {
        30
    } else {
        31
    }
}

/// Convert a count of days since 1970-01-01 into (year, month, day).
pub fn days_to_ymd(days: u64) -> (r: (u64, u64, u64))
    ensures
        is_date_of(days as int, r.0 as int, r.1 as int, r.2 as int),
{
    let mut d = days;
    let mut y: u64 = 1970;
    loop
        invariant
            y >= 1970,
            d as int + days_before_year(y as int) == days as int,
            365 * (y - 1970) <= days_before_year(y as int),
        ensures
            y >= 1970,
            d as int + days_before_year(y as int) == days as int,
            (d as int) < year_len(y as int),
        decreases d,
    {
        let days_in_year: u64 = if is_leap_year(y) {
            366
        } else {
            365
        };
        if d < days_in_year {
            break;
        }
        d -= days_in_year;
        y += 1;
    }
    proof {
        lemma_months_fill_year(y as int);
    }
    let mut mo: u64 = 1;
    loop
        invariant
            1 <= mo <= 12,
            d as int + days_before_month(y as int, mo as int) < year_len(y as int),
            days_before_month(y as int, 13) == year_len(y as int),
            d as int + days_before_month(y as int, mo as int) + days_before_year(y as int)
                == days as int,
        ensures
            1 <= mo <= 12,
            (d as int) < month_len(y as int, mo as int),
            d as int + days_before_month(y as int, mo as int) + days_before_year(y as int)
                == days as int,
        decreases 12 - mo,
    {
        let md = days_in_month(y, mo);
        if d < md {
            break;
        }
        d -= md;
        assert(days_before_month(y as int, mo + 1) == days_before_month(y as int, mo as int)
            + month_len(y as int, mo as int));
        if mo == 12 {
            assert(false);
        }
        mo += 1;
    }
    (y, mo, d + 1)
}

/// `YYYY-MM-DDTHH:MM:SS.mmmZ` for the given fields.
pub open spec fn iso8601_text(y: nat, mo: nat, d: nat, h: nat, mi: nat, s: nat, ms: nat) -> Seq<
    char,
> {
    padded(y, 4) + seq!['-'] + padded(mo, 2) + seq!['-'] + padded(d, 2) + seq!['T'] + padded(
        h,
        2,
    ) + seq![':'] + padded(mi, 2) + seq![':'] + padded(s, 2) + seq!['.'] + padded(ms, 3) + seq![
        'Z',
    ]
}

/// `text` is the UTC timestamp of `secs` seconds and `millis` milliseconds
/// after 1970-01-01T00:00:00Z.
pub open spec fn is_timestamp_of(text: Seq<char>, secs: nat, millis: nat) -> bool {
    exists|y: int, mo: int, d: int|
        #[trigger] is_date_of((secs / 86400) as int, y, mo, d) && text == iso8601_text(
            y as nat,
            mo as nat,
            d as nat,
            (secs / 3600) % 24,
            (secs / 60) % 60,
            secs % 60,
            millis,
        )
}

/// The ISO-8601 UTC timestamp, at millisecond precision, of `secs` seconds
/// and `millis` milliseconds after the Unix epoch.
pub fn iso8601_at(secs: u64, millis: u64) -> (r: String)
    ensures
        is_timestamp_of(r@, secs as nat, millis as nat),
{
    let s = secs % 60;
    let m = (secs / 60) % 60;
    let h = (secs / 3600) % 24;
    let days = secs / 86400;
    let (y, mo, d) = days_to_ymd(days);
    let mut out = String::new();
    push_padded(&mut out, y, 4);
    out.push('-');
    push_padded(&mut out, mo, 2);
    out.push('-');
    push_padded(&mut out, d, 2);
    out.push('T');
    push_padded(&mut out, h, 2);
    out.push(':');
    push_padded(&mut out, m, 2);
    out.push(':');
    push_padded(&mut out, s, 2);
    out.push('.');
    push_padded(&mut out, millis, 3);
    out.push('Z');
    proof {
        assert(out@ =~= iso8601_text(
            y as nat,
            mo as nat,
            d as nat,
            (secs / 3600) as nat % 24,
            (secs / 60) as nat % 60,
            secs as nat % 60,
            millis as nat,
        ));
        assert(is_date_of((secs as nat / 86400) as int, y as int, mo as int, d as int));
    }
    out
}

/// Relies on `SystemTime::now` and its distance from `UNIX_EPOCH` (zero for a
/// clock before the epoch): whole seconds and the sub-second milliseconds.
#[verifier::external_body]
fn unix_time_now() -> (r: (u64, u64))
    ensures
        r.1 < 1000,
{
    let d = std::time::SystemTime::now().duration_since(std::time::UNIX_EPOCH).unwrap_or_default();
    (d.as_secs(), d.subsec_millis() as u64)
}

/// The current UTC time as an ISO-8601 timestamp with milliseconds.
pub fn iso8601_now() -> (r: String)
    ensures
        exists|secs: nat, millis: nat| millis < 1000 && #[trigger] is_timestamp_of(r@, secs, millis),
{
    let (secs, millis) = unix_time_now();
    let r = iso8601_at(secs, millis);
    assert(is_timestamp_of(r@, secs as nat, millis as nat));
    r
}

} // verus!
