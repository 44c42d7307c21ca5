//! FIX UTCTimestamp text (`YYYYMMDD-HH:MM:SS.sss`) for SendingTime and
//! TransactTime, from a count of nanoseconds since the Unix epoch.
use vstd::prelude::*;

verus! {

/// Whether `y` is a Gregorian leap year.
pub open spec fn is_leap(y: int) -> bool {
    (y % 4 == 0 && y % 100 != 0) || y % 400 == 0
}

/// The days in year `y`.
pub open spec fn year_len(y: int) -> nat {
    if is_leap(y) {
        366
    } else {
        365
    }
}

/// The days in month `m` (1 to 12) of year `y`.
pub open spec fn month_len(y: int, m: int) -> nat {
    if m == 2 {
        if is_leap(y) {
            29
        } else {
            28
        }
    } else if m == 4 || m == 6 || m == 9 || m == 11 {
        30
    } else {
        31
    }
}

/// The year and the (zero-based) day within it that lie `days` days after
/// the start of year `y`.
pub open spec fn year_and_day(days: nat, y: int) -> (int, nat)
    decreases days,
{
    if days < year_len(y) {
        (y, days)
    } else {
        year_and_day((days - year_len(y)) as nat, y + 1)
    }
}

/// The month and the (zero-based) day within it of the `doy`-th day of
/// year `y`, counting months from `m`.
pub open spec fn month_and_day(doy: nat, y: int, m: int) -> (int, nat)
    decreases 12 - m,
{
    if m >= 12 || doy < month_len(y, m) {
        (m, doy)
    } else {
        month_and_day((doy - month_len(y, m)) as nat, y, m + 1)
    }
}

/// `n` as `k` zero-padded decimal digits (the low `k` digits).
pub open spec fn padded(n: nat, k: nat) -> Seq<u8>
    decreases k,
{
    if k == 0 {
        Seq::empty()
    } else {
        padded(n / 10, (k - 1) as nat).push((48 + n % 10) as u8)
    }
}

/// The FIX UTCTimestamp of `unix_nanos` nanoseconds after the Unix epoch,
/// to the millisecond.
pub open spec fn spec_fix_timestamp(unix_nanos: u64) -> Seq<u8> {
    let secs = unix_nanos / 1_000_000_000;
    let millis = (unix_nanos / 1_000_000) % 1000;
    let days = secs / 86400;
    let sod = secs % 86400;
    let (y, doy) = year_and_day(days as nat, 1970);
    let (m, d) = month_and_day(doy, y, 1);
    padded(y as nat, 4) + padded(m as nat, 2) + padded(d + 1, 2) + seq![45u8] + padded(
        (sod / 3600) as nat,
        2,
    ) + seq![58u8] + padded((sod / 60 % 60) as nat, 2) + seq![58u8] + padded((sod % 60) as nat, 2)
        + seq![46u8] + padded(millis as nat, 3)
}

/// Appends `n` as `k` zero-padded digits.
fn push_padded(out: &mut Vec<u8>, n: u64, k: u64)
    requires
        k <= 20,
    ensures
        final(out)@ == old(out)@ + padded(n as nat, k as nat),
    decreases k,
{
    if k > 0 {
        push_padded(out, n / 10, k - 1);
        out.push(48u8 + (n % 10) as u8);
        assert(final(out)@ =~= old(out)@ + padded(n as nat, k as nat));
    } else {
        assert(final(out)@ =~= old(out)@ + padded(n as nat, k as nat));
    }
}

/// The FIX UTCTimestamp of `unix_nanos` nanoseconds after the Unix epoch.
pub fn fix_timestamp(unix_nanos: u64) -> (ts: Vec<u8>)
    ensures
        ts@ == spec_fix_timestamp(unix_nanos),
{
    let secs = unix_nanos / 1_000_000_000;
    let millis = (unix_nanos / 1_000_000) % 1000;
    let days0 = secs / 86400;
    let sod = secs % 86400;
    let mut days = days0;
    let mut y: u64 = 1970;
    while days >= year_length(y)
        invariant
            1970 <= y,
            days <= days0,
            days0 <= 213_504,
            (y - 1970) * 365 <= days0 - days,
            year_and_day(days0 as nat, 1970) == year_and_day(days as nat, y as int),
        decreases days,
    {
        days = days - year_length(y);
        y = y + 1;
    }
    let mut doy = days;
    let mut m: u64 = 1;
    while m < 12 && doy >= month_length(y, m)
        invariant
            1 <= m <= 12,
            y <= 3000,
            doy <= days < 366,
            month_and_day(days as nat, y as int, 1) == month_and_day(doy as nat, y as int, m as int),
        decreases 12 - m,
    {
        doy = doy - month_length(y, m);
        m = m + 1;
    }
    let mut out: Vec<u8> = Vec::new();
    push_padded(&mut out, y, 4);
    push_padded(&mut out, m, 2);
    push_padded(&mut out, doy + 1, 2);
    out.push(45u8);
    push_padded(&mut out, sod / 3600, 2);
    out.push(58u8);
    push_padded(&mut out, sod / 60 % 60, 2);
    out.push(58u8);
    push_padded(&mut out, sod % 60, 2);
    out.push(46u8);
    push_padded(&mut out, millis, 3);
    out
}

/// The days in year `y`.
fn year_length(y: u64) -> (n: u64)
    ensures
        n == year_len(y as int),
{
    if (y % 4 == 0 && y % 100 != 0) || y % 400 == 0 {
        366
    } else {
        365
    }
}

/// The days in month `m` of year `y`.
fn month_length(y: u64, m: u64) -> (n: u64)
    ensures
        n == month_len(y as int, m as int),
{
    if m == 2 {
        if (y % 4 == 0 && y % 100 != 0) || y % 400 == 0 {
            29
        } else {
            28
        }
    } else if m == 4 || m == 6 || m == 9 || m == 11 {
        30
    } else {
        31
    }
}

/// The FIX UTCTimestamp of the wall-clock time now.
pub fn now_fix_timestamp() -> (ts: Vec<u8>)
    ensures
        exists|t: u64| ts@ == spec_fix_timestamp(t),
{
    fix_timestamp(crate::time::unix_now_nanos())
}

} // verus!
