//! The fixed wire format in which the storage engine renders timestamps
//! inside its diagnostic messages: `YYYY-MM-DD HH:MM:SS+HH` with a signed
//! two-digit hour offset and no minute or second offset component. A parsed
//! timestamp is normalized to UTC seconds since the epoch.

use vstd::prelude::*;

verus! {

pub open spec fn spec_is_digit(c: char) -> bool {
    48 <= c as u32 <= 57
}

pub open spec fn spec_digit(c: char) -> int {
    c as u32 - 48
}

pub open spec fn spec_num2(s: Seq<char>, i: int) -> int {
    10 * spec_digit(s[i]) + spec_digit(s[i + 1])
}

pub open spec fn spec_num4(s: Seq<char>, i: int) -> int {
    1000 * spec_digit(s[i]) + 100 * spec_digit(s[i + 1]) + 10 * spec_digit(s[i + 2]) + spec_digit(
        s[i + 3],
    )
}

pub open spec fn spec_is_leap_year(y: int) -> bool {
    (y % 4 == 0 && y % 100 != 0) || y % 400 == 0
}

pub open spec fn spec_days_in_month(y: int, m: int) -> int {
    if m == 2 {
        if spec_is_leap_year(y) {
            29
        } else {
            28
        }
    } else if m == 4 || m == 6 || m == 9 || m == 11 {
        30
    } else {
        31
    }
}

/// Days in the months `[1, m)` of year `y`.
pub open spec fn spec_days_before_month(y: int, m: int) -> int {
    let base: int = if m == 1 {
        0
    } else if m == 2 {
        31
    } else if m == 3 {
        59
    } else if m == 4 {
        90
    } else if m == 5 {
        120
    } else if m == 6 {
        151
    } else if m == 7 {
        181
    } else if m == 8 {
        212
    } else if m == 9 {
        243
    } else if m == 10 {
        273
    } else if m == 11 {
        304
    } else {
        334
    };
    if m >= 3 && spec_is_leap_year(y) {
        base + 1
    } else {
        base
    }
}

/// Leap years in `[0, y)`, for `y >= 1`; year 0 itself is a leap year.
pub open spec fn spec_leap_years_before(y: int) -> int
    recommends
        y >= 1,
{
    (y - 1) / 4 - (y - 1) / 100 + (y - 1) / 400 + 1
}

/// Days from 0000-01-01 to `y`-01-01, for `y >= 1`.
pub open spec fn spec_days_before_year(y: int) -> int
    recommends
        y >= 1,
{
    365 * y + spec_leap_years_before(y)
}

/// Days from 1970-01-01 to `y`-`m`-`d`; 719528 days lie between 0000-01-01
/// and the epoch.
pub open spec fn spec_epoch_days(y: int, m: int, d: int) -> int {
    spec_days_before_year(y) + spec_days_before_month(y, m) + d - 1 - 719528
}

/// UTC seconds since the epoch of the civil instant `y`-`m`-`d` `h`:`mi`:`s`.
pub open spec fn spec_civil_secs(y: int, m: int, d: int, h: int, mi: int, s: int) -> int {
    spec_epoch_days(y, m, d) * 86400 + h * 3600 + mi * 60 + s
}

/// The wire shape: 22 characters, four-digit year from year 1 on, separators
/// in their fixed places, calendar-valid date, and a signed two-digit hour
/// offset below 24.
pub open spec fn wire_datetime_valid(s: Seq<char>) -> bool {
    &&& s.len() == 22
    &&& spec_is_digit(s[0]) && spec_is_digit(s[1]) && spec_is_digit(s[2]) && spec_is_digit(s[3])
    &&& s[4] == '-'
    &&& spec_is_digit(s[5]) && spec_is_digit(s[6])
    &&& s[7] == '-'
    &&& spec_is_digit(s[8]) && spec_is_digit(s[9])
    &&& s[10] == ' '
    &&& spec_is_digit(s[11]) && spec_is_digit(s[12])
    &&& s[13] == ':'
    &&& spec_is_digit(s[14]) && spec_is_digit(s[15])
    &&& s[16] == ':'
    &&& spec_is_digit(s[17]) && spec_is_digit(s[18])
    &&& s[19] == '+' || s[19] == '-'
    &&& spec_is_digit(s[20]) && spec_is_digit(s[21])
    &&& spec_num4(s, 0) >= 1
    &&& 1 <= spec_num2(s, 5) <= 12
    &&& 1 <= spec_num2(s, 8) <= spec_days_in_month(spec_num4(s, 0), spec_num2(s, 5))
    &&& spec_num2(s, 11) <= 23
    &&& spec_num2(s, 14) <= 59
    &&& spec_num2(s, 17) <= 59
    &&& spec_num2(s, 20) <= 23
}

/// The UTC instant a valid wire timestamp denotes: the civil instant minus
/// the signed hour offset.
pub open spec fn wire_datetime_secs(s: Seq<char>) -> int
    recommends
        wire_datetime_valid(s),
{
    let civil = spec_civil_secs(
        spec_num4(s, 0),
        spec_num2(s, 5),
        spec_num2(s, 8),
        spec_num2(s, 11),
        spec_num2(s, 14),
        spec_num2(s, 17),
    );
    if s[19] == '-' {
        civil + spec_num2(s, 20) * 3600
    } else {
        civil - spec_num2(s, 20) * 3600
    }
}

/// The value of the digit at position `i`, or `None` where the character is
/// no digit.
fn digit_at(v: &Vec<char>, i: usize) -> (r: Option<u64>)
    requires
        i < v@.len(),
    ensures
        match r {
            Some(d) => spec_is_digit(v@[i as int]) && d == spec_digit(v@[i as int]),
            None => !spec_is_digit(v@[i as int]),
        },
{
    let c = v[i];
    let u: u32 = c as u32;
    if 48 <= u && u <= 57 {
        Some((u - 48) as u64)
    } else {
        None
    }
}

fn num2_at(v: &Vec<char>, i: usize) -> (r: Option<u64>)
    requires
        i + 1 < v@.len(),
        v@.len() <= usize::MAX,
    ensures
        match r {
            Some(d) => spec_is_digit(v@[i as int]) && spec_is_digit(v@[i + 1]) && d == spec_num2(
                v@,
                i as int,
            ),
            None => !(spec_is_digit(v@[i as int]) && spec_is_digit(v@[i + 1])),
        },
{
    match (digit_at(v, i), digit_at(v, i + 1)) {
        (Some(a), Some(b)) => Some(10 * a + b),
        _ => None,
    }
}

fn num4_at(v: &Vec<char>, i: usize) -> (r: Option<u64>)
    requires
        i + 3 < v@.len(),
        v@.len() <= usize::MAX,
    ensures
        match r {
            Some(d) => spec_is_digit(v@[i as int]) && spec_is_digit(v@[i + 1]) && spec_is_digit(
                v@[i + 2],
            ) && spec_is_digit(v@[i + 3]) && d == spec_num4(v@, i as int),
            None => !(spec_is_digit(v@[i as int]) && spec_is_digit(v@[i + 1]) && spec_is_digit(
                v@[i + 2],
            ) && spec_is_digit(v@[i + 3])),
        },
{
    match (digit_at(v, i), digit_at(v, i + 1), digit_at(v, i + 2), digit_at(v, i + 3)) {
        (Some(a), Some(b), Some(c), Some(d)) => Some(1000 * a + 100 * b + 10 * c + d),
        _ => None,
    }
}

fn days_in_month(y: u64, m: u64) -> (r: u64)
    requires
        1 <= m <= 12,
    ensures
        r == spec_days_in_month(y as int, m as int),
{
    if m == 2 {
        if (y % 4 == 0 && y % 100 != 0) || y % 400 == 0 {
            29
        } else {
            28
        }
    } else if m == 4 || m == 6 || m == 9 || m == 11 {
        30
    } else {
        31
    }
}

/// UTC seconds since the epoch of a civil instant, computed by counting the
/// days before the year, before the month, and within the month.
fn civil_secs(y: u64, m: u64, d: u64, h: u64, mi: u64, s: u64) -> (r: i64)
    requires
        1 <= y <= 9999,
        1 <= m <= 12,
        1 <= d <= 31,
        h <= 23,
        mi <= 59,
        s <= 59,
    ensures
        r == spec_civil_secs(y as int, m as int, d as int, h as int, mi as int, s as int),
{
    let leaps: u64 = (y - 1) / 4 - (y - 1) / 100 + (y - 1) / 400 + 1;
    let dby: u64 = 365 * y + leaps;
    let dbm: u64 = if m == 1 {
        0
    } else if m == 2 {
        31
    } else if m == 3 {
        59
    } else if m == 4 {
        90
    } else if m == 5 {
        120
    } else if m == 6 {
        151
    } else if m == 7 {
        181
    } else if m == 8 {
        212
    } else if m == 9 {
        243
    } else if m == 10 {
        273
    } else if m == 11 {
        304
    } else {
        334
    };
    let dbm: u64 = if m >= 3 && ((y % 4 == 0 && y % 100 != 0) || y % 400 == 0) {
        dbm + 1
    } else {
        dbm
    };
    let days: i64 = (dby + dbm + d - 1) as i64 - 719528;
    days * 86400 + (h * 3600 + mi * 60 + s) as i64
}

/// Parses the characters `[from, to)` of `v` as one wire-format timestamp.
#[verifier::rlimit(50)]
pub fn parse_datetime_range(v: &Vec<char>, from: usize, to: usize) -> (r: Result<i64, ()>)
    requires
        from <= to <= v@.len(),
    ensures
        r is Ok <==> wire_datetime_valid(v@.subrange(from as int, to as int)),
        r matches Ok(secs) ==> secs == wire_datetime_secs(v@.subrange(from as int, to as int)),
{
    let ghost sub = v@.subrange(from as int, to as int);
    let n: usize = v.len();
    if to - from != 22 {
        return Err(());
    }
    if !(v[from + 4] == '-' && v[from + 7] == '-' && v[from + 10] == ' ' && v[from + 13] == ':'
        && v[from + 16] == ':') {
        return Err(());
    }
    let sign = v[from + 19];
    if !(sign == '+' || sign == '-') {
        return Err(());
    }
    let year = match num4_at(v, from) {
        Some(d) => d,
        None => {
            return Err(());
        },
    };
    let month = match num2_at(v, from + 5) {
        Some(d) => d,
        None => {
            return Err(());
        },
    };
    let day = match num2_at(v, from + 8) {
        Some(d) => d,
        None => {
            return Err(());
        },
    };
    let hour = match num2_at(v, from + 11) {
        Some(d) => d,
        None => {
            return Err(());
        },
    };
    let minute = match num2_at(v, from + 14) {
        Some(d) => d,
        None => {
            return Err(());
        },
    };
    let second = match num2_at(v, from + 17) {
        Some(d) => d,
        None => {
            return Err(());
        },
    };
    let off = match num2_at(v, from + 20) {
        Some(d) => d,
        None => {
            return Err(());
        },
    };
    proof {
        assert(year == spec_num4(sub, 0));
        assert(month == spec_num2(sub, 5));
        assert(day == spec_num2(sub, 8));
        assert(hour == spec_num2(sub, 11));
        assert(minute == spec_num2(sub, 14));
        assert(second == spec_num2(sub, 17));
        assert(off == spec_num2(sub, 20));
    }
    if year < 1 {
        return Err(());
    }
    if month < 1 || month > 12 {
        return Err(());
    }
    if day < 1 || day > days_in_month(year, month) {
        return Err(());
    }
    if hour > 23 || minute > 59 || second > 59 || off > 23 {
        return Err(());
    }
    let civil = civil_secs(year, month, day, hour, minute, second);
    let shift: i64 = (off * 3600) as i64;
    if sign == '-' {
        Ok(civil + shift)
    } else {
        Ok(civil - shift)
    }
}

/// Parses one timestamp of the wire format into UTC seconds since the epoch;
/// every string outside the format is refused.
pub fn parse_datetime(s: &str) -> (r: Result<i64, ()>)
    ensures
        r is Ok <==> wire_datetime_valid(s@),
        r matches Ok(secs) ==> secs == wire_datetime_secs(s@),
{
    let v = crate::strutil::to_chars(s);
    let n: usize = v.len();
    proof {
        assert(v@.subrange(0, n as int) =~= s@);
    }
    parse_datetime_range(&v, 0, n)
}

} // verus!
