//! Timestamp rendering: a relative age (`3d ago`, `5h left`, or a short
//! date once more than thirty days away) and a fixed-format UTC
//! timestamp, from seconds since the UNIX epoch.

use vstd::prelude::*;

use crate::numfmt::{dec_digits, u64_to_string};

verus! {

/// Lowest representable timestamp; anything outside the representable
/// range falls back to the epoch.
pub open spec fn min_timestamp() -> int {
    -377705116800
}

/// Highest representable timestamp.
pub open spec fn max_timestamp() -> int {
    253402300799
}

/// The timestamp actually rendered: out-of-range input falls back to
/// the epoch.
pub open spec fn clamp_timestamp(ts: int) -> int {
    if min_timestamp() <= ts <= max_timestamp() {
        ts
    } else {
        0
    }
}

/// The calendar year is a leap year.
pub open spec fn is_leap(y: int) -> bool {
    (y % 4 == 0 && y % 100 != 0) || y % 400 == 0
}

/// Days in a calendar year.
pub open spec fn year_len(y: int) -> int {
    if is_leap(y) {
        366
    } else {
        365
    }
}

/// Days in a calendar month.
pub open spec fn month_len(y: int, m: int) -> int {
    if m == 1 {
        31
    } else if m == 2 {
        if is_leap(y) {
            29
        } else {
            28
        }
    } else if m == 3 {
        31
    } else if m == 4 {
        30
    } else if m == 5 {
        31
    } else if m == 6 {
        30
    } else if m == 7 {
        31
    } else if m == 8 {
        31
    } else if m == 9 {
        30
    } else if m == 10 {
        31
    } else if m == 11 {
        30
    } else {
        31
    }
}

/// Walks forward from year `y` until the remaining day count fits.
pub open spec fn adv_year(y: int, rem: int) -> (int, int)
    decreases rem,
{
    if rem < year_len(y) {
        (y, rem)
    } else {
        adv_year(y + 1, rem - year_len(y))
    }
}

/// Walks backward from year `y` until the day count is non-negative.
pub open spec fn retreat_year(y: int, rem: int) -> (int, int)
    decreases (if rem >= 0 {
        0
    } else {
        -rem
    }),
{
    if rem >= 0 {
        (y, rem)
    } else {
        retreat_year(y - 1, rem + year_len(y - 1))
    }
}

/// Walks forward from month `m` until the remaining day count fits.
pub open spec fn adv_month(y: int, m: int, rem: int) -> (int, int)
    decreases 12 - m,
{
    if m >= 12 || rem < month_len(y, m) {
        (m, rem)
    } else {
        adv_month(y, m + 1, rem - month_len(y, m))
    }
}

/// Civil date of a day number (days since the UNIX epoch): year,
/// month and day.
pub open spec fn civil_of(z: int) -> (int, int, int) {
    let (y, doy) = if z >= 0 {
        adv_year(1970, z)
    } else {
        retreat_year(1970, z)
    };
    let (m, dm) = adv_month(y, 1, doy);
    (y, m, dm + 1)
}

/// Day number of a timestamp.
pub open spec fn day_of(ts: int) -> int {
    (ts + 378683424000) / 86400 - 4382910
}

/// Second of the day of a timestamp.
pub open spec fn sec_of_day(ts: int) -> int {
    (ts + 378683424000) % 86400
}

/// Three-letter month name.
pub open spec fn month_abbrev(m: int) -> Seq<char> {
    if m == 1 {
        "Jan"@
    } else if m == 2 {
        "Feb"@
    } else if m == 3 {
        "Mar"@
    } else if m == 4 {
        "Apr"@
    } else if m == 5 {
        "May"@
    } else if m == 6 {
        "Jun"@
    } else if m == 7 {
        "Jul"@
    } else if m == 8 {
        "Aug"@
    } else if m == 9 {
        "Sep"@
    } else if m == 10 {
        "Oct"@
    } else if m == 11 {
        "Nov"@
    } else {
        "Dec"@
    }
}

/// A number as two digits, zero-padded.
pub open spec fn pad2(n: nat) -> Seq<char> {
    if n < 10 {
        seq!['0'] + dec_digits(n)
    } else {
        dec_digits(n)
    }
}

/// A year as at least four digits, zero-padded, signed.
pub open spec fn year_digits(y: int) -> Seq<char> {
    if y < 0 {
        seq!['-'] + pad4((-y) as nat)
    } else {
        pad4(y as nat)
    }
}

/// A number as four digits, zero-padded.
pub open spec fn pad4(n: nat) -> Seq<char> {
    if n < 10 {
        seq!['0', '0', '0'] + dec_digits(n)
    } else if n < 100 {
        seq!['0', '0'] + dec_digits(n)
    } else if n < 1000 {
        seq!['0'] + dec_digits(n)
    } else {
        dec_digits(n)
    }
}

/// The fixed-format UTC timestamp of a rendered time.
pub open spec fn spec_abs_time(created: int) -> Seq<char> {
    let ts = clamp_timestamp(created);
    let ymd = civil_of(day_of(ts));
    let sod = sec_of_day(ts);
    month_abbrev(ymd.1) + seq![' '] + pad2(ymd.2 as nat) + seq![' '] + year_digits(ymd.0) + seq![
        ',',
        ' ',
    ] + pad2((sod / 3600) as nat) + seq![':'] + pad2((sod % 3600 / 60) as nat) + seq![':'] + pad2(
        (sod % 60) as nat,
    ) + " UTC"@
}

/// The relative age of a rendered time against `now`: a short date
/// thirty or more days away, otherwise the largest nonzero unit among
/// days, hours and minutes, suffixed `ago` for the past and `left` for
/// the future.
pub open spec fn spec_rel_time(created: int, now: int) -> Seq<char> {
    let ts = clamp_timestamp(created);
    let delta = if now >= ts {
        now - ts
    } else {
        ts - now
    };
    if delta >= 2592000 {
        let ymd = civil_of(day_of(ts));
        month_abbrev(ymd.1) + seq![' '] + pad2(ymd.2 as nat) + seq![' ', '\''] + pad2(
            ((ymd.0 % 100) as nat),
        )
    } else {
        let unit = if delta / 86400 > 0 {
            dec_digits((delta / 86400) as nat) + seq!['d']
        } else if delta / 3600 > 0 {
            dec_digits((delta / 3600) as nat) + seq!['h']
        } else {
            dec_digits((delta / 60) as nat) + seq!['m']
        };
        unit + (if now < ts {
            " left"@
        } else {
            " ago"@
        })
    }
}

/// Days in a calendar year, executable.
fn year_len_exec(y: i64) -> (r: u64)
    requires
        -400000 < y < 400000,
    ensures
        r == year_len(y as int),
{
    let s: u64 = (y + 400000) as u64;
    proof {
        assert((s as int) % 4 == (y as int) % 4 && (s as int) % 100 == (y as int) % 100 && (
        s as int) % 400 == (y as int) % 400);
    }
    if (s % 4 == 0 && s % 100 != 0) || s % 400 == 0 {
        366
    } else {
        365
    }
}

/// Days in a calendar month, executable.
fn month_len_exec(y: i64, m: u64) -> (r: u64)
    requires
        -400000 < y < 400000,
    ensures
        r == month_len(y as int, m as int),
{
    if m == 1 {
        31
    } else if m == 2 {
        let yl = year_len_exec(y);
        if yl == 366 {
            29
        } else {
            28
        }
    } else if m == 3 {
        31
    } else if m == 4 {
        30
    } else if m == 5 {
        31
    } else if m == 6 {
        30
    } else if m == 7 {
        31
    } else if m == 8 {
        31
    } else if m == 9 {
        30
    } else if m == 10 {
        31
    } else if m == 11 {
        30
    } else {
        31
    }
}

/// Civil date of a day number, executable.
fn civil_of_exec(z: i64) -> (r: (i64, u64, u64))
    requires
        -4371588 <= z <= 2932896,
    ensures
        civil_of(z as int) == (r.0 as int, r.1 as int, r.2 as int),
        -12000 < r.0 < 12000,
        1 <= r.1 <= 12,
        1 <= r.2,
{
    let mut year: i64 = 1970;
    let mut rem: i64 = z;
    if z >= 0 {
        loop
            invariant
                0 <= z <= 2932896,
                0 <= rem <= z,
                1970 <= year,
                365 * (year - 1970) + rem <= z,
                adv_year(1970, z as int) == adv_year(year as int, rem as int),
            ensures
                0 <= rem < year_len(year as int),
                1970 <= year,
                365 * (year - 1970) <= z,
                adv_year(1970, z as int) == adv_year(year as int, rem as int),
            decreases rem,
        {
            let len = year_len_exec(year) as i64;
            if rem < len {
                break ;
            }
            rem = rem - len;
            year = year + 1;
        }
        proof {
            assert(adv_year(year as int, rem as int) == (year as int, rem as int));
        }
    } else {
        loop
            invariant
                -4371588 <= z < 0,
                year <= 1970,
                rem < 366,
                365 * (1970 - year) <= rem - z,
                retreat_year(1970, z as int) == retreat_year(year as int, rem as int),
            ensures
                0 <= rem < 366,
                year <= 1970,
                365 * (1970 - year) <= rem - z,
                retreat_year(1970, z as int) == retreat_year(year as int, rem as int),
            decreases (if rem >= 0 {
                0int
            } else {
                0 - rem
            }),
        {
            if rem >= 0 {
                break ;
            }
            let len = year_len_exec(year - 1) as i64;
            rem = rem + len;
            year = year - 1;
        }
        proof {
            assert(retreat_year(year as int, rem as int) == (year as int, rem as int));
        }
    }
    let ghost ymd = (if z >= 0 {
        adv_year(1970, z as int)
    } else {
        retreat_year(1970, z as int)
    });
    let mut m: u64 = 1;
    loop
        invariant
            1 <= m <= 12,
            0 <= rem < 366,
            -12000 < year < 12000,
            adv_month(ymd.0, 1, ymd.1) == adv_month(year as int, m as int, rem as int),
            year as int == ymd.0,
        ensures
            1 <= m <= 12,
            0 <= rem < 366,
            -12000 < year < 12000,
            year as int == ymd.0,
            adv_month(ymd.0, 1, ymd.1) == (m as int, rem as int),
        decreases 12 - m,
    {
        if m >= 12 {
            break ;
        }
        let len = month_len_exec(year, m) as i64;
        if rem < len {
            break ;
        }
        rem = rem - len;
        m = m + 1;
    }
    (year, m, (rem + 1) as u64)
}

/// A number as two digits, zero-padded, executable.
fn pad2_exec(n: u64) -> (s: String)
    ensures
        s@ == pad2(n as nat),
{
    if n < 10 {
        let mut s = String::from_str("0");
        proof {
            reveal_strlit("0");
        }
        let d = u64_to_string(n);
        s.append(d.as_str());
        proof {
            assert(s@ =~= pad2(n as nat));
        }
        s
    } else {
        u64_to_string(n)
    }
}

/// A number as four digits, zero-padded, executable.
fn pad4_exec(n: u64) -> (s: String)
    ensures
        s@ == pad4(n as nat),
{
    let prefix = if n < 10 {
        "000"
    } else if n < 100 {
        "00"
    } else if n < 1000 {
        "0"
    } else {
        ""
    };
    proof {
        reveal_strlit("000");
        reveal_strlit("00");
        reveal_strlit("0");
        reveal_strlit("");
    }
    let mut s = String::from_str(prefix);
    let d = u64_to_string(n);
    s.append(d.as_str());
    proof {
        assert(s@ =~= pad4(n as nat));
    }
    s
}

/// A year as at least four digits, executable.
fn year_digits_exec(y: i64) -> (s: String)
    requires
        -400000 < y < 400000,
    ensures
        s@ == year_digits(y as int),
{
    if y < 0 {
        let mut s = String::from_str("-");
        proof {
            reveal_strlit("-");
        }
        let d = pad4_exec((-y) as u64);
        s.append(d.as_str());
        proof {
            assert(s@ =~= year_digits(y as int));
        }
        s
    } else {
        pad4_exec(y as u64)
    }
}

/// Three-letter month name, executable.
fn month_abbrev_exec(m: u64) -> (s: &'static str)
    ensures
        s@ == month_abbrev(m as int),
{
    proof {
        reveal_strlit("Jan");
        reveal_strlit("Feb");
        reveal_strlit("Mar");
        reveal_strlit("Apr");
        reveal_strlit("May");
        reveal_strlit("Jun");
        reveal_strlit("Jul");
        reveal_strlit("Aug");
        reveal_strlit("Sep");
        reveal_strlit("Oct");
        reveal_strlit("Nov");
        reveal_strlit("Dec");
    }
    if m == 1 {
        "Jan"
    } else if m == 2 {
        "Feb"
    } else if m == 3 {
        "Mar"
    } else if m == 4 {
        "Apr"
    } else if m == 5 {
        "May"
    } else if m == 6 {
        "Jun"
    } else if m == 7 {
        "Jul"
    } else if m == 8 {
        "Aug"
    } else if m == 9 {
        "Sep"
    } else if m == 10 {
        "Oct"
    } else if m == 11 {
        "Nov"
    } else {
        "Dec"
    }
}

/// Renders a timestamp relative to an explicit reading of the clock:
/// the relative age and the fixed-format UTC timestamp.
#[verifier::rlimit(60)]
pub fn time_with_now(created: i64, now: i64) -> (r: (String, String))
    ensures
        r.0@ == spec_rel_time(created as int, now as int),
        r.1@ == spec_abs_time(created as int),
{
    let ts: i64 = if -377705116800i64 <= created && created <= 253402300799i64 {
        created
    } else {
        0
    };
    let shifted: u64 = (ts + 378683424000) as u64;
    let z: i64 = (shifted / 86400) as i64 - 4382910;
    let sod: u64 = shifted % 86400;
    let (year, month, day) = civil_of_exec(z);
    let mon = month_abbrev_exec(month);

    let mut abs = String::from_str(mon);
    abs.append(" ");
    let d2 = pad2_exec(day);
    abs.append(d2.as_str());
    abs.append(" ");
    let yd = year_digits_exec(year);
    abs.append(yd.as_str());
    abs.append(", ");
    let h2 = pad2_exec(sod / 3600);
    abs.append(h2.as_str());
    abs.append(":");
    let mi2 = pad2_exec(sod % 3600 / 60);
    abs.append(mi2.as_str());
    abs.append(":");
    let s2 = pad2_exec(sod % 60);
    abs.append(s2.as_str());
    abs.append(" UTC");
    proof {
        reveal_strlit(" ");
        reveal_strlit(", ");
        reveal_strlit(":");
        reveal_strlit(" UTC");
        assert(abs@ =~= spec_abs_time(created as int));
    }

    let delta: u64 = if now >= ts {
        (now as i128 - ts as i128) as u64
    } else {
        (ts as i128 - now as i128) as u64
    };
    let rel = if delta >= 2592000 {
        let mut rel = String::from_str(mon);
        rel.append(" ");
        let d2b = pad2_exec(day);
        rel.append(d2b.as_str());
        rel.append(" '");
        let yy: u64 = ((year + 400000) as u64) % 100;
        proof {
            assert((year as int + 400000) % 100 == (year as int) % 100);
        }
        let y2 = pad2_exec(yy);
        rel.append(y2.as_str());
        proof {
            reveal_strlit(" ");
            reveal_strlit(" '");
            assert(rel@ =~= spec_rel_time(created as int, now as int));
        }
        rel
    } else {
        let mut rel = if delta / 86400 > 0 {
            let mut u = u64_to_string(delta / 86400);
            u.append("d");
            proof {
                reveal_strlit("d");
            }
            u
        } else if delta / 3600 > 0 {
            let mut u = u64_to_string(delta / 3600);
            u.append("h");
            proof {
                reveal_strlit("h");
            }
            u
        } else {
            let mut u = u64_to_string(delta / 60);
            u.append("m");
            proof {
                reveal_strlit("m");
            }
            u
        };
        if now < ts {
            rel.append(" left");
        } else {
            rel.append(" ago");
        }
        proof {
            reveal_strlit(" left");
            reveal_strlit(" ago");
            assert(rel@ =~= spec_rel_time(created as int, now as int));
        }
        rel
    };
    (rel, abs)
}

/// Relies on std::time::SystemTime::now and duration_since: seconds
/// since the UNIX epoch, zero when the clock reads before it.
#[verifier::external_body]
fn unix_now() -> (r: i64) {
    match std::time::SystemTime::now().duration_since(std::time::UNIX_EPOCH) {
        Ok(d) => d.as_secs() as i64,
        Err(_) => 0,
    }
}

/// Renders a timestamp against the current clock: the relative age
/// and the fixed-format UTC timestamp. Whatever the clock read, the
/// result is the rendering for some reading of it.
pub fn time(created: i64) -> (r: (String, String))
    ensures
        r.1@ == spec_abs_time(created as int),
        exists|now: int| r.0@ == spec_rel_time(created as int, now),
{
    let now = unix_now();
    let r = time_with_now(created, now);
    proof {
        assert(r.0@ == spec_rel_time(created as int, now as int));
    }
    r
}

} // verus!
