//! Timestamp decoding and duration rendering.
//!
//! Raw timestamps are nanosecond-scale ticks from an epoch of
//! 2001-01-01T00:00:00 UTC. Calendar conversion to the local zone is done by
//! chrono behind trusted wrappers; everything computed from plain seconds is
//! verified here.

use vstd::prelude::*;

verus! {

use vstd::string::{StrSliceExecFns, StringExecFns};

/// Raw timestamps count nanosecond-scale ticks; dividing by this factor
/// yields whole seconds.
pub const TIMESTAMP_FACTOR: i64 = 1000000000;

/// A calendar instant in the local zone, reduced to the plain value the
/// core logic reads: its Unix-epoch second count (whole seconds only).
#[derive(Clone, Copy, Debug, PartialEq, Eq, Structural)]
pub struct LocalTimestamp {
    pub seconds: i64,
}

/// Relies on chrono's `Utc.with_ymd_and_hms(2001, 1, 1, 0, 0, 0).timestamp()`:
/// the fixed number of seconds between the Unix epoch and
/// 2001-01-01T00:00:00 UTC, which chrono computes deterministically.
#[verifier::external_body]
pub fn get_offset() -> (r: i64)
    ensures
        r == 978307200i64,
{
    chrono::TimeZone::with_ymd_and_hms(&chrono::Utc, 2001, 1, 1, 0, 0, 0).unwrap().timestamp()
}

/// Relies on chrono's `DateTime::from_timestamp`, `Local::from_utc_datetime`
/// and `Local.with_ymd_and_hms(..).single()`: converts a whole-second Unix
/// instant to local calendar fields and rebuilds a local timestamp from them.
/// The rebuild succeeds only when those fields name a single local instant,
/// and that instant is the input one, since the input has no sub-second part;
/// the result is absent when chrono cannot represent or disambiguate it.
#[verifier::external_body]
fn local_calendar_roundtrip(seconds: i64) -> (r: Option<i64>)
    ensures
        r matches Some(s) ==> s == seconds,
{
    let utc_stamp = chrono::DateTime::from_timestamp(seconds, 0)?.naive_utc();
    let local_time = chrono::TimeZone::from_utc_datetime(&chrono::Local, &utc_stamp);
    chrono::TimeZone::with_ymd_and_hms(
        &chrono::Local,
        chrono::Datelike::year(&local_time),
        chrono::Datelike::month(&local_time),
        chrono::Datelike::day(&local_time),
        chrono::Timelike::hour(&local_time),
        chrono::Timelike::minute(&local_time),
        chrono::Timelike::second(&local_time),
    ).single().map(|d| d.timestamp())
}

/// Relies on chrono's strftime-style formatting of a local datetime
/// (`%b %d, %Y %l:%M:%S %p`); the rendering depends on the machine's zone.
#[verifier::external_body]
fn render_local(seconds: i64) -> (r: String) {
    match chrono::DateTime::from_timestamp(seconds, 0) {
        Some(utc) => chrono::TimeZone::from_utc_datetime(&chrono::Local, &utc.naive_utc())
            .format("%b %d, %Y %l:%M:%S %p")
            .to_string(),
        None => String::new(),
    }
}

/// Integer division truncated toward zero, as the source store's tick
/// division behaves.
pub open spec fn spec_div_trunc(a: int, b: int) -> int
    recommends
        b > 0,
{
    if a >= 0 {
        a / b
    } else {
        -((-a) / b)
    }
}

/// The Unix second count a raw timestamp denotes: ticks reduced to whole
/// seconds, shifted by the store's epoch offset.
pub open spec fn spec_db_seconds(stamp: i64, offset: i64) -> int {
    spec_div_trunc(stamp as int, TIMESTAMP_FACTOR as int) + offset
}

/// Reduces a raw tick count to Unix seconds.
pub fn db_time_seconds(stamp: i64, offset: i64) -> (r: i64)
    requires
        i64::MIN <= spec_db_seconds(stamp, offset) <= i64::MAX,
    ensures
        r == spec_db_seconds(stamp, offset),
{
    let q: i64 = if stamp >= 0 {
        ((stamp as u64) / (TIMESTAMP_FACTOR as u64)) as i64
    } else {
        let m: u64 = (-(stamp as i128)) as u64;
        let d: i64 = (m / (TIMESTAMP_FACTOR as u64)) as i64;
        proof {
            assert(m == -(stamp as int));
            assert(d == (-(stamp as int)) / (TIMESTAMP_FACTOR as int));
        }
        -d
    };
    proof {
        assert(q == spec_div_trunc(stamp as int, TIMESTAMP_FACTOR as int));
    }
    q + offset
}

/// Converts a raw timestamp to a local calendar instant; absent when the
/// calendar conversion fails. When present, the instant is exactly the
/// decoded second count.
pub fn to_local_time(stamp: i64, offset: i64) -> (r: Option<LocalTimestamp>)
    requires
        i64::MIN <= spec_db_seconds(stamp, offset) <= i64::MAX,
    ensures
        r matches Some(t) ==> t.seconds == spec_db_seconds(stamp, offset),
{
    let secs = db_time_seconds(stamp, offset);
    match local_calendar_roundtrip(secs) {
        Some(s) => Some(LocalTimestamp { seconds: s }),
        None => None,
    }
}

pub open spec fn spec_digit_char(d: int) -> char {
    if d == 0 {
        '0'
    } else if d == 1 {
        '1'
    } else if d == 2 {
        '2'
    } else if d == 3 {
        '3'
    } else if d == 4 {
        '4'
    } else if d == 5 {
        '5'
    } else if d == 6 {
        '6'
    } else if d == 7 {
        '7'
    } else if d == 8 {
        '8'
    } else {
        '9'
    }
}

/// Decimal digits of `n`, most significant first.
pub open spec fn spec_dec(n: nat) -> Seq<char>
    decreases n,
{
    if n < 10 {
        seq![spec_digit_char(n as int)]
    } else {
        spec_dec(n / 10).push(spec_digit_char((n % 10) as int))
    }
}

fn digit_str(d: u64) -> (r: &'static str)
    requires
        d < 10,
    ensures
        r@ == seq![spec_digit_char(d as int)],
{
    if d == 0 {
        proof {
            reveal_strlit("0");
            assert("0"@ =~= seq!['0']);
        }
        "0"
    } else if d == 1 {
        proof {
            reveal_strlit("1");
            assert("1"@ =~= seq!['1']);
        }
        "1"
    } else if d == 2 {
        proof {
            reveal_strlit("2");
            assert("2"@ =~= seq!['2']);
        }
        "2"
    } else if d == 3 {
        proof {
            reveal_strlit("3");
            assert("3"@ =~= seq!['3']);
        }
        "3"
    } else if d == 4 {
        proof {
            reveal_strlit("4");
            assert("4"@ =~= seq!['4']);
        }
        "4"
    } else if d == 5 {
        proof {
            reveal_strlit("5");
            assert("5"@ =~= seq!['5']);
        }
        "5"
    } else if d == 6 {
        proof {
            reveal_strlit("6");
            assert("6"@ =~= seq!['6']);
        }
        "6"
    } else if d == 7 {
        proof {
            reveal_strlit("7");
            assert("7"@ =~= seq!['7']);
        }
        "7"
    } else if d == 8 {
        proof {
            reveal_strlit("8");
            assert("8"@ =~= seq!['8']);
        }
        "8"
    } else {
        proof {
            reveal_strlit("9");
            assert("9"@ =~= seq!['9']);
        }
        "9"
    }
}

/// Renders `n` in decimal.
pub fn u64_to_string(n: u64) -> (r: String)
    ensures
        r@ == spec_dec(n as nat),
    decreases n,
{
    if n < 10 {
        String::from_str(digit_str(n))
    } else {
        let mut s = u64_to_string(n / 10);
        s.append(digit_str(n % 10));
        proof {
            assert(spec_dec((n / 10) as nat).push(spec_digit_char((n % 10) as int)) =~= spec_dec(
                (n / 10) as nat,
            ) + seq![spec_digit_char((n % 10) as int)]);
        }
        s
    }
}

/// One rendered duration component: the count, a space, and the unit word,
/// singular exactly when the count is one.
pub open spec fn spec_unit_part(n: int, singular: Seq<char>, plural: Seq<char>) -> Seq<char> {
    spec_dec(n as nat) + " "@ + if n == 1 {
        singular
    } else {
        plural
    }
}

/// Joins a further component onto an accumulated rendering, separating with
/// a comma when something already stands there.
pub open spec fn spec_join(acc: Seq<char>, part: Seq<char>) -> Seq<char> {
    if acc.len() == 0 {
        part
    } else {
        acc + ", "@ + part
    }
}

/// The human-readable rendering of `total` whole seconds: non-zero
/// components only, largest unit first, singular wording for one, joined by
/// a comma and a space; an all-zero duration renders as the empty string.
pub open spec fn spec_duration_string(total: int) -> Seq<char>
    recommends
        total >= 0,
{
    let days = total / 86400;
    let hours = (total % 86400) / 3600;
    let minutes = (total % 86400 % 3600) / 60;
    let secs = total % 86400 % 3600 % 60;
    let s1 = if days != 0 {
        spec_unit_part(days, "day"@, "days"@)
    } else {
        Seq::<char>::empty()
    };
    let s2 = if hours != 0 {
        spec_join(s1, spec_unit_part(hours, "hour"@, "hours"@))
    } else {
        s1
    };
    let s3 = if minutes != 0 {
        spec_join(s2, spec_unit_part(minutes, "minute"@, "minutes"@))
    } else {
        s2
    };
    if secs != 0 {
        spec_join(s3, spec_unit_part(secs, "second"@, "seconds"@))
    } else {
        s3
    }
}

fn push_unit_part(out: &mut String, n: u64, singular: &'static str, plural: &'static str)
    ensures
        final(out)@ == spec_join(old(out)@, spec_unit_part(n as int, singular@, plural@)),
{
    if !out.as_str().is_empty() {
        out.append(", ");
    }
    let num = u64_to_string(n);
    out.append(num.as_str());
    out.append(" ");
    if n == 1 {
        out.append(singular);
    } else {
        out.append(plural);
    }
}

/// Renders a non-negative whole-second duration as its readable string.
pub fn format_duration(total: u64) -> (r: String)
    ensures
        r@ == spec_duration_string(total as int),
{
    let days = total / 86400;
    let hours = (total % 86400) / 3600;
    let minutes = (total % 86400 % 3600) / 60;
    let secs = total % 86400 % 3600 % 60;
    let mut out = String::new();
    if days != 0 {
        push_unit_part(&mut out, days, "day", "days");
    }
    if hours != 0 {
        push_unit_part(&mut out, hours, "hour", "hours");
    }
    if minutes != 0 {
        push_unit_part(&mut out, minutes, "minute", "minutes");
    }
    if secs != 0 {
        push_unit_part(&mut out, secs, "second", "seconds");
    }
    out
}

/// Renders the duration from `start` to `end`; absent exactly when the
/// timestamps are out of order.
pub fn readable_diff(start: LocalTimestamp, end: LocalTimestamp) -> (r: Option<String>)
    ensures
        r is Some <==> end.seconds >= start.seconds,
        r matches Some(s) ==> s@ == spec_duration_string(end.seconds - start.seconds),
{
    let diff: i128 = (end.seconds as i128) - (start.seconds as i128);
    if diff < 0 {
        return None;
    }
    let total: u64 = diff as u64;
    Some(format_duration(total))
}

/// Renders a local calendar instant for reading; an absent instant renders
/// as the empty string.
pub fn format(date: &Option<LocalTimestamp>) -> (r: String)
    ensures
        date is None ==> r@ == Seq::<char>::empty(),
{
    match date {
        Some(d) => render_local(d.seconds),
        None => String::new(),
    }
}

} // verus!
