//! Time periods and their bucket strings.
//!
//! A `TimePeriod` maps an absolute timestamp (nanoseconds since the Unix
//! epoch) to a bucket string, and to the timestamp of the immediately
//! preceding bucket. Calendar arithmetic comes from the `chrono` crate
//! through trusted wrappers; the bucket strings themselves are assembled by
//! verified code.

use vstd::prelude::*;
use vstd::string::StringExecFns;
use crate::text::dec_digits;
use crate::text::u64_to_dec;
use chrono::Datelike;

verus! {

pub type TimePeriodString = String;

pub type Timestamp = u64;

/// Calendar year (UTC) of a nanosecond timestamp, as `chrono` computes it.
pub uninterp spec fn year_of_nanos(ts: u64) -> u32;

/// Calendar month (UTC, 1 to 12) of a nanosecond timestamp.
pub uninterp spec fn month_of_nanos(ts: u64) -> u32;

/// ISO 8601 week number (1 to 53) of a nanosecond timestamp.
pub uninterp spec fn iso_week_of_nanos(ts: u64) -> u32;

/// Seven days of nanoseconds: in chrono's UTC timeline every calendar day
/// is exactly 86,400 seconds.
pub const WEEK_IN_NANOS: u64 = 604_800_000_000_000;

/// The timestamp exactly one week earlier, when it is representable as a
/// non-negative nanosecond count. (A timestamp above `i64::MAX` stands for
/// a pre-epoch instant, whose previous week is never representable.)
pub open spec fn spec_week_earlier(ts: u64) -> Option<u64> {
    if ts <= i64::MAX as u64 && ts >= WEEK_IN_NANOS {
        Some((ts - WEEK_IN_NANOS) as u64)
    } else {
        None
    }
}

/// The timestamp `months` calendar months earlier (days clamped to the
/// target month), when representable.
pub uninterp spec fn nanos_minus_months(ts: u64, months: u32) -> Option<u64>;

/// Relies on chrono's `DateTime::from_timestamp_nanos` and `Datelike::year`:
/// the year is a function of the timestamp alone, and every `i64` nanosecond
/// timestamp falls between the years 1677 and 2262.
#[verifier::external_body]
fn year_of(ts: u64) -> (r: u32)
    ensures
        r == year_of_nanos(ts),
        1677 <= r <= 2262,
{
    chrono::DateTime::from_timestamp_nanos(ts as i64).year() as u32
}

/// Relies on chrono's `DateTime::from_timestamp_nanos` and `Datelike::month`:
/// the month is a function of the timestamp alone and lies in 1..=12.
#[verifier::external_body]
fn month_of(ts: u64) -> (r: u32)
    ensures
        r == month_of_nanos(ts),
        1 <= r <= 12,
{
    chrono::DateTime::from_timestamp_nanos(ts as i64).month()
}

/// Relies on chrono's `Datelike::iso_week` and `IsoWeek::week`: the ISO week
/// number is a function of the timestamp alone and lies in 1..=53.
#[verifier::external_body]
fn iso_week_of(ts: u64) -> (r: u32)
    ensures
        r == iso_week_of_nanos(ts),
        1 <= r <= 53,
{
    chrono::DateTime::from_timestamp_nanos(ts as i64).iso_week().week()
}

/// Relies on chrono's `DateTime::checked_sub_days` and
/// `timestamp_nanos_opt`: a UTC calendar day is exactly 86,400 seconds in
/// chrono's timeline (no zone shifts, no leap seconds), so seven days back
/// is exactly `WEEK_IN_NANOS` less, whenever that is representable.
#[verifier::external_body]
fn sub_week(ts: u64) -> (r: Option<u64>)
    ensures
        r == spec_week_earlier(ts),
{
    let dt = chrono::DateTime::from_timestamp_nanos(ts as i64);
    let earlier = dt.checked_sub_days(chrono::Days::new(7))?;
    let nanos = earlier.timestamp_nanos_opt()?;
    u64::try_from(nanos).ok()
}

/// Relies on chrono's `DateTime::checked_sub_months` and
/// `timestamp_nanos_opt`: subtracting at least one month yields a strictly
/// earlier instant, so a representable result is strictly smaller.
#[verifier::external_body]
fn sub_months(ts: u64, months: u32) -> (r: Option<u64>)
    ensures
        r == nanos_minus_months(ts, months),
        r is Some && months >= 1 ==> r->0 < ts,
{
    let dt = chrono::DateTime::from_timestamp_nanos(ts as i64);
    let earlier = dt.checked_sub_months(chrono::Months::new(months))?;
    let nanos = earlier.timestamp_nanos_opt()?;
    u64::try_from(nanos).ok()
}

#[derive(Debug, Clone, Copy, PartialEq, Eq, Structural, Hash)]
pub enum TimePeriod {
    Week,
    Month,
    Quarter,
    Year,
    AllTime,
}

/// The quarter (1 to 4) a month belongs to.
pub open spec fn quarter_of_month(month: u32) -> u32 {
    ((month - 1) / 3 + 1) as u32
}

/// Bucket string of the week containing `ts`: the calendar year, `W`, and
/// the ISO week number. (The calendar year is combined with the ISO week
/// number even though the two can disagree around new year; that pairing is
/// kept as the recorded behaviour.)
pub open spec fn spec_week_string(ts: u64) -> Seq<char> {
    dec_digits(year_of_nanos(ts) as nat) + seq!['W'] + dec_digits(iso_week_of_nanos(ts) as nat)
}

/// Bucket string of the month containing `ts`: the zero-padded two-digit
/// month followed by the year.
pub open spec fn spec_month_string(ts: u64) -> Seq<char> {
    let m = month_of_nanos(ts);
    (if m < 10 {
        seq!['0'] + dec_digits(m as nat)
    } else {
        dec_digits(m as nat)
    }) + dec_digits(year_of_nanos(ts) as nat)
}

/// Bucket string of the quarter containing `ts`: the year, `Q`, and the
/// quarter number.
pub open spec fn spec_quarter_string(ts: u64) -> Seq<char> {
    dec_digits(year_of_nanos(ts) as nat) + seq!['Q'] + dec_digits(
        quarter_of_month(month_of_nanos(ts)) as nat,
    )
}

/// The bucket string a period assigns to a timestamp.
pub open spec fn spec_time_string(p: TimePeriod, ts: u64) -> Seq<char> {
    match p {
        TimePeriod::Week => spec_week_string(ts),
        TimePeriod::Month => spec_month_string(ts),
        TimePeriod::Quarter => spec_quarter_string(ts),
        TimePeriod::Year => dec_digits(year_of_nanos(ts) as nat),
        TimePeriod::AllTime => "all-time"@,
    }
}

/// What the calendar arithmetic returns for one bucket earlier.
pub open spec fn raw_previous(p: TimePeriod, ts: u64) -> Option<u64> {
    match p {
        TimePeriod::Week => spec_week_earlier(ts),
        TimePeriod::Month => nanos_minus_months(ts, 1),
        TimePeriod::Quarter => nanos_minus_months(ts, 3),
        TimePeriod::Year => nanos_minus_months(ts, 12),
        TimePeriod::AllTime => None,
    }
}

/// Every bounded period's bucket string starts with a digit, so none of
/// them is ever the `AllTime` bucket string.
pub proof fn lemma_time_string_not_alltime(p: TimePeriod, ts: u64)
    requires
        !(p is AllTime),
    ensures
        spec_time_string(p, ts) != "all-time"@,
{
    reveal_strlit("all-time");
    crate::text::lemma_dec_digits_shape(year_of_nanos(ts) as nat);
    crate::text::lemma_dec_digits_shape(month_of_nanos(ts) as nat);
    let s = spec_time_string(p, ts);
    assert(crate::text::is_digit(s[0]) || s[0] == '0') by {
        match p {
            TimePeriod::Week => {
                assert(s[0] == dec_digits(year_of_nanos(ts) as nat)[0]);
            },
            TimePeriod::Month => {
                if month_of_nanos(ts) < 10 {
                    assert(s[0] == '0');
                } else {
                    assert(s[0] == dec_digits(month_of_nanos(ts) as nat)[0]);
                }
            },
            TimePeriod::Quarter => {
                assert(s[0] == dec_digits(year_of_nanos(ts) as nat)[0]);
            },
            TimePeriod::Year => {
                assert(s[0] == dec_digits(year_of_nanos(ts) as nat)[0]);
            },
            TimePeriod::AllTime => {
            },
        }
    }
    assert("all-time"@[0] == 'a');
    assert(s[0] != 'a');
}

/// The timestamp one bucket earlier, if any. `AllTime` has no previous
/// bucket. A previous bucket is by definition strictly earlier; the
/// calendar arithmetic never returns anything else (see the subtraction
/// wrappers), so the guard here only makes that available to
/// specifications.
pub open spec fn spec_previous_period(p: TimePeriod, ts: u64) -> Option<u64> {
    match raw_previous(p, ts) {
        Some(t) => if t < ts {
            Some(t)
        } else {
            None
        },
        None => None,
    }
}

impl TimePeriod {
    /// The bucket string for `timestamp`, deterministic in the timestamp.
    pub fn time_string(&self, timestamp: Timestamp) -> (r: TimePeriodString)
        ensures
            r@ == spec_time_string(*self, timestamp),
    {
        match self {
            TimePeriod::Week => {
                let y = year_of(timestamp);
                let w = iso_week_of(timestamp);
                let mut s = u64_to_dec(y as u64);
                proof {
                    reveal_strlit("W");
                }
                s.append("W");
                let ws = u64_to_dec(w as u64);
                s.append(ws.as_str());
                proof {
                    assert("W"@ =~= seq!['W']);
                    assert(s@ =~= spec_week_string(timestamp));
                }
                s
            },
            TimePeriod::Month => {
                let m = month_of(timestamp);
                let mut s = if m < 10 {
                    proof {
                        reveal_strlit("0");
                        assert("0"@ =~= seq!['0']);
                    }
                    let mut z = String::from_str("0");
                    let ds = u64_to_dec(m as u64);
                    z.append(ds.as_str());
                    z
                } else {
                    u64_to_dec(m as u64)
                };
                let ys = u64_to_dec(year_of(timestamp) as u64);
                s.append(ys.as_str());
                proof {
                    assert(s@ =~= spec_month_string(timestamp));
                }
                s
            },
            TimePeriod::Quarter => {
                let y = year_of(timestamp);
                let m = month_of(timestamp);
                let q = (m - 1) / 3 + 1;
                let mut s = u64_to_dec(y as u64);
                proof {
                    reveal_strlit("Q");
                }
                s.append("Q");
                let qs = u64_to_dec(q as u64);
                s.append(qs.as_str());
                proof {
                    assert("Q"@ =~= seq!['Q']);
                    assert(s@ =~= spec_quarter_string(timestamp));
                }
                s
            },
            TimePeriod::Year => u64_to_dec(year_of(timestamp) as u64),
            TimePeriod::AllTime => {
                let s = String::from_str("all-time");
                s
            },
        }
    }

    /// The timestamp one bucket earlier. Always `None` for `AllTime`; a
    /// returned timestamp is strictly smaller than the argument.
    pub fn previous_period(&self, timestamp: Timestamp) -> (r: Option<Timestamp>)
        ensures
            r == spec_previous_period(*self, timestamp),
            r is Some ==> r->0 < timestamp,
            *self is AllTime ==> r is None,
    {
        match self {
            TimePeriod::Week => sub_week(timestamp),
            TimePeriod::Month => sub_months(timestamp, 1),
            TimePeriod::Quarter => sub_months(timestamp, 3),
            TimePeriod::Year => sub_months(timestamp, 12),
            TimePeriod::AllTime => None,
        }
    }

    /// All periods, in evaluation order.
    pub fn all() -> (r: Vec<TimePeriod>)
        ensures
            r@ =~= seq![
                TimePeriod::Week,
                TimePeriod::Month,
                TimePeriod::Quarter,
                TimePeriod::Year,
                TimePeriod::AllTime,
            ],
    {
        let mut v: Vec<TimePeriod> = Vec::new();
        v.push(TimePeriod::Week);
        v.push(TimePeriod::Month);
        v.push(TimePeriod::Quarter);
        v.push(TimePeriod::Year);
        v.push(TimePeriod::AllTime);
        v
    }
}

} // verus!
