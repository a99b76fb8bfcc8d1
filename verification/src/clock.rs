//! Rendering of playback times and durations as `h:mm:ss` or `m:ss`, and
//! the wall-clock time in whole seconds that records are stamped with.
use vstd::prelude::*;
use std::time::{Duration, SystemTime};
use crate::text::{concat2, decimal, decimal2, decimal2_string, decimal_string, string_of};

verus! {

/// `ms` milliseconds as whole seconds split into hours, minutes and seconds,
/// written `h:mm:ss` when there are hours and `m:ss` otherwise.
pub open spec fn spec_clock(ms: u64) -> Seq<char> {
    let total = ms as nat / 1000;
    let h = total / 3600;
    let m = (total % 3600) / 60;
    let s = total % 60;
    if h > 0 {
        decimal(h) + seq![':'] + decimal2(m) + seq![':'] + decimal2(s)
    } else {
        decimal(m) + seq![':'] + decimal2(s)
    }
}

/// A playback position or length, e.g. `1:05` or `1:02:03`.
pub fn fmt_time(ms: u64) -> (r: String)
    ensures
        r@ == spec_clock(ms),
{
    let total = ms / 1000;
    let h = total / 3600;
    let m = (total % 3600) / 60;
    let s = total % 60;
    let colon = string_of(&vec![':']);
    let tail = concat2(colon.as_str(), decimal2_string(s).as_str());
    let mins = if h > 0 {
        concat2(colon.as_str(), decimal2_string(m).as_str())
    } else {
        decimal_string(m)
    };
    let head = if h > 0 {
        concat2(decimal_string(h).as_str(), mins.as_str())
    } else {
        mins
    };
    let r = concat2(head.as_str(), tail.as_str());
    proof {
        if h > 0 {
            assert(r@ =~= spec_clock(ms));
        } else {
            assert(r@ =~= spec_clock(ms));
        }
    }
    r
}

/// The length of a clip as shown on its tile (same format as `fmt_time`).
pub fn fmt_duration(ms: u64) -> (r: String)
    ensures
        r@ == spec_clock(ms),
{
    fmt_time(ms)
}

#[verifier::external_type_specification]
#[verifier::external_body]
pub struct ExSystemTime(SystemTime);

/// `SystemTime::now`: the current wall-clock time.
#[verifier::external_body]
fn system_now() -> (r: SystemTime) {
    SystemTime::now()
}

/// The time from the Unix epoch to `t` (`SystemTime::duration_since`);
/// `None` when `t` lies before the epoch.
#[verifier::external_body]
fn since_epoch(t: SystemTime) -> (r: Option<Duration>) {
    t.duration_since(std::time::UNIX_EPOCH).ok()
}

/// The whole seconds of `d` (`Duration::as_secs`).
#[verifier::external_body]
fn whole_secs(d: Duration) -> (r: u64) {
    d.as_secs()
}

/// A time stamp from seconds since the epoch (`0` for a clock set before
/// the epoch).
pub open spec fn spec_stamp(secs: Option<u64>) -> i64 {
    match secs {
        Some(s) => s as i64,
        None => 0,
    }
}

/// The time stamp for seconds since the epoch, if the clock is after it.
pub fn stamp(secs: Option<u64>) -> (r: i64)
    ensures
        r == spec_stamp(secs),
{
    match secs {
        Some(s) => s as i64,
        None => 0,
    }
}

/// The current time in whole seconds since the Unix epoch (what `added_at`
/// and cache entries are stamped with); `0` if the clock is before the
/// epoch. The clock is read, so nothing more is known of the value.
pub fn now_secs() -> (r: i64)
    ensures
        exists|s: Option<u64>| r == spec_stamp(s),
{
    let secs = match since_epoch(system_now()) {
        Some(d) => Some(whole_secs(d)),
        None => None,
    };
    stamp(secs)
}

} // verus!
