//! Timestamps written as RFC 3339 text, through `chrono`, and elapsed whole minutes.

use vstd::prelude::*;

verus! {

/// The instant that `chrono::DateTime::parse_from_rfc3339` reads from the text, as the
/// whole seconds since the Unix epoch (`timestamp`) and the nanoseconds past that second
/// (`timestamp_subsec_nanos`); `None` where it refuses the text.
pub uninterp spec fn rfc3339_instant(text: Seq<char>) -> Option<(i64, u32)>;

/// Calls `chrono::DateTime::parse_from_rfc3339` and reads the parsed instant with
/// `timestamp` and `timestamp_subsec_nanos`. The contract claims only that the result is
/// `rfc3339_instant` of the text; which texts parse and to what is left to that name.
#[verifier::external_body]
pub(crate) fn parse_rfc3339_instant(text: &str) -> (r: Option<(i64, u32)>)
    ensures
        r == rfc3339_instant(text@),
{
    match chrono::DateTime::parse_from_rfc3339(text) {
        Ok(dt) => Some((dt.timestamp(), dt.timestamp_subsec_nanos())),
        Err(_) => None,
    }
}

/// An instant given as whole seconds and nanoseconds, in nanoseconds since the epoch.
pub open spec fn instant_nanos(t: (i64, u32)) -> int {
    t.0 * 1_000_000_000 + t.1
}

/// The instant written in `text`, in nanoseconds since the epoch, when it parses.
pub open spec fn rfc3339_nanos(text: Seq<char>) -> Option<int> {
    match rfc3339_instant(text) {
        Some(t) => Some(instant_nanos(t)),
        None => None,
    }
}

/// `a / b` rounded toward zero, as Rust's integer division does.
pub open spec fn div_toward_zero(a: int, b: int) -> int
    recommends
        b > 0,
{
    if a >= 0 {
        a / b
    } else {
        -((-a) / b)
    }
}

/// The whole minutes in a span of `ns` nanoseconds, rounded toward zero at the seconds
/// and again at the minutes (`TimeDelta::num_minutes`).
pub open spec fn whole_minutes(ns: int) -> int {
    div_toward_zero(div_toward_zero(ns, 1_000_000_000), 60)
}

/// The whole minutes from the instant `then` to the instant `now`, each given as whole
/// seconds since the Unix epoch and nanoseconds past that second.
pub fn minutes_between(then: (i64, u32), now: (i64, u32)) -> (r: i64)
    ensures
        r == whole_minutes(instant_nanos(now) - instant_nanos(then)),
{
    let t: i128 = (then.0 as i128) * 1_000_000_000 + (then.1 as i128);
    let n: i128 = (now.0 as i128) * 1_000_000_000 + (now.1 as i128);
    let d: i128 = n - t;
    let secs: i128 = d / 1_000_000_000;
    let mins: i128 = secs / 60;
    assert(secs == div_toward_zero(d as int, 1_000_000_000));
    assert(mins == div_toward_zero(secs as int, 60));
    assert(-0x1_0000_0000_0000_0000 * 3 <= secs <= 0x1_0000_0000_0000_0000 * 3);
    mins as i64
}

/// The whole minutes from the instant written in `stamp` to `now` (whole seconds since
/// the Unix epoch and nanoseconds), or `None` when the text does not parse.
pub fn minutes_since(stamp: &str, now: (i64, u32)) -> (r: Option<i64>)
    ensures
        r == match rfc3339_nanos(stamp@) {
            Some(t) => Some(whole_minutes(instant_nanos(now) - t) as i64),
            None => None::<i64>,
        },
{
    match parse_rfc3339_instant(stamp) {
        Some(t) => Some(minutes_between(t, now)),
        None => None,
    }
}

/// Whether more than `limit` whole minutes have passed since the instant in `stamp`; a
/// text that does not parse counts as long ago.
pub fn older_than_minutes(stamp: &str, now: (i64, u32), limit: i64) -> (r: bool)
    ensures
        r == match rfc3339_nanos(stamp@) {
            Some(t) => whole_minutes(instant_nanos(now) - t) > limit,
            None => true,
        },
{
    match minutes_since(stamp, now) {
        Some(m) => m > limit,
        None => true,
    }
}

} // verus!
