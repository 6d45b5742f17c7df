use vstd::prelude::*;

use chrono::{DateTime, Offset, TimeZone};
use chrono_tz::US::Pacific;

use crate::models::Timestamp;

verus! {

/// How far after the last scheduled auction the next one falls, in seconds.
pub const AUTO_AUCTION_EVERY: i64 = 604800;

/// The local time of day at which scheduled auctions open, in seconds after
/// midnight.
pub const AUTO_AUCTION_AT: i64 = 25200;

/// The instants the schedule handles: well inside what the calendar library
/// represents.
pub const SCHEDULE_RANGE: i64 = 1000000000000;

/// US Pacific time's offset from UTC at the UTC instant `utc` (seconds since
/// the epoch), in seconds; `None` where the calendar cannot hold the instant.
pub uninterp spec fn pacific_offset(utc: int) -> Option<int>;

/// The UTC instant of the US Pacific wall-clock time `local` (seconds since
/// the epoch, read as local time); `None` where that wall-clock time does not
/// occur or occurs twice.
pub uninterp spec fn pacific_utc_of_local(local: int) -> Option<int>;

/// Relies on `chrono_tz::US::Pacific`'s `offset_from_utc_datetime` and
/// chrono's `Offset::fix`/`local_minus_utc`: a fixed offset, which chrono
/// keeps strictly within a day.
#[verifier::external_body]
fn pacific_offset_at(utc: i64) -> (r: Option<i32>)
    requires
        -SCHEDULE_RANGE <= utc <= SCHEDULE_RANGE,
    ensures
        r is Some <==> pacific_offset(utc as int) is Some,
        r is Some ==> r->0 as int == pacific_offset(utc as int)->0 && -86400 < r->0 < 86400,
{
    match DateTime::from_timestamp(utc, 0) {
        Some(t) => Some(Pacific.offset_from_utc_datetime(&t.naive_utc()).fix().local_minus_utc()),
        None => None,
    }
}

/// Relies on `chrono_tz::US::Pacific`'s `from_local_datetime` with chrono's
/// `LocalResult::single`: the one UTC instant of a local time, if it has
/// exactly one.
#[verifier::external_body]
fn pacific_local_to_utc(local: i64) -> (r: Option<i64>)
    requires
        -SCHEDULE_RANGE <= local <= SCHEDULE_RANGE,
    ensures
        r is Some <==> pacific_utc_of_local(local as int) is Some,
        r is Some ==> r->0 as int == pacific_utc_of_local(local as int)->0,
{
    match DateTime::from_timestamp(local, 0) {
        Some(t) => match Pacific.from_local_datetime(&t.naive_utc()).single() {
            Some(d) => Some(d.timestamp()),
            None => None,
        },
        None => None,
    }
}

/// When the scheduled auction after the one at `last` opens: a week later,
/// at the opening time of day on that date in US Pacific time.
pub open spec fn next_auto_auction(last: int) -> Option<int> {
    let later = last + AUTO_AUCTION_EVERY;
    match pacific_offset(later) {
        None => None,
        Some(off) => {
            let local = later + off;
            pacific_utc_of_local(local - local % 86400 + AUTO_AUCTION_AT)
        },
    }
}

pub fn next_auto_auction_at(last: Timestamp) -> (r: Option<Timestamp>)
    requires
        -SCHEDULE_RANGE <= last <= SCHEDULE_RANGE - 2 * AUTO_AUCTION_EVERY,
    ensures
        r is Some <==> next_auto_auction(last as int) is Some,
        r is Some ==> r->0 as int == next_auto_auction(last as int)->0,
{
    let later = last + AUTO_AUCTION_EVERY;
    match pacific_offset_at(later) {
        None => None,
        Some(off) => {
            let local = later + off as i64;
            let m = local % 86400;
            let m = if m < 0 { m + 86400 } else { m };
            proof {
                assert((local as int) % 86400 == m) by {
                    vstd::arithmetic::div_mod::lemma_fundamental_div_mod(local as int, 86400);
                }
            }
            pacific_local_to_utc(local - m + AUTO_AUCTION_AT)
        },
    }
}

} // verus!
