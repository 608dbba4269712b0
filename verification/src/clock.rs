//! The wall clock and the textual form of a moment.

use std::time::SystemTime;
use vstd::prelude::*;
use crate::path::{is_plain, is_storable};

verus! {

/// The layout of a timestamp token: weekday, month, day of the month, hour,
/// minute, second and year, separated by dashes.
pub open spec fn stamp_format() -> Seq<char> {
    "%a-%b-%e--%H-%M-%S-%Y"@
}

/// What chrono's strftime formatting makes of the UTC moment `seconds`
/// seconds after the Unix epoch under the layout `format`; `None` where
/// chrono has no date for that moment.
pub uninterp spec fn utc_formatted(seconds: i64, format: Seq<char>) -> Option<Seq<char>>;

/// A moment of the system clock, of which nothing is visible from here.
#[verifier::external_type_specification]
#[verifier::external_body]
pub struct ExSystemTime(SystemTime);

/// Reads the system clock with `SystemTime::now`. Nothing is claimed of the
/// moment: it is whatever the clock shows.
#[verifier::external_body]
pub(crate) fn system_now() -> (moment: SystemTime) {
    SystemTime::now()
}

/// The whole seconds from the Unix epoch to `moment`, measured with
/// `SystemTime::duration_since`, which has no answer for a moment before
/// the epoch. Nothing is claimed of the count.
#[verifier::external_body]
pub(crate) fn seconds_since_epoch(moment: &SystemTime) -> (seconds: Option<u64>) {
    match moment.duration_since(std::time::UNIX_EPOCH) {
        Ok(elapsed) => Some(elapsed.as_secs()),
        Err(_) => None,
    }
}

/// The seconds that the system clock shows since the Unix epoch, if it
/// stands at or after the epoch and the count fits.
pub fn epoch_seconds() -> (seconds: Option<i64>)
    ensures
        seconds matches Some(count) ==> count >= 0,
{
    let moment = system_now();
    match seconds_since_epoch(&moment) {
        Some(elapsed) => {
            if elapsed <= 0x7fff_ffff_ffff_ffff {
                Some(elapsed as i64)
            } else {
                None
            }
        },
        None => None,
    }
}

/// Formats the UTC moment `seconds` seconds after the Unix epoch with
/// `chrono::DateTime::format`. `chrono::DateTime::from_timestamp` gives no
/// date for moments outside chrono's range, and then there is no text. The
/// layout is restricted to the one whose specifiers chrono is known to
/// accept, since formatting fails on a layout that it cannot parse. Under
/// that layout chrono writes the short English names of weekday and month,
/// digits, a space before a one-digit day, dashes and the sign of a year
/// outside four digits: so the text holds neither a separator nor a NUL.
#[verifier::external_body]
pub(crate) fn format_utc(seconds: i64, format: &str) -> (text: Option<String>)
    requires
        format@ == stamp_format(),
    ensures
        text.deep_view() == utc_formatted(seconds, format@),
        text matches Some(token) ==> is_plain(token@) && is_storable(token@),
{
    match chrono::DateTime::from_timestamp(seconds, 0) {
        Some(moment) => Some(moment.format(format).to_string()),
        None => None,
    }
}

} // verus!
