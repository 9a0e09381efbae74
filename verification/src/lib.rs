//! A calendar and clock value with carry-propagating arithmetic.
//!
//! A [`FirstDate`] holds a date and a time of day in separate fields. It is
//! made from a count of milliseconds since the epoch, moved by signed
//! deltas in any of its units, shifted into a timezone and into daylight
//! saving, and written out as text. Every function states what it returns
//! over a mathematical model of its arguments, and is proved to meet that
//! statement and to run without overflow or panic.
//!
//! - [`calendar`]: the leap-year rule and the table of months;
//! - [`carry`]: what a delta does to one unit, and what it carries on;
//! - [`date`]: the calendar value, its model and its operations;
//! - [`conversion`] and [`rounding`]: from milliseconds to calendar fields;
//! - [`timezone`]: the lookup of a timezone's offset in the timezone table;
//! - [`dst`]: the daylight-saving window, read from the output of `zdump`;
//! - [`format`]: numbers and calendar values as text;
//! - [`text`]: searching and cutting sequences of characters;
//! - [`clock`]: the system clock;
//! - [`error`]: the failures of lookups and parses;
//! - [`laws`]: what holds of the arithmetic for every calendar value.
//!
//! The library reads no file and runs no program: the lines of the
//! timezone table and the output of `zdump` are handed to it.
use vstd::prelude::*;

pub mod calendar;
pub mod carry;
pub mod clock;
pub mod conversion;
pub mod date;
pub mod dst;
pub mod error;
pub mod format;
pub mod laws;
pub mod rounding;
pub mod text;
pub mod timezone;

pub use calendar::is_leap_year;
pub use carry::{add_day_helper, add_helper, AddEnum};
pub use clock::epoch_milliseconds;
pub use conversion::generate_first_date_from_millis;
pub use date::{FirstDate, FirstDateOperations, TimeUnit};
pub use dst::{
    dst_in_force, extract_day_and_time, is_dst, needs_transitions, parse_zdump,
    zdump_arguments, DstDateRange, DstRange,
};
pub use error::DateError;
pub use timezone::{local_timezone, local_timezone_offset};

verus! {

} // verus!
