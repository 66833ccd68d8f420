//! Rendering of dates, times and timestamps through arrow's temporal
//! conversions and chrono's formatting: one trusted function for each
//! conversion and each of chrono's renderings of its result.

use vstd::prelude::*;
use std::fmt::Write;
use chrono::{SecondsFormat, TimeZone, Utc};
use datafusion::arrow::array::timezone::Tz;
use datafusion::arrow::error::ArrowError;
use datafusion::arrow::temporal_conversions::{
    date32_to_datetime, date64_to_datetime, time32ms_to_time, time32s_to_time, time64ns_to_time,
    time64us_to_time, timestamp_ms_to_datetime, timestamp_ns_to_datetime, timestamp_s_to_datetime,
    timestamp_us_to_datetime,
};

verus! {

/// The view of a text that a conversion may not produce: `None` where the
/// value has no date or time.
pub open spec fn text_view(r: Option<String>) -> Option<Seq<char>> {
    match r {
        None => None,
        Some(s) => Some(s@),
    }
}

/// The view of what a formatting wrapper returns: `None` where the value has
/// no date or time, `Some(None)` where the format string fails, and
/// `Some(Some(text))` for the text.
pub open spec fn chrono_view(r: Option<Result<String, ()>>) -> Option<Option<Seq<char>>> {
    match r {
        None => None,
        Some(Err(())) => Some(None),
        Some(Ok(s)) => Some(Some(s@)),
    }
}

/// Whether `x` is a value of `i64`.
pub open spec fn fits_i64(x: int) -> bool {
    i64::MIN <= x <= i64::MAX
}

/// The first day of chrono's dates (1 January 262144 BCE), counted in days
/// from the epoch.
pub open spec fn first_day() -> int {
    -96465293
}

/// The last day of chrono's dates (31 December 262142 CE), counted in days
/// from the epoch.
pub open spec fn last_day() -> int {
    95026236
}

/// Whether the instant `v`, counted in `per_second` parts of a second since
/// the epoch, falls outside the first and the last day of chrono's dates.
/// There, moved by an offset of less than a day, it keeps its local time
/// inside chrono's range; arrow finds no date for an instant outside it.
pub open spec fn off_edge_days(v: int, per_second: int) -> bool {
    let day = 86400 * per_second;
    ||| v < first_day() * day
    ||| (first_day() + 1) * day <= v && v < last_day() * day
    ||| v >= (last_day() + 1) * day
}

/// chrono's `Debug` text of what arrow's `date32_to_datetime`, taking the date of its result gives for `v`;
/// `None` where arrow finds none.
pub uninterp spec fn date32_debug_of(v: int) -> Option<Seq<char>>;

/// arrow's `date32_to_datetime`, taking the date of its result, written with chrono's `Debug`. `None` where arrow
/// finds no value. The text is named by `date32_debug_of`.
#[verifier::external_body]
pub(crate) fn date32_debug(v: i32) -> (r: Option<String>)
    ensures
        text_view(r) == date32_debug_of(v as int),
{
    date32_to_datetime(v).map(|d| d.date()).map(|d| format!("{:?}", d))
}

/// chrono's `format` with the format string `f` of what arrow's `date32_to_datetime`, taking the date of its result
/// gives for `v`: `None` where arrow finds none, `Some(None)` where the
/// format string fails.
pub uninterp spec fn date32_format_of(v: int, f: Seq<char>) -> Option<Option<Seq<char>>>;

/// arrow's `date32_to_datetime`, taking the date of its result, written with chrono's `format` and the format string
/// `f`. `None` where arrow finds no value; `Err` where writing the format
/// fails. Named by `date32_format_of`.
#[verifier::external_body]
pub(crate) fn date32_format(v: i32, f: &str) -> (r: Option<Result<String, ()>>)
    ensures
        chrono_view(r) == date32_format_of(v as int, f@),
{
    let d = date32_to_datetime(v).map(|d| d.date())?;
    let mut s = String::new();
    Some(write!(s, "{}", d.format(f)).map(|_| s).map_err(|_| ()))
}

/// chrono's `Debug` text of what arrow's `date64_to_datetime` gives for `v`;
/// `None` where arrow finds none.
pub uninterp spec fn date64_debug_of(v: int) -> Option<Seq<char>>;

/// arrow's `date64_to_datetime`, written with chrono's `Debug`. `None` where arrow
/// finds no value. The text is named by `date64_debug_of`.
/// arrow's `date64_to_datetime` is the same code as
/// `timestamp_ms_to_datetime`, which for `v * 10^6` in `i64` gives what
/// `timestamp_ns_to_datetime` gives for `v * 10^6` nanoseconds.
#[verifier::external_body]
pub(crate) fn date64_debug(v: i64) -> (r: Option<String>)
    ensures
        text_view(r) == date64_debug_of(v as int),
        text_view(r) == timestamp_ms_debug_of(v as int),
        fits_i64(v * 1_000_000) ==> text_view(r) == timestamp_ns_debug_of(v * 1_000_000),
{
    date64_to_datetime(v).map(|d| format!("{:?}", d))
}

/// chrono's `format` with the format string `f` of what arrow's `date64_to_datetime`
/// gives for `v`: `None` where arrow finds none, `Some(None)` where the
/// format string fails.
pub uninterp spec fn date64_format_of(v: int, f: Seq<char>) -> Option<Option<Seq<char>>>;

/// arrow's `date64_to_datetime`, written with chrono's `format` and the format string
/// `f`. `None` where arrow finds no value; `Err` where writing the format
/// fails. Named by `date64_format_of`.
/// arrow's `date64_to_datetime` is the same code as
/// `timestamp_ms_to_datetime`, which for `v * 10^6` in `i64` gives what
/// `timestamp_ns_to_datetime` gives for `v * 10^6` nanoseconds.
#[verifier::external_body]
pub(crate) fn date64_format(v: i64, f: &str) -> (r: Option<Result<String, ()>>)
    ensures
        chrono_view(r) == date64_format_of(v as int, f@),
        chrono_view(r) == timestamp_ms_format_of(v as int, f@),
        fits_i64(v * 1_000_000) ==> chrono_view(r) == timestamp_ns_format_of(v * 1_000_000, f@),
{
    let d = date64_to_datetime(v)?;
    let mut s = String::new();
    Some(write!(s, "{}", d.format(f)).map(|_| s).map_err(|_| ()))
}

/// chrono's `Debug` text of what arrow's `time32s_to_time` gives for `v`;
/// `None` where arrow finds none.
pub uninterp spec fn time32s_debug_of(v: int) -> Option<Seq<char>>;

/// arrow's `time32s_to_time`, written with chrono's `Debug`. `None` where arrow
/// finds no value. The text is named by `time32s_debug_of`.
/// arrow gives the same time for `v` seconds as `time64ns_to_time` for
/// `v * 10^9` nanoseconds (the same seconds, cast alike, and no fraction).
#[verifier::external_body]
pub(crate) fn time32s_debug(v: i32) -> (r: Option<String>)
    ensures
        text_view(r) == time32s_debug_of(v as int),
        text_view(r) == time64ns_debug_of(v * 1_000_000_000),
{
    time32s_to_time(v).map(|d| format!("{:?}", d))
}

/// chrono's `format` with the format string `f` of what arrow's `time32s_to_time`
/// gives for `v`: `None` where arrow finds none, `Some(None)` where the
/// format string fails.
pub uninterp spec fn time32s_format_of(v: int, f: Seq<char>) -> Option<Option<Seq<char>>>;

/// arrow's `time32s_to_time`, written with chrono's `format` and the format string
/// `f`. `None` where arrow finds no value; `Err` where writing the format
/// fails. Named by `time32s_format_of`.
/// arrow gives the same time for `v` seconds as `time64ns_to_time` for
/// `v * 10^9` nanoseconds.
#[verifier::external_body]
pub(crate) fn time32s_format(v: i32, f: &str) -> (r: Option<Result<String, ()>>)
    ensures
        chrono_view(r) == time32s_format_of(v as int, f@),
        chrono_view(r) == time64ns_format_of(v * 1_000_000_000, f@),
{
    let d = time32s_to_time(v)?;
    let mut s = String::new();
    Some(write!(s, "{}", d.format(f)).map(|_| s).map_err(|_| ()))
}

/// chrono's `Debug` text of what arrow's `time32ms_to_time` gives for `v`;
/// `None` where arrow finds none.
pub uninterp spec fn time32ms_debug_of(v: int) -> Option<Seq<char>>;

/// arrow's `time32ms_to_time`, written with chrono's `Debug`. `None` where arrow
/// finds no value. The text is named by `time32ms_debug_of`.
/// arrow gives the same time for `v` milliseconds as `time64ns_to_time` for
/// `v * 10^6` nanoseconds (the same truncated seconds and remainder).
#[verifier::external_body]
pub(crate) fn time32ms_debug(v: i32) -> (r: Option<String>)
    ensures
        text_view(r) == time32ms_debug_of(v as int),
        text_view(r) == time64ns_debug_of(v * 1_000_000),
{
    time32ms_to_time(v).map(|d| format!("{:?}", d))
}

/// chrono's `format` with the format string `f` of what arrow's `time32ms_to_time`
/// gives for `v`: `None` where arrow finds none, `Some(None)` where the
/// format string fails.
pub uninterp spec fn time32ms_format_of(v: int, f: Seq<char>) -> Option<Option<Seq<char>>>;

/// arrow's `time32ms_to_time`, written with chrono's `format` and the format string
/// `f`. `None` where arrow finds no value; `Err` where writing the format
/// fails. Named by `time32ms_format_of`.
/// arrow gives the same time for `v` milliseconds as `time64ns_to_time` for
/// `v * 10^6` nanoseconds.
#[verifier::external_body]
pub(crate) fn time32ms_format(v: i32, f: &str) -> (r: Option<Result<String, ()>>)
    ensures
        chrono_view(r) == time32ms_format_of(v as int, f@),
        chrono_view(r) == time64ns_format_of(v * 1_000_000, f@),
{
    let d = time32ms_to_time(v)?;
    let mut s = String::new();
    Some(write!(s, "{}", d.format(f)).map(|_| s).map_err(|_| ()))
}

/// chrono's `Debug` text of what arrow's `time64us_to_time` gives for `v`;
/// `None` where arrow finds none.
pub uninterp spec fn time64us_debug_of(v: int) -> Option<Seq<char>>;

/// arrow's `time64us_to_time`, written with chrono's `Debug`. `None` where arrow
/// finds no value. The text is named by `time64us_debug_of`.
/// Where `v * 1000` is an `i64`, arrow gives the same time for `v`
/// microseconds as `time64ns_to_time` for `v * 1000` nanoseconds.
#[verifier::external_body]
pub(crate) fn time64us_debug(v: i64) -> (r: Option<String>)
    ensures
        text_view(r) == time64us_debug_of(v as int),
        fits_i64(v * 1000) ==> text_view(r) == time64ns_debug_of(v * 1000),
{
    time64us_to_time(v).map(|d| format!("{:?}", d))
}

/// chrono's `format` with the format string `f` of what arrow's `time64us_to_time`
/// gives for `v`: `None` where arrow finds none, `Some(None)` where the
/// format string fails.
pub uninterp spec fn time64us_format_of(v: int, f: Seq<char>) -> Option<Option<Seq<char>>>;

/// arrow's `time64us_to_time`, written with chrono's `format` and the format string
/// `f`. `None` where arrow finds no value; `Err` where writing the format
/// fails. Named by `time64us_format_of`.
/// Where `v * 1000` is an `i64`, arrow gives the same time for `v`
/// microseconds as `time64ns_to_time` for `v * 1000` nanoseconds.
#[verifier::external_body]
pub(crate) fn time64us_format(v: i64, f: &str) -> (r: Option<Result<String, ()>>)
    ensures
        chrono_view(r) == time64us_format_of(v as int, f@),
        fits_i64(v * 1000) ==> chrono_view(r) == time64ns_format_of(v * 1000, f@),
{
    let d = time64us_to_time(v)?;
    let mut s = String::new();
    Some(write!(s, "{}", d.format(f)).map(|_| s).map_err(|_| ()))
}

/// chrono's `Debug` text of what arrow's `time64ns_to_time` gives for `v`;
/// `None` where arrow finds none.
pub uninterp spec fn time64ns_debug_of(v: int) -> Option<Seq<char>>;

/// arrow's `time64ns_to_time`, written with chrono's `Debug`. `None` where arrow
/// finds no value. The text is named by `time64ns_debug_of`.
#[verifier::external_body]
pub(crate) fn time64ns_debug(v: i64) -> (r: Option<String>)
    ensures
        text_view(r) == time64ns_debug_of(v as int),
{
    time64ns_to_time(v).map(|d| format!("{:?}", d))
}

/// chrono's `format` with the format string `f` of what arrow's `time64ns_to_time`
/// gives for `v`: `None` where arrow finds none, `Some(None)` where the
/// format string fails.
pub uninterp spec fn time64ns_format_of(v: int, f: Seq<char>) -> Option<Option<Seq<char>>>;

/// arrow's `time64ns_to_time`, written with chrono's `format` and the format string
/// `f`. `None` where arrow finds no value; `Err` where writing the format
/// fails. Named by `time64ns_format_of`.
#[verifier::external_body]
pub(crate) fn time64ns_format(v: i64, f: &str) -> (r: Option<Result<String, ()>>)
    ensures
        chrono_view(r) == time64ns_format_of(v as int, f@),
{
    let d = time64ns_to_time(v)?;
    let mut s = String::new();
    Some(write!(s, "{}", d.format(f)).map(|_| s).map_err(|_| ()))
}

/// chrono's `Debug` text of what arrow's `timestamp_s_to_datetime` gives for `v`;
/// `None` where arrow finds none.
pub uninterp spec fn timestamp_s_debug_of(v: int) -> Option<Seq<char>>;

/// arrow's `timestamp_s_to_datetime`, written with chrono's `Debug`. `None` where arrow
/// finds no value. The text is named by `timestamp_s_debug_of`.
/// Where `v * 1_000_000_000` is an `i64`, arrow gives the same date and time for
/// it as `timestamp_ns_to_datetime` for that many nanoseconds (the same
/// Euclidean seconds and nanoseconds).
#[verifier::external_body]
pub(crate) fn timestamp_s_debug(v: i64) -> (r: Option<String>)
    ensures
        text_view(r) == timestamp_s_debug_of(v as int),
        fits_i64(v * 1_000_000_000) ==> text_view(r) == timestamp_ns_debug_of(v * 1_000_000_000),
{
    timestamp_s_to_datetime(v).map(|d| format!("{:?}", d))
}

/// chrono's `format` with the format string `f` of what arrow's `timestamp_s_to_datetime`
/// gives for `v`: `None` where arrow finds none, `Some(None)` where the
/// format string fails.
pub uninterp spec fn timestamp_s_format_of(v: int, f: Seq<char>) -> Option<Option<Seq<char>>>;

/// arrow's `timestamp_s_to_datetime`, written with chrono's `format` and the format string
/// `f`. `None` where arrow finds no value; `Err` where writing the format
/// fails. Named by `timestamp_s_format_of`.
/// Where `v * 1_000_000_000` is an `i64`, arrow gives the same date and time for
/// it as `timestamp_ns_to_datetime` for that many nanoseconds.
#[verifier::external_body]
pub(crate) fn timestamp_s_format(v: i64, f: &str) -> (r: Option<Result<String, ()>>)
    ensures
        chrono_view(r) == timestamp_s_format_of(v as int, f@),
        fits_i64(v * 1_000_000_000) ==> chrono_view(r) == timestamp_ns_format_of(v * 1_000_000_000, f@),
{
    let d = timestamp_s_to_datetime(v)?;
    let mut s = String::new();
    Some(write!(s, "{}", d.format(f)).map(|_| s).map_err(|_| ()))
}

/// chrono's `Debug` text of what arrow's `timestamp_ms_to_datetime` gives for `v`;
/// `None` where arrow finds none.
pub uninterp spec fn timestamp_ms_debug_of(v: int) -> Option<Seq<char>>;

/// arrow's `timestamp_ms_to_datetime`, written with chrono's `Debug`. `None` where arrow
/// finds no value. The text is named by `timestamp_ms_debug_of`.
/// Where `v * 1_000_000` is an `i64`, arrow gives the same date and time for
/// it as `timestamp_ns_to_datetime` for that many nanoseconds (the same
/// Euclidean seconds and nanoseconds).
#[verifier::external_body]
pub(crate) fn timestamp_ms_debug(v: i64) -> (r: Option<String>)
    ensures
        text_view(r) == timestamp_ms_debug_of(v as int),
        fits_i64(v * 1_000_000) ==> text_view(r) == timestamp_ns_debug_of(v * 1_000_000),
{
    timestamp_ms_to_datetime(v).map(|d| format!("{:?}", d))
}

/// chrono's `format` with the format string `f` of what arrow's `timestamp_ms_to_datetime`
/// gives for `v`: `None` where arrow finds none, `Some(None)` where the
/// format string fails.
pub uninterp spec fn timestamp_ms_format_of(v: int, f: Seq<char>) -> Option<Option<Seq<char>>>;

/// arrow's `timestamp_ms_to_datetime`, written with chrono's `format` and the format string
/// `f`. `None` where arrow finds no value; `Err` where writing the format
/// fails. Named by `timestamp_ms_format_of`.
/// Where `v * 1_000_000` is an `i64`, arrow gives the same date and time for
/// it as `timestamp_ns_to_datetime` for that many nanoseconds.
#[verifier::external_body]
pub(crate) fn timestamp_ms_format(v: i64, f: &str) -> (r: Option<Result<String, ()>>)
    ensures
        chrono_view(r) == timestamp_ms_format_of(v as int, f@),
        fits_i64(v * 1_000_000) ==> chrono_view(r) == timestamp_ns_format_of(v * 1_000_000, f@),
{
    let d = timestamp_ms_to_datetime(v)?;
    let mut s = String::new();
    Some(write!(s, "{}", d.format(f)).map(|_| s).map_err(|_| ()))
}

/// chrono's `Debug` text of what arrow's `timestamp_us_to_datetime` gives for `v`;
/// `None` where arrow finds none.
pub uninterp spec fn timestamp_us_debug_of(v: int) -> Option<Seq<char>>;

/// arrow's `timestamp_us_to_datetime`, written with chrono's `Debug`. `None` where arrow
/// finds no value. The text is named by `timestamp_us_debug_of`.
/// Where `v * 1000` is an `i64`, arrow gives the same date and time for
/// it as `timestamp_ns_to_datetime` for that many nanoseconds (the same
/// Euclidean seconds and nanoseconds).
#[verifier::external_body]
pub(crate) fn timestamp_us_debug(v: i64) -> (r: Option<String>)
    ensures
        text_view(r) == timestamp_us_debug_of(v as int),
        fits_i64(v * 1000) ==> text_view(r) == timestamp_ns_debug_of(v * 1000),
{
    timestamp_us_to_datetime(v).map(|d| format!("{:?}", d))
}

/// chrono's `format` with the format string `f` of what arrow's `timestamp_us_to_datetime`
/// gives for `v`: `None` where arrow finds none, `Some(None)` where the
/// format string fails.
pub uninterp spec fn timestamp_us_format_of(v: int, f: Seq<char>) -> Option<Option<Seq<char>>>;

/// arrow's `timestamp_us_to_datetime`, written with chrono's `format` and the format string
/// `f`. `None` where arrow finds no value; `Err` where writing the format
/// fails. Named by `timestamp_us_format_of`.
/// Where `v * 1000` is an `i64`, arrow gives the same date and time for
/// it as `timestamp_ns_to_datetime` for that many nanoseconds.
#[verifier::external_body]
pub(crate) fn timestamp_us_format(v: i64, f: &str) -> (r: Option<Result<String, ()>>)
    ensures
        chrono_view(r) == timestamp_us_format_of(v as int, f@),
        fits_i64(v * 1000) ==> chrono_view(r) == timestamp_ns_format_of(v * 1000, f@),
{
    let d = timestamp_us_to_datetime(v)?;
    let mut s = String::new();
    Some(write!(s, "{}", d.format(f)).map(|_| s).map_err(|_| ()))
}

/// chrono's `Debug` text of what arrow's `timestamp_ns_to_datetime` gives for `v`;
/// `None` where arrow finds none.
pub uninterp spec fn timestamp_ns_debug_of(v: int) -> Option<Seq<char>>;

/// arrow's `timestamp_ns_to_datetime`, written with chrono's `Debug`. `None` where arrow
/// finds no value. The text is named by `timestamp_ns_debug_of`.
#[verifier::external_body]
pub(crate) fn timestamp_ns_debug(v: i64) -> (r: Option<String>)
    ensures
        text_view(r) == timestamp_ns_debug_of(v as int),
{
    timestamp_ns_to_datetime(v).map(|d| format!("{:?}", d))
}

/// chrono's `format` with the format string `f` of what arrow's `timestamp_ns_to_datetime`
/// gives for `v`: `None` where arrow finds none, `Some(None)` where the
/// format string fails.
pub uninterp spec fn timestamp_ns_format_of(v: int, f: Seq<char>) -> Option<Option<Seq<char>>>;

/// arrow's `timestamp_ns_to_datetime`, written with chrono's `format` and the format string
/// `f`. `None` where arrow finds no value; `Err` where writing the format
/// fails. Named by `timestamp_ns_format_of`.
#[verifier::external_body]
pub(crate) fn timestamp_ns_format(v: i64, f: &str) -> (r: Option<Result<String, ()>>)
    ensures
        chrono_view(r) == timestamp_ns_format_of(v as int, f@),
{
    let d = timestamp_ns_to_datetime(v)?;
    let mut s = String::new();
    Some(write!(s, "{}", d.format(f)).map(|_| s).map_err(|_| ()))
}

/// chrono's RFC 3339 text (`to_rfc3339_opts` with automatic fraction and
/// `Z` for UTC) of arrow's `timestamp_s_to_datetime` of `v`, moved from UTC to arrow's
/// timezone `tz`; `None` where arrow finds no value or `tz` does not parse.
pub uninterp spec fn timestamp_s_tz_rfc3339_of(v: int, tz: Seq<char>) -> Option<Seq<char>>;

/// arrow's `timestamp_s_to_datetime` of `v`, moved from UTC (`Utc.from_utc_datetime`,
/// `with_timezone`) to arrow's timezone `tz`, and written by chrono's
/// `to_rfc3339_opts`. `None` where arrow finds no value or `tz` does not
/// parse. `to_rfc3339_opts` panics where the local time leaves chrono's range;
/// `requires` leaves out the instants on chrono's first and last day, and
/// so more than the panicking ones where the offset is small. Named by
/// `timestamp_s_tz_rfc3339_of`.
/// Where `v * 1_000_000_000` is an `i64`, arrow gives the same date and time for
/// it as `timestamp_ns_to_datetime` for that many nanoseconds.
#[verifier::external_body]
pub(crate) fn timestamp_s_tz_rfc3339(v: i64, tz: &str) -> (r: Option<String>)
    requires
        off_edge_days(v as int, 1),
    ensures
        text_view(r) == timestamp_s_tz_rfc3339_of(v as int, tz@),
        fits_i64(v * 1_000_000_000) ==> text_view(r) == timestamp_ns_tz_rfc3339_of(v * 1_000_000_000, tz@),
{
    let tz: Tz = tz.parse().ok()?;
    let date = Utc.from_utc_datetime(&timestamp_s_to_datetime(v)?).with_timezone(&tz);
    Some(date.to_rfc3339_opts(SecondsFormat::AutoSi, true))
}

/// chrono's `format` with the format string `f` of arrow's `timestamp_s_to_datetime` of
/// `v` in arrow's timezone `tz`: `None` where arrow finds no value or `tz`
/// does not parse, `Some(None)` where the format string fails.
pub uninterp spec fn timestamp_s_tz_format_of(v: int, tz: Seq<char>, f: Seq<char>) -> Option<Option<Seq<char>>>;

/// arrow's `timestamp_s_to_datetime` of `v`, moved from UTC to arrow's timezone `tz`,
/// and written by chrono's `format` with the format string `f` (which reads
/// the local time without panicking). `None` where arrow finds no value or
/// `tz` does not parse; `Err` where writing the format fails. Named by
/// `timestamp_s_tz_format_of`.
/// Where `v * 1_000_000_000` is an `i64`, arrow gives the same date and time for
/// it as `timestamp_ns_to_datetime` for that many nanoseconds.
#[verifier::external_body]
pub(crate) fn timestamp_s_tz_format(v: i64, tz: &str, f: &str) -> (r: Option<Result<String, ()>>)
    ensures
        chrono_view(r) == timestamp_s_tz_format_of(v as int, tz@, f@),
        fits_i64(v * 1_000_000_000) ==> chrono_view(r) == timestamp_ns_tz_format_of(v * 1_000_000_000, tz@, f@),
{
    let tz: Tz = tz.parse().ok()?;
    let date = Utc.from_utc_datetime(&timestamp_s_to_datetime(v)?).with_timezone(&tz);
    let mut s = String::new();
    Some(write!(s, "{}", date.format(f)).map(|_| s).map_err(|_| ()))
}

/// chrono's RFC 3339 text (`to_rfc3339_opts` with automatic fraction and
/// `Z` for UTC) of arrow's `timestamp_ms_to_datetime` of `v`, moved from UTC to arrow's
/// timezone `tz`; `None` where arrow finds no value or `tz` does not parse.
pub uninterp spec fn timestamp_ms_tz_rfc3339_of(v: int, tz: Seq<char>) -> Option<Seq<char>>;

/// arrow's `timestamp_ms_to_datetime` of `v`, moved from UTC (`Utc.from_utc_datetime`,
/// `with_timezone`) to arrow's timezone `tz`, and written by chrono's
/// `to_rfc3339_opts`. `None` where arrow finds no value or `tz` does not
/// parse. `to_rfc3339_opts` panics where the local time leaves chrono's range;
/// `requires` leaves out the instants on chrono's first and last day, and
/// so more than the panicking ones where the offset is small. Named by
/// `timestamp_ms_tz_rfc3339_of`.
/// Where `v * 1_000_000` is an `i64`, arrow gives the same date and time for
/// it as `timestamp_ns_to_datetime` for that many nanoseconds.
#[verifier::external_body]
pub(crate) fn timestamp_ms_tz_rfc3339(v: i64, tz: &str) -> (r: Option<String>)
    requires
        off_edge_days(v as int, 1000),
    ensures
        text_view(r) == timestamp_ms_tz_rfc3339_of(v as int, tz@),
        fits_i64(v * 1_000_000) ==> text_view(r) == timestamp_ns_tz_rfc3339_of(v * 1_000_000, tz@),
{
    let tz: Tz = tz.parse().ok()?;
    let date = Utc.from_utc_datetime(&timestamp_ms_to_datetime(v)?).with_timezone(&tz);
    Some(date.to_rfc3339_opts(SecondsFormat::AutoSi, true))
}

/// chrono's `format` with the format string `f` of arrow's `timestamp_ms_to_datetime` of
/// `v` in arrow's timezone `tz`: `None` where arrow finds no value or `tz`
/// does not parse, `Some(None)` where the format string fails.
pub uninterp spec fn timestamp_ms_tz_format_of(v: int, tz: Seq<char>, f: Seq<char>) -> Option<Option<Seq<char>>>;

/// arrow's `timestamp_ms_to_datetime` of `v`, moved from UTC to arrow's timezone `tz`,
/// and written by chrono's `format` with the format string `f` (which reads
/// the local time without panicking). `None` where arrow finds no value or
/// `tz` does not parse; `Err` where writing the format fails. Named by
/// `timestamp_ms_tz_format_of`.
/// Where `v * 1_000_000` is an `i64`, arrow gives the same date and time for
/// it as `timestamp_ns_to_datetime` for that many nanoseconds.
#[verifier::external_body]
pub(crate) fn timestamp_ms_tz_format(v: i64, tz: &str, f: &str) -> (r: Option<Result<String, ()>>)
    ensures
        chrono_view(r) == timestamp_ms_tz_format_of(v as int, tz@, f@),
        fits_i64(v * 1_000_000) ==> chrono_view(r) == timestamp_ns_tz_format_of(v * 1_000_000, tz@, f@),
{
    let tz: Tz = tz.parse().ok()?;
    let date = Utc.from_utc_datetime(&timestamp_ms_to_datetime(v)?).with_timezone(&tz);
    let mut s = String::new();
    Some(write!(s, "{}", date.format(f)).map(|_| s).map_err(|_| ()))
}

/// chrono's RFC 3339 text (`to_rfc3339_opts` with automatic fraction and
/// `Z` for UTC) of arrow's `timestamp_us_to_datetime` of `v`, moved from UTC to arrow's
/// timezone `tz`; `None` where arrow finds no value or `tz` does not parse.
pub uninterp spec fn timestamp_us_tz_rfc3339_of(v: int, tz: Seq<char>) -> Option<Seq<char>>;

/// arrow's `timestamp_us_to_datetime` of `v`, moved from UTC (`Utc.from_utc_datetime`,
/// `with_timezone`) to arrow's timezone `tz`, and written by chrono's
/// `to_rfc3339_opts`. `None` where arrow finds no value or `tz` does not
/// parse. `to_rfc3339_opts` panics where the local time leaves chrono's range;
/// `requires` leaves out the instants on chrono's first and last day, and
/// so more than the panicking ones where the offset is small. Named by
/// `timestamp_us_tz_rfc3339_of`.
/// Where `v * 1000` is an `i64`, arrow gives the same date and time for
/// it as `timestamp_ns_to_datetime` for that many nanoseconds.
#[verifier::external_body]
pub(crate) fn timestamp_us_tz_rfc3339(v: i64, tz: &str) -> (r: Option<String>)
    requires
        off_edge_days(v as int, 1000000),
    ensures
        text_view(r) == timestamp_us_tz_rfc3339_of(v as int, tz@),
        fits_i64(v * 1000) ==> text_view(r) == timestamp_ns_tz_rfc3339_of(v * 1000, tz@),
{
    let tz: Tz = tz.parse().ok()?;
    let date = Utc.from_utc_datetime(&timestamp_us_to_datetime(v)?).with_timezone(&tz);
    Some(date.to_rfc3339_opts(SecondsFormat::AutoSi, true))
}

/// chrono's `format` with the format string `f` of arrow's `timestamp_us_to_datetime` of
/// `v` in arrow's timezone `tz`: `None` where arrow finds no value or `tz`
/// does not parse, `Some(None)` where the format string fails.
pub uninterp spec fn timestamp_us_tz_format_of(v: int, tz: Seq<char>, f: Seq<char>) -> Option<Option<Seq<char>>>;

/// arrow's `timestamp_us_to_datetime` of `v`, moved from UTC to arrow's timezone `tz`,
/// and written by chrono's `format` with the format string `f` (which reads
/// the local time without panicking). `None` where arrow finds no value or
/// `tz` does not parse; `Err` where writing the format fails. Named by
/// `timestamp_us_tz_format_of`.
/// Where `v * 1000` is an `i64`, arrow gives the same date and time for
/// it as `timestamp_ns_to_datetime` for that many nanoseconds.
#[verifier::external_body]
pub(crate) fn timestamp_us_tz_format(v: i64, tz: &str, f: &str) -> (r: Option<Result<String, ()>>)
    ensures
        chrono_view(r) == timestamp_us_tz_format_of(v as int, tz@, f@),
        fits_i64(v * 1000) ==> chrono_view(r) == timestamp_ns_tz_format_of(v * 1000, tz@, f@),
{
    let tz: Tz = tz.parse().ok()?;
    let date = Utc.from_utc_datetime(&timestamp_us_to_datetime(v)?).with_timezone(&tz);
    let mut s = String::new();
    Some(write!(s, "{}", date.format(f)).map(|_| s).map_err(|_| ()))
}

/// chrono's RFC 3339 text (`to_rfc3339_opts` with automatic fraction and
/// `Z` for UTC) of arrow's `timestamp_ns_to_datetime` of `v`, moved from UTC to arrow's
/// timezone `tz`; `None` where arrow finds no value or `tz` does not parse.
pub uninterp spec fn timestamp_ns_tz_rfc3339_of(v: int, tz: Seq<char>) -> Option<Seq<char>>;

/// arrow's `timestamp_ns_to_datetime` of `v`, moved from UTC (`Utc.from_utc_datetime`,
/// `with_timezone`) to arrow's timezone `tz`, and written by chrono's
/// `to_rfc3339_opts`. `None` where arrow finds no value or `tz` does not
/// parse. Every instant of nanoseconds in an `i64` lies far inside chrono's
/// range, so none makes `to_rfc3339_opts` panic. Named by
/// `timestamp_ns_tz_rfc3339_of`.
#[verifier::external_body]
pub(crate) fn timestamp_ns_tz_rfc3339(v: i64, tz: &str) -> (r: Option<String>)
    ensures
        text_view(r) == timestamp_ns_tz_rfc3339_of(v as int, tz@),
{
    let tz: Tz = tz.parse().ok()?;
    let date = Utc.from_utc_datetime(&timestamp_ns_to_datetime(v)?).with_timezone(&tz);
    Some(date.to_rfc3339_opts(SecondsFormat::AutoSi, true))
}

/// chrono's `format` with the format string `f` of arrow's `timestamp_ns_to_datetime` of
/// `v` in arrow's timezone `tz`: `None` where arrow finds no value or `tz`
/// does not parse, `Some(None)` where the format string fails.
pub uninterp spec fn timestamp_ns_tz_format_of(v: int, tz: Seq<char>, f: Seq<char>) -> Option<Option<Seq<char>>>;

/// arrow's `timestamp_ns_to_datetime` of `v`, moved from UTC to arrow's timezone `tz`,
/// and written by chrono's `format` with the format string `f` (which reads
/// the local time without panicking). `None` where arrow finds no value or
/// `tz` does not parse; `Err` where writing the format fails. Named by
/// `timestamp_ns_tz_format_of`.
#[verifier::external_body]
pub(crate) fn timestamp_ns_tz_format(v: i64, tz: &str, f: &str) -> (r: Option<Result<String, ()>>)
    ensures
        chrono_view(r) == timestamp_ns_tz_format_of(v as int, tz@, f@),
{
    let tz: Tz = tz.parse().ok()?;
    let date = Utc.from_utc_datetime(&timestamp_ns_to_datetime(v)?).with_timezone(&tz);
    let mut s = String::new();
    Some(write!(s, "{}", date.format(f)).map(|_| s).map_err(|_| ()))
}

/// The message of the error with which arrow refuses the timezone `tz`, if
/// it does.
pub uninterp spec fn timezone_error_of(tz: Seq<char>) -> Option<Seq<char>>;

/// arrow's parse of a timezone (`Tz::from_str`): `None` where it parses,
/// else the message of its error. Named by `timezone_error_of`.
#[verifier::external_body]
pub(crate) fn timezone_error(tz: &str) -> (r: Option<String>)
    ensures
        match r {
            Some(m) => timezone_error_of(tz@) == Some(m@),
            None => timezone_error_of(tz@) is None,
        },
{
    match tz.parse::<Tz>() {
        Ok(_) => None,
        Err(ArrowError::ParseError(m)) => Some(m),
        Err(e) => Some(e.to_string()),
    }
}

} // verus!
