//! Formatting the values of columns as strings.

use vstd::prelude::*;
use crate::column::{
    Column, ColumnData, TimeUnit, UnionMode, child_position, column_wf, is_null_at, lemma_find_child,
    max_id, max_type_id, row_readable, run_of,
};
use crate::decimal::{
    arrow_decimal128_text, arrow_decimal256_text, decimal128_formats, decimal256_formats,
};
use crate::duration::push_duration;
use crate::options::{FormatOptions, FormatOptionsView, TimeFormat, default_options_view};
use crate::temporal::{
    chrono_view, off_edge_days, text_view, timezone_error, date32_debug, date32_format, date64_debug, date64_format, time32s_debug, time32s_format, time32ms_debug, time32ms_format, time64us_debug, time64us_format, time64ns_debug, time64ns_format, timestamp_s_debug, timestamp_s_format, timestamp_ms_debug, timestamp_ms_format, timestamp_us_debug, timestamp_us_format, timestamp_ns_debug, timestamp_ns_format, timestamp_s_tz_rfc3339, timestamp_s_tz_format, timestamp_ms_tz_rfc3339, timestamp_ms_tz_format, timestamp_us_tz_rfc3339, timestamp_us_tz_format, timestamp_ns_tz_rfc3339, timestamp_ns_tz_format,
};
use crate::render::{
    ErrorText, Rendered, followed_by, ok, children_prepare_error, display_text, error_message,
    fields_prepare_error, lemma_children_prepare_stop, lemma_children_prepared,
    lemma_fields_prepare_stop, lemma_fields_prepared, lemma_list_items_stop,
    lemma_map_entries_stop, lemma_run_of_first, lemma_struct_fields_stop, list_items,
    map_entries, missing_type_id_message, prepare_error, render, struct_fields,
    reported_error, unsupported_message, spark_refusal, temporal, never_fails,
    row_printable, range_printable, lemma_range_printable, per_second,
};
use crate::text::{
    digits_of, int_text, lemma_digits_len_bound, pow10, push_decimal,
};

verus! {

/// An error that stops the formatting of a value.
#[derive(Debug)]
pub enum DisplayError {
    /// A value could not be converted for display.
    CastError(String),
    /// The data type of a column cannot be formatted.
    NotYetImplemented(String),
    /// A timezone does not parse.
    ParseError(String),
}

impl View for DisplayError {
    type V = ErrorText;

    open spec fn view(&self) -> ErrorText {
        match self {
            DisplayError::CastError(s) => ErrorText::CastError(s@),
            DisplayError::NotYetImplemented(s) => ErrorText::NotYetImplemented(s@),
            DisplayError::ParseError(s) => ErrorText::ParseError(s@),
        }
    }
}

/// What stops the writing of a value: a format string that fails, or an
/// error of the data.
pub enum FormatError {
    Format,
    Data(DisplayError),
}

impl View for FormatError {
    type V = ErrorText;

    open spec fn view(&self) -> ErrorText {
        match self {
            FormatError::Format => ErrorText::FormatFailure,
            FormatError::Data(e) => e@,
        }
    }
}

impl DisplayError {
    /// The text by which the error is displayed.
    pub fn message(&self) -> (r: String)
        ensures
            r@ == error_message(self@),
    {
        match self {
            DisplayError::CastError(s) => {
                let mut r = String::from_str("Cast error: ");
                r.append(s.as_str());
                r
            },
            DisplayError::NotYetImplemented(s) => {
                let mut r = String::from_str("Not yet implemented: ");
                r.append(s.as_str());
                r
            },
            DisplayError::ParseError(s) => {
                let mut r = String::from_str("Parser error: ");
                r.append(s.as_str());
                r
            },
        }
    }
}

/// lexical_core's `write` of an `i64`, whose bytes are the decimal text of
/// the number.
#[verifier::external_body]
fn lexical_i64_text(n: i64) -> (r: String)
    ensures
        r@ == int_text(n as int),
{
    let mut buf = vec![0u8; <i64 as lexical_core::FormattedSize>::FORMATTED_SIZE];
    let written = lexical_core::write(n, &mut buf);
    written.iter().map(|b| *b as char).collect()
}

/// lexical_core's `write` of a `u64`, whose bytes are the decimal text of
/// the number.
#[verifier::external_body]
fn lexical_u64_text(n: u64) -> (r: String)
    ensures
        r@ == digits_of(n as nat),
{
    let mut buf = vec![0u8; <u64 as lexical_core::FormattedSize>::FORMATTED_SIZE];
    let written = lexical_core::write(n, &mut buf);
    written.iter().map(|b| *b as char).collect()
}

/// An integer type whose values lexical writes in decimal.
pub trait LexicalInteger: Sized {
    /// The value as a mathematical integer.
    spec fn int_value(&self) -> int;

    /// The longest decimal text of a value of the type: lexical's
    /// `FORMATTED_SIZE_DECIMAL`.
    spec fn formatted_size_decimal() -> nat;

    /// The decimal text of the value, as lexical writes it.
    fn lexical_text(&self) -> (r: String)
        ensures
            r@ == int_text(self.int_value()),
            r@.len() <= Self::formatted_size_decimal(),
    ;
}

/// The decimal text of a number below `10^k` in magnitude has at most `k`
/// digits, after a sign where it is negative.
proof fn lemma_int_text_len(v: int, k: nat)
    requires
        k >= 1,
        -pow10(k) < v < pow10(k),
    ensures
        int_text(v).len() <= k + (if v < 0 {
            1int
        } else {
            0
        }),
{
    if v < 0 {
        lemma_digits_len_bound((-v) as nat, k);
    } else {
        lemma_digits_len_bound(v as nat, k);
    }
}

/// The powers of ten that bound the integer types.
proof fn lemma_pow10_bounds()
    ensures
        pow10(3) == 1000,
        pow10(5) == 100000,
        pow10(10) == 10_000_000_000,
        pow10(19) == 10_000_000_000_000_000_000,
        pow10(20) == 100_000_000_000_000_000_000,
{
    reveal_with_fuel(pow10, 21);
}

impl LexicalInteger for i8 {
    open spec fn int_value(&self) -> int {
        *self as int
    }

    open spec fn formatted_size_decimal() -> nat {
        4
    }

    fn lexical_text(&self) -> (r: String) {
        proof {
            lemma_pow10_bounds();
            lemma_int_text_len(*self as int, 3);
        }
        lexical_i64_text(*self as i64)
    }
}

impl LexicalInteger for i16 {
    open spec fn int_value(&self) -> int {
        *self as int
    }

    open spec fn formatted_size_decimal() -> nat {
        6
    }

    fn lexical_text(&self) -> (r: String) {
        proof {
            lemma_pow10_bounds();
            lemma_int_text_len(*self as int, 5);
        }
        lexical_i64_text(*self as i64)
    }
}

impl LexicalInteger for i32 {
    open spec fn int_value(&self) -> int {
        *self as int
    }

    open spec fn formatted_size_decimal() -> nat {
        11
    }

    fn lexical_text(&self) -> (r: String) {
        proof {
            lemma_pow10_bounds();
            lemma_int_text_len(*self as int, 10);
        }
        lexical_i64_text(*self as i64)
    }
}

impl LexicalInteger for i64 {
    open spec fn int_value(&self) -> int {
        *self as int
    }

    open spec fn formatted_size_decimal() -> nat {
        20
    }

    fn lexical_text(&self) -> (r: String) {
        proof {
            lemma_pow10_bounds();
            lemma_int_text_len(*self as int, 19);
        }
        lexical_i64_text(*self)
    }
}

impl LexicalInteger for u8 {
    open spec fn int_value(&self) -> int {
        *self as int
    }

    open spec fn formatted_size_decimal() -> nat {
        3
    }

    fn lexical_text(&self) -> (r: String) {
        proof {
            lemma_pow10_bounds();
            lemma_int_text_len(*self as int, 3);
        }
        lexical_u64_text(*self as u64)
    }
}

impl LexicalInteger for u16 {
    open spec fn int_value(&self) -> int {
        *self as int
    }

    open spec fn formatted_size_decimal() -> nat {
        5
    }

    fn lexical_text(&self) -> (r: String) {
        proof {
            lemma_pow10_bounds();
            lemma_int_text_len(*self as int, 5);
        }
        lexical_u64_text(*self as u64)
    }
}

impl LexicalInteger for u32 {
    open spec fn int_value(&self) -> int {
        *self as int
    }

    open spec fn formatted_size_decimal() -> nat {
        10
    }

    fn lexical_text(&self) -> (r: String) {
        proof {
            lemma_pow10_bounds();
            lemma_int_text_len(*self as int, 10);
        }
        lexical_u64_text(*self as u64)
    }
}

impl LexicalInteger for u64 {
    open spec fn int_value(&self) -> int {
        *self as int
    }

    open spec fn formatted_size_decimal() -> nat {
        20
    }

    fn lexical_text(&self) -> (r: String) {
        proof {
            lemma_pow10_bounds();
            lemma_int_text_len(*self as int, 20);
        }
        lexical_u64_text(*self)
    }
}

/// Converts an integer to its decimal `String`, as lexical writes it: at
/// most `FORMATTED_SIZE_DECIMAL` characters of its type.
pub fn lexical_to_string<N: LexicalInteger>(n: N) -> (r: String)
    ensures
        r@ == int_text(n.int_value()),
        r@.len() <= N::formatted_size_decimal(),
{
    n.lexical_text()
}

/// Checks that every data type in `col` and its children can be formatted,
/// visiting them in order; the first that cannot gives the error.
pub fn make_formatter(col: &Column, o: &FormatOptions) -> (r: Result<(), DisplayError>)
    ensures
        match r {
            Ok(()) => prepare_error(*col, o@) is None,
            Err(e) => prepare_error(*col, o@) == Some(e@),
        },
    decreases *col, 1int, 0int,
{
    match &col.data {
        ColumnData::List { values, .. } => make_formatter(values, o),
        ColumnData::FixedSizeList { values, .. } => make_formatter(values, o),
        ColumnData::Dictionary { values, .. } => make_formatter(values, o),
        ColumnData::RunEndEncoded { values, .. } => make_formatter(values, o),
        ColumnData::KeyValue { keys, values, .. } => {
            make_formatter(keys, o)?;
            make_formatter(values, o)
        },
        ColumnData::Struct { .. } => prepare_fields(col, o),
        ColumnData::Union { .. } => prepare_children(col, o),
        ColumnData::Date32(_) => refuse_spark(o.date_format(), "Date32"),
        ColumnData::Date64(_) => refuse_spark(o.datetime_format(), "Date64"),
        ColumnData::Time32(..) => refuse_spark(o.time_format(), "Time32"),
        ColumnData::Time64(..) => refuse_spark(o.time_format(), "Time64"),
        ColumnData::Timestamp { timezone, .. } => match timezone {
            Some(tz) => match timezone_error(tz.as_str()) {
                Some(m) => Err(DisplayError::ParseError(m)),
                None => refuse_spark(o.timestamp_tz_format(), "Timestamp"),
            },
            None => refuse_spark(o.timestamp_format(), "Timestamp"),
        },
        ColumnData::Unsupported { data_type } => {
            let mut m = String::from_str("formatting ");
            m.append(data_type.as_str());
            m.append(" is not yet supported");
            assert(m@ =~= unsupported_message(data_type@));
            Err(DisplayError::NotYetImplemented(m))
        },
        _ => Ok(()),
    }
}

/// Refuses the Spark format for a temporal column of kind `kind`.
fn refuse_spark(f: TimeFormat, kind: &str) -> (r: Result<(), DisplayError>)
    ensures
        match r {
            Ok(()) => spark_refusal(f@, kind@) is None,
            Err(e) => spark_refusal(f@, kind@) == Some(e@),
        },
{
    match f {
        TimeFormat::Spark => {
            let mut m = String::from_str("formatting ");
            m.append(kind);
            m.append(" in the Spark format");
            m.append(" is not yet supported");
            assert(m@ =~= unsupported_message(kind@ + " in the Spark format"@));
            Err(DisplayError::NotYetImplemented(m))
        },
        _ => Ok(()),
    }
}

/// A text that cannot fail to be written, as a possibly failing one.
fn never_failing(r: Option<String>) -> (res: Option<Result<String, ()>>)
    ensures
        chrono_view(res) == never_fails(text_view(r)),
{
    match r {
        Some(t) => Some(Ok(t)),
        None => None,
    }
}

/// Writes what chrono rendered for a date, time or timestamp `value`.
fn push_temporal(out: &mut String, r: Option<Result<String, ()>>, value: i64, kind: &str) -> (res:
    Result<(), FormatError>)
    ensures
        final(out)@ == old(out)@ + temporal(chrono_view(r), value as int, kind@).text,
        match res {
            Ok(()) => temporal(chrono_view(r), value as int, kind@).error is None,
            Err(e) => temporal(chrono_view(r), value as int, kind@).error == Some(e@),
        },
{
    match r {
        Some(Ok(t)) => {
            out.append(t.as_str());
            Ok(())
        },
        Some(Err(())) => Err(FormatError::Format),
        None => {
            let mut m = String::from_str("invalid ");
            m.append(kind);
            m.append(" value: ");
            let v = lexical_i64_text(value);
            m.append(v.as_str());
            assert(out@ =~= old(out)@ + seq![]);
            Err(FormatError::Data(DisplayError::CastError(m)))
        },
    }
}

/// Prepares the children of a struct column, in order.
fn prepare_fields(col: &Column, o: &FormatOptions) -> (r: Result<(), DisplayError>)
    requires
        col.data is Struct,
    ensures
        match r {
            Ok(()) => prepare_error(*col, o@) is None,
            Err(e) => prepare_error(*col, o@) == Some(e@),
        },
    decreases *col, 0int, 0int,
{
    let columns = match &col.data {
        ColumnData::Struct { columns, .. } => columns,
        _ => {
            proof {
                assert(false);
            }
            return Ok(());
        },
    };
    let n = columns.len();
    let mut j: usize = 0;
    while j < n
        invariant
            col.data is Struct,
            *columns == col.data->columns,
            n == columns.len(),
            j <= n,
            fields_prepare_error(*col, j as int, o@) is None,
        decreases n - j,
    {
        match make_formatter(&columns[j], o) {
            Ok(()) => {},
            Err(e) => {
                proof {
                    assert(fields_prepare_error(*col, j + 1, o@) == Some(e@));
                    lemma_fields_prepare_stop(*col, j + 1, n as int, o@);
                }
                return Err(e);
            },
        }
        j += 1;
    }
    Ok(())
}

/// Prepares the children of a union column, in order.
fn prepare_children(col: &Column, o: &FormatOptions) -> (r: Result<(), DisplayError>)
    requires
        col.data is Union,
    ensures
        match r {
            Ok(()) => prepare_error(*col, o@) is None,
            Err(e) => prepare_error(*col, o@) == Some(e@),
        },
    decreases *col, 0int, 0int,
{
    let children = match &col.data {
        ColumnData::Union { children, .. } => children,
        _ => {
            proof {
                assert(false);
            }
            return Ok(());
        },
    };
    let n = children.len();
    let mut j: usize = 0;
    while j < n
        invariant
            col.data is Union,
            *children == col.data->children,
            n == children.len(),
            j <= n,
            children_prepare_error(*col, j as int, o@) is None,
        decreases n - j,
    {
        match make_formatter(&children[j].column, o) {
            Ok(()) => {},
            Err(e) => {
                proof {
                    assert(children_prepare_error(*col, j + 1, o@) == Some(e@));
                    lemma_children_prepare_stop(*col, j + 1, n as int, o@);
                }
                return Err(e);
            },
        }
        j += 1;
    }
    Ok(())
}

/// Writes row `i` of `col`: the null text for a null row, else its value.
fn write_value(col: &Column, i: usize, o: &FormatOptions, out: &mut String) -> (r: Result<
    (),
    FormatError,
>)
    requires
        column_wf(*col),
        prepare_error(*col, o@) is None,
        row_readable(*col, i as int),
        row_printable(*col, i as int, o@),
    ensures
        final(out)@ == old(out)@ + render(*col, i as int, o@).text,
        match r {
            Ok(()) => render(*col, i as int, o@).error is None,
            Err(e) => render(*col, i as int, o@).error == Some(e@),
        },
    decreases *col, 1int, 0int,
{
    let null_row = match &col.nulls {
        Some(v) => !v[i],
        None => false,
    };
    if null_row {
        let null = o.null();
        if !null.is_empty() {
            out.append(null);
        } else {
            assert(out@ =~= old(out)@ + null@);
        }
        return Ok(());
    }
    proof {
        reveal_strlit("true");
        reveal_strlit("false");
    }
    match &col.data {
        ColumnData::Null => {
            out.append(o.null());
            Ok(())
        },
        ColumnData::Boolean(v) => {
            if v[i] {
                out.append("true");
            } else {
                out.append("false");
            }
            Ok(())
        },
        ColumnData::Int(v) => {
            let s = lexical_i64_text(v[i]);
            out.append(s.as_str());
            Ok(())
        },
        ColumnData::UInt(v) => {
            let s = lexical_u64_text(v[i]);
            out.append(s.as_str());
            Ok(())
        },
        ColumnData::Text(v) => {
            out.append(v[i].as_str());
            Ok(())
        },
        ColumnData::Duration(u, v) => {
            push_duration(out, v[i], *u, o.duration_format());
            Ok(())
        },
        ColumnData::Date32(v) => {
            let r = match o.date_format() {
                TimeFormat::Custom(f) => date32_format(v[i], f),
                _ => never_failing(date32_debug(v[i])),
            };
            push_temporal(out, r, v[i] as i64, "temporal")
        },
        ColumnData::Date64(v) => {
            let r = match o.datetime_format() {
                TimeFormat::Custom(f) => date64_format(v[i], f),
                _ => never_failing(date64_debug(v[i])),
            };
            push_temporal(out, r, v[i], "temporal")
        },
        ColumnData::Time32(u, v) => {
            let r = match (o.time_format(), u) {
                (TimeFormat::Custom(f), TimeUnit::Second) => time32s_format(v[i], f),
                (TimeFormat::Custom(f), _) => time32ms_format(v[i], f),
                (_, TimeUnit::Second) => never_failing(time32s_debug(v[i])),
                (_, _) => never_failing(time32ms_debug(v[i])),
            };
            push_temporal(out, r, v[i] as i64, "temporal")
        },
        ColumnData::Time64(u, v) => {
            let r = match (o.time_format(), u) {
                (TimeFormat::Custom(f), TimeUnit::Microsecond) => time64us_format(v[i], f),
                (TimeFormat::Custom(f), _) => time64ns_format(v[i], f),
                (_, TimeUnit::Microsecond) => never_failing(time64us_debug(v[i])),
                (_, _) => never_failing(time64ns_debug(v[i])),
            };
            push_temporal(out, r, v[i], "temporal")
        },
        ColumnData::Timestamp { unit, timezone, values } => {
            let v = values[i];
            let r = match timezone {
                Some(tz) => {
                    let tz = tz.as_str();
                    match o.timestamp_tz_format() {
                        TimeFormat::Custom(f) => match unit {
                            TimeUnit::Second => timestamp_s_tz_format(v, tz, f),
                            TimeUnit::Millisecond => timestamp_ms_tz_format(v, tz, f),
                            TimeUnit::Microsecond => timestamp_us_tz_format(v, tz, f),
                            TimeUnit::Nanosecond => timestamp_ns_tz_format(v, tz, f),
                        },
                        _ => never_failing(
                            match unit {
                                TimeUnit::Second => timestamp_s_tz_rfc3339(v, tz),
                                TimeUnit::Millisecond => timestamp_ms_tz_rfc3339(v, tz),
                                TimeUnit::Microsecond => timestamp_us_tz_rfc3339(v, tz),
                                TimeUnit::Nanosecond => timestamp_ns_tz_rfc3339(v, tz),
                            },
                        ),
                    }
                },
                None => match o.timestamp_format() {
                    TimeFormat::Custom(f) => match unit {
                        TimeUnit::Second => timestamp_s_format(v, f),
                        TimeUnit::Millisecond => timestamp_ms_format(v, f),
                        TimeUnit::Microsecond => timestamp_us_format(v, f),
                        TimeUnit::Nanosecond => timestamp_ns_format(v, f),
                    },
                    _ => never_failing(
                        match unit {
                            TimeUnit::Second => timestamp_s_debug(v),
                            TimeUnit::Millisecond => timestamp_ms_debug(v),
                            TimeUnit::Microsecond => timestamp_us_debug(v),
                            TimeUnit::Nanosecond => timestamp_ns_debug(v),
                        },
                    ),
                },
            };
            push_temporal(out, r, v, "timestamp")
        },
        ColumnData::Decimal128 { precision, scale, values } => {
            let s = arrow_decimal128_text(values[i], *precision, *scale);
            out.append(s.as_str());
            Ok(())
        },
        ColumnData::Decimal256 { precision, scale, values } => {
            let (high, low) = values[i];
            let s = arrow_decimal256_text(high, low, *precision, *scale);
            out.append(s.as_str());
            Ok(())
        },
        ColumnData::List { offsets, .. } => write_list(col, offsets[i], offsets[i + 1], o, out),
        ColumnData::FixedSizeList { size, values } => {
            proof {
                let n = col.len as int;
                let z = *size as int;
                assert((i + 1) * z <= n * z) by (nonlinear_arith)
                    requires
                        i + 1 <= n,
                        0 <= z,
                ;
                assert((i + 1) * z == i * z + z) by (nonlinear_arith);
            }
            let start = i * *size;
            write_list(col, start, start + *size, o, out)
        },
        ColumnData::Struct { .. } => write_struct(col, i, o, out),
        ColumnData::KeyValue { offsets, .. } => write_map(col, offsets[i], offsets[i + 1], o, out),
        ColumnData::Dictionary { keys, values } => write_value(values, keys[i], o, out),
        ColumnData::RunEndEncoded { run_ends, values } => {
            let j = find_run(run_ends, i);
            write_value(values, j, o, out)
        },
        ColumnData::Union { .. } => write_union(col, i, o, out),
        ColumnData::Unsupported { .. } => {
            proof {
                assert(false);
            }
            Ok(())
        },
    }
}

/// The first run whose end is past row `i`, found by binary search over the
/// increasing run ends.
fn find_run(run_ends: &Vec<usize>, i: usize) -> (r: usize)
    requires
        run_ends.len() > 0,
        run_ends@.last() > i,
        forall|a: int, b: int| 0 <= a < b < run_ends.len() ==> run_ends@[a] < run_ends@[b],
    ensures
        r == run_of(run_ends@, i as int, 0),
        r < run_ends.len(),
{
    let n = run_ends.len();
    let mut lo: usize = 0;
    let mut hi: usize = n - 1;
    while lo < hi
        invariant
            n == run_ends.len(),
            lo <= hi < n,
            run_ends@[hi as int] > i,
            forall|m: int| 0 <= m < lo ==> run_ends@[m] <= i,
            forall|a: int, b: int| 0 <= a < b < run_ends.len() ==> run_ends@[a] < run_ends@[b],
        decreases hi - lo,
    {
        let mid = lo + (hi - lo) / 2;
        if run_ends[mid] <= i {
            lo = mid + 1;
        } else {
            hi = mid;
        }
    }
    proof {
        lemma_run_of_first(run_ends@, i as int, 0, lo as int);
    }
    lo
}

/// Whether the instant `v`, counted in `unit`, lies off chrono's first and
/// last day.
fn instant_off_edge_days(v: i64, unit: TimeUnit) -> (r: bool)
    ensures
        r == off_edge_days(v as int, per_second(unit)),
{
    let per: i128 = match unit {
        TimeUnit::Second => 1,
        TimeUnit::Millisecond => 1000,
        TimeUnit::Microsecond => 1_000_000,
        TimeUnit::Nanosecond => 1_000_000_000,
    };
    let day = 86400 * per;
    let v = v as i128;
    v < -96465293 * day || (-96465292 * day <= v && v < 95026236 * day) || v >= 95026237 * day
}

/// Whether writing row `i` of `col` hands no outside function a value on
/// which it panics, as [`row_printable`] states it: the test to make before
/// writing a row of a column built by hand.
pub fn is_printable(col: &Column, i: usize, o: &FormatOptions) -> (r: bool)
    requires
        column_wf(*col),
        row_readable(*col, i as int),
    ensures
        r == row_printable(*col, i as int, o@),
    decreases *col, 0int, 0int,
{
    if let ColumnData::Null = &col.data {
        return true;
    }
    match &col.nulls {
        Some(v) => {
            if !v[i] {
                return true;
            }
        },
        None => {},
    }
    match &col.data {
        ColumnData::Timestamp { unit, timezone, values } => {
            if timezone.is_none() {
                return true;
            }
            match o.timestamp_tz_format() {
                TimeFormat::Custom(_) => true,
                _ => instant_off_edge_days(values[i], *unit),
            }
        },
        ColumnData::Decimal128 { precision, scale, values } => decimal128_formats(
            values[i],
            *precision,
            *scale,
        ),
        ColumnData::Decimal256 { precision, scale, values } => decimal256_formats(
            values[i].0,
            values[i].1,
            *precision,
            *scale,
        ),
        ColumnData::List { offsets, values } => range_is_printable(values, offsets[i], offsets[i + 1], o),
        ColumnData::FixedSizeList { size, values } => {
            proof {
                let n = col.len as int;
                let z = *size as int;
                assert((i + 1) * z <= n * z) by (nonlinear_arith)
                    requires
                        i + 1 <= n,
                        0 <= z,
                ;
                assert((i + 1) * z == i * z + z) by (nonlinear_arith);
            }
            let start = i * *size;
            range_is_printable(values, start, start + *size, o)
        },
        ColumnData::Struct { columns, .. } => {
            let mut j: usize = 0;
            while j < columns.len()
                invariant
                    column_wf(*col),
                    col.data is Struct,
                    *columns == col.data->columns,
                    i < col.len,
                    !is_null_at(*col, i as int),
                    j <= columns.len(),
                    forall|k: int| 0 <= k < j ==> row_printable(#[trigger] columns@[k], i as int, o@),
                decreases columns.len() - j,
            {
                assert(col.len <= columns@[j as int].len && column_wf(columns@[j as int]));
                if !is_printable(&columns[j], i, o) {
                    assert(!row_printable(columns@[j as int], i as int, o@));
                    return false;
                }
                j += 1;
            }
            true
        },
        ColumnData::KeyValue { offsets, keys, values } => range_is_printable(
            keys,
            offsets[i],
            offsets[i + 1],
            o,
        ) && range_is_printable(values, offsets[i], offsets[i + 1], o),
        ColumnData::Dictionary { keys, values } => is_printable(values, keys[i], o),
        ColumnData::RunEndEncoded { run_ends, values } => {
            let j = find_run(run_ends, i);
            is_printable(values, j, o)
        },
        ColumnData::Union { mode, type_ids, offsets, children } => {
            let found = child_position(children, type_ids[i]);
            proof {
                lemma_find_child(children@, type_ids@[i as int], children.len() as int);
            }
            match found {
                Some(c) => {
                    let k = match mode {
                        UnionMode::Dense => offsets[i],
                        UnionMode::Sparse => i,
                    };
                    assert(column_wf(children@[c as int].column));
                    is_printable(&children[c].column, k, o)
                },
                None => true,
            }
        },
        _ => true,
    }
}

/// Whether the rows `start..end` of `col` are printable.
fn range_is_printable(col: &Column, start: usize, end: usize, o: &FormatOptions) -> (r: bool)
    requires
        column_wf(*col),
        start < end ==> end <= col.len,
    ensures
        r == range_printable(*col, start as int, end as int, o@),
    decreases *col, 1int, 0int,
{
    if end <= start {
        return true;
    }
    let mut k = start;
    while k < end
        invariant
            column_wf(*col),
            start <= k <= end,
            end <= col.len,
            range_printable(*col, start as int, k as int, o@),
        decreases end - k,
    {
        if !is_printable(col, k, o) {
            proof {
                if range_printable(*col, start as int, end as int, o@) {
                    lemma_range_printable(*col, start as int, end as int, k as int, o@);
                }
            }
            return false;
        }
        k += 1;
    }
    true
}

/// Writes the elements `start..end` of the child of a list column, as `[a, b]`.
fn write_list(col: &Column, start: usize, end: usize, o: &FormatOptions, out: &mut String) -> (r:
    Result<(), FormatError>)
    requires
        column_wf(*col),
        prepare_error(*col, o@) is None,
        col.data is List || col.data is FixedSizeList,
        start < end && col.data is List ==> end <= col.data->List_values.len,
        start < end && col.data is FixedSizeList ==> end <= col.data->FixedSizeList_values.len,
        col.data is List ==> range_printable(*col.data->List_values, start as int, end as int, o@),
        col.data is FixedSizeList ==> range_printable(
            *col.data->FixedSizeList_values,
            start as int,
            end as int,
            o@,
        ),
    ensures
        ({
            let whole = Rendered {
                text: seq!['['] + list_items(*col, start as int, end as int, o@).text,
                error: list_items(*col, start as int, end as int, o@).error,
            };
            &&& final(out)@ == old(out)@ + (if whole.error is Some {
                whole.text
            } else {
                whole.text + seq![']']
            })
            &&& match r {
                Ok(()) => whole.error is None,
                Err(e) => whole.error == Some(e@),
            }
        }),
    decreases *col, 0int, 0int,
{
    let child: &Column = match &col.data {
        ColumnData::List { values, .. } => values,
        ColumnData::FixedSizeList { values, .. } => values,
        _ => {
            proof {
                assert(false);
            }
            return Ok(());
        },
    };
    proof {
        reveal_strlit("[");
        reveal_strlit("]");
        reveal_strlit(", ");
    }
    let ghost begin = old(out)@;
    out.append("[");
    if start >= end {
        out.append("]");
        return Ok(());
    }
    let mut k = start;
    while k < end
        invariant
            column_wf(*child),
            prepare_error(*child, o@) is None,
            end <= child.len,
            col.data is List ==> *child == *col.data->List_values,
            col.data is FixedSizeList ==> *child == *col.data->FixedSizeList_values,
            col.data is List || col.data is FixedSizeList,
            range_printable(*child, start as int, end as int, o@),
            start <= k <= end,
            begin == old(out)@,
            out@ == begin + seq!['['] + list_items(*col, start as int, k as int, o@).text,
            list_items(*col, start as int, k as int, o@).error is None,
        decreases end - k,
    {
        let ghost lk = list_items(*col, start as int, k as int, o@);
        let ghost sep = crate::render::separator(k == start);
        proof {
            reveal_strlit(", ");
        }
        if k > start {
            out.append(", ");
        }
        assert(out@ =~= begin + seq!['['] + lk.text + sep);
        proof {
            lemma_range_printable(*child, start as int, end as int, k as int, o@);
        }
        let res = write_value(child, k, o, out);
        let ghost elem = render(*child, k as int, o@);
        let ghost lk1 = list_items(*col, start as int, k + 1, o@);
        assert(lk1 == crate::render::followed_by(lk, crate::render::followed_by(crate::render::ok(sep), elem)));
        assert(out@ =~= begin + seq!['['] + lk1.text);
        match res {
            Ok(()) => {},
            Err(e) => {
                assert(elem.error == Some(e@));
                assert(lk1.error == Some(e@));
                proof {
                    lemma_list_items_stop(*col, start as int, k + 1, end as int, o@);
                }
                assert(list_items(*col, start as int, end as int, o@) == lk1);
                assert(out@ == old(out)@ + seq!['['] + list_items(*col, start as int, end as int, o@).text);
                return Err(e);
            },
        }
        k += 1;
    }
    out.append("]");
    Ok(())
}

/// Writes row `i` of each child of a struct column, as `{a, b}`.
fn write_struct(col: &Column, i: usize, o: &FormatOptions, out: &mut String) -> (r: Result<
    (),
    FormatError,
>)
    requires
        column_wf(*col),
        prepare_error(*col, o@) is None,
        col.data is Struct,
        i < col.len,
        !is_null_at(*col, i as int),
        row_printable(*col, i as int, o@),
    ensures
        ({
            let fields = struct_fields(*col, i as int, col.data->columns.len() as int, o@);
            &&& final(out)@ == old(out)@ + (if fields.error is Some {
                seq!['{'] + fields.text
            } else {
                seq!['{'] + fields.text + seq!['}']
            })
            &&& match r {
                Ok(()) => fields.error is None,
                Err(e) => fields.error == Some(e@),
            }
        }),
    decreases *col, 0int, 0int,
{
    let columns = match &col.data {
        ColumnData::Struct { columns, .. } => columns,
        _ => {
            proof {
                assert(false);
            }
            return Ok(());
        },
    };
    proof {
        reveal_strlit("{");
        reveal_strlit("}");
        reveal_strlit(", ");
    }
    let ghost begin = old(out)@;
    let n = columns.len();
    out.append("{");
    let mut j: usize = 0;
    while j < n
        invariant
            column_wf(*col),
            prepare_error(*col, o@) is None,
            col.data is Struct,
            *columns == col.data->columns,
            n == columns.len(),
            i < col.len,
            !is_null_at(*col, i as int),
            row_printable(*col, i as int, o@),
            j <= n,
            begin == old(out)@,
            out@ == begin + seq!['{'] + struct_fields(*col, i as int, j as int, o@).text,
            struct_fields(*col, i as int, j as int, o@).error is None,
        decreases n - j,
    {
        proof {
            reveal_strlit(", ");
        }
        if j > 0 {
            out.append(", ");
        }
        proof {
            lemma_fields_prepared(*col, n as int, j as int, o@);
            assert(col.len <= columns@[j as int].len && column_wf(columns@[j as int]));
            assert(row_printable(columns@[j as int], i as int, o@));
        }
        let res = write_value(&columns[j], i, o, out);
        assert(struct_fields(*col, i as int, j + 1, o@).text =~= struct_fields(
            *col,
            i as int,
            j as int,
            o@,
        ).text + crate::render::separator(j == 0) + render(columns@[j as int], i as int, o@).text);
        match res {
            Ok(()) => {},
            Err(e) => {
                proof {
                    lemma_struct_fields_stop(*col, i as int, j + 1, n as int, o@);
                }
                return Err(e);
            },
        }
        j += 1;
    }
    out.append("}");
    Ok(())
}

/// Writes the entries `start..end` of a map column, as `{k -> v, ...}`.
fn write_map(col: &Column, start: usize, end: usize, o: &FormatOptions, out: &mut String) -> (r:
    Result<(), FormatError>)
    requires
        column_wf(*col),
        prepare_error(*col, o@) is None,
        col.data is KeyValue,
        start <= end <= col.data->KeyValue_keys.len,
        range_printable(*col.data->KeyValue_keys, start as int, end as int, o@),
        range_printable(*col.data->KeyValue_values, start as int, end as int, o@),
    ensures
        ({
            let entries = map_entries(*col, start as int, end as int, o@);
            &&& final(out)@ == old(out)@ + (if entries.error is Some {
                seq!['{'] + entries.text
            } else {
                seq!['{'] + entries.text + seq!['}']
            })
            &&& match r {
                Ok(()) => entries.error is None,
                Err(e) => entries.error == Some(e@),
            }
        }),
    decreases *col, 0int, 0int,
{
    let (keys, values) = match &col.data {
        ColumnData::KeyValue { keys, values, .. } => (keys, values),
        _ => {
            proof {
                assert(false);
            }
            return Ok(());
        },
    };
    proof {
        reveal_strlit("{");
        reveal_strlit("}");
        reveal_strlit(", ");
    }
    let ghost begin = old(out)@;
    out.append("{");
    let mut k = start;
    while k < end
        invariant
            column_wf(*col),
            prepare_error(*col, o@) is None,
            col.data is KeyValue,
            *keys == col.data->KeyValue_keys,
            *values == col.data->KeyValue_values,
            start <= k <= end,
            end <= keys.len,
            keys.len <= values.len,
            column_wf(**keys),
            column_wf(**values),
            range_printable(**keys, start as int, end as int, o@),
            range_printable(**values, start as int, end as int, o@),
            begin == old(out)@,
            out@ == begin + seq!['{'] + map_entries(*col, start as int, k as int, o@).text,
            map_entries(*col, start as int, k as int, o@).error is None,
        decreases end - k,
    {
        let ghost mk = map_entries(*col, start as int, k as int, o@);
        let ghost sep = crate::render::separator(k == start);
        proof {
            reveal_strlit(", ");
            reveal_strlit(" -> ");
        }
        if k > start {
            out.append(", ");
        }
        assert(out@ =~= begin + seq!['{'] + mk.text + sep);
        proof {
            lemma_range_printable(**keys, start as int, end as int, k as int, o@);
            lemma_range_printable(**values, start as int, end as int, k as int, o@);
        }
        let res = write_value(keys, k, o, out);
        let ghost key = render(**keys, k as int, o@);
        let ghost val = render(**values, k as int, o@);
        let ghost mk1 = map_entries(*col, start as int, k + 1, o@);
        assert(mk1 == followed_by(
            mk,
            followed_by(followed_by(followed_by(ok(sep), key), ok(" -> "@)), val),
        ));
        match res {
            Ok(()) => {},
            Err(e) => {
                assert(mk1.error == Some(e@));
                assert(out@ =~= begin + seq!['{'] + mk1.text);
                proof {
                    lemma_map_entries_stop(*col, start as int, k + 1, end as int, o@);
                }
                return Err(e);
            },
        }
        out.append(" -> ");
        let res = write_value(values, k, o, out);
        assert(out@ =~= begin + seq!['{'] + mk1.text);
        match res {
            Ok(()) => {},
            Err(e) => {
                assert(mk1.error == Some(e@));
                proof {
                    lemma_map_entries_stop(*col, start as int, k + 1, end as int, o@);
                }
                return Err(e);
            },
        }
        k += 1;
    }
    out.append("}");
    Ok(())
}

/// Writes row `i` of a union column, as `{name=value}`.
fn write_union(col: &Column, i: usize, o: &FormatOptions, out: &mut String) -> (r: Result<
    (),
    FormatError,
>)
    requires
        column_wf(*col),
        prepare_error(*col, o@) is None,
        col.data is Union,
        i < col.len,
        !is_null_at(*col, i as int),
        row_printable(*col, i as int, o@),
    ensures
        final(out)@ == old(out)@ + render(*col, i as int, o@).text,
        match r {
            Ok(()) => render(*col, i as int, o@).error is None,
            Err(e) => render(*col, i as int, o@).error == Some(e@),
        },
    decreases *col, 0int, 0int,
{
    let (mode, type_ids, offsets, children) = match &col.data {
        ColumnData::Union { mode, type_ids, offsets, children } => (mode, type_ids, offsets, children),
        _ => {
            proof {
                assert(false);
            }
            return Ok(());
        },
    };
    let id = type_ids[i];
    let n = children.len();
    let found = child_position(children, id);
    proof {
        lemma_find_child(children@, id, n as int);
    }
    let c = match found {
        Some(c) => c,
        None => {
            let m = max_id(children);
            let mut msg = String::from_str("Union type id ");
            push_decimal(&mut msg, id as u64);
            msg.append(" not found in array with ");
            push_decimal(&mut msg, m as u64 + 1);
            msg.append(" fields");
            assert(msg@ =~= missing_type_id_message(id as nat, max_type_id(children@, n as int) + 1));
            assert(out@ =~= old(out)@ + seq![]);
            return Err(FormatError::Data(DisplayError::CastError(msg)));
        },
    };
    let k = match mode {
        UnionMode::Dense => offsets[i],
        UnionMode::Sparse => i,
    };
    proof {
        reveal_strlit("{");
        reveal_strlit("}");
        reveal_strlit("=");
        lemma_children_prepared(*col, n as int, c as int, o@);
        assert(column_wf(children@[c as int].column));
        assert(k < children@[c as int].column.len);
    }
    out.append("{");
    out.append(children[c].name.as_str());
    out.append("=");
    write_value(&children[c].column, k, o, out)?;
    out.append("}");
    Ok(())
}

/// A string formatter for a [`Column`]: it checks once that every data type
/// in the column can be formatted, and formats single values on request.
pub struct ArrayFormatter<'a> {
    column: &'a Column,
    options: FormatOptions<'a>,
}

impl<'a> ArrayFormatter<'a> {
    #[verifier::type_invariant]
    spec fn inv(self) -> bool {
        &&& column_wf(*self.column)
        &&& prepare_error(*self.column, self.options@) is None
    }

    /// The column that the formatter formats.
    pub closed spec fn column(self) -> Column {
        *self.column
    }

    /// The options that the formatter formats with.
    pub closed spec fn options(self) -> FormatOptionsView {
        self.options@
    }

    /// Returns an [`ArrayFormatter`] that can be used to format `array`
    ///
    /// This returns an error if a data type in the column cannot be formatted
    /// with the options
    pub fn try_new(array: &'a Column, options: &FormatOptions<'a>) -> (r: Result<Self, DisplayError>)
        requires
            column_wf(*array),
        ensures
            match r {
                Ok(f) => prepare_error(*array, options@) is None && f.column() == *array
                    && f.options() == options@,
                Err(e) => prepare_error(*array, options@) == Some(e@),
            },
    {
        make_formatter(array, options)?;
        Ok(Self { column: array, options: *options })
    }

    /// Returns a [`ValueFormatter`] for the value of the column at `idx`
    pub fn value(&self, idx: usize) -> (r: ValueFormatter<'_>)
        ensures
            r.index() == idx,
            r.formatter() == *self,
    {
        ValueFormatter { idx, formatter: self }
    }
}

/// The formatter of one value of a column
pub struct ValueFormatter<'a> {
    idx: usize,
    formatter: &'a ArrayFormatter<'a>,
}

impl<'a> ValueFormatter<'a> {
    /// The row of the value.
    pub closed spec fn index(self) -> int {
        self.idx as int
    }

    /// The formatter of the column of the value.
    pub closed spec fn formatter(self) -> ArrayFormatter<'a> {
        *self.formatter
    }

    /// What formatting the value writes.
    pub open spec fn rendered(self) -> Rendered {
        render(self.formatter().column(), self.index(), self.formatter().options())
    }

    /// Writes this value to `s`
    ///
    /// Note: this ignores [`FormatOptions::with_display_error`] and
    /// returns an error on formatting issue
    pub fn write(&self, s: &mut String) -> (r: Result<(), DisplayError>)
        requires
            row_readable(self.formatter().column(), self.index()),
            row_printable(self.formatter().column(), self.index(), self.formatter().options()),
        ensures
            final(s)@ == old(s)@ + self.rendered().text,
            match r {
                Ok(()) => self.rendered().error is None,
                Err(e) => self.rendered().error matches Some(x) && e@ == reported_error(x),
            },
    {
        proof {
            use_type_invariant(self.formatter);
        }
        match write_value(self.formatter.column, self.idx, &self.formatter.options, s) {
            Ok(()) => Ok(()),
            Err(FormatError::Data(e)) => Err(e),
            Err(FormatError::Format) => {
                let m = String::from_str("format error");
                Err(DisplayError::CastError(m))
            },
        }
    }

    /// Fallibly converts this to a string
    pub fn try_to_string(&self) -> (r: Result<String, DisplayError>)
        requires
            row_readable(self.formatter().column(), self.index()),
            row_printable(self.formatter().column(), self.index(), self.formatter().options()),
        ensures
            match r {
                Ok(t) => self.rendered().error is None && t@ == self.rendered().text,
                Err(e) => self.rendered().error matches Some(x) && e@ == reported_error(x),
            },
    {
        let mut s = String::new();
        self.write(&mut s)?;
        Ok(s)
    }

    /// Displays this value into `s`: where an error of the data stops
    /// formatting and the options display errors, `ERROR: ` and the error's
    /// message follow what was written; else an error fails the display.
    pub fn fmt(&self, s: &mut String) -> (r: Result<(), ()>)
        requires
            row_readable(self.formatter().column(), self.index()),
            row_printable(self.formatter().column(), self.index(), self.formatter().options()),
        ensures
            match self.rendered().error {
                None => r is Ok && final(s)@ == old(s)@ + self.rendered().text,
                Some(e) => if self.formatter().options().safe && !(e is FormatFailure) {
                    r is Ok && final(s)@ == old(s)@ + self.rendered().text + "ERROR: "@
                        + error_message(e)
                } else {
                    r is Err && final(s)@ == old(s)@ + self.rendered().text
                },
            },
    {
        proof {
            use_type_invariant(self.formatter);
        }
        match write_value(self.formatter.column, self.idx, &self.formatter.options, s) {
            Ok(()) => Ok(()),
            Err(FormatError::Data(e)) => {
                if self.formatter.options.safe() {
                    s.append("ERROR: ");
                    let m = e.message();
                    s.append(m.as_str());
                    Ok(())
                } else {
                    Err(())
                }
            },
            Err(FormatError::Format) => Err(()),
        }
    }

    /// Converts this value to its displayed string
    pub fn to_string(&self) -> (r: String)
        requires
            row_readable(self.formatter().column(), self.index()),
            row_printable(self.formatter().column(), self.index(), self.formatter().options()),
            self.rendered().error is None || (self.formatter().options().safe
                && !(self.rendered().error matches Some(ErrorText::FormatFailure))),
        ensures
            r@ == display_text(
                self.formatter().column(),
                self.index(),
                self.formatter().options(),
            ),
    {
        let mut s = String::new();
        let _ = self.fmt(&mut s);
        s
    }
}

/// Get the value at the given row in a column as a String.
///
/// Note this function is quite inefficient and is unlikely to be
/// suitable for converting large columns.
///
/// Please see [`ArrayFormatter`] for a more performant interface
pub fn array_value_to_string(column: &Column, row: usize) -> (r: Result<String, DisplayError>)
    requires
        column_wf(*column),
        row_readable(*column, row as int),
        row_printable(*column, row as int, default_options_view()),
    ensures
        match r {
            Ok(s) => prepare_error(*column, default_options_view()) is None && s@ == display_text(
                *column,
                row as int,
                default_options_view(),
            ),
            Err(e) => prepare_error(*column, default_options_view()) == Some(e@),
        },
{
    let options = FormatOptions::default().with_display_error(true);
    let formatter = ArrayFormatter::try_new(column, &options)?;
    let mut s = String::new();
    let _ = formatter.value(row).fmt(&mut s);
    Ok(s)
}

} // verus!
