//! What formatting a value of a column writes, as a specification.

use vstd::prelude::*;
use crate::column::{
    Column, ColumnData, TimeUnit, UnionChild, UnionMode, find_child, is_null_at, lemma_find_child,
    max_type_id, run_of,
};
use crate::decimal::{decimal_formats, decimal_text, i256_value};
use crate::duration::duration_text;
use crate::options::{FormatOptionsView, TimeFormatView};
use crate::temporal::{
    fits_i64, off_edge_days, date32_debug_of, date32_format_of, time32s_debug_of, time32s_format_of, time32ms_debug_of, time32ms_format_of, time64us_debug_of, time64us_format_of, time64ns_debug_of, time64ns_format_of, timestamp_s_debug_of, timestamp_s_format_of, timestamp_ms_debug_of, timestamp_ms_format_of, timestamp_us_debug_of, timestamp_us_format_of, timestamp_ns_debug_of, timestamp_ns_format_of, timestamp_s_tz_rfc3339_of, timestamp_s_tz_format_of, timestamp_ms_tz_rfc3339_of, timestamp_ms_tz_format_of, timestamp_us_tz_rfc3339_of, timestamp_us_tz_format_of, timestamp_ns_tz_rfc3339_of, timestamp_ns_tz_format_of, timezone_error_of,
};
use crate::text::{digits_of, int_text};
use crate::data_source::{all_digits, digits_value, lemma_digits_parse};

verus! {

/// The content of an error that stops formatting.
pub enum ErrorText {
    /// A value could not be converted for display.
    CastError(Seq<char>),
    /// The data type of a column cannot be formatted.
    NotYetImplemented(Seq<char>),
    /// A timezone does not parse.
    ParseError(Seq<char>),
    /// A format string fails.
    FormatFailure,
}

/// The text by which an error is displayed.
pub open spec fn error_message(e: ErrorText) -> Seq<char> {
    match e {
        ErrorText::CastError(s) => "Cast error: "@ + s,
        ErrorText::NotYetImplemented(s) => "Not yet implemented: "@ + s,
        ErrorText::ParseError(s) => "Parser error: "@ + s,
        ErrorText::FormatFailure => "an error occurred when formatting an argument"@,
    }
}

/// The text that formatting writes, and the error that stopped it, if any
/// (the text is in that case what was written before the error).
pub struct Rendered {
    pub text: Seq<char>,
    pub error: Option<ErrorText>,
}

/// Formatting that writes `text` and succeeds.
pub open spec fn ok(text: Seq<char>) -> Rendered {
    Rendered { text, error: None }
}

/// Formatting `a`, followed by `b` unless `a` failed.
pub open spec fn followed_by(a: Rendered, b: Rendered) -> Rendered {
    if a.error is Some {
        a
    } else {
        Rendered { text: a.text + b.text, error: b.error }
    }
}

/// The separator written before each element but the first.
pub open spec fn separator(first: bool) -> Seq<char> {
    if first {
        seq![]
    } else {
        seq![',', ' ']
    }
}

/// The message of a type id that names no child of a union with `n` slots.
pub open spec fn missing_type_id_message(id: nat, n: nat) -> Seq<char> {
    "Union type id "@ + digits_of(id) + " not found in array with "@ + digits_of(n) + " fields"@
}

/// The message of a data type that cannot be formatted.
pub open spec fn unsupported_message(data_type: Seq<char>) -> Seq<char> {
    "formatting "@ + data_type + " is not yet supported"@
}

/// The refusal of a temporal column of kind `kind` to be written in the Spark
/// format, whose form is not available here.
pub open spec fn spark_refusal(f: TimeFormatView, kind: Seq<char>) -> Option<ErrorText> {
    match f {
        TimeFormatView::Spark => Some(
            ErrorText::NotYetImplemented(unsupported_message(kind + " in the Spark format"@)),
        ),
        _ => None,
    }
}

/// What writing a date, time or timestamp gives, from what chrono renders:
/// an error naming the value where it has no date or time, a format failure,
/// or the text.
pub open spec fn temporal(r: Option<Option<Seq<char>>>, value: int, kind: Seq<char>) -> Rendered {
    match r {
        None => Rendered {
            text: seq![],
            error: Some(
                ErrorText::CastError("invalid "@ + kind + " value: "@ + int_text(value)),
            ),
        },
        Some(None) => Rendered { text: seq![], error: Some(ErrorText::FormatFailure) },
        Some(Some(t)) => ok(t),
    }
}

/// A text that cannot fail to be written, as a possibly failing one.
pub open spec fn never_fails(t: Option<Seq<char>>) -> Option<Option<Seq<char>>> {
    match t {
        None => None,
        Some(s) => Some(Some(s)),
    }
}

/// What chrono shows for the date `v` of a `Date32` column in the format `f`:
/// its `Debug` form, or the custom format.
pub open spec fn date32_shown(v: int, f: TimeFormatView) -> Option<Option<Seq<char>>> {
    match f {
        TimeFormatView::Custom(s) => date32_format_of(v, s),
        _ => never_fails(date32_debug_of(v)),
    }
}

/// The number of nanoseconds that `v`, counted in `u`, stands for.
pub open spec fn as_nanos(u: TimeUnit, v: int) -> int {
    match u {
        TimeUnit::Second => v * 1_000_000_000,
        TimeUnit::Millisecond => v * 1_000_000,
        TimeUnit::Microsecond => v * 1000,
        TimeUnit::Nanosecond => v,
    }
}

/// What chrono shows for the date and time `v` of a `Date64` column in the
/// format `f`: arrow reads its milliseconds as it reads those of a
/// timestamp.
pub open spec fn date64_shown(v: int, f: TimeFormatView) -> Option<Option<Seq<char>>> {
    timestamp_shown(TimeUnit::Millisecond, v, f)
}

/// What chrono shows for a time of day `v` counted in `u`, in the format `f`:
/// where its nanoseconds are an `i64`, what it shows for them.
pub open spec fn time_shown(u: TimeUnit, v: int, f: TimeFormatView) -> Option<Option<Seq<char>>> {
    let n = as_nanos(u, v);
    if fits_i64(n) {
        match f {
            TimeFormatView::Custom(s) => time64ns_format_of(n, s),
            _ => never_fails(time64ns_debug_of(n)),
        }
    } else {
        match f {
            TimeFormatView::Custom(s) => match u {
                TimeUnit::Second => time32s_format_of(v, s),
                TimeUnit::Millisecond => time32ms_format_of(v, s),
                TimeUnit::Microsecond => time64us_format_of(v, s),
                TimeUnit::Nanosecond => time64ns_format_of(v, s),
            },
            _ => never_fails(
                match u {
                    TimeUnit::Second => time32s_debug_of(v),
                    TimeUnit::Millisecond => time32ms_debug_of(v),
                    TimeUnit::Microsecond => time64us_debug_of(v),
                    TimeUnit::Nanosecond => time64ns_debug_of(v),
                },
            ),
        }
    }
}

/// What chrono shows for a timestamp `v` counted in `u`, without timezone,
/// in the format `f`: where its nanoseconds are an `i64`, what it shows for
/// them.
pub open spec fn timestamp_shown(u: TimeUnit, v: int, f: TimeFormatView) -> Option<
    Option<Seq<char>>,
> {
    let n = as_nanos(u, v);
    if fits_i64(n) {
        match f {
            TimeFormatView::Custom(s) => timestamp_ns_format_of(n, s),
            _ => never_fails(timestamp_ns_debug_of(n)),
        }
    } else {
        match f {
            TimeFormatView::Custom(s) => match u {
                TimeUnit::Second => timestamp_s_format_of(v, s),
                TimeUnit::Millisecond => timestamp_ms_format_of(v, s),
                TimeUnit::Microsecond => timestamp_us_format_of(v, s),
                TimeUnit::Nanosecond => timestamp_ns_format_of(v, s),
            },
            _ => never_fails(
                match u {
                    TimeUnit::Second => timestamp_s_debug_of(v),
                    TimeUnit::Millisecond => timestamp_ms_debug_of(v),
                    TimeUnit::Microsecond => timestamp_us_debug_of(v),
                    TimeUnit::Nanosecond => timestamp_ns_debug_of(v),
                },
            ),
        }
    }
}

/// What chrono shows for a timestamp `v` counted in `u`, in the timezone
/// `tz`, in the format `f` (RFC 3339, or the custom format): where its
/// nanoseconds are an `i64`, what it shows for them.
pub open spec fn timestamp_tz_shown(u: TimeUnit, v: int, tz: Seq<char>, f: TimeFormatView) -> Option<
    Option<Seq<char>>,
> {
    let n = as_nanos(u, v);
    if fits_i64(n) {
        match f {
            TimeFormatView::Custom(s) => timestamp_ns_tz_format_of(n, tz, s),
            _ => never_fails(timestamp_ns_tz_rfc3339_of(n, tz)),
        }
    } else {
        match f {
            TimeFormatView::Custom(s) => match u {
                TimeUnit::Second => timestamp_s_tz_format_of(v, tz, s),
                TimeUnit::Millisecond => timestamp_ms_tz_format_of(v, tz, s),
                TimeUnit::Microsecond => timestamp_us_tz_format_of(v, tz, s),
                TimeUnit::Nanosecond => timestamp_ns_tz_format_of(v, tz, s),
            },
            _ => never_fails(
                match u {
                    TimeUnit::Second => timestamp_s_tz_rfc3339_of(v, tz),
                    TimeUnit::Millisecond => timestamp_ms_tz_rfc3339_of(v, tz),
                    TimeUnit::Microsecond => timestamp_us_tz_rfc3339_of(v, tz),
                    TimeUnit::Nanosecond => timestamp_ns_tz_rfc3339_of(v, tz),
                },
            ),
        }
    }
}

/// The parts of a second in which instants of the unit `u` are counted.
pub open spec fn per_second(u: TimeUnit) -> int {
    match u {
        TimeUnit::Second => 1,
        TimeUnit::Millisecond => 1000,
        TimeUnit::Microsecond => 1_000_000,
        TimeUnit::Nanosecond => 1_000_000_000,
    }
}

/// The error met while preparing the formatter of a column: the first data
/// type that cannot be formatted, in the order the column and its children
/// are visited.
pub open spec fn prepare_error(col: Column, o: FormatOptionsView) -> Option<ErrorText>
    decreases col, 1int, 0int,
{
    match col.data {
        ColumnData::List { values, .. } => prepare_error(*values, o),
        ColumnData::FixedSizeList { values, .. } => prepare_error(*values, o),
        ColumnData::Dictionary { values, .. } => prepare_error(*values, o),
        ColumnData::RunEndEncoded { values, .. } => prepare_error(*values, o),
        ColumnData::Struct { columns, .. } => fields_prepare_error(col, columns.len() as int, o),
        ColumnData::KeyValue { keys, values, .. } => match prepare_error(*keys, o) {
            Some(e) => Some(e),
            None => prepare_error(*values, o),
        },
        ColumnData::Union { children, .. } => children_prepare_error(col, children.len() as int, o),
        ColumnData::Unsupported { data_type } => Some(
            ErrorText::NotYetImplemented(unsupported_message(data_type@)),
        ),
        ColumnData::Date32(_) => spark_refusal(o.date_format, "Date32"@),
        ColumnData::Date64(_) => spark_refusal(o.datetime_format, "Date64"@),
        ColumnData::Time32(..) => spark_refusal(o.time_format, "Time32"@),
        ColumnData::Time64(..) => spark_refusal(o.time_format, "Time64"@),
        ColumnData::Timestamp { timezone, .. } => match timezone {
            Some(tz) => match timezone_error_of(tz@) {
                Some(m) => Some(ErrorText::ParseError(m)),
                None => spark_refusal(o.timestamp_tz_format, "Timestamp"@),
            },
            None => spark_refusal(o.timestamp_format, "Timestamp"@),
        },
        _ => None,
    }
}

/// The first preparation error among the first `n` children of a struct column.
pub open spec fn fields_prepare_error(col: Column, n: int, o: FormatOptionsView) -> Option<ErrorText>
    decreases col, 0int, n,
{
    match col.data {
        ColumnData::Struct { columns, .. } => if n <= 0 || n > columns.len() {
            None
        } else {
            match fields_prepare_error(col, n - 1, o) {
                Some(e) => Some(e),
                None => prepare_error(columns@[n - 1], o),
            }
        },
        _ => None,
    }
}

/// The first preparation error among the first `n` children of a union column.
pub open spec fn children_prepare_error(col: Column, n: int, o: FormatOptionsView) -> Option<ErrorText>
    decreases col, 0int, n,
{
    match col.data {
        ColumnData::Union { children, .. } => if n <= 0 || n > children.len() {
            None
        } else {
            match children_prepare_error(col, n - 1, o) {
                Some(e) => Some(e),
                None => prepare_error(children@[n - 1].column, o),
            }
        },
        _ => None,
    }
}

/// What formatting row `i` of `col` writes: the null text for a null row,
/// else the value, with lists as `[a, b]`, structs as `{a, b}`, maps as
/// `{k -> v, ...}` and unions as `{name=value}`.
pub open spec fn render(col: Column, i: int, o: FormatOptionsView) -> Rendered
    decreases col, 1int, 0int,
{
    if is_null_at(col, i) {
        ok(o.null)
    } else {
        match col.data {
            ColumnData::Null => ok(o.null),
            ColumnData::Boolean(v) => ok(
                if v@[i] {
                    "true"@
                } else {
                    "false"@
                },
            ),
            ColumnData::Int(v) => ok(int_text(v@[i] as int)),
            ColumnData::UInt(v) => ok(digits_of(v@[i] as nat)),
            ColumnData::Text(v) => ok(v@[i]@),
            ColumnData::Duration(u, v) => ok(duration_text(v@[i] as int, u, o.duration_format)),
            ColumnData::Date32(v) => temporal(
                date32_shown(v@[i] as int, o.date_format),
                v@[i] as int,
                "temporal"@,
            ),
            ColumnData::Date64(v) => temporal(
                date64_shown(v@[i] as int, o.datetime_format),
                v@[i] as int,
                "temporal"@,
            ),
            ColumnData::Time32(u, v) => temporal(
                time_shown(u, v@[i] as int, o.time_format),
                v@[i] as int,
                "temporal"@,
            ),
            ColumnData::Time64(u, v) => temporal(
                time_shown(u, v@[i] as int, o.time_format),
                v@[i] as int,
                "temporal"@,
            ),
            ColumnData::Timestamp { unit, timezone, values } => match timezone {
                Some(tz) => temporal(
                    timestamp_tz_shown(unit, values@[i] as int, tz@, o.timestamp_tz_format),
                    values@[i] as int,
                    "timestamp"@,
                ),
                None => temporal(
                    timestamp_shown(unit, values@[i] as int, o.timestamp_format),
                    values@[i] as int,
                    "timestamp"@,
                ),
            },
            ColumnData::Decimal128 { precision, scale, values } => ok(
                decimal_text(values@[i] as int, precision as nat, scale as int),
            ),
            ColumnData::Decimal256 { precision, scale, values } => ok(
                decimal_text(i256_value(values@[i].0, values@[i].1), precision as nat, scale as int),
            ),
            ColumnData::List { offsets, .. } => followed_by(
                followed_by(ok(seq!['[']), list_items(col, offsets@[i] as int, offsets@[i + 1] as int, o)),
                ok(seq![']']),
            ),
            ColumnData::FixedSizeList { size, .. } => followed_by(
                followed_by(ok(seq!['[']), list_items(col, i * size, i * size + size, o)),
                ok(seq![']']),
            ),
            ColumnData::Struct { columns, .. } => followed_by(
                followed_by(ok(seq!['{']), struct_fields(col, i, columns.len() as int, o)),
                ok(seq!['}']),
            ),
            ColumnData::KeyValue { offsets, .. } => followed_by(
                followed_by(ok(seq!['{']), map_entries(col, offsets@[i] as int, offsets@[i + 1] as int, o)),
                ok(seq!['}']),
            ),
            ColumnData::Dictionary { keys, values } => render(*values, keys@[i] as int, o),
            ColumnData::RunEndEncoded { run_ends, values } => render(
                *values,
                run_of(run_ends@, i, 0),
                o,
            ),
            ColumnData::Union { mode, type_ids, offsets, children } => {
                let id = type_ids@[i];
                match find_child(children@, id, children.len() as int) {
                    Some(j) => if 0 <= j < children.len() {
                        let k = match mode {
                            UnionMode::Dense => offsets@[i] as int,
                            UnionMode::Sparse => i,
                        };
                        followed_by(
                            followed_by(
                                ok(seq!['{'] + children@[j].name@ + seq!['=']),
                                render(children@[j].column, k, o),
                            ),
                            ok(seq!['}']),
                        )
                    } else {
                        ok(seq![])
                    },
                    None => Rendered {
                        text: seq![],
                        error: Some(
                            ErrorText::CastError(
                                missing_type_id_message(
                                    id as nat,
                                    max_type_id(children@, children.len() as int) + 1,
                                ),
                            ),
                        ),
                    },
                }
            },
            ColumnData::Unsupported { .. } => ok(seq![]),
        }
    }
}

/// The elements `start..k` of the child of a list column, separated by `, `.
pub open spec fn list_items(col: Column, start: int, k: int, o: FormatOptionsView) -> Rendered
    decreases col, 0int, k - start,
{
    if k <= start {
        ok(seq![])
    } else {
        let elem = match col.data {
            ColumnData::List { values, .. } => render(*values, k - 1, o),
            ColumnData::FixedSizeList { values, .. } => render(*values, k - 1, o),
            _ => ok(seq![]),
        };
        followed_by(list_items(col, start, k - 1, o), followed_by(ok(separator(k - 1 == start)), elem))
    }
}

/// Row `i` of the first `n` children of a struct column, separated by `, `.
pub open spec fn struct_fields(col: Column, i: int, n: int, o: FormatOptionsView) -> Rendered
    decreases col, 0int, n,
{
    match col.data {
        ColumnData::Struct { columns, .. } => if n <= 0 || n > columns.len() {
            ok(seq![])
        } else {
            followed_by(
                struct_fields(col, i, n - 1, o),
                followed_by(ok(separator(n - 1 == 0)), render(columns@[n - 1], i, o)),
            )
        },
        _ => ok(seq![]),
    }
}

/// The entries `start..k` of a map column, each as `key -> value`, separated
/// by `, `.
pub open spec fn map_entries(col: Column, start: int, k: int, o: FormatOptionsView) -> Rendered
    decreases col, 0int, k - start,
{
    if k <= start {
        ok(seq![])
    } else {
        match col.data {
            ColumnData::KeyValue { keys, values, .. } => followed_by(
                map_entries(col, start, k - 1, o),
                followed_by(
                    followed_by(followed_by(ok(separator(k - 1 == start)), render(*keys, k - 1, o)), ok(" -> "@)),
                    render(*values, k - 1, o),
                ),
            ),
            _ => ok(seq![]),
        }
    }
}

/// The texts `parts` written one after the other with `sep` between each two.
pub open spec fn joined(parts: Seq<Seq<char>>, sep: Seq<char>) -> Seq<char>
    decreases parts.len(),
{
    if parts.len() == 0 {
        seq![]
    } else if parts.len() == 1 {
        parts[0]
    } else {
        joined(parts.drop_last(), sep) + sep + parts.last()
    }
}

/// The comma and space between the parts of a row.
pub open spec fn comma() -> Seq<char> {
    seq![',', ' ']
}

/// The texts of row `i` of the first `n` fields of a struct column.
pub open spec fn field_texts(col: Column, i: int, n: int, o: FormatOptionsView) -> Seq<Seq<char>> {
    Seq::new(n as nat, |j: int| render(col.data->columns@[j], i, o).text)
}

/// The texts of the rows `start..end` of `col`.
pub open spec fn row_texts(col: Column, start: int, end: int, o: FormatOptionsView) -> Seq<Seq<char>> {
    Seq::new((end - start) as nat, |m: int| render(col, start + m, o).text)
}

/// The texts `key -> value` of the entries `start..end` of a map column.
pub open spec fn entry_texts(col: Column, start: int, end: int, o: FormatOptionsView) -> Seq<Seq<char>> {
    Seq::new(
        (end - start) as nat,
        |m: int|
            render(*col.data->KeyValue_keys, start + m, o).text + seq![' ', '-', '>', ' ']
                + render(*col.data->KeyValue_values, start + m, o).text,
    )
}

/// Joining one more part adds the separator and the part, after the first.
proof fn lemma_joined_push(parts: Seq<Seq<char>>, sep: Seq<char>)
    requires
        parts.len() > 0,
    ensures
        joined(parts, sep) == joined(parts.drop_last(), sep) + (if parts.len() == 1 {
            seq![]
        } else {
            sep
        }) + parts.last(),
{
    if parts.len() == 1 {
        assert(parts.drop_last().len() == 0);
        assert(joined(parts.drop_last(), sep) + seq![] + parts.last() =~= parts[0]);
    }
}

/// The fields `0..k` of a struct row that all format are their texts joined
/// by commas.
proof fn lemma_struct_fields_joined(col: Column, i: int, k: int, o: FormatOptionsView)
    requires
        col.data is Struct,
        0 <= k <= col.data->columns.len(),
        forall|j: int| 0 <= j < k ==> (#[trigger] render(col.data->columns@[j], i, o)).error is None,
    ensures
        struct_fields(col, i, k, o) == ok(joined(field_texts(col, i, k, o), comma())),
    decreases k,
{
    if k > 0 {
        lemma_struct_fields_joined(col, i, k - 1, o);
        let parts = field_texts(col, i, k, o);
        assert(parts.drop_last() =~= field_texts(col, i, k - 1, o));
        assert(render(col.data->columns@[k - 1], i, o).error is None);
        lemma_joined_push(parts, comma());
        assert(separator(k - 1 == 0) == (if parts.len() == 1 {
            seq![]
        } else {
            comma()
        }));
        let prev = joined(field_texts(col, i, k - 1, o), comma());
        let r = render(col.data->columns@[k - 1], i, o);
        assert(parts.last() == r.text);
        let whole = struct_fields(col, i, k, o);
        assert(whole == followed_by(
            struct_fields(col, i, k - 1, o),
            followed_by(ok(separator(k - 1 == 0)), r),
        ));
        assert(whole.text =~= prev + separator(k - 1 == 0) + r.text);
        assert(whole.error is None);
    } else {
        assert(field_texts(col, i, 0, o).len() == 0);
    }
}

/// A struct row whose fields all format is `{`, the texts of its fields
/// joined by `, `, and `}`.
pub proof fn lemma_struct_row_text(col: Column, i: int, o: FormatOptionsView)
    requires
        col.data is Struct,
        !is_null_at(col, i),
        forall|j: int|
            0 <= j < col.data->columns.len() ==> (#[trigger] render(
                col.data->columns@[j],
                i,
                o,
            )).error is None,
    ensures
        render(col, i, o) == ok(
            seq!['{'] + joined(field_texts(col, i, col.data->columns.len() as int, o), seq![',', ' '])
                + seq!['}'],
        ),
{
    lemma_struct_fields_joined(col, i, col.data->columns.len() as int, o);
}

/// The child rows of a list column.
pub open spec fn list_child(col: Column) -> Column {
    match col.data {
        ColumnData::List { values, .. } => *values,
        ColumnData::FixedSizeList { values, .. } => *values,
        _ => col,
    }
}

/// The elements `start..k` of a list that all format are their texts
/// joined by commas.
proof fn lemma_list_items_joined(col: Column, start: int, k: int, o: FormatOptionsView)
    requires
        col.data is List || col.data is FixedSizeList,
        start <= k,
        forall|m: int| start <= m < k ==> (#[trigger] render(list_child(col), m, o)).error is None,
    ensures
        list_items(col, start, k, o) == ok(joined(row_texts(list_child(col), start, k, o), comma())),
    decreases k - start,
{
    if k > start {
        lemma_list_items_joined(col, start, k - 1, o);
        let parts = row_texts(list_child(col), start, k, o);
        assert(parts.drop_last() =~= row_texts(list_child(col), start, k - 1, o));
        assert(render(list_child(col), k - 1, o).error is None);
        lemma_joined_push(parts, comma());
        assert(separator(k - 1 == start) == (if parts.len() == 1 {
            seq![]
        } else {
            comma()
        }));
        let prev = joined(row_texts(list_child(col), start, k - 1, o), comma());
        let r = render(list_child(col), k - 1, o);
        assert(parts.last() == r.text);
        let whole = list_items(col, start, k, o);
        assert(whole == followed_by(
            list_items(col, start, k - 1, o),
            followed_by(ok(separator(k - 1 == start)), r),
        ));
        assert(whole.text =~= prev + separator(k - 1 == start) + r.text);
        assert(whole.error is None);
    } else {
        assert(row_texts(list_child(col), start, k, o).len() == 0);
    }
}

/// A list row whose elements all format is `[`, the texts of its elements
/// (the rows `offsets[i]..offsets[i + 1]` of its child) joined by `, `, and
/// `]`.
pub proof fn lemma_list_row_text(col: Column, i: int, o: FormatOptionsView)
    requires
        col.data is List,
        !is_null_at(col, i),
        col.data->List_offsets@[i] <= col.data->List_offsets@[i + 1],
        forall|m: int|
            col.data->List_offsets@[i] <= m < col.data->List_offsets@[i + 1] ==> (#[trigger] render(
                *col.data->List_values,
                m,
                o,
            )).error is None,
    ensures
        render(col, i, o) == ok(
            seq!['['] + joined(
                row_texts(
                    *col.data->List_values,
                    col.data->List_offsets@[i] as int,
                    col.data->List_offsets@[i + 1] as int,
                    o,
                ),
                seq![',', ' '],
            ) + seq![']'],
        ),
{
    lemma_list_items_joined(
        col,
        col.data->List_offsets@[i] as int,
        col.data->List_offsets@[i + 1] as int,
        o,
    );
}

/// One more entry of a map that formats adds a comma, after the first, and
/// its text `key -> value`.
#[verifier::spinoff_prover]
#[verifier::rlimit(60)]
proof fn lemma_map_entries_step(col: Column, start: int, k: int, o: FormatOptionsView)
    requires
        col.data is KeyValue,
        start < k,
        map_entries(col, start, k - 1, o) == ok(joined(entry_texts(col, start, k - 1, o), comma())),
        render(*col.data->KeyValue_keys, k - 1, o).error is None,
        render(*col.data->KeyValue_values, k - 1, o).error is None,
    ensures
        map_entries(col, start, k, o) == ok(joined(entry_texts(col, start, k, o), comma())),
{
    let parts = entry_texts(col, start, k, o);
    assert(parts.drop_last() =~= entry_texts(col, start, k - 1, o));
    lemma_joined_push(parts, comma());
    let prev = joined(entry_texts(col, start, k - 1, o), comma());
    let kr = render(*col.data->KeyValue_keys, k - 1, o);
    let vr = render(*col.data->KeyValue_values, k - 1, o);
    let sep = separator(k - 1 == start);
    assert(sep == (if parts.len() == 1 {
        seq![]
    } else {
        comma()
    }));
    assert(parts.last() == kr.text + seq![' ', '-', '>', ' '] + vr.text);
    reveal_strlit(" -> ");
    assert(" -> "@ =~= seq![' ', '-', '>', ' ']);
    let whole = map_entries(col, start, k, o);
    assert(whole == followed_by(
        map_entries(col, start, k - 1, o),
        followed_by(followed_by(followed_by(ok(sep), kr), ok(" -> "@)), vr),
    ));
    assert(whole.text =~= prev + sep + (kr.text + seq![' ', '-', '>', ' '] + vr.text));
}

/// The entries `start..k` of a map that all format are their texts
/// `key -> value` joined by commas.
proof fn lemma_map_entries_joined(col: Column, start: int, k: int, o: FormatOptionsView)
    requires
        col.data is KeyValue,
        start <= k,
        forall|m: int|
            start <= m < k ==> (#[trigger] render(*col.data->KeyValue_keys, m, o)).error is None
                && render(*col.data->KeyValue_values, m, o).error is None,
    ensures
        map_entries(col, start, k, o) == ok(joined(entry_texts(col, start, k, o), comma())),
    decreases k - start,
{
    if k > start {
        lemma_map_entries_joined(col, start, k - 1, o);
        assert(render(*col.data->KeyValue_keys, k - 1, o).error is None);
        lemma_map_entries_step(col, start, k, o);
    } else {
        assert(entry_texts(col, start, k, o).len() == 0);
    }
}

/// A map row whose keys and values all format is `{`, its entries
/// `key -> value` joined by `, `, and `}`.
pub proof fn lemma_map_row_text(col: Column, i: int, o: FormatOptionsView)
    requires
        col.data is KeyValue,
        !is_null_at(col, i),
        col.data->KeyValue_offsets@[i] <= col.data->KeyValue_offsets@[i + 1],
        forall|m: int|
            col.data->KeyValue_offsets@[i] <= m < col.data->KeyValue_offsets@[i + 1] ==> (
            #[trigger] render(*col.data->KeyValue_keys, m, o)).error is None && render(
                *col.data->KeyValue_values,
                m,
                o,
            ).error is None,
    ensures
        render(col, i, o) == ok(
            seq!['{'] + joined(
                entry_texts(
                    col,
                    col.data->KeyValue_offsets@[i] as int,
                    col.data->KeyValue_offsets@[i + 1] as int,
                    o,
                ),
                seq![',', ' '],
            ) + seq!['}'],
        ),
{
    lemma_map_entries_joined(
        col,
        col.data->KeyValue_offsets@[i] as int,
        col.data->KeyValue_offsets@[i + 1] as int,
        o,
    );
}

/// Whether writing row `i` of `col` hands no outside function a value on
/// which it panics: every decimal that the row reaches is one that arrow
/// writes (`decimal_formats`), and every timestamp with a timezone that it
/// reaches in RFC 3339 lies off chrono's first and last day. Values that
/// follow an error in the same row count too, though writing stops before
/// them.
pub open spec fn row_printable(col: Column, i: int, o: FormatOptionsView) -> bool
    decreases col, 0int, 0int,
{
    if is_null_at(col, i) {
        true
    } else {
        match col.data {
            ColumnData::Timestamp { unit, timezone, values } => timezone is None
                || o.timestamp_tz_format is Custom || off_edge_days(
                values@[i] as int,
                per_second(unit),
            ),
            ColumnData::Decimal128 { precision, scale, values } => decimal_formats(
                values@[i] as int,
                precision as nat,
                scale as int,
            ),
            ColumnData::Decimal256 { precision, scale, values } => decimal_formats(
                i256_value(values@[i].0, values@[i].1),
                precision as nat,
                scale as int,
            ),
            ColumnData::List { offsets, values } => range_printable(
                *values,
                offsets@[i] as int,
                offsets@[i + 1] as int,
                o,
            ),
            ColumnData::FixedSizeList { size, values } => range_printable(
                *values,
                i * size,
                (i + 1) * size,
                o,
            ),
            ColumnData::Struct { columns, .. } => forall|j: int|
                #![trigger columns@[j]]
                0 <= j < columns.len() ==> row_printable(columns@[j], i, o),
            ColumnData::KeyValue { offsets, keys, values } => range_printable(
                *keys,
                offsets@[i] as int,
                offsets@[i + 1] as int,
                o,
            ) && range_printable(*values, offsets@[i] as int, offsets@[i + 1] as int, o),
            ColumnData::Dictionary { keys, values } => row_printable(*values, keys@[i] as int, o),
            ColumnData::RunEndEncoded { run_ends, values } => row_printable(
                *values,
                run_of(run_ends@, i, 0),
                o,
            ),
            ColumnData::Union { mode, type_ids, offsets, children } => match find_child(
                children@,
                type_ids@[i],
                children.len() as int,
            ) {
                Some(c) => {
                    proof {
                        lemma_find_child(children@, type_ids@[i], children.len() as int);
                    }
                    row_printable(
                        children@[c].column,
                        match mode {
                            UnionMode::Dense => offsets@[i] as int,
                            UnionMode::Sparse => i,
                        },
                        o,
                    )
                },
                None => true,
            },
            _ => true,
        }
    }
}

/// Whether the rows `start..end` of `col` are printable.
pub open spec fn range_printable(col: Column, start: int, end: int, o: FormatOptionsView) -> bool
    decreases col, 1int, end - start,
{
    if end <= start {
        true
    } else {
        range_printable(col, start, end - 1, o) && row_printable(col, end - 1, o)
    }
}

/// Each row of a printable range is printable.
pub proof fn lemma_range_printable(col: Column, start: int, end: int, k: int, o: FormatOptionsView)
    requires
        range_printable(col, start, end, o),
        start <= k < end,
    ensures
        row_printable(col, k, o),
    decreases end - start,
{
    if k < end - 1 {
        lemma_range_printable(col, start, end - 1, k, o);
    }
}

/// What displaying row `i` writes: the formatted text, followed, where an
/// error of the data stopped formatting, by `ERROR: ` and the error's message.
pub open spec fn display_text(col: Column, i: int, o: FormatOptionsView) -> Seq<char> {
    let r = render(col, i, o);
    match r.error {
        Some(ErrorText::FormatFailure) => r.text,
        Some(e) => r.text + "ERROR: "@ + error_message(e),
        None => r.text,
    }
}

/// The error that writing a value reports: a failed format string is
/// reported as the cast error `format error`.
pub open spec fn reported_error(e: ErrorText) -> ErrorText {
    match e {
        ErrorText::FormatFailure => ErrorText::CastError("format error"@),
        _ => e,
    }
}

/// Once the elements of a list fail, later elements add nothing.
pub proof fn lemma_list_items_stop(col: Column, start: int, k: int, end: int, o: FormatOptionsView)
    requires
        start <= k <= end,
        list_items(col, start, k, o).error is Some,
    ensures
        list_items(col, start, end, o) == list_items(col, start, k, o),
    decreases end - k,
{
    if end > k {
        lemma_list_items_stop(col, start, k, end - 1, o);
    }
}

/// Once the entries of a map fail, later entries add nothing.
pub proof fn lemma_map_entries_stop(col: Column, start: int, k: int, end: int, o: FormatOptionsView)
    requires
        start <= k <= end,
        map_entries(col, start, k, o).error is Some,
    ensures
        map_entries(col, start, end, o) == map_entries(col, start, k, o),
    decreases end - k,
{
    if end > k {
        lemma_map_entries_stop(col, start, k, end - 1, o);
    }
}

/// Once the fields of a struct fail, later fields add nothing.
pub proof fn lemma_struct_fields_stop(col: Column, i: int, k: int, n: int, o: FormatOptionsView)
    requires
        0 <= k <= n,
        col.data is Struct,
        n <= col.data->columns.len(),
        struct_fields(col, i, k, o).error is Some,
    ensures
        struct_fields(col, i, n, o) == struct_fields(col, i, k, o),
    decreases n - k,
{
    if n > k {
        lemma_struct_fields_stop(col, i, k, n - 1, o);
    }
}

/// Once a child of a struct fails to prepare, the struct fails with its error.
pub proof fn lemma_fields_prepare_stop(col: Column, k: int, n: int, o: FormatOptionsView)
    requires
        0 <= k <= n,
        col.data is Struct,
        n <= col.data->columns.len(),
        fields_prepare_error(col, k, o) is Some,
    ensures
        fields_prepare_error(col, n, o) == fields_prepare_error(col, k, o),
    decreases n - k,
{
    if n > k {
        lemma_fields_prepare_stop(col, k, n - 1, o);
    }
}

/// Once a child of a union fails to prepare, the union fails with its error.
pub proof fn lemma_children_prepare_stop(col: Column, k: int, n: int, o: FormatOptionsView)
    requires
        0 <= k <= n,
        col.data is Union,
        n <= col.data->children.len(),
        children_prepare_error(col, k, o) is Some,
    ensures
        children_prepare_error(col, n, o) == children_prepare_error(col, k, o),
    decreases n - k,
{
    if n > k {
        lemma_children_prepare_stop(col, k, n - 1, o);
    }
}

/// When the children of a struct prepare, each of them does.
pub proof fn lemma_fields_prepared(col: Column, n: int, j: int, o: FormatOptionsView)
    requires
        col.data is Struct,
        0 <= j < n <= col.data->columns.len(),
        fields_prepare_error(col, n, o) is None,
    ensures
        prepare_error(col.data->columns@[j], o) is None,
    decreases n,
{
    if j < n - 1 {
        lemma_fields_prepared(col, n - 1, j, o);
    }
}

/// When the children of a union prepare, each of them does.
pub proof fn lemma_children_prepared(col: Column, n: int, j: int, o: FormatOptionsView)
    requires
        col.data is Union,
        0 <= j < n <= col.data->children.len(),
        children_prepare_error(col, n, o) is None,
    ensures
        prepare_error(col.data->children@[j].column, o) is None,
    decreases n,
{
    if j < n - 1 {
        lemma_children_prepared(col, n - 1, j, o);
    }
}

/// A null row is written as the null text, whatever the kind of its column,
/// and never fails.
pub proof fn lemma_null_row(col: Column, i: int, o: FormatOptionsView)
    requires
        is_null_at(col, i),
    ensures
        render(col, i, o) == ok(o.null),
{
}

/// Where formatting succeeds, displaying a value writes the same text as
/// writing it.
pub proof fn lemma_display_agrees_with_write(col: Column, i: int, o: FormatOptionsView)
    requires
        render(col, i, o).error is None,
    ensures
        display_text(col, i, o) == render(col, i, o).text,
{
}

/// The first run whose end is past row `i` is the run `k` that every earlier
/// run ends before.
pub proof fn lemma_run_of_first(run_ends: Seq<usize>, i: int, j: int, k: int)
    requires
        0 <= j <= k < run_ends.len(),
        forall|m: int| j <= m < k ==> run_ends[m] <= i,
        run_ends[k] > i,
    ensures
        run_of(run_ends, i, j) == k,
    decreases k - j,
{
    if j < k {
        lemma_run_of_first(run_ends, i, j + 1, k);
    }
}

/// Whether two columns have the same data type: the same kind, with the same
/// unit, timezone, precision and scale, list size, field names, union mode
/// and type ids, and children of the same data types. Their lengths, values
/// and validity may differ.
pub open spec fn same_type(a: Column, b: Column) -> bool
    decreases a,
{
    match a.data {
        ColumnData::Null => b.data is Null,
        ColumnData::Boolean(_) => b.data is Boolean,
        ColumnData::Int(_) => b.data is Int,
        ColumnData::UInt(_) => b.data is UInt,
        ColumnData::Text(_) => b.data is Text,
        ColumnData::Duration(u, _) => b.data matches ColumnData::Duration(v, _) && u == v,
        ColumnData::Date32(_) => b.data is Date32,
        ColumnData::Date64(_) => b.data is Date64,
        ColumnData::Time32(u, _) => b.data matches ColumnData::Time32(v, _) && u == v,
        ColumnData::Time64(u, _) => b.data matches ColumnData::Time64(v, _) && u == v,
        ColumnData::Timestamp { unit, timezone, .. } => b.data matches ColumnData::Timestamp {
            unit: u,
            timezone: tz,
            ..
        } && unit == u && timezone == tz,
        ColumnData::Decimal128 { precision, scale, .. } => b.data matches ColumnData::Decimal128 {
            precision: p,
            scale: s,
            ..
        } && precision == p && scale == s,
        ColumnData::Decimal256 { precision, scale, .. } => b.data matches ColumnData::Decimal256 {
            precision: p,
            scale: s,
            ..
        } && precision == p && scale == s,
        ColumnData::List { values, .. } => b.data matches ColumnData::List { values: w, .. }
            && same_type(*values, *w),
        ColumnData::FixedSizeList { size, values } => b.data matches ColumnData::FixedSizeList {
            size: n,
            values: w,
        } && size == n && same_type(*values, *w),
        ColumnData::Struct { names, columns } => b.data matches ColumnData::Struct {
            names: m,
            columns: c,
        } && names@ == m@ && columns.len() == c.len() && forall|j: int|
            #![trigger columns@[j]]
            0 <= j < columns.len() ==> same_type(columns@[j], c@[j]),
        ColumnData::KeyValue { keys, values, .. } => b.data matches ColumnData::KeyValue {
            keys: k,
            values: w,
            ..
        } && same_type(*keys, *k) && same_type(*values, *w),
        ColumnData::Dictionary { values, .. } => b.data matches ColumnData::Dictionary {
            values: w,
            ..
        } && same_type(*values, *w),
        ColumnData::RunEndEncoded { values, .. } => b.data matches ColumnData::RunEndEncoded {
            values: w,
            ..
        } && same_type(*values, *w),
        ColumnData::Union { mode, children, .. } => b.data matches ColumnData::Union {
            mode: m,
            children: c,
            ..
        } && mode == m && children.len() == c.len() && forall|j: int|
            #![trigger children@[j]]
            0 <= j < children.len() ==> children@[j].type_id == c@[j].type_id
                && children@[j].name@ == c@[j].name@ && same_type(
                children@[j].column,
                c@[j].column,
            ),
        ColumnData::Unsupported { data_type } => b.data matches ColumnData::Unsupported {
            data_type: t,
        } && data_type@ == t@,
    }
}

/// Whether a column can be prepared for formatting depends on its data type
/// alone, never on its values: two columns of the same data type fail with
/// the same error, or both succeed.
pub proof fn lemma_prepare_same_type(a: Column, b: Column, o: FormatOptionsView)
    requires
        same_type(a, b),
    ensures
        prepare_error(a, o) == prepare_error(b, o),
    decreases a, 1int, 0int,
{
    match a.data {
        ColumnData::List { values, .. } => {
            if let ColumnData::List { values: w, .. } = b.data {
                lemma_prepare_same_type(*values, *w, o);
            }
        },
        ColumnData::FixedSizeList { values, .. } => {
            if let ColumnData::FixedSizeList { values: w, .. } = b.data {
                lemma_prepare_same_type(*values, *w, o);
            }
        },
        ColumnData::Dictionary { values, .. } => {
            if let ColumnData::Dictionary { values: w, .. } = b.data {
                lemma_prepare_same_type(*values, *w, o);
            }
        },
        ColumnData::RunEndEncoded { values, .. } => {
            if let ColumnData::RunEndEncoded { values: w, .. } = b.data {
                lemma_prepare_same_type(*values, *w, o);
            }
        },
        ColumnData::KeyValue { keys, values, .. } => {
            if let ColumnData::KeyValue { keys: k, values: w, .. } = b.data {
                lemma_prepare_same_type(*keys, *k, o);
                lemma_prepare_same_type(*values, *w, o);
            }
        },
        ColumnData::Struct { columns, .. } => {
            lemma_fields_prepare_same_type(a, b, columns.len() as int, o);
        },
        ColumnData::Union { children, .. } => {
            lemma_children_prepare_same_type(a, b, children.len() as int, o);
        },
        _ => {},
    }
}

/// The first `n` fields of two struct columns of the same data type fail to
/// prepare alike.
proof fn lemma_fields_prepare_same_type(a: Column, b: Column, n: int, o: FormatOptionsView)
    requires
        same_type(a, b),
        a.data is Struct,
    ensures
        fields_prepare_error(a, n, o) == fields_prepare_error(b, n, o),
    decreases a, 0int, n,
{
    if let ColumnData::Struct { columns, .. } = a.data {
        if let ColumnData::Struct { columns: c, .. } = b.data {
            if 0 < n <= columns.len() {
                lemma_fields_prepare_same_type(a, b, n - 1, o);
                assert(same_type(columns@[n - 1], c@[n - 1]));
                lemma_prepare_same_type(columns@[n - 1], c@[n - 1], o);
            }
        }
    }
}

/// The first `n` children of two union columns of the same data type fail to
/// prepare alike.
proof fn lemma_children_prepare_same_type(a: Column, b: Column, n: int, o: FormatOptionsView)
    requires
        same_type(a, b),
        a.data is Union,
    ensures
        children_prepare_error(a, n, o) == children_prepare_error(b, n, o),
    decreases a, 0int, n,
{
    if let ColumnData::Union { children, .. } = a.data {
        if let ColumnData::Union { children: c, .. } = b.data {
            if 0 < n <= children.len() {
                lemma_children_prepare_same_type(a, b, n - 1, o);
                assert(same_type(children@[n - 1].column, c@[n - 1].column));
                lemma_prepare_same_type(children@[n - 1].column, c@[n - 1].column, o);
            }
        }
    }
}

/// Whether two rows display alike: the same text, and an error for both or
/// for neither.
pub open spec fn display_alike(a: Rendered, b: Rendered) -> bool {
    a.text == b.text && (a.error is None <==> b.error is None)
}

/// A time of day counted in milliseconds displays as the same time counted
/// in seconds: a `Time32` row of `1000 * w` milliseconds reads as a `Time32`
/// row of `w` seconds.
pub proof fn lemma_time_milliseconds_as_seconds(
    a: Column,
    i: int,
    b: Column,
    j: int,
    o: FormatOptionsView,
)
    requires
        !is_null_at(a, i),
        !is_null_at(b, j),
        a.data matches ColumnData::Time32(TimeUnit::Millisecond, va) && b.data matches ColumnData::Time32(
            TimeUnit::Second,
            vb,
        ) && va@[i] == 1000 * vb@[j],
    ensures
        display_alike(render(a, i, o), render(b, j, o)),
{
}

/// A time of day counted in nanoseconds displays as the same time counted
/// in microseconds: a `Time64` row of `1000 * w` nanoseconds reads as a
/// `Time64` row of `w` microseconds.
pub proof fn lemma_time_nanoseconds_as_microseconds(
    a: Column,
    i: int,
    b: Column,
    j: int,
    o: FormatOptionsView,
)
    requires
        !is_null_at(a, i),
        !is_null_at(b, j),
        a.data matches ColumnData::Time64(TimeUnit::Nanosecond, va) && b.data matches ColumnData::Time64(
            TimeUnit::Microsecond,
            vb,
        ) && va@[i] == 1000 * vb@[j],
    ensures
        display_alike(render(a, i, o), render(b, j, o)),
{
}

/// A time of day counted in nanoseconds displays as the same time counted
/// in seconds: a `Time64` row of `10^9 * w` nanoseconds reads as a `Time32`
/// row of `w` seconds.
pub proof fn lemma_time_nanoseconds_as_seconds(
    a: Column,
    i: int,
    b: Column,
    j: int,
    o: FormatOptionsView,
)
    requires
        !is_null_at(a, i),
        !is_null_at(b, j),
        a.data matches ColumnData::Time64(TimeUnit::Nanosecond, va) && b.data matches ColumnData::Time32(
            TimeUnit::Second,
            vb,
        ) && va@[i] == 1_000_000_000 * vb@[j],
    ensures
        display_alike(render(a, i, o), render(b, j, o)),
{
}

/// A timestamp counted in milliseconds displays as the same instant counted
/// in seconds, with or without a timezone: a row of `1000 * w` milliseconds
/// reads as a row of `w` seconds in the same timezone, where the instant's
/// nanoseconds are an `i64`.
pub proof fn lemma_timestamp_milliseconds_as_seconds(
    a: Column,
    i: int,
    b: Column,
    j: int,
    o: FormatOptionsView,
)
    requires
        !is_null_at(a, i),
        !is_null_at(b, j),
        a.data matches ColumnData::Timestamp { unit: TimeUnit::Millisecond, timezone: ta, values: va }
            && b.data matches ColumnData::Timestamp {
            unit: TimeUnit::Second,
            timezone: tb,
            values: vb,
        } && ta == tb && va@[i] == 1000 * vb@[j] && i64::MIN <= 1_000_000_000 * vb@[j] <= i64::MAX,
    ensures
        display_alike(render(a, i, o), render(b, j, o)),
{
}

/// A timestamp counted in microseconds displays as the same instant counted
/// in milliseconds, with or without a timezone, where the instant's
/// nanoseconds are an `i64`.
pub proof fn lemma_timestamp_microseconds_as_milliseconds(
    a: Column,
    i: int,
    b: Column,
    j: int,
    o: FormatOptionsView,
)
    requires
        !is_null_at(a, i),
        !is_null_at(b, j),
        a.data matches ColumnData::Timestamp { unit: TimeUnit::Microsecond, timezone: ta, values: va }
            && b.data matches ColumnData::Timestamp {
            unit: TimeUnit::Millisecond,
            timezone: tb,
            values: vb,
        } && ta == tb && va@[i] == 1000 * vb@[j] && i64::MIN <= 1_000_000 * vb@[j] <= i64::MAX,
    ensures
        display_alike(render(a, i, o), render(b, j, o)),
{
}

/// A timestamp counted in nanoseconds displays as the same instant counted
/// in microseconds, with or without a timezone.
pub proof fn lemma_timestamp_nanoseconds_as_microseconds(
    a: Column,
    i: int,
    b: Column,
    j: int,
    o: FormatOptionsView,
)
    requires
        !is_null_at(a, i),
        !is_null_at(b, j),
        a.data matches ColumnData::Timestamp { unit: TimeUnit::Nanosecond, timezone: ta, values: va }
            && b.data matches ColumnData::Timestamp {
            unit: TimeUnit::Microsecond,
            timezone: tb,
            values: vb,
        } && ta == tb && va@[i] == 1000 * vb@[j],
    ensures
        display_alike(render(a, i, o), render(b, j, o)),
{
}

/// A `Date64` value counts milliseconds, in every format: a `Date64` row of
/// `v` reads as a timestamp row of `v` milliseconds without a timezone,
/// where the date and time format of the first is the timestamp format of
/// the second.
pub proof fn lemma_date64_as_timestamp_milliseconds(
    a: Column,
    i: int,
    b: Column,
    j: int,
    oa: FormatOptionsView,
    ob: FormatOptionsView,
)
    requires
        !is_null_at(a, i),
        !is_null_at(b, j),
        oa.datetime_format == ob.timestamp_format,
        a.data matches ColumnData::Date64(va) && b.data matches ColumnData::Timestamp {
            unit: TimeUnit::Millisecond,
            timezone: None,
            values: vb,
        } && va@[i] == vb@[j],
    ensures
        display_alike(render(a, i, oa), render(b, j, ob)),
{
}

/// A dictionary row reads as the row of its values that its key names.
pub proof fn lemma_dictionary_row(col: Column, i: int, o: FormatOptionsView)
    requires
        !is_null_at(col, i),
        col.data is Dictionary,
    ensures
        render(col, i, o) == render(
            *col.data->Dictionary_values,
            col.data->Dictionary_keys@[i] as int,
            o,
        ),
{
}

/// A run-end encoded row reads as the value of the run that holds it: the
/// run `j` whose end is past the row and whose predecessor ends at or
/// before it.
pub proof fn lemma_run_end_encoded_row(col: Column, i: int, j: int, o: FormatOptionsView)
    requires
        !is_null_at(col, i),
        col.data matches ColumnData::RunEndEncoded { run_ends, .. } && 0 <= j < run_ends.len()
            && (forall|a: int, b: int|
            0 <= a < b < run_ends.len() ==> run_ends@[a] < run_ends@[b]) && (j == 0
            || run_ends@[j - 1] <= i) && i < run_ends@[j],
    ensures
        render(col, i, o) == render(*col.data->RunEndEncoded_values, j, o),
{
    let run_ends = col.data->RunEndEncoded_run_ends@;
    assert forall|m: int| 0 <= m < j implies run_ends[m] <= i by {
        if m < j - 1 {
            assert(run_ends[m] < run_ends[j - 1]);
        }
    }
    lemma_run_of_first(run_ends, i, 0, j);
}

/// With distinct type ids, the child that a type id names is the one that
/// has it.
proof fn lemma_find_child_distinct(children: Seq<UnionChild>, c: int, n: int)
    requires
        0 <= c < n <= children.len(),
        forall|a: int, b: int|
            0 <= a < b < children.len() ==> children[a].type_id != children[b].type_id,
    ensures
        find_child(children, children[c].type_id, n) == Some(c),
    decreases n,
{
    if n - 1 != c {
        lemma_find_child_distinct(children, c, n - 1);
    }
}

/// A union row whose type id is that of child `c`, among children of
/// distinct type ids, is `{`, the child's name, `=`, the child's value and
/// `}`: the value is row `i` of the child in a sparse union and row
/// `offsets[i]` in a dense one.
pub proof fn lemma_union_row(col: Column, i: int, c: int, o: FormatOptionsView)
    requires
        !is_null_at(col, i),
        col.data matches ColumnData::Union { mode, type_ids, offsets, children } && 0 <= c
            < children.len() && type_ids@[i] == children@[c].type_id && (forall|a: int, b: int|
            0 <= a < b < children.len() ==> children@[a].type_id != children@[b].type_id),
    ensures
        ({
            let children = col.data->Union_children@;
            let k = if col.data->Union_mode is Dense {
                col.data->Union_offsets@[i] as int
            } else {
                i
            };
            let v = render(children[c].column, k, o);
            render(col, i, o).text == seq!['{'] + children[c].name@ + seq!['='] + v.text + (
            if v.error is None {
                seq!['}']
            } else {
                seq![]
            }) && render(col, i, o).error == v.error
        }),
{
    let children = col.data->Union_children@;
    lemma_find_child_distinct(children, c, children.len() as int);
}

/// A fixed-size list row whose elements all format is `[`, the texts of the
/// rows `i * size..(i + 1) * size` of its child joined by `, `, and `]`.
pub proof fn lemma_fixed_size_list_row_text(col: Column, i: int, o: FormatOptionsView)
    requires
        col.data is FixedSizeList,
        !is_null_at(col, i),
        i >= 0,
        forall|m: int|
            i * col.data->FixedSizeList_size <= m < (i + 1) * col.data->FixedSizeList_size ==> (
            #[trigger] render(*col.data->FixedSizeList_values, m, o)).error is None,
    ensures
        render(col, i, o) == ok(
            seq!['['] + joined(
                row_texts(
                    *col.data->FixedSizeList_values,
                    i * col.data->FixedSizeList_size,
                    (i + 1) * col.data->FixedSizeList_size,
                    o,
                ),
                seq![',', ' '],
            ) + seq![']'],
        ),
{
    let z = col.data->FixedSizeList_size as int;
    assert((i + 1) * z == i * z + z) by (nonlinear_arith);
    assert(i * z >= 0) by (nonlinear_arith)
        requires
            i >= 0,
            z >= 0,
    ;
    lemma_list_items_joined(col, i * z, i * z + z, o);
}

/// An integer row reads back as its value: the text is the decimal digits of
/// its magnitude, without leading zeros, after a `-` where it is negative.
pub proof fn lemma_integer_row_reads_back(col: Column, i: int, o: FormatOptionsView)
    requires
        !is_null_at(col, i),
        col.data is Int || col.data is UInt,
    ensures
        ({
            let v: int = if col.data is Int {
                col.data->Int_0@[i] as int
            } else {
                col.data->UInt_0@[i] as int
            };
            let t = render(col, i, o).text;
            let d = if v < 0 {
                t.drop_first()
            } else {
                t
            };
            &&& render(col, i, o).error is None
            &&& (v < 0 <==> (t.len() > 0 && t[0] == '-'))
            &&& d.len() > 0
            &&& all_digits(d)
            &&& digits_value(d) == (if v < 0 {
                -v
            } else {
                v
            })
            &&& (d.len() == 1 || d[0] != '0')
        }),
{
    let v: int = if col.data is Int {
        col.data->Int_0@[i] as int
    } else {
        col.data->UInt_0@[i] as int
    };
    let m: nat = if v < 0 {
        (-v) as nat
    } else {
        v as nat
    };
    lemma_digits_parse(m);
    let t = render(col, i, o).text;
    if v < 0 {
        assert(t == seq!['-'] + digits_of(m));
        assert(t.drop_first() =~= digits_of(m));
    } else {
        assert(t == digits_of(m));
        assert(t[0] != '-');
    }
    crate::text::lemma_digits_len(m);
}

/// A boolean row writes `true` or `false` as its value is, and a text row
/// writes its string as it stands.
pub proof fn lemma_boolean_and_text_rows(col: Column, i: int, o: FormatOptionsView)
    requires
        !is_null_at(col, i),
    ensures
        col.data matches ColumnData::Boolean(v) ==> render(col, i, o) == ok(
            if v@[i] {
                seq!['t', 'r', 'u', 'e']
            } else {
                seq!['f', 'a', 'l', 's', 'e']
            },
        ),
        col.data matches ColumnData::Text(v) ==> render(col, i, o) == ok(v@[i]@),
{
    reveal_strlit("true");
    reveal_strlit("false");
    assert("true"@ =~= seq!['t', 'r', 'u', 'e']);
    assert("false"@ =~= seq!['f', 'a', 'l', 's', 'e']);
}

} // verus!
