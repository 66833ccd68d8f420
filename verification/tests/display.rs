use sail_display::column::{Column, ColumnData, TimeUnit};
use sail_display::display::{array_value_to_string, ArrayFormatter};
use sail_display::options::{DurationFormat, FormatOptions, TimeFormat};

fn column(len: usize, data: ColumnData) -> Column {
    Column { len, nulls: None, data }
}

fn text_column(values: &[&str]) -> Column {
    column(values.len(), ColumnData::Text(values.iter().map(|s| s.to_string()).collect()))
}

fn format_array(array: &Column, fmt: &FormatOptions) -> Vec<String> {
    let fmt = ArrayFormatter::try_new(array, fmt).unwrap();
    (0..array.len).map(|x| fmt.value(x).to_string()).collect()
}

#[test]
fn test_const_options() {
    let options = FormatOptions::new()
        .with_date_format(TimeFormat::Custom("foo"))
        .with_timestamp_format(TimeFormat::Custom("404"));
    assert_eq!(options.date_format(), TimeFormat::Custom("foo"));
}

#[test]
fn test_map_array_to_string() {
    let keys = text_column(&["a", "b", "c", "d", "e", "f", "g", "h"]);
    let values = column(8, ColumnData::UInt(vec![0u64, 10, 20, 30, 40, 50, 60, 70]));
    // [[a, b, c], [d, e, f], [g, h]]
    let map_array = column(
        3,
        ColumnData::KeyValue {
            offsets: vec![0, 3, 6, 8],
            keys: Box::new(keys),
            values: Box::new(values),
        },
    );
    assert_eq!(
        "{d -> 30, e -> 40, f -> 50}",
        array_value_to_string(&map_array, 1).unwrap()
    );
}

fn duration_column(unit: TimeUnit, values: Vec<i64>) -> Column {
    column(values.len(), ColumnData::Duration(unit, values))
}

#[test]
fn test_array_value_to_string_duration() {
    let iso_fmt = FormatOptions::new().with_duration_format(DurationFormat::Iso8601);
    let spark_fmt = FormatOptions::new().with_duration_format(DurationFormat::Spark);

    let array = duration_column(
        TimeUnit::Nanosecond,
        vec![
            1,
            -1,
            1000,
            -1000,
            (45 * 60 * 60 * 24 + 14 * 60 * 60 + 2 * 60 + 34) * 1_000_000_000 + 123456789,
            -(45 * 60 * 60 * 24 + 14 * 60 * 60 + 2 * 60 + 34) * 1_000_000_000 - 123456789,
        ],
    );
    let iso = format_array(&array, &iso_fmt);
    let spark = format_array(&array, &spark_fmt);

    assert_eq!(iso[0], "PT0.000000001S");
    assert_eq!(spark[0], "INTERVAL '0 00:00:00.000000001' DAY TO SECOND");
    assert_eq!(iso[1], "-PT0.000000001S");
    assert_eq!(spark[1], "INTERVAL '-0 00:00:00.000000001' DAY TO SECOND");
    assert_eq!(iso[2], "PT0.000001S");
    assert_eq!(spark[2], "INTERVAL '0 00:00:00.000001' DAY TO SECOND");
    assert_eq!(iso[3], "-PT0.000001S");
    assert_eq!(spark[3], "INTERVAL '-0 00:00:00.000001' DAY TO SECOND");
    assert_eq!(iso[4], "PT3938554.123456789S");
    assert_eq!(spark[4], "INTERVAL '45 14:02:34.123456789' DAY TO SECOND");
    assert_eq!(iso[5], "-PT3938554.123456789S");
    assert_eq!(spark[5], "INTERVAL '-45 14:02:34.123456789' DAY TO SECOND");

    let array = duration_column(
        TimeUnit::Microsecond,
        vec![
            1,
            -1,
            1000,
            -1000,
            (45 * 60 * 60 * 24 + 14 * 60 * 60 + 2 * 60 + 34) * 1_000_000 + 123456,
            -(45 * 60 * 60 * 24 + 14 * 60 * 60 + 2 * 60 + 34) * 1_000_000 - 123456,
        ],
    );
    let iso = format_array(&array, &iso_fmt);
    let spark = format_array(&array, &spark_fmt);

    assert_eq!(iso[0], "PT0.000001S");
    assert_eq!(spark[0], "INTERVAL '0 00:00:00.000001' DAY TO SECOND");
    assert_eq!(iso[1], "-PT0.000001S");
    assert_eq!(spark[1], "INTERVAL '-0 00:00:00.000001' DAY TO SECOND");
    assert_eq!(iso[2], "PT0.001S");
    assert_eq!(spark[2], "INTERVAL '0 00:00:00.001' DAY TO SECOND");
    assert_eq!(iso[3], "-PT0.001S");
    assert_eq!(spark[3], "INTERVAL '-0 00:00:00.001' DAY TO SECOND");
    assert_eq!(iso[4], "PT3938554.123456S");
    assert_eq!(spark[4], "INTERVAL '45 14:02:34.123456' DAY TO SECOND");
    assert_eq!(iso[5], "-PT3938554.123456S");
    assert_eq!(spark[5], "INTERVAL '-45 14:02:34.123456' DAY TO SECOND");

    let array = duration_column(
        TimeUnit::Millisecond,
        vec![
            1,
            -1,
            1000,
            -1000,
            (45 * 60 * 60 * 24 + 14 * 60 * 60 + 2 * 60 + 34) * 1_000 + 123,
            -(45 * 60 * 60 * 24 + 14 * 60 * 60 + 2 * 60 + 34) * 1_000 - 123,
        ],
    );
    let iso = format_array(&array, &iso_fmt);
    let spark = format_array(&array, &spark_fmt);

    assert_eq!(iso[0], "PT0.001S");
    assert_eq!(spark[0], "INTERVAL '0 00:00:00.001' DAY TO SECOND");
    assert_eq!(iso[1], "-PT0.001S");
    assert_eq!(spark[1], "INTERVAL '-0 00:00:00.001' DAY TO SECOND");
    assert_eq!(iso[2], "PT1S");
    assert_eq!(spark[2], "INTERVAL '0 00:00:01' DAY TO SECOND");
    assert_eq!(iso[3], "-PT1S");
    assert_eq!(spark[3], "INTERVAL '-0 00:00:01' DAY TO SECOND");
    assert_eq!(iso[4], "PT3938554.123S");
    assert_eq!(spark[4], "INTERVAL '45 14:02:34.123' DAY TO SECOND");
    assert_eq!(iso[5], "-PT3938554.123S");
    assert_eq!(spark[5], "INTERVAL '-45 14:02:34.123' DAY TO SECOND");

    let array = duration_column(
        TimeUnit::Second,
        vec![
            1,
            -1,
            1000,
            -1000,
            45 * 60 * 60 * 24 + 14 * 60 * 60 + 2 * 60 + 34,
            -45 * 60 * 60 * 24 - 14 * 60 * 60 - 2 * 60 - 34,
        ],
    );
    let iso = format_array(&array, &iso_fmt);
    let spark = format_array(&array, &spark_fmt);

    assert_eq!(iso[0], "PT1S");
    assert_eq!(spark[0], "INTERVAL '0 00:00:01' DAY TO SECOND");
    assert_eq!(iso[1], "-PT1S");
    assert_eq!(spark[1], "INTERVAL '-0 00:00:01' DAY TO SECOND");
    assert_eq!(iso[2], "PT1000S");
    assert_eq!(spark[2], "INTERVAL '0 00:16:40' DAY TO SECOND");
    assert_eq!(iso[3], "-PT1000S");
    assert_eq!(spark[3], "INTERVAL '-0 00:16:40' DAY TO SECOND");
    assert_eq!(iso[4], "PT3938554S");
    assert_eq!(spark[4], "INTERVAL '45 14:02:34' DAY TO SECOND");
    assert_eq!(iso[5], "-PT3938554S");
    assert_eq!(spark[5], "INTERVAL '-45 14:02:34' DAY TO SECOND");
}

#[test]
fn test_null() {
    let array = column(2, ColumnData::Null);
    let options = FormatOptions::new().with_null("NULL");
    let formatted = format_array(&array, &options);
    assert_eq!(formatted, &["NULL".to_string(), "NULL".to_string()])
}

#[test]
fn test_string_run_arry_to_string() {
    // "input_value" three times, then "input_value1"
    let map_array = column(
        4,
        ColumnData::RunEndEncoded {
            run_ends: vec![3, 4],
            values: Box::new(text_column(&["input_value", "input_value1"])),
        },
    );
    assert_eq!("input_value", array_value_to_string(&map_array, 1).unwrap());
    assert_eq!(
        "input_value1",
        array_value_to_string(&map_array, 3).unwrap()
    );
}
