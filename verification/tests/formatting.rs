use sail_display::column::{is_well_formed, Column, ColumnData, TimeUnit, UnionChild, UnionMode};
use sail_display::display::{
    array_value_to_string, is_printable, lexical_to_string, make_formatter, ArrayFormatter,
    DisplayError,
};
use sail_display::options::{DurationFormat, FormatOptions, TimeFormat};

fn column(len: usize, data: ColumnData) -> Column {
    Column { len, nulls: None, data }
}

fn text_column(values: &[&str]) -> Column {
    column(values.len(), ColumnData::Text(values.iter().map(|s| s.to_string()).collect()))
}

fn ints(values: &[i64]) -> Column {
    column(values.len(), ColumnData::Int(values.to_vec()))
}

fn render_all(array: &Column, options: &FormatOptions) -> Vec<String> {
    let f = ArrayFormatter::try_new(array, options).unwrap();
    (0..array.len).map(|i| f.value(i).to_string()).collect()
}

#[test]
fn integers_are_written_in_decimal() {
    let c = ints(&[0, -42, i64::MIN, i64::MAX]);
    assert_eq!(
        render_all(&c, &FormatOptions::new()),
        vec!["0", "-42", "-9223372036854775808", "9223372036854775807"]
    );
    let u = column(2, ColumnData::UInt(vec![7, u64::MAX]));
    assert_eq!(render_all(&u, &FormatOptions::new()), vec!["7", "18446744073709551615"]);
}

#[test]
fn lexical_to_string_writes_the_number() {
    assert_eq!(lexical_to_string(-1234), "-1234");
    assert_eq!(lexical_to_string(0), "0");
    assert_eq!(lexical_to_string(i8::MIN), "-128");
    assert_eq!(lexical_to_string(u8::MAX), "255");
    assert_eq!(lexical_to_string(i16::MIN), "-32768");
    assert_eq!(lexical_to_string(u16::MAX), "65535");
    assert_eq!(lexical_to_string(i32::MIN), "-2147483648");
    assert_eq!(lexical_to_string(u32::MAX), "4294967295");
    assert_eq!(lexical_to_string(i64::MIN), "-9223372036854775808");
    assert_eq!(lexical_to_string(u64::MAX), "18446744073709551615");
}

#[test]
fn booleans_and_nulls() {
    let c = Column {
        len: 3,
        nulls: Some(vec![true, false, true]),
        data: ColumnData::Boolean(vec![true, true, false]),
    };
    assert_eq!(
        render_all(&c, &FormatOptions::new().with_null("NULL")),
        vec!["true", "NULL", "false"]
    );
    assert_eq!(render_all(&c, &FormatOptions::new()), vec!["true", "", "false"]);
}

#[test]
fn lists_are_bracketed() {
    let c = Column {
        len: 4,
        nulls: Some(vec![true, true, false, true]),
        data: ColumnData::List { offsets: vec![0, 2, 2, 3, 5], values: Box::new(ints(&[1, 2, 3, 4, 5])) },
    };
    assert_eq!(
        render_all(&c, &FormatOptions::new().with_null("NULL")),
        vec!["[1, 2]", "[]", "NULL", "[4, 5]"]
    );
}

#[test]
fn fixed_size_lists_take_equal_slices() {
    let c = column(
        2,
        ColumnData::FixedSizeList { size: 3, values: Box::new(ints(&[1, 2, 3, 4, 5, 6])) },
    );
    assert_eq!(render_all(&c, &FormatOptions::new()), vec!["[1, 2, 3]", "[4, 5, 6]"]);
}

#[test]
fn structs_list_their_fields() {
    let c = column(
        2,
        ColumnData::Struct {
            names: vec!["a".to_string(), "b".to_string()],
            columns: vec![
                ints(&[1, 2]),
                Column { len: 2, nulls: Some(vec![false, true]), data: ColumnData::Text(vec!["x".to_string(), "y".to_string()]) },
            ],
        },
    );
    assert_eq!(
        render_all(&c, &FormatOptions::new().with_null("NULL")),
        vec!["{1, NULL}", "{2, y}"]
    );
}

#[test]
fn dictionaries_read_their_values() {
    let c = Column {
        len: 3,
        nulls: Some(vec![true, false, true]),
        data: ColumnData::Dictionary { keys: vec![1, 7, 0], values: Box::new(text_column(&["p", "q"])) },
    };
    assert_eq!(render_all(&c, &FormatOptions::new().with_null("NULL")), vec!["q", "NULL", "p"]);
}

fn union(mode: UnionMode, type_ids: Vec<u8>, offsets: Vec<usize>) -> Column {
    column(
        type_ids.len(),
        ColumnData::Union {
            mode,
            type_ids,
            offsets,
            children: vec![
                UnionChild { type_id: 0, name: "i".to_string(), column: ints(&[10, 20, 30]) },
                UnionChild { type_id: 2, name: "s".to_string(), column: text_column(&["u", "v", "w"]) },
            ],
        },
    )
}

#[test]
fn unions_name_their_child() {
    let sparse = union(UnionMode::Sparse, vec![0, 2, 0], vec![]);
    assert_eq!(render_all(&sparse, &FormatOptions::new()), vec!["{i=10}", "{s=v}", "{i=30}"]);
    let dense = union(UnionMode::Dense, vec![2, 0], vec![2, 0]);
    assert_eq!(render_all(&dense, &FormatOptions::new()), vec!["{s=w}", "{i=10}"]);
}

#[test]
fn a_missing_union_type_id_is_an_error() {
    let c = union(UnionMode::Sparse, vec![1], vec![]);
    assert_eq!(
        array_value_to_string(&c, 0).unwrap(),
        "ERROR: Cast error: Union type id 1 not found in array with 3 fields"
    );
    let f_options = FormatOptions::new().with_display_error(false);
    let f = ArrayFormatter::try_new(&c, &f_options).unwrap();
    match f.value(0).try_to_string() {
        Err(DisplayError::CastError(m)) => {
            assert_eq!(m, "Union type id 1 not found in array with 3 fields")
        }
        _ => panic!("expected a cast error"),
    }
    let mut s = String::from("x");
    assert_eq!(f.value(0).fmt(&mut s), Err(()));
    assert_eq!(s, "x");
}

#[test]
fn errors_inside_nested_values_keep_what_was_written() {
    let list = column(
        1,
        ColumnData::List {
            offsets: vec![0, 2],
            values: Box::new(union(UnionMode::Sparse, vec![0, 1, 0], vec![])),
        },
    );
    assert_eq!(
        array_value_to_string(&list, 0).unwrap(),
        "[{i=10}, ERROR: Cast error: Union type id 1 not found in array with 3 fields"
    );
    let options = FormatOptions::new();
    let f = ArrayFormatter::try_new(&list, &options).unwrap();
    let mut s = String::new();
    assert!(f.value(0).write(&mut s).is_err());
    assert_eq!(s, "[{i=10}, ");
}

#[test]
fn unsupported_types_are_refused() {
    let c = column(
        1,
        ColumnData::List {
            offsets: vec![0, 0],
            values: Box::new(column(0, ColumnData::Unsupported { data_type: "Date32".to_string() })),
        },
    );
    match array_value_to_string(&c, 0) {
        Err(e) => {
            assert_eq!(e.message(), "Not yet implemented: formatting Date32 is not yet supported")
        }
        Ok(_) => panic!("expected an error"),
    }
}

#[test]
fn maps_with_struct_values() {
    let values = column(
        2,
        ColumnData::Struct { names: vec!["n".to_string()], columns: vec![ints(&[5, 6])] },
    );
    let m = column(
        2,
        ColumnData::KeyValue {
            offsets: vec![0, 0, 2],
            keys: Box::new(text_column(&["k1", "k2"])),
            values: Box::new(values),
        },
    );
    assert_eq!(render_all(&m, &FormatOptions::new()), vec!["{}", "{k1 -> {5}, k2 -> {6}}"]);
}

#[test]
fn durations_out_of_chrono_range_read_error() {
    let iso = FormatOptions::new().with_duration_format(DurationFormat::Iso8601);
    let s = column(3, ColumnData::Duration(TimeUnit::Second, vec![0, 9_223_372_036_854_775, i64::MAX]));
    assert_eq!(render_all(&s, &iso), vec!["P0D", "PT9223372036854775S", "ERROR"]);
    let ms = column(2, ColumnData::Duration(TimeUnit::Millisecond, vec![i64::MIN, i64::MIN + 1]));
    assert_eq!(render_all(&ms, &iso), vec!["ERROR", "-PT9223372036854775.807S"]);
    let spark = FormatOptions::new();
    assert_eq!(
        render_all(&ms, &spark),
        vec![
            "INTERVAL '-106751991167 07:12:55.808' DAY TO SECOND",
            "INTERVAL '-106751991167 07:12:55.807' DAY TO SECOND"
        ]
    );
}

#[test]
fn durations_display_alike_in_every_unit() {
    for format in [DurationFormat::Iso8601, DurationFormat::Spark] {
        let options = FormatOptions::new().with_duration_format(format);
        let s = column(1, ColumnData::Duration(TimeUnit::Second, vec![-90061]));
        let ns = column(1, ColumnData::Duration(TimeUnit::Nanosecond, vec![-90061_000_000_000]));
        assert_eq!(render_all(&s, &options), render_all(&ns, &options));
    }
}

#[test]
fn decimals_place_the_point() {
    let c = column(
        4,
        ColumnData::Decimal128 { precision: 10, scale: 2, values: vec![12345, -5, 0, 100] },
    );
    assert_eq!(render_all(&c, &FormatOptions::new()), vec!["123.45", "-0.05", "0.00", "1.00"]);
    let n = column(1, ColumnData::Decimal128 { precision: 10, scale: -2, values: vec![12] });
    assert_eq!(render_all(&n, &FormatOptions::new()), vec!["1200"]);
    let w = column(
        2,
        ColumnData::Decimal256 { precision: 76, scale: 3, values: vec![(0, 1234567), (-1, u128::MAX)] },
    );
    assert_eq!(render_all(&w, &FormatOptions::new()), vec!["1234.567", "-0.001"]);
}

#[test]
fn run_end_encoded_rows_follow_their_runs() {
    let c = column(
        5,
        ColumnData::RunEndEncoded { run_ends: vec![1, 4, 5], values: Box::new(ints(&[7, 8, 9])) },
    );
    assert_eq!(render_all(&c, &FormatOptions::new()), vec!["7", "8", "8", "8", "9"]);
}

#[test]
fn a_null_column_writes_the_null_text_for_any_row() {
    let c = column(2, ColumnData::Null);
    assert_eq!(array_value_to_string(&c, 5).unwrap(), "");
    let options = FormatOptions::new().with_null("NULL");
    let f = ArrayFormatter::try_new(&c, &options).unwrap();
    assert_eq!(f.value(7).to_string(), "NULL");
}

#[test]
fn displaying_agrees_with_writing_where_formatting_succeeds() {
    let c = column(
        2,
        ColumnData::List { offsets: vec![0, 1, 3], values: Box::new(text_column(&["a", "b", "c"])) },
    );
    let options = FormatOptions::new();
    let f = ArrayFormatter::try_new(&c, &options).unwrap();
    for i in 0..2 {
        let written = f.value(i).try_to_string().unwrap();
        assert_eq!(written, f.value(i).to_string());
    }
    assert_eq!(f.value(1).to_string(), "[b, c]");
}

#[test]
fn negating_a_duration_adds_a_sign() {
    let iso = FormatOptions::new().with_duration_format(DurationFormat::Iso8601);
    let c = column(2, ColumnData::Duration(TimeUnit::Microsecond, vec![1_500_000, -1_500_000]));
    assert_eq!(render_all(&c, &iso), vec!["PT1.5S", "-PT1.5S"]);
    assert_eq!(
        render_all(&c, &FormatOptions::new()),
        vec!["INTERVAL '0 00:00:01.5' DAY TO SECOND", "INTERVAL '-0 00:00:01.5' DAY TO SECOND"]
    );
}

#[test]
fn default_options_write_empty_nulls_and_rfc3339() {
    let d = FormatOptions::default();
    assert_eq!(d.null(), "");
    assert_eq!(d.date_format(), TimeFormat::Rfc3339);
    assert_eq!(d.datetime_format(), TimeFormat::Rfc3339);
    assert_eq!(d.timestamp_format(), TimeFormat::Rfc3339);
    assert_eq!(d.timestamp_tz_format(), TimeFormat::Rfc3339);
    assert_eq!(d.time_format(), TimeFormat::Rfc3339);
    assert!(d.safe());
}

#[test]
fn dates_and_times_in_rfc3339() {
    let options = FormatOptions::new();
    let d32 = column(2, ColumnData::Date32(vec![1, -1]));
    assert_eq!(render_all(&d32, &options), vec!["1970-01-02", "1969-12-31"]);
    let d64 = column(1, ColumnData::Date64(vec![86_400_000]));
    assert_eq!(render_all(&d64, &options), vec!["1970-01-02T00:00:00"]);
    let t32 = column(1, ColumnData::Time32(TimeUnit::Second, vec![3661]));
    assert_eq!(render_all(&t32, &options), vec!["01:01:01"]);
    let t64 = column(1, ColumnData::Time64(TimeUnit::Nanosecond, vec![1_500_000_000]));
    assert_eq!(render_all(&t64, &options), vec!["00:00:01.500"]);
}

fn timestamps(timezone: Option<&str>) -> Column {
    column(
        1,
        ColumnData::Timestamp {
            unit: TimeUnit::Second,
            timezone: timezone.map(|s| s.to_string()),
            values: vec![0],
        },
    )
}

#[test]
fn timestamps_in_rfc3339_and_custom_formats() {
    let options = FormatOptions::new();
    assert_eq!(render_all(&timestamps(None), &options), vec!["1970-01-01T00:00:00"]);
    assert_eq!(render_all(&timestamps(Some("+08:00")), &options), vec!["1970-01-01T08:00:00+08:00"]);
    let custom = FormatOptions::new()
        .with_timestamp_format(TimeFormat::Custom("%Y/%m/%d %H"))
        .with_timestamp_tz_format(TimeFormat::Custom("%H:%M %z"));
    assert_eq!(render_all(&timestamps(None), &custom), vec!["1970/01/01 00"]);
    assert_eq!(render_all(&timestamps(Some("-02:00")), &custom), vec!["22:00 -0200"]);
    let dates = FormatOptions::new().with_date_format(TimeFormat::Custom("%d.%m.%Y"));
    assert_eq!(render_all(&column(1, ColumnData::Date32(vec![0])), &dates), vec!["01.01.1970"]);
}

#[test]
fn a_timezone_that_does_not_parse_is_refused() {
    let options = FormatOptions::new();
    match ArrayFormatter::try_new(&timestamps(Some("Nowhere/Land")), &options) {
        Err(DisplayError::ParseError(m)) => assert!(m.starts_with("Invalid timezone \"Nowhere/Land\"")),
        _ => panic!("expected a parse error"),
    }
}

#[test]
fn the_spark_form_of_temporal_values_is_refused() {
    let options = FormatOptions::new().with_date_format(TimeFormat::Spark);
    match ArrayFormatter::try_new(&column(1, ColumnData::Date32(vec![0])), &options) {
        Err(e) => assert_eq!(
            e.message(),
            "Not yet implemented: formatting Date32 in the Spark format is not yet supported"
        ),
        Ok(_) => panic!("expected an error"),
    }
}

#[test]
fn dates_beyond_chrono_and_failing_formats() {
    let c = column(1, ColumnData::Date32(vec![i32::MAX]));
    assert_eq!(
        array_value_to_string(&c, 0).unwrap(),
        "ERROR: Cast error: invalid temporal value: 2147483647"
    );
    let bad = FormatOptions::new().with_date_format(TimeFormat::Custom("%Q"));
    let d = column(1, ColumnData::Date32(vec![0]));
    let f = ArrayFormatter::try_new(&d, &bad).unwrap();
    match f.value(0).try_to_string() {
        Err(DisplayError::CastError(m)) => assert_eq!(m, "format error"),
        _ => panic!("expected a format error"),
    }
    let mut s = String::new();
    assert_eq!(f.value(0).fmt(&mut s), Err(()));
}

#[test]
fn preparation_depends_on_the_data_type_alone() {
    let options = FormatOptions::new();
    let bad_a = timestamps(Some("Nowhere/Land"));
    let bad_b = Column {
        len: 3,
        nulls: Some(vec![false, true, true]),
        data: ColumnData::Timestamp {
            unit: TimeUnit::Second,
            timezone: Some("Nowhere/Land".to_string()),
            values: vec![5, -7, 1_000_000],
        },
    };
    let ea = ArrayFormatter::try_new(&bad_a, &options).err().map(|e| e.message());
    let eb = ArrayFormatter::try_new(&bad_b, &options).err().map(|e| e.message());
    assert!(ea.is_some());
    assert_eq!(ea, eb);
    let good_a = timestamps(Some("+01:00"));
    let good_b = column(0, ColumnData::Timestamp {
        unit: TimeUnit::Second,
        timezone: Some("+01:00".to_string()),
        values: vec![],
    });
    assert!(ArrayFormatter::try_new(&good_a, &options).is_ok());
    assert!(ArrayFormatter::try_new(&good_b, &options).is_ok());
    assert!(make_formatter(&bad_a, &options).is_err());
    assert!(make_formatter(&bad_b, &options).is_err());
    assert!(make_formatter(&good_a, &options).is_ok());
    assert!(make_formatter(&good_b, &options).is_ok());
}

#[test]
fn well_formedness_is_tested_before_formatting() {
    assert!(is_well_formed(&ints(&[1, 2, 3])));
    assert!(!is_well_formed(&column(4, ColumnData::Int(vec![1, 2, 3]))));
    let list = |offsets: Vec<usize>| column(2, ColumnData::List { offsets, values: Box::new(ints(&[1, 2, 3])) });
    assert!(is_well_formed(&list(vec![0, 1, 3])));
    assert!(!is_well_formed(&list(vec![0, 2, 1])));
    assert!(!is_well_formed(&list(vec![0, 1, 4])));
    assert!(is_well_formed(&union(UnionMode::Sparse, vec![0, 2, 0], vec![])));
    assert!(!is_well_formed(&union(UnionMode::Sparse, vec![0, 3, 0], vec![])));
    assert!(is_well_formed(&union(UnionMode::Dense, vec![0, 2, 0], vec![0, 2, 1])));
    assert!(!is_well_formed(&union(UnionMode::Dense, vec![0, 2, 0], vec![0, 5, 1])));
}

#[test]
fn printability_is_tested_row_by_row() {
    let options = FormatOptions::new();
    let dec = |values: Vec<i128>, precision: u8| {
        column(values.len(), ColumnData::Decimal128 { precision, scale: 3, values })
    };
    let c = dec(vec![12, 12345], 2);
    assert!(is_well_formed(&c));
    assert!(is_printable(&c, 0, &options));
    assert!(!is_printable(&c, 1, &options));
    assert!(is_printable(&dec(vec![12345], 5), 0, &options));
    // the first row is written though the second cannot be
    let f = ArrayFormatter::try_new(&c, &options).unwrap();
    assert_eq!(f.value(0).to_string(), "0.012");
    let dec256 = |high: i128, low: u128, precision: u8| {
        column(1, ColumnData::Decimal256 { precision, scale: 3, values: vec![(high, low)] })
    };
    // -12345 as its two halves
    assert!(!is_printable(&dec256(-1, u128::MAX - 12344, 1), 0, &options));
    assert!(is_printable(&dec256(-1, u128::MAX - 12344, 2), 0, &options));
    assert!(!is_printable(&dec256(1, 0, 2), 0, &options));
    assert!(!is_printable(&dec256(-1, 0, 1), 0, &options));
    assert!(is_printable(&dec256(0, 12, 1), 0, &options));
    let a_null_row = Column {
        len: 1,
        nulls: Some(vec![false]),
        data: ColumnData::Decimal128 { precision: 2, scale: 3, values: vec![12345] },
    };
    assert!(is_printable(&a_null_row, 0, &options));
    let list = column(2, ColumnData::List { offsets: vec![0, 1, 2], values: Box::new(c) });
    assert!(is_printable(&list, 0, &options));
    assert!(!is_printable(&list, 1, &options));
}

#[test]
fn timestamps_on_chronos_last_day_are_not_written_in_rfc3339_with_a_timezone() {
    let last_day_noon: i64 = 95026236 * 86400 + 43200;
    let c = column(2, ColumnData::Timestamp {
        unit: TimeUnit::Second,
        timezone: Some("+01:00".to_string()),
        values: vec![0, last_day_noon],
    });
    let options = FormatOptions::new();
    assert!(is_printable(&c, 0, &options));
    assert!(!is_printable(&c, 1, &options));
    let custom = FormatOptions::new().with_timestamp_tz_format(TimeFormat::Custom("%Y"));
    assert!(is_printable(&c, 1, &custom));
    let f = ArrayFormatter::try_new(&c, &custom).unwrap();
    assert_eq!(f.value(1).to_string(), "+262142");
    let no_tz = column(1, ColumnData::Timestamp {
        unit: TimeUnit::Second,
        timezone: None,
        values: vec![last_day_noon],
    });
    assert!(is_printable(&no_tz, 0, &options));
    assert_eq!(array_value_to_string(&no_tz, 0).unwrap(), "+262142-12-31T12:00:00");
}
