use sail_display::data_source::{
    check_files_found, declared_schema, is_csv_extension, is_csv_lowercase_extension,
    parse_usize_str, rename_default_csv_columns, trim_str,
};

fn names(v: &[&str]) -> Vec<String> {
    v.iter().map(|s| s.to_string()).collect()
}

#[test]
fn generated_names_are_shifted_to_zero_based() {
    assert_eq!(
        rename_default_csv_columns(&names(&["column_1", "column_2", "column_3"])),
        names(&["_c0", "_c1", "_c2"])
    );
}

#[test]
fn generated_names_keep_their_own_numbers() {
    assert_eq!(
        rename_default_csv_columns(&names(&["column_3", "id", "column_1"])),
        names(&["_c2", "id", "_c0"])
    );
    assert_eq!(
        rename_default_csv_columns(&names(&["column_ 2 ", "column_+1", "column_0"])),
        names(&["_c0", "_c1", "_c2"])
    );
}

#[test]
fn a_number_that_does_not_parse_names_columns_by_position() {
    assert_eq!(
        rename_default_csv_columns(&names(&["name", "column_x"])),
        names(&["_c0", "_c1"])
    );
    assert_eq!(
        rename_default_csv_columns(&names(&["a", "column_99999999999999999999999"])),
        names(&["_c0", "_c1"])
    );
}

#[test]
fn duplicate_new_names_name_columns_by_position() {
    assert_eq!(
        rename_default_csv_columns(&names(&["_c0", "column_1"])),
        names(&["_c0", "_c1"])
    );
    assert_eq!(
        rename_default_csv_columns(&names(&["b", "b"])),
        names(&["_c0", "_c1"])
    );
}

#[test]
fn renaming_twice_changes_nothing() {
    for input in [
        names(&["column_2", "x", "column_1"]),
        names(&["column_1", "column_1"]),
        names(&["column_a", "y"]),
    ] {
        let once = rename_default_csv_columns(&input);
        assert_eq!(rename_default_csv_columns(&once), once);
        assert_eq!(once.len(), input.len());
    }
}

#[test]
fn trim_and_parse_follow_std() {
    assert_eq!(trim_str("\u{3000} 12\t\n"), "12");
    assert_eq!(parse_usize_str("+7"), Some(7));
    assert_eq!(parse_usize_str("007"), Some(7));
    assert_eq!(parse_usize_str("+"), None);
    assert_eq!(parse_usize_str("-1"), None);
    assert_eq!(parse_usize_str(""), None);
    assert_eq!(parse_usize_str("1 2"), None);
    assert_eq!(parse_usize_str("18446744073709551615"), Some(usize::MAX));
    assert_eq!(parse_usize_str("18446744073709551616"), None);
}

#[test]
fn csv_extensions() {
    assert!(is_csv_extension(".CSV"));
    assert!(is_csv_extension(" csv "));
    assert!(!is_csv_extension(".tsv"));
    assert!(!is_csv_extension(".csv.gz"));
    assert!(is_csv_lowercase_extension("csv"));
    assert!(!is_csv_lowercase_extension("CSV"));
}

#[test]
fn a_listing_without_files_is_refused() {
    let urls = names(&["s3://a/", "file:///b/"]);
    assert_eq!(check_files_found(&urls, &vec![0, 2]), Ok(()));
    assert_eq!(
        check_files_found(&urls, &vec![0, 0]),
        Err("No files found in the specified paths: s3://a/, file:///b/".to_string())
    );
}

#[test]
fn an_empty_declared_schema_counts_as_none() {
    assert_eq!(declared_schema::<u8>(Some(vec![])), None);
    assert_eq!(declared_schema(Some(vec![1u8])), Some(vec![1u8]));
    assert_eq!(declared_schema::<u8>(None), None);
}
