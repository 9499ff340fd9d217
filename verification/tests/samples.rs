use codebench::ColName;
use codebench::CriterionRaw;
use codebench::RawError;

fn rows(lines: &[&[&str]]) -> Vec<Vec<String>> {
    lines
        .iter()
        .map(|row| row.iter().map(|cell| cell.to_string()).collect())
        .collect()
}

const HEADER: &[&str] = &[
    "group",
    "function",
    "value",
    "throughput_num",
    "throughput_type",
    "sample_measured_value",
    "unit",
    "iteration_count",
];

#[test]
fn parses_rows_in_order() {
    let table = rows(&[
        HEADER,
        &["g", "f", "4096", "4096", "Elements", "100.5", "ns", "1"],
        &["g", "f", "", "", "", "200.25", "ns", "2"],
    ]);
    let raw = CriterionRaw::from_rows(&table).unwrap();
    assert_eq!(raw.0.len(), 2);
    assert_eq!(raw.0[0].group, "g");
    assert_eq!(raw.0[0].value, Some("4096".to_string()));
    assert_eq!(raw.0[0].throughput_num, Some(4096));
    assert_eq!(raw.0[0].throughput_type, Some("Elements".to_string()));
    assert_eq!(raw.0[0].sample_measured_value, "100.5");
    assert_eq!(raw.0[0].iteration_count, 1);
    assert_eq!(raw.0[1].value, None);
    assert_eq!(raw.0[1].throughput_num, None);
    assert_eq!(raw.0[1].sample_measured_value, "200.25");
    assert_eq!(raw.0[1].iteration_count, 2);
}

#[test]
fn reordered_columns_parse_identically() {
    let straight = rows(&[
        HEADER,
        &["g", "f", "v", "7", "Elements", "1.5e3", "ns", "3"],
    ]);
    let shuffled = rows(&[
        &[
            "iteration_count",
            "unit",
            "sample_measured_value",
            "throughput_type",
            "throughput_num",
            "value",
            "function",
            "group",
        ],
        &["3", "ns", "1.5e3", "Elements", "7", "v", "f", "g"],
    ]);
    let a = CriterionRaw::from_rows(&straight).unwrap();
    let b = CriterionRaw::from_rows(&shuffled).unwrap();
    assert_eq!(a, b);
}

#[test]
fn missing_required_column_is_rejected() {
    let table = rows(&[
        &["group", "function", "value", "unit", "iteration_count"],
        &["g", "f", "", "ns", "1"],
    ]);
    let err = CriterionRaw::from_rows(&table).unwrap_err();
    assert_eq!(err, RawError::MissingColumn(ColName::SampleMeasuredValue));
}

#[test]
fn wrong_field_count_names_the_row() {
    let table = rows(&[
        HEADER,
        &["g", "f", "", "", "", "1.0", "ns", "1"],
        &["g", "f", "1.0", "ns"],
    ]);
    let err = CriterionRaw::from_rows(&table).unwrap_err();
    assert_eq!(err, RawError::WrongFieldCount(2));
}

#[test]
fn empty_required_field_names_row_and_column() {
    let table = rows(&[
        HEADER,
        &["g", "", "", "", "", "1.0", "ns", "1"],
    ]);
    let err = CriterionRaw::from_rows(&table).unwrap_err();
    assert_eq!(err, RawError::EmptyField(1, ColName::Function));
}

#[test]
fn non_numeric_sample_value_names_the_row() {
    let table = rows(&[
        HEADER,
        &["g", "f", "", "", "", "1.0", "ns", "1"],
        &["g", "f", "", "", "", "abc", "ns", "1"],
    ]);
    let err = CriterionRaw::from_rows(&table).unwrap_err();
    assert_eq!(err, RawError::NotANumber(2));
}

#[test]
fn bad_iteration_count_names_row_and_column() {
    let table = rows(&[
        HEADER,
        &["g", "f", "", "", "", "1.0", "ns", "-3"],
    ]);
    let err = CriterionRaw::from_rows(&table).unwrap_err();
    assert_eq!(err, RawError::NotAnInteger(1, ColName::IterationCount));
}

#[test]
fn bad_throughput_num_names_row_and_column() {
    let table = rows(&[
        HEADER,
        &["g", "f", "", "many", "", "1.0", "ns", "1"],
    ]);
    let err = CriterionRaw::from_rows(&table).unwrap_err();
    assert_eq!(err, RawError::NotAnInteger(1, ColName::ThroughputNum));
}

#[test]
fn reads_table_bytes_with_quoting() {
    let bytes = b"group,function,value,throughput_num,throughput_type,sample_measured_value,unit,iteration_count\n\
                  \"g,1\",f,,,,12.25,ns,4\n";
    let raw = CriterionRaw::from_bytes(bytes).unwrap();
    assert_eq!(raw.0.len(), 1);
    assert_eq!(raw.0[0].group, "g,1");
    assert_eq!(raw.0[0].sample_measured_value, "12.25");
}

#[test]
fn row_count_is_line_count_minus_one() {
    let bytes = b"group,function,value,throughput_num,throughput_type,sample_measured_value,unit,iteration_count\n\
                  g,f,,,,1.0,ns,1\n\
                  g,f,,,,2.0,ns,2\n\
                  g,f,,,,3.0,ns,3\n";
    let raw = CriterionRaw::from_bytes(bytes).unwrap();
    assert_eq!(raw.0.len(), 3);
}

#[test]
fn empty_input_is_an_empty_sample_set() {
    let raw = CriterionRaw::from_bytes(b"").unwrap();
    assert_eq!(raw.0.len(), 0);
}

#[test]
fn undecodable_bytes_are_a_syntax_error() {
    let err = CriterionRaw::from_bytes(&[0x67, 0xff, 0xfe, 0x2c, 0x67]).unwrap_err();
    assert_eq!(err, RawError::Syntax);
}

#[test]
fn sample_value_syntax_accepts_plain_decimal_forms() {
    for good in ["1", "1.5", "1.", ".5", "-2.5", "+3", "1e5", "2.5E-3", "1.e2"] {
        let table = rows(&[HEADER, &["g", "f", "", "", "", good, "ns", "1"]]);
        assert!(
            CriterionRaw::from_rows(&table).is_ok(),
            "rejected {}",
            good
        );
    }
    for bad in ["", "abc", "1.2.3", "e5", "nan", "inf", "--1", "5e", "1f2"] {
        let table = rows(&[HEADER, &["g", "f", "", "", "", bad, "ns", "1"]]);
        assert_eq!(
            CriterionRaw::from_rows(&table).unwrap_err(),
            RawError::NotANumber(1),
            "accepted {}",
            bad
        );
    }
}

#[test]
fn oversized_iteration_count_is_rejected() {
    let table = rows(&[
        HEADER,
        &["g", "f", "", "", "", "1.0", "ns", "99999999999999999999999999"],
    ]);
    let err = CriterionRaw::from_rows(&table).unwrap_err();
    assert_eq!(err, RawError::NotAnInteger(1, ColName::IterationCount));
}
