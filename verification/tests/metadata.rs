use codebench::CriterionBenchmark;
use codebench::FieldName;
use codebench::JsonValue;
use codebench::MetadataError;

fn field(name: &str, value: JsonValue) -> (String, JsonValue) {
    (name.to_string(), value)
}

fn s(text: &str) -> JsonValue {
    JsonValue::Str(text.to_string())
}

fn full_doc() -> JsonValue {
    JsonValue::Obj(vec![
        field("group_id", s("sort")),
        field("function_id", s("quick")),
        field("value_str", s("4096 items")),
        field(
            "throughput",
            JsonValue::Obj(vec![field("Elements", JsonValue::Num("4096".to_string()))]),
        ),
        field("full_id", s("sort/quick")),
        field("directory_name", s("sort_quick")),
        field("title", s("sort: quick")),
    ])
}

#[test]
fn parses_every_field() {
    let m = CriterionBenchmark::from_value(full_doc()).unwrap();
    assert_eq!(m.group_id, "sort");
    assert_eq!(m.function_id, "quick");
    assert_eq!(m.value_str, Some("4096 items".to_string()));
    assert_eq!(m.full_id, "sort/quick");
    assert_eq!(m.directory_name, "sort_quick");
    assert_eq!(m.title, "sort: quick");
}

#[test]
fn absent_value_str_is_no_value() {
    let doc = JsonValue::Obj(vec![
        field("group_id", s("g")),
        field("function_id", s("f")),
        field("throughput", JsonValue::Null),
        field("full_id", s("g/f")),
        field("directory_name", s("g_f")),
        field("title", s("g: f")),
    ]);
    let m = CriterionBenchmark::from_value(doc).unwrap();
    assert_eq!(m.value_str, None);
    assert_eq!(m.throughput, JsonValue::Null);
}

#[test]
fn missing_required_field_names_it() {
    let doc = JsonValue::Obj(vec![
        field("group_id", s("g")),
        field("function_id", s("f")),
        field("full_id", s("g/f")),
        field("directory_name", s("g_f")),
    ]);
    let err = CriterionBenchmark::from_value(doc).unwrap_err();
    assert_eq!(err, MetadataError::Missing(FieldName::Title));
}

#[test]
fn mistyped_required_field_names_it() {
    let doc = JsonValue::Obj(vec![
        field("group_id", JsonValue::Num("7".to_string())),
        field("function_id", s("f")),
        field("full_id", s("g/f")),
        field("directory_name", s("g_f")),
        field("title", s("t")),
    ]);
    let err = CriterionBenchmark::from_value(doc).unwrap_err();
    assert_eq!(err, MetadataError::WrongType(FieldName::GroupId));
}

#[test]
fn non_object_document_is_rejected() {
    let err = CriterionBenchmark::from_value(JsonValue::Arr(vec![])).unwrap_err();
    assert_eq!(err, MetadataError::NotObject);
}

#[test]
fn throughput_round_trips_untouched() {
    let original_throughput =
        JsonValue::Obj(vec![field("Elements", JsonValue::Num("4096".to_string()))]);
    let m = CriterionBenchmark::from_value(full_doc()).unwrap();
    assert_eq!(m.throughput, original_throughput);
    let written = m.to_value();
    let back = written.get_field("throughput").unwrap();
    assert_eq!(*back, original_throughput);
    let reparsed = CriterionBenchmark::from_value(written).unwrap();
    assert_eq!(reparsed.throughput, original_throughput);
    assert_eq!(reparsed.group_id, "sort");
}

#[test]
fn reads_document_bytes() {
    let bytes = b"{\"group_id\":\"g\",\"function_id\":\"f\",\"value_str\":\"v\",\
                   \"throughput\":[1,2,3],\"full_id\":\"g/f\",\"directory_name\":\"d\",\
                   \"title\":\"t\"}";
    let m = CriterionBenchmark::from_bytes(bytes).unwrap();
    assert_eq!(m.group_id, "g");
    assert_eq!(m.value_str, Some("v".to_string()));
    assert_eq!(
        m.throughput,
        JsonValue::Arr(vec![
            JsonValue::Num("1".to_string()),
            JsonValue::Num("2".to_string()),
            JsonValue::Num("3".to_string()),
        ])
    );
}

#[test]
fn malformed_bytes_are_a_syntax_error() {
    let err = CriterionBenchmark::from_bytes(b"{not json").unwrap_err();
    assert_eq!(err, MetadataError::Syntax);
}

#[test]
fn mistyped_value_str_is_rejected() {
    let doc = JsonValue::Obj(vec![
        field("group_id", s("g")),
        field("function_id", s("f")),
        field("value_str", JsonValue::Bool(true)),
        field("full_id", s("g/f")),
        field("directory_name", s("g_f")),
        field("title", s("t")),
    ]);
    let err = CriterionBenchmark::from_value(doc).unwrap_err();
    assert_eq!(err, MetadataError::WrongType(FieldName::ValueStr));
}

#[test]
fn duplicate_field_takes_the_first_occurrence() {
    let doc = JsonValue::Obj(vec![
        field("group_id", s("first")),
        field("group_id", s("second")),
        field("function_id", s("f")),
        field("full_id", s("g/f")),
        field("directory_name", s("g_f")),
        field("title", s("t")),
    ]);
    let m = CriterionBenchmark::from_value(doc).unwrap();
    assert_eq!(m.group_id, "first");
}
