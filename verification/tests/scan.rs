use codebench::CriterionReader;
use codebench::CriterionResult;
use codebench::FsNode;
use codebench::LoadErrorKind;
use codebench::RawError;
use codebench::Reader;

fn metadata_bytes(group: &str, function: &str) -> Vec<u8> {
    format!(
        "{{\"group_id\":\"{}\",\"function_id\":\"{}\",\"value_str\":null,\
         \"throughput\":{{\"Elements\":4096}},\"full_id\":\"{}/{}\",\
         \"directory_name\":\"{}_{}\",\"title\":\"{}: {}\"}}",
        group, function, group, function, group, function, group, function
    )
    .into_bytes()
}

fn raw_bytes(rows: &[(&str, &str)]) -> Vec<u8> {
    let mut text = String::from(
        "group,function,value,throughput_num,throughput_type,sample_measured_value,unit,iteration_count\n",
    );
    for (sample, iters) in rows {
        text.push_str(&format!("g,f,,4096,Elements,{},ns,{}\n", sample, iters));
    }
    text.into_bytes()
}

fn result_dir(group: &str, function: &str) -> FsNode {
    FsNode::Dir(vec![(
        "new".to_string(),
        FsNode::Dir(vec![
            (
                "benchmark.json".to_string(),
                FsNode::File(metadata_bytes(group, function)),
            ),
            (
                "raw.csv".to_string(),
                FsNode::File(raw_bytes(&[("100.5", "1"), ("200.25", "2")])),
            ),
        ]),
    )])
}

#[test]
fn parse_vector_example() {
    let mut dirs: Vec<(String, FsNode)> = Vec::new();
    for i in 0..40 {
        dirs.push((format!("bench_{:02}", i), result_dir("vector", &format!("case_{}", i))));
    }
    let tree = FsNode::Dir(vec![(
        "resources".to_string(),
        FsNode::Dir(vec![("vector-criterion".to_string(), FsNode::Dir(dirs))]),
    )]);
    let reader = CriterionReader::default();
    let result = reader.evaluate(&tree).unwrap();
    assert_eq!(result.len(), 40);
}

#[test]
fn empty_tree_yields_empty_set() {
    let tree = FsNode::Dir(vec![
        ("a".to_string(), FsNode::Dir(vec![("b".to_string(), FsNode::Dir(vec![]))])),
        ("note.txt".to_string(), FsNode::File(b"plain file".to_vec())),
    ]);
    let reader = CriterionReader::default();
    let result = reader.evaluate(&tree).unwrap();
    assert_eq!(result.len(), 0);
}

#[test]
fn nested_result_at_depth_three() {
    let tree = FsNode::Dir(vec![(
        "a".to_string(),
        FsNode::Dir(vec![(
            "b".to_string(),
            FsNode::Dir(vec![("c".to_string(), result_dir("deep", "nested"))]),
        )]),
    )]);
    let reader = CriterionReader::default();
    let result = reader.evaluate(&tree).unwrap();
    assert_eq!(result.len(), 1);
    assert_eq!(result[0].benchmark.group_id, "deep");
}

#[test]
fn missing_raw_csv_is_not_a_result_dir() {
    let half_dir = FsNode::Dir(vec![(
        "new".to_string(),
        FsNode::Dir(vec![(
            "benchmark.json".to_string(),
            FsNode::File(metadata_bytes("g", "f")),
        )]),
    )]);
    assert!(!CriterionResult::is_valid(&half_dir));
    let tree = FsNode::Dir(vec![("only_meta".to_string(), half_dir)]);
    let reader = CriterionReader::default();
    let result = reader.evaluate(&tree).unwrap();
    assert_eq!(result.len(), 0);
}

#[test]
fn one_bad_sample_value_fails_the_whole_scan() {
    let mut rows: Vec<(&str, &str)> = Vec::new();
    for _ in 0..20 {
        rows.push(("123.0", "7"));
    }
    rows.push(("abc", "7"));
    for _ in 0..19 {
        rows.push(("456.5", "8"));
    }
    let bad_dir = FsNode::Dir(vec![(
        "new".to_string(),
        FsNode::Dir(vec![
            ("benchmark.json".to_string(), FsNode::File(metadata_bytes("g", "f"))),
            ("raw.csv".to_string(), FsNode::File(raw_bytes(&rows))),
        ]),
    )]);
    let tree = FsNode::Dir(vec![
        ("good".to_string(), result_dir("g", "f")),
        ("bad".to_string(), bad_dir),
    ]);
    let reader = CriterionReader::default();
    let err = reader.evaluate(&tree).unwrap_err();
    assert_eq!(err.path, vec!["bad".to_string()]);
    assert_eq!(err.kind, LoadErrorKind::Raw(RawError::NotANumber(21)));
}

#[test]
fn record_count_matches_valid_directories() {
    let tree = FsNode::Dir(vec![
        ("r1".to_string(), result_dir("a", "x")),
        (
            "mid".to_string(),
            FsNode::Dir(vec![
                ("r2".to_string(), result_dir("b", "y")),
                ("plain".to_string(), FsNode::Dir(vec![])),
            ]),
        ),
        ("stray.txt".to_string(), FsNode::File(vec![1, 2, 3])),
    ]);
    let reader = CriterionReader::default();
    let result = reader.evaluate(&tree).unwrap();
    assert_eq!(result.len(), 2);
    assert_eq!(result[0].benchmark.group_id, "a");
    assert_eq!(result[1].benchmark.group_id, "b");
}

#[test]
fn metadata_failure_reports_the_directory_path() {
    let bad_dir = FsNode::Dir(vec![(
        "new".to_string(),
        FsNode::Dir(vec![
            ("benchmark.json".to_string(), FsNode::File(b"{}".to_vec())),
            ("raw.csv".to_string(), FsNode::File(raw_bytes(&[("1.0", "1")]))),
        ]),
    )]);
    let tree = FsNode::Dir(vec![(
        "x".to_string(),
        FsNode::Dir(vec![("y".to_string(), bad_dir)]),
    )]);
    let reader = CriterionReader::default();
    let err = reader.evaluate(&tree).unwrap_err();
    assert_eq!(err.path, vec!["x".to_string(), "y".to_string()]);
    assert!(matches!(err.kind, LoadErrorKind::Metadata(_)));
}

#[test]
fn loads_a_single_validated_directory() {
    let dir = result_dir("alone", "f");
    assert!(CriterionResult::is_valid(&dir));
    let record = CriterionResult::from_dir(&dir).unwrap();
    assert_eq!(record.benchmark.group_id, "alone");
    assert_eq!(record.raw.0.len(), 2);
    assert_eq!(record.raw.0[0].sample_measured_value, "100.5");
}

#[test]
fn nested_results_below_a_valid_directory_are_not_entered() {
    let mut outer_entries = match result_dir("outer", "f") {
        FsNode::Dir(entries) => entries,
        FsNode::File(_) => unreachable!(),
    };
    outer_entries.push(("inner".to_string(), result_dir("inner", "f")));
    let tree = FsNode::Dir(vec![("outer".to_string(), FsNode::Dir(outer_entries))]);
    let reader = CriterionReader::default();
    let result = reader.evaluate(&tree).unwrap();
    assert_eq!(result.len(), 1);
    assert_eq!(result[0].benchmark.group_id, "outer");
}
