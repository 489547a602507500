use doris_profile_analyzer::models::{HotspotSeverity, NodeType, ParseError};
use doris_profile_analyzer::parser::{ProfileComposer, TreeBuilder};

#[test]
fn test_parse_empty_profile() {
    let mut composer = ProfileComposer::new();
    let result = composer.parse("");
    assert!(result.is_err());
}

#[test]
fn test_parse_minimal_profile() {
    let profile_text = r#"Summary:
   - Profile ID: test-123
   - Task Type: QUERY
   - Start Time: 2025-01-01 00:00:00
   - End Time: 2025-01-01 00:00:01
   - Total: 1sec
   - Task State: OK
   - User: root
   - Default Db: test
   - Sql Statement: SELECT 1
Execution Summary:
   - Workload Group: normal
ChangedSessionVariables:
[]
MergedProfile:
     Fragments:
       Fragment 0:
         Pipeline 0(instance_num=1):
           - WaitWorkerTime: avg 18.605us, max 18.605us, min 18.605us
           RESULT_SINK_OPERATOR(id=2147483647):
             CommonCounters:
               - ExecTime: avg 95.241us, max 95.241us, min 95.241us
               - InputRows: sum 1, avg 1, max 1, min 1
             CustomCounters:
"#;

    let mut composer = ProfileComposer::new();
    let result = composer.parse(profile_text);

    assert!(result.is_ok(), "Parse failed: {:?}", result.err());

    let profile = result.unwrap();
    assert_eq!(profile.summary.query_id, "test-123");
    assert_eq!(profile.summary.query_state, "OK");
    assert!(!profile.fragments.is_empty());
    assert!(profile.execution_tree.is_some());

    let tree = profile.execution_tree.unwrap();
    assert!(!tree.nodes.is_empty());
    assert!(tree.root.operator_name.contains("RESULT_SINK"));
}

fn complex_profile_text() -> &'static str {
    r#"Summary:
   - Profile ID: 37f4f7ab99a741ed-8fd24882055ce279
   - Task Type: QUERY
   - Start Time: 2025-12-15 19:55:24
   - End Time: 2025-12-15 19:55:25
   - Total: 1sec240ms
   - Task State: OK
   - User: root
   - Default Catalog: iceberg
   - Default Db: tpcds1000_parquet
   - Sql Statement: SELECT * FROM test
Execution Summary:
   - Workload Group: normal
   - Parse SQL Time: 2ms
ChangedSessionVariables:
[
  {
    "VarName": "enable_profile",
    "CurrentValue": "true",
    "DefaultValue": "false"
  }
]
MergedProfile:
     Fragments:
       Fragment 0:
         Pipeline 0(instance_num=1):
           - WaitWorkerTime: avg 18.605us, max 18.605us, min 18.605us
           RESULT_SINK_OPERATOR(id=2147483647):
             CommonCounters:
               - ExecTime: avg 95.241us, max 95.241us, min 95.241us
           SORT_OPERATOR(nereids_id=1966)(id=28):
             CommonCounters:
               - ExecTime: avg 14.905us, max 14.905us, min 14.905us
               - RowsProduced: sum 1, avg 1, max 1, min 1
         Pipeline 1(instance_num=1):
           DATA_STREAM_SINK_OPERATOR(dest_id=25):
             CommonCounters:
               - ExecTime: avg 80.264us, max 145.694us, min 18.570us
       Fragment 1:
         Pipeline 0(instance_num=48):
           EXCHANGE_OPERATOR(id=25):
             CommonCounters:
               - ExecTime: avg 14.767us, max 31.250us, min 8.681us
           FILE_SCAN_OPERATOR (id=20. nereids_id=1791. table name = web_sales):
             CommonCounters:
               - ExecTime: avg 683.359ms, max 807.567ms, min 544.247ms
               - RowsProduced: sum 183.75K (183750), avg 3.828K (3828), max 4.278K (4278), min 3.452K (3452)
"#
}

#[test]
fn test_parse_complex_profile() {
    let profile_text = complex_profile_text();

    let mut composer = ProfileComposer::new();
    let result = composer.parse(profile_text);

    assert!(result.is_ok(), "Parse failed: {:?}", result.err());

    let profile = result.unwrap();
    assert_eq!(profile.summary.query_id, "37f4f7ab99a741ed-8fd24882055ce279");
    assert_eq!(profile.fragments.len(), 2);

    // Check execution tree
    let tree = profile.execution_tree.as_ref().unwrap();
    assert!(tree.nodes.len() >= 4);

    // Find FILE_SCAN operator and check it's the most consuming
    let scan_node = tree.nodes.iter().find(|n| n.operator_name.contains("FILE_SCAN"));
    assert!(scan_node.is_some());
    let scan = scan_node.unwrap();
    assert!(scan.time_percentage.is_some());
    let share = scan.time_percentage.unwrap();
    let percentage = (share.part as f64 / share.total as f64) * 100.0;
    assert!(scan.is_most_consuming || percentage > 50.0);
}

#[test]
fn tree_builder_test_determine_node_type() {
    assert_eq!(TreeBuilder::determine_node_type("OLAP_SCAN_OPERATOR"), NodeType::OlapScan);
    assert_eq!(TreeBuilder::determine_node_type("FILE_SCAN_OPERATOR"), NodeType::OlapScan);
    assert_eq!(TreeBuilder::determine_node_type("HASH_JOIN_OPERATOR"), NodeType::HashJoin);
    assert_eq!(TreeBuilder::determine_node_type("AGGREGATION_OPERATOR"), NodeType::Aggregate);
    assert_eq!(TreeBuilder::determine_node_type("SORT_OPERATOR"), NodeType::Sort);
    assert_eq!(TreeBuilder::determine_node_type("EXCHANGE_OPERATOR"), NodeType::Exchange);
    assert_eq!(TreeBuilder::determine_node_type("RESULT_SINK_OPERATOR"), NodeType::ResultSink);
}

#[test]
fn blank_input_is_invalid_format() {
    let mut composer = ProfileComposer::new();
    for text in ["", "   ", "\n\t \r\n", "\u{3000}\u{a0}"] {
        match composer.parse(text) {
            Err(ParseError::InvalidFormat(message)) => assert_eq!(message, "Empty profile text"),
            other => panic!("expected InvalidFormat, got {:?}", other.map(|_| ())),
        }
    }
}

#[test]
fn missing_merged_profile_is_missing_field() {
    let text = "Summary:\n   - Profile ID: q1\n   - Task State: OK\n";
    let mut composer = ProfileComposer::new();
    match composer.parse(text) {
        Err(ParseError::MissingField(message)) => assert_eq!(message, "MergedProfile: section"),
        other => panic!("expected MissingField, got {:?}", other.map(|_| ())),
    }
}

#[test]
fn exchange_pulls_the_sink_across_fragments() {
    let mut composer = ProfileComposer::new();
    let profile = composer.parse(complex_profile_text()).unwrap();
    let tree = profile.execution_tree.unwrap();
    let sink = tree.nodes.iter().find(|n| n.operator_name == "DATA_STREAM_SINK_OPERATOR").unwrap();
    let exchange = tree.nodes.iter().find(|n| n.operator_name == "EXCHANGE_OPERATOR").unwrap();
    assert_eq!(sink.id, "Fragment 0-Pipeline 1-dest25");
    assert_eq!(exchange.id, "Fragment 1-Pipeline 0-id25");
    assert!(exchange.children.contains(&sink.id));
}

#[test]
fn dominant_scan_is_critical_and_most_consuming() {
    let mut composer = ProfileComposer::new();
    let profile = composer.parse(complex_profile_text()).unwrap();
    let tree = profile.execution_tree.unwrap();
    let scan = tree.nodes.iter().find(|n| n.operator_name.contains("FILE_SCAN")).unwrap();
    assert_eq!(scan.hotspot_severity, HotspotSeverity::Critical);
    assert!(scan.is_hotspot);
    assert!(scan.is_most_consuming);
    assert_eq!(scan.nereids_id, Some(1791));
    assert_eq!(scan.table_name.as_deref(), Some("web_sales"));
    let second = tree.nodes.iter().filter(|n| n.is_second_most_consuming).count();
    assert_eq!(second, 1);
}

#[test]
fn time_shares_add_up_to_the_total() {
    let mut composer = ProfileComposer::new();
    let profile = composer.parse(complex_profile_text()).unwrap();
    let tree = profile.execution_tree.unwrap();
    let total: u128 = 95_241 + 14_905 + 80_264 + 14_767 + 683_359_000;
    let mut parts: u128 = 0;
    let mut percent = 0.0f64;
    for node in &tree.nodes {
        let share = node.time_percentage.unwrap();
        assert_eq!(share.total, total);
        parts += share.part as u128;
        percent += share.part as f64 / share.total as f64 * 100.0;
    }
    assert_eq!(parts, total);
    assert!((percent - 100.0).abs() < 1e-9);
}

#[test]
fn parsing_twice_gives_the_same_profile() {
    let mut composer = ProfileComposer::new();
    let first = composer.parse(complex_profile_text()).unwrap();
    let second = composer.parse(complex_profile_text()).unwrap();
    assert_eq!(format!("{:?}", first), format!("{:?}", second));
}

#[test]
fn depths_are_distances_from_the_root() {
    let mut composer = ProfileComposer::new();
    let profile = composer.parse(complex_profile_text()).unwrap();
    let tree = profile.execution_tree.unwrap();
    let depth_of = |name: &str| tree.nodes.iter().find(|n| n.operator_name == name).unwrap().depth;
    assert_eq!(depth_of("RESULT_SINK_OPERATOR"), 0);
    assert_eq!(depth_of("SORT_OPERATOR"), 1);
    // nothing points to the sink of the first fragment but the exchange of the second
    assert_eq!(depth_of("EXCHANGE_OPERATOR"), 0);
    assert_eq!(tree.root.operator_name, "RESULT_SINK_OPERATOR");
    assert_eq!(tree.root.children, vec!["Fragment 0-Pipeline 0-id28".to_string()]);
}
