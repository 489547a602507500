use doris_profile_analyzer::parser::{FragmentParser, OperatorParser, SectionParser};

#[test]
fn test_fragment_regex() {
    assert!(FragmentParser::fragment_header_id("       Fragment 0:").is_some());
    assert!(FragmentParser::fragment_header_id("Fragment 1:").is_some());

    let id = FragmentParser::fragment_header_id("       Fragment 0:").unwrap();
    assert_eq!(id, "0");
}

#[test]
fn test_pipeline_regex() {
    assert!(FragmentParser::pipeline_header_ids("         Pipeline 0(instance_num=1):").is_some());
    assert!(FragmentParser::pipeline_header_ids("Pipeline 3(instance_num=48):").is_some());

    let (id, instance_num) = FragmentParser::pipeline_header_ids("Pipeline 3(instance_num=48):").unwrap();
    assert_eq!(id, "3");
    assert_eq!(instance_num, "48");
}

#[test]
fn test_parse_fragment() {
    let text = r#"Fragment 0:
         Pipeline 0(instance_num=1):
            - WaitWorkerTime: avg 18.605us, max 18.605us, min 18.605us
           RESULT_SINK_OPERATOR(id=2147483647):
             CommonCounters:
                - ExecTime: avg 95.241us, max 95.241us, min 95.241us
"#;

    let fragment = FragmentParser::parse_fragment(text, "0").unwrap();
    assert_eq!(fragment.id, "Fragment 0");
    assert_eq!(fragment.pipelines.len(), 1);
    assert_eq!(fragment.pipelines[0].id, "Pipeline 0");
}

#[test]
fn test_extract_all_fragments() {
    let text = r#"
     Fragments:
       Fragment 0:
         Pipeline 0(instance_num=1):
           - WaitWorkerTime: avg 18.605us
           RESULT_SINK_OPERATOR(id=2147483647):
             CommonCounters:
               - ExecTime: avg 95.241us
       Fragment 1:
         Pipeline 0(instance_num=48):
           EXCHANGE_OPERATOR(id=25):
             CommonCounters:
               - ExecTime: avg 14.767us
"#;

    let fragments = FragmentParser::extract_all_fragments(text);
    assert_eq!(fragments.len(), 2, "Expected 2 fragments, got {}", fragments.len());
    assert_eq!(fragments[0].id, "Fragment 0");
    assert_eq!(fragments[1].id, "Fragment 1");
}

#[test]
fn test_is_operator_header() {
    assert!(OperatorParser::is_operator_header("RESULT_SINK_OPERATOR(id=2147483647):"));
    assert!(OperatorParser::is_operator_header("SORT_OPERATOR(nereids_id=1966)(id=28):"));
    assert!(OperatorParser::is_operator_header("FILE_SCAN_OPERATOR (id=20. nereids_id=1791. table name = web_sales):"));
    assert!(OperatorParser::is_operator_header("DATA_STREAM_SINK_OPERATOR(dest_id=25):"));
    assert!(OperatorParser::is_operator_header("LOCAL_EXCHANGE_OPERATOR(PASSTHROUGH)(id=-10):"));

    assert!(!OperatorParser::is_operator_header("- ExecTime: avg 95.241us"));
    assert!(!OperatorParser::is_operator_header("CommonCounters:"));
}

#[test]
fn test_parse_header() {
    let header = OperatorParser::parse_header("SORT_OPERATOR(nereids_id=1966)(id=28):").unwrap();
    assert_eq!(header.name, "SORT_OPERATOR");
    assert_eq!(header.id, 28);
    assert_eq!(header.nereids_id, Some(1966));

    let header = OperatorParser::parse_header("DATA_STREAM_SINK_OPERATOR(dest_id=25):").unwrap();
    assert_eq!(header.name, "DATA_STREAM_SINK_OPERATOR");
    assert_eq!(header.dest_id, Some(25));
}

#[test]
fn test_extract_operators() {
    let text = r#"Pipeline 0(instance_num=1):
           RESULT_SINK_OPERATOR(id=2147483647):
             CommonCounters:
                - ExecTime: avg 95.241us, max 95.241us, min 95.241us
                - InputRows: sum 1, avg 1, max 1, min 1
           SORT_OPERATOR(nereids_id=1966)(id=28):
             CommonCounters:
                - ExecTime: avg 14.905us, max 14.905us, min 14.905us
"#;

    let operators = OperatorParser::extract_operators(text);
    assert_eq!(operators.len(), 2);
    assert_eq!(operators[0].name, "RESULT_SINK_OPERATOR");
    assert_eq!(operators[1].name, "SORT_OPERATOR");
}

#[test]
fn test_parse_summary() {
    let profile_text = r#"Summary:
   - Profile ID: 37f4f7ab99a741ed-8fd24882055ce279
   - Task Type: QUERY
   - Start Time: 2025-12-15 19:55:24
   - End Time: 2025-12-15 19:55:25
   - Total: 1sec240ms
   - Task State: OK
   - User: root
Execution Summary:
   - Parse SQL Time: 2ms
"#;

    let summary = SectionParser::parse_summary(profile_text).unwrap();
    assert_eq!(summary.query_id, "37f4f7ab99a741ed-8fd24882055ce279");
    assert_eq!(summary.query_state, "OK");
    assert_eq!(summary.total_time, "1sec240ms");
    assert!(summary.total_time_ns.is_some());
}

#[test]
fn test_parse_session_variables() {
    let text = r#"ChangedSessionVariables:
[
  {
    "VarName": "enable_profile",
    "CurrentValue": "true",
    "DefaultValue": "false"
  }
]
MergedProfile:
"#;

    let vars = SectionParser::parse_session_variables(text).unwrap();
    assert_eq!(vars.len(), 1);
    assert_eq!(vars[0].get("VarName").unwrap(), "enable_profile");
}

#[test]
fn test_extract_merged_profile() {
    let text = r#"ChangedSessionVariables:
[]
MergedProfile:
     Fragments:
       Fragment 0:
         Pipeline 0(instance_num=1):
           RESULT_SINK_OPERATOR(id=2147483647):
             CommonCounters:
               - ExecTime: avg 95.241us
"#;

    let merged = SectionParser::extract_merged_profile(text).unwrap();
    assert!(merged.contains("Fragment 0:"), "Should contain Fragment 0, got: {}", merged);
    assert!(merged.contains("Pipeline 0"), "Should contain Pipeline 0");
}
