use doris_profile_analyzer::models::{ParseError, Pipeline, StringMap};
use doris_profile_analyzer::parser::{
    FragmentParser, OperatorParser, ProfileComposer, SectionParser, TreeBuilder,
};

fn lines(all: &[&str]) -> String {
    all.join("\n")
}

fn entries(map: &StringMap) -> Vec<(&str, &str)> {
    map.entries.iter().map(|(k, v)| (k.as_str(), v.as_str())).collect()
}

#[test]
fn metrics_nest_by_indentation() {
    let text = lines(&[
        "SORT_OPERATOR(id=1):",
        "  - PlanInfo",
        "     - Limit: 10",
        "  CommonCounters:",
        "     - ExecTime: avg 1ms",
        "       - Inner: 2",
        "         - Innermost: 3",
        "       - Second: 4",
        "      - HalfStep: 5",
        "     - MemoryUsage: sum 1",
        "   - Outdented: 6",
        "       - Deep: 7",
        "  CustomCounters:",
        "     - A: 1",
        "  RuntimeFilterInfo: ",
        "     - B: 2",
        "  CommonCounters:",
        "     - Late: 8",
        "  not a metric",
        "",
    ]);
    let operators = OperatorParser::extract_parsed_operators(&text);
    assert_eq!(operators.len(), 1);
    let op = &operators[0];
    assert_eq!(op.plan_info.len(), 1);
    assert_eq!((op.plan_info[0].key.as_str(), op.plan_info[0].value.as_str()), ("Limit", "10"));
    let shape: Vec<(&str, usize)> =
        op.common_counters.iter().map(|m| (m.key.as_str(), m.children.len())).collect();
    // one column further in is not nested; a section that is opened again goes on
    assert_eq!(shape, vec![("ExecTime", 2), ("HalfStep", 0), ("MemoryUsage", 0), ("Outdented", 2)]);
    let exec = &op.common_counters[0];
    assert_eq!(exec.children[0].key, "Inner");
    assert_eq!(exec.children[0].children[0].key, "Innermost");
    assert_eq!(exec.children[1].key, "Second");
    assert_eq!(op.common_counters[3].children[0].key, "Deep");
    assert_eq!(op.common_counters[3].children[1].key, "Late");
    let custom: Vec<&str> = op.custom_counters.iter().map(|m| m.key.as_str()).collect();
    assert_eq!(custom, vec!["A", "B"]);

    assert_eq!(OperatorParser::get_exec_time_ns(op), Some(1_000_000));
    assert_eq!(OperatorParser::get_rows_produced(op), None);
    assert_eq!(OperatorParser::get_input_rows(op), None);

    let merged = OperatorParser::merge_metrics(op);
    assert_eq!(
        entries(&merged),
        vec![
            ("plan_Limit", "10"),
            ("ExecTime", "avg 1ms"),
            ("Inner", "2"),
            ("Innermost", "3"),
            ("Second", "4"),
            ("HalfStep", "5"),
            ("MemoryUsage", "sum 1"),
            ("Outdented", "6"),
            ("Deep", "7"),
            ("Late", "8"),
            ("A", "1"),
            ("B", "2"),
        ]
    );
}

#[test]
fn header_fields_are_merged_before_the_counters() {
    let text = lines(&[
        "FILE_SCAN_OPERATOR (id=20. nereids_id=1791. table name = web_sales):",
        "  CommonCounters:",
        "     - table_name: shadowed",
        "     - RowsProduced: sum 183.75K (183750), avg 3.828K (3828)",
        "     - InputRows: avg 7",
        "",
    ]);
    let operators = OperatorParser::extract_parsed_operators(&text);
    let op = &operators[0];
    assert_eq!(op.table_name.as_deref(), Some("web_sales"));
    assert_eq!(OperatorParser::get_rows_produced(op), Some(183_750));
    assert_eq!(OperatorParser::get_input_rows(op), Some(7));
    let listed = OperatorParser::extract_operators(&text);
    assert_eq!(listed[0].id, "20");
    assert_eq!(
        entries(&listed[0].metrics),
        vec![
            ("nereids_id", "1791"),
            ("table_name", "shadowed"),
            ("RowsProduced", "sum 183.75K (183750), avg 3.828K (3828)"),
            ("InputRows", "avg 7"),
        ]
    );
    let sink = OperatorParser::extract_operators("DATA_STREAM_SINK_OPERATOR(dest_id=25):\n");
    assert_eq!(sink[0].id, "-1");
    assert_eq!(entries(&sink[0].metrics), vec![("dest_id", "25")]);
    let local = OperatorParser::extract_operators("LOCAL_EXCHANGE_SINK_OPERATOR(HASH)(id=-3):\n");
    assert_eq!(local[0].name, "LOCAL_EXCHANGE_SINK_OPERATOR");
    assert_eq!(entries(&local[0].metrics), vec![("exchange_type", "HASH")]);
}

#[test]
fn operator_blocks_end_at_headers() {
    let text = lines(&[
        "   A_OPERATOR(id=1):",
        "      - Before: x",
        "     B_OPERATOR(id=2):",
        "",
        "   C_OPERATOR(id=3):",
        "        Pipeline 9 is no header but ends the block",
        "     - Lost: y",
        "  D_OPERATOR(id=4):",
        "      Fragment 7 ends it too",
        "  E_OPERATOR(id=5):",
    ]);
    let names: Vec<String> =
        OperatorParser::extract_parsed_operators(&text).into_iter().map(|o| o.name).collect();
    // B is nested deeper than A and belongs to its block
    assert_eq!(names, vec!["A_OPERATOR", "C_OPERATOR", "D_OPERATOR", "E_OPERATOR"]);
}

#[test]
fn pipeline_counters_stand_before_the_first_operator() {
    let text = lines(&[
        "Fragment 3:",
        "  Pipeline 0(instance_num=4):",
        "     - WaitWorkerTime: avg 18.605us",
        "     - : no key",
        "     - instance_num: overridden",
        "    SORT_OPERATOR(id=1):",
        "     - AfterOperator: ignored",
        "  Pipeline 1(instance_num=2):",
        "  stray line",
        "Pipeline 2(instance_num=1):",
        "",
    ]);
    let fragment = FragmentParser::parse_fragment(&text, "3").unwrap();
    assert_eq!(fragment.id, "Fragment 3");
    assert!(fragment.backend_addresses.is_empty() && fragment.instance_ids.is_empty());
    let ids: Vec<&str> = fragment.pipelines.iter().map(|p| p.id.as_str()).collect();
    assert_eq!(ids, vec!["Pipeline 0", "Pipeline 1", "Pipeline 2"]);
    assert_eq!(
        entries(&fragment.pipelines[0].metrics),
        vec![("instance_num", "overridden"), ("WaitWorkerTime", "avg 18.605us")]
    );
    assert_eq!(fragment.pipelines[0].operators.len(), 1);
    assert_eq!(
        fragment.pipelines[0].raw_text,
        "  Pipeline 0(instance_num=4):\n     - WaitWorkerTime: avg 18.605us\n     - : no key\n     - instance_num: overridden\n    SORT_OPERATOR(id=1):\n     - AfterOperator: ignored"
    );
    assert_eq!(entries(&fragment.pipelines[1].metrics), vec![("instance_num", "2")]);
    assert_eq!(fragment.pipelines[1].raw_text, "  Pipeline 1(instance_num=2):\n  stray line");
    assert!(fragment.pipelines[2].operators.is_empty());
}

#[test]
fn fragments_end_at_fragment_headers_that_are_indented_no_deeper() {
    let text = lines(&[
        "ignored Fragment 9:",
        "   Fragments:",
        "     Fragment 0:",
        "       Pipeline 0(instance_num=1):",
        "         Fragment 5:",
        "",
        "     Fragment 1:",
        "   Fragment 2:",
        "",
    ]);
    let fragments = FragmentParser::extract_all_fragments(&text);
    let ids: Vec<&str> = fragments.iter().map(|f| f.id.as_str()).collect();
    assert_eq!(ids, vec!["Fragment 0", "Fragment 1", "Fragment 2"]);
    // a header that is indented deeper ends neither the pipeline nor the fragment
    assert_eq!(fragments[0].pipelines.len(), 1);
    assert_eq!(
        fragments[0].pipelines[0].raw_text,
        "       Pipeline 0(instance_num=1):\n         Fragment 5:"
    );
    assert!(fragments[1].pipelines.is_empty());

    let without_marker = FragmentParser::extract_all_fragments("Fragment 4:\nFragment 5:");
    assert_eq!(without_marker.len(), 2);
    assert!(FragmentParser::extract_all_fragments("nothing here").is_empty());
    assert!(FragmentParser::extract_all_fragments("").is_empty());
}

#[test]
fn sections_run_to_the_next_marker_line() {
    let text = "Summary:\r\n  - A: 1\r\n  Execution Summary: indented\r\n- MergedProfile: metric\r\n[MergedProfile:\r\nChangedSessionVariables:\r\n[]\r\nMergedProfile:\r\nbody";
    assert_eq!(SectionParser::extract_section(text, "Summary:").unwrap(), "\r\n  - A: 1\r\n");
    assert_eq!(
        SectionParser::extract_section(text, "Execution Summary:").unwrap(),
        " indented\r\n- MergedProfile: metric\r\n[MergedProfile:\r\n"
    );
    assert_eq!(SectionParser::extract_section(text, "ChangedSessionVariables:").unwrap(), "\r\n[]\r\n");
    // the first occurrence of the marker counts, wherever it stands
    assert_eq!(SectionParser::extract_merged_profile(text).unwrap(), " metric\r\n[MergedProfile:\r\n");
    match SectionParser::extract_section(text, "Nowhere:") {
        Err(ParseError::MissingField(message)) => assert_eq!(message, "Nowhere: section"),
        other => panic!("expected MissingField, got {:?}", other),
    }
    assert_eq!(SectionParser::extract_section("x MergedProfile:", "MergedProfile:").unwrap(), "");
}

#[test]
fn summary_takes_the_known_keys() {
    let text = lines(&[
        "Summary:",
        "- Profile ID: q1",
        "   -  Total :  2sec5ms  ",
        "   - Task Type: QUERY",
        "   - Unknown Key: dropped",
        "   - Sql Statement: SELECT a: b",
        "Execution Summary:",
        "   - Task State: FROM EXECUTION",
        "- User: not indented",
        "   - Default Db: db1",
        "MergedProfile:",
        "   - Doris Version: not read",
        "",
    ]);
    let summary = SectionParser::parse_summary(&text).unwrap();
    assert_eq!(summary.query_id, "q1");
    assert_eq!(summary.total_time, "2sec5ms");
    assert_eq!(summary.total_time_ns, Some(2_005_000_000));
    assert_eq!(summary.query_type.as_deref(), Some("QUERY"));
    assert_eq!(summary.sql_statement, "SELECT a: b");
    assert_eq!(summary.query_state, "FROM EXECUTION");
    assert_eq!(summary.user, None);
    assert_eq!(summary.default_db.as_deref(), Some("db1"));
    assert_eq!(summary.doris_version, "");
    assert_eq!(summary.start_time, "");
    assert!(summary.variables.is_empty() && summary.session_variables.is_empty());
    assert_eq!(summary.query_peak_memory, None);

    let unreadable = SectionParser::parse_summary("Summary:\n - Total: soon\n").unwrap();
    assert_eq!(unreadable.total_time_ns, None);
    match SectionParser::parse_summary("no such section") {
        Err(ParseError::MissingField(message)) => assert_eq!(message, "Summary: section"),
        other => panic!("expected MissingField, got {:?}", other.map(|_| ())),
    }
}

#[test]
fn session_variables_are_the_first_balanced_bracket() {
    let vars = SectionParser::parse_session_variables(
        "ChangedSessionVariables: x [ {\"b\": \"2\", \"a\": \"[1]\"}, {} ] [ignored]",
    )
    .unwrap();
    assert_eq!(vars.len(), 2);
    assert_eq!(entries(&vars[0]), vec![("a", "[1]"), ("b", "2")]);
    assert!(vars[1].is_empty());
    assert_eq!(SectionParser::json_span("ChangedSessionVariables:[[1],[2]]]").unwrap(), "[[1],[2]]");
    assert_eq!(SectionParser::json_span("ChangedSessionVariables:[[1]").unwrap(), "");

    match SectionParser::parse_session_variables("Summary:") {
        Err(ParseError::MissingField(m)) => assert_eq!(m, "ChangedSessionVariables section"),
        other => panic!("expected MissingField, got {:?}", other.map(|_| ())),
    }
    match SectionParser::parse_session_variables("ChangedSessionVariables: none") {
        Err(ParseError::InvalidFormat(m)) => assert_eq!(m, "No JSON array found"),
        other => panic!("expected InvalidFormat, got {:?}", other.map(|_| ())),
    }
    for broken in ["ChangedSessionVariables: [", "ChangedSessionVariables: [1]", "ChangedSessionVariables: [{\"a\": 1}]"] {
        match SectionParser::parse_session_variables(broken) {
            Err(ParseError::InvalidFormat(m)) => assert!(m.starts_with("Failed to parse JSON: "), "{}", m),
            other => panic!("expected InvalidFormat, got {:?}", other.map(|_| ())),
        }
    }
    match SectionParser::decoded_session_variables(Err("boom".to_string())) {
        Err(ParseError::InvalidFormat(m)) => assert_eq!(m, "Failed to parse JSON: boom"),
        other => panic!("expected InvalidFormat, got {:?}", other.map(|_| ())),
    }
    assert_eq!(SectionParser::decoded_session_variables(Ok(vec![])).unwrap().len(), 0);
}

#[test]
fn a_profile_without_fragments_is_invalid() {
    let mut composer = ProfileComposer::new();
    match composer.parse("Summary:\n - Profile ID: q\nMergedProfile:\n  nothing\n") {
        Err(ParseError::InvalidFormat(message)) => assert_eq!(message, "No fragments found in profile"),
        other => panic!("expected InvalidFormat, got {:?}", other.map(|_| ())),
    }
    match composer.parse("MergedProfile:\n  Fragment 0:\n") {
        Err(ParseError::MissingField(message)) => assert_eq!(message, "Summary: section"),
        other => panic!("expected MissingField, got {:?}", other.map(|_| ())),
    }
    // unreadable session variables are left out, a fragment without pipelines is kept
    let profile = composer
        .parse("Summary:\n - Profile ID: q\nChangedSessionVariables:\n[oops\nMergedProfile:\n  Fragment 0:\n")
        .unwrap();
    assert!(profile.summary.session_variables.is_empty());
    assert_eq!(profile.fragments.len(), 1);
    let tree = profile.execution_tree.unwrap();
    assert!(tree.nodes.is_empty());
    assert_eq!(tree.root.id, "root");
    assert_eq!(ParseError::UnexpectedEof.message(), "Unexpected end of input");
    assert_eq!(ParseError::ParseValue("x".to_string()).message(), "Failed to parse value: x");
    assert_eq!(ParseError::InvalidFormat("x".to_string()).message(), "Invalid profile format: x");
    assert_eq!(ParseError::MissingField("x".to_string()).message(), "Missing required field: x");
}

#[test]
fn a_pipeline_is_written_back_as_text() {
    let text = lines(&[
        "Pipeline 4(instance_num=2):",
        "   - WaitWorkerTime: avg 1us",
        "  DATA_STREAM_SINK_OPERATOR(dest_id=25):",
        "    CommonCounters:",
        "      - ExecTime: avg 2us",
        "  LOCAL_EXCHANGE_OPERATOR(PASSTHROUGH)(id=-10):",
        "  SORT_OPERATOR(nereids_id=9)(id=3):",
        "  FILE_SCAN_OPERATOR (id=20. nereids_id=1791. table name = web_sales):",
        "  PLAIN_OPERATOR(id=7):",
        "    CustomCounters:",
        "      - Rows: 5",
        "",
    ]);
    let pipeline: Pipeline = FragmentParser::parse_single_pipeline(&text, "4", "2").unwrap();
    let written = TreeBuilder::reconstruct_pipeline_text(&pipeline);
    assert_eq!(
        written,
        lines(&[
        "Pipeline 4:",
        "   - instance_num: 2",
        "   - WaitWorkerTime: avg 1us",
        "   DATA_STREAM_SINK_OPERATOR(dest_id=25):",
        "     CommonCounters:",
        "        - ExecTime: avg 2us",
        "   LOCAL_EXCHANGE_OPERATOR(PASSTHROUGH)(id=-10):",
        "     CommonCounters:",
        "   SORT_OPERATOR(nereids_id=9)(id=3):",
        "     CommonCounters:",
        "   FILE_SCAN_OPERATOR(nereids_id=1791)(id=20, table name = web_sales):",
        "     CommonCounters:",
        "   PLAIN_OPERATOR(id=7):",
        "     CommonCounters:",
        "        - Rows: 5",
        "",
    ])
    );
    let again = OperatorParser::extract_operators(&written);
    let names: Vec<&str> = again.iter().map(|o| o.name.as_str()).collect();
    let before: Vec<&str> = pipeline.operators.iter().map(|o| o.name.as_str()).collect();
    assert_eq!(names, before);
}

#[test]
fn nodes_with_the_same_id_come_from_the_same_place() {
    let text = lines(&[
        "Summary:\n - Profile ID: q\nMergedProfile:",
        " Fragment 0:\n  Pipeline 0(instance_num=1):\n   A_OPERATOR(id=1):\n   B_OPERATOR(id=1):",
        "  Pipeline 1(instance_num=1):\n   A_OPERATOR(id=1):",
        " Fragment 1:\n  Pipeline 0(instance_num=1):\n   A_OPERATOR(id=1):\n   DATA_STREAM_SINK_OPERATOR(dest_id=1):",
        "",
    ]);
    let mut composer = ProfileComposer::new();
    let tree = composer.parse(&text).unwrap().execution_tree.unwrap();
    let ids: Vec<&str> = tree.nodes.iter().map(|n| n.id.as_str()).collect();
    assert_eq!(
        ids,
        vec![
            "Fragment 0-Pipeline 0-id1",
            "Fragment 0-Pipeline 0-id1",
            "Fragment 0-Pipeline 1-id1",
            "Fragment 1-Pipeline 0-id1",
            "Fragment 1-Pipeline 0-dest1",
        ]
    );
    for a in &tree.nodes {
        for b in &tree.nodes {
            if a.id == b.id {
                assert_eq!((&a.fragment_id, &a.pipeline_id, a.dest_id), (&b.fragment_id, &b.pipeline_id, b.dest_id));
                assert!(a.dest_id.is_some() || a.plan_node_id == b.plan_node_id);
            }
        }
    }
}
