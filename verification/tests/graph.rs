use doris_profile_analyzer::models::{
    ExecutionTreeNode, HotspotSeverity, NodeType, OperatorMetrics, ProfileSummary, StringMap,
};
use doris_profile_analyzer::parser::measures::severity;
use doris_profile_analyzer::parser::TreeBuilder;

fn node(id: &str, name: &str, fragment: &str, pipeline: &str, plan: i32) -> ExecutionTreeNode {
    ExecutionTreeNode {
        id: id.to_string(),
        operator_name: name.to_string(),
        node_type: NodeType::Unknown,
        plan_node_id: Some(plan),
        parent_plan_node_id: None,
        nereids_id: None,
        dest_id: None,
        metrics: OperatorMetrics::default(),
        children: vec![],
        depth: 0,
        is_hotspot: false,
        hotspot_severity: HotspotSeverity::Unset,
        fragment_id: Some(fragment.to_string()),
        pipeline_id: Some(pipeline.to_string()),
        table_name: None,
        time_percentage: None,
        is_most_consuming: false,
        is_second_most_consuming: false,
        unique_metrics: StringMap::new(),
        plan_info: vec![],
        common_counters: vec![],
        custom_counters: vec![],
    }
}

fn timed(mut n: ExecutionTreeNode, time: Option<u64>) -> ExecutionTreeNode {
    n.metrics.operator_total_time = time;
    n
}

fn children(nodes: &[ExecutionTreeNode], id: &str) -> Vec<String> {
    nodes.iter().find(|n| n.id == id).unwrap().children.clone()
}

#[test]
fn the_four_linking_rules() {
    let mut nodes = vec![
        node("result", "RESULT_SINK_OPERATOR", "Fragment 0", "Pipeline 0", 100),
        node("sort", "SORT_OPERATOR", "Fragment 0", "Pipeline 0", 7),
        node("exchange", "EXCHANGE_OPERATOR", "Fragment 0", "Pipeline 0", 25),
        node("sort-sink", "SORT_SINK_OPERATOR", "Fragment 0", "Pipeline 1", 7),
        node("agg", "AGGREGATION_OPERATOR", "Fragment 0", "Pipeline 1", 8),
        node("local", "LOCAL_EXCHANGE_OPERATOR", "Fragment 0", "Pipeline 1", -3),
        node("agg-sink", "STREAMING_AGG_SINK_OPERATOR", "Fragment 0", "Pipeline 2", 9),
        node("local-sink", "LOCAL_EXCHANGE_SINK_OPERATOR", "Fragment 0", "Pipeline 2", -3),
        node("stream", "DATA_STREAM_SINK_OPERATOR", "Fragment 1", "Pipeline 0", -1),
        node("scan", "OLAP_SCAN_OPERATOR", "Fragment 1", "Pipeline 0", 1),
        node("other-local-sink", "LOCAL_EXCHANGE_SINK_OPERATOR", "Fragment 1", "Pipeline 0", -3),
    ];
    nodes[4].nereids_id = Some(55);
    nodes[6].nereids_id = Some(55);
    nodes[8].dest_id = Some(25);

    TreeBuilder::connect_nodes(&mut nodes);

    assert_eq!(children(&nodes, "result"), vec!["sort"]);
    // the chain, then the sink of the same name and plan id in another pipeline
    assert_eq!(children(&nodes, "sort"), vec!["exchange", "sort-sink"]);
    // the chain ends here; the exchange pulls the sink that names it as destination
    assert_eq!(children(&nodes, "exchange"), vec!["stream"]);
    assert_eq!(children(&nodes, "sort-sink"), vec!["agg"]);
    // no sink by name; the sink with the same nereids id in another pipeline
    assert_eq!(children(&nodes, "agg"), vec!["local", "agg-sink"]);
    // the local exchange takes the sink of its own fragment only
    assert_eq!(children(&nodes, "local"), vec!["local-sink"]);
    assert_eq!(children(&nodes, "agg-sink"), vec!["local-sink"]);
    assert_eq!(children(&nodes, "local-sink"), Vec::<String>::new());
    assert_eq!(children(&nodes, "stream"), vec!["scan"]);
    assert_eq!(children(&nodes, "scan"), vec!["other-local-sink"]);

    let depth = |id: &str| nodes.iter().find(|n| n.id == id).unwrap().depth;
    assert_eq!(depth("result"), 0);
    assert_eq!(depth("sort"), 1);
    assert_eq!(depth("exchange"), 2);
    assert_eq!(depth("sort-sink"), 2);
    assert_eq!(depth("stream"), 3);
    assert_eq!(depth("agg"), 3);
    assert_eq!(depth("scan"), 4);
    assert_eq!(depth("local"), 4);
    assert_eq!(depth("agg-sink"), 4);
    // reached over two paths; the shorter one counts
    assert_eq!(depth("local-sink"), 5);
    assert_eq!(depth("other-local-sink"), 5);

    // named by the local exchange and by the sink before it in its pipeline
    assert_eq!(TreeBuilder::check_multiple_parents(&nodes), vec![7]);
}

#[test]
fn linking_keeps_what_was_there_and_adds_nothing_twice() {
    let mut nodes = vec![
        node("a", "X_OPERATOR", "Fragment 0", "Pipeline 0", 1),
        node("b", "X_SINK_OPERATOR", "Fragment 0", "Pipeline 1", 1),
    ];
    nodes[0].children = vec!["kept".to_string(), "b".to_string()];
    TreeBuilder::connect_nodes(&mut nodes);
    assert_eq!(children(&nodes, "a"), vec!["kept", "b"]);
    assert_eq!(children(&nodes, "b"), Vec::<String>::new());
}

#[test]
fn of_equal_keys_the_last_is_linked() {
    let mut nodes = vec![
        node("e1", "EXCHANGE_OPERATOR", "Fragment 0", "Pipeline 0", 5),
        node("s1", "DATA_STREAM_SINK_OPERATOR", "Fragment 1", "Pipeline 0", -1),
        node("e2", "EXCHANGE_OPERATOR", "Fragment 0", "Pipeline 1", 5),
        node("s2", "DATA_STREAM_SINK_OPERATOR", "Fragment 2", "Pipeline 0", -1),
    ];
    nodes[1].dest_id = Some(5);
    nodes[3].dest_id = Some(5);
    TreeBuilder::connect_nodes(&mut nodes);
    assert_eq!(children(&nodes, "e1"), Vec::<String>::new());
    assert_eq!(children(&nodes, "e2"), vec!["s2"]);
}

#[test]
fn unreached_nodes_keep_their_depth() {
    let mut nodes = vec![
        node("a", "A", "Fragment 0", "Pipeline 0", 1),
        node("b", "RESULT_SINK_OPERATOR", "Fragment 0", "Pipeline 1", 2),
        node("c", "C", "Fragment 0", "Pipeline 1", 3),
        node("d", "D", "Fragment 1", "Pipeline 0", 4),
    ];
    nodes[0].depth = 9;
    nodes[2].children = vec!["b".to_string(), "nowhere".to_string()];
    TreeBuilder::update_depths(&mut nodes);
    let depths: Vec<usize> = nodes.iter().map(|n| n.depth).collect();
    assert_eq!(depths, vec![9, 0, 0, 0]);
    nodes[1].children = vec!["c".to_string()];
    TreeBuilder::update_depths(&mut nodes);
    let depths: Vec<usize> = nodes.iter().map(|n| n.depth).collect();
    assert_eq!(depths, vec![9, 0, 1, 0]);
}

#[test]
fn of_equal_ids_the_last_is_the_child() {
    let mut nodes = vec![
        node("root", "RESULT_SINK_OPERATOR", "Fragment 0", "Pipeline 0", 1),
        node("twin", "A", "Fragment 0", "Pipeline 1", 2),
        node("twin", "B", "Fragment 0", "Pipeline 2", 3),
    ];
    nodes[0].children = vec!["twin".to_string()];
    TreeBuilder::update_depths(&mut nodes);
    let depths: Vec<usize> = nodes.iter().map(|n| n.depth).collect();
    assert_eq!(depths, vec![0, 0, 1]);
}

#[test]
fn root_is_chosen_in_order_of_preference() {
    let nodes = vec![
        node("a", "A", "Fragment 1", "Pipeline 0", 1),
        node("b", "B", "Fragment 0", "Pipeline 0", 2),
        node("c", "MY_RESULT_SINK_OPERATOR", "Fragment 2", "Pipeline 0", 3),
    ];
    assert_eq!(TreeBuilder::find_root_node(&nodes).id, "c");
    assert_eq!(TreeBuilder::find_root_node(&nodes[..2].to_vec()).id, "b");
    assert_eq!(TreeBuilder::find_root_node(&nodes[..1].to_vec()).id, "a");
    let placeholder = TreeBuilder::find_root_node(&vec![]);
    assert_eq!(placeholder.id, "root");
    assert_eq!(placeholder.operator_name, "UNKNOWN");
    assert_eq!(placeholder.node_type, NodeType::Unknown);
    assert!(placeholder.fragment_id.is_none() && placeholder.metrics.operator_total_time.is_none());
}

#[test]
fn severity_bounds_are_included() {
    assert_eq!(severity(50, 100), HotspotSeverity::Critical);
    assert_eq!(severity(499, 1000), HotspotSeverity::High);
    assert_eq!(severity(30, 100), HotspotSeverity::High);
    assert_eq!(severity(299, 1000), HotspotSeverity::Medium);
    assert_eq!(severity(15, 100), HotspotSeverity::Medium);
    assert_eq!(severity(149, 1000), HotspotSeverity::Low);
    assert_eq!(severity(5, 100), HotspotSeverity::Low);
    assert_eq!(severity(49, 1000), HotspotSeverity::Unset);
    assert_eq!(severity(0, 1), HotspotSeverity::Unset);
    assert_eq!(severity(u64::MAX, u128::MAX), HotspotSeverity::Unset);
    assert_eq!(severity(u64::MAX, 2 * (u64::MAX as u128)), HotspotSeverity::Critical);
}

#[test]
fn shares_and_top_consumers() {
    let summary = ProfileSummary::default();
    let mut nodes = vec![
        timed(node("a", "A", "Fragment 0", "Pipeline 0", 1), Some(10)),
        timed(node("b", "B", "Fragment 0", "Pipeline 0", 2), Some(60)),
        timed(node("c", "C", "Fragment 0", "Pipeline 0", 3), None),
        timed(node("d", "D", "Fragment 0", "Pipeline 0", 4), Some(60)),
        timed(node("e", "E", "Fragment 0", "Pipeline 0", 5), Some(70)),
    ];
    TreeBuilder::calculate_metrics(&mut nodes, &summary);
    let share = |i: usize| nodes[i].time_percentage.map(|s| (s.part, s.total));
    assert_eq!(share(0), Some((10, 200)));
    assert_eq!(share(1), Some((60, 200)));
    assert_eq!(share(2), None);
    assert_eq!(share(4), Some((70, 200)));
    let severities: Vec<HotspotSeverity> = nodes.iter().map(|n| n.hotspot_severity).collect();
    assert_eq!(
        severities,
        vec![
            HotspotSeverity::Low,
            HotspotSeverity::High,
            HotspotSeverity::Unset,
            HotspotSeverity::High,
            HotspotSeverity::High
        ]
    );
    let hot: Vec<bool> = nodes.iter().map(|n| n.is_hotspot).collect();
    assert_eq!(hot, vec![true, true, false, true, true]);
    let most: Vec<bool> = nodes.iter().map(|n| n.is_most_consuming).collect();
    assert_eq!(most, vec![false, false, false, false, true]);
    // of equal times the earlier node is counted first
    let second: Vec<bool> = nodes.iter().map(|n| n.is_second_most_consuming).collect();
    assert_eq!(second, vec![false, true, false, false, false]);
}

#[test]
fn nothing_is_measured_against_a_total_of_zero() {
    let summary = ProfileSummary::default();
    let mut nodes = vec![
        timed(node("a", "A", "Fragment 0", "Pipeline 0", 1), Some(0)),
        timed(node("b", "B", "Fragment 0", "Pipeline 0", 2), None),
        timed(node("c", "C", "Fragment 0", "Pipeline 0", 3), Some(0)),
    ];
    TreeBuilder::calculate_metrics(&mut nodes, &summary);
    for n in &nodes {
        assert!(n.time_percentage.is_none());
        assert!(!n.is_hotspot);
        assert_eq!(n.hotspot_severity, HotspotSeverity::Unset);
    }
    // the ranking does not wait for a total: of equal times the earliest come first
    let most: Vec<bool> = nodes.iter().map(|n| n.is_most_consuming).collect();
    assert_eq!(most, vec![true, false, false]);
    let second: Vec<bool> = nodes.iter().map(|n| n.is_second_most_consuming).collect();
    assert_eq!(second, vec![false, true, false]);
}

#[test]
fn a_single_node_is_the_greatest_consumer_and_has_no_second() {
    let summary = ProfileSummary::default();
    let mut nodes = vec![timed(node("a", "A", "Fragment 0", "Pipeline 0", 1), None)];
    TreeBuilder::calculate_metrics(&mut nodes, &summary);
    assert!(nodes[0].is_most_consuming && !nodes[0].is_second_most_consuming);
    assert!(nodes[0].time_percentage.is_none() && !nodes[0].is_hotspot);
    let mut none: Vec<ExecutionTreeNode> = vec![];
    TreeBuilder::calculate_metrics(&mut none, &summary);
    assert!(none.is_empty());
}

#[test]
fn node_types_whatever_the_case() {
    assert_eq!(TreeBuilder::determine_node_type("olap_scan_operator"), NodeType::OlapScan);
    assert_eq!(TreeBuilder::determine_node_type("Local_Exchange_Sink"), NodeType::Exchange);
    assert_eq!(TreeBuilder::determine_node_type("aggregate"), NodeType::Aggregate);
    assert_eq!(TreeBuilder::determine_node_type("TOP_LIMIT"), NodeType::Limit);
    assert_eq!(TreeBuilder::determine_node_type("project"), NodeType::Project);
    assert_eq!(TreeBuilder::determine_node_type("Filter"), NodeType::Filter);
    assert_eq!(TreeBuilder::determine_node_type("UNION_ALL"), NodeType::Union);
    assert_eq!(TreeBuilder::determine_node_type("data_stream_sink"), NodeType::DataStreamSink);
    assert_eq!(TreeBuilder::determine_node_type("STREAM_SINK"), NodeType::DataStreamSink);
    assert_eq!(TreeBuilder::determine_node_type("SORT_RESULT_SINK"), NodeType::Sort);
    assert_eq!(TreeBuilder::determine_node_type(""), NodeType::Unknown);
    assert_eq!(TreeBuilder::classify_upper("olap_scan"), NodeType::Unknown);
}

#[test]
fn test_determine_node_type() {
    assert_eq!(TreeBuilder::determine_node_type("OLAP_SCAN_OPERATOR"), NodeType::OlapScan);
    assert_eq!(TreeBuilder::determine_node_type("FILE_SCAN_OPERATOR"), NodeType::OlapScan);
    assert_eq!(TreeBuilder::determine_node_type("HASH_JOIN_OPERATOR"), NodeType::HashJoin);
    assert_eq!(TreeBuilder::determine_node_type("AGGREGATION_OPERATOR"), NodeType::Aggregate);
    assert_eq!(TreeBuilder::determine_node_type("SORT_OPERATOR"), NodeType::Sort);
    assert_eq!(TreeBuilder::determine_node_type("EXCHANGE_OPERATOR"), NodeType::Exchange);
    assert_eq!(TreeBuilder::determine_node_type("RESULT_SINK_OPERATOR"), NodeType::ResultSink);
}
