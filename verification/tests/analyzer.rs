use doris_profile_analyzer::ai::{default_language, system_message_for};
use doris_profile_analyzer::analyzer::suggestion_engine::AdviserOutcome;
use doris_profile_analyzer::config::{
    ConfigLoader, ContextConfig, DefaultSuggestionsConfig, SeveritySuggestions,
};
use doris_profile_analyzer::models::{
    ExecutionTree, ExecutionTreeNode, HotSpot, HotspotSeverity, MetricItem, NodeType,
    OperatorMetrics, Profile, ProfileSummary, StringMap, SuggestionCategory, SuggestionPriority,
    TimeShare,
};
use doris_profile_analyzer::{
    analyze_profile, analyze_profile_with_defaults, ContextBuilder, HotSpotDetector,
    SuggestionEngine,
};

fn node(id: &str, name: &str, share: Option<(u64, u128)>) -> ExecutionTreeNode {
    ExecutionTreeNode {
        id: id.to_string(),
        operator_name: name.to_string(),
        node_type: NodeType::OlapScan,
        plan_node_id: None,
        parent_plan_node_id: None,
        nereids_id: None,
        dest_id: None,
        metrics: OperatorMetrics::default(),
        children: vec![],
        depth: 0,
        is_hotspot: false,
        hotspot_severity: HotspotSeverity::Unset,
        fragment_id: None,
        pipeline_id: None,
        table_name: None,
        time_percentage: share.map(|(part, total)| TimeShare { part, total }),
        is_most_consuming: false,
        is_second_most_consuming: false,
        unique_metrics: StringMap::new(),
        plan_info: vec![],
        common_counters: vec![],
        custom_counters: vec![],
    }
}

fn create_test_profile() -> Profile {
    Profile {
        summary: ProfileSummary {
            query_id: "test-123".to_string(),
            total_time: "1s".to_string(),
            total_time_ns: Some(1_000_000_000),
            ..Default::default()
        },
        fragments: vec![],
        execution_tree: None,
    }
}

fn hotspot(name: &str, severity: HotspotSeverity, suggestion: Option<&str>) -> HotSpot {
    HotSpot {
        node_id: format!("id-{}", name),
        node_path: name.to_string(),
        operator_name: name.to_string(),
        severity,
        description: String::new(),
        impact: String::new(),
        time_percentage: None,
        suggestion: suggestion.map(|s| s.to_string()),
        suggestion_source: None,
    }
}

#[test]
fn test_severity_determination() {
    let node = node("test", "OLAP_SCAN", Some((60, 100)));
    let severity = HotSpotDetector::determine_severity(&node);
    assert_eq!(severity, HotspotSeverity::Critical);
}

#[test]
fn test_generate_conclusion_no_hotspots() {
    let profile = create_test_profile();
    let conclusion = SuggestionEngine::generate_conclusion(&[], &profile);
    assert!(conclusion.contains("no significant performance issues"));
}

#[test]
fn test_calculate_score_no_hotspots() {
    let profile = create_test_profile();
    let score = SuggestionEngine::calculate_performance_score(&[], &profile);
    assert!(score >= 90);
}

#[test]
fn test_score_category() {
    assert_eq!(SuggestionEngine::get_score_category(95), "Excellent");
    assert_eq!(SuggestionEngine::get_score_category(75), "Good");
    assert_eq!(SuggestionEngine::get_score_category(55), "Fair");
    assert_eq!(SuggestionEngine::get_score_category(35), "Poor");
    assert_eq!(SuggestionEngine::get_score_category(15), "Critical");
}

#[test]
fn test_basic_context_build() {
    let mut node = node("test-node", "TEST_OPERATOR", Some((50, 100)));
    node.plan_node_id = Some(1);
    node.metrics = OperatorMetrics {
        rows_returned: Some(1000),
        input_rows: None,
        operator_total_time: Some(1000000),
        operator_total_time_raw: Some("1ms".to_string()),
        memory_used: Some(0),
        cpu_time: None,
        wait_time: None,
    };
    node.fragment_id = Some("Fragment 0".to_string());
    node.pipeline_id = Some("Pipeline 0".to_string());

    let profile = Profile {
        summary: ProfileSummary {
            query_id: "test-query".to_string(),
            total_time: "1s".to_string(),
            query_state: "OK".to_string(),
            ..Default::default()
        },
        fragments: vec![],
        execution_tree: None,
    };

    let config = ContextConfig {
        sql_statement: false,
        query_summary: true,
        child_nodes: false,
        max_child_nodes: 3,
    };

    let context = ContextBuilder::build_context(&node, &profile, &config);

    assert!(context.contains("TEST_OPERATOR"));
    assert!(context.contains("50.00%"));
    assert!(context.contains("test-query"));
}

#[test]
fn context_is_written_in_full() {
    let mut subject = node("n1", "SORT_OPERATOR", Some((1, 3)));
    subject.node_type = NodeType::Sort;
    subject.plan_node_id = Some(-7);
    subject.metrics.operator_total_time = Some(1_234_567);
    subject.metrics.memory_used = Some(1_572_864);
    subject.children = vec!["c1".to_string(), "missing".to_string(), "c2".to_string()];
    subject.common_counters = vec![MetricItem {
        key: "ExecTime".to_string(),
        value: "avg 1ms".to_string(),
        children: vec![MetricItem {
            key: "Inner".to_string(),
            value: "2".to_string(),
            children: vec![],
        }],
    }];
    let mut child = node("c1", "SCAN", Some((2, 3)));
    child.metrics.rows_returned = Some(9);
    let profile = Profile {
        summary: ProfileSummary {
            query_id: "q".to_string(),
            total_time: "2s".to_string(),
            query_state: "OK".to_string(),
            sql_statement: "SELECT 1".to_string(),
            user: Some("root".to_string()),
            ..Default::default()
        },
        fragments: vec![],
        execution_tree: Some(ExecutionTree {
            root: node("n1", "SORT_OPERATOR", None),
            nodes: vec![node("n1", "SORT_OPERATOR", None), child, node("c2", "X", None)],
        }),
    };
    let config = ContextConfig {
        sql_statement: true,
        query_summary: true,
        child_nodes: true,
        max_child_nodes: 2,
    };
    let expected = "## 节点信息\n- 操作符: SORT_OPERATOR\n- 节点类型: Sort\n- 计划节点ID: -7\n\
- 执行时间占比: 33.33%\n\n## 性能指标\n- 执行时间: 1.23ms\n- 内存使用: 1.50MB\n\
\n## 通用指标 (Common Counters)\n- ExecTime: avg 1ms\n  - Inner: 2\n\
\n## SQL 语句\n```sql\nSELECT 1\n```\n\
\n## 查询概要\n- Query ID: q\n- 总执行时间: 2s\n- 查询状态: OK\n- 用户: root\n\
\n## 子节点信息\n该节点有 3 个子节点，以下显示前 2 个：\n\
\n### 子节点 1\n- 操作符: SCAN\n- 执行时间占比: 66.67%\n- 返回行数: 9\n";
    assert_eq!(ContextBuilder::build_context(&subject, &profile, &config), expected);
}

#[test]
fn metrics_are_appended_with_their_nesting() {
    let item = MetricItem {
        key: "A".to_string(),
        value: "1".to_string(),
        children: vec![MetricItem {
            key: "B".to_string(),
            value: "2".to_string(),
            children: vec![MetricItem { key: "C".to_string(), value: "3".to_string(), children: vec![] }],
        }],
    };
    let mut text = String::from(">");
    ContextBuilder::append_metric_recursive(&mut text, &item, 1);
    assert_eq!(text, ">  - A: 1\n    - B: 2\n      - C: 3\n");
    let mut text = String::new();
    ContextBuilder::append_metrics(&mut text, &vec![item]);
    assert_eq!(text, "- A: 1\n  - B: 2\n    - C: 3\n");
}

#[test]
fn hotspots_come_most_severe_first() {
    let mut profile = create_test_profile();
    let mut flagged = node("n5", "E", None);
    flagged.hotspot_severity = HotspotSeverity::High;
    profile.execution_tree = Some(ExecutionTree {
        root: node("n0", "A", None),
        nodes: vec![
            node("n0", "A", Some((4, 100))),
            node("n1", "B", Some((5, 100))),
            node("n2", "C", Some((30, 100))),
            node("n3", "D", Some((50, 100))),
            node("n4", "B2", Some((14, 100))),
            flagged,
            node("n6", "F", Some((15, 100))),
            node("n7", "G", None),
        ],
    });
    let hotspots = HotSpotDetector::analyze(&profile);
    let ids: Vec<&str> = hotspots.iter().map(|h| h.node_id.as_str()).collect();
    assert_eq!(ids, vec!["n3", "n2", "n5", "n6", "n1", "n4"]);
    let severities: Vec<HotspotSeverity> = hotspots.iter().map(|h| h.severity).collect();
    assert_eq!(
        severities,
        vec![
            HotspotSeverity::Critical,
            HotspotSeverity::High,
            HotspotSeverity::High,
            HotspotSeverity::Medium,
            HotspotSeverity::Low,
            HotspotSeverity::Low
        ]
    );
    assert_eq!(hotspots[0].description, "D operator consuming 50.0% of total execution time");
    assert_eq!(hotspots[2].description, "E operator consuming N/A of total execution time");
    for h in &hotspots {
        assert!(HotSpotDetector::severity_rank(&h.severity) > 0);
    }
}

#[test]
fn percent_is_rounded_to_one_decimal() {
    let share = |part, total| Some(TimeShare { part, total });
    assert_eq!(HotSpotDetector::percent(&share(1, 3)), "33.3%");
    assert_eq!(HotSpotDetector::percent(&share(2, 3)), "66.7%");
    assert_eq!(HotSpotDetector::percent(&share(1, 2000)), "0.1%");
    assert_eq!(HotSpotDetector::percent(&share(1, 2001)), "0.0%");
    assert_eq!(HotSpotDetector::percent(&share(7, 7)), "100.0%");
    assert_eq!(HotSpotDetector::percent(&share(7, 0)), "N/A");
    assert_eq!(HotSpotDetector::percent(&None), "N/A");
}

#[test]
fn node_path_names_fragment_pipeline_and_plan_node() {
    let mut n = node("x", "SORT_OPERATOR", None);
    assert_eq!(HotSpotDetector::build_node_path(&n), "SORT_OPERATOR");
    n.fragment_id = Some("Fragment 1".to_string());
    n.pipeline_id = Some("Pipeline 2".to_string());
    n.plan_node_id = Some(28);
    assert_eq!(
        HotSpotDetector::build_node_path(&n),
        "Fragment 1 > Pipeline 2 > SORT_OPERATOR (Plan Node 28)"
    );
}

fn suggestions_config() -> DefaultSuggestionsConfig {
    let entry = |prefix: &str| SeveritySuggestions {
        critical: vec![format!("{}-c1", prefix), format!("{}-c2", prefix)],
        high: vec![format!("{}-h", prefix)],
        medium: vec![],
        low: vec![format!("{}-l", prefix)],
    };
    DefaultSuggestionsConfig {
        suggestions: vec![("SCAN".to_string(), entry("scan")), ("DEFAULT".to_string(), entry("any"))],
    }
}

#[test]
fn default_suggestion_falls_back_to_the_default_entry() {
    let config = suggestions_config();
    let get = |name: &str, s: HotspotSeverity| SuggestionEngine::get_default_suggestion(name, &s, &config);
    assert_eq!(get("SCAN", HotspotSeverity::Critical), "scan-c1\nscan-c2");
    assert_eq!(get("SCAN", HotspotSeverity::High), "scan-h");
    assert_eq!(get("SCAN", HotspotSeverity::Medium), "暂无优化建议");
    assert_eq!(get("SORT", HotspotSeverity::Low), "any-l");
    assert_eq!(get("SORT", HotspotSeverity::Unset), "暂无优化建议");
    let nothing = DefaultSuggestionsConfig { suggestions: vec![] };
    assert_eq!(
        SuggestionEngine::get_default_suggestion("SORT", &HotspotSeverity::High, &nothing),
        "暂无优化建议"
    );
}

#[test]
fn suggestion_follows_the_adviser() {
    let config = suggestions_config();
    let mut h = hotspot("SCAN", HotspotSeverity::High, None);
    SuggestionEngine::apply_suggestion(&mut h, AdviserOutcome::Suggested("do this".to_string()), &config);
    assert_eq!(h.suggestion.as_deref(), Some("do this"));
    assert_eq!(h.suggestion_source.as_deref(), Some("ai"));
    SuggestionEngine::apply_suggestion(&mut h, AdviserOutcome::Failed("timeout".to_string()), &config);
    assert_eq!(h.suggestion.as_deref(), Some("scan-h"));
    assert_eq!(h.suggestion_source.as_deref(), Some("AI Suggestion failed: timeout"));
    SuggestionEngine::apply_suggestion(&mut h, AdviserOutcome::Unavailable, &config);
    assert_eq!(h.suggestion_source.as_deref(), Some("AI Suggestion is not enabled"));
}

#[test]
fn conclusion_counts_the_hotspots() {
    let profile = create_test_profile();
    let none: Vec<HotSpot> = vec![];
    assert_eq!(
        SuggestionEngine::generate_conclusion(&none, &profile),
        "Query completed in 1s with no significant performance issues detected."
    );
    let critical = vec![
        hotspot("A", HotspotSeverity::Critical, None),
        hotspot("B", HotspotSeverity::High, None),
        hotspot("C", HotspotSeverity::Critical, None),
    ];
    assert_eq!(
        SuggestionEngine::generate_conclusion(&critical, &profile),
        "Query completed in 1s with 2 critical performance bottleneck(s) and 3 total issue(s) detected. Immediate attention recommended."
    );
    let high = vec![hotspot("B", HotspotSeverity::High, None), hotspot("C", HotspotSeverity::Low, None)];
    assert_eq!(
        SuggestionEngine::generate_conclusion(&high, &profile),
        "Query completed in 1s with 1 high-severity issue(s) and 2 total issue(s) detected. Optimization recommended."
    );
    let minor = vec![hotspot("C", HotspotSeverity::Low, None)];
    assert_eq!(
        SuggestionEngine::generate_conclusion(&minor, &profile),
        "Query completed in 1s with 1 minor performance issue(s) detected."
    );
}

#[test]
fn score_takes_off_for_hotspots_and_time() {
    let mut profile = create_test_profile();
    let hs = vec![
        hotspot("A", HotspotSeverity::Critical, None),
        hotspot("B", HotspotSeverity::High, None),
        hotspot("C", HotspotSeverity::Medium, None),
        hotspot("D", HotspotSeverity::Low, None),
    ];
    assert_eq!(SuggestionEngine::calculate_performance_score(&hs, &profile), 35);
    profile.summary.total_time_ns = Some(5_000_000_001);
    assert_eq!(SuggestionEngine::calculate_performance_score(&hs, &profile), 30);
    profile.summary.total_time_ns = Some(5_000_000_000);
    assert_eq!(SuggestionEngine::calculate_performance_score(&hs, &profile), 35);
    profile.summary.total_time_ns = Some(10_000_000_001);
    assert_eq!(SuggestionEngine::calculate_performance_score(&hs, &profile), 25);
    profile.summary.total_time_ns = Some(60_000_000_001);
    assert_eq!(SuggestionEngine::calculate_performance_score(&hs, &profile), 20);
    let many: Vec<HotSpot> = (0..5).map(|_| hotspot("A", HotspotSeverity::Critical, None)).collect();
    assert_eq!(SuggestionEngine::calculate_performance_score(&many, &profile), 0);
}

#[test]
fn suggestions_come_most_urgent_first_and_once_for_each_kind() {
    let hs = vec![
        hotspot("A_SCAN", HotspotSeverity::Low, Some("low scan")),
        hotspot("B_JOIN", HotspotSeverity::Critical, Some("critical join")),
        hotspot("A_SCAN", HotspotSeverity::Low, Some("again")),
        hotspot("C_EXCHANGE", HotspotSeverity::Medium, Some("medium exchange")),
        hotspot("D", HotspotSeverity::High, None),
    ];
    let suggestions = SuggestionEngine::generate_suggestions(&hs);
    let titles: Vec<&str> = suggestions.iter().map(|s| s.title.as_str()).collect();
    assert_eq!(
        titles,
        vec![
            "Optimize B_JOIN operator",
            "Optimize C_EXCHANGE operator",
            "Consider query restructuring",
            "Optimize A_SCAN operator"
        ]
    );
    assert_eq!(suggestions[0].priority, SuggestionPriority::Critical);
    assert_eq!(suggestions[0].category, SuggestionCategory::Query);
    assert_eq!(suggestions[1].category, SuggestionCategory::Configuration);
    assert_eq!(suggestions[3].category, SuggestionCategory::Schema);
    assert_eq!(suggestions[3].description, "low scan");
    assert_eq!(SuggestionEngine::priority_rank(&suggestions[0].priority), 4);
    assert_eq!(SuggestionEngine::priority_rank(&suggestions[3].priority), 1);
    let (priority, category) = SuggestionEngine::categorize_suggestion(&hs[4]);
    assert_eq!(priority, SuggestionPriority::High);
    assert_eq!(category, SuggestionCategory::Query);
}

#[test]
fn wording_follows_the_language() {
    assert_eq!(default_language(), "en");
    assert!(system_message_for("zh").contains("in Chinese"));
    assert!(system_message_for("chinese").contains("in Chinese"));
    assert!(system_message_for("en").contains("in English"));
    assert!(system_message_for("ZH").contains("in English"));
    let prompt = ConfigLoader::default_prompt_config();
    assert_eq!(prompt.system_message, "You are an expert Doris database performance analyst.");
    assert!(prompt.include_context.sql_statement && prompt.include_context.query_summary);
    assert!(prompt.include_context.child_nodes);
    assert_eq!(prompt.include_context.max_child_nodes, 3);
}

const SMALL_PROFILE: &str = "Summary:\n   - Profile ID: q-7\n   - Total: 12sec0ms\n   - Task State: OK\n\
MergedProfile:\n  Fragment 0:\n    Pipeline 0(instance_num=1):\n      RESULT_SINK_OPERATOR(id=1):\n        CommonCounters:\n          - ExecTime: avg 10ms\n      OLAP_SCAN_OPERATOR(id=2):\n        CommonCounters:\n          - ExecTime: avg 90ms\n";

#[test]
fn analysis_of_a_document() {
    let response = analyze_profile(SMALL_PROFILE).unwrap();
    assert_eq!(response.hotspots.len(), 2);
    assert_eq!(response.hotspots[0].operator_name, "OLAP_SCAN_OPERATOR");
    assert_eq!(response.hotspots[0].severity, HotspotSeverity::Critical);
    assert_eq!(response.hotspots[0].description, "OLAP_SCAN_OPERATOR operator consuming 90.0% of total execution time");
    assert_eq!(response.hotspots[0].node_path, "Fragment 0 > Pipeline 0 > OLAP_SCAN_OPERATOR (Plan Node 2)");
    assert_eq!(response.hotspots[1].severity, HotspotSeverity::Low);
    assert_eq!(response.performance_score, 100 - 30 - 5 - 10);
    assert!(response.suggestions.is_empty());
    assert_eq!(response.summary.unwrap().query_id, "q-7");
    assert_eq!(response.execution_tree.unwrap().nodes.len(), 2);
    assert!(analyze_profile("  ").is_err());

    let config = suggestions_config();
    let response = analyze_profile_with_defaults(SMALL_PROFILE, &config).unwrap();
    assert_eq!(response.hotspots[0].suggestion.as_deref(), Some("any-c1\nany-c2"));
    assert_eq!(response.hotspots[1].suggestion.as_deref(), Some("any-l"));
    assert_eq!(response.suggestions.len(), 2);
    assert_eq!(response.suggestions[0].title, "Optimize OLAP_SCAN_OPERATOR operator");
    assert_eq!(response.suggestions[0].category, SuggestionCategory::Schema);
}

#[test]
fn advice_on_one_node() {
    let config = suggestions_config();
    let mut profile = create_test_profile();
    let hotspots = vec![hotspot("SCAN", HotspotSeverity::High, None)];
    let diagnose = |profile: &Profile, id: &str, outcome: AdviserOutcome| {
        SuggestionEngine::diagnose(profile, &hotspots, id, outcome, &config)
    };
    assert_eq!(
        diagnose(&profile, "id-SCAN", AdviserOutcome::Unavailable),
        Err("No execution tree found".to_string())
    );
    profile.execution_tree = Some(ExecutionTree {
        root: node("id-SCAN", "SCAN", None),
        nodes: vec![node("id-SCAN", "SCAN", None), node("cold", "SORT", None)],
    });
    assert_eq!(
        diagnose(&profile, "nowhere", AdviserOutcome::Suggested("x".to_string())),
        Err("Node nowhere not found".to_string())
    );
    assert_eq!(
        diagnose(&profile, "cold", AdviserOutcome::Suggested("x".to_string())),
        Ok(("x".to_string(), "ai".to_string()))
    );
    assert_eq!(
        diagnose(&profile, "cold", AdviserOutcome::Unavailable),
        Err("Hotspot for node cold not found".to_string())
    );
    for outcome in [AdviserOutcome::Unavailable, AdviserOutcome::Failed("late".to_string())] {
        assert_eq!(
            diagnose(&profile, "id-SCAN", outcome),
            Ok(("scan-h".to_string(), "AI Suggestion is not enabled".to_string()))
        );
    }
}
