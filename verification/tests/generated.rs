//! Documents made up from a fixed vocabulary: parsing them twice gives the
//! same, and what the graph builder promises holds of each.

use doris_profile_analyzer::models::{HotspotSeverity, Profile};
use doris_profile_analyzer::parser::measures::severity;
use doris_profile_analyzer::parser::ProfileComposer;
use doris_profile_analyzer::{analyze_profile, HotSpotDetector};

const PIECES: &[&str] = &[
    "Summary:",
    "Execution Summary:",
    "ChangedSessionVariables:",
    "MergedProfile:",
    "Fragments:",
    "Fragment 0:",
    "Fragment 1:",
    "Fragment 12:",
    "Pipeline 0(instance_num=1):",
    "Pipeline 1(instance_num=48):",
    "RESULT_SINK_OPERATOR(id=2147483647):",
    "SORT_OPERATOR(nereids_id=1966)(id=28):",
    "SORT_SINK_OPERATOR(nereids_id=1966)(id=28):",
    "AGGREGATION_OPERATOR(nereids_id=7)(id=3):",
    "AGGREGATION_SINK_OPERATOR(nereids_id=7)(id=4):",
    "DATA_STREAM_SINK_OPERATOR(dest_id=25):",
    "DATA_STREAM_SINK_OPERATOR(dest_id=3):",
    "EXCHANGE_OPERATOR(id=25):",
    "EXCHANGE_OPERATOR(id=3):",
    "LOCAL_EXCHANGE_OPERATOR(PASSTHROUGH)(id=-10):",
    "LOCAL_EXCHANGE_SINK_OPERATOR(PASSTHROUGH)(id=-10):",
    "FILE_SCAN_OPERATOR (id=20. nereids_id=1791. table name = web_sales):",
    "CommonCounters:",
    "CustomCounters:",
    "- PlanInfo",
    "RuntimeFilterInfo:",
    "- ExecTime: avg 95.241us, max 95.241us, min 95.241us",
    "- ExecTime: avg 683.359ms, max 807.567ms",
    "- ExecTime: avg 0ns",
    "- ExecTime: soon",
    "- RowsProduced: sum 183.75K (183750), avg 3.828K (3828)",
    "- InputRows: sum 1, avg 1, max 1, min 1",
    "- MemoryUsagePeak: sum 1.40 GB, avg 4.00 KB",
    "- Profile ID: q-1",
    "- Total: 1sec240ms",
    "- Task State: OK",
    "[{\"VarName\": \"enable_profile\", \"CurrentValue\": \"true\"}]",
    "[[]",
    "",
    "stray text: with, commas (and) [brackets]",
];

struct Dice(u64);

impl Dice {
    fn roll(&mut self, sides: usize) -> usize {
        self.0 = self.0.wrapping_mul(6364136223846793005).wrapping_add(1442695040888963407);
        ((self.0 >> 33) as usize) % sides
    }
}

fn document(dice: &mut Dice) -> String {
    let mut text = String::new();
    let lines = dice.roll(60);
    for _ in 0..lines {
        for _ in 0..dice.roll(12) {
            text.push(' ');
        }
        text.push_str(PIECES[dice.roll(PIECES.len())]);
        text.push_str(if dice.roll(7) == 0 { "\r\n" } else { "\n" });
    }
    text
}

fn check(profile: &Profile) {
    assert!(!profile.fragments.is_empty());
    let tree = profile.execution_tree.as_ref().unwrap();
    let operators: usize = profile
        .fragments
        .iter()
        .flat_map(|f| f.pipelines.iter())
        .map(|p| p.operators.len())
        .sum();
    assert_eq!(tree.nodes.len(), operators);
    let total: u128 = tree.nodes.iter().filter_map(|n| n.metrics.operator_total_time).map(u128::from).sum();
    let mut most = 0;
    let mut second = 0;
    for node in &tree.nodes {
        match (node.metrics.operator_total_time, node.time_percentage) {
            (Some(time), Some(share)) => {
                assert!(total > 0);
                assert_eq!((share.part, share.total), (time, total));
                assert_eq!(node.hotspot_severity, severity(time, total));
            }
            (_, None) => {
                assert!(total == 0 || node.metrics.operator_total_time.is_none());
                assert_eq!(node.hotspot_severity, HotspotSeverity::Unset);
            }
            (None, Some(_)) => panic!("a share without a time"),
        }
        assert_eq!(node.is_hotspot, node.hotspot_severity != HotspotSeverity::Unset);
        most += node.is_most_consuming as usize;
        second += node.is_second_most_consuming as usize;
        let place = format!("{}-{}-", node.fragment_id.as_deref().unwrap(), node.pipeline_id.as_deref().unwrap());
        assert!(node.id.starts_with(&place));
        for other in &tree.nodes {
            if other.id == node.id {
                assert_eq!((&other.fragment_id, &other.pipeline_id), (&node.fragment_id, &node.pipeline_id));
            }
        }
    }
    assert_eq!(most, !tree.nodes.is_empty() as usize);
    assert_eq!(second, (tree.nodes.len() > 1) as usize);
    if let Some(first) = tree.nodes.iter().find(|n| n.operator_name.contains("RESULT_SINK")) {
        assert_eq!(tree.root.id, first.id);
    }
    if tree.nodes.is_empty() {
        assert_eq!(tree.root.id, "root");
    } else {
        assert_eq!(tree.root.depth, 0);
        for node in &tree.nodes {
            assert!(node.depth < tree.nodes.len());
        }
    }
    let hotspots = HotSpotDetector::analyze(profile);
    let ranks: Vec<u8> = hotspots.iter().map(|h| HotSpotDetector::severity_rank(&h.severity)).collect();
    assert!(ranks.windows(2).all(|w| w[0] >= w[1]));
    assert!(ranks.iter().all(|r| *r > 0));
}

#[test]
fn generated_documents_are_parsed_alike_and_soundly() {
    let mut dice = Dice(2024);
    let mut parsed = 0;
    for _ in 0..600 {
        let text = document(&mut dice);
        let mut composer = ProfileComposer::new();
        let first = composer.parse(&text);
        let second = composer.parse(&text);
        assert_eq!(format!("{:?}", first), format!("{:?}", second));
        if let Ok(profile) = &first {
            parsed += 1;
            check(profile);
            let analysis = analyze_profile(&text).unwrap();
            assert!(analysis.performance_score <= 100);
        }
    }
    assert!(parsed > 0);
}

#[test]
fn well_formed_generated_documents_are_parsed() {
    let mut dice = Dice(7);
    for _ in 0..200 {
        let mut text = String::from("Summary:\n  - Profile ID: q\n  - Total: 5sec0ms\nMergedProfile:\n Fragments:\n");
        for f in 0..1 + dice.roll(3) {
            text.push_str(&format!("  Fragment {}:\n", f));
            for p in 0..dice.roll(4) {
                text.push_str(&format!("   Pipeline {}(instance_num=1):\n", p));
                for _ in 0..dice.roll(5) {
                    let header = 10 + dice.roll(12);
                    text.push_str("     ");
                    text.push_str(PIECES[header]);
                    text.push_str("\n      CommonCounters:\n");
                    text.push_str("       ");
                    text.push_str(PIECES[26 + dice.roll(4)]);
                    text.push('\n');
                }
            }
        }
        let mut composer = ProfileComposer::new();
        let profile = composer.parse(&text).unwrap();
        check(&profile);
    }
}
