//! The hand-written recognisers against the regular expressions that
//! describe the same grammar, on a corpus of lines.

use doris_profile_analyzer::parser::operator_parser::read_metric;
use doris_profile_analyzer::parser::value_parser::ValueParser;
use doris_profile_analyzer::parser::{FragmentParser, OperatorParser};
use regex::Regex;

const LINES: &[&str] = &[
    "",
    "   ",
    "Fragment 0:",
    "       Fragment 12:   ",
    "Fragment  7: trailing",
    "Fragment:",
    "Fragment x:",
    "Fragment 3",
    "Fragments:",
    "xFragment 1:",
    "Pipeline 0(instance_num=1):",
    "         Pipeline 3(instance_num=48):",
    "Pipeline 3 (instance_num=48):",
    "Pipeline 3(instance_num=):",
    "Pipeline 3(instance_num=4)",
    "Pipeline\t9(instance_num=2): rest",
    "RESULT_SINK_OPERATOR(id=2147483647):",
    "SORT_OPERATOR(nereids_id=1966)(id=28):",
    "SORT_OPERATOR(nereids_id=1966) (id=28):",
    "SORT_OPERATOR (nereids_id=1966)(id=28):",
    "SORT_OPERATOR(nereids_id=)(id=28):",
    "SORT_OPERATOR(nereids_id=19(id=28):",
    "FILE_SCAN_OPERATOR (id=20. nereids_id=1791. table name = web_sales):",
    "FILE_SCAN_OPERATOR (id=20.nereids_id=1791):",
    "FILE_SCAN_OPERATOR (id=20 nereids_id=1791):",
    "FILE_SCAN_OPERATOR (id=-4):",
    "FILE_SCAN_OPERATOR  (id=):",
    "DATA_STREAM_SINK_OPERATOR(dest_id=25):",
    "  prefix DATA_STREAM_SINK_OPERATOR(dest_id=25) suffix",
    "DATA_STREAM_SINK_OPERATOR(dest_id=):",
    "DATA_STREAM_SINK_OPERATOR(dest_id=25:",
    "DATA_STREAM_SINK_OPERATOR(id=3):",
    "LOCAL_EXCHANGE_OPERATOR(PASSTHROUGH)(id=-10):",
    "LOCAL_EXCHANGE_SINK_OPERATOR(HASH_SHUFFLE)(id=-10):",
    "LOCAL_EXCHANGE_OPERATOR(passthrough)(id=-10):",
    "LOCAL_EXCHANGE_OPERATOR()(id=-10):",
    "LOCAL_EXCHANGE_OPERATOR(PASSTHROUGH)(id=-10:",
    "LOCAL_EXCHANGE_OPERATOR(id=4):",
    "A(id=1)",
    "A1_B(id=-1)",
    "a(id=1)",
    "1A(id=1)",
    "_A(id=1)",
    "A(id=-)",
    "A(id=x)",
    "A (id=1",
    "A\u{a0}(id=1)",
    "AB CD(id=1)",
    "OPERATOR",
    "- ExecTime: avg 95.241us",
    "  - ExecTime: avg 95.241us, max 1ms  ",
    "-ExecTime: 1",
    "- : value",
    "-  : value",
    "- Key:",
    "- Key",
    "- a:b:c",
    "-\tTabbed:\tvalue",
    "- PlanInfo",
    "CommonCounters:",
    "CustomCounters:",
    "RuntimeFilterInfo: x",
    "- X(id=1): y",
];

#[test]
fn fragment_headers_match_the_pattern() {
    let pattern = Regex::new(r"^\s*Fragment\s+(\d+):").unwrap();
    for line in LINES {
        let expected = pattern.captures(line.trim()).map(|c| c.get(1).unwrap().as_str().to_string());
        assert_eq!(FragmentParser::fragment_header_id(line), expected, "line {:?}", line);
    }
}

#[test]
fn pipeline_headers_match_the_pattern() {
    let pattern = Regex::new(r"^\s*Pipeline\s+(\d+)\(instance_num=(\d+)\):").unwrap();
    for line in LINES {
        let expected = pattern.captures(line.trim()).map(|c| {
            (c.get(1).unwrap().as_str().to_string(), c.get(2).unwrap().as_str().to_string())
        });
        assert_eq!(FragmentParser::pipeline_header_ids(line), expected, "line {:?}", line);
    }
}

#[test]
fn metric_lines_match_the_pattern() {
    let pattern = Regex::new(r"^\s*-\s+([^:]+):\s*(.*)$").unwrap();
    for line in LINES {
        let expected = pattern.captures(line.trim()).map(|c| {
            (
                c.get(1).unwrap().as_str().trim().to_string(),
                c.get(2).unwrap().as_str().trim().to_string(),
            )
        });
        let chars: Vec<char> = line.chars().collect();
        assert_eq!(read_metric(&chars), expected, "line {:?}", line);
    }
}

#[test]
fn operator_headers_match_the_patterns() {
    let standard =
        Regex::new(r"^\s*([A-Z][A-Z0-9_]*(?:_OPERATOR)?)\s*(?:\(nereids_id=(\d+)\))?\s*\(id=(-?\d+)")
            .unwrap();
    let dotted =
        Regex::new(r"^\s*([A-Z][A-Z0-9_]*(?:_OPERATOR)?)\s+\(id=(-?\d+)\.?\s*(?:nereids_id=(\d+))?")
            .unwrap();
    let sink = Regex::new(r"DATA_STREAM_SINK_OPERATOR\(dest_id=(\d+)\)").unwrap();
    let local = Regex::new(r"LOCAL_EXCHANGE_(?:SINK_)?OPERATOR\(([A-Z_]+)\)\(id=(-?\d+)\)").unwrap();
    let number = |m: Option<regex::Match>| m.and_then(|m| m.as_str().parse::<i32>().ok());
    for line in LINES {
        let t = line.trim();
        let named = standard.is_match(t) || dotted.is_match(t);
        let any = named || sink.is_match(t) || local.is_match(t);
        let barred = t.starts_with('-')
            || t.starts_with("CommonCounters")
            || t.starts_with("CustomCounters")
            || t.starts_with("RuntimeFilterInfo");
        assert_eq!(OperatorParser::is_operator_header(line), any && !barred, "line {:?}", line);

        let header = OperatorParser::parse_header(line);
        assert_eq!(header.is_some(), any, "line {:?}", line);
        let Some(header) = header else { continue };
        let t = t.trim_end_matches(':');
        if let Some(c) = sink.captures(t) {
            assert_eq!(header.name, "DATA_STREAM_SINK_OPERATOR");
            assert_eq!(header.id, -1);
            assert_eq!(header.dest_id, Some(number(c.get(1)).unwrap_or(0)));
        } else if let Some(c) = local.captures(t) {
            assert_eq!(header.exchange_type.as_deref(), Some(c.get(1).unwrap().as_str()));
            assert_eq!(header.id, number(c.get(2)).unwrap_or(0));
            assert_eq!(header.name.contains("SINK"), t.contains("SINK"));
        } else if let Some(c) = dotted.captures(t) {
            assert_eq!(header.name, c.get(1).unwrap().as_str(), "line {:?}", line);
            assert_eq!(header.id, number(c.get(2)).unwrap_or(0), "line {:?}", line);
            assert_eq!(header.nereids_id, number(c.get(3)), "line {:?}", line);
        } else {
            let c = standard.captures(t).unwrap();
            assert_eq!(header.name, c.get(1).unwrap().as_str(), "line {:?}", line);
            assert_eq!(header.nereids_id, number(c.get(2)), "line {:?}", line);
            assert_eq!(header.id, number(c.get(3)).unwrap_or(0), "line {:?}", line);
        }
    }
}

const VALUES: &[&str] = &[
    "",
    "N/A",
    "0",
    "0.00",
    "1sec240ms",
    "x12sec5ms y",
    "12sec 5ms",
    "sec5ms",
    "1secms",
    "128.00 B",
    "4.00 KB",
    "2.24 MB",
    "1.40 GB",
    "3TB",
    "7",
    "7 kb",
    "1.2.3 KB",
    "12. KB",
    ".5 MB",
    "183.75K (183750)",
    "1.298K (1298)",
    "5 M",
    "rows",
    "(9)",
    "18.605us",
    "835.207ms",
];

#[test]
fn sizes_are_found_where_the_pattern_finds_them() {
    let pattern = Regex::new(r"(\d+(?:\.\d+)?)\s*(B|KB|MB|GB|TB)").unwrap();
    for text in VALUES {
        let t = text.trim();
        let zero = t.is_empty() || t == "N/A" || t == "0.00";
        let found = ValueParser::parse_memory_to_bytes(text);
        assert_eq!(found.is_some(), zero || pattern.is_match(t), "text {:?}", text);
        if zero {
            assert_eq!(found, Some(0));
        } else if let Some(c) = pattern.captures(t) {
            let value: f64 = c.get(1).unwrap().as_str().parse().unwrap();
            let unit = match c.get(2).unwrap().as_str() {
                "B" => 1.0,
                "KB" => 1024.0,
                "MB" => 1024.0 * 1024.0,
                "GB" => 1024.0 * 1024.0 * 1024.0,
                _ => 1024.0 * 1024.0 * 1024.0 * 1024.0,
            };
            assert_eq!(found, Some((value * unit) as u64), "text {:?}", text);
        }
    }
}

#[test]
fn compound_durations_are_found_where_the_pattern_finds_them() {
    let pattern = Regex::new(r"(\d+)sec(\d+)ms").unwrap();
    for text in VALUES {
        let t = text.trim();
        if t.is_empty() || t == "N/A" || t == "0" {
            continue;
        }
        if let Some(c) = pattern.captures(t) {
            let secs: i64 = c.get(1).unwrap().as_str().parse().unwrap();
            let ms: i64 = c.get(2).unwrap().as_str().parse().unwrap();
            assert_eq!(
                ValueParser::parse_time_to_ns(text),
                Some(secs * 1_000_000_000 + ms * 1_000_000),
                "text {:?}",
                text
            );
        }
    }
}

#[test]
fn counts_are_found_where_the_pattern_finds_them() {
    let pattern = Regex::new(r"(\d+(?:\.\d+)?)\s*([KMB])?\s*(?:\((\d+)\))?").unwrap();
    for text in VALUES {
        let t = text.trim();
        let zero = t.is_empty() || t == "N/A";
        let found = ValueParser::parse_count(text);
        assert_eq!(found.is_some(), zero || pattern.is_match(t), "text {:?}", text);
    }
}
