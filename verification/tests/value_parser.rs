use doris_profile_analyzer::parser::value_parser::ValueParser;

#[test]
fn test_parse_time_to_ns() {
    assert_eq!(ValueParser::parse_time_to_ns("0ns"), Some(0));
    assert_eq!(ValueParser::parse_time_to_ns("100ns"), Some(100));
    assert_eq!(ValueParser::parse_time_to_ns("18.605us"), Some(18605));
    assert_eq!(ValueParser::parse_time_to_ns("835.207ms"), Some(835207000));
    assert_eq!(ValueParser::parse_time_to_ns("1sec240ms"), Some(1240000000));
    assert_eq!(ValueParser::parse_time_to_ns("N/A"), Some(0));
}

#[test]
fn test_parse_memory_to_bytes() {
    assert_eq!(ValueParser::parse_memory_to_bytes("0.00 "), Some(0));
    assert_eq!(ValueParser::parse_memory_to_bytes("128.00 B"), Some(128));
    assert_eq!(ValueParser::parse_memory_to_bytes("4.00 KB"), Some(4096));
    assert_eq!(ValueParser::parse_memory_to_bytes("2.24 MB"), Some(2348810));
    assert_eq!(ValueParser::parse_memory_to_bytes("1.40 GB"), Some(1503238553));
}

#[test]
fn test_parse_count() {
    assert_eq!(ValueParser::parse_count("1"), Some(1));
    assert_eq!(ValueParser::parse_count("183.75K (183750)"), Some(183750));
    assert_eq!(ValueParser::parse_count("720.000376M (720000376)"), Some(720000376));
    assert_eq!(ValueParser::parse_count("1.298K (1298)"), Some(1298));
}

#[test]
fn test_parse_aggregated() {
    let agg = ValueParser::parse_aggregated("avg 95.241us, max 95.241us, min 95.241us");
    assert_eq!(agg.avg, Some(95241));
    assert_eq!(agg.max, Some(95241));
    assert_eq!(agg.min, Some(95241));

    let agg2 = ValueParser::parse_aggregated("sum 1, avg 1, max 1, min 1");
    assert_eq!(agg2.sum, Some(1));
    assert_eq!(agg2.avg, Some(1));
}
