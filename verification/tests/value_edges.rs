use doris_profile_analyzer::parser::value_parser::ValueParser;

#[test]
fn durations_in_every_form() {
    let ns = ValueParser::parse_time_to_ns;
    assert_eq!(ns(""), Some(0));
    assert_eq!(ns("   "), Some(0));
    assert_eq!(ns("0"), Some(0));
    assert_eq!(ns(" N/A "), Some(0));
    assert_eq!(ns("7"), Some(7));
    assert_eq!(ns("7.9"), Some(7));
    assert_eq!(ns("1.5s"), Some(1_500_000_000));
    assert_eq!(ns("2 ms"), Some(2_000_000));
    assert_eq!(ns("0.0005us"), Some(0));
    assert_eq!(ns("-1.5us"), Some(-1500));
    assert_eq!(ns("+3ns"), Some(3));
    assert_eq!(ns(".5ms"), Some(500_000));
    assert_eq!(ns("5.ms"), Some(5_000_000));
    assert_eq!(ns("12nsns"), Some(12));
    assert_eq!(ns("4ss"), Some(4_000_000_000));
    assert_eq!(ns("total 3sec7ms elapsed"), Some(3_007_000_000));
    assert_eq!(ns("1sec"), None);
    assert_eq!(ns("abc"), None);
    assert_eq!(ns("1.2.3ms"), None);
    assert_eq!(ns("ms"), None);
    assert_eq!(ns("1e3ns"), None);
    assert_eq!(ns("0.1234567890123456789ms"), Some(123_456));
}

#[test]
fn durations_stay_within_the_range() {
    let ns = ValueParser::parse_time_to_ns;
    assert_eq!(ns("9223372036854775807ns"), Some(i64::MAX));
    assert_eq!(ns("9223372036854775808ns"), Some(i64::MAX));
    assert_eq!(ns("99999999999999999999999999s"), Some(i64::MAX));
    assert_eq!(ns("-99999999999999999999999999s"), Some(i64::MIN));
    assert_eq!(ns("9223372036sec855ms"), Some(i64::MAX));
    assert_eq!(ns("99999999999999999999sec1ms"), Some(1_000_000));
}

#[test]
fn sizes_in_every_unit() {
    let bytes = ValueParser::parse_memory_to_bytes;
    assert_eq!(bytes(""), Some(0));
    assert_eq!(bytes("N/A"), Some(0));
    assert_eq!(bytes("0.00"), Some(0));
    assert_eq!(bytes("1B"), Some(1));
    assert_eq!(bytes("1.9 B"), Some(1));
    assert_eq!(bytes("1 KB"), Some(1024));
    assert_eq!(bytes("1 MB"), Some(1024 * 1024));
    assert_eq!(bytes("1 GB"), Some(1024 * 1024 * 1024));
    assert_eq!(bytes("1 TB"), Some(1024u64 * 1024 * 1024 * 1024));
    assert_eq!(bytes("0.5 KB"), Some(512));
    assert_eq!(bytes("peak 3   MB now"), Some(3 * 1024 * 1024));
    assert_eq!(bytes("1.2.3 KB"), Some(2355));
    assert_eq!(bytes("12"), None);
    assert_eq!(bytes("12 PB"), None);
    assert_eq!(bytes("KB"), None);
    assert_eq!(bytes("99999999999999999999999 TB"), Some(u64::MAX));
}

#[test]
fn counts_in_every_form() {
    let count = ValueParser::parse_count;
    assert_eq!(count(""), Some(0));
    assert_eq!(count("N/A"), Some(0));
    assert_eq!(count("42"), Some(42));
    assert_eq!(count("5K"), Some(5_000));
    assert_eq!(count("1.5M"), Some(1_500_000));
    assert_eq!(count("2 B"), Some(2_000_000_000));
    assert_eq!(count("1.2999K"), Some(1_299));
    assert_eq!(count("(12)"), Some(12));
    assert_eq!(count("7K (-3)"), Some(-3));
    assert_eq!(count("7K (x)"), Some(7_000));
    assert_eq!(count(") 4 ("), Some(4));
    assert_eq!(count("-5"), Some(5));
    assert_eq!(count("rows: 10"), Some(10));
    assert_eq!(count("abc"), None);
    assert_eq!(count("99999999999999999999B"), Some(i64::MAX));
}

#[test]
fn aggregates_take_the_statistics_that_are_named() {
    let agg = ValueParser::parse_aggregated("avg 95.241us, max 95.241us, min 95.241us");
    assert_eq!(agg.sum, None);
    assert_eq!(agg.avg, Some(95_241));
    assert_eq!(agg.raw, "avg 95.241us, max 95.241us, min 95.241us");

    let agg = ValueParser::parse_aggregated("sum 183.75K (183750), avg 3.828K (3828)");
    assert_eq!(agg.sum, Some(183_750));
    assert_eq!(agg.avg, Some(3_828));
    assert_eq!(agg.max, None);
    assert_eq!(agg.min, None);

    let agg = ValueParser::parse_aggregated("min 1, min 2, max x, avg  , sum");
    assert_eq!(agg.min, Some(2));
    assert_eq!(agg.max, None);
    assert_eq!(agg.avg, Some(0));
    assert_eq!(agg.sum, None);

    let agg = ValueParser::parse_aggregated("maximum 5, summary avg 3ms");
    assert_eq!(agg.max, None);
    assert_eq!(agg.sum, None);
    assert_eq!(agg.avg, Some(3_000_000));

    let agg = ValueParser::parse_aggregated("");
    assert_eq!((agg.sum, agg.avg, agg.max, agg.min), (None, None, None, None));
    assert_eq!(agg.raw, "");
}

#[test]
fn first_value_is_what_follows_avg() {
    let first = |s: &str| ValueParser::extract_first_value(s).unwrap();
    assert_eq!(first("avg 95.241us, max 95.241us"), "95.241us");
    assert_eq!(first("  sum 1, avg  7 , max 9"), "7");
    assert_eq!(first("avg 12"), "12");
    assert_eq!(first("  14.5ms "), "14.5ms");
    assert_eq!(first(""), "");
}

#[test]
fn digits_far_behind_the_point_still_count() {
    let bytes = ValueParser::parse_memory_to_bytes;
    // 2^-20 of a megabyte is one byte
    assert_eq!(bytes("0.00000095367431640625 MB"), Some(1));
    assert_eq!(bytes("0.00000095367431640624 MB"), Some(0));
    assert_eq!(bytes("0.00000095367431640624999999999999999999999 MB"), Some(0));
    // 2^-40 of a terabyte is one byte
    assert_eq!(bytes("0.000000000000909494701772928237915039062500 TB"), Some(1));
    assert_eq!(bytes("0.000000000000909494701772928237915039062499 TB"), Some(0));
    assert_eq!(bytes("2.000000000000909494701772928237915039062500 TB"), Some(2 * (1u64 << 40) + 1));
    assert_eq!(bytes("0.0000000027939677238464355468750 GB"), Some(3));

    let ns = ValueParser::parse_time_to_ns;
    assert_eq!(ns("0.000000000999999999999999999999s"), Some(0));
    assert_eq!(ns("0.000000001000000000000000000000s"), Some(1));
    assert_eq!(ns("-0.0000019999999999999999999999ms"), Some(-1));
    assert_eq!(ns("0.99999999999999999999999999"), Some(0));

    let count = ValueParser::parse_count;
    assert_eq!(count("0.000999999999999999999999K"), Some(0));
    assert_eq!(count("0.001000000000000000000000K"), Some(1));
    assert_eq!(count("1.9999999999999999999999999B"), Some(1_999_999_999));
}

#[test]
fn a_fraction_is_scaled_digit_by_digit() {
    let scaled = |f: &str, unit: u64| {
        let digits: Vec<char> = f.chars().collect();
        doris_profile_analyzer::numbers::scale_fraction(&digits, unit)
    };
    assert_eq!(scaled("", 1000), 0);
    assert_eq!(scaled("5", 1000), 500);
    assert_eq!(scaled("1299", 1000), 129);
    assert_eq!(scaled("9999", 1), 0);
    assert_eq!(scaled("5", 0), 0);
    assert_eq!(scaled("00000095367431640625", 1 << 20), 1);
    assert_eq!(scaled("99999999999999999999999999999999", u64::MAX), u64::MAX - 1);
    assert_eq!(scaled("5", u64::MAX), u64::MAX / 2);
}
