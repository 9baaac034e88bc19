use pulse::number::{decimal_string, parse_i32, parse_u32, parse_u64, parse_unsigned_radix};
use pulse::text::chars_of;
use pulse::utils::{format_bytes_total, format_uptime, truncate_str};

#[test]
fn bytes_below_a_kilobyte_are_whole() {
    assert_eq!(format_bytes_total(0), "0 B");
    assert_eq!(format_bytes_total(1), "1 B");
    assert_eq!(format_bytes_total(1023), "1023 B");
}

#[test]
fn bytes_in_kilobytes_megabytes_gigabytes() {
    assert_eq!(format_bytes_total(1024), "1.0 KB");
    assert_eq!(format_bytes_total(1536), "1.5 KB");
    assert_eq!(format_bytes_total(1_048_575), "1024.0 KB");
    assert_eq!(format_bytes_total(1_048_576), "1.0 MB");
    assert_eq!(format_bytes_total(5 * 1_048_576 + 524_288), "5.5 MB");
    assert_eq!(format_bytes_total(1_073_741_824), "1.00 GB");
    assert_eq!(format_bytes_total(3 * 1_073_741_824 / 2), "1.50 GB");
}

#[test]
fn bytes_ties_round_to_even() {
    // 1280 / 1024 = 1.25 exactly: one decimal, the tie goes to the even digit.
    assert_eq!(format_bytes_total(1280), "1.2 KB");
    assert_eq!(format_bytes_total(1280), format!("{:.1} KB", 1280f64 / 1024.0));
    // 1.75 KB rounds up to the even digit 8.
    assert_eq!(format_bytes_total(1792), "1.8 KB");
}

#[test]
fn bytes_match_float_formatting() {
    let mut samples: Vec<u64> = vec![
        1024,
        1025,
        1126,
        1127,
        10_239,
        10_240,
        1_048_576,
        1_100_000,
        1_073_741_823,
        1_073_741_824,
        1_080_000_000,
        5_368_709_120,
        u64::MAX,
        u64::MAX - 1,
        (1u64 << 53) + 1,
        9_007_199_254_740_993,
    ];
    let mut x: u64 = 1024;
    while x < u64::MAX / 3 {
        samples.push(x);
        samples.push(x + 51);
        samples.push(x.wrapping_mul(7) / 5);
        x = x / 2 * 3 + 17;
    }
    for b in samples {
        let expected = if b >= 1_073_741_824 {
            format!("{:.2} GB", b as f64 / 1_073_741_824.0)
        } else if b >= 1_048_576 {
            format!("{:.1} MB", b as f64 / 1_048_576.0)
        } else if b >= 1024 {
            format!("{:.1} KB", b as f64 / 1024.0)
        } else {
            format!("{} B", b)
        };
        assert_eq!(format_bytes_total(b), expected, "bytes {}", b);
    }
}

#[test]
fn uptime_leaves_out_leading_zero_units() {
    assert_eq!(format_uptime(0), "0s");
    assert_eq!(format_uptime(59), "59s");
    assert_eq!(format_uptime(60), "1m 0s");
    assert_eq!(format_uptime(3599), "59m 59s");
    assert_eq!(format_uptime(3600), "1h 0m 0s");
    assert_eq!(format_uptime(86_399), "23h 59m 59s");
    assert_eq!(format_uptime(86_400), "1d 0h 0m 0s");
    assert_eq!(format_uptime(90_061), "1d 1h 1m 1s");
}

#[test]
fn uptime_units_add_up_to_the_seconds() {
    for secs in [0u64, 1, 61, 3661, 90_061, 1_000_000, 123_456_789] {
        let text = format_uptime(secs);
        let mut total = 0u64;
        for part in text.split(' ') {
            let (num, unit) = part.split_at(part.len() - 1);
            let n: u64 = num.parse().unwrap();
            total += n * match unit {
                "d" => 86_400,
                "h" => 3600,
                "m" => 60,
                _ => 1,
            };
        }
        assert_eq!(total, secs);
    }
}

#[test]
fn truncation_keeps_short_strings() {
    assert_eq!(truncate_str("hello", 10), "hello");
    assert_eq!(truncate_str("hello", 5), "hello");
    assert_eq!(truncate_str("", 0), "");
}

#[test]
fn truncation_cuts_and_appends_an_ellipsis() {
    assert_eq!(truncate_str("hello world", 5), "hell…");
    assert_eq!(truncate_str("abc", 1), "…");
    assert_eq!(truncate_str("abc", 0), "…");
    assert_eq!(truncate_str("héllo", 4), "hé…");
}

#[test]
fn decimals_read_back() {
    for n in [0u64, 7, 10, 99, 100, 4_294_967_295, 4_294_967_296, u64::MAX] {
        let text = decimal_string(n);
        assert_eq!(text, n.to_string());
        assert_eq!(parse_u64(&chars_of(&text)), Some(n));
    }
    assert_eq!(parse_u32(&chars_of("4294967296")), None);
    assert_eq!(parse_u32(&chars_of("+12")), Some(12));
    assert_eq!(parse_u32(&chars_of("")), None);
    assert_eq!(parse_u32(&chars_of("-1")), None);
}

#[test]
fn signed_and_radix_parsing() {
    assert_eq!(parse_i32(&chars_of("-2147483648")), Some(i32::MIN));
    assert_eq!(parse_i32(&chars_of("2147483647")), Some(i32::MAX));
    assert_eq!(parse_i32(&chars_of("2147483648")), None);
    assert_eq!(parse_i32(&chars_of("-")), None);
    assert_eq!(parse_i32(&chars_of("+5")), Some(5));
    assert_eq!(parse_unsigned_radix(&chars_of("ff"), 16, 255), Some(255));
    assert_eq!(parse_unsigned_radix(&chars_of("100"), 16, 255), None);
    assert_eq!(parse_unsigned_radix(&chars_of("Zz"), 36, u64::MAX), Some(35 * 36 + 35));
}
