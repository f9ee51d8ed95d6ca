use table_digest::format::{
    decimal_string, percent, pretty_bytes, pretty_time, rate_per_second, round_div,
};

#[test]
fn bytes_kb() {
    assert_eq!(pretty_bytes(1536), "1.50 KB");
}

#[test]
fn bytes_gb() {
    assert_eq!(pretty_bytes(1024 * 1024 * 1024 * 3 / 2), "1.50 GB");
}

#[test]
fn bytes_mb() {
    assert_eq!(pretty_bytes(1024 * 1024), "1.00 MB");
    assert_eq!(pretty_bytes(5 * 1024 * 1024 + 512 * 1024), "5.50 MB");
}

#[test]
fn bytes_small_and_zero() {
    assert_eq!(pretty_bytes(0), "0.00 KB");
    assert_eq!(pretty_bytes(5), "0.00 KB");
    assert_eq!(pretty_bytes(6), "0.01 KB");
    assert_eq!(pretty_bytes(1023), "1.00 KB");
}

#[test]
fn bytes_unit_boundaries() {
    assert_eq!(pretty_bytes(1024 * 1024 - 1), "1024.00 KB");
    assert_eq!(pretty_bytes(1024 * 1024 * 1024 - 1), "1024.00 MB");
    assert_eq!(pretty_bytes(1024 * 1024 * 1024), "1.00 GB");
}

#[test]
fn bytes_ties_go_to_even() {
    // 128 / 1024 = 0.125 and 384 / 1024 = 0.375
    assert_eq!(pretty_bytes(128), "0.12 KB");
    assert_eq!(pretty_bytes(384), "0.38 KB");
}

#[test]
fn bytes_agree_with_float_formatting() {
    let mut b: u64 = 1;
    let mut step: u64 = 1;
    while b < (1u64 << 50) {
        let g = 1024u64.pow(3);
        let m = 1024u64.pow(2);
        let expected = if b >= g {
            format!("{:.2} GB", b as f64 / g as f64)
        } else if b >= m {
            format!("{:.2} MB", b as f64 / m as f64)
        } else {
            format!("{:.2} KB", b as f64 / 1024f64)
        };
        assert_eq!(pretty_bytes(b), expected);
        b += step;
        step = step * 3 / 2 + 1;
    }
    for b in 0..5000u64 {
        assert_eq!(pretty_bytes(b), format!("{:.2} KB", b as f64 / 1024f64));
    }
}

#[test]
fn bytes_largest() {
    assert_eq!(pretty_bytes(u64::MAX), "17179869184.00 GB");
}

#[test]
fn time_millis() {
    assert_eq!(pretty_time(500_000_000), "500ms");
}

#[test]
fn time_minutes() {
    assert_eq!(pretty_time(125_000_000_000), "2m5s");
}

#[test]
fn time_seconds() {
    assert_eq!(pretty_time(1_000_000_000), "1.00s");
    assert_eq!(pretty_time(1_234_000_000), "1.23s");
    assert_eq!(pretty_time(59_990_000_000), "59.99s");
}

#[test]
fn time_edges() {
    assert_eq!(pretty_time(0), "0ms");
    assert_eq!(pretty_time(999_400_000), "999ms");
    assert_eq!(pretty_time(999_600_000), "1000ms");
    assert_eq!(pretty_time(59_999_000_000), "60.00s");
    assert_eq!(pretty_time(60_000_000_000), "1m0s");
    assert_eq!(pretty_time(119_700_000_000), "1m60s");
    assert_eq!(pretty_time(3_600_000_000_000), "60m0s");
}

#[test]
fn time_ties_go_to_even() {
    assert_eq!(pretty_time(500_000), "0ms");
    assert_eq!(pretty_time(1_500_000), "2ms");
    assert_eq!(pretty_time(2_500_000), "2ms");
    assert_eq!(pretty_time(60_500_000_000), "1m0s");
    assert_eq!(pretty_time(61_500_000_000), "1m2s");
}

#[test]
fn time_agrees_with_float_formatting() {
    for &(nanos, s) in [
        (250_000_000u64, 0.25f64),
        (750_000_000, 0.75),
        (2_000_000_000, 2.0),
        (30_250_000_000, 30.25),
        (90_000_000_000, 90.0),
        (605_000_000_000, 605.0),
    ]
    .iter()
    {
        let expected = if s < 1.0 {
            format!("{:.0}ms", s * 1000.0)
        } else if s < 60.0 {
            format!("{:.2}s", s)
        } else {
            let m = (s / 60.0).floor() as u64;
            let sec = s - (m as f64) * 60.0;
            format!("{}m{:0.0}s", m, sec)
        };
        assert_eq!(pretty_time(nanos), expected);
    }
}

#[test]
fn decimal_text() {
    assert_eq!(decimal_string(0), "0");
    assert_eq!(decimal_string(7), "7");
    assert_eq!(decimal_string(10), "10");
    assert_eq!(decimal_string(1234567890), "1234567890");
    assert_eq!(decimal_string(u64::MAX), "18446744073709551615");
}

#[test]
fn rounding_division() {
    assert_eq!(round_div(7, 2), 4);
    assert_eq!(round_div(5, 2), 2);
    assert_eq!(round_div(9, 4), 2);
    assert_eq!(round_div(11, 4), 3);
    assert_eq!(round_div(0, 3), 0);
    assert_eq!(round_div(u128::MAX, 1), u128::MAX);
}

#[test]
fn percentages() {
    assert_eq!(percent(1, 3), "33.33");
    assert_eq!(percent(2, 3), "66.67");
    assert_eq!(percent(5, 5), "100.00");
    assert_eq!(percent(0, 5), "0.00");
    assert_eq!(percent(7, 0), "0.00");
    assert_eq!(percent(1, 8), "12.50");
}

#[test]
fn rates() {
    assert_eq!(rate_per_second(1000, 1_000_000_000), 1000);
    assert_eq!(rate_per_second(1000, 2_000_000_000), 500);
    assert_eq!(rate_per_second(1000, 3_000_000_000), 333);
    assert_eq!(rate_per_second(1000, 0), 0);
    assert_eq!(rate_per_second(u64::MAX, 1), u64::MAX);
    assert_eq!(rate_per_second(3, 500_000_000), 6);
}
