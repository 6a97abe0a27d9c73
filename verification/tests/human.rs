use watchwoman::clock::shown_seconds;
use watchwoman::{
    format_bytes, format_count, format_duration, format_duration_ms, now_unix, truncate_left,
};

const GB: u64 = 1024 * 1024 * 1024;

fn by_float(n: u64) -> String {
    if n >= GB {
        format!("{:.1} GB", n as f64 / GB as f64)
    } else if n >= 1024 * 1024 {
        format!("{:.0} MB", n as f64 / (1024.0 * 1024.0))
    } else if n >= 1024 {
        format!("{:.0} KB", n as f64 / 1024.0)
    } else {
        format!("{n} B")
    }
}

#[test]
fn bytes_use_the_largest_unit() {
    assert_eq!(format_bytes(0), "0 B");
    assert_eq!(format_bytes(1023), "1023 B");
    assert_eq!(format_bytes(1024), "1 KB");
    assert_eq!(format_bytes(5 * 1024 * 1024), "5 MB");
    assert_eq!(format_bytes(GB), "1.0 GB");
    assert_eq!(format_bytes(3 * GB / 2), "1.5 GB");
}

#[test]
fn bytes_round_half_to_even() {
    assert_eq!(format_bytes(1536), "2 KB");
    assert_eq!(format_bytes(2560), "2 KB");
    assert_eq!(format_bytes(3584), "4 KB");
    assert_eq!(format_bytes(1024 * 1024 - 1), "1024 KB");
    assert_eq!(format_bytes(GB + GB / 4), "1.2 GB");
    assert_eq!(format_bytes(GB + 3 * GB / 4), "1.8 GB");
}

#[test]
fn bytes_agree_with_floating_point() {
    let mut n: u64 = 1;
    while n < u64::MAX / 3 {
        for d in [0u64, 1, 2, 3, 511, 512, 513] {
            assert_eq!(format_bytes(n + d), by_float(n + d));
            assert_eq!(format_bytes(n.saturating_sub(d)), by_float(n.saturating_sub(d)));
        }
        n = n * 3 / 2 + 1;
    }
    for k in 0u64..5000 {
        assert_eq!(format_bytes(k * 256), by_float(k * 256));
        assert_eq!(format_bytes(k * (GB / 20)), by_float(k * (GB / 20)));
    }
}

#[test]
fn bytes_beyond_the_precision_of_a_double() {
    for k in 0u64..400 {
        let threshold = (1u64 << 54) / 10 * 10 + k * 53_687_091;
        for d in 0u64..40 {
            assert_eq!(format_bytes(threshold + d), by_float(threshold + d));
        }
    }
    assert_eq!(format_bytes(u64::MAX), "17179869184.0 GB");
}

#[test]
fn counts_have_separators() {
    assert_eq!(format_count(0), "0");
    assert_eq!(format_count(999), "999");
    assert_eq!(format_count(1000), "1,000");
    assert_eq!(format_count(1_234_567), "1,234,567");
    assert_eq!(format_count(u64::MAX), "18,446,744,073,709,551,615");
}

#[test]
fn counts_keep_their_digits() {
    for n in [0u64, 7, 12_345, 100_000, 999_999_999, u64::MAX] {
        assert_eq!(format_count(n).replace(',', ""), n.to_string());
    }
}

#[test]
fn durations_use_two_units() {
    assert_eq!(format_duration(0), "0s");
    assert_eq!(format_duration(59), "59s");
    assert_eq!(format_duration(60), "1m");
    assert_eq!(format_duration(3599), "59m");
    assert_eq!(format_duration(3600), "1h00m");
    assert_eq!(format_duration(3600 + 61), "1h01m");
    assert_eq!(format_duration(86_399), "23h59m");
    assert_eq!(format_duration(86_400), "1d00h");
    assert_eq!(format_duration(10 * 86_400 + 13 * 3600), "10d13h");
}

#[test]
fn durations_in_milliseconds() {
    assert_eq!(format_duration_ms(0), "0ms");
    assert_eq!(format_duration_ms(999), "999ms");
    assert_eq!(format_duration_ms(1000), "1s");
    assert_eq!(format_duration_ms(61_999), "1m");
}

#[test]
fn long_texts_lose_their_beginning() {
    assert_eq!(truncate_left("short", 5), "short");
    assert_eq!(truncate_left("longer", 5), "…nger");
    assert_eq!(truncate_left("über/größe", 4), "…öße");
    assert_eq!(truncate_left("abc", 1), "…");
    assert_eq!(truncate_left("", 0), "");
    assert_eq!(truncate_left("/some/long/path", 8).chars().count(), 8);
}

#[test]
fn the_clock_runs() {
    assert!(now_unix() > 1_500_000_000);
    assert_eq!(shown_seconds(Some(12)), 12);
    assert_eq!(shown_seconds(None), 0);
}
