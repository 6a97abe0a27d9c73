use watchwoman::json::parse_json;
use watchwoman::status::{can_report, status_report, status_text};
use watchwoman::Value;

fn status(s: &str) -> Value {
    parse_json(s, "status").unwrap()
}

fn report(s: &str, now: u64) -> String {
    status_text(&status(s), false, false, now)
}

#[test]
fn an_empty_status() {
    assert_eq!(
        report("{}", 0),
        "watchwoman   (pid 0, up 0s)\n\
         socket:  \n\
         memory:  0 B rss   cpu: 0ms user / 0ms system\n\
         roots:   0 watched · 0 files (0 live, 0 tombstones) · 0 subs · 0 triggers\n\
         \n\
         (no roots watched)\n"
    );
}

#[test]
fn a_full_status() {
    let s = r#"{
        "version": "1.2.3", "pid": 77, "uptime_seconds": 3700, "sockname": "/run/sock",
        "rss_bytes": 52428800, "user_cpu_ms": 950, "system_cpu_ms": 61000,
        "total_tracked_files": 1234567, "total_tombstones": 67,
        "total_subscriptions": 3, "total_triggers": 2,
        "memory": {"tree_bytes_est": 2048, "unaccounted_bytes": -5},
        "roots": [
            {"path": "/home/me/project", "num_files": 1234, "tombstones": 5,
             "tree_bytes_est": 1536, "subscriptions": 1, "triggers": 0, "health": "ok"},
            17,
            {}
        ],
        "reaped": [
            {"path": "/old/one", "reason": "idle", "at_unix": 900},
            "junk",
            {"path": "/old/two", "reason": "gone", "at_unix": 2000}
        ]
    }"#;
    let mut expected = String::new();
    expected.push_str("watchwoman 1.2.3  (pid 77, up 1h01m)\n");
    expected.push_str("socket:  /run/sock\n");
    expected.push_str("memory:  50 MB rss   cpu: 950ms user / 1m system\n");
    expected.push_str("         2 KB tracked data (est) · 0 B unaccounted (allocator / OS-held)\n");
    expected.push_str("roots:   3 watched · 1,234,567 files (1,234,500 live, 67 tombstones) · 3 subs · 2 triggers\n");
    expected.push_str("\n");
    expected.push_str(&format!(
        "{:<54} {:>10} {:>8} {:>8} {:>4} {:>4}  HEALTH\n",
        "ROOT", "FILES", "GHOSTS", "MEM~", "SUB", "TRG"
    ));
    expected.push_str(&format!(
        "{:<54} {:>10} {:>8} {:>8} {:>4} {:>4}  {}\n",
        "/home/me/project", "1,234", "5", "2 KB", 1, 0, "ok"
    ));
    expected.push_str(&format!(
        "{:<54} {:>10} {:>8} {:>8} {:>4} {:>4}  {}\n",
        "?", "0", "0", "0 B", 0, 0, "?"
    ));
    expected.push_str("\n");
    expected.push_str("garbage-collected (3 recent, newest first):\n");
    expected.push_str("  [gone] /old/two  (0s ago)\n");
    expected.push_str("  [idle] /old/one  (1m ago)\n");
    assert_eq!(report(s, 1000), expected);
    assert_eq!(status_report(status(s).as_object().unwrap(), 1000), expected);
}

#[test]
fn negative_numbers_wrap_or_vanish() {
    let s = r#"{"uptime_seconds": -1, "rss_bytes": -1, "total_tracked_files": -1,
                "total_tombstones": -3, "roots": [{"num_files": -1, "tombstones": -1,
                "tree_bytes_est": -1, "subscriptions": -4}]}"#;
    let text = report(s, 0);
    assert!(text.starts_with("watchwoman   (pid 0, up 213503982334601d07h)\n"));
    assert!(text.contains("memory:  17179869184.0 GB rss"));
    assert!(text.contains("18,446,744,073,709,551,615 files (2 live, 0 tombstones)"));
    assert!(text.contains(&format!(
        "{:>10} {:>8} {:>8} {:>4}",
        "18,446,744,073,709,551,615", "0", "0 B", -4
    )));
}

#[test]
fn files_alone_show_the_tracked_line() {
    assert!(report("{\"total_tracked_files\": 1}", 0).contains("         0 B tracked data (est) · 0 B unaccounted"));
    assert!(!report("{\"total_tracked_files\": 0}", 0).contains("tracked data"));
}

#[test]
fn the_newest_collected_roots_are_listed() {
    let entries: Vec<String> =
        (0..70).map(|i| format!("{{\"path\":\"/r{i}\",\"reason\":\"x\",\"at_unix\":0}}")).collect();
    let text = report(&format!("{{\"reaped\":[{}]}}", entries.join(",")), 7);
    assert!(text.contains("garbage-collected (70 recent, newest first):\n  [x] /r69  (7s ago)\n"));
    assert!(text.ends_with("  [x] /r7  (7s ago)\n  [x] /r6  (7s ago)\n"));
    assert_eq!(text.matches("ago)").count(), 64);
    let text = report(&format!("{{\"reaped\":[{}]}}", entries[..12].join(",")), 7);
    assert!(text.contains("garbage-collected (12 recent, newest first):\n  [x] /r11  (7s ago)\n"));
    assert!(text.ends_with("  [x] /r0  (7s ago)\n"));
    assert_eq!(text.matches("ago)").count(), 12);
}

#[test]
fn long_paths_keep_the_columns() {
    let long = "x".repeat(80);
    let text = report(&format!("{{\"roots\":[{{\"path\":\"{long}\"}}]}}"), 0);
    let line = text.lines().last().unwrap();
    assert!(line.starts_with(&format!("…{} ", "x".repeat(53))));
    assert_eq!(line.chars().count(), 54 + 11 + 9 + 9 + 5 + 5 + 3);
    let reaped = report(&format!("{{\"reaped\":[{{\"path\":\"{long}\"}}]}}"), 0);
    assert!(reaped.contains(&format!("  [?] …{}  (", "x".repeat(69))));
}

#[test]
fn json_errors_and_other_values_are_printed_as_they_are() {
    assert_eq!(status_text(&status("{\"pid\":1}"), true, false, 0), "{\n  \"pid\": 1\n}\n");
    assert_eq!(
        status_text(&status("{\"error\":\"no\"}"), false, false, 0),
        "{\n  \"error\": \"no\"\n}\n"
    );
    assert_eq!(status_text(&status("[1]"), false, false, 0), "[\n  1\n]\n");
}

#[test]
fn json_goes_on_one_line_where_asked() {
    let s = "{\"pid\":1,\"roots\":[{\"path\":\"a\\nb\"}]}";
    assert_eq!(status_text(&status(s), true, true, 0), format!("{s}\n"));
    assert_eq!(
        status_text(&status("{\"error\":\"no\"}"), false, true, 0),
        "{\"error\":\"no\"}\n"
    );
    assert_eq!(status_text(&status("[1, 2]"), false, true, 0), "[1,2]\n");
    assert_eq!(status_text(&status(s), false, true, 0), report(s, 0));
}

#[test]
fn live_files_must_be_countable() {
    let bad = status("{\"total_tracked_files\": 9223372036854775807, \"total_tombstones\": -1}");
    assert!(!can_report(&bad, false));
    assert!(can_report(&bad, true));
    assert!(can_report(&status("{}"), false));
    assert!(can_report(&status("[]"), false));
    let edge = status("{\"total_tracked_files\": 9223372036854775806, \"total_tombstones\": -1}");
    assert!(can_report(&edge, false));
}
