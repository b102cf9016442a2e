use myfocus::commands::{
    check_browser_url, check_feedback_value, cleanup_enabled, focus_reclaim_delays, needs_refocus, check_log_event, logging_switch, needs_summary,
    retention_days, summary_source, RefreshTally, SummarySource,
};
use myfocus::diagnostics::{
    enable_change, limit_details, needs_rotation, normalize_level, record_head, truncate,
    DetailsLimit, EnableChange,
};
use myfocus::numbers::{format_i64, parse_i64_str};
use myfocus::pi_bridge::{
    executable_env_value, pi_program, rpc_args, rpc_line, shell_path_from_output, RpcRequest,
};
use myfocus::search::fuzzy_rank;

#[test]
fn summary_is_reused_unless_forced() {
    assert!(!needs_summary(false, true));
    assert!(needs_summary(true, true));
    assert!(needs_summary(false, false));
}

#[test]
fn summary_source_prefers_stored_body() {
    let s = summary_source(&Some("body".into()), Some("fetched".into()), &None, &None).unwrap();
    assert!(matches!(s, SummarySource::Stored(ref t) if t == "body"));
    let s = summary_source(&None, Some("fetched".into()), &Some("<p>h</p>".into()), &None).unwrap();
    assert!(matches!(s, SummarySource::Extracted(ref t) if t == "fetched"));
    let s = summary_source(&None, None, &Some("<p>h  tml</p>".into()), &Some("sum".into())).unwrap();
    assert!(matches!(s, SummarySource::Extracted(ref t) if t == "h tml"));
    let s = summary_source(&None, None, &None, &Some("sum".into())).unwrap();
    assert!(matches!(s, SummarySource::Extracted(ref t) if t == "sum"));
}

#[test]
fn summary_source_rejects_missing_or_blank_text() {
    let e = summary_source(&None, None, &None, &None).err().unwrap();
    assert_eq!(e, "要約できる本文がありません");
    // the first candidate decides, even when a later one has text
    let e = summary_source(&None, Some("  ".into()), &None, &Some("sum".into())).err().unwrap();
    assert_eq!(e, "要約できる本文がありません");
}

#[test]
fn input_checks() {
    assert!(check_feedback_value(-1).is_ok());
    assert!(check_feedback_value(0).is_ok());
    assert!(check_feedback_value(1).is_ok());
    assert_eq!(check_feedback_value(2).err().unwrap(), "フィードバック値が不正です");
    assert_eq!(check_log_event("  ").err().unwrap(), "ログイベント名が空です");
    assert!(check_log_event("app_started").is_ok());
    assert!(check_browser_url("https://example.com").is_ok());
    assert!(check_browser_url("http://example.com").is_ok());
    assert_eq!(check_browser_url("file:///etc/passwd").err().unwrap(), "http(s)のURLのみ開けます");
}

#[test]
fn retention_days_default_to_ninety() {
    assert_eq!(retention_days(None), 90);
    assert_eq!(retention_days(Some("30")), 30);
    assert_eq!(retention_days(Some("0")), 0);
    assert_eq!(retention_days(Some("many")), 90);
    assert!(cleanup_enabled(retention_days(None)));
    assert!(!cleanup_enabled(retention_days(Some("0"))));
    assert!(!cleanup_enabled(-1));
}

#[test]
fn logging_switch_only_for_its_key() {
    assert_eq!(logging_switch("diagnostic_logging_enabled", "true"), Some(true));
    assert_eq!(logging_switch("diagnostic_logging_enabled", "yes"), Some(false));
    assert_eq!(logging_switch("theme", "true"), None);
}

#[test]
fn refresh_tally_counts_and_lists_failures() {
    let mut t = RefreshTally::new();
    assert_eq!(t.log_level(), "info");
    assert!(!t.invalidates_recommendations());
    t.record_inserted(3);
    t.record_failure("https://a.example/feed", "HTTP 404 が返されました");
    assert_eq!(t.new_articles, 3);
    assert_eq!(t.failed, vec!["https://a.example/feed: HTTP 404 が返されました"]);
    assert_eq!(t.log_level(), "warn");
    assert!(t.invalidates_recommendations());
}

#[test]
fn levels_normalize_ignoring_case() {
    assert_eq!(normalize_level("ERROR"), "error");
    assert_eq!(normalize_level("Warning"), "warn");
    assert_eq!(normalize_level("warn"), "warn");
    assert_eq!(normalize_level("debug"), "debug");
    assert_eq!(normalize_level("trace"), "info");
    assert_eq!(normalize_level(normalize_level("WARNING")), "warn");
}

#[test]
fn records_cut_event_names_and_details() {
    assert_eq!(truncate("abcdef", 3), "abc");
    assert_eq!(truncate("ab", 3), "ab");
    let (level, event) = record_head("Error", &"e".repeat(130));
    assert_eq!(level, "error");
    assert_eq!(event.len(), 120);
    match limit_details(Some(&"x".repeat(9000)), "") {
        DetailsLimit::Replace(t) => assert_eq!(t.len(), 8000),
        DetailsLimit::Keep => panic!("expected a cut"),
    }
    assert!(matches!(limit_details(None, "{\"a\":1}"), DetailsLimit::Keep));
    match limit_details(None, &"y".repeat(8001)) {
        DetailsLimit::Replace(t) => assert_eq!(t.len(), 8000),
        DetailsLimit::Keep => panic!("expected a cut"),
    }
}

#[test]
fn log_rotates_at_five_megabytes() {
    assert!(!needs_rotation(5 * 1024 * 1024 - 1));
    assert!(needs_rotation(5 * 1024 * 1024));
    assert!(matches!(enable_change(true, true), EnableChange::Unchanged));
    assert!(matches!(enable_change(false, true), EnableChange::Enabled));
    assert!(matches!(enable_change(true, false), EnableChange::Disabled));
}

#[test]
fn integers_parse_like_from_str_and_format_back() {
    assert_eq!(parse_i64_str("123"), Some(123));
    assert_eq!(parse_i64_str("+7"), Some(7));
    assert_eq!(parse_i64_str("-9223372036854775808"), Some(i64::MIN));
    assert_eq!(parse_i64_str("9223372036854775808"), None);
    assert_eq!(parse_i64_str(""), None);
    assert_eq!(parse_i64_str("-"), None);
    assert_eq!(parse_i64_str("1_000"), None);
    for n in [0i64, 5, -5, 1234567890, i64::MAX, i64::MIN] {
        let s: String = format_i64(n).into_iter().collect();
        assert_eq!(s, n.to_string());
        assert_eq!(parse_i64_str(&s), Some(n));
    }
}

#[test]
fn fuzzy_rank_orders_by_score_and_limits() {
    let corpus = vec![
        (1, "completely unrelated".to_string()),
        (2, "rust programming language".to_string()),
        (3, "rust".to_string()),
    ];
    assert!(fuzzy_rank(&corpus, "   ", 10).is_empty());
    let all = fuzzy_rank(&corpus, " rust ", 10);
    assert!(all.contains(&2) && all.contains(&3));
    assert!(!all.contains(&1));
    assert_eq!(fuzzy_rank(&corpus, "rust", 1).len(), 1);
    assert!(fuzzy_rank(&corpus, "rust", 0).is_empty());
    assert!(fuzzy_rank(&corpus, "zzzzqqq", 10).is_empty());
    let long = "r".repeat(1801);
    assert!(fuzzy_rank(&corpus, &long, 10).is_empty());
    let haystack = vec![(9, "r".repeat(4000))];
    assert_eq!(fuzzy_rank(&haystack, &"r".repeat(1800), 10), vec![9]);
}

#[test]
fn pi_program_name_per_platform() {
    assert_eq!(pi_program(true), "pi.cmd");
    assert_eq!(pi_program(false), "pi");
}

#[test]
fn shell_path_is_read_after_the_marker() {
    assert_eq!(
        shell_path_from_output("welcome!\n__PATH__/usr/bin:/bin\n__PATH__other\n").as_deref(),
        Some("/usr/bin:/bin")
    );
    assert_eq!(shell_path_from_output("no marker here\n"), None);
    assert_eq!(shell_path_from_output("__PATH__").as_deref(), Some(""));
}

#[test]
fn executable_path_uses_forward_slashes() {
    assert_eq!(executable_env_value("C:\\Apps\\myfocus.exe"), "C:/Apps/myfocus.exe");
}

#[test]
fn rpc_session_arguments() {
    let a = rpc_args();
    assert_eq!(&a[..7], &["--mode", "rpc", "--no-session", "--no-context-files", "--tools", "bash", "--append-system-prompt"]);
    assert!(a[7].contains("myfocus"));
}

#[test]
fn rpc_lines_are_compact_json_with_sorted_keys() {
    assert_eq!(rpc_line(&RpcRequest::Abort), "{\"type\":\"abort\"}\n");
    assert_eq!(rpc_line(&RpcRequest::NewSession), "{\"type\":\"new_session\"}\n");
    let line = rpc_line(&RpcRequest::Prompt("say \"hi\"\n\\ \u{1}".to_string()));
    assert_eq!(line, "{\"message\":\"say \\\"hi\\\"\\n\\\\ \\u0001\",\"type\":\"prompt\"}\n");
    let mut map = serde_json::Map::new();
    map.insert("type".to_string(), serde_json::Value::String("prompt".to_string()));
    map.insert("message".to_string(), serde_json::Value::String("日本語 \t tab".to_string()));
    let expected = format!("{}\n", serde_json::Value::Object(map));
    assert_eq!(rpc_line(&RpcRequest::Prompt("日本語 \t tab".to_string())), expected);
}

#[test]
fn focus_is_reclaimed_only_when_it_was_held() {
    assert_eq!(focus_reclaim_delays(true), vec![200, 450, 900]);
    assert!(focus_reclaim_delays(false).is_empty());
    assert!(needs_refocus(false));
    assert!(!needs_refocus(true));
}
