use myfocus::digest::{
    digests_for_sql, json_array_span, model_list_result, parse_model_list, pi_failure_message,
    pi_print_args, pi_print_result,
    prompt_fallback, summary_result, translate_prompt, TranslatedItem, TRANSLATE_PROMPT_HEAD,
};

/// Model output to items: the library frames the JSON array, serde_json reads it.
fn parse_translations(out: &str) -> Result<Vec<TranslatedItem>, String> {
    let span = json_array_span(out)?;
    let value: serde_json::Value =
        serde_json::from_str(&span).map_err(|e| format!("JSON解析エラー: {e}"))?;
    let items = value.as_array().ok_or("not an array")?;
    Ok(items
        .iter()
        .map(|v| TranslatedItem {
            id: v["id"].as_i64().unwrap(),
            title_ja: v["title_ja"].as_str().unwrap().to_string(),
            summary_ja: v.get("summary_ja").and_then(|s| s.as_str()).map(String::from),
            comments_summary_ja: v
                .get("comments_summary_ja")
                .and_then(|s| s.as_str())
                .map(String::from),
        })
        .collect())
}

#[test]
fn digest_parses_plain_array() {
    let out = r#"[{"id": 1, "title_ja": "テスト", "summary_ja": null}]"#;
    let items = parse_translations(out).unwrap();
    assert_eq!(items.len(), 1);
    assert_eq!(items[0].title_ja, "テスト");
    assert!(items[0].summary_ja.is_none());
}

#[test]
fn digest_tolerates_surrounding_text_and_fences() {
    let out = "はい、翻訳します。\n```json\n[{\"id\": 2, \"title_ja\": \"タイトル\", \"summary_ja\": \"要約です。\\n\\n二段落目。\"}]\n```\n";
    let items = parse_translations(out).unwrap();
    assert_eq!(items[0].id, 2);
    assert!(items[0].summary_ja.as_deref().unwrap().contains("二段落目"));
}

#[test]
fn digest_missing_summary_field_defaults_to_none() {
    let out = r#"[{"id": 3, "title_ja": "タイトルのみ"}]"#;
    let items = parse_translations(out).unwrap();
    assert!(items[0].summary_ja.is_none());
}

#[test]
fn translator_parses_plain_array() {
    let out = r#"[{"id": 1, "title_ja": "テスト", "summary_ja": null}]"#;
    let items = parse_translations(out).unwrap();
    assert_eq!(items.len(), 1);
    assert_eq!(items[0].title_ja, "テスト");
    assert!(items[0].summary_ja.is_none());
}

#[test]
fn translator_tolerates_surrounding_text_and_fences() {
    let out = "はい、翻訳します。\n```json\n[{\"id\": 2, \"title_ja\": \"タイトル\", \"summary_ja\": \"要約です。\\n\\n二段落目。\"}]\n```\n";
    let items = parse_translations(out).unwrap();
    assert_eq!(items[0].id, 2);
    assert!(items[0].summary_ja.as_deref().unwrap().contains("二段落目"));
}

#[test]
fn translator_missing_summary_field_defaults_to_none() {
    let out = r#"[{"id": 3, "title_ja": "タイトルのみ"}]"#;
    let items = parse_translations(out).unwrap();
    assert!(items[0].summary_ja.is_none());
}

#[test]
fn json_array_span_frames_first_bracket_to_last() {
    assert_eq!(json_array_span("x [1, [2]] y ]").unwrap(), "[1, [2]] y ]");
    assert_eq!(json_array_span("[]").unwrap(), "[]");
}

#[test]
fn json_array_span_reports_missing_and_broken_arrays() {
    assert_eq!(json_array_span("no array").unwrap_err(), "応答にJSON配列がありません");
    assert_eq!(json_array_span("only [ open").unwrap_err(), "応答にJSON配列がありません");
    assert_eq!(json_array_span("] before [").unwrap_err(), "応答のJSONが壊れています");
}

#[test]
fn summary_result_trims_and_rejects_blank_output() {
    assert_eq!(summary_result("  要約\n").unwrap(), "要約");
    assert_eq!(summary_result(" \n\t").unwrap_err(), "要約を生成できませんでした");
}

#[test]
fn pi_print_args_add_the_model_last() {
    let base = [
        "-p",
        "--no-tools",
        "--no-session",
        "--no-context-files",
        "--no-extensions",
        "--no-skills",
        "--thinking",
        "off",
    ];
    assert_eq!(pi_print_args(None), base.to_vec());
    let mut with_model: Vec<&str> = base.to_vec();
    with_model.push("--model");
    with_model.push("p/m");
    assert_eq!(pi_print_args(Some("p/m")), with_model);
}

#[test]
fn pi_failure_message_uses_last_stderr_line() {
    assert_eq!(pi_failure_message("first\nlast line\n"), "piの実行が失敗しました: last line");
    assert_eq!(pi_failure_message(""), "piの実行が失敗しました: 不明なエラー");
}

#[test]
fn model_list_skips_header_and_short_lines() {
    let out = "provider  model  context\nacme  fast-1  128k\n\nglobex small\nlonely\n";
    assert_eq!(parse_model_list(out), vec!["acme/fast-1", "globex/small"]);
    assert!(parse_model_list("").is_empty());
    assert!(parse_model_list("header only").is_empty());
}

#[test]
fn prompt_fallback_keeps_400_characters() {
    let long: String = "あ".repeat(450);
    let cut = prompt_fallback(&Some(long)).unwrap();
    assert_eq!(cut.chars().count(), 400);
    assert_eq!(prompt_fallback(&Some("short".to_string())).as_deref(), Some("short"));
    assert_eq!(prompt_fallback(&None), None);
}

#[test]
fn translate_prompt_appends_items() {
    let p = translate_prompt("[]");
    assert!(p.starts_with(TRANSLATE_PROMPT_HEAD));
    assert!(p.ends_with("\n\n[]"));
}

#[test]
fn digests_for_sql_has_one_placeholder_per_id() {
    assert_eq!(digests_for_sql(0), None);
    let q = digests_for_sql(3).unwrap();
    assert!(q.ends_with("item_id IN (?,?,?)"));
    assert!(q.starts_with("SELECT item_id, title_ja, summary_ja, comments_summary_ja"));
    assert!(digests_for_sql(1).unwrap().ends_with("IN (?)"));
}

#[test]
fn pi_run_outcomes() {
    assert_eq!(pi_print_result(true, "out", "err").unwrap(), "out");
    assert_eq!(pi_print_result(false, "out", "a\nb").err().unwrap(), "piの実行が失敗しました: b");
    assert_eq!(model_list_result(true, "h\np m\n").unwrap(), vec!["p/m"]);
    assert_eq!(model_list_result(false, "h\np m\n").err().unwrap(), "モデル一覧を取得できませんでした");
}

#[test]
fn json_array_span_on_the_model_outputs() {
    let plain = r#"[{"id": 1, "title_ja": "テスト", "summary_ja": null}]"#;
    assert_eq!(json_array_span(plain).unwrap(), plain);
    let fenced = "はい、翻訳します。\n```json\n[{\"id\": 2, \"title_ja\": \"タイトル\", \"summary_ja\": \"要約です。\\n\\n二段落目。\"}]\n```\n";
    assert_eq!(
        json_array_span(fenced).unwrap(),
        "[{\"id\": 2, \"title_ja\": \"タイトル\", \"summary_ja\": \"要約です。\\n\\n二段落目。\"}]"
    );
    let title_only = r#"[{"id": 3, "title_ja": "タイトルのみ"}]"#;
    assert_eq!(json_array_span(title_only).unwrap(), title_only);
}
