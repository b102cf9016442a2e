use myfocus::db::Article;
use myfocus::tool_cli::{
    article_result, article_text, lookup_feedback, recommendation_candidates, run_tool_cli,
    ToolCommand,
};

fn args(list: &[&str]) -> Vec<String> {
    list.iter().map(|s| s.to_string()).collect()
}

fn article(id: i64, title: &str) -> Article {
    Article {
        id,
        feed_id: 1,
        feed_title: "Example".to_string(),
        guid: format!("g{id}"),
        title: title.to_string(),
        url: None,
        author: None,
        summary: Some(format!("{title} summary")),
        content_html: None,
        full_text: None,
        ai_summary: None,
        ai_summary_model: None,
        ai_summary_status: None,
        ai_summary_error: None,
        ai_summary_reviewed: false,
        published_at: Some(id * 100),
        read: false,
        starred: false,
    }
}

#[test]
fn no_arguments_mean_help() {
    assert!(matches!(run_tool_cli(&[]), Ok(ToolCommand::Help)));
    assert!(matches!(run_tool_cli(&args(&["-h"])), Ok(ToolCommand::Help)));
    assert!(matches!(run_tool_cli(&args(&["--help"])), Ok(ToolCommand::Help)));
}

#[test]
fn search_joins_the_remaining_arguments() {
    match run_tool_cli(&args(&["search", "rust", "async"])) {
        Ok(ToolCommand::Search { query }) => assert_eq!(query, "rust async"),
        _ => panic!("expected search"),
    }
    assert_eq!(run_tool_cli(&args(&["search"])).err().unwrap(), "使い方: search <query>");
    assert_eq!(run_tool_cli(&args(&["search", " ", ""])).err().unwrap(), "使い方: search <query>");
}

#[test]
fn recent_looks_for_the_unread_flag_anywhere() {
    assert!(matches!(run_tool_cli(&args(&["recent"])), Ok(ToolCommand::Recent { unread_only: false })));
    assert!(matches!(
        run_tool_cli(&args(&["recent", "x", "--unread"])),
        Ok(ToolCommand::Recent { unread_only: true })
    ));
}

#[test]
fn article_needs_a_numeric_id() {
    assert!(matches!(run_tool_cli(&args(&["article", "42"])), Ok(ToolCommand::Article { id: 42 })));
    assert!(matches!(run_tool_cli(&args(&["article", "-3"])), Ok(ToolCommand::Article { id: -3 })));
    assert_eq!(run_tool_cli(&args(&["article"])).err().unwrap(), "使い方: article <id>");
    assert_eq!(run_tool_cli(&args(&["article", "4x"])).err().unwrap(), "article idが不正です");
    assert_eq!(run_tool_cli(&args(&["article", " 4"])).err().unwrap(), "article idが不正です");
}

#[test]
fn other_commands_and_unknown_ones() {
    assert!(matches!(run_tool_cli(&args(&["recommend"])), Ok(ToolCommand::Recommend)));
    assert!(matches!(run_tool_cli(&args(&["feeds"])), Ok(ToolCommand::Feeds)));
    assert!(matches!(run_tool_cli(&args(&["stats"])), Ok(ToolCommand::Stats)));
    assert_eq!(run_tool_cli(&args(&["frobnicate"])).err().unwrap(), "不明なコマンド: frobnicate");
}

#[test]
fn article_text_prefers_body_then_html_then_summary() {
    let mut a = article(1, "T");
    assert_eq!(article_text(&a).as_deref(), Some("T summary"));
    a.content_html = Some("<p>Hello <b>there</b></p>".to_string());
    assert_eq!(article_text(&a).as_deref(), Some("Hello there"));
    a.full_text = Some("x".repeat(16000));
    assert_eq!(article_text(&a).unwrap().chars().count(), 15000);
    let mut b = article(2, "U");
    b.summary = None;
    assert_eq!(article_text(&b), None);
}

#[test]
fn article_result_copies_list_fields() {
    let r = article_result(article(3, "Three"), Some(1));
    assert_eq!(r.id, 3);
    assert_eq!(r.feed, "Example");
    assert_eq!(r.title, "Three");
    assert_eq!(r.feedback, Some(1));
    assert_eq!(r.summary.as_deref(), Some("Three summary"));
    assert_eq!(r.published_at, Some(300));
}

#[test]
fn later_feedback_overrides_earlier() {
    let fb = vec![(1, 1), (2, -1), (1, -1)];
    assert_eq!(lookup_feedback(&fb, 1), Some(-1));
    assert_eq!(lookup_feedback(&fb, 2), Some(-1));
    assert_eq!(lookup_feedback(&fb, 3), None);
}

#[test]
fn recommendation_candidates_skip_disliked_articles() {
    let unread = vec![article(1, "Unread candidate"), article(2, "Disliked"), article(3, "Neutral")];
    let feedback = vec![(1, 1), (2, -1)];
    let c = recommendation_candidates(&unread, &feedback);
    assert_eq!(c.len(), 2);
    assert_eq!(c[0].id, 1);
    assert_eq!(c[0].feedback, Some(1));
    assert_eq!(c[1].id, 3);
    assert_eq!(c[1].feedback, None);
}

#[test]
fn recommendation_candidates_stop_at_fifty() {
    let unread: Vec<Article> = (1..=60).map(|i| article(i, "A")).collect();
    let c = recommendation_candidates(&unread, &vec![(5, -1)]);
    assert_eq!(c.len(), 50);
    assert_eq!(c[4].id, 6);
    assert_eq!(c[49].id, 51);
}
