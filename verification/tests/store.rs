use myfocus::db::{
    article_column_migrations, column_probe_sql, ddls_to_run, drop_column_sql, feed_column_migrations,
    feed_index, feedback_change, fts_rebuild_needed, job_error_text, list_articles_query, mark_scope,
    obsolete_article_columns, search_plan, substring_search_sql, summary_stats, Feed, FeedbackChange,
    MarkScope, SearchPlan, SqlParam, ARTICLE_LIST_COLS,
};

fn feed(id: i64) -> Feed {
    Feed {
        id,
        url: format!("https://f{id}.example/feed"),
        title: format!("Feed {id}"),
        site_url: None,
        category: None,
        last_fetched_at: None,
        last_error: None,
        unread_count: 0,
    }
}

#[test]
fn list_query_without_filters_orders_by_publication() {
    let (sql, params) = list_articles_query(None, None, false, false, false);
    assert_eq!(
        sql,
        format!(
            "SELECT {ARTICLE_LIST_COLS} FROM articles a JOIN feeds f ON f.id = a.feed_id WHERE 1=1 ORDER BY a.published_at DESC, a.id DESC"
        )
    );
    assert!(params.is_empty());
}

#[test]
fn list_query_binds_feed_then_category() {
    let (sql, params) = list_articles_query(Some(7), Some("Tech"), true, true, false);
    assert!(sql.ends_with(
        " AND a.feed_id = ? AND f.category = ? AND a.read = 0 AND a.starred = 1 ORDER BY a.published_at DESC, a.id DESC"
    ));
    assert_eq!(params.len(), 2);
    assert!(matches!(params[0], SqlParam::Int(7)));
    match &params[1] {
        SqlParam::Text(t) => assert_eq!(t, "Tech"),
        _ => panic!("expected a text parameter"),
    }
}

#[test]
fn list_query_for_summaries_orders_by_job_update() {
    let (sql, _) = list_articles_query(None, None, false, false, true);
    assert!(sql.contains(" AND (a.ai_summary IS NOT NULL OR EXISTS"));
    assert!(sql.ends_with("a.ai_summary_updated_at) DESC, a.id DESC"));
}

#[test]
fn search_plan_uses_full_text_for_long_terms() {
    match search_plan("  Rust  非同期ランタイム ") {
        SearchPlan::FullText { match_expr } => {
            assert_eq!(match_expr, "\"Rust\" AND \"非同期ランタイム\"")
        }
        _ => panic!("expected full text"),
    }
    match search_plan("say \"hi\"") {
        SearchPlan::FullText { match_expr } => assert_eq!(match_expr, "\"say\" AND \"\"\"hi\"\"\""),
        _ => panic!("expected full text"),
    }
}

#[test]
fn search_plan_falls_back_to_escaped_substrings() {
    match search_plan("Sw 50%_off a\\b") {
        SearchPlan::Substring { patterns } => {
            assert_eq!(patterns, vec!["%Sw%", "%50\\%\\_off%", "%a\\\\b%"]);
        }
        _ => panic!("expected substring search"),
    }
    assert!(matches!(search_plan("   "), SearchPlan::Empty));
}

#[test]
fn substring_sql_numbers_its_parameters() {
    let sql = substring_search_sql(2);
    assert!(sql.contains("a.title LIKE ?1 ESCAPE '\\'"));
    assert!(sql.contains("COALESCE(a.full_text,'') LIKE ?2 ESCAPE '\\')"));
    assert!(sql.ends_with(" ORDER BY a.published_at DESC LIMIT ?3"));
    assert!(!sql.contains("?4"));
}

#[test]
fn mark_scope_prefers_feed_over_category() {
    assert!(matches!(mark_scope(Some(3), Some("Tech")), MarkScope::Feed(3)));
    match mark_scope(None, Some("Tech")) {
        MarkScope::Category(c) => assert_eq!(c, "Tech"),
        _ => panic!("expected a category"),
    }
    assert!(matches!(mark_scope(None, None), MarkScope::All));
}

#[test]
fn job_error_text_keeps_1000_characters() {
    let long = "エ".repeat(1200);
    assert_eq!(job_error_text(&long).chars().count(), 1000);
    assert_eq!(job_error_text("short"), "short");
}

#[test]
fn feedback_zero_clears() {
    assert!(matches!(feedback_change(4, 0), FeedbackChange::Clear { article_id: 4 }));
    assert!(matches!(feedback_change(4, -1), FeedbackChange::Store { article_id: 4, value: -1 }));
}

#[test]
fn summary_stats_read_null_sums_as_zero() {
    let s = summary_stats(None, Some(2), None);
    assert_eq!((s.pending, s.unreviewed, s.failed), (0, 2, 0));
}

#[test]
fn migrations_add_only_missing_columns() {
    let feeds = feed_column_migrations();
    assert_eq!(feeds[0].0, "category");
    let ddls = ddls_to_run(&feeds, &vec![true, false]);
    assert_eq!(ddls, vec!["ALTER TABLE feeds ADD COLUMN last_error TEXT"]);
    let articles = article_column_migrations();
    assert_eq!(ddls_to_run(&articles, &vec![false, false, true, true]).len(), 2);
    assert!(ddls_to_run(&articles, &vec![true, true, true, true]).is_empty());
    assert!(fts_rebuild_needed(true, false));
    assert!(!fts_rebuild_needed(false, false));
    assert!(!fts_rebuild_needed(true, true));
}

#[test]
fn schema_probe_and_drop_statements() {
    assert_eq!(column_probe_sql("feeds"), "SELECT 1 FROM pragma_table_info('feeds') WHERE name = ?1");
    assert_eq!(drop_column_sql("articles", "title_ja"), "ALTER TABLE articles DROP COLUMN title_ja");
    assert_eq!(obsolete_article_columns(), vec!["title_ja", "summary_ja", "comments_summary_ja", "comments_url"]);
}

#[test]
fn feed_index_finds_the_first_match() {
    let feeds = vec![feed(1), feed(2), feed(2)];
    assert_eq!(feed_index(&feeds, 2), Some(1));
    assert_eq!(feed_index(&feeds, 9), None);
}
