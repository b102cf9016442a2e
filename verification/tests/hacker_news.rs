use myfocus::digest::{Digest, TranslatedItem};
use myfocus::hn::{
    batch_bounds, batch_writes, comments_url, digest_writes, front_page_rows, hn_items, selected_model,
    DigestRun, DigestWrite, FrontPageHit, FrontPageRow, PendingItem, RoundEnd, RoundStart,
    DEFAULT_DIGEST_MODEL,
};

fn hit(id: &str, title: Option<&str>) -> FrontPageHit {
    FrontPageHit {
        object_id: id.to_string(),
        title: title.map(String::from),
        url: Some(format!("https://x.example/{id}")),
        points: Some(10),
        num_comments: None,
    }
}

fn pending(id: i64, title: &str) -> PendingItem {
    PendingItem { id, title: title.to_string(), url: None, comments_count: 0 }
}

fn translated(id: i64, title: &str, summary: Option<&str>, comments: Option<&str>) -> TranslatedItem {
    TranslatedItem {
        id,
        title_ja: title.to_string(),
        summary_ja: summary.map(String::from),
        comments_summary_ja: comments.map(String::from),
    }
}

#[test]
fn comments_url_points_at_the_discussion() {
    assert_eq!(comments_url(42), "https://news.ycombinator.com/item?id=42");
    assert_eq!(comments_url(-7), "https://news.ycombinator.com/item?id=-7");
}

#[test]
fn selected_model_ignores_blank_settings() {
    assert_eq!(selected_model(&None, DEFAULT_DIGEST_MODEL), DEFAULT_DIGEST_MODEL);
    assert_eq!(selected_model(&Some("  ".to_string()), DEFAULT_DIGEST_MODEL), DEFAULT_DIGEST_MODEL);
    assert_eq!(selected_model(&Some("p/m".to_string()), DEFAULT_DIGEST_MODEL), "p/m");
}

#[test]
fn front_page_rows_skip_bad_ids_and_titles_and_rank_the_rest() {
    let hits = vec![
        hit("100", Some("First")),
        hit("abc", Some("Bad id")),
        hit("101", None),
        hit("102", Some("")),
        hit("103", Some("Second")),
    ];
    let rows = front_page_rows(&hits);
    assert_eq!(rows.len(), 2);
    assert_eq!(rows[0].id, 100);
    assert_eq!(rows[0].rank, 1);
    assert_eq!(rows[0].points, 10);
    assert_eq!(rows[0].comments_count, 0);
    assert_eq!(rows[0].url.as_deref(), Some("https://x.example/100"));
    assert_eq!(rows[1].id, 103);
    assert_eq!(rows[1].title, "Second");
    assert_eq!(rows[1].rank, 2);
}

#[test]
fn hn_items_attach_discussion_and_digest() {
    let rows = vec![
        FrontPageRow { id: 5, title: "A".into(), url: None, points: 1, comments_count: 2, rank: 1 },
        FrontPageRow { id: 6, title: "B".into(), url: Some("u".into()), points: 3, comments_count: 0, rank: 2 },
    ];
    let digests = vec![(
        6,
        Digest { title_ja: Some("ビー".into()), summary_ja: None, comments_summary_ja: Some("- 論点".into()) },
    )];
    let items = hn_items(&rows, &digests);
    assert_eq!(items.len(), 2);
    assert!(items[0].digest.is_none());
    assert_eq!(items[0].comments_url, "https://news.ycombinator.com/item?id=5");
    let d = items[1].digest.as_ref().unwrap();
    assert_eq!(d.title_ja.as_deref(), Some("ビー"));
    assert_eq!(d.comments_summary_ja.as_deref(), Some("- 論点"));
    assert_eq!(items[1].rank, 2);
}

#[test]
fn batch_bounds_cut_into_fours() {
    assert!(batch_bounds(0, 4).is_empty());
    assert_eq!(batch_bounds(4, 4), vec![(0, 4)]);
    assert_eq!(batch_bounds(10, 4), vec![(0, 4), (4, 8), (8, 10)]);
}

#[test]
fn digest_writes_ignore_made_up_ids_and_fall_back_for_skipped_items() {
    let batch = vec![pending(1, "One"), pending(2, "Two"), pending(3, "Three")];
    let out = vec![
        translated(1, "  いち ", Some(" 要約 "), Some("   ")),
        translated(99, "幻", None, None),
        translated(3, "   ", None, None),
    ];
    let writes = digest_writes(&batch, &out);
    assert_eq!(writes.len(), 2);
    match &writes[0] {
        DigestWrite::Translation { id, title_ja, summary_ja } => {
            assert_eq!(*id, 1);
            assert_eq!(title_ja, "いち");
            assert_eq!(summary_ja.as_deref(), Some(" 要約 "));
        }
        _ => panic!("expected a translation"),
    }
    match &writes[1] {
        DigestWrite::Fallback { id, title } => {
            assert_eq!(*id, 2);
            assert_eq!(title, "Two");
        }
        _ => panic!("expected a fallback"),
    }
}

#[test]
fn digest_writes_store_trimmed_comments_summary() {
    let batch = vec![pending(7, "Seven")];
    let out = vec![translated(7, "なな", None, Some(" - 論点\n"))];
    let writes = digest_writes(&batch, &out);
    assert_eq!(writes.len(), 2);
    assert!(matches!(&writes[0], DigestWrite::Translation { id: 7, summary_ja: None, .. }));
    match &writes[1] {
        DigestWrite::CommentsSummary { id, summary } => {
            assert_eq!(*id, 7);
            assert_eq!(summary, "- 論点");
        }
        _ => panic!("expected a comments summary"),
    }
}

#[test]
fn digest_run_gives_up_after_three_stalled_rounds() {
    let mut run = DigestRun::new();
    assert!(matches!(run.start_round(false), RoundStart::Process));
    assert!(matches!(run.finish_round(5, 5, Some("e1".into())), RoundEnd::PauseThenContinue));
    assert!(matches!(run.finish_round(5, 6, Some("e2".into())), RoundEnd::PauseThenContinue));
    match run.finish_round(6, 6, Some("e3".into())) {
        RoundEnd::Fail(e) => assert_eq!(e, "e3"),
        _ => panic!("expected failure"),
    }
}

#[test]
fn digest_run_progress_resets_the_stall_count() {
    let mut run = DigestRun::new();
    assert!(matches!(run.finish_round(5, 5, Some("e".into())), RoundEnd::PauseThenContinue));
    assert!(matches!(run.finish_round(5, 4, Some("e".into())), RoundEnd::Continue));
    assert_eq!(run.stalled, 0);
    assert!(matches!(run.finish_round(4, 4, None), RoundEnd::Continue));
    assert!(matches!(run.finish_round(4, 0, Some("late".into())), RoundEnd::Done));
    assert!(matches!(run.start_round(true), RoundStart::Done));
}

#[test]
fn digest_run_stops_after_twenty_rounds() {
    let mut run = DigestRun::new();
    for _ in 0..20 {
        assert!(matches!(run.finish_round(3, 3, None), RoundEnd::Continue));
    }
    match run.start_round(false) {
        RoundStart::GiveUp(e) => assert_eq!(e, "翻訳キューを時間内に処理できませんでした"),
        _ => panic!("expected to give up"),
    }
    let mut run = DigestRun::new();
    for _ in 0..20 {
        let _ = run.finish_round(3, 2, Some("net".into()));
    }
    match run.start_round(false) {
        RoundStart::GiveUp(e) => assert_eq!(e, "net"),
        _ => panic!("expected to give up"),
    }
}

#[test]
fn empty_answer_ends_the_batch_without_writes() {
    let batch = vec![pending(1, "One")];
    assert_eq!(batch_writes(&batch, &vec![]).err().unwrap(), "翻訳結果を解析できませんでした");
    let writes = batch_writes(&batch, &vec![translated(2, "x", None, None)]).ok().unwrap();
    assert_eq!(writes.len(), 1);
    assert!(matches!(&writes[0], DigestWrite::Fallback { id: 1, .. }));
}
