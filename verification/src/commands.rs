//! Decisions of the application's commands: input checks, the text an article
//! summary is made from, settings, and the tally of a feed refresh.

use vstd::prelude::*;
use crate::html;
use crate::numbers;
use crate::text;

verus! {

pub const DEFAULT_SUMMARY_MODEL: &'static str = "openai-codex/gpt-5.6-luna";

/// Characters of page or HTML text an article summary is made from.
pub const SUMMARY_SOURCE_MAX_CHARS: usize = 24000;

/// Results of the search command.
pub const SEARCH_LIMIT: i64 = 200;

pub const DEFAULT_RETENTION_DAYS: i64 = 90;

pub const RECOMMENDATION_CACHE_KEY: &'static str = "ai_recommendation_cache";

pub const LOGGING_SETTING_KEY: &'static str = "diagnostic_logging_enabled";

pub open spec fn opt_view(o: Option<String>) -> Option<Seq<char>> {
    match o {
        Some(s) => Some(s@),
        None => None,
    }
}

/// A stored summary is reused unless a new one is forced.
pub fn needs_summary(force: bool, has_summary: bool) -> (r: bool)
    ensures
        r == (force || !has_summary),
{
    force || !has_summary
}

/// The text an article summary is made from.
pub enum SummarySource {
    /// the article's stored extracted body
    Stored(String),
    /// newly extracted text, to be stored as the article's body first
    Extracted(String),
}

pub ghost enum SummarySourceView {
    Stored(Seq<char>),
    Extracted(Seq<char>),
}

impl View for SummarySource {
    type V = SummarySourceView;

    open spec fn view(&self) -> SummarySourceView {
        match self {
            SummarySource::Stored(s) => SummarySourceView::Stored(s@),
            SummarySource::Extracted(s) => SummarySourceView::Extracted(s@),
        }
    }
}

pub const NO_BODY_MESSAGE: &'static str = "要約できる本文がありません";

/// The stored body if there is one; else the fetched page text, else the stripped
/// HTML content (24000 characters at most), else the feed summary, provided the
/// first of these that exists is not blank.
pub open spec fn spec_summary_source(
    full_text: Option<Seq<char>>,
    fetched: Option<Seq<char>>,
    content_html: Option<Seq<char>>,
    summary: Option<Seq<char>>,
) -> Result<SummarySourceView, Seq<char>> {
    match full_text {
        Some(t) => Ok(SummarySourceView::Stored(t)),
        None => {
            let candidate = match fetched {
                Some(f) => Some(f),
                None => match content_html {
                    Some(h) => Some(html::spec_strip_html(h, 24000)),
                    None => summary,
                },
            };
            match candidate {
                Some(c) => if text::trim(c).len() == 0 {
                    Err(NO_BODY_MESSAGE@)
                } else {
                    Ok(SummarySourceView::Extracted(c))
                },
                None => Err(NO_BODY_MESSAGE@),
            }
        },
    }
}

pub fn summary_source(
    full_text: &Option<String>,
    fetched: Option<String>,
    content_html: &Option<String>,
    summary: &Option<String>,
) -> (r: Result<SummarySource, String>)
    ensures
        match (r, spec_summary_source(
            opt_view(*full_text),
            opt_view(fetched),
            opt_view(*content_html),
            opt_view(*summary),
        )) {
            (Ok(a), Ok(b)) => a@ == b,
            (Err(a), Err(b)) => a@ == b,
            _ => false,
        },
{
    match full_text {
        Some(t) => Ok(SummarySource::Stored(text::string_of(t.as_str()))),
        None => {
            let candidate: Option<String> = match fetched {
                Some(f) => Some(f),
                None => match content_html {
                    Some(h) => Some(html::strip_html(h.as_str(), SUMMARY_SOURCE_MAX_CHARS)),
                    None => match summary {
                        Some(s) => Some(text::string_of(s.as_str())),
                        None => None,
                    },
                },
            };
            match candidate {
                Some(c) => {
                    if text::is_blank(&text::chars_of(c.as_str())) {
                        Err(text::string_of(NO_BODY_MESSAGE))
                    } else {
                        Ok(SummarySource::Extracted(c))
                    }
                },
                None => Err(text::string_of(NO_BODY_MESSAGE)),
            }
        },
    }
}

/// AI feedback is -1 (dislike), 0 (none) or 1 (like).
pub fn check_feedback_value(value: i8) -> (r: Result<(), String>)
    ensures
        r is Ok <==> (value == -1 || value == 0 || value == 1),
        r matches Err(e) ==> e@ == "フィードバック値が不正です"@,
{
    if value == -1 || value == 0 || value == 1 {
        Ok(())
    } else {
        Err(text::string_of("フィードバック値が不正です"))
    }
}

/// A diagnostic event needs a non-blank name.
pub fn check_log_event(event: &str) -> (r: Result<(), String>)
    ensures
        r is Ok <==> text::trim(event@).len() > 0,
        r matches Err(e) ==> e@ == "ログイベント名が空です"@,
{
    if text::is_blank(&text::chars_of(event)) {
        Err(text::string_of("ログイベント名が空です"))
    } else {
        Ok(())
    }
}

/// Only http(s) URLs are opened in the browser.
pub fn check_browser_url(url: &str) -> (r: Result<(), String>)
    ensures
        r is Ok <==> (text::starts_with(url@, "http://"@) || text::starts_with(url@, "https://"@)),
        r matches Err(e) ==> e@ == "http(s)のURLのみ開けます"@,
{
    let v = text::chars_of(url);
    if text::starts_with_vec(&v, &text::chars_of("http://")) || text::starts_with_vec(
        &v,
        &text::chars_of("https://"),
    ) {
        Ok(())
    } else {
        Err(text::string_of("http(s)のURLのみ開けます"))
    }
}

/// The retention setting parsed as days, else 90; cleanup runs only for a
/// positive number of days.
pub fn retention_days(setting: Option<&str>) -> (r: i64)
    ensures
        r == (match setting {
            Some(s) => match numbers::spec_parse_i64(s@) {
                Some(d) => d,
                None => 90,
            },
            None => 90,
        }),
{
    match setting {
        Some(s) => match numbers::parse_i64_str(s) {
            Some(d) => d,
            None => DEFAULT_RETENTION_DAYS,
        },
        None => DEFAULT_RETENTION_DAYS,
    }
}

/// Old articles are cleaned up only for a positive retention; 0 (or less)
/// disables the cleanup.
pub fn cleanup_enabled(days: i64) -> (r: bool)
    ensures
        r == (days > 0),
{
    days > 0
}

/// The logging switch a setting change asks for, if the key is the logging key.
pub fn logging_switch(key: &str, value: &str) -> (r: Option<bool>)
    ensures
        key@ == LOGGING_SETTING_KEY@ ==> r == Some(value@ == "true"@),
        key@ != LOGGING_SETTING_KEY@ ==> r is None,
{
    if text::seq_eq(&text::chars_of(key), &text::chars_of(LOGGING_SETTING_KEY)) {
        Some(text::seq_eq(&text::chars_of(value), &text::chars_of("true")))
    } else {
        None
    }
}

/// When the reader had the focus before a URL was opened in the background, it
/// checks after 200, 450 and 900 ms whether a browser took the focus.
pub fn focus_reclaim_delays(was_focused: bool) -> (r: Vec<u64>)
    ensures
        was_focused ==> r@ == seq![200u64, 450u64, 900u64],
        !was_focused ==> r@.len() == 0,
{
    if was_focused {
        let r = vec![200u64, 450u64, 900u64];
        assert(r@ =~= seq![200u64, 450u64, 900u64]);
        r
    } else {
        Vec::new()
    }
}

/// At each check the focus is taken back only when the reader lost it.
pub fn needs_refocus(is_focused: bool) -> (r: bool)
    ensures
        r == !is_focused,
{
    !is_focused
}

/// Outcome of refreshing all feeds.
pub struct RefreshTally {
    pub new_articles: usize,
    pub failed: Vec<String>,
}

impl RefreshTally {
    pub fn new() -> (r: RefreshTally)
        ensures
            r.new_articles == 0,
            r.failed@.len() == 0,
    {
        RefreshTally { new_articles: 0, failed: Vec::new() }
    }

    /// A feed stored `n` new articles.
    pub fn record_inserted(&mut self, n: usize)
        requires
            old(self).new_articles + n <= usize::MAX,
        ensures
            final(self).new_articles == old(self).new_articles + n,
            final(self).failed@ == old(self).failed@,
    {
        self.new_articles = self.new_articles + n;
    }

    /// A feed failed with `error`; the failure is listed as `url: error`.
    pub fn record_failure(&mut self, url: &str, error: &str)
        ensures
            final(self).new_articles == old(self).new_articles,
            final(self).failed@.len() == old(self).failed@.len() + 1,
            final(self).failed@.drop_last() == old(self).failed@,
            final(self).failed@.last()@ == url@ + ": "@ + error@,
    {
        let mut line = text::string_of(url);
        text::push_str(&mut line, ": ");
        text::push_str(&mut line, error);
        self.failed.push(line);
        assert(self.failed@.drop_last() =~= old(self).failed@);
    }

    /// The level of the refresh record: `warn` when some feed failed.
    pub fn log_level(&self) -> (r: &'static str)
        ensures
            r@ == (if self.failed@.len() == 0 {
                "info"@
            } else {
                "warn"@
            }),
    {
        if self.failed.len() == 0 {
            "info"
        } else {
            "warn"
        }
    }

    /// New articles make a cached recommendation stale.
    pub fn invalidates_recommendations(&self) -> (r: bool)
        ensures
            r == (self.new_articles > 0),
    {
        self.new_articles > 0
    }
}

} // verus!
