//! Read-only command interface used by the embedded Pi agent: the command a
//! tool invocation asks for, and the records it prints.

use vstd::prelude::*;
use crate::db::Article;
use crate::html;
use crate::numbers;
use crate::text;

verus! {

pub const DEFAULT_LIMIT: i64 = 20;

pub const RECOMMENDATION_CANDIDATE_LIMIT: usize = 50;

pub const RECOMMENDATION_HISTORY_LIMIT: usize = 20;

pub const MAX_ARTICLE_CHARS: usize = 15000;

pub const HELP_TEXT: &'static str = "myfocus local archive commands:\n  search <query>\n  recent [--unread]\n  recommend\n  article <id>\n  feeds\n  stats";

/// A tool invocation.
pub enum ToolCommand {
    /// full-text search of stored articles
    Search { query: String },
    /// recent articles, optionally unread ones only
    Recent { unread_only: bool },
    /// candidates and interest signals for a recommendation
    Recommend,
    /// one article with its text
    Article { id: i64 },
    /// the subscribed feeds
    Feeds,
    /// article and unread counts
    Stats,
    /// the list of commands
    Help,
}

pub ghost enum ToolCommandView {
    Search { query: Seq<char> },
    Recent { unread_only: bool },
    Recommend,
    Article { id: i64 },
    Feeds,
    Stats,
    Help,
}

impl View for ToolCommand {
    type V = ToolCommandView;

    open spec fn view(&self) -> ToolCommandView {
        match self {
            ToolCommand::Search { query } => ToolCommandView::Search { query: query@ },
            ToolCommand::Recent { unread_only } => ToolCommandView::Recent { unread_only: *unread_only },
            ToolCommand::Recommend => ToolCommandView::Recommend,
            ToolCommand::Article { id } => ToolCommandView::Article { id: *id },
            ToolCommand::Feeds => ToolCommandView::Feeds,
            ToolCommand::Stats => ToolCommandView::Stats,
            ToolCommand::Help => ToolCommandView::Help,
        }
    }
}

/// The command the arguments ask for (`help` when there are none), or the usage
/// error it reports.
pub open spec fn spec_tool_command(args: Seq<Seq<char>>) -> Result<ToolCommandView, Seq<char>> {
    let cmd = if args.len() == 0 {
        "help"@
    } else {
        args[0]
    };
    if cmd == "search"@ {
        let query = text::seq_join(args.skip(1), " "@);
        if text::trim(query).len() == 0 {
            Err("使い方: search <query>"@)
        } else {
            Ok(ToolCommandView::Search { query })
        }
    } else if cmd == "recent"@ {
        Ok(
            ToolCommandView::Recent {
                unread_only: exists|i: int| 0 <= i < args.len() && args[i] == "--unread"@,
            },
        )
    } else if cmd == "recommend"@ {
        Ok(ToolCommandView::Recommend)
    } else if cmd == "article"@ {
        if args.len() < 2 {
            Err("使い方: article <id>"@)
        } else {
            match numbers::spec_parse_i64(args[1]) {
                Some(id) => Ok(ToolCommandView::Article { id }),
                None => Err("article idが不正です"@),
            }
        }
    } else if cmd == "feeds"@ {
        Ok(ToolCommandView::Feeds)
    } else if cmd == "stats"@ {
        Ok(ToolCommandView::Stats)
    } else if cmd == "help"@ || cmd == "--help"@ || cmd == "-h"@ {
        Ok(ToolCommandView::Help)
    } else {
        Err("不明なコマンド: "@ + cmd)
    }
}

fn is(arg: &Vec<char>, word: &str) -> (r: bool)
    ensures
        r == (arg@ == word@),
{
    text::seq_eq(arg, &text::chars_of(word))
}

/// Decides the command of a `--myfocus-tool` invocation from its arguments.
pub fn run_tool_cli(args: &[String]) -> (r: Result<ToolCommand, String>)
    ensures
        match (r, spec_tool_command(args@.map_values(|s: String| s@))) {
            (Ok(a), Ok(b)) => a@ == b,
            (Err(a), Err(b)) => a@ == b,
            _ => false,
        },
{
    let ghost av = args@.map_values(|s: String| s@);
    let cmd: Vec<char> = if args.len() == 0 {
        text::chars_of("help")
    } else {
        text::chars_of(args[0].as_str())
    };
    if is(&cmd, "search") {
        proof {
            if args@.len() == 0 {
                reveal_strlit("help");
                reveal_strlit("search");
                assert("help"@[0] != "search"@[0]);
            }
        }
        let mut parts: Vec<Vec<char>> = Vec::new();
        let mut i: usize = 1;
        assert(av.skip(1).take(0) =~= Seq::<Seq<char>>::empty());
        assert(parts@.map_values(|w: Vec<char>| w@) =~= Seq::<Seq<char>>::empty());
        while i < args.len()
            invariant
                1 <= i <= args@.len(),
                av == args@.map_values(|s: String| s@),
                parts@.map_values(|w: Vec<char>| w@) == av.skip(1).take(i - 1),
            decreases args@.len() - i,
        {
            let ghost old_parts = parts@.map_values(|w: Vec<char>| w@);
            let w = text::chars_of(args[i].as_str());
            proof {
                assert(av[i as int] == args@[i as int]@);
                assert(av.skip(1)[i - 1] == av[i as int]);
                assert(av.skip(1).take(i as int) =~= av.skip(1).take(i - 1).push(av[i as int]));
            }
            parts.push(w);
            i += 1;
            assert(parts@.map_values(|w: Vec<char>| w@) =~= old_parts.push(args@[i - 1]@));
        }
        assert(av.skip(1).take(args@.len() - 1) =~= av.skip(1));
        let q = text::join_vec(&parts, &text::chars_of(" "));
        if text::is_blank(&q) {
            Err(text::string_of("使い方: search <query>"))
        } else {
            Ok(ToolCommand::Search { query: text::string_from_chars(&q) })
        }
    } else if is(&cmd, "recent") {
        let mut unread = false;
        let mut i: usize = 0;
        while i < args.len()
            invariant
                i <= args@.len(),
                av == args@.map_values(|s: String| s@),
                unread == exists|k: int| 0 <= k < i && av[k] == "--unread"@,
            decreases args@.len() - i,
        {
            let hit = is(&text::chars_of(args[i].as_str()), "--unread");
            assert(av[i as int] == args@[i as int]@);
            if hit {
                unread = true;
            }
            i += 1;
            proof {
                if hit {
                    assert(av[i - 1] == "--unread"@);
                }
            }
        }
        Ok(ToolCommand::Recent { unread_only: unread })
    } else if is(&cmd, "recommend") {
        Ok(ToolCommand::Recommend)
    } else if is(&cmd, "article") {
        if args.len() < 2 {
            Err(text::string_of("使い方: article <id>"))
        } else {
            match numbers::parse_i64_str(args[1].as_str()) {
                Some(id) => Ok(ToolCommand::Article { id }),
                None => Err(text::string_of("article idが不正です")),
            }
        }
    } else if is(&cmd, "feeds") {
        Ok(ToolCommand::Feeds)
    } else if is(&cmd, "stats") {
        Ok(ToolCommand::Stats)
    } else if is(&cmd, "help") || is(&cmd, "--help") || is(&cmd, "-h") {
        Ok(ToolCommand::Help)
    } else {
        let mut msg = text::string_of("不明なコマンド: ");
        text::push_chars(&mut msg, &cmd);
        Err(msg)
    }
}

/// An article as the tool prints it in lists.
pub struct ArticleResult {
    pub id: i64,
    pub feed: String,
    pub title: String,
    pub url: Option<String>,
    pub published_at: Option<i64>,
    pub read: bool,
    pub starred: bool,
    pub feedback: Option<i8>,
    pub summary: Option<String>,
}

pub open spec fn opt_view(o: Option<String>) -> Option<Seq<char>> {
    match o {
        Some(s) => Some(s@),
        None => None,
    }
}

pub open spec fn result_of(r: ArticleResult, a: Article, feedback: Option<i8>) -> bool {
    &&& r.id == a.id
    &&& r.feed@ == a.feed_title@
    &&& r.title@ == a.title@
    &&& opt_view(r.url) == opt_view(a.url)
    &&& r.published_at == a.published_at
    &&& r.read == a.read
    &&& r.starred == a.starred
    &&& r.feedback == feedback
    &&& opt_view(r.summary) == opt_view(a.summary)
}

pub fn article_result(article: Article, feedback: Option<i8>) -> (r: ArticleResult)
    ensures
        result_of(r, article, feedback),
{
    ArticleResult {
        id: article.id,
        feed: article.feed_title,
        title: article.title,
        url: article.url,
        published_at: article.published_at,
        read: article.read,
        starred: article.starred,
        feedback,
        summary: article.summary,
    }
}

fn copy_opt(o: &Option<String>) -> (r: Option<String>)
    ensures
        opt_view(r) == opt_view(*o),
{
    match o {
        Some(s) => Some(text::string_of(s.as_str())),
        None => None,
    }
}

fn article_result_ref(a: &Article, feedback: Option<i8>) -> (r: ArticleResult)
    ensures
        result_of(r, *a, feedback),
{
    ArticleResult {
        id: a.id,
        feed: text::string_of(a.feed_title.as_str()),
        title: text::string_of(a.title.as_str()),
        url: copy_opt(&a.url),
        published_at: a.published_at,
        read: a.read,
        starred: a.starred,
        feedback,
        summary: copy_opt(&a.summary),
    }
}

/// The text the `article` command prints: the extracted body, else the stripped
/// HTML content, else the feed summary, cut to 15000 characters.
pub open spec fn spec_article_text(a: Article) -> Option<Seq<char>> {
    let t = match a.full_text {
        Some(t) => Some(t@),
        None => match a.content_html {
            Some(h) => Some(html::spec_strip_html(h@, 15000)),
            None => opt_view(a.summary),
        },
    };
    match t {
        Some(t) => Some(if 15000 < t.len() {
            t.take(15000)
        } else {
            t
        }),
        None => None,
    }
}

pub fn article_text(a: &Article) -> (r: Option<String>)
    ensures
        opt_view(r) == spec_article_text(*a),
{
    let t: Option<Vec<char>> = match &a.full_text {
        Some(t) => Some(text::chars_of(t.as_str())),
        None => match &a.content_html {
            Some(h) => Some(html::strip_html_chars(&text::chars_of(h.as_str()), MAX_ARTICLE_CHARS)),
            None => match &a.summary {
                Some(s) => Some(text::chars_of(s.as_str())),
                None => None,
            },
        },
    };
    match t {
        Some(v) => Some(text::string_from_chars(&text::take_chars(&v, MAX_ARTICLE_CHARS))),
        None => None,
    }
}

/// The feedback recorded for an article; a later entry for the same article
/// overrides an earlier one.
pub open spec fn feedback_of(feedback: Seq<(i64, i8)>, id: i64) -> Option<i8>
    decreases feedback.len(),
{
    if feedback.len() == 0 {
        None
    } else if feedback.last().0 == id {
        Some(feedback.last().1)
    } else {
        feedback_of(feedback.drop_last(), id)
    }
}

pub fn lookup_feedback(feedback: &Vec<(i64, i8)>, id: i64) -> (r: Option<i8>)
    ensures
        r == feedback_of(feedback@, id),
{
    let mut n: usize = feedback.len();
    assert(feedback@.take(n as int) =~= feedback@);
    while n > 0
        invariant
            n <= feedback@.len(),
            feedback_of(feedback@, id) == feedback_of(feedback@.take(n as int), id),
        decreases n,
    {
        let (fid, v) = feedback[n - 1];
        if fid == id {
            return Some(v);
        }
        assert(feedback@.take(n as int).drop_last() =~= feedback@.take(n - 1));
        n -= 1;
    }
    None
}

/// Unread articles that are not disliked, in list order.
pub open spec fn not_disliked(articles: Seq<Article>, feedback: Seq<(i64, i8)>) -> Seq<Article>
    decreases articles.len(),
{
    if articles.len() == 0 {
        seq![]
    } else {
        let rest = not_disliked(articles.drop_last(), feedback);
        if feedback_of(feedback, articles.last().id) == Some(-1i8) {
            rest
        } else {
            rest.push(articles.last())
        }
    }
}

/// No recommendation candidate carries a dislike, and each is one of the listed
/// articles.
pub proof fn lemma_candidates_not_disliked(articles: Seq<Article>, feedback: Seq<(i64, i8)>)
    ensures
        not_disliked(articles, feedback).len() <= articles.len(),
        forall|k: int| 0 <= k < not_disliked(articles, feedback).len() ==> feedback_of(
            feedback,
            (#[trigger] not_disliked(articles, feedback)[k]).id,
        ) != Some(-1i8) && articles.contains(not_disliked(articles, feedback)[k]),
    decreases articles.len(),
{
    if articles.len() > 0 {
        let p = articles.drop_last();
        lemma_candidates_not_disliked(p, feedback);
        let rest = not_disliked(p, feedback);
        let all = not_disliked(articles, feedback);
        assert forall|k: int| 0 <= k < all.len() implies feedback_of(feedback, (#[trigger] all[k]).id) != Some(
            -1i8,
        ) && articles.contains(all[k]) by {
            if k < rest.len() {
                assert(all[k] == rest[k]);
                let i = choose|i: int| 0 <= i < p.len() && p[i] == rest[k];
                assert(articles[i] == p[i]);
            } else {
                assert(all[k] == articles.last());
                assert(articles[articles.len() - 1] == articles.last());
            }
        }
    }
}

/// Recommendation candidates: the first 50 unread articles without a dislike, each
/// with its feedback.
pub fn recommendation_candidates(unread: &Vec<Article>, feedback: &Vec<(i64, i8)>) -> (r: Vec<ArticleResult>)
    ensures
        r@.len() == (if 50 < not_disliked(unread@, feedback@).len() {
            50
        } else {
            not_disliked(unread@, feedback@).len()
        }),
        forall|k: int| 0 <= k < r@.len() ==> result_of(
            #[trigger] r@[k],
            not_disliked(unread@, feedback@)[k],
            feedback_of(feedback@, not_disliked(unread@, feedback@)[k].id),
        ),
{
    let mut out: Vec<ArticleResult> = Vec::new();
    let mut i: usize = 0;
    let ghost full = not_disliked(unread@, feedback@);
    while i < unread.len() && out.len() < RECOMMENDATION_CANDIDATE_LIMIT
        invariant
            i <= unread@.len(),
            full == not_disliked(unread@, feedback@),
            out@.len() <= 50,
            out@.len() == not_disliked(unread@.take(i as int), feedback@).len(),
            forall|k: int| 0 <= k < out@.len() ==> result_of(
                #[trigger] out@[k],
                not_disliked(unread@.take(i as int), feedback@)[k],
                feedback_of(feedback@, not_disliked(unread@.take(i as int), feedback@)[k].id),
            ),
        decreases unread@.len() - i,
    {
        let a = &unread[i];
        let ghost pre = not_disliked(unread@.take(i as int), feedback@);
        assert(unread@.take(i + 1).drop_last() =~= unread@.take(i as int));
        let fb = lookup_feedback(feedback, a.id);
        if fb != Some(-1i8) {
            out.push(article_result_ref(a, fb));
            assert(not_disliked(unread@.take(i + 1), feedback@) == pre.push(unread@[i as int]));
        } else {
            assert(not_disliked(unread@.take(i + 1), feedback@) == pre);
        }
        i += 1;
    }
    proof {
        lemma_not_disliked_prefix(unread@, feedback@, i as int);
    }
    out
}

/// The candidates of a prefix are a prefix of the candidates.
proof fn lemma_not_disliked_prefix(articles: Seq<Article>, feedback: Seq<(i64, i8)>, i: int)
    requires
        0 <= i <= articles.len(),
    ensures
        not_disliked(articles.take(i), feedback).len() <= not_disliked(articles, feedback).len(),
        forall|k: int| 0 <= k < not_disliked(articles.take(i), feedback).len() ==> #[trigger] not_disliked(
            articles.take(i),
            feedback,
        )[k] == not_disliked(articles, feedback)[k],
        i == articles.len() ==> not_disliked(articles.take(i), feedback) == not_disliked(articles, feedback),
    decreases articles.len() - i,
{
    if i == articles.len() {
        assert(articles.take(i) =~= articles);
    } else {
        lemma_not_disliked_prefix(articles, feedback, i + 1);
        let t = articles.take(i + 1);
        assert(t.drop_last() =~= articles.take(i));
        let a = not_disliked(articles.take(i), feedback);
        let b = not_disliked(t, feedback);
        assert(b == a || b == a.push(t.last()));
        assert forall|k: int| 0 <= k < a.len() implies #[trigger] a[k] == not_disliked(articles, feedback)[k] by {
            assert(a[k] == b[k]);
        }
    }
}

} // verus!
