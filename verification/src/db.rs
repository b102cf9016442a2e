//! Data model of the article store and the query decisions made around it:
//! which statement a call runs and with which parameters.

use vstd::prelude::*;
use crate::numbers;
use crate::text;

verus! {

pub struct Feed {
    pub id: i64,
    pub url: String,
    pub title: String,
    pub site_url: Option<String>,
    pub category: Option<String>,
    pub last_fetched_at: Option<i64>,
    pub last_error: Option<String>,
    pub unread_count: i64,
}

pub struct Article {
    pub id: i64,
    pub feed_id: i64,
    pub feed_title: String,
    pub guid: String,
    pub title: String,
    pub url: Option<String>,
    pub author: Option<String>,
    pub summary: Option<String>,
    pub content_html: Option<String>,
    pub full_text: Option<String>,
    pub ai_summary: Option<String>,
    pub ai_summary_model: Option<String>,
    pub ai_summary_status: Option<String>,
    pub ai_summary_error: Option<String>,
    pub ai_summary_reviewed: bool,
    pub published_at: Option<i64>,
    pub read: bool,
    pub starred: bool,
}

pub struct NewArticle {
    pub guid: String,
    pub title: String,
    pub url: Option<String>,
    pub author: Option<String>,
    pub summary: Option<String>,
    pub content_html: Option<String>,
    pub published_at: Option<i64>,
}

pub struct SummaryStats {
    pub pending: i64,
    pub unreviewed: i64,
    pub failed: i64,
}

/// A bound statement parameter.
pub enum SqlParam {
    Int(i64),
    Text(String),
}

pub ghost enum SqlParamView {
    Int(i64),
    Text(Seq<char>),
}

impl View for SqlParam {
    type V = SqlParamView;

    open spec fn view(&self) -> SqlParamView {
        match self {
            SqlParam::Int(i) => SqlParamView::Int(*i),
            SqlParam::Text(s) => SqlParamView::Text(s@),
        }
    }
}

pub const ARTICLE_COLS: &'static str = "a.id, a.feed_id, f.title, a.guid, a.title, a.url, a.author, a.summary, a.content_html, a.full_text, a.ai_summary, a.ai_summary_model, (SELECT status FROM article_summary_jobs j WHERE j.article_id = a.id), (SELECT error FROM article_summary_jobs j WHERE j.article_id = a.id), COALESCE((SELECT reviewed_at IS NOT NULL FROM article_summary_jobs j WHERE j.article_id = a.id), 0), a.published_at, a.read, a.starred";

/// List views skip content_html (it can be tens of KB per article); the reading
/// pane loads the full row.
pub const ARTICLE_LIST_COLS: &'static str = "a.id, a.feed_id, f.title, a.guid, a.title, a.url, a.author, a.summary, NULL, NULL, a.ai_summary, a.ai_summary_model, (SELECT status FROM article_summary_jobs j WHERE j.article_id = a.id), (SELECT error FROM article_summary_jobs j WHERE j.article_id = a.id), COALESCE((SELECT reviewed_at IS NOT NULL FROM article_summary_jobs j WHERE j.article_id = a.id), 0), a.published_at, a.read, a.starred";

pub const LIST_FROM: &'static str = " FROM articles a JOIN feeds f ON f.id = a.feed_id WHERE 1=1";

pub const FEED_FILTER: &'static str = " AND a.feed_id = ?";

pub const CATEGORY_FILTER: &'static str = " AND f.category = ?";

pub const UNREAD_FILTER: &'static str = " AND a.read = 0";

pub const STARRED_FILTER: &'static str = " AND a.starred = 1";

pub const SUMMARIZED_FILTER: &'static str = " AND (a.ai_summary IS NOT NULL OR EXISTS (SELECT 1 FROM article_summary_jobs j WHERE j.article_id = a.id))";

pub const SUMMARIZED_ORDER: &'static str = " ORDER BY COALESCE((SELECT updated_at FROM article_summary_jobs j WHERE j.article_id = a.id), a.ai_summary_updated_at) DESC, a.id DESC";

pub const PUBLISHED_ORDER: &'static str = " ORDER BY a.published_at DESC, a.id DESC";

pub open spec fn when(b: bool, s: Seq<char>) -> Seq<char> {
    if b {
        s
    } else {
        seq![]
    }
}

/// The article list query for the given filters.
pub open spec fn spec_list_articles_sql(
    by_feed: bool,
    by_category: bool,
    unread_only: bool,
    starred_only: bool,
    summarized_only: bool,
) -> Seq<char> {
    "SELECT "@ + ARTICLE_LIST_COLS@ + LIST_FROM@ + when(by_feed, FEED_FILTER@) + when(
        by_category,
        CATEGORY_FILTER@,
    ) + when(unread_only, UNREAD_FILTER@) + when(starred_only, STARRED_FILTER@) + if summarized_only {
        SUMMARIZED_FILTER@ + SUMMARIZED_ORDER@
    } else {
        PUBLISHED_ORDER@
    }
}

/// The article list query and its parameters (the feed id, then the category).
pub fn list_articles_query(
    feed_id: Option<i64>,
    category: Option<&str>,
    unread_only: bool,
    starred_only: bool,
    summarized_only: bool,
) -> (r: (String, Vec<SqlParam>))
    ensures
        r.0@ == spec_list_articles_sql(
            feed_id is Some,
            category is Some,
            unread_only,
            starred_only,
            summarized_only,
        ),
        r.1@.map_values(|p: SqlParam| p@) == (match feed_id {
            Some(f) => seq![SqlParamView::Int(f)],
            None => seq![],
        }) + (match category {
            Some(c) => seq![SqlParamView::Text(c@)],
            None => seq![],
        }),
{
    let mut sql = text::string_of("SELECT ");
    text::push_str(&mut sql, ARTICLE_LIST_COLS);
    text::push_str(&mut sql, LIST_FROM);
    let mut p: Vec<SqlParam> = Vec::new();
    let ghost s0 = sql@;
    match feed_id {
        Some(f) => {
            text::push_str(&mut sql, FEED_FILTER);
            p.push(SqlParam::Int(f));
        },
        None => {},
    }
    assert(sql@ =~= s0 + when(feed_id is Some, FEED_FILTER@));
    let ghost s1 = sql@;
    let ghost p1 = p@.map_values(|q: SqlParam| q@);
    match category {
        Some(c) => {
            text::push_str(&mut sql, CATEGORY_FILTER);
            p.push(SqlParam::Text(text::string_of(c)));
            assert(p@.map_values(|q: SqlParam| q@) =~= p1.push(SqlParamView::Text(c@)));
        },
        None => {},
    }
    assert(sql@ =~= s1 + when(category is Some, CATEGORY_FILTER@));
    let ghost s2 = sql@;
    if unread_only {
        text::push_str(&mut sql, UNREAD_FILTER);
    }
    assert(sql@ =~= s2 + when(unread_only, UNREAD_FILTER@));
    let ghost s3 = sql@;
    if starred_only {
        text::push_str(&mut sql, STARRED_FILTER);
    }
    assert(sql@ =~= s3 + when(starred_only, STARRED_FILTER@));
    let ghost s4 = sql@;
    if summarized_only {
        text::push_str(&mut sql, SUMMARIZED_FILTER);
        text::push_str(&mut sql, SUMMARIZED_ORDER);
        assert(sql@ =~= s4 + (SUMMARIZED_FILTER@ + SUMMARIZED_ORDER@));
    } else {
        text::push_str(&mut sql, PUBLISHED_ORDER);
    }
    assert(p@.map_values(|q: SqlParam| q@) =~= (match feed_id {
        Some(f) => seq![SqlParamView::Int(f)],
        None => seq![],
    }) + (match category {
        Some(c) => seq![SqlParamView::Text(c@)],
        None => seq![],
    }));
    (sql, p)
}

// ---------------------------------------------------------------------------
// search
// ---------------------------------------------------------------------------

/// How a search query runs. The trigram full-text index needs terms of three or
/// more characters; shorter terms (common in Japanese) use substring matching.
pub enum SearchPlan {
    /// no terms: no results
    Empty,
    /// full-text `MATCH` with this expression
    FullText { match_expr: String },
    /// `LIKE` with one pattern per term, all of which must match
    Substring { patterns: Vec<String> },
}

/// A term quoted so that the full-text engine takes it literally.
pub open spec fn fts_quote(t: Seq<char>) -> Seq<char> {
    "\""@ + text::replace_all(t, "\""@, "\"\""@) + "\""@
}

/// Every quote of `s` is doubled (an FTS5 string literal's body).
pub open spec fn quotes_doubled(s: Seq<char>) -> bool
    decreases s.len(),
{
    if s.len() == 0 {
        true
    } else if s[0] == '"' {
        s.len() >= 2 && s[1] == '"' && quotes_doubled(s.skip(2))
    } else {
        quotes_doubled(s.skip(1))
    }
}

/// The text an FTS5 string literal's body stands for: doubled quotes read as one.
pub open spec fn undouble_quotes(s: Seq<char>) -> Seq<char>
    decreases s.len(),
{
    if s.len() == 0 {
        s
    } else if s.len() >= 2 && s[0] == '"' && s[1] == '"' {
        seq!['"'] + undouble_quotes(s.skip(2))
    } else {
        seq![s[0]] + undouble_quotes(s.skip(1))
    }
}

/// A quoted term is one FTS5 string literal standing for exactly the term, so user
/// input is matched literally and never read as query syntax.
pub proof fn lemma_fts_quote_literal(t: Seq<char>)
    ensures
        fts_quote(t) == seq!['"'] + text::replace_all(t, "\""@, "\"\""@) + seq!['"'],
        quotes_doubled(text::replace_all(t, "\""@, "\"\""@)),
        undouble_quotes(text::replace_all(t, "\""@, "\"\""@)) == t,
    decreases t.len(),
{
    reveal_strlit("\"");
    reveal_strlit("\"\"");
    let q = "\""@;
    let qq = "\"\""@;
    assert(q =~= seq!['"']);
    assert(qq =~= seq!['"', '"']);
    if t.len() > 0 {
        lemma_fts_quote_literal(t.skip(1));
        let rest = text::replace_all(t.skip(1), q, qq);
        let r = text::replace_all(t, q, qq);
        if t[0] == '"' {
            assert(text::starts_with(t, q)) by {
                assert(t.take(1) =~= q);
            }
            assert(r == qq + rest);
            assert(r.skip(2) =~= rest);
            assert(t =~= seq!['"'] + t.skip(1));
        } else {
            assert(!text::starts_with(t, q)) by {
                if text::starts_with(t, q) {
                    assert(t.take(1)[0] == q[0]);
                }
            }
            assert(r == seq![t[0]] + rest);
            assert(r.skip(1) =~= rest);
            assert(t =~= seq![t[0]] + t.skip(1));
        }
    } else {
        assert(text::replace_all(t, q, qq) =~= t);
    }
}

/// A term as a `LIKE ... ESCAPE '\'` pattern matching it as a substring.
pub open spec fn like_pattern(t: Seq<char>) -> Seq<char> {
    "%"@ + text::replace_all(
        text::replace_all(text::replace_all(t, "\\"@, "\\\\"@), "%"@, "\\%"@),
        "_"@,
        "\\_"@,
    ) + "%"@
}

/// How a `LIKE ... ESCAPE '\'` pattern writes one character of a term: the escape
/// character and the two wildcards behind a backslash, anything else as it is.
pub open spec fn like_escape_char(c: char) -> Seq<char> {
    if c == '\\' || c == '%' || c == '_' {
        seq!['\\', c]
    } else {
        seq![c]
    }
}

pub open spec fn like_escaped(t: Seq<char>) -> Seq<char>
    decreases t.len(),
{
    if t.len() == 0 {
        seq![]
    } else {
        like_escape_char(t[0]) + like_escaped(t.skip(1))
    }
}

/// No unescaped wildcard: every `%` and `_` follows an escaping backslash.
pub open spec fn wildcard_free(s: Seq<char>) -> bool
    decreases s.len(),
{
    if s.len() == 0 {
        true
    } else if s[0] == '\\' {
        s.len() >= 2 && wildcard_free(s.skip(2))
    } else if s[0] == '%' || s[0] == '_' {
        false
    } else {
        wildcard_free(s.skip(1))
    }
}

/// The text an escaped pattern body matches: each backslash-escaped character
/// read as itself.
pub open spec fn like_unescaped(s: Seq<char>) -> Seq<char>
    decreases s.len(),
{
    if s.len() == 0 {
        s
    } else if s[0] == '\\' && s.len() >= 2 {
        seq![s[1]] + like_unescaped(s.skip(2))
    } else {
        seq![s[0]] + like_unescaped(s.skip(1))
    }
}

proof fn lemma_replace_one_concat(x: Seq<char>, y: Seq<char>, p: Seq<char>, rep: Seq<char>)
    requires
        p.len() == 1,
    ensures
        text::replace_all(x + y, p, rep) == text::replace_all(x, p, rep) + text::replace_all(y, p, rep),
    decreases x.len(),
{
    if x.len() == 0 {
        assert(x + y =~= y);
        assert(text::replace_all(x, p, rep) =~= Seq::<char>::empty());
    } else {
        let xy = x + y;
        lemma_replace_one_concat(x.skip(1), y, p, rep);
        assert(xy.skip(1) =~= x.skip(1) + y);
        assert(xy.take(1) =~= x.take(1));
        assert(text::starts_with(xy, p) == text::starts_with(x, p));
        if text::starts_with(x, p) {
            assert(text::replace_all(xy, p, rep) == rep + text::replace_all(xy.skip(1), p, rep));
            assert(text::replace_all(x, p, rep) == rep + text::replace_all(x.skip(1), p, rep));
        } else {
            assert(xy[0] == x[0]);
        }
        assert(text::replace_all(xy, p, rep) =~= text::replace_all(x, p, rep) + text::replace_all(y, p, rep));
    }
}

proof fn lemma_replace_one_char(c: char, p: Seq<char>, rep: Seq<char>)
    requires
        p.len() == 1,
    ensures
        text::replace_all(seq![c], p, rep) == (if c == p[0] {
            rep
        } else {
            seq![c]
        }),
{
    let s = seq![c];
    assert(s.take(1) =~= s);
    assert(text::starts_with(s, p) == (c == p[0])) by {
        if c == p[0] {
            assert(s =~= p);
        }
    }
    assert(s.skip(1) =~= Seq::<char>::empty());
    assert(text::replace_all(Seq::<char>::empty(), p, rep) =~= Seq::<char>::empty());
    if c == p[0] {
        assert(rep + Seq::<char>::empty() =~= rep);
    } else {
        assert(seq![c] + Seq::<char>::empty() =~= seq![c]);
    }
}

/// The three escaping passes of `like_pattern`, in its order.
pub open spec fn like_passes(t: Seq<char>) -> Seq<char> {
    text::replace_all(
        text::replace_all(text::replace_all(t, "\\"@, "\\\\"@), "%"@, "\\%"@),
        "_"@,
        "\\_"@,
    )
}

proof fn lemma_like_passes_char(c: char)
    ensures
        like_passes(seq![c]) == like_escape_char(c),
{
    reveal_strlit("\\");
    reveal_strlit("\\\\");
    reveal_strlit("%");
    reveal_strlit("\\%");
    reveal_strlit("_");
    reveal_strlit("\\_");
    let b = "\\"@;
    let bb = "\\\\"@;
    let pc = "%"@;
    let bpc = "\\%"@;
    let us = "_"@;
    let bus = "\\_"@;
    assert(b =~= seq!['\\']);
    assert(bb =~= seq!['\\', '\\']);
    assert(pc =~= seq!['%']);
    assert(bpc =~= seq!['\\', '%']);
    assert(us =~= seq!['_']);
    assert(bus =~= seq!['\\', '_']);
    lemma_replace_one_char(c, b, bb);
    lemma_replace_one_char('\\', pc, bpc);
    lemma_replace_one_char('\\', us, bus);
    lemma_replace_one_char('%', us, bus);
    lemma_replace_one_char(c, pc, bpc);
    lemma_replace_one_char(c, us, bus);
    assert(seq!['\\', '\\'] =~= seq!['\\'] + seq!['\\']);
    assert(seq!['\\', '%'] =~= seq!['\\'] + seq!['%']);
    lemma_replace_one_concat(seq!['\\'], seq!['\\'], pc, bpc);
    lemma_replace_one_concat(seq!['\\'], seq!['\\'], us, bus);
    lemma_replace_one_concat(seq!['\\'], seq!['%'], us, bus);
}

proof fn lemma_like_passes(t: Seq<char>)
    ensures
        like_passes(t) == like_escaped(t),
    decreases t.len(),
{
    reveal_strlit("\\");
    reveal_strlit("%");
    reveal_strlit("_");
    if t.len() == 0 {
        assert(text::replace_all(t, "\\"@, "\\\\"@) =~= t);
        assert(text::replace_all(t, "%"@, "\\%"@) =~= t);
        assert(text::replace_all(t, "_"@, "\\_"@) =~= t);
    } else {
        let h = seq![t[0]];
        let rest = t.skip(1);
        assert(t =~= h + rest);
        lemma_like_passes(rest);
        lemma_like_passes_char(t[0]);
        let r1h = text::replace_all(h, "\\"@, "\\\\"@);
        let r1t = text::replace_all(rest, "\\"@, "\\\\"@);
        lemma_replace_one_concat(h, rest, "\\"@, "\\\\"@);
        let r2h = text::replace_all(r1h, "%"@, "\\%"@);
        let r2t = text::replace_all(r1t, "%"@, "\\%"@);
        lemma_replace_one_concat(r1h, r1t, "%"@, "\\%"@);
        lemma_replace_one_concat(r2h, r2t, "_"@, "\\_"@);
    }
}

/// A substring pattern matches the term literally: it is the escaped term between
/// two `%`, with no unescaped wildcard, and unescaping gives the term back.
pub proof fn lemma_like_pattern_literal(t: Seq<char>)
    ensures
        like_pattern(t) == seq!['%'] + like_escaped(t) + seq!['%'],
        wildcard_free(like_escaped(t)),
        like_unescaped(like_escaped(t)) == t,
    decreases t.len(),
{
    reveal_strlit("%");
    lemma_like_passes(t);
    assert("%"@ =~= seq!['%']);
    if t.len() > 0 {
        lemma_like_pattern_literal(t.skip(1));
        let e = like_escaped(t);
        let rest = like_escaped(t.skip(1));
        let c = t[0];
        assert(t =~= seq![c] + t.skip(1));
        if c == '\\' || c == '%' || c == '_' {
            assert(e == seq!['\\', c] + rest);
            assert(e.skip(2) =~= rest);
        } else {
            assert(e == seq![c] + rest);
            assert(e.skip(1) =~= rest);
        }
    }
}

pub ghost enum SearchPlanView {
    Empty,
    FullText { match_expr: Seq<char> },
    Substring { patterns: Seq<Seq<char>> },
}

impl View for SearchPlan {
    type V = SearchPlanView;

    open spec fn view(&self) -> SearchPlanView {
        match self {
            SearchPlan::Empty => SearchPlanView::Empty,
            SearchPlan::FullText { match_expr } => SearchPlanView::FullText {
                match_expr: match_expr@,
            },
            SearchPlan::Substring { patterns } => SearchPlanView::Substring {
                patterns: patterns@.map_values(|p: String| p@),
            },
        }
    }
}

/// Terms are the whitespace-separated words of the query; all of three or more
/// characters: their quoted forms joined with ` AND `; otherwise one substring
/// pattern per term.
pub open spec fn spec_search_plan(query: Seq<char>) -> SearchPlanView {
    let terms = text::words(query);
    if terms.len() == 0 {
        SearchPlanView::Empty
    } else if forall|i: int| 0 <= i < terms.len() ==> #[trigger] terms[i].len() >= 3 {
        SearchPlanView::FullText {
            match_expr: text::seq_join(terms.map_values(|t: Seq<char>| fts_quote(t)), " AND "@),
        }
    } else {
        SearchPlanView::Substring { patterns: terms.map_values(|t: Seq<char>| like_pattern(t)) }
    }
}

/// How a search is planned from the query's whitespace-separated terms: no terms,
/// no search; the trigram full-text index only when every term has at least three
/// characters; as soon as one term is shorter, one literal substring pattern per
/// term, in order, each the escaped term between two `%`.
pub proof fn lemma_search_plan_kind(query: Seq<char>)
    ensures
        spec_search_plan(query) is Empty <==> text::words(query).len() == 0,
        spec_search_plan(query) is FullText <==> (text::words(query).len() > 0 && forall|i: int|
            0 <= i < text::words(query).len() ==> #[trigger] text::words(query)[i].len() >= 3),
        (exists|i: int| 0 <= i < text::words(query).len() && #[trigger] text::words(query)[i].len() < 3)
            ==> (spec_search_plan(query) matches SearchPlanView::Substring { patterns }
            && patterns.len() == text::words(query).len() && forall|i: int|
            0 <= i < patterns.len() ==> #[trigger] patterns[i] == seq!['%'] + like_escaped(
                text::words(query)[i],
            ) + seq!['%']),
{
    let terms = text::words(query);
    assert forall|i: int| 0 <= i < terms.len() implies #[trigger] like_pattern(terms[i]) == seq!['%']
        + like_escaped(terms[i]) + seq!['%'] by {
        lemma_like_pattern_literal(terms[i]);
    }
}

fn fts_quote_vec(t: &Vec<char>) -> (r: Vec<char>)
    ensures
        r@ == fts_quote(t@),
{
    proof {
        reveal_strlit("\"");
    }
    let mut out = text::chars_of("\"");
    let inner = text::replace_str(t, "\"", "\"\"");
    text::append_all(&mut out, &inner);
    text::append_all(&mut out, &text::chars_of("\""));
    out
}

fn like_pattern_vec(t: &Vec<char>) -> (r: Vec<char>)
    ensures
        r@ == like_pattern(t@),
{
    proof {
        reveal_strlit("\\");
        reveal_strlit("%");
        reveal_strlit("_");
    }
    let a = text::replace_str(t, "\\", "\\\\");
    let b = text::replace_str(&a, "%", "\\%");
    let c = text::replace_str(&b, "_", "\\_");
    let mut out = text::chars_of("%");
    text::append_all(&mut out, &c);
    text::append_all(&mut out, &text::chars_of("%"));
    out
}

pub fn search_plan(query: &str) -> (r: SearchPlan)
    ensures
        r@ == spec_search_plan(query@),
{
    let terms = text::split_ws(&text::chars_of(query));
    let ghost tv = terms@.map_values(|w: Vec<char>| w@);
    if terms.len() == 0 {
        return SearchPlan::Empty;
    }
    let mut all_long = true;
    let mut i: usize = 0;
    while i < terms.len()
        invariant
            i <= terms@.len(),
            tv == terms@.map_values(|w: Vec<char>| w@),
            all_long == forall|k: int| 0 <= k < i ==> #[trigger] tv[k].len() >= 3,
        decreases terms@.len() - i,
    {
        if terms[i].len() < 3 {
            all_long = false;
        }
        i += 1;
        proof {
            if all_long {
                assert forall|k: int| 0 <= k < i implies #[trigger] tv[k].len() >= 3 by {}
            } else {
                assert(exists|k: int| 0 <= k < i && tv[k].len() < 3) by {
                    if terms@[i - 1]@.len() < 3 {
                        assert(tv[i - 1].len() < 3);
                    }
                }
            }
        }
    }
    if all_long {
        let mut quoted: Vec<Vec<char>> = Vec::new();
        let mut j: usize = 0;
        while j < terms.len()
            invariant
                j <= terms@.len(),
                tv == terms@.map_values(|w: Vec<char>| w@),
                quoted@.map_values(|w: Vec<char>| w@) == tv.take(j as int).map_values(
                    |t: Seq<char>| fts_quote(t),
                ),
            decreases terms@.len() - j,
        {
            assert(tv[j as int] == terms@[j as int]@);
            let ghost old_q = quoted@.map_values(|w: Vec<char>| w@);
            let qj = fts_quote_vec(&terms[j]);
            let ghost qv = qj@;
            quoted.push(qj);
            assert(quoted@.map_values(|w: Vec<char>| w@) =~= old_q.push(qv));
            assert(tv.take(j + 1).map_values(|t: Seq<char>| fts_quote(t)) =~= tv.take(
                j as int,
            ).map_values(|t: Seq<char>| fts_quote(t)).push(fts_quote(tv[j as int])));
            j += 1;
            assert(quoted@.map_values(|w: Vec<char>| w@) =~= tv.take(j as int).map_values(
                |t: Seq<char>| fts_quote(t),
            ));
        }
        assert(tv.take(terms@.len() as int) =~= tv);
        let sep = text::chars_of(" AND ");
        let e = text::join_vec(&quoted, &sep);
        SearchPlan::FullText { match_expr: text::string_from_chars(&e) }
    } else {
        let mut pats: Vec<String> = Vec::new();
        let mut j: usize = 0;
        while j < terms.len()
            invariant
                j <= terms@.len(),
                tv == terms@.map_values(|w: Vec<char>| w@),
                pats@.map_values(|p: String| p@) == tv.take(j as int).map_values(
                    |t: Seq<char>| like_pattern(t),
                ),
            decreases terms@.len() - j,
        {
            assert(tv[j as int] == terms@[j as int]@);
            let ghost old_p = pats@.map_values(|p: String| p@);
            let pj = text::string_from_chars(&like_pattern_vec(&terms[j]));
            let ghost pv = pj@;
            pats.push(pj);
            assert(pats@.map_values(|p: String| p@) =~= old_p.push(pv));
            assert(tv.take(j + 1).map_values(|t: Seq<char>| like_pattern(t)) =~= tv.take(
                j as int,
            ).map_values(|t: Seq<char>| like_pattern(t)).push(like_pattern(tv[j as int])));
            j += 1;
            assert(pats@.map_values(|p: String| p@) =~= tv.take(j as int).map_values(
                |t: Seq<char>| like_pattern(t),
            ));
        }
        assert(tv.take(terms@.len() as int) =~= tv);
        SearchPlan::Substring { patterns: pats }
    }
}

pub const FTS_SEARCH_SQL: &'static str = "SELECT a.id, a.feed_id, f.title, a.guid, a.title, a.url, a.author, a.summary, NULL, NULL, a.ai_summary, a.ai_summary_model, (SELECT status FROM article_summary_jobs j WHERE j.article_id = a.id), (SELECT error FROM article_summary_jobs j WHERE j.article_id = a.id), COALESCE((SELECT reviewed_at IS NOT NULL FROM article_summary_jobs j WHERE j.article_id = a.id), 0), a.published_at, a.read, a.starred FROM articles_fts fts JOIN articles a ON a.id = fts.rowid JOIN feeds f ON f.id = a.feed_id WHERE articles_fts MATCH ?1 ORDER BY bm25(articles_fts), a.published_at DESC LIMIT ?2";

/// The substring condition for the term bound to parameter `?n`.
pub open spec fn like_clause(n: nat) -> Seq<char> {
    let p = "?"@ + numbers::decimal(n);
    " AND (a.title LIKE "@ + p + " ESCAPE '\\' OR COALESCE(a.summary,'') LIKE "@ + p
        + " ESCAPE '\\' OR f.title LIKE "@ + p + " ESCAPE '\\' OR COALESCE(a.full_text,'') LIKE "@
        + p + " ESCAPE '\\')"@
}

pub open spec fn like_clauses(n: nat) -> Seq<char>
    decreases n,
{
    if n == 0 {
        seq![]
    } else {
        like_clauses((n - 1) as nat) + like_clause(n)
    }
}

/// The substring search query for `n` terms: a clause per term bound to `?1`..`?n`,
/// the limit bound to `?n+1`.
pub open spec fn spec_substring_search_sql(n: nat) -> Seq<char> {
    "SELECT "@ + ARTICLE_LIST_COLS@ + LIST_FROM@ + like_clauses(n) + " ORDER BY a.published_at DESC LIMIT ?"@
        + numbers::decimal(n + 1)
}

fn like_clause_string(n: i64) -> (r: String)
    requires
        n >= 0,
    ensures
        r@ == like_clause(n as nat),
{
    let p = numbers::format_i64(n);
    let mut out = text::string_of(" AND (a.title LIKE ?");
    text::push_chars(&mut out, &p);
    text::push_str(&mut out, " ESCAPE '\\' OR COALESCE(a.summary,'') LIKE ?");
    text::push_chars(&mut out, &p);
    text::push_str(&mut out, " ESCAPE '\\' OR f.title LIKE ?");
    text::push_chars(&mut out, &p);
    text::push_str(&mut out, " ESCAPE '\\' OR COALESCE(a.full_text,'') LIKE ?");
    text::push_chars(&mut out, &p);
    text::push_str(&mut out, " ESCAPE '\\')");
    proof {
        reveal_strlit(" AND (a.title LIKE ?");
        reveal_strlit(" AND (a.title LIKE ");
        reveal_strlit(" ESCAPE '\\' OR COALESCE(a.summary,'') LIKE ?");
        reveal_strlit(" ESCAPE '\\' OR COALESCE(a.summary,'') LIKE ");
        reveal_strlit(" ESCAPE '\\' OR f.title LIKE ?");
        reveal_strlit(" ESCAPE '\\' OR f.title LIKE ");
        reveal_strlit(" ESCAPE '\\' OR COALESCE(a.full_text,'') LIKE ?");
        reveal_strlit(" ESCAPE '\\' OR COALESCE(a.full_text,'') LIKE ");
        reveal_strlit("?");
        assert(out@ =~= like_clause(n as nat));
    }
    out
}

/// The substring search query for `n` terms.
pub fn substring_search_sql(n: usize) -> (r: String)
    requires
        n < i64::MAX,
    ensures
        r@ == spec_substring_search_sql(n as nat),
{
    let mut sql = text::string_of("SELECT ");
    text::push_str(&mut sql, ARTICLE_LIST_COLS);
    text::push_str(&mut sql, LIST_FROM);
    let ghost head = sql@;
    let mut k: usize = 0;
    while k < n
        invariant
            k <= n < i64::MAX,
            sql@ == head + like_clauses(k as nat),
        decreases n - k,
    {
        k += 1;
        let c = like_clause_string(k as i64);
        text::push_str(&mut sql, c.as_str());
    }
    text::push_str(&mut sql, " ORDER BY a.published_at DESC LIMIT ?");
    let last = numbers::format_i64(n as i64 + 1);
    text::push_chars(&mut sql, &last);
    sql
}

// ---------------------------------------------------------------------------
// schema upgrades
// ---------------------------------------------------------------------------

/// A column added to an existing database: its name and the statement adding it.
pub open spec fn migration_views(m: Seq<(&'static str, &'static str)>) -> Seq<(Seq<char>, Seq<char>)> {
    m.map_values(|c: (&'static str, &'static str)| (c.0@, c.1@))
}

pub open spec fn str_views(m: Seq<&'static str>) -> Seq<Seq<char>> {
    m.map_values(|c: &'static str| c@)
}

/// Columns that feeds gained after the first schema.
pub fn feed_column_migrations() -> (r: Vec<(&'static str, &'static str)>)
    ensures
        migration_views(r@) == seq![
            ("category"@, "ALTER TABLE feeds ADD COLUMN category TEXT"@),
            ("last_error"@, "ALTER TABLE feeds ADD COLUMN last_error TEXT"@),
        ],
{
    let r = vec![
        ("category", "ALTER TABLE feeds ADD COLUMN category TEXT"),
        ("last_error", "ALTER TABLE feeds ADD COLUMN last_error TEXT"),
    ];
    assert(migration_views(r@) =~= seq![
        ("category"@, "ALTER TABLE feeds ADD COLUMN category TEXT"@),
        ("last_error"@, "ALTER TABLE feeds ADD COLUMN last_error TEXT"@),
    ]);
    r
}

/// Columns that articles gained after the first schema.
pub fn article_column_migrations() -> (r: Vec<(&'static str, &'static str)>)
    ensures
        migration_views(r@) == seq![
            ("full_text"@, "ALTER TABLE articles ADD COLUMN full_text TEXT"@),
            ("ai_summary"@, "ALTER TABLE articles ADD COLUMN ai_summary TEXT"@),
            ("ai_summary_model"@, "ALTER TABLE articles ADD COLUMN ai_summary_model TEXT"@),
            ("ai_summary_updated_at"@, "ALTER TABLE articles ADD COLUMN ai_summary_updated_at INTEGER"@),
        ],
{
    let r = vec![
        ("full_text", "ALTER TABLE articles ADD COLUMN full_text TEXT"),
        ("ai_summary", "ALTER TABLE articles ADD COLUMN ai_summary TEXT"),
        ("ai_summary_model", "ALTER TABLE articles ADD COLUMN ai_summary_model TEXT"),
        ("ai_summary_updated_at", "ALTER TABLE articles ADD COLUMN ai_summary_updated_at INTEGER"),
    ];
    assert(migration_views(r@) =~= seq![
        ("full_text"@, "ALTER TABLE articles ADD COLUMN full_text TEXT"@),
        ("ai_summary"@, "ALTER TABLE articles ADD COLUMN ai_summary TEXT"@),
        ("ai_summary_model"@, "ALTER TABLE articles ADD COLUMN ai_summary_model TEXT"@),
        ("ai_summary_updated_at"@, "ALTER TABLE articles ADD COLUMN ai_summary_updated_at INTEGER"@),
    ]);
    r
}

/// The statements adding the columns that are not present yet, in order.
pub open spec fn missing_ddls(migrations: Seq<(Seq<char>, Seq<char>)>, present: Seq<bool>) -> Seq<Seq<char>>
    decreases migrations.len(),
{
    if migrations.len() == 0 {
        seq![]
    } else {
        let rest = missing_ddls(migrations.drop_last(), present.drop_last());
        if present.last() {
            rest
        } else {
            rest.push(migrations.last().1)
        }
    }
}

/// Which column additions to run, given for each column whether it is present.
pub fn ddls_to_run(migrations: &Vec<(&'static str, &'static str)>, present: &Vec<bool>) -> (r: Vec<&'static str>)
    requires
        migrations@.len() == present@.len(),
    ensures
        str_views(r@) == missing_ddls(migration_views(migrations@), present@),
{
    let ghost mv = migration_views(migrations@);
    let mut out: Vec<&'static str> = Vec::new();
    let mut i: usize = 0;
    assert(mv.take(0) =~= Seq::<(Seq<char>, Seq<char>)>::empty());
    assert(str_views(out@) =~= Seq::<Seq<char>>::empty());
    while i < migrations.len()
        invariant
            i <= migrations@.len() == present@.len(),
            mv == migration_views(migrations@),
            str_views(out@) == missing_ddls(mv.take(i as int), present@.take(i as int)),
        decreases migrations@.len() - i,
    {
        let ghost old_out = str_views(out@);
        proof {
            assert(mv.take(i + 1).drop_last() =~= mv.take(i as int));
            assert(present@.take(i + 1).drop_last() =~= present@.take(i as int));
            assert(mv.take(i + 1).last() == (migrations@[i as int].0@, migrations@[i as int].1@));
            assert(present@.take(i + 1).last() == present@[i as int]);
        }
        if !present[i] {
            out.push(migrations[i].1);
            assert(str_views(out@) =~= old_out.push(migrations@[i as int].1@));
        }
        i += 1;
    }
    assert(mv.take(migrations@.len() as int) =~= mv);
    assert(present@.take(present@.len() as int) =~= present@);
    out
}

/// The full-text index is rebuilt once when it exists without the `full_text`
/// column (virtual tables cannot add columns).
pub fn fts_rebuild_needed(fts_exists: bool, has_full_text: bool) -> (r: bool)
    ensures
        r == (fts_exists && !has_full_text),
{
    fts_exists && !has_full_text
}

/// The probe asking whether `table` has a column named by `?1`.
pub fn column_probe_sql(table: &str) -> (r: String)
    ensures
        r@ == "SELECT 1 FROM pragma_table_info('"@ + table@ + "') WHERE name = ?1"@,
{
    let mut q = text::string_of("SELECT 1 FROM pragma_table_info('");
    text::push_str(&mut q, table);
    text::push_str(&mut q, "') WHERE name = ?1");
    q
}

/// The statement dropping `column` from `table`.
pub fn drop_column_sql(table: &str, column: &str) -> (r: String)
    ensures
        r@ == "ALTER TABLE "@ + table@ + " DROP COLUMN "@ + column@,
{
    let mut q = text::string_of("ALTER TABLE ");
    text::push_str(&mut q, table);
    text::push_str(&mut q, " DROP COLUMN ");
    text::push_str(&mut q, column);
    q
}

/// Digest columns that an earlier design kept on articles and that are dropped
/// when present.
pub fn obsolete_article_columns() -> (r: Vec<&'static str>)
    ensures
        str_views(r@) == seq!["title_ja"@, "summary_ja"@, "comments_summary_ja"@, "comments_url"@],
{
    let r = vec!["title_ja", "summary_ja", "comments_summary_ja", "comments_url"];
    assert(str_views(r@) =~= seq!["title_ja"@, "summary_ja"@, "comments_summary_ja"@, "comments_url"@]);
    r
}

/// The position of the feed with this id in a feed list.
pub fn feed_index(feeds: &Vec<Feed>, id: i64) -> (r: Option<usize>)
    ensures
        match r {
            Some(i) => i < feeds@.len() && feeds@[i as int].id == id && forall|j: int| 0 <= j < i ==> feeds@[j].id != id,
            None => forall|j: int| 0 <= j < feeds@.len() ==> feeds@[j].id != id,
        },
{
    let mut i: usize = 0;
    while i < feeds.len()
        invariant
            i <= feeds@.len(),
            forall|j: int| 0 <= j < i ==> feeds@[j].id != id,
        decreases feeds@.len() - i,
    {
        if feeds[i].id == id {
            return Some(i);
        }
        i += 1;
    }
    None
}

// ---------------------------------------------------------------------------
// small decisions
// ---------------------------------------------------------------------------

/// Which articles "mark all read" covers: a feed when one is given, else a
/// category when one is given, else everything.
pub enum MarkScope {
    Feed(i64),
    Category(String),
    All,
}

pub fn mark_scope(feed_id: Option<i64>, category: Option<&str>) -> (r: MarkScope)
    ensures
        feed_id matches Some(f) ==> r == MarkScope::Feed(f),
        feed_id is None && category is Some ==> (r matches MarkScope::Category(c) && c@
            == category->0@),
        feed_id is None && category is None ==> r is All,
{
    match (feed_id, category) {
        (Some(f), _) => MarkScope::Feed(f),
        (None, Some(c)) => MarkScope::Category(text::string_of(c)),
        (None, None) => MarkScope::All,
    }
}

/// Characters of a failed summary job's error that are stored.
pub const JOB_ERROR_CHARS: usize = 1000;

/// The error text stored for a failed summary job: its first 1000 characters.
pub fn job_error_text(error: &str) -> (r: String)
    ensures
        r@ == error@.take(if 1000 < error@.len() { 1000int } else { error@.len() as int }),
{
    let v = text::chars_of(error);
    text::string_from_chars(&text::take_chars(&v, JOB_ERROR_CHARS))
}

/// What setting an article's AI feedback does: value 0 clears it, any other
/// value is stored.
pub enum FeedbackChange {
    Clear { article_id: i64 },
    Store { article_id: i64, value: i8 },
}

pub fn feedback_change(article_id: i64, value: i8) -> (r: FeedbackChange)
    ensures
        value == 0 ==> r == (FeedbackChange::Clear { article_id }),
        value != 0 ==> r == (FeedbackChange::Store { article_id, value }),
{
    if value == 0 {
        FeedbackChange::Clear { article_id }
    } else {
        FeedbackChange::Store { article_id, value }
    }
}

/// Counts of the summary queue; an empty queue sums to NULL, read as 0.
pub fn summary_stats(pending: Option<i64>, unreviewed: Option<i64>, failed: Option<i64>) -> (r: SummaryStats)
    ensures
        r.pending == (match pending { Some(v) => v, None => 0 }),
        r.unreviewed == (match unreviewed { Some(v) => v, None => 0 }),
        r.failed == (match failed { Some(v) => v, None => 0 }),
{
    SummaryStats {
        pending: match pending {
            Some(v) => v,
            None => 0,
        },
        unreviewed: match unreviewed {
            Some(v) => v,
            None => 0,
        },
        failed: match failed {
            Some(v) => v,
            None => 0,
        },
    }
}

} // verus!
