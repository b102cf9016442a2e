//! Feed documents and web pages after they are fetched: feed parsing (by
//! feed-rs) into new articles, page text extraction, and feed autodiscovery.

use vstd::prelude::*;
use crate::db::NewArticle;
use crate::feed_guard;
use crate::html;
use crate::numbers;
use crate::text;
use feed_rs::parser::parse;

pub use crate::html::strip_html;

verus! {

/// `feed_rs::parser::ParseFeedError`, carried opaquely to the rendering of its
/// message.
#[verifier::external_type_specification]
#[verifier::external_body]
pub struct ExParseFeedError(feed_rs::parser::ParseFeedError);

/// A fetched and parsed feed.
pub struct FetchedFeed {
    pub title: String,
    pub site_url: Option<String>,
    pub articles: Vec<NewArticle>,
}

/// What the library reads of one parsed feed entry.
pub struct FeedEntryFields {
    pub id: String,
    /// title text
    pub title: Option<String>,
    /// hrefs of its links, in order
    pub links: Vec<String>,
    /// summary text (HTML)
    pub summary: Option<String>,
    /// body of the content element
    pub content_body: Option<String>,
    /// names of its authors, in order
    pub authors: Vec<String>,
    /// publication time, seconds since the epoch
    pub published: Option<i64>,
    /// last update time, seconds since the epoch
    pub updated: Option<i64>,
}

/// An entry's fields other than its id.
pub ghost struct EntryView {
    pub title: Option<Seq<char>>,
    pub links: Seq<Seq<char>>,
    pub summary: Option<Seq<char>>,
    pub content_body: Option<Seq<char>>,
    pub authors: Seq<Seq<char>>,
    pub published: Option<i64>,
    pub updated: Option<i64>,
}

pub open spec fn string_views(v: Seq<String>) -> Seq<Seq<char>> {
    v.map_values(|s: String| s@)
}

pub open spec fn entry_view(e: FeedEntryFields) -> EntryView {
    EntryView {
        title: opt_view(e.title),
        links: string_views(e.links@),
        summary: opt_view(e.summary),
        content_body: opt_view(e.content_body),
        authors: string_views(e.authors@),
        published: e.published,
        updated: e.updated,
    }
}

/// What `feed_rs::parser::parse` makes of a document, as far as it depends on the
/// bytes alone: `None` when it fails, else the feed's title text, the `href` and
/// `rel` of its links, and each entry's fields other than its id, in order.
pub uninterp spec fn spec_feed_document(bytes: Seq<u8>) -> Option<(Option<Seq<char>>, Seq<(Seq<char>, Option<Seq<char>>)>, Seq<EntryView>)>;

/// The `href` and `rel` of each feed link.
pub open spec fn link_views(links: Seq<(String, Option<String>)>) -> Seq<(Seq<char>, Option<Seq<char>>)> {
    links.map_values(|l: (String, Option<String>)| (l.0@, opt_view(l.1)))
}

pub open spec fn entry_views(entries: Seq<FeedEntryFields>) -> Seq<EntryView> {
    entries.map_values(|e: FeedEntryFields| entry_view(e))
}

/// `feed_rs::parser::parse` on the fetched bytes, giving the feed's title text, the
/// `href` and `rel` of its links and, for each entry in document order, its id,
/// title text, link hrefs, summary text, content body, author names, and
/// publication and update times as `DateTime::timestamp` seconds. The outcome and
/// everything but the entry ids are named by `spec_feed_document`; an id is not,
/// since feed-rs gives an entry without id, link and title a random one. The
/// parser panics on some Media RSS timing attributes and iTunes durations (see
/// `feed_guard`), which `requires` leaves out.
#[verifier::external_body]
fn parse_feed_document(bytes: &[u8]) -> (r: Result<(Option<String>, Vec<(String, Option<String>)>, Vec<FeedEntryFields>), feed_rs::parser::ParseFeedError>)
    requires
        feed_guard::parse_safe(bytes@),
    ensures
        match r {
            Ok((t, links, entries)) => spec_feed_document(bytes@) == Some(
                (opt_view(t), link_views(links@), entry_views(entries@)),
            ),
            Err(_) => spec_feed_document(bytes@) is None,
        },
{
    let f = parse(bytes)?;
    Ok((f.title.map(|t| t.content), f.links.into_iter().map(|l| (l.href, l.rel)).collect(),
        f.entries.into_iter().map(|e| entry_fields(e.id, e.title.map(|t| t.content),
            e.links.into_iter().map(|l| l.href).collect(), e.summary.map(|t| t.content),
            e.content.and_then(|c| c.body), e.authors.into_iter().map(|p| p.name).collect(),
            e.published.map(|d| d.timestamp()), e.updated.map(|d| d.timestamp()))).collect()))
}

/// An entry's fields, in the order of `FeedEntryFields`.
fn entry_fields(
    id: String,
    title: Option<String>,
    links: Vec<String>,
    summary: Option<String>,
    content_body: Option<String>,
    authors: Vec<String>,
    published: Option<i64>,
    updated: Option<i64>,
) -> (r: FeedEntryFields)
    ensures
        r == (FeedEntryFields { id, title, links, summary, content_body, authors, published, updated }),
{
    FeedEntryFields { id, title, links, summary, content_body, authors, published, updated }
}

/// The `Display` text of a feed-rs parse error; nothing is claimed of it (the
/// error is opaque here).
#[verifier::external_body]
fn parse_error_text(e: &feed_rs::parser::ParseFeedError) -> String {
    format!("{e}")
}

pub open spec fn opt_view(o: Option<String>) -> Option<Seq<char>> {
    match o {
        Some(s) => Some(s@),
        None => None,
    }
}

pub open spec fn first_of(s: Seq<Seq<char>>) -> Option<Seq<char>> {
    if s.len() > 0 {
        Some(s[0])
    } else {
        None
    }
}

/// Characters of an entry summary kept for list views.
pub const SUMMARY_MAX_CHARS: usize = 500;

/// How an entry's fields (other than its id) become a new article: its title
/// (empty if absent), its first link, its first author, its summary as plain text
/// (500 characters at most), its content body or else its raw summary as HTML,
/// and its publication or else update time.
pub open spec fn article_matches_view(a: NewArticle, e: EntryView) -> bool {
    &&& a.title@ == (match e.title {
        Some(t) => t,
        None => seq![],
    })
    &&& opt_view(a.url) == first_of(e.links)
    &&& opt_view(a.author) == first_of(e.authors)
    &&& opt_view(a.summary) == (match e.summary {
        Some(s) => Some(html::spec_strip_html(s, 500)),
        None => None,
    })
    &&& opt_view(a.content_html) == (match e.content_body {
        Some(b) => Some(b),
        None => e.summary,
    })
    &&& a.published_at == (match e.published {
        Some(p) => Some(p),
        None => e.updated,
    })
}

/// The article made from an entry: its id as guid, the rest as
/// `article_matches_view` states.
pub open spec fn article_matches_entry(a: NewArticle, e: FeedEntryFields) -> bool {
    a.guid@ == e.id@ && article_matches_view(a, entry_view(e))
}

fn copy_opt(o: &Option<String>) -> (r: Option<String>)
    ensures
        opt_view(r) == opt_view(*o),
{
    match o {
        Some(s) => Some(text::string_of(s.as_str())),
        None => None,
    }
}

fn copy_first(v: &Vec<String>) -> (r: Option<String>)
    ensures
        opt_view(r) == first_of(string_views(v@)),
{
    if v.len() > 0 {
        Some(text::string_of(v[0].as_str()))
    } else {
        None
    }
}

pub fn new_article_from(e: &FeedEntryFields) -> (r: NewArticle)
    ensures
        article_matches_entry(r, *e),
{
    NewArticle {
        guid: text::string_of(e.id.as_str()),
        title: match &e.title {
            Some(t) => text::string_of(t.as_str()),
            None => String::new(),
        },
        url: copy_first(&e.links),
        author: copy_first(&e.authors),
        summary: match &e.summary {
            Some(s) => Some(html::strip_html(s.as_str(), SUMMARY_MAX_CHARS)),
            None => None,
        },
        content_html: match &e.content_body {
            Some(b) => Some(text::string_of(b.as_str())),
            None => copy_opt(&e.summary),
        },
        published_at: match e.published {
            Some(p) => Some(p),
            None => e.updated,
        },
    }
}

/// The href of the first link (`href`, `rel`) whose `rel` is not `self`.
pub open spec fn spec_site_url(links: Seq<(Seq<char>, Option<Seq<char>>)>) -> Option<Seq<char>>
    decreases links.len(),
{
    if links.len() == 0 {
        None
    } else if links[0].1 != Some("self"@) {
        Some(links[0].0)
    } else {
        spec_site_url(links.skip(1))
    }
}

/// The site URL is the href of the first link whose `rel` is not `self`: every
/// link before it is a `self` link, and there is none only when every link is one.
pub proof fn lemma_site_url_first_non_self(links: Seq<(Seq<char>, Option<Seq<char>>)>)
    ensures
        spec_site_url(links) matches Some(h) ==> exists|k: int|
            0 <= k < links.len() && (#[trigger] links[k]).0 == h && links[k].1 != Some("self"@)
                && forall|j: int| 0 <= j < k ==> (#[trigger] links[j]).1 == Some("self"@),
        spec_site_url(links) is None <==> forall|j: int|
            0 <= j < links.len() ==> (#[trigger] links[j]).1 == Some("self"@),
    decreases links.len(),
{
    if links.len() > 0 {
        let rest = links.skip(1);
        lemma_site_url_first_non_self(rest);
        if links[0].1 != Some("self"@) {
            assert(links[0].0 == spec_site_url(links)->0);
        } else {
            assert forall|j: int| 0 <= j < rest.len() implies rest[j] == links[j + 1] by {}
            if spec_site_url(rest) is Some {
                let h = spec_site_url(rest)->0;
                let k = choose|k: int|
                    0 <= k < rest.len() && (#[trigger] rest[k]).0 == h && rest[k].1 != Some("self"@)
                        && forall|j: int| 0 <= j < k ==> (#[trigger] rest[j]).1 == Some("self"@);
                assert(links[k + 1] == rest[k]);
                assert forall|j: int| 0 <= j < k + 1 implies (#[trigger] links[j]).1 == Some("self"@) by {
                    if j > 0 {
                        assert(links[j] == rest[j - 1]);
                    }
                }
            } else {
                assert forall|j: int| 0 <= j < links.len() implies (#[trigger] links[j]).1 == Some("self"@) by {
                    if j > 0 {
                        assert(links[j] == rest[j - 1]);
                    }
                }
            }
        }
    }
}

pub fn site_url(links: &Vec<(String, Option<String>)>) -> (r: Option<String>)
    ensures
        opt_view(r) == spec_site_url(link_views(links@)),
{
    let ghost lv = link_views(links@);
    let self_rel = text::chars_of("self");
    let mut i: usize = 0;
    assert(lv.skip(0) =~= lv);
    while i < links.len()
        invariant
            i <= links@.len(),
            self_rel@ == "self"@,
            lv == link_views(links@),
            spec_site_url(lv) == spec_site_url(lv.skip(i as int)),
        decreases links@.len() - i,
    {
        let l = &links[i];
        let ghost rest = lv.skip(i as int);
        assert(rest[0] == (links@[i as int].0@, opt_view(links@[i as int].1)));
        let is_self = match &l.1 {
            Some(r) => text::seq_eq(&text::chars_of(r.as_str()), &self_rel),
            None => false,
        };
        if !is_self {
            return Some(text::string_of(l.0.as_str()));
        }
        assert(rest.skip(1) =~= lv.skip(i + 1));
        i += 1;
    }
    None
}

/// The feed as stored: its title (else the URL it was fetched from), its site URL,
/// and one new article per entry in document order.
pub fn fetched_feed(url: &str, title: Option<String>, links: &Vec<(String, Option<String>)>, entries: &Vec<FeedEntryFields>) -> (r: FetchedFeed)
    ensures
        r.title@ == (match title {
            Some(t) => t@,
            None => url@,
        }),
        opt_view(r.site_url) == spec_site_url(link_views(links@)),
        r.articles@.len() == entries@.len(),
        forall|i: int| 0 <= i < entries@.len() ==> article_matches_entry(
            #[trigger] r.articles@[i],
            entries@[i],
        ),
{
    let mut articles: Vec<NewArticle> = Vec::new();
    let mut i: usize = 0;
    while i < entries.len()
        invariant
            i <= entries@.len(),
            articles@.len() == i,
            forall|k: int| 0 <= k < i ==> article_matches_entry(#[trigger] articles@[k], entries@[k]),
        decreases entries@.len() - i,
    {
        articles.push(new_article_from(&entries[i]));
        i += 1;
    }
    FetchedFeed {
        title: match title {
            Some(t) => t,
            None => text::string_of(url),
        },
        site_url: site_url(links),
        articles,
    }
}

pub const PARSE_ERROR_PREFIX: &'static str = "フィードを解析できません: ";

/// The reason given for a document the parser is not called on.
pub const UNSAFE_DOCUMENT_REASON: &'static str = "解析できない時間指定を含む可能性があります";

/// Parses a fetched feed document into the feed as stored: the parsed title (else
/// the URL it was fetched from), the site URL, and one article per entry, the k-th
/// made from the k-th entry as `article_matches_view` states. A parse failure is
/// reported with the parser's message; a document outside `parse_safe` is not
/// parsed and is reported as such.
pub fn feed_from_bytes(url: &str, bytes: &[u8]) -> (r: Result<FetchedFeed, String>)
    ensures
        !feed_guard::parse_safe(bytes@) ==> (r matches Err(e) && e@ == PARSE_ERROR_PREFIX@
            + UNSAFE_DOCUMENT_REASON@),
        feed_guard::parse_safe(bytes@) ==> match spec_feed_document(bytes@) {
            None => r matches Err(e) && text::starts_with(e@, PARSE_ERROR_PREFIX@),
            Some((title, links, entries)) => r matches Ok(f) && f.title@ == (match title {
                Some(t) => t,
                None => url@,
            }) && opt_view(f.site_url) == spec_site_url(links) && f.articles@.len() == entries.len()
                && forall|k: int| 0 <= k < entries.len() ==> #[trigger] article_matches_view(
                f.articles@[k],
                entries[k],
            ),
        },
{
    if !feed_guard::is_parse_safe(bytes) {
        let mut msg = text::string_of(PARSE_ERROR_PREFIX);
        text::push_str(&mut msg, UNSAFE_DOCUMENT_REASON);
        return Err(msg);
    }
    match parse_feed_document(bytes) {
        Err(e) => {
            let mut msg = text::string_of(PARSE_ERROR_PREFIX);
            let detail = parse_error_text(&e);
            text::push_str(&mut msg, detail.as_str());
            assert(msg@.take(PARSE_ERROR_PREFIX@.len() as int) =~= PARSE_ERROR_PREFIX@);
            Err(msg)
        },
        Ok((title, links, entries)) => {
            let f = fetched_feed(url, title, &links, &entries);
            assert forall|k: int| 0 <= k < entries@.len() implies #[trigger] article_matches_view(
                f.articles@[k],
                entry_views(entries@)[k],
            ) by {
                assert(article_matches_entry(f.articles@[k], entries@[k]));
            }
            Ok(f)
        },
    }
}

// ---------------------------------------------------------------------------
// HTTP status
// ---------------------------------------------------------------------------

/// The canonical reason phrase of an HTTP status code in http's table, if it has
/// one.
pub uninterp spec fn spec_status_reason(code: u16) -> Option<Seq<char>>;

/// `StatusCode::from_u16(code)` and its `canonical_reason()` (the http crate, as
/// reqwest re-exports it). Claims only that the phrase is a function of the code;
/// the table is not restated.
#[verifier::external_body]
fn status_reason(code: u16) -> (r: Option<String>)
    requires
        100 <= code <= 999,
    ensures
        opt_view(r) == spec_status_reason(code),
{
    reqwest::StatusCode::from_u16(code).ok().and_then(|s| s.canonical_reason()).map(String::from)
}

/// The error for a response that is not a success, as the status is displayed:
/// its code and reason phrase.
pub open spec fn spec_status_error(code: u16) -> Seq<char> {
    "HTTP "@ + numbers::spec_format_i64(code as i64) + " "@ + (match spec_status_reason(code) {
        Some(r) => r,
        None => "<unknown status code>"@,
    }) + " が返されました"@
}

/// Only a 2xx response is read; any other status is an error.
pub fn check_status(code: u16) -> (r: Result<(), String>)
    requires
        100 <= code <= 999,
    ensures
        r is Ok <==> (200 <= code && code < 300),
        r matches Err(e) ==> e@ == spec_status_error(code),
{
    if 200 <= code && code < 300 {
        return Ok(());
    }
    let mut msg = text::string_of("HTTP ");
    text::push_chars(&mut msg, &numbers::format_i64(code as i64));
    text::push_str(&mut msg, " ");
    match status_reason(code) {
        Some(reason) => text::push_str(&mut msg, reason.as_str()),
        None => text::push_str(&mut msg, "<unknown status code>"),
    }
    text::push_str(&mut msg, " が返されました");
    Err(msg)
}

// ---------------------------------------------------------------------------
// page text
// ---------------------------------------------------------------------------

/// `html` without its `<tag ...>...</tag>` blocks (tag matched ignoring ASCII case,
/// on characters, for the reason given in `html`),
/// scanning from `pos`; an unclosed block drops the rest of the page.
pub open spec fn remove_blocks_from(html: Seq<char>, tag: Seq<char>, pos: int) -> Seq<char>
    decreases html.len() - pos,
{
    let lower = text::lower_seq(html);
    let open = seq!['<'] + tag;
    let close = seq!['<', '/'] + tag + seq!['>'];
    if pos < 0 || pos > html.len() {
        seq![]
    } else {
        match text::find_from(lower, open, pos) {
            None => html.skip(pos),
            Some(start) => {
                proof {
                    text::lemma_find_from_bounds(lower, open, pos);
                }
                match text::find_from(lower, close, start) {
                    None => html.subrange(pos, start),
                    Some(end) => {
                        proof {
                            text::lemma_find_from_bounds(lower, close, start);
                        }
                        html.subrange(pos, start) + remove_blocks_from(html, tag, end + close.len())
                    },
                }
            },
        }
    }
}

/// Remove `<tag ...>...</tag>` blocks (case-insensitive), e.g. script/style.
pub fn remove_blocks(html: &Vec<char>, tag: &str) -> (r: Vec<char>)
    ensures
        r@ == remove_blocks_from(html@, tag@, 0),
{
    let lower = text::lower_vec(html);
    let mut open = text::chars_of("<");
    text::append_all(&mut open, &text::chars_of(tag));
    let mut close = text::chars_of("</");
    text::append_all(&mut close, &text::chars_of(tag));
    close.push('>');
    proof {
        reveal_strlit("<");
        reveal_strlit("</");
        assert(open@ =~= seq!['<'] + tag@);
        assert(close@ =~= seq!['<', '/'] + tag@ + seq!['>']);
    }
    let mut out: Vec<char> = Vec::new();
    let mut pos: usize = 0;
    loop
        invariant
            pos <= html@.len(),
            lower@ == text::lower_seq(html@),
            open@ == seq!['<'] + tag@,
            close@ == seq!['<', '/'] + tag@ + seq!['>'],
            out@ + remove_blocks_from(html@, tag@, pos as int) == remove_blocks_from(html@, tag@, 0),
        decreases html@.len() - pos,
    {
        proof {
            text::lemma_find_from_bounds(lower@, open@, pos as int);
        }
        match text::find_vec(&lower, &open, pos) {
            None => {
                text::append_range(&mut out, html, pos, html.len());
                assert(html@.subrange(pos as int, html@.len() as int) =~= html@.skip(pos as int));
                return out;
            },
            Some(start) => {
                proof {
                    text::lemma_find_from_bounds(lower@, close@, start as int);
                }
                match text::find_vec(&lower, &close, start) {
                    None => {
                        text::append_range(&mut out, html, pos, start);
                        return out;
                    },
                    Some(end) => {
                        let ghost old_out = out@;
                        let ghost old_pos = pos;
                        text::append_range(&mut out, html, pos, start);
                        pos = end + close.len();
                        assert(out@ + remove_blocks_from(html@, tag@, pos as int) =~= old_out + (
                        html@.subrange(old_pos as int, start as int)
                            + remove_blocks_from(html@, tag@, pos as int)));
                    },
                }
            },
        }
    }
}

pub const NO_TEXT_MESSAGE: &'static str = "本文テキストを抽出できませんでした";

/// Readable text of a fetched page for LLM summarization: scripts and styles
/// removed, tags stripped, at most `max_chars` characters; blank text is an error.
pub open spec fn spec_page_text(page: Seq<char>, max_chars: int) -> Result<Seq<char>, Seq<char>> {
    let no_scripts = remove_blocks_from(page, "script"@, 0);
    let no_styles = remove_blocks_from(no_scripts, "style"@, 0);
    let t = html::spec_strip_html(no_styles, max_chars);
    if text::trim(t).len() == 0 {
        Err(NO_TEXT_MESSAGE@)
    } else {
        Ok(t)
    }
}

pub fn page_text(page: &str, max_chars: usize) -> (r: Result<String, String>)
    ensures
        match (r, spec_page_text(page@, max_chars as int)) {
            (Ok(a), Ok(b)) => a@ == b,
            (Err(a), Err(b)) => a@ == b,
            _ => false,
        },
{
    let v = text::chars_of(page);
    let a = remove_blocks(&v, "script");
    let b = remove_blocks(&a, "style");
    let t = html::strip_html_chars(&b, max_chars);
    if text::is_blank(&t) {
        Err(text::string_of(NO_TEXT_MESSAGE))
    } else {
        Ok(text::string_from_chars(&t))
    }
}

// ---------------------------------------------------------------------------
// feed autodiscovery
// ---------------------------------------------------------------------------

/// `href` resolved against the page URL `base` as `Url::parse(base)` followed by
/// `Url::join(href)` and `Url::to_string` do; `None` when either step fails.
pub uninterp spec fn spec_resolve_url(base: Seq<char>, href: Seq<char>) -> Option<Seq<char>>;

/// `reqwest::Url::parse(base)` then `join(href)` on the parsed URL, rendered with
/// `to_string`. Claims only that the outcome is a function of the two strings.
#[verifier::external_body]
fn resolve_url(base: &str, href: &str) -> (r: Option<String>)
    ensures
        opt_view(r) == spec_resolve_url(base@, href@),
{
    let base_url = reqwest::Url::parse(base).ok()?;
    base_url.join(href).ok().map(|u| u.to_string())
}

pub open spec fn contains(s: Seq<char>, pat: Seq<char>) -> bool {
    text::find_from(s, pat, 0) is Some
}

/// Whether a `<link ...>` tag (lower-cased) announces an RSS or Atom feed.
pub open spec fn is_feed_link(tag_lower: Seq<char>) -> bool {
    contains(tag_lower, "alternate"@) && (contains(tag_lower, "application/rss+xml"@) || contains(
        tag_lower,
        "application/atom+xml"@,
    ))
}

/// The feed URL a feed link tag yields: its `href` when that starts with `http`,
/// else the `href` resolved against the page URL.
pub open spec fn link_target(tag: Seq<char>, base: Seq<char>) -> Option<Seq<char>> {
    match html::spec_extract_attr(tag, "href"@) {
        Some(h) => if text::starts_with(h, "http"@) {
            Some(h)
        } else {
            spec_resolve_url(base, h)
        },
        None => None,
    }
}

/// The first feed URL announced by a `<link>` tag at or after `pos`; the scan stops
/// at a `<link` without a closing `>`.
pub open spec fn discover_from(page: Seq<char>, base: Seq<char>, pos: int) -> Option<Seq<char>>
    decreases page.len() - pos,
{
    let lower = text::lower_seq(page);
    if pos < 0 || pos > page.len() {
        None
    } else {
        match text::find_from(lower, "<link"@, pos) {
            None => None,
            Some(start) => match text::find_char_from(lower, '>', start) {
                None => None,
                Some(end) => {
                    proof {
                        text::lemma_find_from_bounds(lower, "<link"@, pos);
                        text::lemma_find_char_from(lower, '>', start);
                    }
                    let tag = page.subrange(start, end + 1);
                    let found = if is_feed_link(lower.subrange(start, end + 1)) {
                        link_target(tag, base)
                    } else {
                        None
                    };
                    match found {
                        Some(u) => Some(u),
                        None => discover_from(page, base, end + 1),
                    }
                },
            },
        }
    }
}

/// The feed URL yielded by the `<link` tag that starts at `s`: the tag runs to the
/// next `>`; when it announces a feed, its target.
pub open spec fn link_tag_target(page: Seq<char>, base: Seq<char>, s: int) -> Option<Seq<char>> {
    let lower = text::lower_seq(page);
    match text::find_char_from(lower, '>', s) {
        None => None,
        Some(e) => if is_feed_link(lower.subrange(s, e + 1)) {
            link_target(page.subrange(s, e + 1), base)
        } else {
            None
        },
    }
}

/// Discovery takes the first feed link in document order: when the next `<link` tag
/// yields a feed URL, that URL is the result whatever follows; a tag that yields
/// none is passed over; and any URL found is the target of a feed-announcing
/// `<link` tag of the page.
pub proof fn lemma_discover_first_feed_link(page: Seq<char>, base: Seq<char>, pos: int)
    requires
        0 <= pos <= page.len(),
    ensures
        text::find_from(text::lower_seq(page), "<link"@, pos) matches Some(s) ==> (link_tag_target(
            page,
            base,
            s,
        ) matches Some(u) ==> discover_from(page, base, pos) == Some(u)),
        text::find_from(text::lower_seq(page), "<link"@, pos) matches Some(s) ==> (link_tag_target(
            page,
            base,
            s,
        ) is None ==> (text::find_char_from(text::lower_seq(page), '>', s) matches Some(e)
            ==> discover_from(page, base, pos) == discover_from(page, base, e + 1))),
        discover_from(page, base, pos) matches Some(u) ==> exists|s: int|
            pos <= s < page.len() && text::matches_at(text::lower_seq(page), "<link"@, s)
                && #[trigger] link_tag_target(page, base, s) == Some(u),
    decreases page.len() - pos,
{
    let lower = text::lower_seq(page);
    text::lemma_find_from_bounds(lower, "<link"@, pos);
    match text::find_from(lower, "<link"@, pos) {
        None => {},
        Some(s) => {
            text::lemma_find_char_from(lower, '>', s);
            match text::find_char_from(lower, '>', s) {
                None => {},
                Some(e) => {
                    assert(text::lower_seq(page).len() == page.len());
                    if link_tag_target(page, base, s) is None {
                        lemma_discover_first_feed_link(page, base, e + 1);
                    }
                },
            }
        },
    }
}

fn contains_exec(s: &Vec<char>, pat: &str) -> (r: bool)
    ensures
        r == contains(s@, pat@),
{
    let p = text::chars_of(pat);
    text::find_vec(s, &p, 0).is_some()
}

/// Find a feed URL inside an HTML page (`<link rel="alternate" type="application/rss+xml">`).
pub fn discover_feed_url(page: &str, base: &str) -> (r: Option<String>)
    ensures
        opt_view(r) == discover_from(page@, base@, 0),
{
    let v = text::chars_of(page);
    let lower = text::lower_vec(&v);
    let link = text::chars_of("<link");
    let href = text::chars_of("href");
    let http = text::chars_of("http");
    let mut pos: usize = 0;
    loop
        invariant
            pos <= v@.len(),
            v@ == page@,
            lower@ == text::lower_seq(v@),
            link@ == "<link"@,
            href@ == "href"@,
            http@ == "http"@,
            discover_from(page@, base@, 0) == discover_from(page@, base@, pos as int),
        decreases v@.len() - pos,
    {
        let start = match text::find_vec(&lower, &link, pos) {
            Some(s) => s,
            None => {
                return None;
            },
        };
        let end = match text::find_char(&lower, '>', start) {
            Some(e) => e,
            None => {
                return None;
            },
        };
        proof {
            text::lemma_find_from_bounds(lower@, link@, pos as int);
            text::lemma_find_char_from(lower@, '>', start as int);
        }
        let tag = text::subrange_vec(&v, start, end + 1);
        let tag_lower = text::subrange_vec(&lower, start, end + 1);
        if contains_exec(&tag_lower, "alternate") && (contains_exec(&tag_lower, "application/rss+xml")
            || contains_exec(&tag_lower, "application/atom+xml")) {
            match html::extract_attr_chars(&tag, &href) {
                Some(h) => {
                    if text::starts_with_vec(&h, &http) {
                        return Some(text::string_from_chars(&h));
                    }
                    let hs = text::string_from_chars(&h);
                    match resolve_url(base, hs.as_str()) {
                        Some(u) => {
                            return Some(u);
                        },
                        None => {},
                    }
                },
                None => {},
            }
        }
        pos = end + 1;
    }
}

} // verus!
