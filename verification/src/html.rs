//! Crude HTML / XML text handling: tag stripping for list summaries,
//! attribute extraction, entity unescaping and the OPML outline parser.
//!
//! Tag and attribute names are matched ignoring ASCII case, on characters. The
//! names searched for are all ASCII, so folding ASCII letters finds them wherever
//! a Unicode-lowercased copy would; searching such a copy and slicing the original
//! text at the copy's byte offsets would instead shift or break the slices
//! wherever lowercasing changes a character's UTF-8 length (the Kelvin sign
//! U+212A becomes `k`, for one).

use vstd::prelude::*;
use crate::text;

verus! {

// ---------------------------------------------------------------------------
// strip_html
// ---------------------------------------------------------------------------

/// Whether the tag stripper is inside a `<...>` tag after reading `s`.
pub open spec fn in_tag_after(s: Seq<char>) -> bool
    decreases s.len(),
{
    if s.len() == 0 {
        false
    } else if s.last() == '<' {
        true
    } else if s.last() == '>' {
        false
    } else {
        in_tag_after(s.drop_last())
    }
}

/// The characters of `s` outside `<...>` tags; the brackets themselves are dropped.
pub open spec fn untagged(s: Seq<char>) -> Seq<char>
    decreases s.len(),
{
    if s.len() == 0 {
        seq![]
    } else {
        let p = s.drop_last();
        let c = s.last();
        if c == '<' || c == '>' || in_tag_after(p) {
            untagged(p)
        } else {
            untagged(p).push(c)
        }
    }
}

/// The six entities that `strip_html` decodes, in the order it decodes them.
pub open spec fn decode_basic_entities(s: Seq<char>) -> Seq<char> {
    let s1 = text::replace_all(s, "&nbsp;"@, " "@);
    let s2 = text::replace_all(s1, "&amp;"@, "&"@);
    let s3 = text::replace_all(s2, "&lt;"@, "<"@);
    let s4 = text::replace_all(s3, "&gt;"@, ">"@);
    let s5 = text::replace_all(s4, "&quot;"@, "\""@);
    text::replace_all(s5, "&#39;"@, "'"@)
}

/// At most the first `n` characters of `s`.
pub open spec fn take_at_most(s: Seq<char>, n: int) -> Seq<char> {
    if n < s.len() {
        s.take(n)
    } else {
        s
    }
}

/// Text of `html` without tags, with basic entities decoded, whitespace runs
/// collapsed to single spaces, trimmed, and cut to `max_chars` characters.
pub open spec fn spec_strip_html(html: Seq<char>, max_chars: int) -> Seq<char> {
    take_at_most(text::seq_join(text::words(decode_basic_entities(untagged(html))), " "@), max_chars)
}

/// Stripped text never exceeds the character budget, and a budget at least as
/// long as the cleaned text keeps all of it.
pub proof fn lemma_strip_html_bounded(html: Seq<char>, max_chars: int)
    requires
        max_chars >= 0,
    ensures
        spec_strip_html(html, max_chars).len() <= max_chars,
        spec_strip_html(html, max_chars) == text::seq_join(
            text::words(decode_basic_entities(untagged(html))),
            " "@,
        ).take(spec_strip_html(html, max_chars).len() as int),
{
    let full = text::seq_join(text::words(decode_basic_entities(untagged(html))), " "@);
    assert(full.take(full.len() as int) =~= full);
}

fn remove_tags(html: &Vec<char>) -> (r: Vec<char>)
    ensures
        r@ == untagged(html@),
{
    let mut out: Vec<char> = Vec::new();
    let mut in_tag = false;
    let mut i: usize = 0;
    while i < html.len()
        invariant
            i <= html.len(),
            in_tag == in_tag_after(html@.take(i as int)),
            out@ == untagged(html@.take(i as int)),
        decreases html.len() - i,
    {
        let c = html[i];
        if c == '<' {
            in_tag = true;
        } else if c == '>' {
            in_tag = false;
        } else if !in_tag {
            out.push(c);
        }
        i += 1;
        assert(html@.take(i as int).drop_last() =~= html@.take(i - 1));
    }
    assert(html@.take(html.len() as int) =~= html@);
    out
}

fn decode_entities_vec(v: &Vec<char>) -> (r: Vec<char>)
    ensures
        r@ == decode_basic_entities(v@),
{
    proof {
        reveal_strlit("&nbsp;");
        reveal_strlit("&amp;");
        reveal_strlit("&lt;");
        reveal_strlit("&gt;");
        reveal_strlit("&quot;");
        reveal_strlit("&#39;");
    }
    let s1 = text::replace_str(v, "&nbsp;", " ");
    let s2 = text::replace_str(&s1, "&amp;", "&");
    let s3 = text::replace_str(&s2, "&lt;", "<");
    let s4 = text::replace_str(&s3, "&gt;", ">");
    let s5 = text::replace_str(&s4, "&quot;", "\"");
    text::replace_str(&s5, "&#39;", "'")
}

/// `strip_html` on character vectors.
pub fn strip_html_chars(html: &Vec<char>, max_chars: usize) -> (r: Vec<char>)
    ensures
        r@ == spec_strip_html(html@, max_chars as int),
{
    let untagged_text = remove_tags(html);
    let cleaned = decode_entities_vec(&untagged_text);
    let parts = text::split_ws(&cleaned);
    let space = text::chars_of(" ");
    let joined = text::join_vec(&parts, &space);
    text::take_chars(&joined, max_chars)
}

/// Crude tag stripper for list summaries; full content is rendered (sanitized) in the frontend.
pub fn strip_html(html: &str, max_chars: usize) -> (r: String)
    ensures
        r@ == spec_strip_html(html@, max_chars as int),
{
    let v = text::chars_of(html);
    let out = strip_html_chars(&v, max_chars);
    text::string_from_chars(&out)
}

// ---------------------------------------------------------------------------
// attributes and entities
// ---------------------------------------------------------------------------

/// The longest prefix of `s` that holds no `c` (`s.split(c).next()`).
pub open spec fn prefix_before(s: Seq<char>, c: char) -> Seq<char> {
    match text::find_char_from(s, c, 0) {
        Some(i) => s.take(i),
        None => s,
    }
}

/// Characters that end an unquoted attribute value.
pub open spec fn ends_bare_value(c: char) -> bool {
    c == ' ' || c == '>' || c == '/'
}

/// The longest prefix of `s` free of `' '`, `'>'` and `'/'`.
pub open spec fn bare_value(s: Seq<char>) -> Seq<char>
    decreases s.len(),
{
    if s.len() == 0 || ends_bare_value(s[0]) {
        seq![]
    } else {
        seq![s[0]] + bare_value(s.skip(1))
    }
}

/// The value of attribute `name` (given in lower case) in `tag`: the text after the
/// first `name=` (matched ignoring ASCII case), up to the closing quote when it is
/// quoted, else up to a space, `>` or `/`. `None` when `name=` is absent or ends the tag.
pub open spec fn spec_extract_attr(tag: Seq<char>, name: Seq<char>) -> Option<Seq<char>> {
    match text::find_from(text::lower_seq(tag), name.push('='), 0) {
        None => None,
        Some(i) => {
            let rest = tag.skip(i + name.len() + 1);
            if rest.len() == 0 {
                None
            } else if rest[0] == '"' || rest[0] == '\'' {
                Some(prefix_before(rest.skip(1), rest[0]))
            } else {
                Some(bare_value(rest))
            }
        },
    }
}

fn bare_value_vec(v: &Vec<char>, from: usize) -> (r: Vec<char>)
    requires
        from <= v.len(),
    ensures
        r@ == bare_value(v@.skip(from as int)),
{
    let mut end = from;
    while end < v.len() && !(v[end] == ' ' || v[end] == '>' || v[end] == '/')
        invariant
            from <= end <= v.len(),
            bare_value(v@.skip(from as int)) == v@.subrange(from as int, end as int) + bare_value(
                v@.skip(end as int),
            ),
        decreases v.len() - end,
    {
        assert(v@.skip(end as int).skip(1) =~= v@.skip(end + 1));
        assert(v@.subrange(from as int, end + 1) =~= v@.subrange(from as int, end as int).push(
            v@[end as int],
        ));
        end += 1;
    }
    let r = text::subrange_vec(v, from, end);
    assert(bare_value(v@.skip(end as int)) =~= Seq::<char>::empty());
    assert(r@ =~= r@ + Seq::<char>::empty());
    r
}

fn prefix_before_vec(v: &Vec<char>, from: usize, c: char) -> (r: Vec<char>)
    requires
        from <= v.len(),
    ensures
        r@ == prefix_before(v@.skip(from as int), c),
{
    let ghost s = v@.skip(from as int);
    let found = text::find_char(v, c, from);
    proof {
        text::lemma_find_char_from(v@, c, from as int);
        text::lemma_find_char_from(s, c, 0);
    }
    match found {
        Some(i) => {
            proof {
                assert(s[i - from] == c);
                assert forall|j: int| 0 <= j < i - from implies s[j] != c by {
                    assert(s[j] == v@[j + from]);
                }
                if let Some(k) = text::find_char_from(s, c, 0) {
                    assert(v@[k + from] == c);
                }
            }
            let r = text::subrange_vec(v, from, i);
            assert(r@ =~= s.take(i - from));
            r
        },
        None => {
            proof {
                if let Some(k) = text::find_char_from(s, c, 0) {
                    assert(v@[k + from] == c);
                }
            }
            let r = text::subrange_vec(v, from, v.len());
            assert(r@ =~= s);
            r
        },
    }
}

/// `extract_attr` on character vectors; `name` is lower case.
pub fn extract_attr_chars(tag: &Vec<char>, name: &Vec<char>) -> (r: Option<Vec<char>>)
    ensures
        r matches Some(v) ==> spec_extract_attr(tag@, name@) == Some(v@),
        r is None ==> spec_extract_attr(tag@, name@) is None,
{
    let lower = text::lower_vec(tag);
    let mut pat = text::copy_chars(name);
    pat.push('=');
    match text::find_vec(&lower, &pat, 0) {
        None => None,
        Some(i) => {
            proof {
                text::lemma_find_from_bounds(lower@, pat@, 0);
                assert(pat@ =~= name@.push('='));
                assert(lower@.len() == tag@.len());
                assert(text::matches_at(lower@, pat@, i as int));
                assert(i + pat@.len() <= lower@.len());
            }
            let nl: usize = name.len();
            let tl: usize = tag.len();
            assert(i + nl + 1 <= tl);
            let idx: usize = i + nl + 1;
            if idx >= tag.len() {
                assert(tag@.skip(idx as int).len() == 0);
                return None;
            }
            let q = tag[idx];
            assert(tag@.skip(idx as int)[0] == q);
            if q == '"' || q == '\'' {
                assert(tag@.skip(idx as int).skip(1) =~= tag@.skip(idx + 1));
                Some(prefix_before_vec(tag, idx + 1, q))
            } else {
                Some(bare_value_vec(tag, idx))
            }
        },
    }
}

pub fn extract_attr(tag: &str, name: &str) -> (r: Option<String>)
    ensures
        r matches Some(v) ==> spec_extract_attr(tag@, name@) == Some(v@),
        r is None ==> spec_extract_attr(tag@, name@) is None,
{
    let t = text::chars_of(tag);
    let n = text::chars_of(name);
    match extract_attr_chars(&t, &n) {
        Some(v) => Some(text::string_from_chars(&v)),
        None => None,
    }
}

/// The XML entities that OPML attribute values may carry, decoded in order.
pub open spec fn spec_xml_unescape(s: Seq<char>) -> Seq<char> {
    let s1 = text::replace_all(s, "&amp;"@, "&"@);
    let s2 = text::replace_all(s1, "&lt;"@, "<"@);
    let s3 = text::replace_all(s2, "&gt;"@, ">"@);
    let s4 = text::replace_all(s3, "&quot;"@, "\""@);
    let s5 = text::replace_all(s4, "&#39;"@, "'"@);
    text::replace_all(s5, "&apos;"@, "'"@)
}

pub fn xml_unescape_chars(v: &Vec<char>) -> (r: Vec<char>)
    ensures
        r@ == spec_xml_unescape(v@),
{
    proof {
        reveal_strlit("&amp;");
        reveal_strlit("&lt;");
        reveal_strlit("&gt;");
        reveal_strlit("&quot;");
        reveal_strlit("&#39;");
        reveal_strlit("&apos;");
    }
    let s1 = text::replace_str(v, "&amp;", "&");
    let s2 = text::replace_str(&s1, "&lt;", "<");
    let s3 = text::replace_str(&s2, "&gt;", ">");
    let s4 = text::replace_str(&s3, "&quot;", "\"");
    let s5 = text::replace_str(&s4, "&#39;", "'");
    text::replace_str(&s5, "&apos;", "'")
}

pub fn xml_unescape(s: &str) -> (r: String)
    ensures
        r@ == spec_xml_unescape(s@),
{
    let v = text::chars_of(s);
    let out = xml_unescape_chars(&v);
    text::string_from_chars(&out)
}

// ---------------------------------------------------------------------------
// OPML
// ---------------------------------------------------------------------------

/// One feed found in an OPML document.
pub struct OpmlFeed {
    pub url: String,
    pub title: String,
    /// the title of the innermost enclosing folder outline that has one
    pub category: Option<String>,
}

pub ghost struct OpmlFeedView {
    pub url: Seq<char>,
    pub title: Seq<char>,
    pub category: Option<Seq<char>>,
}

pub open spec fn opt_string_view(o: Option<String>) -> Option<Seq<char>> {
    match o {
        Some(s) => Some(s@),
        None => None,
    }
}

impl View for OpmlFeed {
    type V = OpmlFeedView;

    open spec fn view(&self) -> OpmlFeedView {
        OpmlFeedView { url: self.url@, title: self.title@, category: opt_string_view(self.category) }
    }
}

/// The last non-empty name on the folder stack.
pub open spec fn last_nonempty(stack: Seq<Seq<char>>) -> Option<Seq<char>>
    decreases stack.len(),
{
    if stack.len() == 0 {
        None
    } else if stack.last().len() > 0 {
        Some(stack.last())
    } else {
        last_nonempty(stack.drop_last())
    }
}

/// An `<outline ...>` tag ends in `/>` (whitespace before the `>` allowed).
pub open spec fn is_self_closing(tag: Seq<char>) -> bool {
    let t = text::trim_end(tag.drop_last());
    t.len() > 0 && t.last() == '/'
}

/// `title` attribute, else `text` attribute.
pub open spec fn title_or_text(tag: Seq<char>) -> Option<Seq<char>> {
    match spec_extract_attr(tag, "title"@) {
        Some(t) => Some(t),
        None => spec_extract_attr(tag, "text"@),
    }
}

/// The feed described by an outline tag that carries `xmlUrl`.
pub open spec fn opml_feed_of(tag: Seq<char>, xml_url: Seq<char>, stack: Seq<Seq<char>>) -> OpmlFeedView {
    let title = match title_or_text(tag) {
        Some(t) => t,
        None => xml_url,
    };
    OpmlFeedView {
        url: spec_xml_unescape(xml_url),
        title: spec_xml_unescape(title),
        category: last_nonempty(stack),
    }
}

/// The folder name an outline without `xmlUrl` pushes on the stack.
pub open spec fn folder_name(tag: Seq<char>) -> Seq<char> {
    match title_or_text(tag) {
        Some(t) => spec_xml_unescape(t),
        None => seq![],
    }
}

/// An outline is named by its `title` attribute when it has one: the feed's title
/// and the folder's name are then that attribute's unescaped value, whatever
/// `text` says. Only without `title` does `text` name it; without either, a feed
/// is titled by its URL and a folder has the empty name.
pub proof fn lemma_outline_title_first(tag: Seq<char>, xml_url: Seq<char>, stack: Seq<Seq<char>>)
    ensures
        spec_extract_attr(tag, "title"@) matches Some(t) ==> opml_feed_of(tag, xml_url, stack).title
            == spec_xml_unescape(t) && folder_name(tag) == spec_xml_unescape(t),
        spec_extract_attr(tag, "title"@) is None ==> (spec_extract_attr(tag, "text"@) matches Some(x)
            ==> opml_feed_of(tag, xml_url, stack).title == spec_xml_unescape(x) && folder_name(tag)
            == spec_xml_unescape(x)),
        spec_extract_attr(tag, "title"@) is None && spec_extract_attr(tag, "text"@) is None ==> (
        opml_feed_of(tag, xml_url, stack).title == spec_xml_unescape(xml_url) && folder_name(tag)
            == Seq::<char>::empty()),
        opml_feed_of(tag, xml_url, stack).url == spec_xml_unescape(xml_url),
        opml_feed_of(tag, xml_url, stack).category == last_nonempty(stack),
{
}

pub open spec fn pop_stack(stack: Seq<Seq<char>>) -> Seq<Seq<char>> {
    if stack.len() == 0 {
        stack
    } else {
        stack.drop_last()
    }
}

/// The OPML scanner from position `pos` on, with the folder `stack` and the `feeds`
/// found so far: it visits `<outline` and `</outline` markers (ignoring ASCII case)
/// in document order. An opening tag with `xmlUrl` yields a feed whose category is
/// the innermost non-empty folder name; an opening tag that is not self-closing
/// pushes its folder name (empty for feeds); a closing tag pops. The scan stops at
/// the end of the markers or at an opening tag without `>`.
pub open spec fn opml_scan(
    content: Seq<char>,
    pos: int,
    stack: Seq<Seq<char>>,
    feeds: Seq<OpmlFeedView>,
) -> Seq<OpmlFeedView>
    decreases content.len() - pos,
{
    let lower = text::lower_seq(content);
    if pos < 0 || pos > content.len() {
        feeds
    } else {
        let open = text::find_from(lower, "<outline"@, pos);
        let close = text::find_from(lower, "</outline"@, pos);
        proof {
            text::lemma_find_from_bounds(lower, "<outline"@, pos);
            text::lemma_find_from_bounds(lower, "</outline"@, pos);
        }
        if open is Some && (close is None || open->0 < close->0) {
            let o = open->0;
            match text::find_char_from(lower, '>', o) {
                None => feeds,
                Some(end) => {
                    proof {
                        text::lemma_find_char_from(lower, '>', o);
                    }
                    let tag = content.subrange(o, end + 1);
                    let closing = is_self_closing(tag);
                    match spec_extract_attr(tag, "xmlurl"@) {
                        Some(x) => {
                            let next_stack = if closing {
                                stack
                            } else {
                                stack.push(seq![])
                            };
                            opml_scan(
                                content,
                                end + 1,
                                next_stack,
                                feeds.push(opml_feed_of(tag, x, stack)),
                            )
                        },
                        None => {
                            let next_stack = if closing {
                                stack
                            } else {
                                stack.push(folder_name(tag))
                            };
                            opml_scan(content, end + 1, next_stack, feeds)
                        },
                    }
                },
            }
        } else if close is Some {
            proof {
                reveal_strlit("</outline");
            }
            opml_scan(content, close->0 + 9, pop_stack(stack), feeds)
        } else {
            feeds
        }
    }
}

/// Feeds of an OPML document in document order.
pub open spec fn spec_parse_opml(content: Seq<char>) -> Seq<OpmlFeedView> {
    opml_scan(content, 0, seq![], seq![])
}

/// `f` is the feed described by an `<outline` tag of `content` (from `o` to the `>`
/// at `e`) that carries `xmlUrl`, under some folder stack.
pub open spec fn from_outline_tag(content: Seq<char>, f: OpmlFeedView) -> bool {
    exists|o: int, e: int, x: Seq<char>, stack: Seq<Seq<char>>|
        0 <= o <= e < content.len() && text::matches_at(text::lower_seq(content), "<outline"@, o)
            && spec_extract_attr(content.subrange(o, e + 1), "xmlurl"@) == Some(x) && f
            == #[trigger] opml_feed_of(content.subrange(o, e + 1), x, stack)
}

proof fn lemma_opml_scan_from_outlines(
    content: Seq<char>,
    pos: int,
    stack: Seq<Seq<char>>,
    feeds: Seq<OpmlFeedView>,
)
    requires
        forall|k: int| 0 <= k < feeds.len() ==> from_outline_tag(content, #[trigger] feeds[k]),
    ensures
        forall|k: int|
            0 <= k < opml_scan(content, pos, stack, feeds).len() ==> from_outline_tag(
                content,
                #[trigger] opml_scan(content, pos, stack, feeds)[k],
            ),
    decreases content.len() - pos,
{
    let lower = text::lower_seq(content);
    if pos < 0 || pos > content.len() {
    } else {
        let open = text::find_from(lower, "<outline"@, pos);
        let close = text::find_from(lower, "</outline"@, pos);
        text::lemma_find_from_bounds(lower, "<outline"@, pos);
        text::lemma_find_from_bounds(lower, "</outline"@, pos);
        if open is Some && (close is None || open->0 < close->0) {
            let o = open->0;
            text::lemma_find_char_from(lower, '>', o);
            match text::find_char_from(lower, '>', o) {
                None => {},
                Some(end) => {
                    let tag = content.subrange(o, end + 1);
                    let closing = is_self_closing(tag);
                    match spec_extract_attr(tag, "xmlurl"@) {
                        Some(x) => {
                            let next_stack = if closing {
                                stack
                            } else {
                                stack.push(seq![])
                            };
                            let f = opml_feed_of(tag, x, stack);
                            let nf = feeds.push(f);
                            assert(from_outline_tag(content, f));
                            assert forall|k: int| 0 <= k < nf.len() implies from_outline_tag(
                                content,
                                #[trigger] nf[k],
                            ) by {
                                if k < feeds.len() {
                                    assert(nf[k] == feeds[k]);
                                }
                            }
                            lemma_opml_scan_from_outlines(content, end + 1, next_stack, nf);
                            assert(opml_scan(content, pos, stack, feeds) == opml_scan(
                                content,
                                end + 1,
                                next_stack,
                                nf,
                            ));
                        },
                        None => {
                            let next_stack = if closing {
                                stack
                            } else {
                                stack.push(folder_name(tag))
                            };
                            lemma_opml_scan_from_outlines(content, end + 1, next_stack, feeds);
                            assert(opml_scan(content, pos, stack, feeds) == opml_scan(
                                content,
                                end + 1,
                                next_stack,
                                feeds,
                            ));
                        },
                    }
                },
            }
        } else if close is Some {
            reveal_strlit("</outline");
            lemma_opml_scan_from_outlines(content, close->0 + 9, pop_stack(stack), feeds);
            assert(opml_scan(content, pos, stack, feeds) == opml_scan(
                content,
                close->0 + 9,
                pop_stack(stack),
                feeds,
            ));
        } else {
            assert(opml_scan(content, pos, stack, feeds) == feeds);
        }
    }
}

/// Every feed an OPML import lists comes from an `<outline` tag of the document
/// that carries `xmlUrl`: it is `opml_feed_of` that tag, so its URL is the
/// unescaped `xmlUrl` and its title the tag's `title` attribute when it has one
/// (see `lemma_outline_title_first`).
pub proof fn lemma_parse_opml_from_outlines(content: Seq<char>)
    ensures
        forall|k: int|
            0 <= k < spec_parse_opml(content).len() ==> from_outline_tag(
                content,
                #[trigger] spec_parse_opml(content)[k],
            ),
{
    lemma_opml_scan_from_outlines(content, 0, seq![], seq![]);
}

fn title_or_text_exec(tag: &Vec<char>) -> (r: Option<Vec<char>>)
    ensures
        r matches Some(v) ==> title_or_text(tag@) == Some(v@),
        r is None ==> title_or_text(tag@) is None,
{
    let title = text::chars_of("title");
    match extract_attr_chars(tag, &title) {
        Some(t) => Some(t),
        None => {
            let txt = text::chars_of("text");
            extract_attr_chars(tag, &txt)
        },
    }
}

fn self_closing_exec(tag: &Vec<char>) -> (r: bool)
    requires
        tag.len() >= 1,
    ensures
        r == is_self_closing(tag@),
{
    let mut b: usize = tag.len() - 1;
    while b > 0 && text::is_whitespace(tag[b - 1])
        invariant
            b <= tag.len() - 1,
            forall|j: int| b <= j < tag.len() - 1 ==> text::is_ws(tag@[j]),
        decreases b,
    {
        b -= 1;
    }
    proof {
        let inner = tag@.drop_last();
        assert forall|j: int| b <= j < inner.len() implies text::is_ws(inner[j]) by {
            assert(inner[j] == tag@[j]);
        }
        if b > 0 {
            assert(inner[b - 1] == tag@[b - 1]);
        }
        text::lemma_trim_end_index(inner, b as int);
        if b > 0 {
            assert(inner.take(b as int).last() == tag@[b - 1]);
        }
    }
    b > 0 && tag[b - 1] == '/'
}

fn opt_chars_to_string(v: &Option<Vec<char>>) -> (r: Option<String>)
    ensures
        opt_string_view(r) == match v {
            Some(x) => Some(x@),
            None => None::<Seq<char>>,
        },
{
    match v {
        Some(x) => Some(text::string_from_chars(x)),
        None => None,
    }
}

fn last_nonempty_exec(stack: &Vec<Vec<char>>) -> (r: Option<Vec<char>>)
    ensures
        (match r {
            Some(x) => Some(x@),
            None => None::<Seq<char>>,
        }) == last_nonempty(stack@.map_values(|w: Vec<char>| w@)),
{
    let ghost m = stack@.map_values(|w: Vec<char>| w@);
    let mut n: usize = stack.len();
    assert(m.take(n as int) =~= m);
    while n > 0
        invariant
            n <= stack.len(),
            m == stack@.map_values(|w: Vec<char>| w@),
            last_nonempty(m) == last_nonempty(m.take(n as int)),
        decreases n,
    {
        let ghost t = m.take(n as int);
        assert(t.last() == stack@[n - 1]@);
        if stack[n - 1].len() > 0 {
            return Some(text::copy_chars(&stack[n - 1]));
        }
        assert(t.drop_last() =~= m.take(n - 1));
        n -= 1;
    }
    assert(m.take(0) =~= Seq::<Seq<char>>::empty());
    None
}

/// Parse OPML text into feeds, resolving each feed's innermost enclosing
/// folder outline as its category.
pub fn parse_opml(content: &str) -> (r: Vec<OpmlFeed>)
    ensures
        r@.map_values(|f: OpmlFeed| f@) == spec_parse_opml(content@),
{
    let c = text::chars_of(content);
    let lower = text::lower_vec(&c);
    let open_pat = text::chars_of("<outline");
    let close_pat = text::chars_of("</outline");
    let xml_name = text::chars_of("xmlurl");
    proof {
        reveal_strlit("</outline");
    }
    let mut feeds: Vec<OpmlFeed> = Vec::new();
    let mut stack: Vec<Vec<char>> = Vec::new();
    let mut pos: usize = 0;
    assert(stack@.map_values(|w: Vec<char>| w@) =~= Seq::<Seq<char>>::empty());
    assert(feeds@.map_values(|f: OpmlFeed| f@) =~= Seq::<OpmlFeedView>::empty());
    loop
        invariant
            pos <= c@.len(),
            c@ == content@,
            lower@ == text::lower_seq(c@),
            open_pat@ == "<outline"@,
            close_pat@ == "</outline"@,
            xml_name@ == "xmlurl"@,
            close_pat@.len() == 9,
            opml_scan(c@, pos as int, stack@.map_values(|w: Vec<char>| w@), feeds@.map_values(
                |f: OpmlFeed| f@,
            )) == spec_parse_opml(content@),
        decreases c@.len() - pos,
    {
        let ghost st = stack@.map_values(|w: Vec<char>| w@);
        let ghost fd = feeds@.map_values(|f: OpmlFeed| f@);
        let open = text::find_vec(&lower, &open_pat, pos);
        let close = text::find_vec(&lower, &close_pat, pos);
        proof {
            text::lemma_find_from_bounds(lower@, open_pat@, pos as int);
            text::lemma_find_from_bounds(lower@, close_pat@, pos as int);
        }
        let take_open = match (open, close) {
            (Some(o), Some(cl)) => o < cl,
            (Some(_), None) => true,
            _ => false,
        };
        if take_open {
            let o = open.unwrap();
            let end = match text::find_char(&lower, '>', o) {
                Some(e) => e,
                None => {
                    return feeds;
                },
            };
            proof {
                text::lemma_find_char_from(lower@, '>', o as int);
            }
            let tag = text::subrange_vec(&c, o, end + 1);
            let closing = self_closing_exec(&tag);
            match extract_attr_chars(&tag, &xml_name) {
                Some(x) => {
                    let title = match title_or_text_exec(&tag) {
                        Some(t) => t,
                        None => text::copy_chars(&x),
                    };
                    let cat = last_nonempty_exec(&stack);
                    let url_s = text::string_from_chars(&xml_unescape_chars(&x));
                    let title_s = text::string_from_chars(&xml_unescape_chars(&title));
                    let feed = OpmlFeed { url: url_s, title: title_s, category: opt_chars_to_string(&cat) };
                    feeds.push(feed);
                    if !closing {
                        stack.push(Vec::new());
                    }
                    proof {
                        assert(feeds@.map_values(|f: OpmlFeed| f@) =~= fd.push(
                            opml_feed_of(tag@, x@, st),
                        ));
                        if !closing {
                            assert(stack@.map_values(|w: Vec<char>| w@) =~= st.push(seq![]));
                        }
                    }
                },
                None => {
                    if !closing {
                        let name = match title_or_text_exec(&tag) {
                            Some(t) => xml_unescape_chars(&t),
                            None => Vec::new(),
                        };
                        stack.push(name);
                        proof {
                            assert(stack@.map_values(|w: Vec<char>| w@) =~= st.push(folder_name(tag@)));
                        }
                    }
                },
            }
            pos = end + 1;
        } else {
            match close {
                Some(cl) => {
                    if stack.len() > 0 {
                        stack.pop();
                        assert(stack@.map_values(|w: Vec<char>| w@) =~= st.drop_last());
                    }
                    pos = cl + 9;
                },
                None => {
                    return feeds;
                },
            }
        }
    }
}

} // verus!
