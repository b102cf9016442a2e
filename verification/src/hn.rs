//! Hacker News source: front page rows, the digest queue and its writes.
//!
//! The front page comes from the Algolia HN API; each item is digested by the
//! digest engine (Japanese title, body digest, comments summary).

use vstd::prelude::*;
use crate::digest::{Digest, DigestView, TranslatedItem};
use crate::numbers;
use crate::text;

verus! {

pub const ITEM_TYPE: &'static str = "hn";

pub const DEFAULT_DIGEST_MODEL: &'static str = "openai-codex/gpt-5.6-luna";

pub const FRONT_PAGE_API: &'static str = "https://hn.algolia.com/api/v1/search?tags=front_page&hitsPerPage=30";

pub const COMMENTS_URL_PREFIX: &'static str = "https://news.ycombinator.com/item?id=";

/// Items per digest batch.
pub const BATCH_SIZE: usize = 4;

/// Batches digested in parallel per round.
pub const PARALLEL_BATCHES: usize = 3;

/// Rounds one digest run may take.
pub const MAX_ROUNDS: usize = 20;

/// Errored rounds without progress after which a run gives up.
pub const MAX_STALLED_ROUNDS: u32 = 3;

pub const BODY_MAX_CHARS: usize = 6000;

pub const COMMENTS_MAX_CHARS: usize = 5000;

/// Characters of a comments thread fetched for an on-demand summary.
pub const THREAD_MAX_CHARS: usize = 12000;

pub struct HnItem {
    pub id: i64,
    pub title: String,
    pub url: Option<String>,
    pub comments_url: String,
    pub points: i64,
    pub comments_count: i64,
    pub rank: i64,
    pub digest: Option<Digest>,
}

/// The discussion page of item `id`.
pub fn comments_url(id: i64) -> (r: String)
    ensures
        r@ == COMMENTS_URL_PREFIX@ + numbers::spec_format_i64(id),
{
    let mut out = text::string_of(COMMENTS_URL_PREFIX);
    text::push_chars(&mut out, &numbers::format_i64(id));
    out
}

/// The digest model setting, or the default when it is unset or blank.
pub open spec fn spec_selected_model(setting: Option<Seq<char>>, default: Seq<char>) -> Seq<char> {
    match setting {
        Some(m) => if text::trim(m).len() == 0 {
            default
        } else {
            m
        },
        None => default,
    }
}

pub fn selected_model(setting: &Option<String>, default: &str) -> (r: String)
    ensures
        r@ == spec_selected_model(
            match setting {
                Some(s) => Some(s@),
                None => None,
            },
            default@,
        ),
{
    match setting {
        Some(m) => {
            if text::is_blank(&text::chars_of(m.as_str())) {
                text::string_of(default)
            } else {
                text::string_of(m.as_str())
            }
        },
        None => text::string_of(default),
    }
}

// ---------------------------------------------------------------------------
// front page
// ---------------------------------------------------------------------------

/// One hit of the Algolia front page response.
pub struct FrontPageHit {
    pub object_id: String,
    pub title: Option<String>,
    pub url: Option<String>,
    pub points: Option<i64>,
    pub num_comments: Option<i64>,
}

/// One stored front page item.
pub struct FrontPageRow {
    pub id: i64,
    pub title: String,
    pub url: Option<String>,
    pub points: i64,
    pub comments_count: i64,
    pub rank: i64,
}

pub ghost struct FrontPageRowView {
    pub id: i64,
    pub title: Seq<char>,
    pub url: Option<Seq<char>>,
    pub points: i64,
    pub comments_count: i64,
    pub rank: i64,
}

pub open spec fn opt_view(o: Option<String>) -> Option<Seq<char>> {
    match o {
        Some(s) => Some(s@),
        None => None,
    }
}

impl View for FrontPageRow {
    type V = FrontPageRowView;

    open spec fn view(&self) -> FrontPageRowView {
        FrontPageRowView {
            id: self.id,
            title: self.title@,
            url: opt_view(self.url),
            points: self.points,
            comments_count: self.comments_count,
            rank: self.rank,
        }
    }
}

pub open spec fn unwrap_or_zero(o: Option<i64>) -> i64 {
    match o {
        Some(v) => v,
        None => 0,
    }
}

/// The rows stored for the hits: hits whose id parses as `i64` and whose title is
/// present and non-empty, ranked 1, 2, ... in response order.
pub open spec fn spec_front_page_rows(hits: Seq<FrontPageHit>) -> Seq<FrontPageRowView>
    decreases hits.len(),
{
    if hits.len() == 0 {
        seq![]
    } else {
        let rows = spec_front_page_rows(hits.drop_last());
        let h = hits.last();
        match (numbers::spec_parse_i64(h.object_id@), h.title) {
            (Some(id), Some(t)) => if t@.len() > 0 {
                rows.push(
                    FrontPageRowView {
                        id,
                        title: t@,
                        url: opt_view(h.url),
                        points: unwrap_or_zero(h.points),
                        comments_count: unwrap_or_zero(h.num_comments),
                        rank: (rows.len() + 1) as i64,
                    },
                )
            } else {
                rows
            },
            _ => rows,
        }
    }
}

/// The stored rows are ranked 1, 2, ... in response order, each has a non-empty
/// title, and there are never more of them than hits.
pub proof fn lemma_front_page_ranks(hits: Seq<FrontPageHit>)
    requires
        hits.len() < i64::MAX,
    ensures
        spec_front_page_rows(hits).len() <= hits.len(),
        forall|k: int| 0 <= k < spec_front_page_rows(hits).len() ==> #[trigger] spec_front_page_rows(
            hits,
        )[k].rank == k + 1,
        forall|k: int| 0 <= k < spec_front_page_rows(hits).len() ==> #[trigger] spec_front_page_rows(
            hits,
        )[k].title.len() > 0,
    decreases hits.len(),
{
    if hits.len() > 0 {
        lemma_front_page_ranks(hits.drop_last());
        let rows = spec_front_page_rows(hits.drop_last());
        let all = spec_front_page_rows(hits);
        assert forall|k: int| 0 <= k < all.len() implies #[trigger] all[k].rank == k + 1 by {
            if k < rows.len() {
                assert(all[k] == rows[k]);
            }
        }
    }
}

fn clone_opt(o: &Option<String>) -> (r: Option<String>)
    ensures
        opt_view(r) == opt_view(*o),
{
    match o {
        Some(s) => Some(text::string_of(s.as_str())),
        None => None,
    }
}

/// Fetch result of the front page turned into the rows that replace the stored items.
pub fn front_page_rows(hits: &Vec<FrontPageHit>) -> (r: Vec<FrontPageRow>)
    requires
        hits.len() < i64::MAX,
    ensures
        r@.map_values(|x: FrontPageRow| x@) == spec_front_page_rows(hits@),
{
    let mut rows: Vec<FrontPageRow> = Vec::new();
    let mut rank: i64 = 0;
    let mut i: usize = 0;
    assert(hits@.take(0) =~= Seq::<FrontPageHit>::empty());
    assert(rows@.map_values(|x: FrontPageRow| x@) =~= Seq::<FrontPageRowView>::empty());
    while i < hits.len()
        invariant
            i <= hits@.len() < i64::MAX,
            rows@.map_values(|x: FrontPageRow| x@) == spec_front_page_rows(hits@.take(i as int)),
            rank == rows@.len(),
            rows@.len() <= i,
        decreases hits@.len() - i,
    {
        let h = &hits[i];
        let ghost pre = hits@.take(i as int);
        let ghost post = hits@.take(i + 1);
        let ghost old_rows = rows@.map_values(|x: FrontPageRow| x@);
        proof {
            assert(post.drop_last() =~= pre);
            assert(post.last() == hits@[i as int]);
        }
        let id = numbers::parse_i64_str(h.object_id.as_str());
        match (id, &h.title) {
            (Some(id), Some(t)) => {
                if t.as_str().unicode_len() > 0 {
                    rank = rank + 1;
                    let row = FrontPageRow {
                        id,
                        title: text::string_of(t.as_str()),
                        url: clone_opt(&h.url),
                        points: match h.points {
                            Some(p) => p,
                            None => 0,
                        },
                        comments_count: match h.num_comments {
                            Some(c) => c,
                            None => 0,
                        },
                        rank,
                    };
                    rows.push(row);
                    assert(rows@.map_values(|x: FrontPageRow| x@) =~= spec_front_page_rows(post));
                }
            },
            _ => {},
        }
        i += 1;
    }
    assert(hits@.take(hits@.len() as int) =~= hits@);
    rows
}

// ---------------------------------------------------------------------------
// listing
// ---------------------------------------------------------------------------

pub open spec fn opt_digest_view(o: Option<Digest>) -> Option<DigestView> {
    match o {
        Some(d) => Some(d@),
        None => None,
    }
}

/// The digest the stored rows give item `id`: the last row for it, as a map
/// collected from the rows keeps it.
pub open spec fn last_digest(digests: Seq<(i64, Digest)>, id: i64) -> Option<DigestView>
    decreases digests.len(),
{
    if digests.len() == 0 {
        None
    } else if digests.last().0 == id {
        Some(digests.last().1@)
    } else {
        last_digest(digests.drop_last(), id)
    }
}

/// Whether an earlier row has the id of row `k` (the digest is taken out of the
/// map by the first item with that id).
pub open spec fn seen_before(rows: Seq<FrontPageRow>, k: int) -> bool {
    exists|j: int| 0 <= j < k && rows[j].id == rows[k].id
}

/// An item as listed: the stored row with its discussion page and its digest.
pub open spec fn listed_item(r: HnItem, row: FrontPageRowView, d: Option<DigestView>) -> bool {
    &&& r.id == row.id
    &&& r.title@ == row.title
    &&& opt_view(r.url) == row.url
    &&& r.comments_url@ == COMMENTS_URL_PREFIX@ + numbers::spec_format_i64(row.id)
    &&& r.points == row.points
    &&& r.comments_count == row.comments_count
    &&& r.rank == row.rank
    &&& opt_digest_view(r.digest) == d
}

fn find_last_digest(digests: &Vec<(i64, Digest)>, id: i64) -> (r: Option<Digest>)
    ensures
        opt_digest_view(r) == last_digest(digests@, id),
{
    let mut n: usize = digests.len();
    assert(digests@.take(n as int) =~= digests@);
    while n > 0
        invariant
            n <= digests@.len(),
            last_digest(digests@, id) == last_digest(digests@.take(n as int), id),
        decreases n,
    {
        if digests[n - 1].0 == id {
            return Some(digests[n - 1].1.copy());
        }
        assert(digests@.take(n as int).drop_last() =~= digests@.take(n - 1));
        n -= 1;
    }
    None
}

/// The stored front page (in rank order) with each item's discussion page and digest.
pub fn hn_items(rows: &Vec<FrontPageRow>, digests: &Vec<(i64, Digest)>) -> (r: Vec<HnItem>)
    ensures
        r@.len() == rows@.len(),
        forall|k: int| 0 <= k < rows@.len() ==> listed_item(
            #[trigger] r@[k],
            rows@[k]@,
            if seen_before(rows@, k) {
                None
            } else {
                last_digest(digests@, rows@[k].id)
            },
        ),
{
    let mut out: Vec<HnItem> = Vec::new();
    let mut k: usize = 0;
    while k < rows.len()
        invariant
            k <= rows@.len(),
            out@.len() == k,
            forall|i: int| 0 <= i < k ==> listed_item(
                #[trigger] out@[i],
                rows@[i]@,
                if seen_before(rows@, i) {
                    None
                } else {
                    last_digest(digests@, rows@[i].id)
                },
            ),
        decreases rows@.len() - k,
    {
        let row = &rows[k];
        let mut seen = false;
        let mut j: usize = 0;
        while j < k
            invariant
                j <= k < rows@.len(),
                row == rows@[k as int],
                seen == exists|i: int| 0 <= i < j && rows@[i].id == rows@[k as int].id,
            decreases k - j,
        {
            if rows[j].id == row.id {
                seen = true;
            }
            j += 1;
        }
        let digest = if seen {
            None
        } else {
            find_last_digest(digests, row.id)
        };
        let item = HnItem {
            id: row.id,
            title: text::string_of(row.title.as_str()),
            url: clone_opt(&row.url),
            comments_url: comments_url(row.id),
            points: row.points,
            comments_count: row.comments_count,
            rank: row.rank,
            digest,
        };
        out.push(item);
        proof {
            assert(seen == seen_before(rows@, k as int));
            assert(out@[k as int] == item);
        }
        k += 1;
    }
    out
}

// ---------------------------------------------------------------------------
// digest queue
// ---------------------------------------------------------------------------

/// A stored item without a digest yet.
pub struct PendingItem {
    pub id: i64,
    pub title: String,
    pub url: Option<String>,
    pub comments_count: i64,
}

/// Index ranges `[start, end)` cutting `len` items into consecutive batches of
/// `size` (the last one may be shorter).
pub fn batch_bounds(len: usize, size: usize) -> (r: Vec<(usize, usize)>)
    requires
        size > 0,
    ensures
        len == 0 <==> r@.len() == 0,
        r@.len() > 0 ==> r@[0].0 == 0 && r@.last().1 == len,
        forall|k: int| 0 <= k < r@.len() ==> #[trigger] r@[k].0 < r@[k].1 <= r@[k].0 + size,
        forall|k: int| 0 <= k < r@.len() - 1 ==> #[trigger] r@[k].1 == r@[k + 1].0 && r@[k].1
            - r@[k].0 == size,
{
    let mut out: Vec<(usize, usize)> = Vec::new();
    let mut start: usize = 0;
    while start < len
        invariant
            start <= len,
            size > 0,
            out@.len() == 0 ==> start == 0,
            out@.len() > 0 ==> out@[0].0 == 0 && out@.last().1 == start,
            forall|k: int| 0 <= k < out@.len() ==> #[trigger] out@[k].0 < out@[k].1 <= out@[k].0 + size,
            forall|k: int| 0 <= k < out@.len() ==> #[trigger] out@[k].1 - out@[k].0 == size,
            forall|k: int| 0 <= k < out@.len() - 1 ==> #[trigger] out@[k].1 == out@[k + 1].0,
        decreases len - start,
    {
        let end: usize = if len - start > size { start + size } else { len };
        out.push((start, end));
        if end - start < size {
            assert(end == len);
            assert(out@.len() > 0);
            return out;
        }
        start = end;
    }
    out
}

/// A row write that follows a digest batch.
pub enum DigestWrite {
    /// store the Japanese title and digest (an error ends the batch)
    Translation { id: i64, title_ja: String, summary_ja: Option<String> },
    /// store the comments summary (an error ends the batch)
    CommentsSummary { id: i64, summary: String },
    /// mark an item the model skipped as digested with its original title
    /// (an error is ignored)
    Fallback { id: i64, title: String },
}

pub ghost enum DigestWriteView {
    Translation { id: i64, title_ja: Seq<char>, summary_ja: Option<Seq<char>> },
    CommentsSummary { id: i64, summary: Seq<char> },
    Fallback { id: i64, title: Seq<char> },
}

impl View for DigestWrite {
    type V = DigestWriteView;

    open spec fn view(&self) -> DigestWriteView {
        match self {
            DigestWrite::Translation { id, title_ja, summary_ja } => DigestWriteView::Translation {
                id: *id,
                title_ja: title_ja@,
                summary_ja: opt_view(*summary_ja),
            },
            DigestWrite::CommentsSummary { id, summary } => DigestWriteView::CommentsSummary {
                id: *id,
                summary: summary@,
            },
            DigestWrite::Fallback { id, title } => DigestWriteView::Fallback {
                id: *id,
                title: title@,
            },
        }
    }
}

pub open spec fn write_id(w: DigestWriteView) -> i64 {
    match w {
        DigestWriteView::Translation { id, .. } => id,
        DigestWriteView::CommentsSummary { id, .. } => id,
        DigestWriteView::Fallback { id, .. } => id,
    }
}

pub open spec fn in_batch(batch: Seq<PendingItem>, id: i64) -> bool {
    exists|i: int| 0 <= i < batch.len() && batch[i].id == id
}

pub open spec fn returned(translated: Seq<TranslatedItem>, id: i64) -> bool {
    exists|j: int| 0 <= j < translated.len() && translated[j].id == id
}

/// Some non-blank text, else `None`.
pub open spec fn non_blank(o: Option<Seq<char>>) -> Option<Seq<char>> {
    match o {
        Some(s) => if text::trim(s).len() == 0 {
            None
        } else {
            Some(s)
        },
        None => None,
    }
}

/// Writes for one translated item: none for ids outside the batch or a blank title;
/// else the trimmed title with the non-blank digest, then the trimmed comments
/// summary when one is non-blank.
pub open spec fn item_writes(t: TranslatedItem, batch: Seq<PendingItem>) -> Seq<DigestWriteView> {
    if !in_batch(batch, t.id) || text::trim(t.title_ja@).len() == 0 {
        seq![]
    } else {
        let first = DigestWriteView::Translation {
            id: t.id,
            title_ja: text::trim(t.title_ja@),
            summary_ja: non_blank(opt_view(t.summary_ja)),
        };
        match non_blank(opt_view(t.comments_summary_ja)) {
            Some(c) => seq![first, DigestWriteView::CommentsSummary { id: t.id, summary: text::trim(c) }],
            None => seq![first],
        }
    }
}

pub open spec fn translated_writes(translated: Seq<TranslatedItem>, batch: Seq<PendingItem>) -> Seq<
    DigestWriteView,
>
    decreases translated.len(),
{
    if translated.len() == 0 {
        seq![]
    } else {
        translated_writes(translated.drop_last(), batch) + item_writes(translated.last(), batch)
    }
}

pub open spec fn fallback_writes(batch: Seq<PendingItem>, translated: Seq<TranslatedItem>) -> Seq<
    DigestWriteView,
>
    decreases batch.len(),
{
    if batch.len() == 0 {
        seq![]
    } else {
        let rest = fallback_writes(batch.drop_last(), translated);
        let b = batch.last();
        if returned(translated, b.id) {
            rest
        } else {
            rest.push(DigestWriteView::Fallback { id: b.id, title: b.title@ })
        }
    }
}

/// What is stored after a batch: the model's answers for batch ids, then the
/// original titles of the batch items the model did not answer for.
pub open spec fn spec_digest_writes(batch: Seq<PendingItem>, translated: Seq<TranslatedItem>) -> Seq<
    DigestWriteView,
> {
    translated_writes(translated, batch) + fallback_writes(batch, translated)
}

fn in_batch_exec(batch: &Vec<PendingItem>, id: i64) -> (r: bool)
    ensures
        r == in_batch(batch@, id),
{
    let mut i: usize = 0;
    while i < batch.len()
        invariant
            i <= batch@.len(),
            forall|k: int| 0 <= k < i ==> batch@[k].id != id,
        decreases batch@.len() - i,
    {
        if batch[i].id == id {
            return true;
        }
        i += 1;
    }
    false
}

fn returned_exec(translated: &Vec<TranslatedItem>, id: i64) -> (r: bool)
    ensures
        r == returned(translated@, id),
{
    let mut j: usize = 0;
    while j < translated.len()
        invariant
            j <= translated@.len(),
            forall|k: int| 0 <= k < j ==> translated@[k].id != id,
        decreases translated@.len() - j,
    {
        if translated[j].id == id {
            return true;
        }
        j += 1;
    }
    false
}

fn non_blank_exec(o: &Option<String>) -> (r: Option<String>)
    ensures
        opt_view(r) == non_blank(opt_view(*o)),
{
    match o {
        Some(s) => {
            if text::is_blank(&text::chars_of(s.as_str())) {
                None
            } else {
                Some(text::string_of(s.as_str()))
            }
        },
        None => None,
    }
}

fn trimmed(s: &String) -> (r: String)
    ensures
        r@ == text::trim(s@),
{
    text::string_from_chars(&text::trim_vec(&text::chars_of(s.as_str())))
}

/// The writes that follow a digest batch, in the order they are made.
pub fn digest_writes(batch: &Vec<PendingItem>, translated: &Vec<TranslatedItem>) -> (r: Vec<
    DigestWrite,
>)
    ensures
        r@.map_values(|w: DigestWrite| w@) == spec_digest_writes(batch@, translated@),
{
    let mut out: Vec<DigestWrite> = Vec::new();
    let mut j: usize = 0;
    assert(translated@.take(0) =~= Seq::<TranslatedItem>::empty());
    assert(out@.map_values(|w: DigestWrite| w@) =~= Seq::<DigestWriteView>::empty());
    while j < translated.len()
        invariant
            j <= translated@.len(),
            out@.map_values(|w: DigestWrite| w@) == translated_writes(translated@.take(j as int), batch@),
        decreases translated@.len() - j,
    {
        let t = &translated[j];
        let ghost old_out = out@.map_values(|w: DigestWrite| w@);
        proof {
            assert(translated@.take(j + 1).drop_last() =~= translated@.take(j as int));
            assert(translated@.take(j + 1).last() == translated@[j as int]);
        }
        let title = trimmed(&t.title_ja);
        if in_batch_exec(batch, t.id) && title.as_str().unicode_len() > 0 {
            let w1 = DigestWrite::Translation { id: t.id, title_ja: title, summary_ja: non_blank_exec(&t.summary_ja) };
            out.push(w1);
            let c = non_blank_exec(&t.comments_summary_ja);
            match c {
                Some(cs) => {
                    out.push(DigestWrite::CommentsSummary { id: t.id, summary: trimmed(&cs) });
                },
                None => {},
            }
        }
        proof {
            assert(out@.map_values(|w: DigestWrite| w@) =~= old_out + item_writes(translated@[j as int], batch@));
        }
        j += 1;
    }
    assert(translated@.take(translated@.len() as int) =~= translated@);
    let ghost tw = out@.map_values(|w: DigestWrite| w@);
    let mut i: usize = 0;
    assert(batch@.take(0) =~= Seq::<PendingItem>::empty());
    assert(tw + fallback_writes(batch@.take(0), translated@) =~= tw);
    while i < batch.len()
        invariant
            i <= batch@.len(),
            out@.map_values(|w: DigestWrite| w@) == tw + fallback_writes(batch@.take(i as int), translated@),
        decreases batch@.len() - i,
    {
        let b = &batch[i];
        let ghost old_out = out@.map_values(|w: DigestWrite| w@);
        proof {
            assert(batch@.take(i + 1).drop_last() =~= batch@.take(i as int));
            assert(batch@.take(i + 1).last() == batch@[i as int]);
        }
        let ghost prev = fallback_writes(batch@.take(i as int), translated@);
        if !returned_exec(translated, b.id) {
            out.push(DigestWrite::Fallback { id: b.id, title: text::string_of(b.title.as_str()) });
            proof {
                let f = DigestWriteView::Fallback { id: b.id, title: b.title@ };
                assert(fallback_writes(batch@.take(i + 1), translated@) == prev.push(f));
                assert((tw + prev).push(f) =~= tw + prev.push(f));
            }
        } else {
            assert(fallback_writes(batch@.take(i + 1), translated@) == prev);
        }
        proof {
            assert(out@.map_values(|w: DigestWrite| w@) =~= tw + fallback_writes(batch@.take(i + 1), translated@));
        }
        i += 1;
    }
    assert(batch@.take(batch@.len() as int) =~= batch@);
    out
}

pub const NO_TRANSLATIONS_MESSAGE: &'static str = "翻訳結果を解析できませんでした";

/// What a digest batch does with the model's answer: an empty answer ends the
/// batch with an error and writes nothing; otherwise the writes of
/// `digest_writes`.
pub fn batch_writes(batch: &Vec<PendingItem>, translated: &Vec<TranslatedItem>) -> (r: Result<Vec<DigestWrite>, String>)
    ensures
        r is Err <==> translated@.len() == 0,
        r matches Err(e) ==> e@ == NO_TRANSLATIONS_MESSAGE@,
        r matches Ok(w) ==> w@.map_values(|x: DigestWrite| x@) == spec_digest_writes(batch@, translated@),
{
    if translated.len() == 0 {
        return Err(text::string_of(NO_TRANSLATIONS_MESSAGE));
    }
    Ok(digest_writes(batch, translated))
}

proof fn lemma_translated_writes_ids(translated: Seq<TranslatedItem>, batch: Seq<PendingItem>)
    ensures
        forall|k: int| 0 <= k < translated_writes(translated, batch).len() ==>
            in_batch(batch, write_id(#[trigger] translated_writes(translated, batch)[k])),
    decreases translated.len(),
{
    if translated.len() > 0 {
        lemma_translated_writes_ids(translated.drop_last(), batch);
        let a = translated_writes(translated.drop_last(), batch);
        let b = item_writes(translated.last(), batch);
        assert forall|k: int| 0 <= k < (a + b).len() implies in_batch(batch, write_id(#[trigger] (a + b)[k])) by {
            if k >= a.len() {
                assert((a + b)[k] == b[k - a.len()]);
            } else {
                assert((a + b)[k] == a[k]);
            }
        }
    }
}

proof fn lemma_fallback_writes(batch: Seq<PendingItem>, translated: Seq<TranslatedItem>)
    ensures
        forall|k: int| 0 <= k < fallback_writes(batch, translated).len() ==>
            in_batch(batch, write_id(#[trigger] fallback_writes(batch, translated)[k])),
        forall|i: int| 0 <= i < batch.len() && !returned(translated, #[trigger] batch[i].id) ==>
            exists|k: int| 0 <= k < fallback_writes(batch, translated).len()
                && fallback_writes(batch, translated)[k] == (DigestWriteView::Fallback {
                    id: batch[i].id,
                    title: batch[i].title@,
                }),
    decreases batch.len(),
{
    if batch.len() > 0 {
        let p = batch.drop_last();
        lemma_fallback_writes(p, translated);
        let rest = fallback_writes(p, translated);
        let all = fallback_writes(batch, translated);
        assert forall|k: int| 0 <= k < all.len() implies in_batch(batch, write_id(#[trigger] all[k])) by {
            if k < rest.len() {
                assert(all[k] == rest[k]);
                let id = write_id(rest[k]);
                let i = choose|i: int| 0 <= i < p.len() && p[i].id == id;
                assert(batch[i] == p[i]);
            } else {
                assert(batch[batch.len() - 1] == batch.last());
            }
        }
        assert forall|i: int| 0 <= i < batch.len() && !returned(translated, #[trigger] batch[i].id) implies
            exists|k: int| 0 <= k < all.len() && all[k] == (DigestWriteView::Fallback {
                id: batch[i].id,
                title: batch[i].title@,
            }) by {
            if i < batch.len() - 1 {
                assert(batch[i] == p[i]);
                let k = choose|k: int| 0 <= k < rest.len() && rest[k] == (DigestWriteView::Fallback {
                    id: p[i].id,
                    title: p[i].title@,
                });
                assert(all[k] == rest[k]);
            } else {
                assert(all[all.len() - 1] == (DigestWriteView::Fallback { id: batch[i].id, title: batch[i].title@ }));
            }
        }
    }
}

/// The writes after a batch touch only the batch's own items (an id the model
/// made up never reaches a row), and every batch item the model did not answer for
/// is stored with its original title, so the queue drains.
pub proof fn lemma_digest_writes_stay_in_batch(batch: Seq<PendingItem>, translated: Seq<TranslatedItem>)
    ensures
        forall|k: int| 0 <= k < spec_digest_writes(batch, translated).len() ==>
            in_batch(batch, write_id(#[trigger] spec_digest_writes(batch, translated)[k])),
        forall|i: int| 0 <= i < batch.len() && !returned(translated, #[trigger] batch[i].id) ==>
            exists|k: int| 0 <= k < spec_digest_writes(batch, translated).len()
                && spec_digest_writes(batch, translated)[k] == (DigestWriteView::Fallback {
                    id: batch[i].id,
                    title: batch[i].title@,
                }),
{
    lemma_translated_writes_ids(translated, batch);
    lemma_fallback_writes(batch, translated);
    let a = translated_writes(translated, batch);
    let b = fallback_writes(batch, translated);
    let all = a + b;
    assert(spec_digest_writes(batch, translated) == all);
    assert forall|k: int| 0 <= k < all.len() implies in_batch(batch, write_id(#[trigger] all[k])) by {
        if k < a.len() {
            assert(all[k] == a[k]);
        } else {
            assert(all[k] == b[k - a.len()]);
        }
    }
    assert forall|i: int| 0 <= i < batch.len() && !returned(translated, #[trigger] batch[i].id) implies
        exists|k: int| 0 <= k < all.len() && all[k] == (DigestWriteView::Fallback {
            id: batch[i].id,
            title: batch[i].title@,
        }) by {
        let k = choose|k: int| 0 <= k < b.len() && b[k] == (DigestWriteView::Fallback {
            id: batch[i].id,
            title: batch[i].title@,
        });
        assert(all[k + a.len()] == b[k]);
        assert(0 <= k + a.len() < all.len());
    }
}

/// The stored translation of an answer: its trimmed title with its non-blank digest.
pub open spec fn translation_write(t: TranslatedItem) -> DigestWriteView {
    DigestWriteView::Translation {
        id: t.id,
        title_ja: text::trim(t.title_ja@),
        summary_ja: non_blank(opt_view(t.summary_ja)),
    }
}

/// Whether an answer is kept: it is for a batch item and its title is not blank.
pub open spec fn answer_kept(batch: Seq<PendingItem>, t: TranslatedItem) -> bool {
    in_batch(batch, t.id) && text::trim(t.title_ja@).len() > 0
}

proof fn lemma_translated_writes_keep(translated: Seq<TranslatedItem>, batch: Seq<PendingItem>)
    ensures
        forall|j: int|
            0 <= j < translated.len() && answer_kept(batch, #[trigger] translated[j]) ==> exists|k: int|
                0 <= k < translated_writes(translated, batch).len()
                    && translated_writes(translated, batch)[k] == translation_write(translated[j]),
        forall|j: int|
            0 <= j < translated.len() && answer_kept(batch, #[trigger] translated[j]) && non_blank(
                opt_view(translated[j].comments_summary_ja),
            ) is Some ==> exists|k: int|
                0 <= k < translated_writes(translated, batch).len() && translated_writes(
                    translated,
                    batch,
                )[k] == (DigestWriteView::CommentsSummary {
                    id: translated[j].id,
                    summary: text::trim(non_blank(opt_view(translated[j].comments_summary_ja))->0),
                }),
    decreases translated.len(),
{
    if translated.len() > 0 {
        let p = translated.drop_last();
        lemma_translated_writes_keep(p, batch);
        let a = translated_writes(p, batch);
        let t = translated.last();
        let b = item_writes(t, batch);
        let all = a + b;
        assert(translated_writes(translated, batch) == all);
        assert forall|j: int|
            0 <= j < translated.len() && answer_kept(batch, #[trigger] translated[j]) implies exists|k: int|
                0 <= k < all.len() && all[k] == translation_write(translated[j]) by {
            if j < translated.len() - 1 {
                assert(translated[j] == p[j]);
                let k = choose|k: int| 0 <= k < a.len() && a[k] == translation_write(p[j]);
                assert(all[k] == a[k]);
            } else {
                assert(translated[j] == t);
                assert(all[a.len() as int] == b[0]);
            }
        }
        assert forall|j: int|
            0 <= j < translated.len() && answer_kept(batch, #[trigger] translated[j]) && non_blank(
                opt_view(translated[j].comments_summary_ja),
            ) is Some implies exists|k: int|
                0 <= k < all.len() && all[k] == (DigestWriteView::CommentsSummary {
                    id: translated[j].id,
                    summary: text::trim(non_blank(opt_view(translated[j].comments_summary_ja))->0),
                }) by {
            if j < translated.len() - 1 {
                assert(translated[j] == p[j]);
                let k = choose|k: int|
                    0 <= k < a.len() && a[k] == (DigestWriteView::CommentsSummary {
                        id: p[j].id,
                        summary: text::trim(non_blank(opt_view(p[j].comments_summary_ja))->0),
                    });
                assert(all[k] == a[k]);
            } else {
                assert(translated[j] == t);
                assert(all[a.len() as int + 1] == b[1]);
            }
        }
    }
}

/// Every answer the model gives for a batch item with a non-blank title is stored:
/// its trimmed title with its non-blank digest, and, whenever its comments summary
/// is not blank, that summary trimmed, whether or not the answer also has a digest.
pub proof fn lemma_digest_writes_keep_answers(batch: Seq<PendingItem>, translated: Seq<TranslatedItem>)
    ensures
        forall|j: int|
            0 <= j < translated.len() && answer_kept(batch, #[trigger] translated[j]) ==> exists|k: int|
                0 <= k < spec_digest_writes(batch, translated).len() && spec_digest_writes(
                    batch,
                    translated,
                )[k] == translation_write(translated[j]),
        forall|j: int|
            0 <= j < translated.len() && answer_kept(batch, #[trigger] translated[j]) && non_blank(
                opt_view(translated[j].comments_summary_ja),
            ) is Some ==> exists|k: int|
                0 <= k < spec_digest_writes(batch, translated).len() && spec_digest_writes(
                    batch,
                    translated,
                )[k] == (DigestWriteView::CommentsSummary {
                    id: translated[j].id,
                    summary: text::trim(non_blank(opt_view(translated[j].comments_summary_ja))->0),
                }),
{
    lemma_translated_writes_keep(translated, batch);
    let a = translated_writes(translated, batch);
    let all = spec_digest_writes(batch, translated);
    assert(all == a + fallback_writes(batch, translated));
    assert forall|k: int| 0 <= k < a.len() implies all[k] == a[k] by {}
}

// ---------------------------------------------------------------------------
// digest run
// ---------------------------------------------------------------------------

pub const QUEUE_TIMEOUT_MESSAGE: &'static str = "翻訳キューを時間内に処理できませんでした";

/// Progress of one background digest run over its rounds.
pub struct DigestRun {
    pub rounds: usize,
    /// consecutive errored rounds that left at least as many items pending
    pub stalled: u32,
    pub last_error: Option<String>,
}

/// What to do at the top of a round.
pub enum RoundStart {
    /// digest the pending items
    Process,
    /// nothing is pending: the run succeeded
    Done,
    /// the round budget is spent: the run fails with this error
    GiveUp(String),
}

/// What to do after a round.
pub enum RoundEnd {
    /// nothing is pending any more: the run succeeded
    Done,
    /// the run fails with this error
    Fail(String),
    /// a transient error without progress: pause briefly, then go on
    PauseThenContinue,
    /// go on with the next round
    Continue,
}

impl DigestRun {
    pub open spec fn wf(&self) -> bool {
        self.stalled < MAX_STALLED_ROUNDS && self.rounds <= MAX_ROUNDS
    }

    pub fn new() -> (r: DigestRun)
        ensures
            r.rounds == 0,
            r.stalled == 0,
            r.last_error is None,
            r.wf(),
    {
        DigestRun { rounds: 0, stalled: 0, last_error: None }
    }

    /// Decides the top of a round from whether anything is pending.
    pub fn start_round(&self, pending_empty: bool) -> (r: RoundStart)
        ensures
            self.rounds >= MAX_ROUNDS ==> (r matches RoundStart::GiveUp(e) && e@ == (match self.last_error {
                Some(le) => le@,
                None => QUEUE_TIMEOUT_MESSAGE@,
            })),
            self.rounds < MAX_ROUNDS && pending_empty ==> r is Done,
            self.rounds < MAX_ROUNDS && !pending_empty ==> r is Process,
    {
        if self.rounds >= MAX_ROUNDS {
            match &self.last_error {
                Some(e) => RoundStart::GiveUp(text::string_of(e.as_str())),
                None => RoundStart::GiveUp(text::string_of(QUEUE_TIMEOUT_MESSAGE)),
            }
        } else if pending_empty {
            RoundStart::Done
        } else {
            RoundStart::Process
        }
    }

    /// Records a finished round from the pending counts before and after it and the
    /// first error any of its batches reported.
    pub fn finish_round(&mut self, remaining_before: i64, remaining_after: i64, round_error: Option<String>) -> (r: RoundEnd)
        requires
            old(self).wf(),
            old(self).rounds < MAX_ROUNDS,
        ensures
            final(self).wf(),
            final(self).rounds == old(self).rounds + 1,
            remaining_after == 0 ==> r is Done && final(self).stalled == old(self).stalled && opt_view(
                final(self).last_error,
            ) == opt_view(old(self).last_error),
            remaining_after != 0 && round_error is None ==> r is Continue && final(self).stalled == 0,
            remaining_after != 0 && round_error is Some && remaining_after < remaining_before ==> r is Continue
                && final(self).stalled == 0,
            remaining_after != 0 && round_error is Some && remaining_after >= remaining_before ==> {
                if old(self).stalled + 1 >= MAX_STALLED_ROUNDS {
                    (r matches RoundEnd::Fail(e) && e@ == round_error->0@) && final(self).stalled == 0
                } else {
                    r is PauseThenContinue && final(self).stalled == old(self).stalled + 1
                }
            },
            remaining_after != 0 && round_error is Some ==> opt_view(final(self).last_error) == opt_view(round_error),
            round_error is None ==> opt_view(final(self).last_error) == opt_view(old(self).last_error),
    {
        self.rounds = self.rounds + 1;
        if remaining_after == 0 {
            return RoundEnd::Done;
        }
        match round_error {
            Some(e) => {
                let copy = text::string_of(e.as_str());
                self.last_error = Some(e);
                if remaining_after >= remaining_before {
                    if self.stalled + 1 >= MAX_STALLED_ROUNDS {
                        self.stalled = 0;
                        return RoundEnd::Fail(copy);
                    }
                    self.stalled = self.stalled + 1;
                    RoundEnd::PauseThenContinue
                } else {
                    self.stalled = 0;
                    RoundEnd::Continue
                }
            },
            None => {
                self.stalled = 0;
                RoundEnd::Continue
            },
        }
    }
}

} // verus!
