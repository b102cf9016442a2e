//! fzf-style fuzzy ranking over `(id, text)` pairs, scored by nucleo-matcher.

use vstd::prelude::*;
use crate::text;
use nucleo_matcher::pattern::{CaseMatching, Normalization, Pattern};
use nucleo_matcher::{Config, Matcher, Utf32Str};

verus! {

/// The score nucleo-matcher gives `text` for the pattern parsed from `query`
/// (case ignored, smart normalization, default configuration); `None` when the
/// pattern does not match.
pub uninterp spec fn spec_fuzzy_score(query: Seq<char>, text: Seq<char>) -> Option<u32>;

/// Characters of a query the matcher is given. An atom's score is a `u16` that
/// grows by at most 36 per needle character (`SCORE_MATCH` 16 plus a bonus of at
/// most 10, doubled on the first character) with no prefix bonus under the default
/// configuration, so 1800 characters stay below `u16::MAX`; longer needles can
/// overflow it, which panics where overflow is checked.
pub const MAX_QUERY_CHARS: usize = 1800;

/// `Pattern::parse(query, CaseMatching::Ignore, Normalization::Smart).score(text, matcher)`
/// with a fresh `Matcher::new(Config::DEFAULT)`. Claims only that the result is a
/// function of the two strings (the matcher keeps scratch memory between calls but no
/// state that changes a score); what the score is stays unstated. Queries longer than
/// `MAX_QUERY_CHARS` are left out by `requires`.
#[verifier::external_body]
fn fuzzy_score(query: &str, text: &str) -> (r: Option<u32>)
    requires
        query@.len() <= MAX_QUERY_CHARS,
    ensures
        r == spec_fuzzy_score(query@, text@),
{
    let mut matcher = Matcher::new(Config::DEFAULT);
    let pattern = Pattern::parse(query, CaseMatching::Ignore, Normalization::Smart);
    let mut buf = Vec::new();
    pattern.score(Utf32Str::new(text, &mut buf), &mut matcher)
}

/// `(score, id)` of the corpus items that match `query`, in corpus order.
pub open spec fn matched(corpus: Seq<(i64, String)>, query: Seq<char>) -> Seq<(u32, i64)>
    decreases corpus.len(),
{
    if corpus.len() == 0 {
        seq![]
    } else {
        let rest = matched(corpus.drop_last(), query);
        match spec_fuzzy_score(query, corpus.last().1@) {
            Some(s) => rest.push((s, corpus.last().0)),
            None => rest,
        }
    }
}

/// Inserts `e` in front of the first element whose score is lower than its own.
pub open spec fn insert_desc(s: Seq<(u32, i64)>, e: (u32, i64)) -> Seq<(u32, i64)>
    decreases s.len(),
{
    if s.len() == 0 {
        seq![e]
    } else if s[0].0 < e.0 {
        seq![e] + s
    } else {
        seq![s[0]] + insert_desc(s.skip(1), e)
    }
}

/// Stable sort by descending score.
pub open spec fn sort_desc(s: Seq<(u32, i64)>) -> Seq<(u32, i64)>
    decreases s.len(),
{
    if s.len() == 0 {
        s
    } else {
        insert_desc(sort_desc(s.drop_last()), s.last())
    }
}

pub open spec fn sorted_desc(s: Seq<(u32, i64)>) -> bool {
    forall|i: int, j: int| 0 <= i <= j < s.len() ==> s[i].0 >= s[j].0
}

/// The ids of the at most `limit` best-scoring matches, best first; among equal
/// scores the corpus order is kept. A blank query, or one longer than the matcher
/// takes, ranks nothing.
pub open spec fn spec_fuzzy_rank(corpus: Seq<(i64, String)>, query: Seq<char>, limit: int) -> Seq<i64> {
    let q = text::trim(query);
    if q.len() == 0 || q.len() > MAX_QUERY_CHARS {
        seq![]
    } else {
        let ranked = sort_desc(matched(corpus, q));
        let n = if limit < ranked.len() {
            limit
        } else {
            ranked.len() as int
        };
        ranked.take(n).map_values(|p: (u32, i64)| p.1)
    }
}

proof fn lemma_insert_desc_at(s: Seq<(u32, i64)>, e: (u32, i64), k: int)
    requires
        0 <= k <= s.len(),
        forall|j: int| 0 <= j < k ==> s[j].0 >= e.0,
        k == s.len() || s[k].0 < e.0,
    ensures
        insert_desc(s, e) == s.insert(k, e),
    decreases s.len(),
{
    if s.len() == 0 {
        assert(s.insert(k, e) =~= seq![e]);
    } else if s[0].0 < e.0 {
        assert(k == 0);
        assert(s.insert(0, e) =~= seq![e] + s);
    } else {
        let t = s.skip(1);
        assert forall|j: int| 0 <= j < k - 1 implies t[j].0 >= e.0 by {
            assert(t[j] == s[j + 1]);
        }
        if k - 1 < t.len() {
            assert(t[k - 1] == s[k]);
        }
        lemma_insert_desc_at(t, e, k - 1);
        assert(s.insert(k, e) =~= seq![s[0]] + t.insert(k - 1, e));
    }
}

/// Inserting keeps a descending sequence descending and adds exactly `e`.
pub proof fn lemma_insert_desc(s: Seq<(u32, i64)>, e: (u32, i64))
    requires
        sorted_desc(s),
    ensures
        sorted_desc(insert_desc(s, e)),
        insert_desc(s, e).to_multiset() == s.to_multiset().insert(e),
    decreases s.len(),
{
    broadcast use vstd::seq_lib::group_to_multiset_ensures;

    if s.len() == 0 {
        assert(seq![e] =~= Seq::<(u32, i64)>::empty().push(e));
    } else if s[0].0 < e.0 {
        let r = seq![e] + s;
        assert(sorted_desc(r)) by {
            assert forall|i: int, j: int| 0 <= i <= j < r.len() implies r[i].0 >= r[j].0 by {
                if i > 0 {
                    assert(r[i] == s[i - 1]);
                    assert(r[j] == s[j - 1]);
                } else if j > 0 {
                    assert(r[j] == s[j - 1]);
                }
            }
        }
        vstd::seq_lib::lemma_multiset_commutative(seq![e], s);
        assert(seq![e] =~= Seq::<(u32, i64)>::empty().push(e));
    } else {
        let t = s.skip(1);
        assert(sorted_desc(t)) by {
            assert forall|i: int, j: int| 0 <= i <= j < t.len() implies t[i].0 >= t[j].0 by {
                assert(t[i] == s[i + 1]);
                assert(t[j] == s[j + 1]);
            }
        }
        lemma_insert_desc(t, e);
        let it = insert_desc(t, e);
        let r = seq![s[0]] + it;
        assert(sorted_desc(r)) by {
            assert forall|i: int, j: int| 0 <= i <= j < r.len() implies r[i].0 >= r[j].0 by {
                if i == 0 && j > 0 {
                    let x = it[j - 1];
                    assert(r[j] == x);
                    assert(it.contains(x));
                    if x != e {
                        assert(it.to_multiset().count(x) > 0);
                        assert(t.to_multiset().insert(e).count(x) == t.to_multiset().count(x));
                        assert(t.contains(x));
                        let k = choose|k: int| 0 <= k < t.len() && t[k] == x;
                        assert(s[k + 1] == x);
                    }
                } else if i > 0 {
                    assert(r[i] == it[i - 1]);
                    assert(r[j] == it[j - 1]);
                }
            }
        }
        vstd::seq_lib::lemma_multiset_commutative(seq![s[0]], it);
        vstd::seq_lib::lemma_multiset_commutative(seq![s[0]], t);
        assert(s =~= seq![s[0]] + t);
    }
}

/// `sort_desc` orders by descending score and is a permutation of its input.
pub proof fn lemma_sort_desc(s: Seq<(u32, i64)>)
    ensures
        sorted_desc(sort_desc(s)),
        sort_desc(s).to_multiset() == s.to_multiset(),
    decreases s.len(),
{
    broadcast use vstd::seq_lib::group_to_multiset_ensures;

    if s.len() > 0 {
        lemma_sort_desc(s.drop_last());
        lemma_insert_desc(sort_desc(s.drop_last()), s.last());
        assert(s =~= s.drop_last().push(s.last()));
    }
}

/// The ranking returns at most `limit` ids, in descending score order, each the
/// id of a corpus item that matched the trimmed query; a blank or over-long query
/// ranks nothing.
pub proof fn lemma_fuzzy_rank_top(corpus: Seq<(i64, String)>, query: Seq<char>, limit: int)
    requires
        limit >= 0,
    ensures
        spec_fuzzy_rank(corpus, query, limit).len() <= limit,
        text::trim(query).len() == 0 || text::trim(query).len() > MAX_QUERY_CHARS ==> spec_fuzzy_rank(
            corpus,
            query,
            limit,
        ).len() == 0,
        0 < text::trim(query).len() <= MAX_QUERY_CHARS ==> {
            let ranked = sort_desc(matched(corpus, text::trim(query)));
            &&& sorted_desc(ranked)
            &&& ranked.to_multiset() == matched(corpus, text::trim(query)).to_multiset()
            &&& forall|k: int| 0 <= k < spec_fuzzy_rank(corpus, query, limit).len() ==> #[trigger] spec_fuzzy_rank(
                corpus,
                query,
                limit,
            )[k] == ranked[k].1
        },
{
    let q = text::trim(query);
    if q.len() > 0 {
        lemma_sort_desc(matched(corpus, q));
    }
}

/// fzf-style fuzzy match over (id, text) pairs. Returns ids ranked by score.
pub fn fuzzy_rank(corpus: &[(i64, String)], query: &str, limit: usize) -> (r: Vec<i64>)
    ensures
        r@ == spec_fuzzy_rank(corpus@, query@, limit as int),
{
    let qv = text::trim_vec(&text::chars_of(query));
    if qv.len() == 0 || qv.len() > MAX_QUERY_CHARS {
        return Vec::new();
    }
    let q = text::string_from_chars(&qv);
    let mut sorted: Vec<(u32, i64)> = Vec::new();
    let mut i: usize = 0;
    while i < corpus.len()
        invariant
            i <= corpus@.len(),
            q@ == text::trim(query@),
            q@.len() <= MAX_QUERY_CHARS,
            sorted@ == sort_desc(matched(corpus@.take(i as int), q@)),
        decreases corpus@.len() - i,
    {
        let ghost pre = corpus@.take(i as int);
        let ghost post = corpus@.take(i + 1);
        assert(post.drop_last() =~= pre);
        let (id, body) = (corpus[i].0, &corpus[i].1);
        match fuzzy_score(&q, body) {
            Some(score) => {
                let e = (score, id);
                let mut k: usize = 0;
                while k < sorted.len() && sorted[k].0 >= score
                    invariant
                        k <= sorted@.len(),
                        forall|j: int| 0 <= j < k ==> sorted@[j].0 >= score,
                    decreases sorted@.len() - k,
                {
                    k += 1;
                }
                proof {
                    lemma_insert_desc_at(sorted@, e, k as int);
                    assert(matched(post, q@) == matched(pre, q@).push(e));
                    assert(matched(pre, q@).push(e).drop_last() =~= matched(pre, q@));
                }
                sorted.insert(k, e);
            },
            None => {},
        }
        i += 1;
    }
    assert(corpus@.take(corpus@.len() as int) =~= corpus@);
    let n = if limit < sorted.len() { limit } else { sorted.len() };
    let mut out: Vec<i64> = Vec::new();
    let mut j: usize = 0;
    while j < n
        invariant
            j <= n <= sorted@.len(),
            out@ == sorted@.take(j as int).map_values(|p: (u32, i64)| p.1),
        decreases n - j,
    {
        out.push(sorted[j].1);
        j += 1;
        assert(out@ =~= sorted@.take(j as int).map_values(|p: (u32, i64)| p.1));
    }
    out
}

} // verus!
