//! Ranking of files and symbols for project search.
use vstd::prelude::*;
use vstd::utf8::encode_utf8;

use super::types::{ProjectIndex, SearchResult, SearchResultKind};
use crate::order::{
    compare_str, keeps_ties, lemma_seq_le_total, lemma_seq_le_trans, lemma_seq_lt_trichotomy,
    lemma_ties_determine, same_key, seq_le, seq_lt, sort_by_key, sorted_by_key, SortKey,
};
use crate::text::{
    chars_of, find, lowercase, starts_with, str_trim, to_lowercase, trim, vec_find,
    vec_starts_with,
};

verus! {

/// `a.saturating_sub(b)` for `a: u32` and `b >= 0`.
pub open spec fn sat_sub(a: u32, b: int) -> u32 {
    if b >= a {
        0
    } else {
        (a - b) as u32
    }
}

/// Number of UTF-8 bytes of `s` (`str::len`).
pub open spec fn byte_len(s: Seq<char>) -> nat {
    encode_utf8(s).len()
}

/// Ordered-subsequence match of `q[k..]` in `c[i..]`, counting the characters
/// skipped after the first matched one.
pub open spec fn fuzzy_score(c: Seq<char>, q: Seq<char>, i: int, k: int, matched: nat, gaps: nat) -> Option<u32>
    decreases c.len() - i,
{
    if i < 0 || i >= c.len() || k < 0 || k >= q.len() {
        None
    } else if c[i] == q[k] {
        if k + 1 >= q.len() {
            Some(sat_sub(400, gaps as int))
        } else {
            fuzzy_score(c, q, i + 1, k + 1, matched + 1, gaps)
        }
    } else if matched > 0 {
        fuzzy_score(c, q, i + 1, k, matched, gaps + 1)
    } else {
        fuzzy_score(c, q, i + 1, k, matched, gaps)
    }
}

/// Score of `candidate` for `query`: exact 1000, prefix 800 less the extra
/// bytes, substring 600 less the byte offset, subsequence 400 less the gaps.
pub open spec fn match_score_of(candidate: Seq<char>, query: Seq<char>) -> Option<u32> {
    if candidate == query {
        Some(1000)
    } else if starts_with(candidate, query) {
        Some(sat_sub(800, ((byte_len(candidate) - byte_len(query)) as u32) as int))
    } else if find(candidate, query) is Some {
        Some(sat_sub(600, (byte_len(candidate.take(find(candidate, query)->0)) as u32) as int))
    } else if query.len() == 0 {
        None
    } else {
        fuzzy_score(candidate, query, 0, 0, 0, 0)
    }
}

/// Score of an entry: by its lowercase label, else by its lowercase path
/// less 10; symbols get 5 more.
pub open spec fn entry_score(e: SearchResult, query: Seq<char>) -> Option<u32> {
    let base = match match_score_of(lowercase(e.label@), query) {
        Some(s) => Some(s),
        None => match match_score_of(lowercase(e.path@), query) {
            Some(s) => Some(sat_sub(s, 10)),
            None => None,
        },
    };
    match base {
        Some(s) => Some(
            (s + if e.kind == SearchResultKind::Symbol {
                5int
            } else {
                0int
            }) as u32,
        ),
        None => None,
    }
}

/// The entry with the score of `query`, when it matches at all.
pub open spec fn scored_entry(e: SearchResult, query: Seq<char>) -> Option<SearchResult> {
    match entry_score(e, query) {
        Some(s) => Some(SearchResult { score: s, ..e }),
        None => None,
    }
}

/// Every entry that matches `query`, in index order, with its score.
pub open spec fn matching_entries(entries: Seq<SearchResult>, query: Seq<char>) -> Seq<SearchResult> {
    entries.filter_map(|e: SearchResult| scored_entry(e, query))
}

/// Ranking order: higher score first, then lowercase label, then path.
pub open spec fn ranks_before_or_with(a: SearchResult, b: SearchResult) -> bool {
    a.score > b.score || (a.score == b.score && (seq_lt(lowercase(a.label@), lowercase(b.label@)) || (
    lowercase(a.label@) == lowercase(b.label@) && seq_le(a.path@, b.path@))))
}

impl SortKey for SearchResult {
    open spec fn key_le(self, other: Self) -> bool {
        ranks_before_or_with(self, other)
    }

    proof fn lemma_key_le_total(a: Self, b: Self) {
        lemma_seq_lt_trichotomy(lowercase(a.label@), lowercase(b.label@));
        lemma_seq_le_total(a.path@, b.path@);
    }

    proof fn lemma_key_le_trans(a: Self, b: Self, c: Self) {
        lemma_seq_lt_trichotomy(lowercase(a.label@), lowercase(b.label@));
        lemma_seq_lt_trichotomy(lowercase(b.label@), lowercase(c.label@));
        lemma_seq_lt_trichotomy(lowercase(a.label@), lowercase(c.label@));
        if seq_lt(lowercase(a.label@), lowercase(b.label@)) && seq_lt(
            lowercase(b.label@),
            lowercase(c.label@),
        ) {
            crate::order::lemma_seq_lt_trans(
                lowercase(a.label@),
                lowercase(b.label@),
                lowercase(c.label@),
            );
        }
        if a.score == b.score && b.score == c.score && lowercase(a.label@) == lowercase(b.label@)
            && lowercase(b.label@) == lowercase(c.label@) {
            lemma_seq_le_trans(a.path@, b.path@, c.path@);
        }
    }

    fn key_le_exec(&self, other: &Self) -> (r: bool) {
        if self.score != other.score {
            return self.score > other.score;
        }
        let left = to_lowercase(&self.label);
        let right = to_lowercase(&other.label);
        let c = compare_str(&left, &right);
        if c != 0 {
            return c < 0;
        }
        compare_str(&self.path, &other.path) <= 0
    }
}

fn fuzzy_match(c: &Vec<char>, q: &Vec<char>) -> (r: Option<u32>)
    requires
        q@.len() > 0,
    ensures
        r == fuzzy_score(c@, q@, 0, 0, 0, 0),
{
    let mut k: usize = 0;
    let mut matched: u64 = 0;
    let mut gaps: u64 = 0;
    let mut i: usize = 0;
    while i < c.len()
        invariant
            k < q.len(),
            i <= c.len(),
            matched <= i,
            gaps <= i,
            fuzzy_score(c@, q@, 0, 0, 0, 0) == fuzzy_score(
                c@,
                q@,
                i as int,
                k as int,
                matched as nat,
                gaps as nat,
            ),
        decreases c.len() - i,
    {
        if c[i] == q[k] {
            matched = matched + 1;
            if k + 1 < q.len() {
                k = k + 1;
            } else {
                return Some(if gaps >= 400 {
                    0
                } else {
                    400 - gaps as u32
                });
            }
        } else if matched > 0 {
            gaps = gaps + 1;
        }
        i = i + 1;
    }
    None
}

/// Score of `candidate` for `query`, both already lowercase.
pub fn match_score(candidate: &str, query: &str) -> (r: Option<u32>)
    ensures
        r == match_score_of(candidate@, query@),
{
    let c = chars_of(candidate);
    let q = chars_of(query);
    if crate::text::str_eq(candidate, query) {
        return Some(1000);
    }
    if vec_starts_with(&c, &q) {
        proof {
            assert(c@ =~= q@ + c@.skip(q@.len() as int));
            crate::text::lemma_encode_utf8_concat(q@, c@.skip(q@.len() as int));
        }
        let extra = (candidate.as_bytes().len() - query.as_bytes().len()) as u32;
        return Some(800u32.saturating_sub(extra));
    }
    if let Some(position) = vec_find(&c, &q) {
        proof {
            crate::text::lemma_find_some_contains(c@, q@, 0);
        }
        let before = candidate.substring_char(0, position);
        return Some(600u32.saturating_sub(before.as_bytes().len() as u32));
    }
    if q.len() == 0 {
        return None;
    }
    fuzzy_match(&c, &q)
}

proof fn lemma_fuzzy_bound(c: Seq<char>, q: Seq<char>, i: int, k: int, matched: nat, gaps: nat)
    ensures
        fuzzy_score(c, q, i, k, matched, gaps) matches Some(s) ==> s <= 400,
    decreases c.len() - i,
{
    if 0 <= i < c.len() && 0 <= k < q.len() {
        lemma_fuzzy_bound(c, q, i + 1, k + 1, matched + 1, gaps);
        lemma_fuzzy_bound(c, q, i + 1, k, matched, gaps + 1);
        lemma_fuzzy_bound(c, q, i + 1, k, matched, gaps);
    }
}

/// No candidate scores above 1000.
pub proof fn lemma_match_score_bound(candidate: Seq<char>, query: Seq<char>)
    ensures
        match_score_of(candidate, query) matches Some(s) ==> s <= 1000,
{
    lemma_fuzzy_bound(candidate, query, 0, 0, 0, 0);
}

/// The entry with its score for `query`, or `None` when it does not match.
pub fn score_entry(entry: &SearchResult, query: &str) -> (r: Option<SearchResult>)
    ensures
        r == scored_entry(*entry, query@),
{
    let label = to_lowercase(&entry.label);
    let path = to_lowercase(&entry.path);
    let base = match match_score(&label, query) {
        Some(score) => score,
        None => match match_score(&path, query) {
            Some(score) => score.saturating_sub(10),
            None => {
                return None;
            },
        },
    };
    proof {
        lemma_match_score_bound(lowercase(entry.label@), query@);
        lemma_match_score_bound(lowercase(entry.path@), query@);
    }
    let mut result = entry.clone();
    result.score = base + if entry.kind == SearchResultKind::Symbol {
        5
    } else {
        0
    };
    Some(result)
}

/// The number of results asked for: at most 100.
pub open spec fn result_cap(limit: usize) -> int {
    if limit < 100 {
        limit as int
    } else {
        100
    }
}

/// `r` is what a search of `entries` for `query` with `limit` gives: the
/// entries matching the trimmed, lowercase query, ordered by
/// `ranks_before_or_with` (ties keep the entries' order), and at most
/// `min(limit, 100)` of them.
pub open spec fn search_results(
    entries: Seq<SearchResult>,
    query: Seq<char>,
    limit: usize,
    r: Seq<SearchResult>,
) -> bool {
    let q = lowercase(trim(query));
    let n = result_cap(limit);
    if q.len() == 0 {
        r.len() == 0
    } else {
        exists|ranked: Seq<SearchResult>|
            {
                &&& ranked.to_multiset() == matching_entries(entries, q).to_multiset()
                &&& sorted_by_key(ranked)
                &&& keeps_ties(ranked, matching_entries(entries, q))
                &&& r == ranked.take(
                    if n < ranked.len() {
                        n
                    } else {
                        ranked.len() as int
                    },
                )
            }
    }
}

/// A search with a smaller limit gives a prefix of the results of one with
/// a larger limit.
pub proof fn law_smaller_limit_gives_prefix(
    entries: Seq<SearchResult>,
    query: Seq<char>,
    small: usize,
    large: usize,
    r_small: Seq<SearchResult>,
    r_large: Seq<SearchResult>,
)
    requires
        small <= large,
        search_results(entries, query, small, r_small),
        search_results(entries, query, large, r_large),
    ensures
        r_small.len() <= r_large.len(),
        r_small == r_large.take(r_small.len() as int),
{
    let q = lowercase(trim(query));
    if q.len() == 0 {
        assert(r_small =~= r_large.take(0));
    } else {
        let m = matching_entries(entries, q);
        let k1 = choose|ranked: Seq<SearchResult>|
            {
                &&& ranked.to_multiset() == m.to_multiset()
                &&& sorted_by_key(ranked)
                &&& keeps_ties(ranked, m)
                &&& r_small == ranked.take(
                    if result_cap(small) < ranked.len() {
                        result_cap(small)
                    } else {
                        ranked.len() as int
                    },
                )
            };
        let k2 = choose|ranked: Seq<SearchResult>|
            {
                &&& ranked.to_multiset() == m.to_multiset()
                &&& sorted_by_key(ranked)
                &&& keeps_ties(ranked, m)
                &&& r_large == ranked.take(
                    if result_cap(large) < ranked.len() {
                        result_cap(large)
                    } else {
                        ranked.len() as int
                    },
                )
            };
        assert(keeps_ties(k1, k2)) by {
            assert forall|x: SearchResult| #[trigger] k1.filter(same_key(x)) == k2.filter(same_key(x)) by {
                assert(k1.filter(same_key(x)) == m.filter(same_key(x)));
                assert(k2.filter(same_key(x)) == m.filter(same_key(x)));
            }
        }
        lemma_ties_determine(k1, k2);
        assert(r_small =~= r_large.take(r_small.len() as int));
    }
}

/// An element that `f` maps to something is kept by `filter_map`.
proof fn lemma_filter_map_keeps<A, B>(s: Seq<A>, f: spec_fn(A) -> Option<B>, i: int)
    requires
        0 <= i < s.len(),
        f(s[i]) is Some,
    ensures
        s.filter_map(f).contains(f(s[i])->0),
    decreases s.len(),
{
    let rest = s.drop_last();
    if i == s.len() - 1 {
        let out = s.filter_map(f);
        assert(out == rest.filter_map(f) + seq![f(s[i])->0]);
        assert(out[out.len() - 1] == f(s[i])->0);
    } else {
        assert(rest[i] == s[i]);
        lemma_filter_map_keeps(rest, f, i);
        let k = choose|k: int| 0 <= k < rest.filter_map(f).len() && rest.filter_map(f)[k] == f(
            s[i],
        )->0;
        match f(s.last()) {
            Some(y) => {
                assert(s.filter_map(f) == rest.filter_map(f) + seq![y]);
                assert(s.filter_map(f)[k] == f(s[i])->0);
            },
            None => {},
        }
    }
}

/// Only an entry whose lowercase label is the query scores 1000 or more.
proof fn lemma_high_score_is_exact(e: SearchResult, q: Seq<char>)
    ensures
        entry_score(e, q) matches Some(s) && s >= 1000 ==> lowercase(e.label@) == q,
{
    lemma_match_score_bound(lowercase(e.path@), q);
    lemma_fuzzy_bound(lowercase(e.label@), q, 0, 0, 0, 0);
}

/// Letter case does not hide an exact match: when an entry's label, in
/// lowercase, is the trimmed query in lowercase, a search with room for a
/// result finds something, and what comes first is such an exact match,
/// scored 1000 or more.
pub proof fn law_exact_label_match_comes_first(
    entries: Seq<SearchResult>,
    query: Seq<char>,
    limit: usize,
    r: Seq<SearchResult>,
    i: int,
)
    requires
        search_results(entries, query, limit, r),
        limit >= 1,
        0 <= i < entries.len(),
        lowercase(trim(query)).len() > 0,
        lowercase(entries[i].label@) == lowercase(trim(query)),
    ensures
        r.len() >= 1,
        r[0].score >= 1000,
        lowercase(r[0].label@) == lowercase(trim(query)),
{
    broadcast use vstd::seq_lib::group_to_multiset_ensures;

    let q = lowercase(trim(query));
    let m = matching_entries(entries, q);
    let f = |e: SearchResult| scored_entry(e, q);
    let n = result_cap(limit);
    let ranked = choose|ranked: Seq<SearchResult>|
        {
            &&& ranked.to_multiset() == m.to_multiset()
            &&& sorted_by_key(ranked)
            &&& keeps_ties(ranked, m)
            &&& r == ranked.take(
                if n < ranked.len() {
                    n
                } else {
                    ranked.len() as int
                },
            )
        };
    let e = entries[i];
    assert(f(e) is Some);
    let x = f(e)->0;
    assert(x.score >= 1000);
    lemma_filter_map_keeps(entries, f, i);
    assert(m.contains(x));
    vstd::seq_lib::to_multiset_contains(m, x);
    vstd::seq_lib::to_multiset_contains(ranked, x);
    assert(ranked.contains(x));
    let j = choose|j: int| 0 <= j < ranked.len() && ranked[j] == x;
    if j > 0 {
        assert(ranked[0].key_le(ranked[j]));
    }
    assert(ranked[0].score >= 1000);
    assert(r[0] == ranked[0]);
    let y = ranked[0];
    vstd::seq_lib::to_multiset_contains(ranked, y);
    vstd::seq_lib::to_multiset_contains(m, y);
    assert(m.contains(y));
    entries.lemma_filter_map_contains(f, y);
    let t = choose|t: SearchResult| #[trigger] entries.contains(t) && f(t) == Some(y);
    lemma_high_score_is_exact(t, q);
    assert(entry_score(t, q) == Some(y.score));
    assert(y.label == t.label);
}

/// Ranks the entries of `index` for `query`: the trimmed, lowercase query is
/// scored against every entry, the matches are ordered by `ranks_before_or_with`
/// (ties keep the entries' order), and at most `min(limit, 100)` of them are
/// returned.
pub fn search(index: &ProjectIndex, query: &str, limit: usize) -> (r: Vec<SearchResult>)
    ensures
        search_results(index.entries@, query@, limit, r@),
{
    let trimmed = str_trim(query);
    let q = to_lowercase(&trimmed);
    if crate::text::str_is_empty(&q) {
        return Vec::new();
    }
    let ghost f = |e: SearchResult| scored_entry(e, q@);
    let mut matches: Vec<SearchResult> = Vec::new();
    for i in 0..index.entries.len()
        invariant
            matches@ == index.entries@.take(i as int).filter_map(f),
            f == (|e: SearchResult| scored_entry(e, q@)),
    {
        proof {
            index.entries@.lemma_filter_map_take_succ(f, i as int);
        }
        if let Some(result) = score_entry(&index.entries[i], &q) {
            matches.push(result);
        }
    }
    assert(index.entries@.take(index.entries@.len() as int) =~= index.entries@);
    let mut ranked = sort_by_key(matches);
    let ghost all = ranked@;
    let n = if limit < 100 {
        limit
    } else {
        100
    };
    if n < ranked.len() {
        ranked.truncate(n);
    }
    assert(ranked@ == all.take(
        if n < all.len() {
            n as int
        } else {
            all.len() as int
        },
    ));
    ranked
}

} // verus!
