//! Searching the collected leaves: which leaves match, how they rank, and
//! the snippet each hit shows.
//!
//! Reading the index and the leaf files is the caller's part: it hands in
//! each index entry with what reading its file gave.
use vstd::prelude::*;

use super::{collapse_newlines, collapse_ws, extract_prefix, matches_all, matches_all_terms, page_bounds, page_count, page_window, prefix_text, relevance, total_matches, total_pages, SearchHit, SearchOptions, SearchQuery, SearchResult};
use crate::agent::{char_len, char_len_exec, saturated, utf8_len, utf8_length_saturating};
use crate::show::{first_at, lemma_first_at, leaf_frontmatter, leaf_frontmatter_spec};
use crate::text::{chars_of, find_chars, is_blank_str, lowercase, occurs_at, slice_chars, string_of, strs, to_lowercase, trim, words};
use crate::tree::{rfc3339_instant, rfc3339_parts};

verus! {

/// Characters around the first match that a snippet shows on each side.
pub const SNIPPET_RADIUS: usize = 80;

/// Characters a snippet shows when no term occurs in the body.
pub const FALLBACK_SNIPPET_LEN: usize = 160;

// ── byte positions ───────────────────────────────────────────────────────────

/// The first character of `s` that starts at byte `b` or later, or the
/// length of `s` when none does.
pub open spec fn char_at_byte(s: Seq<char>, b: int) -> nat
    decreases s.len(),
{
    if s.len() == 0 || b <= 0 {
        0
    } else {
        1 + char_at_byte(s.drop_first(), b - char_len(s[0]))
    }
}

proof fn lemma_char_len_pos(c: char)
    ensures
        1 <= char_len(c) <= 4,
{
}

proof fn lemma_utf8_len_first(s: Seq<char>)
    requires
        s.len() > 0,
    ensures
        utf8_len(s) == char_len(s[0]) + utf8_len(s.drop_first()),
    decreases s.len(),
{
    if s.len() > 1 {
        lemma_utf8_len_first(s.drop_last());
        assert(s.drop_last().drop_first() =~= s.drop_first().drop_last());
        assert(s.drop_first().last() == s.last());
        assert(s.drop_last()[0] == s[0]);
    } else {
        assert(s.drop_first() =~= seq![]);
        assert(s.drop_last() =~= seq![]);
    }
}

proof fn lemma_char_at_byte_bounds(s: Seq<char>, b: int)
    ensures
        char_at_byte(s, b) <= s.len(),
        b >= utf8_len(s) ==> char_at_byte(s, b) == s.len(),
    decreases s.len(),
{
    if s.len() > 0 && b > 0 {
        lemma_utf8_len_first(s);
        lemma_char_at_byte_bounds(s.drop_first(), b - char_len(s[0]));
    } else if s.len() > 0 {
        lemma_utf8_len_first(s);
        lemma_char_len_pos(s[0]);
    }
}

proof fn lemma_char_at_byte_mono(s: Seq<char>, b1: int, b2: int)
    requires
        b1 <= b2,
    ensures
        char_at_byte(s, b1) <= char_at_byte(s, b2),
    decreases s.len(),
{
    if s.len() > 0 && b1 > 0 {
        lemma_char_at_byte_mono(s.drop_first(), b1 - char_len(s[0]), b2 - char_len(s[0]));
    }
}

fn char_at_byte_exec(v: &[char], b: usize) -> (r: usize)
    ensures
        r == char_at_byte(v@, b as int),
{
    let mut i: usize = 0;
    let mut acc: usize = 0;
    proof {
        assert(v@.skip(0) =~= v@);
    }
    while i < v.len() && acc < b
        invariant
            i <= v.len(),
            char_at_byte(v@, b as int) == i + char_at_byte(v@.skip(i as int), b - acc),
        decreases v.len() - i,
    {
        let c = char_len_exec(v[i]);
        proof {
            let rest = v@.skip(i as int);
            assert(rest.len() > 0);
            assert(rest[0] == v@[i as int]);
            assert(rest.drop_first() =~= v@.skip(i + 1));
        }
        let ghost exact = acc + c;
        acc = if acc > usize::MAX - c { usize::MAX } else { acc + c };
        proof {
            if exact > usize::MAX {
                assert(char_at_byte(v@.skip(i + 1), b - exact) == 0);
                assert(char_at_byte(v@.skip(i + 1), b - acc) == 0);
            }
        }
        i += 1;
    }
    proof {
        if i == v.len() {
            assert(v@.skip(i as int).len() == 0);
        }
    }
    i
}

// ── snippets ─────────────────────────────────────────────────────────────────

/// The first occurrence of any term in the lowercased body: its position
/// and the term; among terms first found at the same place, the earlier
/// term in the query.
pub open spec fn earliest(lower: Seq<char>, terms: Seq<Seq<char>>) -> Option<(int, Seq<char>)>
    decreases terms.len(),
{
    if terms.len() == 0 {
        None
    } else {
        let prev = earliest(lower, terms.drop_last());
        match first_at(lower, terms.last(), 0) {
            None => prev,
            Some(p) => match prev {
                Some(q) => if q.0 <= p {
                    prev
                } else {
                    Some((p, terms.last()))
                },
                None => Some((p, terms.last())),
            },
        }
    }
}

proof fn lemma_first_at_found(s: Seq<char>, p: Seq<char>, i: int)
    requires
        0 <= i,
    ensures
        first_at(s, p, i) matches Some(k) ==> i <= k <= s.len() && occurs_at(s, p, k) && forall|j: int|
            i <= j < k ==> !occurs_at(s, p, j),
        first_at(s, p, i) is None ==> forall|j: int| i <= j <= s.len() ==> !occurs_at(s, p, j),
    decreases s.len() + 1 - i,
{
    if i <= s.len() && !occurs_at(s, p, i) {
        lemma_first_at_found(s, p, i + 1);
    }
}

/// The snippet's anchor is the earliest match of any term: when some term
/// occurs in the body, the result is a term of the query occurring at the
/// returned position, and no term of the query occurs anywhere before it;
/// when none occurs, there is no anchor.
pub proof fn lemma_earliest_is_first_match(lower: Seq<char>, terms: Seq<Seq<char>>)
    ensures
        earliest(lower, terms) matches Some((p, t)) ==> {
            &&& terms.contains(t)
            &&& 0 <= p <= lower.len()
            &&& occurs_at(lower, t, p)
            &&& forall|k: int, j: int| #![trigger occurs_at(lower, terms[k], j)] 0 <= k < terms.len() && 0 <= j < p ==> !occurs_at(lower, terms[k], j)
        },
        earliest(lower, terms) is None <==> forall|k: int, j: int| #![trigger occurs_at(lower, terms[k], j)]
            0 <= k < terms.len() && 0 <= j <= lower.len() ==> !occurs_at(lower, terms[k], j),
    decreases terms.len(),
{
    if terms.len() > 0 {
        let d = terms.drop_last();
        let t = terms.last();
        lemma_earliest_is_first_match(lower, d);
        lemma_first_at_found(lower, t, 0);
        assert forall|k: int| 0 <= k < d.len() implies d[k] == terms[k] by {}
        assert(terms[terms.len() - 1] == t);
        match earliest(lower, terms) {
            Some((p, x)) => {
                if x == t && earliest(lower, terms) != earliest(lower, d) {
                    assert(terms.contains(t));
                } else {
                    let q = earliest(lower, d)->Some_0;
                    assert(d.contains(q.1));
                    let k0 = choose|k0: int| 0 <= k0 < d.len() && d[k0] == q.1;
                    assert(terms[k0] == q.1);
                }
                assert forall|k: int, j: int| #![trigger occurs_at(lower, terms[k], j)] 0 <= k < terms.len() && 0 <= j < p implies !occurs_at(
                    lower,
                    terms[k],
                    j,
                ) by {
                    if k < d.len() {
                        assert(d[k] == terms[k]);
                    }
                }
            },
            None => {
                assert forall|k: int, j: int| #![trigger occurs_at(lower, terms[k], j)] 0 <= k < terms.len() && 0 <= j <= lower.len() implies !occurs_at(
                    lower,
                    terms[k],
                    j,
                ) by {
                    if k < d.len() {
                        assert(d[k] == terms[k]);
                    }
                }
            },
        }
        if earliest(lower, terms) is Some {
            let (p, x) = earliest(lower, terms)->Some_0;
            assert(occurs_at(lower, x, p));
            let k1: int = if x == t && earliest(lower, terms) != earliest(lower, d) {
                terms.len() - 1
            } else {
                choose|k0: int| 0 <= k0 < d.len() && d[k0] == x
            };
            assert(terms[k1] == x);
        }
    }
}

/// The characters from `m - radius` to `e + radius` of the body, clipped to
/// the body, with `…` on each side that was cut.
pub open spec fn window_text(body: Seq<char>, m: int, e: int, radius: int) -> Seq<char> {
    let n = body.len() as int;
    let start = if m >= radius {
        m - radius
    } else {
        0
    };
    let end = if e + radius < n {
        e + radius
    } else {
        n
    };
    (if start > 0 {
        "\u{2026}"@
    } else {
        seq![]
    }) + body.subrange(start, end) + (if end < n {
        "\u{2026}"@
    } else {
        seq![]
    })
}

/// A hit's snippet: the window around the earliest term in the body, or
/// the body's first characters when no term occurs in it, with whitespace
/// collapsed. The match is found in the lowercased body and its byte
/// position carried over to the body.
pub open spec fn snippet_spec(body: Seq<char>, terms: Seq<Seq<char>>, radius: nat) -> Seq<char> {
    let lower = lowercase(body);
    collapse_ws(
        match earliest(lower, terms) {
            Some(found) => {
                let b: int = utf8_len(lower.take(found.0)) as int;
                window_text(
                    body,
                    char_at_byte(body, b) as int,
                    char_at_byte(body, b + utf8_len(found.1)) as int,
                    radius as int,
                )
            },
            None => prefix_text(body, FALLBACK_SNIPPET_LEN as nat),
        },
    )
}

pub(crate) fn first_occurrence(s: &[char], p: &[char]) -> (r: Option<usize>)
    ensures
        r is None <==> first_at(s@, p@, 0) is None,
        r matches Some(k) ==> first_at(s@, p@, 0) == Some(k as int) && k <= s@.len(),
{
    match find_chars(s, p) {
        Some(i) => {
            proof {
                lemma_first_at(s@, p@, i as int);
            }
            Some(i)
        },
        None => {
            proof {
                assert forall|j: int| 0 <= j < s@.len() + 1 implies !crate::text::occurs_at(s@, p@, j) by {
                    if crate::text::occurs_at(s@, p@, j) {
                        assert(crate::text::contains(s@, p@));
                    }
                }
                lemma_first_at(s@, p@, (s@.len() + 1) as int);
            }
            None
        },
    }
}

fn earliest_exec(lower: &[char], terms: &Vec<String>) -> (r: Option<(usize, usize)>)
    ensures
        match earliest(lower@, strs(terms@)) {
            Some(found) => r matches Some(x) && x.0 == found.0 && x.1 < terms.len() && terms@[x.1 as int]@
                == found.1 && 0 <= found.0 <= lower@.len(),
            None => r is None,
        },
{
    let ghost ts = strs(terms@);
    let mut best: Option<(usize, usize)> = None;
    let mut i: usize = 0;
    while i < terms.len()
        invariant
            i <= terms.len(),
            ts == strs(terms@),
            match earliest(lower@, ts.take(i as int)) {
                Some(found) => best matches Some(x) && x.0 == found.0 && x.1 < i && terms@[x.1 as int]@
                    == found.1 && 0 <= found.0 <= lower@.len(),
                None => best is None,
            },
        decreases terms.len() - i,
    {
        assert(ts.take(i + 1).drop_last() =~= ts.take(i as int));
        assert(ts.take(i + 1).last() == terms@[i as int]@);
        let t = chars_of(terms[i].as_str());
        assert(t@ == ts[i as int]);
        let ghost prev = earliest(lower@, ts.take(i as int));
        assert(earliest(lower@, ts.take(i + 1)) == match first_at(lower@, ts[i as int], 0) {
            None => prev,
            Some(p) => match prev {
                Some(q) => if q.0 <= p {
                    prev
                } else {
                    Some((p, ts[i as int]))
                },
                None => Some((p, ts[i as int])),
            },
        });
        match first_occurrence(lower, &t) {
            None => {},
            Some(p) => {
                match best {
                    Some(x) => {
                        if !(x.0 <= p) {
                            best = Some((p, i));
                        }
                    },
                    None => {
                        best = Some((p, i));
                    },
                }
            },
        }
        i += 1;
    }
    assert(ts.take(terms.len() as int) =~= ts);
    best
}

/// The snippet of a hit's body; `radius` is [`SNIPPET_RADIUS`] when
/// searching. An empty body only goes with non-empty terms: a term found in
/// an empty body leaves no character to cut the window at.
fn extract_snippet(body: &str, terms_lower: &Vec<String>, radius: usize) -> (r: String)
    requires
        radius > 0,
        utf8_len(body@) < usize::MAX,
        body@.len() == 0 ==> forall|i: int| 0 <= i < terms_lower.len() ==> terms_lower@[i]@.len() > 0,
    ensures
        r@ == snippet_spec(body@, strs(terms_lower@), radius as nat),
{
    let lower_s = to_lowercase(body);
    let lower = chars_of(lower_s.as_str());
    let v = chars_of(body);
    let raw = match earliest_exec(&lower, terms_lower) {
        None => extract_prefix(body, FALLBACK_SNIPPET_LEN),
        Some((p, ti)) => {
            let ghost found = earliest(lower@, strs(terms_lower@))->Some_0;
            let head = slice_chars(&lower, 0, p);
            assert(head@ =~= lower@.take(p as int));
            let b1 = utf8_length_saturating(&head);
            let t = chars_of(terms_lower[ti].as_str());
            let tb = utf8_length_saturating(&t);
            let b2 = if b1 > usize::MAX - tb { usize::MAX } else { b1 + tb };
            let m = char_at_byte_exec(&v, b1);
            let e = char_at_byte_exec(&v, b2);
            proof {
                let xb1: int = utf8_len(lower@.take(p as int)) as int;
                let xb2: int = xb1 + utf8_len(found.1);
                lemma_char_at_byte_bounds(v@, xb1);
                lemma_char_at_byte_bounds(v@, xb2);
                lemma_char_at_byte_bounds(v@, b1 as int);
                lemma_char_at_byte_bounds(v@, b2 as int);
                if xb1 > usize::MAX {
                    assert(b1 == usize::MAX);
                }
                assert(char_at_byte(v@, b1 as int) == char_at_byte(v@, xb1));
                if xb2 > usize::MAX {
                    assert(b2 == usize::MAX);
                } else {
                    assert(b2 == xb2);
                }
                assert(char_at_byte(v@, b2 as int) == char_at_byte(v@, xb2));
                lemma_char_at_byte_mono(v@, xb1, xb2);
            }
            let n = v.len();
            let start: usize = if m >= radius { m - radius } else { 0 };
            let end: usize = if radius >= n - e { n } else { e + radius };
            let mut out: Vec<char> = Vec::new();
            if start > 0 {
                out.push('\u{2026}');
            }
            let mid = slice_chars(&v, start, end);
            crate::text::append_chars(&mut out, &mid);
            if end < n {
                out.push('\u{2026}');
            }
            proof {
                reveal_strlit("\u{2026}");
                assert(out@ =~= window_text(v@, m as int, e as int, radius as int));
            }
            string_of(&out)
        },
    };
    collapse_newlines(raw.as_str())
}

// ── scoring ──────────────────────────────────────────────────────────────────

/// The relevance of a lowercased text, with the count of occurrences and
/// its product by 1000 capped at the largest `usize`; where nothing is
/// capped this is [`relevance`].
pub open spec fn capped_relevance(s: Seq<char>, terms: Seq<Seq<char>>) -> nat {
    let w = words(s).len();
    if w == 0 {
        0
    } else {
        saturated(saturated(total_matches(s, terms)) * 1000) / w
    }
}

/// The per-mille density of the terms in a lowercased text, capped where
/// the count would not fit a `usize`.
pub fn relevance_saturating(content_lower: &str, terms_lower: &Vec<String>) -> (r: usize)
    requires
        content_lower@.len() < usize::MAX,
    ensures
        r == capped_relevance(content_lower@, strs(terms_lower@)),
        total_matches(content_lower@, strs(terms_lower@)) * 1000 <= usize::MAX ==> r == relevance(
            content_lower@,
            strs(terms_lower@),
        ),
{
    let chars = chars_of(content_lower);
    let ws = crate::text::split_whitespace(&chars);
    assert(ws@.map_values(|w: Vec<char>| w@).len() == ws@.len());
    let word_count = ws.len();
    if word_count == 0 {
        return 0;
    }
    let ghost ts = strs(terms_lower@);
    let mut total: usize = 0;
    let mut i: usize = 0;
    while i < terms_lower.len()
        invariant
            i <= terms_lower.len(),
            ts == strs(terms_lower@),
            chars@ == content_lower@,
            chars@.len() < usize::MAX,
            total == saturated(total_matches(chars@, ts.take(i as int))),
        decreases terms_lower.len() - i,
    {
        assert(ts.take(i + 1).drop_last() =~= ts.take(i as int));
        assert(ts.take(i + 1).last() == terms_lower@[i as int]@);
        let p = chars_of(terms_lower[i].as_str());
        let c = super::count_matches_exec(&chars, &p);
        total = if total > usize::MAX - c { usize::MAX } else { total + c };
        i += 1;
    }
    assert(ts.take(terms_lower.len() as int) =~= ts);
    let product: usize = if total > usize::MAX / 1000 { usize::MAX } else { total * 1000 };
    proof {
        if total > usize::MAX / 1000 {
            assert(total * 1000 > usize::MAX) by (nonlinear_arith)
                requires
                    total > usize::MAX / 1000,
            ;
        }
    }
    product / word_count
}

// ── the search ───────────────────────────────────────────────────────────────

/// An index entry: the leaf's file and its title in the index.
#[derive(Debug, Clone)]
pub struct IndexEntry {
    pub file: String,
    pub title: String,
}

/// What reading each entry's file gave, as text: `None` when it is
/// missing or unreadable.
pub open spec fn reads_view(reads: Seq<Option<String>>) -> Seq<Option<Seq<char>>> {
    reads.map_values(|r: Option<String>| opt_text(r))
}

/// A matching leaf as ranking sees it.
pub struct ScoredView {
    pub file: Seq<char>,
    pub title: Seq<char>,
    pub body: Seq<char>,
    pub score: nat,
    pub collected_at: Option<Seq<char>>,
    pub date: Option<(i64, u32)>,
    pub index: int,
}

pub open spec fn opt_text(o: Option<String>) -> Option<Seq<char>> {
    match o {
        Some(s) => Some(s@),
        None => None,
    }
}

/// The instant a `collected_at` names, when it parses.
pub open spec fn date_of(c: Option<Seq<char>>) -> Option<(i64, u32)> {
    match c {
        Some(s) => match rfc3339_parts(s) {
            Some(p) => Some((p.0, p.1)),
            None => None,
        },
        None => None,
    }
}

/// The `i`-th leaf, when its file was read and it matches every term. Its
/// title, `collected_at` and body come from its frontmatter when that reads
/// (a blank title falls back to the index's), else the index's title and
/// the whole text.
pub open spec fn scored_one(e: IndexEntry, read: Option<Seq<char>>, terms: Seq<Seq<char>>, i: int) -> Option<ScoredView> {
    match read {
        None => None,
        Some(content) => {
            let lower = lowercase(content);
            if !matches_all(lower, terms) {
                None
            } else {
                let (title, body, collected_at) = match leaf_frontmatter_spec(content) {
                    Some(f) => (
                        match f.0 {
                            Some(x) => if trim(x).len() > 0 {
                                x
                            } else {
                                e.title@
                            },
                            None => e.title@,
                        },
                        f.2,
                        f.1,
                    ),
                    None => (e.title@, content, None),
                };
                Some(
                    ScoredView {
                        file: e.file@,
                        title,
                        body,
                        score: capped_relevance(lower, terms),
                        collected_at,
                        date: date_of(collected_at),
                        index: i,
                    },
                )
            }
        },
    }
}

/// The matching leaves in index order.
pub open spec fn scored_spec(entries: Seq<IndexEntry>, reads: Seq<Option<Seq<char>>>, terms: Seq<Seq<char>>) -> Seq<ScoredView>
    decreases entries.len(),
{
    if entries.len() == 0 || reads.len() == 0 {
        seq![]
    } else {
        let prev = scored_spec(entries.drop_last(), reads.drop_last(), terms);
        match scored_one(entries.last(), reads.last(), terms, entries.len() - 1) {
            Some(s) => prev.push(s),
            None => prev,
        }
    }
}

/// One instant after another.
pub open spec fn later(x: (i64, u32), y: (i64, u32)) -> bool {
    x.0 > y.0 || (x.0 == y.0 && x.1 > y.1)
}

/// The ranking: by relevance, the higher first; or, newest first, leaves
/// without a date last; ties keep index order.
pub open spec fn ranks_before(a: ScoredView, b: ScoredView, recent: bool) -> bool {
    if recent {
        match (a.date, b.date) {
            (Some(x), Some(y)) => later(x, y) || (x == y && a.index < b.index),
            (Some(_), None) => true,
            (None, Some(_)) => false,
            (None, None) => a.index < b.index,
        }
    } else {
        a.score > b.score || (a.score == b.score && a.index < b.index)
    }
}

/// Where a stable sort puts `x` after the sorted `s`.
pub open spec fn rank_pos(s: Seq<ScoredView>, x: ScoredView, recent: bool) -> int
    decreases s.len(),
{
    if s.len() == 0 {
        0
    } else {
        let p = rank_pos(s.drop_last(), x, recent);
        if p < s.len() - 1 {
            p
        } else if ranks_before(x, s.last(), recent) {
            s.len() - 1
        } else {
            s.len() as int
        }
    }
}

/// The leaves in ranking order.
pub open spec fn ranked(s: Seq<ScoredView>, recent: bool) -> Seq<ScoredView>
    decreases s.len(),
{
    if s.len() == 0 {
        seq![]
    } else {
        let t = ranked(s.drop_last(), recent);
        t.insert(rank_pos(t, s.last(), recent), s.last())
    }
}

proof fn lemma_rank_pos_bounds(s: Seq<ScoredView>, x: ScoredView, recent: bool)
    ensures
        0 <= rank_pos(s, x, recent) <= s.len(),
    decreases s.len(),
{
    if s.len() > 0 {
        lemma_rank_pos_bounds(s.drop_last(), x, recent);
    }
}

proof fn lemma_rank_pos_prefix(s: Seq<ScoredView>, x: ScoredView, recent: bool, k: int)
    requires
        0 <= k <= s.len(),
        rank_pos(s.take(k), x, recent) < k,
    ensures
        rank_pos(s, x, recent) == rank_pos(s.take(k), x, recent),
    decreases s.len() - k,
{
    if k == s.len() {
        assert(s.take(k) =~= s);
    } else {
        assert(s.drop_last().take(k) =~= s.take(k));
        lemma_rank_pos_prefix(s.drop_last(), x, recent, k);
    }
}

proof fn lemma_ranked_len(s: Seq<ScoredView>, recent: bool)
    ensures
        ranked(s, recent).len() == s.len(),
    decreases s.len(),
{
    if s.len() > 0 {
        lemma_ranked_len(s.drop_last(), recent);
        lemma_rank_pos_bounds(ranked(s.drop_last(), recent), s.last(), recent);
    }
}

proof fn lemma_ranks_before_order(a: ScoredView, b: ScoredView, c: ScoredView, recent: bool)
    ensures
        !(ranks_before(a, b, recent) && ranks_before(b, a, recent)),
        ranks_before(a, b, recent) && ranks_before(b, c, recent) ==> ranks_before(a, c, recent),
{
}

proof fn lemma_rank_pos_first(t: Seq<ScoredView>, x: ScoredView, recent: bool)
    ensures
        forall|i: int| 0 <= i < rank_pos(t, x, recent) ==> !ranks_before(x, #[trigger] t[i], recent),
        rank_pos(t, x, recent) < t.len() ==> ranks_before(x, t[rank_pos(t, x, recent)], recent),
    decreases t.len(),
{
    if t.len() > 0 {
        let d = t.drop_last();
        lemma_rank_pos_first(d, x, recent);
        lemma_rank_pos_bounds(d, x, recent);
        assert forall|i: int| 0 <= i < rank_pos(t, x, recent) implies !ranks_before(x, #[trigger] t[i], recent) by {
            if i < d.len() {
                assert(t[i] == d[i]);
            }
        }
        if rank_pos(d, x, recent) < d.len() {
            assert(t[rank_pos(d, x, recent)] == d[rank_pos(d, x, recent)]);
        }
    }
}

/// Search results come in ranking order and hold each matching leaf once:
/// no hit ranks before a hit listed ahead of it. The ranking is by
/// relevance, the highest first; with `recent`, newest first and undated
/// leaves last; ties keep the order of the index.
pub proof fn lemma_ranking_is_ordered(s: Seq<ScoredView>, recent: bool)
    ensures
        ranked(s, recent).to_multiset() == s.to_multiset(),
        forall|i: int, j: int|
            0 <= i < j < ranked(s, recent).len() ==> !ranks_before(
                #[trigger] ranked(s, recent)[j],
                #[trigger] ranked(s, recent)[i],
                recent,
            ),
    decreases s.len(),
{
    broadcast use vstd::seq_lib::to_multiset_insert, vstd::seq_lib::to_multiset_build;

    if s.len() == 0 {
        assert(s =~= Seq::<ScoredView>::empty());
    } else {
        let d = s.drop_last();
        let x = s.last();
        lemma_ranking_is_ordered(d, recent);
        let t = ranked(d, recent);
        lemma_rank_pos_bounds(t, x, recent);
        lemma_rank_pos_first(t, x, recent);
        let p = rank_pos(t, x, recent);
        let u = t.insert(p, x);
        assert(u == ranked(s, recent));
        assert(s == d.push(x));
        assert(u.to_multiset() == t.to_multiset().insert(x));
        assert forall|i: int, j: int| 0 <= i < j < u.len() implies !ranks_before(
            #[trigger] u[j],
            #[trigger] u[i],
            recent,
        ) by {
            t.insert_ensures(p, x);
            if j < p {
                assert(u[i] == t[i] && u[j] == t[j]);
            } else if j == p {
                assert(u[i] == t[i]);
            } else if i > p {
                assert(u[i] == t[i - 1] && u[j] == t[j - 1]);
            } else if i == p {
                assert(u[j] == t[j - 1]);
                if j - 1 > p {
                    lemma_ranks_before_order(t[j - 1], x, t[p], recent);
                    lemma_ranks_before_order(t[p], t[j - 1], x, recent);
                } else {
                    lemma_ranks_before_order(x, t[p], x, recent);
                }
            } else {
                assert(u[i] == t[i] && u[j] == t[j - 1]);
            }
        }
    }
}

/// A hit as plain values: file, title, snippet, score and `collected_at`.
pub open spec fn hit_view(h: SearchHit) -> (Seq<char>, Seq<char>, Seq<char>, nat, Option<Seq<char>>) {
    (h.file@, h.title@, h.snippet@, h.score as nat, opt_text(h.collected_at))
}

/// The hit a ranked leaf gives.
pub open spec fn hit_of(s: ScoredView, terms: Seq<Seq<char>>) -> (Seq<char>, Seq<char>, Seq<char>, nat, Option<Seq<char>>) {
    (s.file, s.title, snippet_spec(s.body, terms, SNIPPET_RADIUS as nat), s.score, s.collected_at)
}

/// What a search finds: every matching leaf ranked, and the hits of the
/// asked page.
pub open spec fn search_ok(
    r: SearchResult,
    entries: Seq<IndexEntry>,
    reads: Seq<Option<Seq<char>>>,
    terms: Seq<Seq<char>>,
    options: SearchOptions,
) -> bool {
    let all = ranked(scored_spec(entries, reads, terms), options.recent);
    let (start, count) = page_window(all.len(), options.page as nat);
    &&& r.total_results == all.len()
    &&& r.page == options.page
    &&& r.total_pages == page_count(all.len())
    &&& r.hits@.map_values(|h: SearchHit| hit_view(h)) == page_items(all, start, count).map_values(
        |s: ScoredView| hit_of(s, terms),
    )
}

/// Every leaf on the asked page can have its snippet cut: its body's bytes
/// can be counted, and an empty body only goes with non-empty terms.
pub open spec fn page_searchable(
    entries: Seq<IndexEntry>,
    reads: Seq<Option<Seq<char>>>,
    terms: Seq<Seq<char>>,
    options: SearchOptions,
) -> bool {
    let all = ranked(scored_spec(entries, reads, terms), options.recent);
    let (start, count) = page_window(all.len(), options.page as nat);
    forall|q: int| start <= q < start + count ==> snippet_ok(#[trigger] all[q], terms)
}

struct Scored {
    file: String,
    title: String,
    body: String,
    score: usize,
    collected_at: Option<String>,
    date: Option<(i64, u32)>,
    index: usize,
}

spec fn scored_view(s: Scored) -> ScoredView {
    ScoredView {
        file: s.file@,
        title: s.title@,
        body: s.body@,
        score: s.score as nat,
        collected_at: opt_text(s.collected_at),
        date: s.date,
        index: s.index as int,
    }
}

spec fn scored_views(v: Seq<Scored>) -> Seq<ScoredView> {
    v.map_values(|s: Scored| scored_view(s))
}

fn score_one(e: &IndexEntry, read: &Option<String>, terms: &Vec<String>, i: usize) -> (r: Option<Scored>)
    ensures
        match scored_one(*e, opt_text(*read), strs(terms@), i as int) {
            Some(v) => r matches Some(x) && scored_view(x) == v,
            None => r is None,
        },
{
    let content = match read {
        None => {
            return None;
        },
        Some(t) => t,
    };
    let lower = to_lowercase(content.as_str());
    if !matches_all_terms(lower.as_str(), terms) {
        return None;
    }
    let score = relevance_saturating(lower.as_str(), terms);
    let (title, body, collected_at) = match leaf_frontmatter(content.as_str()) {
        Some((ft, ca, b)) => {
            let title = match ft {
                Some(x) => if !is_blank_str(x.as_str()) {
                    x
                } else {
                    e.title.clone()
                },
                None => e.title.clone(),
            };
            (title, b, ca)
        },
        None => (e.title.clone(), content.clone(), None),
    };
    let date = match &collected_at {
        Some(s) => rfc3339_instant(s.as_str()),
        None => None,
    };
    Some(Scored { file: e.file.clone(), title, body, score, collected_at, date, index: i })
}

fn ranks_before_exec(a: &Scored, b: &Scored, recent: bool) -> (r: bool)
    ensures
        r == ranks_before(scored_view(*a), scored_view(*b), recent),
{
    if recent {
        match (a.date, b.date) {
            (Some(x), Some(y)) => (x.0 > y.0 || (x.0 == y.0 && x.1 > y.1)) || (x.0 == y.0 && x.1 == y.1 && a.index
                < b.index),
            (Some(_), None) => true,
            (None, Some(_)) => false,
            (None, None) => a.index < b.index,
        }
    } else {
        a.score > b.score || (a.score == b.score && a.index < b.index)
    }
}

fn rank(items: Vec<Scored>, recent: bool) -> (r: Vec<Scored>)
    ensures
        scored_views(r@) == ranked(scored_views(items@), recent),
{
    let ghost iv = scored_views(items@);
    let ghost n = iv.len();
    assert(n == items.len());
    let mut rest = items;
    let mut out: Vec<Scored> = Vec::new();
    let mut i: usize = 0;
    assert(scored_views(rest@) =~= iv.skip(0));
    while rest.len() > 0
        invariant
            i + rest.len() == n,
            n == iv.len(),
            n <= usize::MAX,
            scored_views(rest@) == iv.skip(i as int),
            scored_views(out@) == ranked(iv.take(i as int), recent),
        decreases rest.len(),
    {
        let ghost rb = rest@;
        let x = rest.remove(0);
        proof {
            assert(rest@ =~= rb.drop_first());
            assert(scored_views(rb)[0] == scored_view(x));
            assert forall|j: int| 0 <= j < rest@.len() implies scored_views(rest@)[j] == iv.skip(i + 1)[j] by {
                assert(scored_views(rb)[j + 1] == iv.skip(i as int)[j + 1]);
                assert(rest@[j] == rb[j + 1]);
            }
            assert(scored_views(rest@) =~= iv.skip(i + 1));
            assert(iv.take(i + 1).drop_last() =~= iv.take(i as int));
            assert(iv.take(i + 1).last() == scored_view(x));
        }
        let ghost ov = scored_views(out@);
        let mut j: usize = 0;
        while j < out.len() && !ranks_before_exec(&x, &out[j], recent)
            invariant
                j <= out.len(),
                ov == scored_views(out@),
                rank_pos(ov.take(j as int), scored_view(x), recent) == j,
            decreases out.len() - j,
        {
            assert(ov.take(j + 1).drop_last() =~= ov.take(j as int));
            assert(ov.take(j + 1).last() == scored_view(out@[j as int]));
            j += 1;
        }
        proof {
            if j < out.len() {
                assert(ov.take(j + 1).drop_last() =~= ov.take(j as int));
                assert(ov.take(j + 1).last() == scored_view(out@[j as int]));
                lemma_rank_pos_prefix(ov, scored_view(x), recent, j + 1);
            } else {
                assert(ov.take(j as int) =~= ov);
            }
        }
        let ghost xv = scored_view(x);
        out.insert(j, x);
        assert(scored_views(out@) =~= ov.insert(j as int, xv));
        i += 1;
    }
    assert(iv.take(n as int) =~= iv);
    out
}

/// A leaf whose snippet can be cut: its body's bytes can be counted, and
/// an empty body only goes with non-empty terms.
pub open spec fn snippet_ok(v: ScoredView, terms: Seq<Seq<char>>) -> bool {
    &&& utf8_len(v.body) < usize::MAX
    &&& v.body.len() == 0 ==> forall|k: int| 0 <= k < terms.len() ==> terms[k].len() > 0
}

proof fn lemma_ranked_keeps(s: Seq<ScoredView>, recent: bool, p: spec_fn(ScoredView) -> bool)
    requires
        forall|i: int| 0 <= i < s.len() ==> p(#[trigger] s[i]),
    ensures
        forall|i: int| 0 <= i < ranked(s, recent).len() ==> p(#[trigger] ranked(s, recent)[i]),
    decreases s.len(),
{
    if s.len() > 0 {
        assert forall|i: int| 0 <= i < s.drop_last().len() implies p(#[trigger] s.drop_last()[i]) by {
            assert(s.drop_last()[i] == s[i]);
        }
        lemma_ranked_keeps(s.drop_last(), recent, p);
        let t = ranked(s.drop_last(), recent);
        lemma_rank_pos_bounds(t, s.last(), recent);
        let pos = rank_pos(t, s.last(), recent);
        let u = t.insert(pos, s.last());
        assert(p(s[s.len() - 1]));
        assert forall|i: int| 0 <= i < u.len() implies p(#[trigger] u[i]) by {
            t.insert_ensures(pos, s.last());
            if i < pos {
                assert(u[i] == t[i]);
            } else if i > pos {
                assert(u[i] == t[i - 1]);
            }
        }
    }
}

/// The page of the ranked leaves: none past the end.
pub open spec fn page_items(all: Seq<ScoredView>, start: nat, count: nat) -> Seq<ScoredView> {
    if count == 0 {
        seq![]
    } else {
        all.subrange(start as int, (start + count) as int)
    }
}

/// The matching leaves, ranked: the part of a search before its page is cut.
fn ranked_leaves(entries: &Vec<IndexEntry>, reads: &Vec<Option<String>>, query: &SearchQuery, recent: bool) -> (r: Vec<
    Scored,
>)
    requires
        reads.len() == entries.len(),
    ensures
        scored_views(r@) == ranked(scored_spec(entries@, reads_view(reads@), strs(query.terms@)), recent),
{
    let ghost ts = strs(query.terms@);
    let ghost rv = reads_view(reads@);
    let mut scored: Vec<Scored> = Vec::new();
    let mut i: usize = 0;
    while i < entries.len()
        invariant
            i <= entries.len(),
            reads.len() == entries.len(),
            ts == strs(query.terms@),
            rv == reads_view(reads@),
            scored_views(scored@) == scored_spec(entries@.take(i as int), rv.take(i as int), ts),
        decreases entries.len() - i,
    {
        assert(entries@.take(i + 1).drop_last() =~= entries@.take(i as int));
        assert(rv.take(i + 1).drop_last() =~= rv.take(i as int));
        assert(entries@.take(i + 1).last() == entries@[i as int]);
        assert(rv.take(i + 1).last() == opt_text(reads@[i as int]));
        match score_one(&entries[i], &reads[i], &query.terms, i) {
            Some(s) => {
                let ghost before = scored@;
                scored.push(s);
                assert(scored_views(scored@) =~= scored_views(before).push(scored_view(s)));
            },
            None => {},
        }
        i += 1;
    }
    assert(entries@.take(entries.len() as int) =~= entries@);
    assert(rv.take(reads.len() as int) =~= rv);
    rank(scored, recent)
}

/// Whether every ranked leaf in the window can have its snippet cut.
fn page_ok(sorted: &Vec<Scored>, start: usize, count: usize, terms: &Vec<String>) -> (r: bool)
    requires
        start + count <= sorted.len(),
    ensures
        r == forall|q: int| start <= q < start + count ==> snippet_ok(#[trigger] scored_views(sorted@)[q], strs(terms@)),
{
    let mut no_empty_term = true;
    let mut t: usize = 0;
    while t < terms.len()
        invariant
            t <= terms.len(),
            no_empty_term == forall|k: int| 0 <= k < t ==> terms@[k]@.len() > 0,
        decreases terms.len() - t,
    {
        if terms[t].as_str().is_empty() {
            no_empty_term = false;
        }
        t += 1;
    }
    proof {
        let ts = strs(terms@);
        assert(ts.len() == terms@.len());
        if no_empty_term {
            assert forall|j: int| 0 <= j < ts.len() implies ts[j].len() > 0 by {
                assert(ts[j] == terms@[j]@);
            }
        } else {
            let k = choose|k: int| 0 <= k < terms@.len() && !(terms@[k]@.len() > 0);
            assert(ts[k] == terms@[k]@);
        }
    }
    let ghost sv = scored_views(sorted@);
    let mut k: usize = 0;
    while k < count
        invariant
            k <= count,
            start + count <= sorted.len(),
            sv == scored_views(sorted@),
            no_empty_term == forall|j: int| 0 <= j < strs(terms@).len() ==> strs(terms@)[j].len() > 0,
            forall|q: int| start <= q < start + k ==> snippet_ok(#[trigger] sv[q], strs(terms@)),
        decreases count - k,
    {
        let s = &sorted[start + k];
        assert(sv[start + k] == scored_view(*s));
        let body = chars_of(s.body.as_str());
        let n = utf8_length_saturating(&body);
        if n == usize::MAX || (body.len() == 0 && !no_empty_term) {
            assert(!snippet_ok(sv[start + k], strs(terms@)));
            return false;
        }
        k += 1;
    }
    true
}

/// Cuts the asked page out of the ranked leaves.
fn page_hits(sorted: &Vec<Scored>, start: usize, count: usize, query: &SearchQuery) -> (r: Vec<SearchHit>)
    requires
        start + count <= sorted.len(),
        forall|q: int| start <= q < start + count ==> snippet_ok(#[trigger] scored_views(sorted@)[q], strs(query.terms@)),
    ensures
        r@.map_values(|h: SearchHit| hit_view(h)) == scored_views(sorted@).subrange(start as int, start + count).map_values(
            |s: ScoredView| hit_of(s, strs(query.terms@)),
        ),
{
    let ghost ts = strs(query.terms@);
    let ghost sv = scored_views(sorted@);
    let mut hits: Vec<SearchHit> = Vec::new();
    let mut k: usize = 0;
    while k < count
        invariant
            k <= count,
            start + count <= sorted.len(),
            sv == scored_views(sorted@),
            ts == strs(query.terms@),
            forall|q: int| start <= q < start + count ==> snippet_ok(#[trigger] sv[q], ts),
            hits@.map_values(|h: SearchHit| hit_view(h)) == sv.subrange(start as int, start + k).map_values(
                |s: ScoredView| hit_of(s, ts),
            ),
        decreases count - k,
    {
        let s = &sorted[start + k];
        proof {
            assert(sv[start + k] == scored_view(*s));
            assert(snippet_ok(scored_view(*s), ts));
            if s.body@.len() == 0 {
                assert forall|q: int| 0 <= q < query.terms.len() implies query.terms@[q]@.len() > 0 by {
                    assert(ts[q] == query.terms@[q]@);
                    assert(ts.len() == query.terms.len());
                }
            }
        }
        let snippet = extract_snippet(s.body.as_str(), &query.terms, SNIPPET_RADIUS);
        let h = SearchHit {
            file: s.file.clone(),
            title: s.title.clone(),
            snippet,
            score: s.score,
            collected_at: crate::text::clone_opt_string(&s.collected_at),
        };
        let ghost hb = hits@;
        hits.push(h);
        assert(hits@.map_values(|h: SearchHit| hit_view(h)) =~= hb.map_values(|h: SearchHit| hit_view(h)).push(
            hit_view(h),
        ));
        assert(sv.subrange(start as int, start + k + 1) =~= sv.subrange(start as int, start + k).push(sv[start + k]));
        k += 1;
    }
    hits
}

/// Searches the leaves of the index for the query. `reads[i]` is the text
/// of the `i`-th entry's file, `None` when it is missing or unreadable, and
/// such a leaf is passed over. Every leaf on the asked page must be able to
/// have its snippet cut (see [`search_leaves_checked`]).
pub fn search_leaves(
    entries: &Vec<IndexEntry>,
    reads: &Vec<Option<String>>,
    query: &SearchQuery,
    options: &SearchOptions,
) -> (r: SearchResult)
    requires
        reads.len() == entries.len(),
        options.page >= 1,
        (options.page - 1) * 5 <= usize::MAX,
        page_searchable(entries@, reads_view(reads@), strs(query.terms@), *options),
    ensures
        search_ok(r, entries@, reads_view(reads@), strs(query.terms@), *options),
{
    let ghost ts = strs(query.terms@);
    let sorted = ranked_leaves(entries, reads, query, options.recent);
    let ghost all = ranked(scored_spec(entries@, reads_view(reads@), ts), options.recent);
    proof {
        lemma_ranked_len(scored_spec(entries@, reads_view(reads@), ts), options.recent);
    }
    let total = sorted.len();
    let (start, count) = page_bounds(total, options.page);
    if count == 0 {
        let hits: Vec<SearchHit> = Vec::new();
        assert(hits@.map_values(|h: SearchHit| hit_view(h)) =~= seq![]);
        assert(page_items(all, start as nat, count as nat).map_values(|s: ScoredView| hit_of(s, ts)) =~= seq![]);
        return SearchResult { hits, total_results: total, page: options.page, total_pages: total_pages(total) };
    }
    let hits = page_hits(&sorted, start, count, query);
    assert(page_items(all, start as nat, count as nat) =~= scored_views(sorted@).subrange(start as int, start + count));
    SearchResult { hits, total_results: total, page: options.page, total_pages: total_pages(total) }
}

/// Searches as [`search_leaves`] does when every leaf on the asked page can
/// have its snippet cut; `None` when one cannot (a term is empty and the
/// leaf's body is empty, or the body is too long to count in bytes).
pub fn search_leaves_checked(
    entries: &Vec<IndexEntry>,
    reads: &Vec<Option<String>>,
    query: &SearchQuery,
    options: &SearchOptions,
) -> (r: Option<SearchResult>)
    requires
        reads.len() == entries.len(),
        options.page >= 1,
        (options.page - 1) * 5 <= usize::MAX,
    ensures
        page_searchable(entries@, reads_view(reads@), strs(query.terms@), *options) <==> r is Some,
        r matches Some(res) ==> search_ok(res, entries@, reads_view(reads@), strs(query.terms@), *options),
{
    let ghost ts = strs(query.terms@);
    let sorted = ranked_leaves(entries, reads, query, options.recent);
    let ghost all = ranked(scored_spec(entries@, reads_view(reads@), ts), options.recent);
    proof {
        lemma_ranked_len(scored_spec(entries@, reads_view(reads@), ts), options.recent);
    }
    let total = sorted.len();
    let (start, count) = page_bounds(total, options.page);
    if count == 0 {
        let hits: Vec<SearchHit> = Vec::new();
        assert(hits@.map_values(|h: SearchHit| hit_view(h)) =~= seq![]);
        assert(page_items(all, start as nat, count as nat).map_values(|s: ScoredView| hit_of(s, ts)) =~= seq![]);
        return Some(SearchResult { hits, total_results: total, page: options.page, total_pages: total_pages(total) });
    }
    if !page_ok(&sorted, start, count, &query.terms) {
        return None;
    }
    let hits = page_hits(&sorted, start, count, query);
    assert(page_items(all, start as nat, count as nat) =~= scored_views(sorted@).subrange(start as int, start + count));
    Some(SearchResult { hits, total_results: total, page: options.page, total_pages: total_pages(total) })
}

} // verus!
