//! `bo search`: deterministic lexical search over collected leaves.
//!
//! The library holds the matching and scoring of a leaf's text, the
//! snippet helpers, the pagination and the text the CLI prints. Reading the
//! index and the leaf files stays with the caller.
use vstd::prelude::*;

pub mod leaves;

use crate::text::{chars_of, contains, contains_str, decimal, is_ascii_ws, is_ascii_whitespace, owned, push, push_str, string_of, strs, usize_to_string, words};

verus! {

/// Results shown per page.
pub const PAGE_SIZE: usize = 5;

#[derive(Debug, Clone)]
pub struct SearchQuery {
    /// Each entry is a term or phrase, lowercased when parsed.
    pub terms: Vec<String>,
}

#[derive(Debug, Clone, Copy)]
pub struct SearchOptions {
    pub page: usize,
    pub recent: bool,
}

#[derive(Debug, Clone)]
pub struct SearchHit {
    pub file: String,
    pub title: String,
    pub snippet: String,
    pub score: usize,
    pub collected_at: Option<String>,
}

#[derive(Debug, Clone)]
pub struct SearchResult {
    pub hits: Vec<SearchHit>,
    pub total_results: usize,
    pub page: usize,
    pub total_pages: usize,
}

#[derive(Debug)]
pub enum SearchError {
    Io(String),
    Json(String),
}

impl SearchError {
    pub fn message(&self) -> (r: String)
        ensures
            r@ == match self {
                SearchError::Io(m) => "I/O error: "@ + m@,
                SearchError::Json(m) => "JSON error: "@ + m@,
            },
    {
        match self {
            SearchError::Io(m) => crate::text::cat("I/O error: ", m.as_str()),
            SearchError::Json(m) => crate::text::cat("JSON error: ", m.as_str()),
        }
    }
}

// ── matching and scoring ─────────────────────────────────────────────────────

/// Every term occurs in the text. Text and terms are lowercased already.
pub open spec fn matches_all(content: Seq<char>, terms: Seq<Seq<char>>) -> bool {
    forall|i: int| 0 <= i < terms.len() ==> contains(content, #[trigger] terms[i])
}

pub fn matches_all_terms(content_lower: &str, terms_lower: &Vec<String>) -> (r: bool)
    ensures
        r == matches_all(content_lower@, strs(terms_lower@)),
{
    let ghost ts = strs(terms_lower@);
    let mut i: usize = 0;
    while i < terms_lower.len()
        invariant
            i <= terms_lower.len(),
            ts == strs(terms_lower@),
            forall|k: int| 0 <= k < i ==> contains(content_lower@, #[trigger] ts[k]),
        decreases terms_lower.len() - i,
    {
        assert(ts[i as int] == terms_lower@[i as int]@);
        if !contains_str(content_lower, terms_lower[i].as_str()) {
            return false;
        }
        i += 1;
    }
    true
}

/// The number of non-overlapping occurrences of `p` in `s`, found left to
/// right, as `str::matches` yields them; an empty pattern matches at every
/// character boundary.
pub open spec fn count_matches(s: Seq<char>, p: Seq<char>) -> nat
    decreases s.len(),
{
    if p.len() == 0 {
        s.len() + 1
    } else if s.len() < p.len() {
        0
    } else if s.take(p.len() as int) == p {
        1 + count_matches(s.skip(p.len() as int), p)
    } else {
        count_matches(s.drop_first(), p)
    }
}

pub open spec fn total_matches(s: Seq<char>, terms: Seq<Seq<char>>) -> nat
    decreases terms.len(),
{
    if terms.len() == 0 {
        0
    } else {
        total_matches(s, terms.drop_last()) + count_matches(s, terms.last())
    }
}

/// Occurrences per thousand words: the occurrences of all terms, times
/// 1000, divided by the word count; 0 for a text without words.
pub open spec fn relevance(s: Seq<char>, terms: Seq<Seq<char>>) -> nat {
    let w = words(s).len();
    if w == 0 {
        0
    } else {
        (total_matches(s, terms) * 1000) / w
    }
}

proof fn lemma_count_matches_bound(s: Seq<char>, p: Seq<char>)
    ensures
        count_matches(s, p) <= s.len() + 1,
    decreases s.len(),
{
    if p.len() > 0 && s.len() >= p.len() {
        if s.take(p.len() as int) == p {
            lemma_count_matches_bound(s.skip(p.len() as int), p);
        } else {
            lemma_count_matches_bound(s.drop_first(), p);
        }
    }
}

fn count_matches_exec(s: &[char], p: &[char]) -> (r: usize)
    requires
        s@.len() < usize::MAX,
    ensures
        r == count_matches(s@, p@),
{
    if p.len() == 0 {
        return s.len() + 1;
    }
    let mut n: usize = 0;
    let mut i: usize = 0;
    proof {
        assert(s@.skip(0) =~= s@);
        lemma_count_matches_bound(s@, p@);
    }
    while i < s.len()
        invariant
            i <= s.len(),
            p.len() > 0,
            s@.len() < usize::MAX,
            n + count_matches(s@.skip(i as int), p@) == count_matches(s@, p@),
            count_matches(s@, p@) <= s@.len() + 1,
        decreases s.len() - i,
    {
        let ghost rest = s@.skip(i as int);
        if s.len() - i < p.len() {
            assert(count_matches(rest, p@) == 0);
            return n;
        }
        if crate::text::occurs_at_exec(s, p, i) {
            proof {
                assert(rest.take(p@.len() as int) =~= s@.subrange(i as int, i + p@.len()));
                assert(rest.skip(p@.len() as int) =~= s@.skip(i + p@.len()));
                lemma_count_matches_bound(s@.skip(i + p@.len()), p@);
            }
            n = n + 1;
            i = i + p.len();
        } else {
            proof {
                assert(rest.take(p@.len() as int) =~= s@.subrange(i as int, i + p@.len()));
                assert(rest.drop_first() =~= s@.skip(i + 1));
            }
            i = i + 1;
        }
    }
    assert(s@.skip(i as int) =~= seq![]);
    n
}

/// Per-mille density of the terms in a lowercased text.
pub fn score_relevance(content_lower: &str, terms_lower: &Vec<String>) -> (r: usize)
    requires
        content_lower@.len() < usize::MAX,
        total_matches(content_lower@, strs(terms_lower@)) * 1000 <= usize::MAX,
    ensures
        r == relevance(content_lower@, strs(terms_lower@)),
{
    leaves::relevance_saturating(content_lower, terms_lower)
}

// ── snippets ─────────────────────────────────────────────────────────────────

/// Runs of ASCII whitespace collapsed into one space each.
pub open spec fn collapse_ws(s: Seq<char>) -> Seq<char>
    decreases s.len(),
{
    if s.len() == 0 {
        seq![]
    } else {
        let prev = collapse_ws(s.drop_last());
        let c = s.last();
        if is_ascii_ws(c) {
            if s.len() >= 2 && is_ascii_ws(s[s.len() - 2]) {
                prev
            } else {
                prev.push(' ')
            }
        } else {
            prev.push(c)
        }
    }
}

pub fn collapse_newlines(s: &str) -> (r: String)
    ensures
        r@ == collapse_ws(s@),
{
    let v = chars_of(s);
    let mut result = String::new();
    let mut prev_ws = false;
    let mut i: usize = 0;
    while i < v.len()
        invariant
            i <= v.len(),
            v@ == s@,
            result@ == collapse_ws(v@.take(i as int)),
            prev_ws == (i > 0 && is_ascii_ws(v@[i - 1])),
        decreases v.len() - i,
    {
        assert(v@.take(i + 1).drop_last() =~= v@.take(i as int));
        assert(v@.take(i + 1).last() == v@[i as int]);
        let ch = v[i];
        if is_ascii_whitespace(ch) {
            if !prev_ws {
                push(&mut result, ' ');
            }
            prev_ws = true;
        } else {
            push(&mut result, ch);
            prev_ws = false;
        }
        i += 1;
    }
    assert(v@.take(v.len() as int) =~= v@);
    result
}

/// The first `max_chars` characters, with `…` after them when text was cut.
pub open spec fn prefix_text(s: Seq<char>, max_chars: nat) -> Seq<char> {
    if s.len() <= max_chars {
        s
    } else {
        s.take(max_chars as int).push('\u{2026}')
    }
}

pub fn extract_prefix(text: &str, max_chars: usize) -> (r: String)
    ensures
        r@ == prefix_text(text@, max_chars as nat),
{
    let v = chars_of(text);
    if v.len() <= max_chars {
        return owned(text);
    }
    let mut out: Vec<char> = Vec::new();
    let mut i: usize = 0;
    while i < max_chars
        invariant
            i <= max_chars < v.len(),
            out@ == v@.take(i as int),
        decreases max_chars - i,
    {
        out.push(v[i]);
        assert(v@.take(i + 1) == v@.take(i as int).push(v@[i as int]));
        i += 1;
    }
    out.push('\u{2026}');
    string_of(&out)
}

// ── pagination ───────────────────────────────────────────────────────────────

/// Pages needed for the results: none for no result.
pub open spec fn page_count(total: nat) -> nat {
    if total == 0 {
        0
    } else {
        ((total + 4) / 5) as nat
    }
}

pub fn total_pages(total_results: usize) -> (r: usize)
    ensures
        r == page_count(total_results as nat),
{
    if total_results == 0 {
        0
    } else {
        total_results / 5 + if total_results % 5 == 0 { 0 } else { 1 }
    }
}

/// The positions of page `page` (from 1): where it starts among the
/// results and how many it shows.
pub open spec fn page_window(total: nat, page: nat) -> (nat, nat) {
    let start = ((page - 1) * 5) as nat;
    if start >= total {
        (start, 0)
    } else if total - start >= 5 {
        (start, 5)
    } else {
        (start, (total - start) as nat)
    }
}

pub fn page_bounds(total_results: usize, page: usize) -> (r: (usize, usize))
    requires
        page >= 1,
        (page - 1) * 5 <= usize::MAX,
    ensures
        (r.0 as nat, r.1 as nat) == page_window(total_results as nat, page as nat),
{
    let start = (page - 1) * 5;
    if start >= total_results {
        (start, 0)
    } else if total_results - start >= 5 {
        (start, 5)
    } else {
        (start, total_results - start)
    }
}

// ── rendering ────────────────────────────────────────────────────────────────

pub open spec fn hit_lines(hs: Seq<SearchHit>) -> Seq<char>
    decreases hs.len(),
{
    if hs.len() == 0 {
        seq![]
    } else {
        hit_lines(hs.drop_last()) + hs.last().title@ + "\n"@ + "  "@ + hs.last().snippet@ + "\n"@ + "\n"@
    }
}

pub open spec fn search_text(r: SearchResult) -> Seq<char> {
    if r.total_results == 0 {
        "no results\n"@
    } else if r.hits@.len() == 0 {
        "no results on page "@ + decimal(r.page as nat) + " ("@ + decimal(r.total_results as nat)
            + " total results, "@ + decimal(r.total_pages as nat) + " pages)\n"@
    } else {
        hit_lines(r.hits@) + "page "@ + decimal(r.page as nat) + "/"@ + decimal(r.total_pages as nat) + " ("@
            + decimal(r.total_results as nat) + " results)\n"@
    }
}

/// The hits of the page, then where the page stands.
pub fn render_human(result: &SearchResult) -> (r: String)
    ensures
        r@ == search_text(*result),
{
    if result.total_results == 0 {
        return owned("no results\n");
    }
    if result.hits.len() == 0 {
        let mut s = owned("no results on page ");
        push_str(&mut s, usize_to_string(result.page).as_str());
        push_str(&mut s, " (");
        push_str(&mut s, usize_to_string(result.total_results).as_str());
        push_str(&mut s, " total results, ");
        push_str(&mut s, usize_to_string(result.total_pages).as_str());
        push_str(&mut s, " pages)\n");
        return s;
    }
    let mut out = String::new();
    let mut i: usize = 0;
    while i < result.hits.len()
        invariant
            i <= result.hits.len(),
            out@ == hit_lines(result.hits@.take(i as int)),
        decreases result.hits.len() - i,
    {
        assert(result.hits@.take(i + 1).drop_last() =~= result.hits@.take(i as int));
        assert(result.hits@.take(i + 1).last() == result.hits@[i as int]);
        let h = &result.hits[i];
        push_str(&mut out, h.title.as_str());
        push_str(&mut out, "\n");
        push_str(&mut out, "  ");
        push_str(&mut out, h.snippet.as_str());
        push_str(&mut out, "\n");
        push_str(&mut out, "\n");
        i += 1;
    }
    assert(result.hits@.take(result.hits.len() as int) =~= result.hits@);
    push_str(&mut out, "page ");
    push_str(&mut out, usize_to_string(result.page).as_str());
    push_str(&mut out, "/");
    push_str(&mut out, usize_to_string(result.total_pages).as_str());
    push_str(&mut out, " (");
    push_str(&mut out, usize_to_string(result.total_results).as_str());
    push_str(&mut out, " results)\n");
    out
}

} // verus!
