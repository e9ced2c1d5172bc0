//! The decisions of the synthesis agent's dry run: what its read-only tools
//! answer from the tree state, how a submitted plan is checked, and what the
//! run's outcome becomes.
//!
//! The model calls, the tool loop and the file reads are the caller's part;
//! it hands in what each gave.
use vstd::prelude::*;

use super::{synthesis_error_message, SynthesisError, SynthesisMode};
use crate::agent::{char_len, char_len_exec, fit_count, utf8_len};
use crate::compile::Usage;
use crate::search::leaves::first_occurrence;
use crate::show::first_at;
use crate::text::{cat, cat3, chars_of, occurs_at, owned, push_str, slice_chars, starts_with, starts_with_str, str_eq, string_of, strs};
use crate::tree::{BranchView, LeafView, TreeState, branches_view, leaves_view};

verus! {

/// Items a listing shows when no limit is given, and at most.
pub const DEFAULT_PAGE: usize = 20;

pub const MAX_PAGE: usize = 50;

/// Body bytes a read shows when no limit is given, and at most.
pub const DEFAULT_BODY_BYTES: usize = 4096;

pub const MAX_BODY_BYTES: usize = 8192;

/// Matches a corpus search shows when no limit is given, and at most.
pub const DEFAULT_SEARCH_LIMIT: usize = 5;

pub const MAX_SEARCH_LIMIT: usize = 10;

// ── small rules ──────────────────────────────────────────────────────────────

/// A page: from the offset, the limit given (or the default), at most `max`.
pub fn page_bounds(offset: usize, limit: Option<usize>, max: usize, default: usize) -> (r: (usize, usize))
    ensures
        r.0 == offset,
        r.1 == match limit {
            Some(l) => if l < max {
                l
            } else {
                max
            },
            None => if default < max {
                default
            } else {
                max
            },
        },
{
    let l = match limit {
        Some(l) => l,
        None => default,
    };
    (offset, if l < max { l } else { max })
}

/// A branch identifier `branch/<slug>` without its prefix, when the slug is
/// not empty.
pub open spec fn branch_prefix_stripped(id: Seq<char>) -> Option<Seq<char>> {
    if starts_with(id, "branch/"@) && id.len() > 7 {
        Some(id.skip(7))
    } else {
        None
    }
}

pub fn strip_branch_prefix(identifier: &str) -> (r: Option<String>)
    ensures
        match branch_prefix_stripped(identifier@) {
            Some(s) => r matches Some(x) && x@ == s,
            None => r is None,
        },
{
    proof {
        reveal_strlit("branch/");
    }
    if starts_with_str(identifier, "branch/") {
        let v = chars_of(identifier);
        if v.len() > 7 {
            let rest = slice_chars(&v, 7, v.len());
            assert(rest@ =~= identifier@.skip(7));
            return Some(string_of(&rest));
        }
    }
    None
}

/// DeepSeek's flash models run the loop without thinking; other models and
/// providers keep their default.
pub open spec fn reasoning_disabled(model: Seq<char>, provider: Seq<char>) -> bool {
    provider == "deepseek"@ && crate::text::contains(model, "flash"@)
}

pub fn agent_reasoning_disabled(model: &str, provider: &str) -> (r: bool)
    ensures
        r == reasoning_disabled(model@, provider@),
{
    if str_eq(provider, "deepseek") {
        return crate::text::contains_str(model, "flash");
    }
    false
}

pub open spec fn agent_user_text(leaves: nat, branches: nat, mode: SynthesisMode) -> Seq<char> {
    "Tree has "@ + crate::text::decimal(leaves) + " leaves and "@ + crate::text::decimal(branches)
        + " existing branch(es). Run mode: "@ + (match mode {
        SynthesisMode::Full => "full (rebuild the whole branch graph)"@,
        SynthesisMode::Incremental => "incremental (fit new leaves into existing branches)"@,
    }) + ".\n\nInspect the leaves and submit a compile plan with submit_compile."@ + (match mode {
        SynthesisMode::Incremental =>
            " In incremental mode, updated_branches must preserve all existing leaves and add at least one new leaf; new_branches must include a newly processed leaf."@,
        SynthesisMode::Full => seq![],
    })
}

/// The run's opening request: the tree's size and the run mode.
pub fn build_agent_user_message(state: &TreeState, run_mode: SynthesisMode) -> (r: String)
    ensures
        r@ == agent_user_text(state.leaves@.len(), state.branches@.len(), run_mode),
{
    let mut msg = cat3("Tree has ", crate::text::usize_to_string(state.leaves.len()).as_str(), " leaves and ");
    push_str(&mut msg, crate::text::usize_to_string(state.branches.len()).as_str());
    push_str(&mut msg, " existing branch(es). Run mode: ");
    match run_mode {
        SynthesisMode::Full => push_str(&mut msg, "full (rebuild the whole branch graph)"),
        SynthesisMode::Incremental => push_str(&mut msg, "incremental (fit new leaves into existing branches)"),
    }
    push_str(&mut msg, ".\n\nInspect the leaves and submit a compile plan with submit_compile.");
    match run_mode {
        SynthesisMode::Incremental => push_str(
            &mut msg,
            " In incremental mode, updated_branches must preserve all existing leaves and add at least one new leaf; new_branches must include a newly processed leaf.",
        ),
        SynthesisMode::Full => {
            proof {
                reveal_strlit("");
            }
        },
    }
    proof {
        reveal_strlit("");
    }
    msg
}

// ── listings ─────────────────────────────────────────────────────────────────

/// One row of `list_leaves`: slug, title (or nothing) and file.
#[derive(Debug, Clone)]
pub struct LeafRow {
    pub slug: String,
    pub title: String,
    pub file: String,
}

/// One row of `list_branches`: `branch/<slug>`, title and leaf count.
#[derive(Debug, Clone)]
pub struct BranchRow {
    pub slug: String,
    pub title: String,
    pub leaf_count: usize,
}

/// A page of a listing, the total and the offset asked for.
#[derive(Debug, Clone)]
pub struct Listing<T> {
    pub rows: Vec<T>,
    pub total: usize,
    pub offset: usize,
}

/// The items from `offset`, at most `count` of them.
pub open spec fn page_of<T>(s: Seq<T>, offset: nat, count: nat) -> Seq<T> {
    if offset >= s.len() {
        seq![]
    } else if offset + count >= s.len() {
        s.skip(offset as int)
    } else {
        s.subrange(offset as int, (offset + count) as int)
    }
}

pub open spec fn leaf_row(l: LeafView) -> (Seq<char>, Seq<char>, Seq<char>) {
    (
        l.slug,
        match l.title {
            Some(t) => t,
            None => seq![],
        },
        l.file,
    )
}

pub open spec fn branch_row(b: BranchView) -> (Seq<char>, Seq<char>, nat) {
    ("branch/"@ + b.slug, b.title, b.leaves.len())
}

/// The range a page covers among `n` items.
fn page_range(n: usize, offset: usize, count: usize) -> (r: (usize, usize))
    ensures
        r.0 <= r.1 <= n,
        offset >= n ==> r.0 == r.1,
        offset < n && offset + count >= n ==> r.0 == offset && r.1 == n,
        offset < n && offset + count < n ==> r.0 == offset && r.1 == offset + count,
{
    if offset >= n {
        (n, n)
    } else if count >= n - offset {
        (offset, n)
    } else {
        (offset, offset + count)
    }
}

/// What `list_leaves` answers: a page of the state's leaves.
pub fn list_leaves(state: &TreeState, offset: usize, limit: Option<usize>) -> (r: Listing<LeafRow>)
    ensures
        r.total == state.leaves@.len(),
        r.offset == offset,
        r.rows@.map_values(|x: LeafRow| (x.slug@, x.title@, x.file@)) == page_of(
            leaves_view(state.leaves@),
            offset as nat,
            page_bounds_spec(limit, MAX_PAGE, DEFAULT_PAGE) as nat,
        ).map_values(|l: LeafView| leaf_row(l)),
{
    let (offset, count) = page_bounds(offset, limit, MAX_PAGE, DEFAULT_PAGE);
    let ghost lv = leaves_view(state.leaves@);
    let (from, to) = page_range(state.leaves.len(), offset, count);
    let mut rows: Vec<LeafRow> = Vec::new();
    let mut i: usize = from;
    while i < to
        invariant
            from <= i <= to <= state.leaves.len(),
            lv == leaves_view(state.leaves@),
            rows@.map_values(|x: LeafRow| (x.slug@, x.title@, x.file@)) == lv.subrange(from as int, i as int).map_values(
                |l: LeafView| leaf_row(l),
            ),
        decreases to - i,
    {
        let l = &state.leaves[i];
        let title = match &l.title {
            Some(t) => t.clone(),
            None => String::new(),
        };
        let row = LeafRow { slug: l.slug.clone(), title, file: l.file.clone() };
        let ghost before = rows@;
        rows.push(row);
        proof {
            reveal_strlit("");
            assert(rows@.map_values(|x: LeafRow| (x.slug@, x.title@, x.file@)) =~= before.map_values(
                |x: LeafRow| (x.slug@, x.title@, x.file@),
            ).push(leaf_row(lv[i as int])));
            assert(lv.subrange(from as int, i + 1) =~= lv.subrange(from as int, i as int).push(lv[i as int]));
        }
        i += 1;
    }
    proof {
        if offset >= state.leaves.len() {
            assert(lv.subrange(from as int, to as int) =~= seq![]);
        } else if offset + count >= state.leaves.len() {
            assert(lv.subrange(from as int, to as int) =~= lv.skip(offset as int));
        }
    }
    Listing { rows, total: state.leaves.len(), offset }
}

pub open spec fn page_bounds_spec(limit: Option<usize>, max: usize, default: usize) -> usize {
    match limit {
        Some(l) => if l < max {
            l
        } else {
            max
        },
        None => if default < max {
            default
        } else {
            max
        },
    }
}

/// What `list_branches` answers: a page of the state's branches.
pub fn list_branches(state: &TreeState, offset: usize, limit: Option<usize>) -> (r: Listing<BranchRow>)
    ensures
        r.total == state.branches@.len(),
        r.offset == offset,
        r.rows@.map_values(|x: BranchRow| (x.slug@, x.title@, x.leaf_count as nat)) == page_of(
            branches_view(state.branches@),
            offset as nat,
            page_bounds_spec(limit, MAX_PAGE, DEFAULT_PAGE) as nat,
        ).map_values(|b: BranchView| branch_row(b)),
{
    let (offset, count) = page_bounds(offset, limit, MAX_PAGE, DEFAULT_PAGE);
    let ghost bv = branches_view(state.branches@);
    let (from, to) = page_range(state.branches.len(), offset, count);
    let mut rows: Vec<BranchRow> = Vec::new();
    let mut i: usize = from;
    while i < to
        invariant
            from <= i <= to <= state.branches.len(),
            bv == branches_view(state.branches@),
            rows@.map_values(|x: BranchRow| (x.slug@, x.title@, x.leaf_count as nat)) == bv.subrange(
                from as int,
                i as int,
            ).map_values(|b: BranchView| branch_row(b)),
        decreases to - i,
    {
        let b = &state.branches[i];
        let row = BranchRow { slug: cat("branch/", b.slug.as_str()), title: b.title.clone(), leaf_count: b.leaves.len() };
        let ghost before = rows@;
        rows.push(row);
        proof {
            assert(rows@.map_values(|x: BranchRow| (x.slug@, x.title@, x.leaf_count as nat)) =~= before.map_values(
                |x: BranchRow| (x.slug@, x.title@, x.leaf_count as nat),
            ).push(branch_row(bv[i as int])));
            assert(bv.subrange(from as int, i + 1) =~= bv.subrange(from as int, i as int).push(bv[i as int]));
        }
        i += 1;
    }
    proof {
        if offset >= state.branches.len() {
            assert(bv.subrange(from as int, to as int) =~= seq![]);
        } else if offset + count >= state.branches.len() {
            assert(bv.subrange(from as int, to as int) =~= bv.skip(offset as int));
        }
    }
    Listing { rows, total: state.branches.len(), offset }
}

// ── reads ────────────────────────────────────────────────────────────────────

/// The first leaf whose slug or file is the identifier.
pub open spec fn leaf_named(ls: Seq<LeafView>, id: Seq<char>) -> Option<int>
    decreases ls.len(),
{
    if ls.len() == 0 {
        None
    } else {
        match leaf_named(ls.drop_last(), id) {
            Some(i) => Some(i),
            None => if ls.last().slug == id || ls.last().file == id {
                Some(ls.len() - 1)
            } else {
                None
            },
        }
    }
}

/// The first leaf whose file is the identifier followed by `.md`.
pub open spec fn leaf_with_stem(ls: Seq<LeafView>, id: Seq<char>) -> Option<int>
    decreases ls.len(),
{
    if ls.len() == 0 {
        None
    } else {
        match leaf_with_stem(ls.drop_last(), id) {
            Some(i) => Some(i),
            None => if ls.last().file == id + ".md"@ {
                Some(ls.len() - 1)
            } else {
                None
            },
        }
    }
}

/// The first branch with the slug.
pub open spec fn branch_named(bs: Seq<BranchView>, slug: Seq<char>) -> Option<int>
    decreases bs.len(),
{
    if bs.len() == 0 {
        None
    } else {
        match branch_named(bs.drop_last(), slug) {
            Some(i) => Some(i),
            None => if bs.last().slug == slug {
                Some(bs.len() - 1)
            } else {
                None
            },
        }
    }
}

/// Which leaf `read_leaf` reads: by slug or file, else by file stem; an
/// identifier that names a branch (with or without `branch/`) is pointed
/// to `read_branch`.
pub open spec fn leaf_lookup(ls: Seq<LeafView>, bs: Seq<BranchView>, id: Seq<char>) -> Result<int, Seq<char>> {
    match leaf_named(ls, id) {
        Some(i) => Ok(i),
        None => match leaf_with_stem(ls, id) {
            Some(i) => Ok(i),
            None => {
                let bare = match branch_prefix_stripped(id) {
                    Some(s) => s,
                    None => id,
                };
                if branch_named(bs, bare) is Some {
                    Err(id + " is a branch; use read_branch"@)
                } else {
                    Err("unknown leaf: "@ + id)
                }
            },
        },
    }
}

proof fn lemma_leaf_named_prefix(ls: Seq<LeafView>, id: Seq<char>, k: int)
    requires
        0 <= k <= ls.len(),
        leaf_named(ls.take(k), id) is Some,
    ensures
        leaf_named(ls, id) == leaf_named(ls.take(k), id),
    decreases ls.len() - k,
{
    if k == ls.len() {
        assert(ls.take(k) =~= ls);
    } else {
        assert(ls.drop_last().take(k) =~= ls.take(k));
        lemma_leaf_named_prefix(ls.drop_last(), id, k);
    }
}

proof fn lemma_leaf_with_stem_prefix(ls: Seq<LeafView>, id: Seq<char>, k: int)
    requires
        0 <= k <= ls.len(),
        leaf_with_stem(ls.take(k), id) is Some,
    ensures
        leaf_with_stem(ls, id) == leaf_with_stem(ls.take(k), id),
    decreases ls.len() - k,
{
    if k == ls.len() {
        assert(ls.take(k) =~= ls);
    } else {
        assert(ls.drop_last().take(k) =~= ls.take(k));
        lemma_leaf_with_stem_prefix(ls.drop_last(), id, k);
    }
}

proof fn lemma_branch_named_prefix(bs: Seq<BranchView>, slug: Seq<char>, k: int)
    requires
        0 <= k <= bs.len(),
        branch_named(bs.take(k), slug) is Some,
    ensures
        branch_named(bs, slug) == branch_named(bs.take(k), slug),
    decreases bs.len() - k,
{
    if k == bs.len() {
        assert(bs.take(k) =~= bs);
    } else {
        assert(bs.drop_last().take(k) =~= bs.take(k));
        lemma_branch_named_prefix(bs.drop_last(), slug, k);
    }
}

fn find_leaf_named(state: &TreeState, id: &str) -> (r: Option<usize>)
    ensures
        match leaf_named(leaves_view(state.leaves@), id@) {
            Some(i) => r == Some(i as usize) && 0 <= i < state.leaves.len(),
            None => r is None,
        },
{
    let ghost lv = leaves_view(state.leaves@);
    let mut i: usize = 0;
    while i < state.leaves.len()
        invariant
            i <= state.leaves.len(),
            lv == leaves_view(state.leaves@),
            leaf_named(lv.take(i as int), id@) is None,
        decreases state.leaves.len() - i,
    {
        assert(lv.take(i + 1).drop_last() =~= lv.take(i as int));
        assert(lv.take(i + 1).last() == state.leaves@[i as int]@);
        if str_eq(state.leaves[i].slug.as_str(), id) || str_eq(state.leaves[i].file.as_str(), id) {
            proof {
                lemma_leaf_named_prefix(lv, id@, i + 1);
            }
            return Some(i);
        }
        i += 1;
    }
    assert(lv.take(state.leaves.len() as int) =~= lv);
    None
}

fn find_leaf_with_stem(state: &TreeState, id: &str) -> (r: Option<usize>)
    ensures
        match leaf_with_stem(leaves_view(state.leaves@), id@) {
            Some(i) => r == Some(i as usize) && 0 <= i < state.leaves.len(),
            None => r is None,
        },
{
    let ghost lv = leaves_view(state.leaves@);
    let with_md = cat(id, ".md");
    let mut i: usize = 0;
    while i < state.leaves.len()
        invariant
            i <= state.leaves.len(),
            lv == leaves_view(state.leaves@),
            with_md@ == id@ + ".md"@,
            leaf_with_stem(lv.take(i as int), id@) is None,
        decreases state.leaves.len() - i,
    {
        assert(lv.take(i + 1).drop_last() =~= lv.take(i as int));
        assert(lv.take(i + 1).last() == state.leaves@[i as int]@);
        if str_eq(state.leaves[i].file.as_str(), with_md.as_str()) {
            proof {
                lemma_leaf_with_stem_prefix(lv, id@, i + 1);
            }
            return Some(i);
        }
        i += 1;
    }
    assert(lv.take(state.leaves.len() as int) =~= lv);
    None
}

fn find_branch_named(state: &TreeState, slug: &str) -> (r: Option<usize>)
    ensures
        match branch_named(branches_view(state.branches@), slug@) {
            Some(i) => r == Some(i as usize) && 0 <= i < state.branches.len(),
            None => r is None,
        },
{
    let ghost bv = branches_view(state.branches@);
    let mut i: usize = 0;
    while i < state.branches.len()
        invariant
            i <= state.branches.len(),
            bv == branches_view(state.branches@),
            branch_named(bv.take(i as int), slug@) is None,
        decreases state.branches.len() - i,
    {
        assert(bv.take(i + 1).drop_last() =~= bv.take(i as int));
        assert(bv.take(i + 1).last() == state.branches@[i as int]@);
        if str_eq(state.branches[i].slug.as_str(), slug) {
            proof {
                lemma_branch_named_prefix(bv, slug@, i + 1);
            }
            return Some(i);
        }
        i += 1;
    }
    assert(bv.take(state.branches.len() as int) =~= bv);
    None
}

/// The position of the leaf `read_leaf` reads, or the tool's error.
pub fn find_leaf_to_read(state: &TreeState, id: &str) -> (r: Result<usize, String>)
    ensures
        match leaf_lookup(leaves_view(state.leaves@), branches_view(state.branches@), id@) {
            Ok(i) => r == Ok::<usize, String>(i as usize),
            Err(m) => r matches Err(e) && e@ == m,
        },
        r matches Ok(i) ==> i < state.leaves.len(),
{
    if let Some(i) = find_leaf_named(state, id) {
        return Ok(i);
    }
    if let Some(i) = find_leaf_with_stem(state, id) {
        return Ok(i);
    }
    let bare = match strip_branch_prefix(id) {
        Some(s) => s,
        None => owned(id),
    };
    if find_branch_named(state, bare.as_str()).is_some() {
        Err(cat(id, " is a branch; use read_branch"))
    } else {
        Err(cat("unknown leaf: ", id))
    }
}

/// The position of the branch `read_branch` reads, with or without the
/// `branch/` prefix, or the tool's error.
pub fn find_branch_to_read(state: &TreeState, id: &str) -> (r: Result<usize, String>)
    ensures
        match branch_named(
            branches_view(state.branches@),
            match branch_prefix_stripped(id@) {
                Some(s) => s,
                None => id@,
            },
        ) {
            Some(i) => r == Ok::<usize, String>(i as usize),
            None => r matches Err(e) && e@ == "unknown branch: "@ + id@,
        },
        r matches Ok(i) ==> i < state.branches.len(),
{
    let bare = match strip_branch_prefix(id) {
        Some(s) => s,
        None => owned(id),
    };
    match find_branch_named(state, bare.as_str()) {
        Some(i) => Ok(i),
        None => Err(cat("unknown branch: ", id)),
    }
}

/// The error when a read file could not be read or its frontmatter did not
/// parse; `what` is `leaf` or `branch`.
pub fn read_failure(what: &str, file: &str, malformed: bool, reason: &str) -> (r: String)
    ensures
        r@ == what@ + " '"@ + file@ + (if malformed {
            "' has malformed frontmatter: "@
        } else {
            "' is unreadable: "@
        }) + reason@,
{
    let mut m = cat3(what, " '", file);
    push_str(&mut m, if malformed { "' has malformed frontmatter: " } else { "' is unreadable: " });
    push_str(&mut m, reason);
    m
}

/// A page of a body: its text, the byte offset it starts at, the body's
/// size in bytes, and whether the body goes on after it.
#[derive(Debug, Clone)]
pub struct BodyPage {
    pub body: String,
    pub offset: usize,
    pub total_bytes: usize,
    pub truncated: bool,
}

pub open spec fn min_nat(a: nat, b: nat) -> nat {
    if a < b {
        a
    } else {
        b
    }
}

/// The page from byte `offset`, `limit` bytes long, both moved back to a
/// character boundary and kept within the body.
pub open spec fn body_page_spec(body: Seq<char>, offset: nat, limit: nat) -> (Seq<char>, nat, nat, bool) {
    let len = utf8_len(body);
    let ka = fit_count(body, min_nat(offset, len));
    let kb = fit_count(body, min_nat(crate::agent::saturated(offset + limit), len));
    (body.subrange(ka as int, kb as int), utf8_len(body.take(ka as int)), len, utf8_len(body.take(kb as int)) < len)
}

proof fn lemma_fit_count_mono(s: Seq<char>, a: nat, b: nat)
    requires
        a <= b,
    ensures
        fit_count(s, a) <= fit_count(s, b),
        fit_count(s, b) <= s.len(),
    decreases s.len(),
{
    if s.len() > 0 && char_len(s[0]) <= a {
        lemma_fit_count_mono(s.drop_first(), (a - char_len(s[0])) as nat, (b - char_len(s[0])) as nat);
    } else if s.len() > 0 && char_len(s[0]) <= b {
        lemma_fit_count_mono(s.drop_first(), 0, (b - char_len(s[0])) as nat);
    }
}

/// The characters that fit in `limit` bytes, and their bytes.
fn fit(v: &[char], limit: usize) -> (r: (usize, usize))
    ensures
        r.0 == fit_count(v@, limit as nat),
        r.1 == utf8_len(v@.take(r.0 as int)),
{
    let mut i: usize = 0;
    let mut used: usize = 0;
    proof {
        assert(v@.skip(0) =~= v@);
        assert(v@.take(0) =~= seq![]);
    }
    while i < v.len() && char_len_exec(v[i]) <= limit - used
        invariant
            i <= v.len(),
            used <= limit,
            used == utf8_len(v@.take(i as int)),
            fit_count(v@, limit as nat) == i + fit_count(v@.skip(i as int), (limit - used) as nat),
        decreases v.len() - i,
    {
        proof {
            assert(v@.skip(i as int)[0] == v@[i as int]);
            assert(v@.skip(i as int).drop_first() =~= v@.skip(i + 1));
            assert(v@.take(i + 1).drop_last() =~= v@.take(i as int));
        }
        used = used + char_len_exec(v[i]);
        i += 1;
    }
    proof {
        if i < v.len() {
            assert(v@.skip(i as int)[0] == v@[i as int]);
        }
        assert(fit_count(v@.skip(i as int), (limit - used) as nat) == 0);
    }
    (i, used)
}

/// What `read_leaf` and `read_branch` show of a body.
pub fn body_page(body: &str, offset: usize, limit: usize) -> (r: BodyPage)
    requires
        utf8_len(body@) <= usize::MAX,
    ensures
        (r.body@, r.offset as nat, r.total_bytes as nat, r.truncated) == body_page_spec(body@, offset as nat, limit as nat),
{
    let v = chars_of(body);
    let len = crate::agent::utf8_length(&v);
    let a = if offset < len { offset } else { len };
    let sum = if offset > usize::MAX - limit { usize::MAX } else { offset + limit };
    let b = if sum < len { sum } else { len };
    let (ka, start) = fit(&v, a);
    let (kb, end) = fit(&v, b);
    proof {
        lemma_fit_count_mono(v@, a as nat, b as nat);
    }
    let slice = slice_chars(&v, ka, kb);
    BodyPage { body: string_of(&slice), offset: start, total_bytes: len, truncated: end < len }
}

// ── corpus search ────────────────────────────────────────────────────────────

/// How many matches `search_corpus` shows.
pub fn corpus_limit(limit: Option<usize>) -> (r: usize)
    ensures
        r == page_bounds_spec(limit, MAX_SEARCH_LIMIT, DEFAULT_SEARCH_LIMIT),
{
    page_bounds(0, limit, MAX_SEARCH_LIMIT, DEFAULT_SEARCH_LIMIT).1
}

/// How a match names itself: a branch as `branch/<slug>`, a leaf by its
/// slug.
pub fn corpus_slug(is_branch: bool, slug: &str) -> (r: String)
    ensures
        r@ == if is_branch {
            "branch/"@ + slug@
        } else {
            slug@
        },
{
    if is_branch {
        cat("branch/", slug)
    } else {
        owned(slug)
    }
}

// ── the submitted plan ───────────────────────────────────────────────────────

/// The last position at or before `i` where `p` occurs in `s`.
pub open spec fn last_at(s: Seq<char>, p: Seq<char>, i: int) -> Option<int>
    decreases i + 1,
{
    if i < 0 {
        None
    } else if occurs_at(s, p, i) {
        Some(i)
    } else {
        last_at(s, p, i - 1)
    }
}

/// Whether an identifier names one of the branches, with or without
/// `branch/`.
pub open spec fn names_branch(id: Seq<char>, slugs: Seq<Seq<char>>) -> bool
    decreases slugs.len(),
{
    if slugs.len() == 0 {
        false
    } else {
        names_branch(id, slugs.drop_last()) || id == slugs.last() || branch_prefix_stripped(id) == Some(slugs.last())
    }
}

pub open spec fn unknown_leaf_marker() -> Seq<char> {
    "unknown leaf '"@
}

/// A validation message about an unknown leaf that is in fact a branch
/// gets a note saying so; the last such mention is the one read.
pub open spec fn annotated(message: Seq<char>, slugs: Seq<Seq<char>>) -> Seq<char> {
    match last_at(message, unknown_leaf_marker(), message.len() as int) {
        None => message,
        Some(start) => {
            let rest = message.skip(start + 14);
            match first_at(rest, "'"@, 0) {
                None => message,
                Some(end) => {
                    let id = rest.take(end);
                    if names_branch(id, slugs) {
                        message + ": "@ + id
                            + " is a branch slug, not a leaf; leaf lists may only contain leaf slugs (see list_leaves)"@
                    } else {
                        message
                    }
                },
            }
        },
    }
}

proof fn lemma_last_at(s: Seq<char>, p: Seq<char>, i: int)
    ensures
        last_at(s, p, i) matches Some(k) ==> occurs_at(s, p, k) && k <= i,
    decreases i + 1,
{
    if i >= 0 && !occurs_at(s, p, i) {
        lemma_last_at(s, p, i - 1);
    }
}

fn last_occurrence(s: &[char], p: &[char]) -> (r: Option<usize>)
    ensures
        r is None <==> last_at(s@, p@, s@.len() as int) is None,
        r matches Some(k) ==> last_at(s@, p@, s@.len() as int) == Some(k as int),
{
    let mut i: usize = s.len();
    loop
        invariant
            i <= s.len(),
            last_at(s@, p@, s@.len() as int) == last_at(s@, p@, i as int),
        decreases i,
    {
        if crate::text::occurs_at_exec(s, p, i) {
            return Some(i);
        }
        if i == 0 {
            return None;
        }
        i -= 1;
    }
}

fn names_branch_exec(id: &str, slugs: &Vec<String>) -> (r: bool)
    ensures
        r == names_branch(id@, strs(slugs@)),
{
    let ghost sv = strs(slugs@);
    let stripped = strip_branch_prefix(id);
    let mut i: usize = 0;
    while i < slugs.len()
        invariant
            i <= slugs.len(),
            sv == strs(slugs@),
            !names_branch(id@, sv.take(i as int)),
            match branch_prefix_stripped(id@) {
                Some(s) => stripped matches Some(x) && x@ == s,
                None => stripped is None,
            },
        decreases slugs.len() - i,
    {
        assert(sv.take(i + 1).drop_last() =~= sv.take(i as int));
        assert(sv.take(i + 1).last() == slugs@[i as int]@);
        let hit = str_eq(id, slugs[i].as_str()) || match &stripped {
            Some(x) => str_eq(x.as_str(), slugs[i].as_str()),
            None => false,
        };
        if hit {
            proof {
                lemma_names_branch_prefix(id@, sv, i + 1);
            }
            return true;
        }
        i += 1;
    }
    assert(sv.take(slugs.len() as int) =~= sv);
    false
}

proof fn lemma_names_branch_prefix(id: Seq<char>, slugs: Seq<Seq<char>>, k: int)
    requires
        0 <= k <= slugs.len(),
        names_branch(id, slugs.take(k)),
    ensures
        names_branch(id, slugs),
    decreases slugs.len() - k,
{
    if k == slugs.len() {
        assert(slugs.take(k) =~= slugs);
    } else {
        assert(slugs.drop_last().take(k) =~= slugs.take(k));
        lemma_names_branch_prefix(id, slugs.drop_last(), k);
    }
}

/// Adds the branch note to a validation message, when it names a branch
/// as an unknown leaf.
pub fn annotate_unknown_leaf_error(message: &str, branch_slugs: &Vec<String>) -> (r: String)
    ensures
        r@ == annotated(message@, strs(branch_slugs@)),
{
    proof {
        reveal_strlit("unknown leaf '");
        reveal_strlit("'");
    }
    let v = chars_of(message);
    let marker = chars_of("unknown leaf '");
    let start = match last_occurrence(&v, &marker) {
        None => {
            return owned(message);
        },
        Some(s) => s,
    };
    assert(marker@.len() == 14);
    proof {
        lemma_last_at(v@, marker@, v@.len() as int);
        assert(occurs_at(v@, marker@, start as int));
    }
    assert(start + 14 <= v.len());
    let rest = slice_chars(&v, start + 14, v.len());
    assert(rest@ =~= message@.skip(start + 14));
    let quote = chars_of("'");
    let end = match first_occurrence(&rest, &quote) {
        None => {
            return owned(message);
        },
        Some(e) => e,
    };
    let id_chars = slice_chars(&rest, 0, end);
    assert(id_chars@ =~= rest@.take(end as int));
    let id = string_of(&id_chars);
    if names_branch_exec(id.as_str(), branch_slugs) {
        let mut out = cat3(message, ": ", id.as_str());
        push_str(
            &mut out,
            " is a branch slug, not a leaf; leaf lists may only contain leaf slugs (see list_leaves)",
        );
        out
    } else {
        owned(message)
    }
}

/// What `submit_compile` answers: the plan is taken and the run ends; a
/// validation failure goes back to the model, annotated; any other failure
/// too, as a failed submission.
pub fn submission_reply<P>(
    checked: Result<(P, Vec<String>), SynthesisError>,
    branch_slugs: &Vec<String>,
) -> (r: Result<((P, Vec<String>), String), String>)
    ensures
        match checked {
            Ok(x) => r matches Ok((y, m)) && y == x && m@ == "compile plan submitted and validated"@,
            Err(SynthesisError::Validation(m)) => r matches Err(e) && e@ == annotated(m@, strs(branch_slugs@)),
            Err(other) => r matches Err(e) && e@ == "compile submission failed: "@ + synthesis_error_message(other),
        },
{
    match checked {
        Ok(x) => Ok((x, owned("compile plan submitted and validated"))),
        Err(SynthesisError::Validation(m)) => Err(annotate_unknown_leaf_error(m.as_str(), branch_slugs)),
        Err(other) => Err(cat("compile submission failed: ", other.message().as_str())),
    }
}

// ── the run's outcome ────────────────────────────────────────────────────────

/// How the agent loop ended.
#[derive(Debug)]
pub enum AgentOutcome {
    Completed,
    Incomplete { reason: String },
    LimitExceeded { reason: String },
    Truncated,
    ContextOverflow,
    ProviderError { message: String },
}

/// What the loop spent and last saw.
#[derive(Debug)]
pub struct AgentDiagnostics {
    pub turns: usize,
    pub tool_calls: usize,
    pub usage: Option<Usage>,
    pub last_error: Option<String>,
    pub signals_sent: usize,
}

/// The telemetry a successful run reports.
#[derive(Debug)]
pub struct AgentRunStats {
    pub turns: usize,
    pub tool_calls: usize,
    pub usage: Option<Usage>,
}

/// Why a run that ended this way produced no plan.
pub open spec fn failure_text(o: AgentOutcome) -> Seq<char> {
    match o {
        AgentOutcome::Completed => "agent reported completion but no plan was submitted"@,
        AgentOutcome::Incomplete { reason } => "agent did not submit a compile plan: "@ + reason@,
        AgentOutcome::LimitExceeded { reason } => "agent hit a resource limit: "@ + reason@,
        AgentOutcome::Truncated => "agent response was truncated; no tool calls executed"@,
        AgentOutcome::ContextOverflow => "agent transcript exceeded the context ceiling"@,
        AgentOutcome::ProviderError { message } => "agent provider error: "@ + message@,
    }
}

/// The run's result: the submitted plan with the run's telemetry and the
/// validation warnings when the loop completed with a plan; otherwise an
/// agent failure carrying the diagnostics.
pub fn dry_run_agent_result<P>(
    outcome: AgentOutcome,
    diag: AgentDiagnostics,
    submitted: Option<(P, Vec<String>)>,
) -> (r: Result<(P, AgentRunStats, Vec<String>), SynthesisError>)
    ensures
        (outcome is Completed && submitted is Some) ==> (r matches Ok((p, stats, w)) && p == submitted->Some_0.0
            && w == submitted->Some_0.1 && stats.turns == diag.turns && stats.tool_calls == diag.tool_calls
            && stats.usage == diag.usage),
        !(outcome is Completed && submitted is Some) ==> (r matches Err(
            SynthesisError::AgentFailed { message, turns, tool_calls, usage, last_error, signals_sent },
        ) && message@ == failure_text(outcome) && turns == diag.turns && tool_calls == diag.tool_calls
            && usage == diag.usage && last_error == diag.last_error && signals_sent == diag.signals_sent),
{
    let message = match &outcome {
        AgentOutcome::Completed => {
            match submitted {
                Some((plan, warnings)) => {
                    return Ok(
                        (
                            plan,
                            AgentRunStats { turns: diag.turns, tool_calls: diag.tool_calls, usage: diag.usage },
                            warnings,
                        ),
                    );
                },
                None => owned("agent reported completion but no plan was submitted"),
            }
        },
        AgentOutcome::Incomplete { reason } => cat("agent did not submit a compile plan: ", reason.as_str()),
        AgentOutcome::LimitExceeded { reason } => cat("agent hit a resource limit: ", reason.as_str()),
        AgentOutcome::Truncated => owned("agent response was truncated; no tool calls executed"),
        AgentOutcome::ContextOverflow => owned("agent transcript exceeded the context ceiling"),
        AgentOutcome::ProviderError { message } => cat("agent provider error: ", message.as_str()),
    };
    Err(
        SynthesisError::AgentFailed {
            message,
            turns: diag.turns,
            tool_calls: diag.tool_calls,
            usage: diag.usage,
            last_error: diag.last_error,
            signals_sent: diag.signals_sent,
        },
    )
}

} // verus!
