//! `bo list`: the tree's leaves and branches, as a branch-centric outline
//! or as flat lists, filtered by terms, branch and limit.
//!
//! Checking where a leaf's file lives is the caller's part: it hands in
//! whether the resolved path leaves the tree and whether the file exists.
use vstd::prelude::*;

use crate::collect::input::{file_name_of, file_stem_of, path_file_name, path_file_stem};
use crate::compile::delta::branch_with_slug;
use crate::raze::{is_suspicious_relative_path, suspicious_relative_path};
use crate::text::{
    cat, cat3, contains, contains_str, decimal, join, join_strings, lowercase, owned, push_str, push_string,
    str_eq, strings_contain, strs, to_lowercase, trim, is_blank_str, usize_to_string,
};
use crate::tree::{branches_view, rfc3339_text, Branch, BranchView, Leaf, TreeState};
use crate::youtube::url::opt_view;

verus! {

/// Which view `bo list` shows.
#[derive(Debug, Clone, Copy, PartialEq, Eq)]
pub enum ListViewMode {
    /// Each branch with its leaves, then the leaves no branch cites.
    BranchCentric,
    /// One line per branch.
    Branches,
    /// One line per leaf.
    Leaves,
}

impl Default for ListViewMode {
    fn default() -> (r: Self)
        ensures
            r == ListViewMode::BranchCentric,
    {
        ListViewMode::BranchCentric
    }
}

#[derive(Debug, Clone)]
pub struct ListOptions {
    pub view: ListViewMode,
    /// Lowercase terms that a slug or title must all contain.
    pub terms: Vec<String>,
    pub limit: Option<usize>,
    /// Newest leaves first (leaf view only).
    pub recent: bool,
    pub branch: Option<String>,
}

/// One leaf as `bo list` shows it.
#[derive(Debug, Clone)]
pub struct ListLeafRow {
    pub slug: String,
    pub file: String,
    pub display_title: String,
    pub collected_at: Option<String>,
    /// The collection instant in milliseconds, when `collected_at` is given.
    pub collected_at_millis: Option<i64>,
    pub branches: Vec<String>,
    pub branch_count: usize,
    pub degraded: bool,
    pub degradation_reasons: Vec<String>,
    /// The leaf's position in the tree state.
    pub index_position: usize,
}

#[derive(Debug, Clone)]
pub struct BranchWithLeaves {
    pub slug: String,
    pub title: String,
    pub updated_at: Option<String>,
    pub leaves: Vec<ListLeafRow>,
}

#[derive(Debug, Clone)]
pub struct BranchRow {
    pub slug: String,
    pub title: String,
    pub leaf_count: usize,
    pub updated_at: Option<String>,
}

#[derive(Debug, Clone)]
pub enum ListView {
    BranchCentric { branches: Vec<BranchWithLeaves>, unbranched: Vec<ListLeafRow> },
    Branches { items: Vec<BranchRow> },
    Leaves { items: Vec<ListLeafRow> },
}

#[derive(Debug, Clone)]
pub struct ListResult {
    pub view: ListView,
    pub total_branches: usize,
    pub total_leaves: usize,
    pub branch_filter: Option<String>,
}

/// Why `bo list` failed, with the underlying error's text.
#[derive(Debug)]
pub enum ListError {
    Io(String),
    Json(String),
    Manifest(String),
}

impl ListError {
    pub fn code(&self) -> (r: &'static str)
        ensures
            r@ == match self {
                ListError::Io(_) => "io_error"@,
                ListError::Json(_) => "json_error"@,
                ListError::Manifest(_) => "manifest_error"@,
            },
    {
        match self {
            ListError::Io(_) => "io_error",
            ListError::Json(_) => "json_error",
            ListError::Manifest(_) => "manifest_error",
        }
    }

    /// The error's message.
    pub fn message(&self) -> (r: String)
        ensures
            r@ == match self {
                ListError::Io(e) => "I/O error: "@ + e@,
                ListError::Json(e) => "JSON error: "@ + e@,
                ListError::Manifest(e) => e@,
            },
    {
        match self {
            ListError::Io(e) => cat("I/O error: ", e.as_str()),
            ListError::Json(e) => cat("JSON error: ", e.as_str()),
            ListError::Manifest(e) => e.clone(),
        }
    }
}

// ── views ────────────────────────────────────────────────────────────────────

pub struct RowView {
    pub slug: Seq<char>,
    pub file: Seq<char>,
    pub title: Seq<char>,
    pub collected_at: Option<Seq<char>>,
    pub collected_ms: Option<i64>,
    pub branches: Seq<Seq<char>>,
    pub branch_count: int,
    pub degraded: bool,
    pub reasons: Seq<Seq<char>>,
    pub index: int,
}

impl View for ListLeafRow {
    type V = RowView;

    open spec fn view(&self) -> RowView {
        RowView {
            slug: self.slug@,
            file: self.file@,
            title: self.display_title@,
            collected_at: opt_view(self.collected_at),
            collected_ms: self.collected_at_millis,
            branches: strs(self.branches@),
            branch_count: self.branch_count as int,
            degraded: self.degraded,
            reasons: strs(self.degradation_reasons@),
            index: self.index_position as int,
        }
    }
}

pub open spec fn rows_view(v: Seq<ListLeafRow>) -> Seq<RowView> {
    v.map_values(|r: ListLeafRow| r@)
}

pub struct BranchLeavesView {
    pub slug: Seq<char>,
    pub title: Seq<char>,
    pub updated_at: Option<Seq<char>>,
    pub leaves: Seq<RowView>,
}

impl View for BranchWithLeaves {
    type V = BranchLeavesView;

    open spec fn view(&self) -> BranchLeavesView {
        BranchLeavesView {
            slug: self.slug@,
            title: self.title@,
            updated_at: opt_view(self.updated_at),
            leaves: rows_view(self.leaves@),
        }
    }
}

pub open spec fn centric_view(v: Seq<BranchWithLeaves>) -> Seq<BranchLeavesView> {
    v.map_values(|b: BranchWithLeaves| b@)
}

pub struct BranchRowView {
    pub slug: Seq<char>,
    pub title: Seq<char>,
    pub leaf_count: int,
    pub updated_at: Option<Seq<char>>,
}

impl View for BranchRow {
    type V = BranchRowView;

    open spec fn view(&self) -> BranchRowView {
        BranchRowView {
            slug: self.slug@,
            title: self.title@,
            leaf_count: self.leaf_count as int,
            updated_at: opt_view(self.updated_at),
        }
    }
}

pub open spec fn branch_rows_view(v: Seq<BranchRow>) -> Seq<BranchRowView> {
    v.map_values(|b: BranchRow| b@)
}

// ── terms ────────────────────────────────────────────────────────────────────

/// Every term occurs in the lowercase slug or the lowercase title.
pub open spec fn terms_match(slug: Seq<char>, title: Seq<char>, terms: Seq<Seq<char>>) -> bool {
    forall|i: int| 0 <= i < terms.len() ==> #[trigger] term_in(slug, title, terms[i])
}

pub open spec fn term_in(slug: Seq<char>, title: Seq<char>, term: Seq<char>) -> bool {
    contains(lowercase(slug), term) || contains(lowercase(title), term)
}

/// Whether a slug and title match all the terms, ignoring case.
pub fn terms_match_slug_title(slug: &str, title: &str, terms: &Vec<String>) -> (r: bool)
    ensures
        r == terms_match(slug@, title@, strs(terms@)),
{
    if terms.len() == 0 {
        return true;
    }
    let slug_lower = to_lowercase(slug);
    let title_lower = to_lowercase(title);
    let ghost ts = strs(terms@);
    let mut i: usize = 0;
    while i < terms.len()
        invariant
            i <= terms.len(),
            ts == strs(terms@),
            slug_lower@ == lowercase(slug@),
            title_lower@ == lowercase(title@),
            forall|k: int| 0 <= k < i ==> #[trigger] term_in(slug@, title@, ts[k]),
        decreases terms.len() - i,
    {
        let t = terms[i].as_str();
        if !(contains_str(slug_lower.as_str(), t) || contains_str(title_lower.as_str(), t)) {
            assert(!term_in(slug@, title@, ts[i as int]));
            return false;
        }
        i += 1;
    }
    true
}

pub fn terms_match_row(row: &ListLeafRow, terms: &Vec<String>) -> (r: bool)
    ensures
        r == terms_match(row.slug@, row.display_title@, strs(terms@)),
{
    terms_match_slug_title(row.slug.as_str(), row.display_title.as_str(), terms)
}

// ── rows ─────────────────────────────────────────────────────────────────────

/// A title for a leaf without one: the file's stem, else its name, else the
/// file text itself.
pub open spec fn filename_fallback_spec(file: Seq<char>) -> Seq<char> {
    match path_file_stem(file) {
        Some(stem) if stem.len() > 0 => stem,
        _ => match path_file_name(file) {
            Some(name) if name.len() > 0 => name,
            _ => file,
        },
    }
}

pub fn filename_fallback(file: &str) -> (r: String)
    ensures
        r@ == filename_fallback_spec(file@),
{
    match file_stem_of(file) {
        Some(stem) => {
            if !stem.as_str().is_empty() {
                proof {
                    assert(stem@.len() > 0);
                }
                return stem;
            }
        },
        None => {},
    }
    match file_name_of(file) {
        Some(name) => {
            if !name.as_str().is_empty() {
                return name;
            }
        },
        None => {},
    }
    owned(file)
}

/// Marks the row degraded and records the reason once.
pub fn push_degradation_reason(row: &mut ListLeafRow, reason: &str)
    ensures
        final(row)@ == (RowView {
            degraded: true,
            reasons: if old(row)@.reasons.contains(reason@) {
                old(row)@.reasons
            } else {
                old(row)@.reasons.push(reason@)
            },
            ..old(row)@
        }),
{
    if !strings_contain(&row.degradation_reasons, reason) {
        push_string(&mut row.degradation_reasons, owned(reason));
    }
    row.degraded = true;
}

/// The slugs of the branches that cite a leaf, in branch order.
pub open spec fn branches_citing(bs: Seq<BranchView>, slug: Seq<char>) -> Seq<Seq<char>>
    decreases bs.len(),
{
    if bs.len() == 0 {
        seq![]
    } else {
        let prev = branches_citing(bs.drop_last(), slug);
        if bs.last().leaves.contains(slug) {
            prev.push(bs.last().slug)
        } else {
            prev
        }
    }
}

pub fn branches_for_leaf(bs: &Vec<Branch>, slug: &str) -> (r: Vec<String>)
    ensures
        strs(r@) == branches_citing(branches_view(bs@), slug@),
{
    let ghost bv = branches_view(bs@);
    let mut out: Vec<String> = Vec::new();
    let mut i: usize = 0;
    while i < bs.len()
        invariant
            i <= bs.len(),
            bv == branches_view(bs@),
            strs(out@) == branches_citing(bv.take(i as int), slug@),
        decreases bs.len() - i,
    {
        assert(bv.take(i + 1).drop_last() =~= bv.take(i as int));
        assert(bv.take(i + 1).last() == bs@[i as int]@);
        if strings_contain(&bs[i].leaves, slug) {
            push_string(&mut out, bs[i].slug.clone());
        }
        i += 1;
    }
    assert(bv.take(bs.len() as int) =~= bv);
    out
}

/// The title a leaf is shown by: its own when it has one that is not
/// blank, else the file-name fallback.
pub open spec fn display_title_spec(title: Option<Seq<char>>, file: Seq<char>) -> Seq<char> {
    match title {
        Some(t) if trim(t).len() > 0 => t,
        _ => filename_fallback_spec(file),
    }
}

/// The collection time as shown, when it can be written and is not blank.
pub open spec fn shown_time(ms: i64) -> Option<Seq<char>> {
    match rfc3339_text(ms) {
        Some(t) if trim(t).len() > 0 => Some(t),
        _ => None,
    }
}

/// The reasons a leaf row is degraded: a path that is empty, absolute,
/// climbs out with `..` or resolves outside the tree is suspicious;
/// otherwise a file that does not exist is missing.
pub open spec fn degradation_spec(file: Seq<char>, escapes_tree: bool, exists: bool) -> Seq<Seq<char>> {
    if suspicious_relative_path(file) || escapes_tree {
        seq!["suspicious path"@]
    } else if !exists {
        seq!["missing file"@]
    } else {
        seq![]
    }
}

pub open spec fn row_spec(
    l: crate::tree::LeafView,
    ms: i64,
    bs: Seq<BranchView>,
    index: int,
    escapes_tree: bool,
    exists: bool,
) -> RowView {
    RowView {
        slug: l.slug,
        file: l.file,
        title: display_title_spec(l.title, l.file),
        collected_at: shown_time(ms),
        collected_ms: if shown_time(ms) is Some { Some(ms) } else { None },
        branches: branches_citing(bs, l.slug),
        branch_count: branches_citing(bs, l.slug).len() as int,
        degraded: degradation_spec(l.file, escapes_tree, exists).len() > 0,
        reasons: degradation_spec(l.file, escapes_tree, exists),
        index,
    }
}

/// The row of one leaf. `escapes_tree` says whether its resolved path
/// leaves the tree's directory and `exists` whether its file exists.
pub fn build_row(leaf: &Leaf, state: &TreeState, index_position: usize, escapes_tree: bool, exists: bool) -> (r: ListLeafRow)
    ensures
        r@ == row_spec(leaf@, leaf.collected_at.unix_millis, branches_view(state.branches@), index_position as int, escapes_tree, exists),
{
    let display_title = match &leaf.title {
        Some(t) => if is_blank_str(t.as_str()) {
            filename_fallback(leaf.file.as_str())
        } else {
            t.clone()
        },
        None => filename_fallback(leaf.file.as_str()),
    };
    let formatted = leaf.collected_at.to_rfc3339_millis();
    let (collected_at, collected_at_millis) = match formatted {
        Some(t) => if is_blank_str(t.as_str()) {
            (None, None)
        } else {
            (Some(t), Some(leaf.collected_at.unix_millis))
        },
        None => (None, None),
    };
    let branches = branches_for_leaf(&state.branches, leaf.slug.as_str());
    let branch_count = branches.len();
    let mut row = ListLeafRow {
        slug: leaf.slug.clone(),
        file: leaf.file.clone(),
        display_title,
        collected_at,
        collected_at_millis,
        branches,
        branch_count,
        degraded: false,
        degradation_reasons: Vec::new(),
        index_position,
    };
    assert(strs(row.degradation_reasons@) =~= seq![]);
    if is_suspicious_relative_path(leaf.file.as_str()) || escapes_tree {
        push_degradation_reason(&mut row, "suspicious path");
        return row;
    }
    if !exists {
        push_degradation_reason(&mut row, "missing file");
    }
    row
}

// ── filters and order ────────────────────────────────────────────────────────

/// A copy of a row.
pub fn clone_row(r: &ListLeafRow) -> (c: ListLeafRow)
    ensures
        c@ == r@,
{
    ListLeafRow {
        slug: r.slug.clone(),
        file: r.file.clone(),
        display_title: r.display_title.clone(),
        collected_at: crate::text::clone_opt_string(&r.collected_at),
        collected_at_millis: r.collected_at_millis,
        branches: r.branches.clone(),
        branch_count: r.branch_count,
        degraded: r.degraded,
        degradation_reasons: r.degradation_reasons.clone(),
        index_position: r.index_position,
    }
}

fn push_row(v: &mut Vec<ListLeafRow>, r: ListLeafRow)
    ensures
        rows_view(final(v)@) == rows_view(old(v)@).push(r@),
{
    let ghost before = v@;
    v.push(r);
    assert(rows_view(v@) =~= rows_view(before).push(r@));
}

/// The rows whose leaf a branch of the given slug cites.
pub open spec fn rows_in_branch(rows: Seq<RowView>, branch: Seq<char>) -> Seq<RowView>
    decreases rows.len(),
{
    if rows.len() == 0 {
        seq![]
    } else {
        let prev = rows_in_branch(rows.drop_last(), branch);
        if rows.last().branches.contains(branch) {
            prev.push(rows.last())
        } else {
            prev
        }
    }
}

/// The rows whose slug and title match the terms.
pub open spec fn rows_matching(rows: Seq<RowView>, terms: Seq<Seq<char>>) -> Seq<RowView>
    decreases rows.len(),
{
    if rows.len() == 0 {
        seq![]
    } else {
        let prev = rows_matching(rows.drop_last(), terms);
        if terms_match(rows.last().slug, rows.last().title, terms) {
            prev.push(rows.last())
        } else {
            prev
        }
    }
}

/// The degraded rows.
pub open spec fn rows_degraded(rows: Seq<RowView>) -> Seq<RowView>
    decreases rows.len(),
{
    if rows.len() == 0 {
        seq![]
    } else {
        let prev = rows_degraded(rows.drop_last());
        if rows.last().degraded {
            prev.push(rows.last())
        } else {
            prev
        }
    }
}

fn keep_rows_in_branch(rows: &Vec<ListLeafRow>, branch: &str) -> (r: Vec<ListLeafRow>)
    ensures
        rows_view(r@) == rows_in_branch(rows_view(rows@), branch@),
{
    let ghost rv = rows_view(rows@);
    let mut out: Vec<ListLeafRow> = Vec::new();
    let mut i: usize = 0;
    while i < rows.len()
        invariant
            i <= rows.len(),
            rv == rows_view(rows@),
            rows_view(out@) == rows_in_branch(rv.take(i as int), branch@),
        decreases rows.len() - i,
    {
        assert(rv.take(i + 1).drop_last() =~= rv.take(i as int));
        assert(rv.take(i + 1).last() == rows@[i as int]@);
        if strings_contain(&rows[i].branches, branch) {
            push_row(&mut out, clone_row(&rows[i]));
        }
        i += 1;
    }
    assert(rv.take(rows.len() as int) =~= rv);
    out
}

fn keep_rows_matching(rows: &Vec<ListLeafRow>, terms: &Vec<String>) -> (r: Vec<ListLeafRow>)
    ensures
        rows_view(r@) == rows_matching(rows_view(rows@), strs(terms@)),
{
    let ghost rv = rows_view(rows@);
    let mut out: Vec<ListLeafRow> = Vec::new();
    let mut i: usize = 0;
    while i < rows.len()
        invariant
            i <= rows.len(),
            rv == rows_view(rows@),
            rows_view(out@) == rows_matching(rv.take(i as int), strs(terms@)),
        decreases rows.len() - i,
    {
        assert(rv.take(i + 1).drop_last() =~= rv.take(i as int));
        assert(rv.take(i + 1).last() == rows@[i as int]@);
        if terms_match_row(&rows[i], terms) {
            push_row(&mut out, clone_row(&rows[i]));
        }
        i += 1;
    }
    assert(rv.take(rows.len() as int) =~= rv);
    out
}

fn keep_rows_degraded(rows: &Vec<ListLeafRow>) -> (r: Vec<ListLeafRow>)
    ensures
        rows_view(r@) == rows_degraded(rows_view(rows@)),
{
    let ghost rv = rows_view(rows@);
    let mut out: Vec<ListLeafRow> = Vec::new();
    let mut i: usize = 0;
    while i < rows.len()
        invariant
            i <= rows.len(),
            rv == rows_view(rows@),
            rows_view(out@) == rows_degraded(rv.take(i as int)),
        decreases rows.len() - i,
    {
        assert(rv.take(i + 1).drop_last() =~= rv.take(i as int));
        assert(rv.take(i + 1).last() == rows@[i as int]@);
        if rows[i].degraded {
            push_row(&mut out, clone_row(&rows[i]));
        }
        i += 1;
    }
    assert(rv.take(rows.len() as int) =~= rv);
    out
}

/// `a` sorts strictly before `b`: newest collection time first, rows
/// without one last, and position in the tree state between equals; or by
/// position alone.
pub open spec fn row_before(a: RowView, b: RowView, by_recent: bool) -> bool {
    if by_recent {
        match (a.collected_ms, b.collected_ms) {
            (Some(x), Some(y)) => x > y || (x == y && a.index < b.index),
            (Some(_), None) => true,
            (None, Some(_)) => false,
            (None, None) => a.index < b.index,
        }
    } else {
        a.index < b.index
    }
}

pub fn row_before_exec(a: &ListLeafRow, b: &ListLeafRow, by_recent: bool) -> (r: bool)
    ensures
        r == row_before(a@, b@, by_recent),
{
    if by_recent {
        match (a.collected_at_millis, b.collected_at_millis) {
            (Some(x), Some(y)) => x > y || (x == y && a.index_position < b.index_position),
            (Some(_), None) => true,
            (None, Some(_)) => false,
            (None, None) => a.index_position < b.index_position,
        }
    } else {
        a.index_position < b.index_position
    }
}

/// Where a stable sort puts `x` after the sorted `s`: before the first row
/// that `x` sorts strictly before.
pub open spec fn insert_pos(s: Seq<RowView>, x: RowView, by_recent: bool) -> int
    decreases s.len(),
{
    if s.len() == 0 {
        0
    } else {
        let p = insert_pos(s.drop_last(), x, by_recent);
        if p < s.len() - 1 {
            p
        } else if row_before(x, s.last(), by_recent) {
            s.len() - 1
        } else {
            s.len() as int
        }
    }
}

/// The rows in a stable sort's order.
pub open spec fn sorted_rows(s: Seq<RowView>, by_recent: bool) -> Seq<RowView>
    decreases s.len(),
{
    if s.len() == 0 {
        seq![]
    } else {
        let t = sorted_rows(s.drop_last(), by_recent);
        t.insert(insert_pos(t, s.last(), by_recent), s.last())
    }
}

proof fn lemma_insert_pos_bounds(s: Seq<RowView>, x: RowView, by_recent: bool)
    ensures
        0 <= insert_pos(s, x, by_recent) <= s.len(),
    decreases s.len(),
{
    if s.len() > 0 {
        lemma_insert_pos_bounds(s.drop_last(), x, by_recent);
    }
}

proof fn lemma_insert_pos_prefix(s: Seq<RowView>, x: RowView, by_recent: bool, k: int)
    requires
        0 <= k <= s.len(),
        insert_pos(s.take(k), x, by_recent) < k,
    ensures
        insert_pos(s, x, by_recent) == insert_pos(s.take(k), x, by_recent),
    decreases s.len() - k,
{
    if k == s.len() {
        assert(s.take(k) =~= s);
    } else {
        assert(s.drop_last().take(k) =~= s.take(k));
        lemma_insert_pos_prefix(s.drop_last(), x, by_recent, k);
    }
}

proof fn lemma_sorted_rows_len(s: Seq<RowView>, by_recent: bool)
    ensures
        sorted_rows(s, by_recent).len() == s.len(),
    decreases s.len(),
{
    if s.len() > 0 {
        lemma_sorted_rows_len(s.drop_last(), by_recent);
        lemma_insert_pos_bounds(sorted_rows(s.drop_last(), by_recent), s.last(), by_recent);
    }
}

proof fn lemma_row_before_order(a: RowView, b: RowView, c: RowView, by_recent: bool)
    ensures
        !(row_before(a, b, by_recent) && row_before(b, a, by_recent)),
        row_before(a, b, by_recent) && row_before(b, c, by_recent) ==> row_before(a, c, by_recent),
{
}

proof fn lemma_insert_pos_first(t: Seq<RowView>, x: RowView, by_recent: bool)
    ensures
        forall|i: int| 0 <= i < insert_pos(t, x, by_recent) ==> !row_before(x, #[trigger] t[i], by_recent),
        insert_pos(t, x, by_recent) < t.len() ==> row_before(x, t[insert_pos(t, x, by_recent)], by_recent),
    decreases t.len(),
{
    if t.len() > 0 {
        let d = t.drop_last();
        lemma_insert_pos_first(d, x, by_recent);
        lemma_insert_pos_bounds(d, x, by_recent);
        assert forall|i: int| 0 <= i < insert_pos(t, x, by_recent) implies !row_before(x, #[trigger] t[i], by_recent) by {
            if i < d.len() {
                assert(t[i] == d[i]);
            }
        }
        if insert_pos(d, x, by_recent) < d.len() {
            assert(t[insert_pos(d, x, by_recent)] == d[insert_pos(d, x, by_recent)]);
        }
    }
}

/// Listed rows come in order and hold each row once: no row sorts before
/// a row listed ahead of it (newest collection first and undated rows last,
/// or by position in the tree state; ties by position).
pub proof fn lemma_rows_are_ordered(s: Seq<RowView>, by_recent: bool)
    ensures
        sorted_rows(s, by_recent).to_multiset() == s.to_multiset(),
        forall|i: int, j: int|
            0 <= i < j < sorted_rows(s, by_recent).len() ==> !row_before(
                #[trigger] sorted_rows(s, by_recent)[j],
                #[trigger] sorted_rows(s, by_recent)[i],
                by_recent,
            ),
    decreases s.len(),
{
    broadcast use vstd::seq_lib::to_multiset_insert, vstd::seq_lib::to_multiset_build;

    if s.len() == 0 {
        assert(s =~= Seq::<RowView>::empty());
    } else {
        let d = s.drop_last();
        let x = s.last();
        lemma_rows_are_ordered(d, by_recent);
        let t = sorted_rows(d, by_recent);
        lemma_insert_pos_bounds(t, x, by_recent);
        lemma_insert_pos_first(t, x, by_recent);
        let p = insert_pos(t, x, by_recent);
        let u = t.insert(p, x);
        assert(u == sorted_rows(s, by_recent));
        assert(s == d.push(x));
        assert(u.to_multiset() == t.to_multiset().insert(x));
        assert forall|i: int, j: int| 0 <= i < j < u.len() implies !row_before(
            #[trigger] u[j],
            #[trigger] u[i],
            by_recent,
        ) by {
            t.insert_ensures(p, x);
            if j < p {
                assert(u[i] == t[i] && u[j] == t[j]);
            } else if j == p {
                assert(u[i] == t[i]);
            } else if i > p {
                assert(u[i] == t[i - 1] && u[j] == t[j - 1]);
            } else if i == p {
                assert(u[j] == t[j - 1]);
                if j - 1 > p {
                    lemma_row_before_order(t[j - 1], x, t[p], by_recent);
                    lemma_row_before_order(t[p], t[j - 1], x, by_recent);
                } else {
                    lemma_row_before_order(x, t[p], x, by_recent);
                }
            } else {
                assert(u[i] == t[i] && u[j] == t[j - 1]);
            }
        }
    }
}

/// The rows in stable order: newest first, or by position.
pub fn sort_rows(rows: &Vec<ListLeafRow>, by_recent: bool) -> (r: Vec<ListLeafRow>)
    ensures
        rows_view(r@) == sorted_rows(rows_view(rows@), by_recent),
{
    let ghost rv = rows_view(rows@);
    let mut out: Vec<ListLeafRow> = Vec::new();
    let mut i: usize = 0;
    while i < rows.len()
        invariant
            i <= rows.len(),
            rv == rows_view(rows@),
            rows_view(out@) == sorted_rows(rv.take(i as int), by_recent),
        decreases rows.len() - i,
    {
        assert(rv.take(i + 1).drop_last() =~= rv.take(i as int));
        assert(rv.take(i + 1).last() == rows@[i as int]@);
        let x = clone_row(&rows[i]);
        let ghost ov = rows_view(out@);
        let mut j: usize = 0;
        while j < out.len() && !row_before_exec(&x, &out[j], by_recent)
            invariant
                j <= out.len(),
                ov == rows_view(out@),
                insert_pos(ov.take(j as int), x@, by_recent) == j,
            decreases out.len() - j,
        {
            assert(ov.take(j + 1).drop_last() =~= ov.take(j as int));
            assert(ov.take(j + 1).last() == out@[j as int]@);
            j += 1;
        }
        proof {
            if j < out.len() {
                assert(ov.take(j + 1).drop_last() =~= ov.take(j as int));
                assert(ov.take(j + 1).last() == out@[j as int]@);
                lemma_insert_pos_prefix(ov, x@, by_recent, j + 1);
            } else {
                assert(ov.take(j as int) =~= ov);
            }
        }
        let ghost xv = x@;
        out.insert(j, x);
        assert(rows_view(out@) =~= ov.insert(j as int, xv));
        i += 1;
    }
    assert(rv.take(rows.len() as int) =~= rv);
    out
}

/// The first `n` items, when a limit is given.
pub open spec fn limited<T>(s: Seq<T>, limit: Option<usize>) -> Seq<T> {
    match limit {
        Some(n) => if n < s.len() {
            s.take(n as int)
        } else {
            s
        },
        None => s,
    }
}

// ── the three views ──────────────────────────────────────────────────────────

/// The leaf view: the rows cited by the chosen branch, matching the terms,
/// newest first when asked, and at most the limit.
pub open spec fn leaves_view_spec(rows: Seq<RowView>, o: ListOptions) -> Seq<RowView> {
    let b = filtered_rows(rows, o);
    let c = if o.recent { sorted_rows(b, true) } else { b };
    limited(c, o.limit)
}

/// The rows cited by the chosen branch and matching the terms, in state
/// order.
pub open spec fn filtered_rows(rows: Seq<RowView>, o: ListOptions) -> Seq<RowView> {
    let a = match o.branch {
        Some(b) => rows_in_branch(rows, b@),
        None => rows,
    };
    if o.terms@.len() > 0 { rows_matching(a, strs(o.terms@)) } else { a }
}

/// With `--recent` and a limit, the leaf view holds the newest of the
/// filtered rows: as many as the limit allows, each filtered row at most as
/// often as it was filtered, newest first, and every filtered row left out
/// sorts no earlier than any row shown.
pub proof fn lemma_recent_limit_keeps_newest(rows: Seq<RowView>, o: ListOptions, n: usize)
    requires
        o.recent,
        o.limit == Some(n),
    ensures
        ({
            let f = filtered_rows(rows, o);
            let r = leaves_view_spec(rows, o);
            &&& r.len() == (if n < f.len() { n as int } else { f.len() as int })
            &&& forall|x: RowView| r.to_multiset().count(x) <= f.to_multiset().count(x)
            &&& forall|i: int, j: int| 0 <= i < j < r.len() ==> !row_before(#[trigger] r[j], #[trigger] r[i], true)
            &&& forall|i: int, y: RowView|
                0 <= i < r.len() && #[trigger] f.to_multiset().count(y) > r.to_multiset().count(y)
                    ==> !row_before(y, #[trigger] r[i], true)
        }),
{
    let f = filtered_rows(rows, o);
    let sr = sorted_rows(f, true);
    lemma_rows_are_ordered(f, true);
    lemma_sorted_rows_len(f, true);
    let r = leaves_view_spec(rows, o);
    assert(r == limited(sr, o.limit));
    let k: int = if n < sr.len() { n as int } else { sr.len() as int };
    assert(r =~= sr.take(k));
    assert(sr =~= sr.take(k) + sr.skip(k));
    vstd::seq_lib::lemma_multiset_commutative(sr.take(k), sr.skip(k));
    assert forall|x: RowView| r.to_multiset().count(x) <= f.to_multiset().count(x) by {
        assert(sr.to_multiset().count(x) == sr.take(k).to_multiset().count(x) + sr.skip(k).to_multiset().count(x));
    }
    assert forall|i: int, j: int| 0 <= i < j < r.len() implies !row_before(#[trigger] r[j], #[trigger] r[i], true) by {
        assert(r[i] == sr[i] && r[j] == sr[j]);
    }
    assert forall|i: int, y: RowView|
        0 <= i < r.len() && #[trigger] f.to_multiset().count(y) > r.to_multiset().count(y)
            implies !row_before(y, #[trigger] r[i], true) by {
        let rest = sr.skip(k);
        assert(sr.to_multiset().count(y) == sr.take(k).to_multiset().count(y) + rest.to_multiset().count(y));
        assert(rest.to_multiset().count(y) > 0);
        rest.to_multiset_ensures();
        assert(rest.contains(y));
        let m = choose|m: int| 0 <= m < rest.len() && rest[m] == y;
        assert(sr[k + m] == y);
        assert(r[i] == sr[i]);
        assert(i < k + m);
    }
}

pub fn build_leaves_view(leaf_rows: Vec<ListLeafRow>, options: &ListOptions) -> (r: ListView)
    ensures
        r matches ListView::Leaves { items } && rows_view(items@) == leaves_view_spec(rows_view(leaf_rows@), *options),
{
    let mut rows = leaf_rows;
    match &options.branch {
        Some(b) => {
            rows = keep_rows_in_branch(&rows, b.as_str());
        },
        None => {},
    }
    if options.terms.len() > 0 {
        rows = keep_rows_matching(&rows, &options.terms);
    }
    if options.recent {
        rows = sort_rows(&rows, true);
    }
    match options.limit {
        Some(n) => {
            let ghost before = rows@;
            rows.truncate(n);
            assert(n < before.len() ==> rows_view(rows@) =~= rows_view(before).take(n as int));
        },
        None => {},
    }
    ListView::Leaves { items: rows }
}

/// The row of one branch in the branch list.
pub open spec fn branch_row_spec(b: BranchView) -> BranchRowView {
    BranchRowView {
        slug: b.slug,
        title: b.title,
        leaf_count: b.leaves.len() as int,
        updated_at: rfc3339_text(b.updated_at as i64),
    }
}

pub open spec fn branch_rows_matching(rows: Seq<BranchRowView>, terms: Seq<Seq<char>>) -> Seq<BranchRowView>
    decreases rows.len(),
{
    if rows.len() == 0 {
        seq![]
    } else {
        let prev = branch_rows_matching(rows.drop_last(), terms);
        if terms_match(rows.last().slug, rows.last().title, terms) {
            prev.push(rows.last())
        } else {
            prev
        }
    }
}

pub open spec fn branch_rows_named(rows: Seq<BranchRowView>, slug: Seq<char>) -> Seq<BranchRowView>
    decreases rows.len(),
{
    if rows.len() == 0 {
        seq![]
    } else {
        let prev = branch_rows_named(rows.drop_last(), slug);
        if rows.last().slug == slug {
            prev.push(rows.last())
        } else {
            prev
        }
    }
}

/// The branch view: one row per branch, matching the terms, of the chosen
/// slug, and at most the limit.
pub open spec fn branches_view_spec(bs: Seq<BranchView>, o: ListOptions) -> Seq<BranchRowView> {
    let rows = bs.map_values(|b: BranchView| branch_row_spec(b));
    let a = if o.terms@.len() > 0 { branch_rows_matching(rows, strs(o.terms@)) } else { rows };
    let b = match o.branch {
        Some(f) => branch_rows_named(a, f@),
        None => a,
    };
    limited(b, o.limit)
}

fn push_branch_row(v: &mut Vec<BranchRow>, r: BranchRow)
    ensures
        branch_rows_view(final(v)@) == branch_rows_view(old(v)@).push(r@),
{
    let ghost before = v@;
    v.push(r);
    assert(branch_rows_view(v@) =~= branch_rows_view(before).push(r@));
}

fn clone_branch_row(r: &BranchRow) -> (c: BranchRow)
    ensures
        c@ == r@,
{
    BranchRow {
        slug: r.slug.clone(),
        title: r.title.clone(),
        leaf_count: r.leaf_count,
        updated_at: crate::text::clone_opt_string(&r.updated_at),
    }
}

pub fn build_branches_view(state: &TreeState, options: &ListOptions) -> (r: ListView)
    ensures
        r matches ListView::Branches { items } && branch_rows_view(items@) == branches_view_spec(branches_view(state.branches@), *options),
{
    let ghost bv = branches_view(state.branches@);
    let ghost all = bv.map_values(|b: BranchView| branch_row_spec(b));
    let mut rows: Vec<BranchRow> = Vec::new();
    let mut i: usize = 0;
    while i < state.branches.len()
        invariant
            i <= state.branches.len(),
            bv == branches_view(state.branches@),
            all == bv.map_values(|b: BranchView| branch_row_spec(b)),
            branch_rows_view(rows@) == all.take(i as int),
        decreases state.branches.len() - i,
    {
        let b = &state.branches[i];
        let row = BranchRow {
            slug: b.slug.clone(),
            title: b.title.clone(),
            leaf_count: b.leaves.len(),
            updated_at: b.updated_at.to_rfc3339_millis(),
        };
        proof {
            assert(b.updated_at.unix_millis as int as i64 == b.updated_at.unix_millis);
        }
        push_branch_row(&mut rows, row);
        assert(all.take(i + 1) =~= all.take(i as int).push(branch_row_spec(bv[i as int])));
        i += 1;
    }
    assert(all.take(state.branches.len() as int) =~= all);
    if options.terms.len() > 0 {
        let ghost rv = branch_rows_view(rows@);
        let mut kept: Vec<BranchRow> = Vec::new();
        let mut j: usize = 0;
        while j < rows.len()
            invariant
                j <= rows.len(),
                rv == branch_rows_view(rows@),
                branch_rows_view(kept@) == branch_rows_matching(rv.take(j as int), strs(options.terms@)),
            decreases rows.len() - j,
        {
            assert(rv.take(j + 1).drop_last() =~= rv.take(j as int));
            assert(rv.take(j + 1).last() == rows@[j as int]@);
            if terms_match_slug_title(rows[j].slug.as_str(), rows[j].title.as_str(), &options.terms) {
                push_branch_row(&mut kept, clone_branch_row(&rows[j]));
            }
            j += 1;
        }
        assert(rv.take(rows.len() as int) =~= rv);
        rows = kept;
    }
    match &options.branch {
        Some(f) => {
            let ghost rv = branch_rows_view(rows@);
            let mut kept: Vec<BranchRow> = Vec::new();
            let mut j: usize = 0;
            while j < rows.len()
                invariant
                    j <= rows.len(),
                    rv == branch_rows_view(rows@),
                    branch_rows_view(kept@) == branch_rows_named(rv.take(j as int), f@),
                decreases rows.len() - j,
            {
                assert(rv.take(j + 1).drop_last() =~= rv.take(j as int));
                assert(rv.take(j + 1).last() == rows@[j as int]@);
                if str_eq(rows[j].slug.as_str(), f.as_str()) {
                    push_branch_row(&mut kept, clone_branch_row(&rows[j]));
                }
                j += 1;
            }
            assert(rv.take(rows.len() as int) =~= rv);
            rows = kept;
        },
        None => {},
    }
    match options.limit {
        Some(n) => {
            let ghost before = rows@;
            rows.truncate(n);
            assert(n < before.len() ==> branch_rows_view(rows@) =~= branch_rows_view(before).take(n as int));
        },
        None => {},
    }
    ListView::Branches { items: rows }
}

// ── the branch-centric view ──────────────────────────────────────────────────

/// The last row with the given slug.
pub open spec fn row_with_slug(rows: Seq<RowView>, slug: Seq<char>) -> Option<RowView>
    decreases rows.len(),
{
    if rows.len() == 0 {
        None
    } else if rows.last().slug == slug {
        Some(rows.last())
    } else {
        row_with_slug(rows.drop_last(), slug)
    }
}

proof fn lemma_row_suffix(s: Seq<RowView>, i: int, slug: Seq<char>)
    requires
        0 <= i <= s.len(),
        forall|k: int| i <= k < s.len() ==> s[k].slug != slug,
    ensures
        row_with_slug(s, slug) == row_with_slug(s.take(i), slug),
    decreases s.len() - i,
{
    if i == s.len() {
        assert(s.take(i) =~= s);
    } else {
        assert(s.drop_last().take(i) =~= s.take(i));
        lemma_row_suffix(s.drop_last(), i, slug);
    }
}

fn last_row_with_slug(rows: &Vec<ListLeafRow>, slug: &str) -> (r: Option<usize>)
    ensures
        match r {
            Some(i) => i < rows.len() && row_with_slug(rows_view(rows@), slug@) == Some(rows@[i as int]@),
            None => row_with_slug(rows_view(rows@), slug@) is None,
        },
{
    let ghost rv = rows_view(rows@);
    let mut i: usize = rows.len();
    while i > 0
        invariant
            i <= rows.len(),
            rv == rows_view(rows@),
            forall|k: int| i <= k < rv.len() ==> rv[k].slug != slug@,
        decreases i,
    {
        i -= 1;
        if str_eq(rows[i].slug.as_str(), slug) {
            proof {
                lemma_row_suffix(rv, i + 1, slug@);
                assert(rv.take(i + 1).last() == rv[i as int]);
            }
            return Some(i);
        }
    }
    proof {
        lemma_row_suffix(rv, 0, slug@);
    }
    None
}

/// The rows of a branch's leaves that have a row, kept when the leaf or
/// the branch matches the terms.
pub open spec fn branch_leaf_rows(
    leaves: Seq<Seq<char>>,
    rows: Seq<RowView>,
    terms: Seq<Seq<char>>,
    slug: Seq<char>,
    title: Seq<char>,
) -> Seq<RowView>
    decreases leaves.len(),
{
    if leaves.len() == 0 {
        seq![]
    } else {
        let prev = branch_leaf_rows(leaves.drop_last(), rows, terms, slug, title);
        match row_with_slug(rows, leaves.last()) {
            Some(r) => if terms_match(r.slug, r.title, terms) || terms_match(slug, title, terms) {
                prev.push(r)
            } else {
                prev
            },
            None => prev,
        }
    }
}

pub open spec fn centric_entry(b: BranchView, rows: Seq<RowView>, terms: Seq<Seq<char>>) -> BranchLeavesView {
    BranchLeavesView {
        slug: b.slug,
        title: b.title,
        updated_at: rfc3339_text(b.updated_at as i64),
        leaves: branch_leaf_rows(b.leaves, rows, terms, b.slug, b.title),
    }
}

pub open spec fn centric_named(v: Seq<BranchLeavesView>, slug: Seq<char>) -> Seq<BranchLeavesView>
    decreases v.len(),
{
    if v.len() == 0 {
        seq![]
    } else {
        let prev = centric_named(v.drop_last(), slug);
        if v.last().slug == slug {
            prev.push(v.last())
        } else {
            prev
        }
    }
}

pub open spec fn centric_matching(v: Seq<BranchLeavesView>, terms: Seq<Seq<char>>) -> Seq<BranchLeavesView>
    decreases v.len(),
{
    if v.len() == 0 {
        seq![]
    } else {
        let prev = centric_matching(v.drop_last(), terms);
        if terms_match(v.last().slug, v.last().title, terms) || v.last().leaves.len() > 0 {
            prev.push(v.last())
        } else {
            prev
        }
    }
}

/// Some branch among `upto` that cites leaves has, as the first branch of
/// its slug, the leaf `s` among its leaves.
pub open spec fn in_any_branch(all: Seq<BranchView>, upto: Seq<BranchView>, s: Seq<char>) -> bool
    decreases upto.len(),
{
    if upto.len() == 0 {
        false
    } else {
        in_any_branch(all, upto.drop_last(), s) || (upto.last().leaves.len() > 0 && match branch_with_slug(
            all,
            upto.last().slug,
        ) {
            Some(f) => f.leaves.contains(s),
            None => false,
        })
    }
}

pub open spec fn rows_unbranched(rows: Seq<RowView>, bs: Seq<BranchView>) -> Seq<RowView>
    decreases rows.len(),
{
    if rows.len() == 0 {
        seq![]
    } else {
        let prev = rows_unbranched(rows.drop_last(), bs);
        if in_any_branch(bs, bs, rows.last().slug) {
            prev
        } else {
            prev.push(rows.last())
        }
    }
}

/// The branch-centric view: each branch with its leaf rows, narrowed to the
/// chosen branch and the terms and cut at the limit; then the rows no branch
/// cites, narrowed the same way.
pub open spec fn centric_spec(bs: Seq<BranchView>, rows: Seq<RowView>, o: ListOptions) -> (Seq<BranchLeavesView>, Seq<RowView>) {
    let terms = strs(o.terms@);
    let all = bs.map_values(|b: BranchView| centric_entry(b, rows, terms));
    let a = match o.branch {
        Some(f) => centric_named(all, f@),
        None => all,
    };
    let b = if terms.len() > 0 { centric_matching(a, terms) } else { a };
    let u0 = rows_unbranched(rows, bs);
    let u1 = if terms.len() > 0 { rows_matching(u0, terms) } else { u0 };
    let u2 = match o.branch {
        Some(f) => rows_in_branch(u1, f@),
        None => u1,
    };
    (limited(b, o.limit), u2)
}

fn branch_rows_for(b: &Branch, rows: &Vec<ListLeafRow>, terms: &Vec<String>) -> (r: Vec<ListLeafRow>)
    ensures
        rows_view(r@) == branch_leaf_rows(b@.leaves, rows_view(rows@), strs(terms@), b@.slug, b@.title),
{
    let ghost ls = b@.leaves;
    let branch_matches = terms_match_slug_title(b.slug.as_str(), b.title.as_str(), terms);
    let mut out: Vec<ListLeafRow> = Vec::new();
    let mut i: usize = 0;
    while i < b.leaves.len()
        invariant
            i <= b.leaves.len(),
            ls == b@.leaves,
            branch_matches == terms_match(b@.slug, b@.title, strs(terms@)),
            rows_view(out@) == branch_leaf_rows(ls.take(i as int), rows_view(rows@), strs(terms@), b@.slug, b@.title),
        decreases b.leaves.len() - i,
    {
        assert(ls.take(i + 1).drop_last() =~= ls.take(i as int));
        assert(ls.take(i + 1).last() == b.leaves@[i as int]@);
        match last_row_with_slug(rows, b.leaves[i].as_str()) {
            Some(k) => {
                if terms_match_row(&rows[k], terms) || branch_matches {
                    push_row(&mut out, clone_row(&rows[k]));
                }
            },
            None => {},
        }
        i += 1;
    }
    assert(ls.take(b.leaves.len() as int) =~= ls);
    out
}

fn in_any_branch_exec(bs: &Vec<Branch>, s: &str) -> (r: bool)
    ensures
        r == in_any_branch(branches_view(bs@), branches_view(bs@), s@),
{
    let ghost bv = branches_view(bs@);
    let mut found = false;
    let mut i: usize = 0;
    while i < bs.len()
        invariant
            i <= bs.len(),
            bv == branches_view(bs@),
            found == in_any_branch(bv, bv.take(i as int), s@),
        decreases bs.len() - i,
    {
        assert(bv.take(i + 1).drop_last() =~= bv.take(i as int));
        assert(bv.take(i + 1).last() == bs@[i as int]@);
        if !found && bs[i].leaves.len() > 0 {
            match crate::compile::delta::first_branch_with_slug(bs, bs[i].slug.as_str()) {
                Some(k) => {
                    if strings_contain(&bs[k].leaves, s) {
                        found = true;
                    }
                },
                None => {},
            }
        }
        i += 1;
    }
    assert(bv.take(bs.len() as int) =~= bv);
    found
}

fn push_centric(v: &mut Vec<BranchWithLeaves>, b: BranchWithLeaves)
    ensures
        centric_view(final(v)@) == centric_view(old(v)@).push(b@),
{
    let ghost before = v@;
    v.push(b);
    assert(centric_view(v@) =~= centric_view(before).push(b@));
}

fn clone_centric(b: &BranchWithLeaves) -> (c: BranchWithLeaves)
    ensures
        c@ == b@,
{
    let mut leaves: Vec<ListLeafRow> = Vec::new();
    let mut i: usize = 0;
    while i < b.leaves.len()
        invariant
            i <= b.leaves.len(),
            rows_view(leaves@) == rows_view(b.leaves@).take(i as int),
        decreases b.leaves.len() - i,
    {
        push_row(&mut leaves, clone_row(&b.leaves[i]));
        assert(rows_view(b.leaves@).take(i + 1) =~= rows_view(b.leaves@).take(i as int).push(b.leaves@[i as int]@));
        i += 1;
    }
    assert(rows_view(b.leaves@).take(b.leaves.len() as int) =~= rows_view(b.leaves@));
    BranchWithLeaves {
        slug: b.slug.clone(),
        title: b.title.clone(),
        updated_at: crate::text::clone_opt_string(&b.updated_at),
        leaves,
    }
}

pub fn build_branch_centric(state: &TreeState, leaf_rows: &Vec<ListLeafRow>, options: &ListOptions) -> (r: ListView)
    ensures
        r matches ListView::BranchCentric { branches, unbranched } && (centric_view(branches@), rows_view(unbranched@))
            == centric_spec(branches_view(state.branches@), rows_view(leaf_rows@), *options),
{
    let ghost bv = branches_view(state.branches@);
    let ghost rv = rows_view(leaf_rows@);
    let ghost terms = strs(options.terms@);
    let ghost all = bv.map_values(|b: BranchView| centric_entry(b, rv, terms));
    let mut branches: Vec<BranchWithLeaves> = Vec::new();
    let mut i: usize = 0;
    while i < state.branches.len()
        invariant
            i <= state.branches.len(),
            bv == branches_view(state.branches@),
            rv == rows_view(leaf_rows@),
            terms == strs(options.terms@),
            all == bv.map_values(|b: BranchView| centric_entry(b, rv, terms)),
            centric_view(branches@) == all.take(i as int),
        decreases state.branches.len() - i,
    {
        let b = &state.branches[i];
        let entry = BranchWithLeaves {
            slug: b.slug.clone(),
            title: b.title.clone(),
            updated_at: b.updated_at.to_rfc3339_millis(),
            leaves: branch_rows_for(b, leaf_rows, &options.terms),
        };
        proof {
            assert(b.updated_at.unix_millis as int as i64 == b.updated_at.unix_millis);
        }
        push_centric(&mut branches, entry);
        assert(all.take(i + 1) =~= all.take(i as int).push(centric_entry(bv[i as int], rv, terms)));
        i += 1;
    }
    assert(all.take(state.branches.len() as int) =~= all);
    match &options.branch {
        Some(f) => {
            let ghost cv = centric_view(branches@);
            let mut kept: Vec<BranchWithLeaves> = Vec::new();
            let mut j: usize = 0;
            while j < branches.len()
                invariant
                    j <= branches.len(),
                    cv == centric_view(branches@),
                    centric_view(kept@) == centric_named(cv.take(j as int), f@),
                decreases branches.len() - j,
            {
                assert(cv.take(j + 1).drop_last() =~= cv.take(j as int));
                assert(cv.take(j + 1).last() == branches@[j as int]@);
                if str_eq(branches[j].slug.as_str(), f.as_str()) {
                    push_centric(&mut kept, clone_centric(&branches[j]));
                }
                j += 1;
            }
            assert(cv.take(branches.len() as int) =~= cv);
            branches = kept;
        },
        None => {},
    }
    if options.terms.len() > 0 {
        let ghost cv = centric_view(branches@);
        let mut kept: Vec<BranchWithLeaves> = Vec::new();
        let mut j: usize = 0;
        while j < branches.len()
            invariant
                j <= branches.len(),
                cv == centric_view(branches@),
                centric_view(kept@) == centric_matching(cv.take(j as int), strs(options.terms@)),
            decreases branches.len() - j,
        {
            assert(cv.take(j + 1).drop_last() =~= cv.take(j as int));
            assert(cv.take(j + 1).last() == branches@[j as int]@);
            if terms_match_slug_title(branches[j].slug.as_str(), branches[j].title.as_str(), &options.terms)
                || branches[j].leaves.len() > 0 {
                push_centric(&mut kept, clone_centric(&branches[j]));
            }
            j += 1;
        }
        assert(cv.take(branches.len() as int) =~= cv);
        branches = kept;
    }
    let mut unbranched: Vec<ListLeafRow> = Vec::new();
    let mut k: usize = 0;
    while k < leaf_rows.len()
        invariant
            k <= leaf_rows.len(),
            bv == branches_view(state.branches@),
            rv == rows_view(leaf_rows@),
            rows_view(unbranched@) == rows_unbranched(rv.take(k as int), bv),
        decreases leaf_rows.len() - k,
    {
        assert(rv.take(k + 1).drop_last() =~= rv.take(k as int));
        assert(rv.take(k + 1).last() == leaf_rows@[k as int]@);
        if !in_any_branch_exec(&state.branches, leaf_rows[k].slug.as_str()) {
            push_row(&mut unbranched, clone_row(&leaf_rows[k]));
        }
        k += 1;
    }
    assert(rv.take(leaf_rows.len() as int) =~= rv);
    if options.terms.len() > 0 {
        unbranched = keep_rows_matching(&unbranched, &options.terms);
    }
    match &options.branch {
        Some(f) => {
            unbranched = keep_rows_in_branch(&unbranched, f.as_str());
        },
        None => {},
    }
    match options.limit {
        Some(n) => {
            let ghost before = branches@;
            branches.truncate(n);
            assert(n < before.len() ==> centric_view(branches@) =~= centric_view(before).take(n as int));
        },
        None => {},
    }
    ListView::BranchCentric { branches, unbranched }
}

// ── the result ───────────────────────────────────────────────────────────────

/// All leaf rows a branch-centric view shows, branch by branch, then the
/// unbranched ones.
pub open spec fn centric_rows(v: Seq<BranchLeavesView>) -> Seq<RowView>
    decreases v.len(),
{
    if v.len() == 0 {
        seq![]
    } else {
        centric_rows(v.drop_last()) + v.last().leaves
    }
}

pub open spec fn degraded_spec(view: ListView) -> Seq<RowView> {
    match view {
        ListView::BranchCentric { branches, unbranched } => sorted_rows(
            rows_degraded(centric_rows(centric_view(branches@)) + rows_view(unbranched@)),
            false,
        ),
        ListView::Branches { .. } => seq![],
        ListView::Leaves { items } => rows_degraded(rows_view(items@)),
    }
}

fn append_rows(out: &mut Vec<ListLeafRow>, more: &Vec<ListLeafRow>)
    ensures
        rows_view(final(out)@) == rows_view(old(out)@) + rows_view(more@),
{
    let mut i: usize = 0;
    while i < more.len()
        invariant
            i <= more.len(),
            rows_view(out@) == rows_view(old(out)@) + rows_view(more@).take(i as int),
        decreases more.len() - i,
    {
        push_row(out, clone_row(&more[i]));
        assert(rows_view(more@).take(i + 1) =~= rows_view(more@).take(i as int).push(more@[i as int]@));
        i += 1;
    }
    assert(rows_view(more@).take(more.len() as int) =~= rows_view(more@));
}

impl ListResult {
    /// The degraded leaf rows of the view; in a branch-centric view ordered
    /// by their position in the tree state.
    pub fn degraded_leaves(&self) -> (r: Vec<ListLeafRow>)
        ensures
            rows_view(r@) == degraded_spec(self.view),
    {
        match &self.view {
            ListView::BranchCentric { branches, unbranched } => {
                let ghost cv = centric_view(branches@);
                let mut all: Vec<ListLeafRow> = Vec::new();
                let mut i: usize = 0;
                while i < branches.len()
                    invariant
                        i <= branches.len(),
                        cv == centric_view(branches@),
                        rows_view(all@) == centric_rows(cv.take(i as int)),
                    decreases branches.len() - i,
                {
                    assert(cv.take(i + 1).drop_last() =~= cv.take(i as int));
                    assert(cv.take(i + 1).last() == branches@[i as int]@);
                    append_rows(&mut all, &branches[i].leaves);
                    i += 1;
                }
                assert(cv.take(branches.len() as int) =~= cv);
                append_rows(&mut all, unbranched);
                let d = keep_rows_degraded(&all);
                sort_rows(&d, false)
            },
            ListView::Branches { .. } => {
                let r: Vec<ListLeafRow> = Vec::new();
                assert(rows_view(r@) =~= seq![]);
                r
            },
            ListView::Leaves { items } => keep_rows_degraded(items),
        }
    }
}

/// What reading the path of each leaf gave: whether the resolved path
/// leaves the tree, and whether the file exists.
pub open spec fn leaf_rows_spec(state: TreeState, checks: Seq<(bool, bool)>) -> Seq<RowView> {
    Seq::new(
        state.leaves@.len(),
        |i: int|
            row_spec(
                state.leaves@[i]@,
                state.leaves@[i].collected_at.unix_millis,
                branches_view(state.branches@),
                i,
                checks[i].0,
                checks[i].1,
            ),
    )
}

pub open spec fn view_spec(state: TreeState, rows: Seq<RowView>, o: ListOptions, v: ListView) -> bool {
    match o.view {
        ListViewMode::BranchCentric => v matches ListView::BranchCentric { branches, unbranched } && (
        centric_view(branches@), rows_view(unbranched@)) == centric_spec(branches_view(state.branches@), rows, o),
        ListViewMode::Branches => v matches ListView::Branches { items } && branch_rows_view(items@)
            == branches_view_spec(branches_view(state.branches@), o),
        ListViewMode::Leaves => v matches ListView::Leaves { items } && rows_view(items@) == leaves_view_spec(rows, o),
    }
}

/// The listing of a tree never initialized: empty, branch-centric.
pub open spec fn empty_listing(res: ListResult, o: ListOptions) -> bool {
    &&& res.total_branches == 0
    &&& res.total_leaves == 0
    &&& opt_view(res.branch_filter) == opt_view(o.branch)
    &&& res.view matches ListView::BranchCentric { branches, unbranched }
    &&& branches@.len() == 0
    &&& unbranched@.len() == 0
}

/// The listing of a read state.
pub open spec fn listing_of(res: ListResult, state: TreeState, checks: Seq<(bool, bool)>, o: ListOptions) -> bool {
    &&& res.total_branches == state.branches@.len()
    &&& res.total_leaves == state.leaves@.len()
    &&& opt_view(res.branch_filter) == opt_view(o.branch)
    &&& view_spec(state, leaf_rows_spec(state, checks), o, res.view)
}

/// Lists a tree. A tree never initialized lists as empty; a state that
/// could not be read is an error. `checks[i]` is what checking the path of
/// the `i`-th leaf gave.
pub fn list_tree(read: &crate::collect::commit::StateRead, options: &ListOptions, checks: &Vec<(bool, bool)>) -> (r: Result<
    ListResult,
    ListError,
>)
    requires
        read matches crate::collect::commit::StateRead::Read(s) ==> checks@.len() == s.leaves@.len(),
    ensures
        match read {
            crate::collect::commit::StateRead::NotInitialized => r matches Ok(res) && empty_listing(res, *options),
            crate::collect::commit::StateRead::Failed(m) => r matches Err(ListError::Manifest(e)) && e@ == m@,
            crate::collect::commit::StateRead::Read(state) => r matches Ok(res) && listing_of(res, *state, checks@, *options),
        },
{
    match read {
        crate::collect::commit::StateRead::NotInitialized => Ok(
            ListResult {
                view: ListView::BranchCentric { branches: Vec::new(), unbranched: Vec::new() },
                total_branches: 0,
                total_leaves: 0,
                branch_filter: crate::text::clone_opt_string(&options.branch),
            },
        ),
        crate::collect::commit::StateRead::Failed(m) => Err(ListError::Manifest(m.clone())),
        crate::collect::commit::StateRead::Read(state) => {
            let ghost want = leaf_rows_spec(*state, checks@);
            let mut rows: Vec<ListLeafRow> = Vec::new();
            let mut i: usize = 0;
            while i < state.leaves.len()
                invariant
                    i <= state.leaves.len(),
                    checks@.len() == state.leaves@.len(),
                    want == leaf_rows_spec(*state, checks@),
                    rows_view(rows@) == want.take(i as int),
                decreases state.leaves.len() - i,
            {
                let (escapes, exists) = checks[i];
                let row = build_row(&state.leaves[i], state, i, escapes, exists);
                push_row(&mut rows, row);
                assert(want.take(i + 1) =~= want.take(i as int).push(want[i as int]));
                i += 1;
            }
            assert(want.take(state.leaves.len() as int) =~= want);
            let view = match options.view {
                ListViewMode::BranchCentric => build_branch_centric(state, &rows, options),
                ListViewMode::Branches => build_branches_view(state, options),
                ListViewMode::Leaves => build_leaves_view(rows, options),
            };
            Ok(
                ListResult {
                    view,
                    total_branches: state.branches.len(),
                    total_leaves: state.leaves.len(),
                    branch_filter: crate::text::clone_opt_string(&options.branch),
                },
            )
        },
    }
}

// ── text ─────────────────────────────────────────────────────────────────────

pub open spec fn time_text(r: RowView) -> Seq<char> {
    match r.collected_at {
        Some(t) => t,
        None => "-"@,
    }
}

pub open spec fn degraded_suffix(r: RowView) -> Seq<char> {
    if r.degraded {
        " | \u{26a0} DEGRADED: "@ + join(r.reasons, ", "@)
    } else {
        seq![]
    }
}

/// A leaf under a branch: title, time and the branches citing it.
pub open spec fn outline_line(r: RowView) -> Seq<char> {
    "  "@ + r.title + " | "@ + time_text(r) + " | "@ + "["@ + join(r.branches, ", "@) + "]"@ + degraded_suffix(r) + "\n"@
}

pub open spec fn outline_lines(rows: Seq<RowView>) -> Seq<char>
    decreases rows.len(),
{
    if rows.len() == 0 {
        seq![]
    } else {
        outline_lines(rows.drop_last()) + outline_line(rows.last())
    }
}

pub open spec fn outline_blocks(v: Seq<BranchLeavesView>) -> Seq<char>
    decreases v.len(),
{
    if v.len() == 0 {
        seq![]
    } else {
        outline_blocks(v.drop_last()) + "## "@ + v.last().title + "\n"@ + outline_lines(v.last().leaves) + "\n"@
    }
}

pub open spec fn branch_list_lines(rows: Seq<BranchRowView>) -> Seq<char>
    decreases rows.len(),
{
    if rows.len() == 0 {
        seq![]
    } else {
        branch_list_lines(rows.drop_last()) + rows.last().slug + " | "@ + rows.last().title + " | "@ + decimal(
            rows.last().leaf_count as nat,
        ) + " leaves\n"@
    }
}

pub open spec fn leaf_list_line(r: RowView) -> Seq<char> {
    r.title + " | "@ + r.slug + " | "@ + time_text(r) + " | "@ + decimal(r.branch_count as nat) + " branches"@
        + degraded_suffix(r) + "\n"@
}

pub open spec fn leaf_list_lines(rows: Seq<RowView>) -> Seq<char>
    decreases rows.len(),
{
    if rows.len() == 0 {
        seq![]
    } else {
        leaf_list_lines(rows.drop_last()) + leaf_list_line(rows.last())
    }
}

pub open spec fn render_list(res: ListResult) -> Seq<char> {
    if res.total_branches == 0 && res.total_leaves == 0 {
        "no content in tree\n"@
    } else {
        match res.view {
            ListView::BranchCentric { branches, unbranched } => if branches@.len() == 0 && unbranched@.len() == 0 {
                match res.branch_filter {
                    Some(b) => "no branches matched '"@ + b@ + "'\n"@,
                    None => if res.total_branches == 0 {
                        "no branches compiled yet\n"@
                    } else {
                        "no leaves matched\n"@
                    },
                }
            } else {
                outline_blocks(centric_view(branches@)) + if unbranched@.len() > 0 {
                    "## unbranched\n"@ + outline_lines(rows_view(unbranched@))
                } else {
                    seq![]
                }
            },
            ListView::Branches { items } => if items@.len() == 0 {
                if res.total_branches == 0 {
                    "no branches compiled yet\n"@
                } else {
                    "no branches matched\n"@
                }
            } else {
                branch_list_lines(branch_rows_view(items@))
            },
            ListView::Leaves { items } => if items@.len() == 0 {
                if res.total_leaves == 0 {
                    "no leaves collected yet\n"@
                } else {
                    match res.branch_filter {
                        Some(b) => "no leaves matched branch '"@ + b@ + "'\n"@,
                        None => "no leaves matched\n"@,
                    }
                }
            } else {
                leaf_list_lines(rows_view(items@))
            },
        }
    }
}

fn push_degraded_suffix(out: &mut String, r: &ListLeafRow)
    ensures
        final(out)@ == old(out)@ + degraded_suffix(r@),
{
    if r.degraded {
        push_str(out, " | \u{26a0} DEGRADED: ");
        push_str(out, join_strings(&r.degradation_reasons, ", ").as_str());
    } else {
        assert(old(out)@ + seq![] =~= old(out)@);
    }
}

fn push_time(out: &mut String, r: &ListLeafRow)
    ensures
        final(out)@ == old(out)@ + time_text(r@),
{
    match &r.collected_at {
        Some(t) => push_str(out, t.as_str()),
        None => push_str(out, "-"),
    }
}

fn push_outline_lines(out: &mut String, rows: &Vec<ListLeafRow>)
    ensures
        final(out)@ == old(out)@ + outline_lines(rows_view(rows@)),
{
    let ghost rv = rows_view(rows@);
    let mut i: usize = 0;
    while i < rows.len()
        invariant
            i <= rows.len(),
            rv == rows_view(rows@),
            out@ == old(out)@ + outline_lines(rv.take(i as int)),
        decreases rows.len() - i,
    {
        assert(rv.take(i + 1).drop_last() =~= rv.take(i as int));
        assert(rv.take(i + 1).last() == rows@[i as int]@);
        let r = &rows[i];
        let ghost before = out@;
        push_str(out, "  ");
        push_str(out, r.display_title.as_str());
        push_str(out, " | ");
        push_time(out, r);
        push_str(out, " | ");
        push_str(out, "[");
        push_str(out, join_strings(&r.branches, ", ").as_str());
        push_str(out, "]");
        push_degraded_suffix(out, r);
        push_str(out, "\n");
        assert(out@ =~= before + outline_line(r@));
        i += 1;
    }
    assert(rv.take(rows.len() as int) =~= rv);
}

fn push_outline_blocks(out: &mut String, bs: &Vec<BranchWithLeaves>)
    ensures
        final(out)@ == old(out)@ + outline_blocks(centric_view(bs@)),
{
    let ghost cv = centric_view(bs@);
    let mut i: usize = 0;
    while i < bs.len()
        invariant
            i <= bs.len(),
            cv == centric_view(bs@),
            out@ == old(out)@ + outline_blocks(cv.take(i as int)),
        decreases bs.len() - i,
    {
        assert(cv.take(i + 1).drop_last() =~= cv.take(i as int));
        assert(cv.take(i + 1).last() == bs@[i as int]@);
        let ghost before = out@;
        push_str(out, "## ");
        push_str(out, bs[i].title.as_str());
        push_str(out, "\n");
        push_outline_lines(out, &bs[i].leaves);
        push_str(out, "\n");
        assert(out@ =~= before + "## "@ + cv[i as int].title + "\n"@ + outline_lines(cv[i as int].leaves) + "\n"@);
        i += 1;
    }
    assert(cv.take(bs.len() as int) =~= cv);
}

fn push_branch_list_lines(out: &mut String, rows: &Vec<BranchRow>)
    ensures
        final(out)@ == old(out)@ + branch_list_lines(branch_rows_view(rows@)),
{
    let ghost rv = branch_rows_view(rows@);
    let mut i: usize = 0;
    while i < rows.len()
        invariant
            i <= rows.len(),
            rv == branch_rows_view(rows@),
            out@ == old(out)@ + branch_list_lines(rv.take(i as int)),
        decreases rows.len() - i,
    {
        assert(rv.take(i + 1).drop_last() =~= rv.take(i as int));
        assert(rv.take(i + 1).last() == rows@[i as int]@);
        let ghost before = out@;
        push_str(out, rows[i].slug.as_str());
        push_str(out, " | ");
        push_str(out, rows[i].title.as_str());
        push_str(out, " | ");
        push_str(out, usize_to_string(rows[i].leaf_count).as_str());
        push_str(out, " leaves\n");
        assert(out@ =~= before + rv[i as int].slug + " | "@ + rv[i as int].title + " | "@ + decimal(
            rv[i as int].leaf_count as nat,
        ) + " leaves\n"@);
        i += 1;
    }
    assert(rv.take(rows.len() as int) =~= rv);
}

fn push_leaf_list_lines(out: &mut String, rows: &Vec<ListLeafRow>)
    ensures
        final(out)@ == old(out)@ + leaf_list_lines(rows_view(rows@)),
{
    let ghost rv = rows_view(rows@);
    let mut i: usize = 0;
    while i < rows.len()
        invariant
            i <= rows.len(),
            rv == rows_view(rows@),
            out@ == old(out)@ + leaf_list_lines(rv.take(i as int)),
        decreases rows.len() - i,
    {
        assert(rv.take(i + 1).drop_last() =~= rv.take(i as int));
        assert(rv.take(i + 1).last() == rows@[i as int]@);
        let r = &rows[i];
        let ghost before = out@;
        push_str(out, r.display_title.as_str());
        push_str(out, " | ");
        push_str(out, r.slug.as_str());
        push_str(out, " | ");
        push_time(out, r);
        push_str(out, " | ");
        push_str(out, usize_to_string(r.branch_count).as_str());
        push_str(out, " branches");
        push_degraded_suffix(out, r);
        push_str(out, "\n");
        assert(out@ =~= before + leaf_list_line(r@));
        i += 1;
    }
    assert(rv.take(rows.len() as int) =~= rv);
}

/// The listing as text.
pub fn render_human(result: &ListResult) -> (r: String)
    ensures
        r@ == render_list(*result),
{
    if result.total_branches == 0 && result.total_leaves == 0 {
        return owned("no content in tree\n");
    }
    match &result.view {
        ListView::BranchCentric { branches, unbranched } => {
            if branches.len() == 0 && unbranched.len() == 0 {
                return match &result.branch_filter {
                    Some(b) => cat3("no branches matched '", b.as_str(), "'\n"),
                    None => if result.total_branches == 0 {
                        owned("no branches compiled yet\n")
                    } else {
                        owned("no leaves matched\n")
                    },
                };
            }
            let mut out = String::new();
            push_outline_blocks(&mut out, branches);
            if unbranched.len() > 0 {
                push_str(&mut out, "## unbranched\n");
                push_outline_lines(&mut out, unbranched);
            }
            out
        },
        ListView::Branches { items } => {
            if items.len() == 0 {
                if result.total_branches == 0 {
                    return owned("no branches compiled yet\n");
                }
                return owned("no branches matched\n");
            }
            let mut out = String::new();
            push_branch_list_lines(&mut out, items);
            out
        },
        ListView::Leaves { items } => {
            if items.len() == 0 {
                if result.total_leaves == 0 {
                    return owned("no leaves collected yet\n");
                }
                return match &result.branch_filter {
                    Some(b) => cat3("no leaves matched branch '", b.as_str(), "'\n"),
                    None => owned("no leaves matched\n"),
                };
            }
            let mut out = String::new();
            push_leaf_list_lines(&mut out, items);
            out
        },
    }
}

} // verus!
