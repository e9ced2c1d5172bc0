//! How a settled compile plan changes the tree state: which branch records
//! are written, which branch files go, and what the new state holds.
use vstd::prelude::*;

use super::{BranchResult, CompileRunMode};
use crate::text::{cat3, chars_of, ends_with, ends_with_str, owned, slice_chars, str_eq, string_of, strs};
use crate::tree::{branches_view, leaves_view, Branch, BranchView, Leaf, Timestamp, TreeMetadata, TreeState};

verus! {

/// A branch that a compile settled on: its slug, title, leaf filenames and
/// the body written for it.
#[derive(Debug)]
pub struct PlannedBranch {
    pub slug: String,
    pub title: String,
    pub leaves: Vec<String>,
    pub body: String,
}

/// The branches that a compile settled on.
#[derive(Debug)]
pub struct CompilePlan {
    pub branches: Vec<PlannedBranch>,
}

/// A branch file to write: its record, the leaf filenames it cites and its body.
#[derive(Debug)]
pub struct PlannedBranchWrite {
    pub record: Branch,
    pub file_leaves: Vec<String>,
    pub body: String,
}

/// Everything a compile changes: the new tree state, the branch files to
/// write and to delete, and the branches created and updated.
#[derive(Debug)]
pub struct ManifestDelta {
    pub new_state: TreeState,
    pub branch_writes: Vec<PlannedBranchWrite>,
    pub branch_deletes: Vec<String>,
    pub branches_created: Vec<BranchResult>,
    pub branches_updated: Vec<BranchResult>,
}

pub struct PlannedView {
    pub slug: Seq<char>,
    pub title: Seq<char>,
    pub leaves: Seq<Seq<char>>,
    pub body: Seq<char>,
}

impl View for PlannedBranch {
    type V = PlannedView;

    open spec fn view(&self) -> PlannedView {
        PlannedView { slug: self.slug@, title: self.title@, leaves: strs(self.leaves@), body: self.body@ }
    }
}

pub struct WriteView {
    pub record: BranchView,
    pub file_leaves: Seq<Seq<char>>,
    pub body: Seq<char>,
}

impl View for PlannedBranchWrite {
    type V = WriteView;

    open spec fn view(&self) -> WriteView {
        WriteView { record: self.record@, file_leaves: strs(self.file_leaves@), body: self.body@ }
    }
}

pub open spec fn planned_view(v: Seq<PlannedBranch>) -> Seq<PlannedView> {
    v.map_values(|p: PlannedBranch| p@)
}

pub open spec fn writes_view(v: Seq<PlannedBranchWrite>) -> Seq<WriteView> {
    v.map_values(|w: PlannedBranchWrite| w@)
}

/// A branch summary as slug, title and leaf count.
pub open spec fn result_view(r: BranchResult) -> (Seq<char>, Seq<char>, int) {
    (r.slug@, r.title@, r.leaf_count as int)
}

pub open spec fn results_view(v: Seq<BranchResult>) -> Seq<(Seq<char>, Seq<char>, int)> {
    v.map_values(|r: BranchResult| result_view(r))
}

/// A leaf filename without its `.md` extension: the leaf's slug.
pub open spec fn leaf_stem(f: Seq<char>) -> Seq<char> {
    if ends_with(f, ".md"@) {
        f.take(f.len() - 3)
    } else {
        f
    }
}

pub open spec fn leaf_stems(fs: Seq<Seq<char>>) -> Seq<Seq<char>> {
    fs.map_values(|f: Seq<char>| leaf_stem(f))
}

/// The first branch with the given slug.
pub open spec fn branch_with_slug(bs: Seq<BranchView>, slug: Seq<char>) -> Option<BranchView>
    decreases bs.len(),
{
    if bs.len() == 0 {
        None
    } else {
        match branch_with_slug(bs.drop_last(), slug) {
            Some(b) => Some(b),
            None => if bs.last().slug == slug {
                Some(bs.last())
            } else {
                None
            },
        }
    }
}

/// The last planned branch with the given slug.
pub open spec fn planned_with_slug(ps: Seq<PlannedView>, slug: Seq<char>) -> Option<PlannedView>
    decreases ps.len(),
{
    if ps.len() == 0 {
        None
    } else if ps.last().slug == slug {
        Some(ps.last())
    } else {
        planned_with_slug(ps.drop_last(), slug)
    }
}

/// The record a planned branch gets: an existing branch keeps its file and
/// creation time; a new one is filed under `branch/<slug>.md` and created
/// now. Either way it is updated now and cites the planned leaves' slugs.
pub open spec fn branch_record(p: PlannedView, existing: Option<BranchView>, ts: int) -> BranchView {
    BranchView {
        slug: p.slug,
        file: match existing {
            Some(b) => b.file,
            None => "branch/"@ + p.slug + ".md"@,
        },
        title: p.title,
        created_at: match existing {
            Some(b) => b.created_at,
            None => ts,
        },
        updated_at: ts,
        leaves: leaf_stems(p.leaves),
    }
}

pub open spec fn branch_summary(p: PlannedView) -> (Seq<char>, Seq<char>, int) {
    (p.slug, p.title, p.leaves.len() as int)
}

pub open spec fn branch_write(p: PlannedView, existing: Option<BranchView>, ts: int) -> WriteView {
    WriteView { record: branch_record(p, existing, ts), file_leaves: p.leaves, body: p.body }
}

/// What a delta holds, as plain values.
pub struct DeltaView {
    pub branches: Seq<BranchView>,
    pub writes: Seq<WriteView>,
    pub deletes: Seq<Seq<char>>,
    pub created: Seq<(Seq<char>, Seq<char>, int)>,
    pub updated: Seq<(Seq<char>, Seq<char>, int)>,
}

/// The files of the current branches that no planned branch keeps.
pub open spec fn full_deletes(current: Seq<BranchView>, planned: Seq<PlannedView>) -> Seq<Seq<char>>
    decreases current.len(),
{
    if current.len() == 0 {
        seq![]
    } else {
        let prev = full_deletes(current.drop_last(), planned);
        if planned_with_slug(planned, current.last().slug) is None {
            prev.push(current.last().file)
        } else {
            prev
        }
    }
}

/// Full mode: the planned branches replace the graph, in plan order.
pub open spec fn full_fold(ps: Seq<PlannedView>, current: Seq<BranchView>, planned: Seq<PlannedView>, ts: int) -> DeltaView
    decreases ps.len(),
{
    if ps.len() == 0 {
        DeltaView {
            branches: seq![],
            writes: seq![],
            deletes: full_deletes(current, planned),
            created: seq![],
            updated: seq![],
        }
    } else {
        let acc = full_fold(ps.drop_last(), current, planned, ts);
        let p = ps.last();
        let ex = branch_with_slug(current, p.slug);
        DeltaView {
            branches: acc.branches.push(branch_record(p, ex, ts)),
            writes: acc.writes.push(branch_write(p, ex, ts)),
            deletes: acc.deletes,
            created: if ex is None { acc.created.push(branch_summary(p)) } else { acc.created },
            updated: if ex is Some { acc.updated.push(branch_summary(p)) } else { acc.updated },
        }
    }
}

/// Incremental mode, first part: each current branch in order, replaced by
/// the plan's branch of that slug where there is one and kept as it is
/// where there is none.
pub open spec fn inc_existing(cs: Seq<BranchView>, planned: Seq<PlannedView>, ts: int) -> DeltaView
    decreases cs.len(),
{
    if cs.len() == 0 {
        DeltaView { branches: seq![], writes: seq![], deletes: seq![], created: seq![], updated: seq![] }
    } else {
        let acc = inc_existing(cs.drop_last(), planned, ts);
        let b = cs.last();
        match planned_with_slug(planned, b.slug) {
            Some(p) => DeltaView {
                branches: acc.branches.push(branch_record(p, Some(b), ts)),
                writes: acc.writes.push(branch_write(p, Some(b), ts)),
                updated: acc.updated.push(branch_summary(p)),
                ..acc
            },
            None => DeltaView { branches: acc.branches.push(b), ..acc },
        }
    }
}

/// Incremental mode, second part: the planned branches of slugs that no
/// current branch has, appended in plan order.
pub open spec fn inc_new(ps: Seq<PlannedView>, current: Seq<BranchView>, ts: int, base: DeltaView) -> DeltaView
    decreases ps.len(),
{
    if ps.len() == 0 {
        base
    } else {
        let acc = inc_new(ps.drop_last(), current, ts, base);
        let p = ps.last();
        if branch_with_slug(current, p.slug) is None {
            DeltaView {
                branches: acc.branches.push(branch_record(p, None, ts)),
                writes: acc.writes.push(branch_write(p, None, ts)),
                created: acc.created.push(branch_summary(p)),
                ..acc
            }
        } else {
            acc
        }
    }
}

pub open spec fn delta_spec(current: Seq<BranchView>, planned: Seq<PlannedView>, mode: CompileRunMode, ts: int) -> DeltaView {
    match mode {
        CompileRunMode::Full => full_fold(planned, current, planned, ts),
        CompileRunMode::Incremental => inc_new(planned, current, ts, inc_existing(current, planned, ts)),
    }
}

pub open spec fn delta_view(d: ManifestDelta) -> DeltaView {
    DeltaView {
        branches: branches_view(d.new_state.branches@),
        writes: writes_view(d.branch_writes@),
        deletes: strs(d.branch_deletes@),
        created: results_view(d.branches_created@),
        updated: results_view(d.branches_updated@),
    }
}

// ── lookups ──────────────────────────────────────────────────────────────────

proof fn lemma_branch_with_slug_prefix(s: Seq<BranchView>, k: int, slug: Seq<char>)
    requires
        0 <= k <= s.len(),
        branch_with_slug(s.take(k), slug) is Some,
    ensures
        branch_with_slug(s, slug) == branch_with_slug(s.take(k), slug),
    decreases s.len() - k,
{
    if k == s.len() {
        assert(s.take(k) =~= s);
    } else {
        assert(s.drop_last().take(k) =~= s.take(k));
        lemma_branch_with_slug_prefix(s.drop_last(), k, slug);
    }
}

proof fn lemma_planned_suffix(s: Seq<PlannedView>, i: int, slug: Seq<char>)
    requires
        0 <= i <= s.len(),
        forall|k: int| i <= k < s.len() ==> s[k].slug != slug,
    ensures
        planned_with_slug(s, slug) == planned_with_slug(s.take(i), slug),
    decreases s.len() - i,
{
    if i == s.len() {
        assert(s.take(i) =~= s);
    } else {
        assert(s.drop_last().take(i) =~= s.take(i));
        lemma_planned_suffix(s.drop_last(), i, slug);
    }
}

/// The position of the first branch with the given slug.
pub(crate) fn first_branch_with_slug(bs: &Vec<Branch>, slug: &str) -> (r: Option<usize>)
    ensures
        match r {
            Some(i) => i < bs.len() && branch_with_slug(branches_view(bs@), slug@) == Some(bs@[i as int]@),
            None => branch_with_slug(branches_view(bs@), slug@) is None,
        },
{
    let ghost bv = branches_view(bs@);
    let mut i: usize = 0;
    while i < bs.len()
        invariant
            i <= bs.len(),
            bv == branches_view(bs@),
            branch_with_slug(bv.take(i as int), slug@) is None,
        decreases bs.len() - i,
    {
        assert(bv.take(i + 1).drop_last() =~= bv.take(i as int));
        if str_eq(bs[i].slug.as_str(), slug) {
            proof {
                lemma_branch_with_slug_prefix(bv, i + 1, slug@);
            }
            return Some(i);
        }
        i += 1;
    }
    assert(bv.take(bs.len() as int) =~= bv);
    None
}

/// The position of the last planned branch with the given slug.
fn last_planned_with_slug(ps: &Vec<PlannedBranch>, slug: &str) -> (r: Option<usize>)
    ensures
        match r {
            Some(i) => i < ps.len() && planned_with_slug(planned_view(ps@), slug@) == Some(ps@[i as int]@),
            None => planned_with_slug(planned_view(ps@), slug@) is None,
        },
{
    let ghost pv = planned_view(ps@);
    let mut i: usize = ps.len();
    while i > 0
        invariant
            i <= ps.len(),
            pv == planned_view(ps@),
            forall|k: int| i <= k < pv.len() ==> pv[k].slug != slug@,
        decreases i,
    {
        i -= 1;
        if str_eq(ps[i].slug.as_str(), slug) {
            proof {
                lemma_planned_suffix(pv, i + 1, slug@);
                assert(pv.take(i + 1).last() == pv[i as int]);
            }
            return Some(i);
        }
    }
    proof {
        lemma_planned_suffix(pv, 0, slug@);
    }
    None
}

// ── records ──────────────────────────────────────────────────────────────────

/// A leaf filename without its `.md` extension.
pub fn leaf_stem_of(f: &str) -> (r: String)
    ensures
        r@ == leaf_stem(f@),
{
    if ends_with_str(f, ".md") {
        proof {
            reveal_strlit(".md");
        }
        let v = chars_of(f);
        string_of(&slice_chars(&v, 0, v.len() - 3))
    } else {
        owned(f)
    }
}

/// The slugs of the leaves a planned branch cites.
pub fn validated_branch_leaf_slugs(branch: &PlannedBranch) -> (r: Vec<String>)
    ensures
        strs(r@) == leaf_stems(strs(branch.leaves@)),
{
    let mut out: Vec<String> = Vec::new();
    let mut i: usize = 0;
    while i < branch.leaves.len()
        invariant
            i <= branch.leaves.len(),
            strs(out@) == leaf_stems(strs(branch.leaves@)).take(i as int),
        decreases branch.leaves.len() - i,
    {
        let s = leaf_stem_of(branch.leaves[i].as_str());
        crate::text::push_string(&mut out, s);
        assert(leaf_stems(strs(branch.leaves@)).take(i + 1) =~= leaf_stems(strs(branch.leaves@)).take(
            i as int,
        ).push(leaf_stem(branch.leaves@[i as int]@)));
        i += 1;
    }
    assert(leaf_stems(strs(branch.leaves@)).take(branch.leaves.len() as int) =~= leaf_stems(
        strs(branch.leaves@),
    ));
    out
}

/// A copy of a branch record.
pub fn clone_branch(b: &Branch) -> (r: Branch)
    ensures
        r@ == b@,
{
    Branch {
        slug: b.slug.clone(),
        file: b.file.clone(),
        title: b.title.clone(),
        created_at: b.created_at,
        updated_at: b.updated_at,
        leaves: b.leaves.clone(),
    }
}

pub open spec fn opt_branch_view(o: Option<&Branch>) -> Option<BranchView> {
    match o {
        Some(b) => Some(b@),
        None => None,
    }
}

/// The record, the summary and the write that one planned branch gives.
pub fn build_branch_artifacts(planned: &PlannedBranch, existing: Option<&Branch>, ts: Timestamp) -> (r: (
    Branch,
    BranchResult,
    PlannedBranchWrite,
))
    ensures
        r.0@ == branch_record(planned@, opt_branch_view(existing), ts.unix_millis as int),
        result_view(r.1) == branch_summary(planned@),
        r.2@ == branch_write(planned@, opt_branch_view(existing), ts.unix_millis as int),
{
    let (file, created_at) = match existing {
        Some(ex) => (ex.file.clone(), ex.created_at),
        None => (cat3("branch/", planned.slug.as_str(), ".md"), ts),
    };
    let leaves = validated_branch_leaf_slugs(planned);
    let count = planned.leaves.len();
    let record = Branch {
        slug: planned.slug.clone(),
        file,
        title: planned.title.clone(),
        created_at,
        updated_at: ts,
        leaves,
    };
    let result = BranchResult { slug: planned.slug.clone(), title: planned.title.clone(), leaf_count: count };
    let write = PlannedBranchWrite {
        record: clone_branch(&record),
        file_leaves: planned.leaves.clone(),
        body: planned.body.clone(),
    };
    (record, result, write)
}

// ── the delta ────────────────────────────────────────────────────────────────

/// The delta's lists hold exactly what `d` says.
pub open spec fn delta_matches(r: ManifestDelta, d: DeltaView) -> bool {
    &&& branches_view(r.new_state.branches@) == d.branches
    &&& writes_view(r.branch_writes@) == d.writes
    &&& strs(r.branch_deletes@) == d.deletes
    &&& results_view(r.branches_created@) == d.created
    &&& results_view(r.branches_updated@) == d.updated
}

/// The new state keeps the tree's name, creation time and leaves, and
/// records the run as the last compile.
pub open spec fn state_carried(r: TreeState, current: TreeState, ts: Timestamp) -> bool {
    &&& r.tree.name@ == current.tree.name@
    &&& r.tree.created_at == current.tree.created_at
    &&& r.tree.last_compiled_at == Some(ts)
    &&& leaves_view(r.leaves@) == leaves_view(current.leaves@)
}

/// A copy of a leaf record.
pub fn clone_leaf(l: &Leaf) -> (r: Leaf)
    ensures
        r@ == l@,
{
    Leaf {
        slug: l.slug.clone(),
        file: l.file.clone(),
        title: crate::text::clone_opt_string(&l.title),
        url: l.url.clone(),
        collected_at: l.collected_at,
        summary: crate::text::clone_opt_string(&l.summary),
    }
}

fn clone_leaves(v: &Vec<Leaf>) -> (r: Vec<Leaf>)
    ensures
        leaves_view(r@) == leaves_view(v@),
{
    let mut out: Vec<Leaf> = Vec::new();
    let mut i: usize = 0;
    while i < v.len()
        invariant
            i <= v.len(),
            leaves_view(out@) == leaves_view(v@).take(i as int),
        decreases v.len() - i,
    {
        let l = clone_leaf(&v[i]);
        let ghost before = out@;
        out.push(l);
        assert(leaves_view(out@) =~= leaves_view(before).push(v@[i as int]@));
        assert(leaves_view(v@).take(i + 1) =~= leaves_view(v@).take(i as int).push(v@[i as int]@));
        i += 1;
    }
    assert(leaves_view(v@).take(v.len() as int) =~= leaves_view(v@));
    out
}

fn finalize_state(current: &TreeState, ts: Timestamp, branches: Vec<Branch>) -> (r: TreeState)
    ensures
        state_carried(r, *current, ts),
        branches_view(r.branches@) == branches_view(branches@),
{
    TreeState {
        tree: TreeMetadata {
            name: current.tree.name.clone(),
            created_at: current.tree.created_at,
            last_compiled_at: Some(ts),
        },
        leaves: clone_leaves(&current.leaves),
        branches,
    }
}

fn push_branch(v: &mut Vec<Branch>, b: Branch)
    ensures
        branches_view(final(v)@) == branches_view(old(v)@).push(b@),
{
    let ghost before = v@;
    v.push(b);
    assert(branches_view(v@) =~= branches_view(before).push(b@));
}

fn push_write(v: &mut Vec<PlannedBranchWrite>, w: PlannedBranchWrite)
    ensures
        writes_view(final(v)@) == writes_view(old(v)@).push(w@),
{
    let ghost before = v@;
    v.push(w);
    assert(writes_view(v@) =~= writes_view(before).push(w@));
}

fn push_result(v: &mut Vec<BranchResult>, r: BranchResult)
    ensures
        results_view(final(v)@) == results_view(old(v)@).push(result_view(r)),
{
    let ghost before = v@;
    v.push(r);
    assert(results_view(v@) =~= results_view(before).push(result_view(r)));
}

fn build_full_delta(current: &TreeState, plan: &CompilePlan, ts: Timestamp) -> (r: ManifestDelta)
    ensures
        delta_matches(r, full_fold(planned_view(plan.branches@), branches_view(current.branches@), planned_view(plan.branches@), ts.unix_millis as int)),
        state_carried(r.new_state, *current, ts),
{
    let ghost cv = branches_view(current.branches@);
    let ghost pv = planned_view(plan.branches@);
    let ghost t = ts.unix_millis as int;
    let mut deletes: Vec<String> = Vec::new();
    let mut i: usize = 0;
    while i < current.branches.len()
        invariant
            i <= current.branches.len(),
            cv == branches_view(current.branches@),
            pv == planned_view(plan.branches@),
            strs(deletes@) == full_deletes(cv.take(i as int), pv),
        decreases current.branches.len() - i,
    {
        assert(cv.take(i + 1).drop_last() =~= cv.take(i as int));
        if last_planned_with_slug(&plan.branches, current.branches[i].slug.as_str()).is_none() {
            crate::text::push_string(&mut deletes, current.branches[i].file.clone());
        }
        i += 1;
    }
    assert(cv.take(current.branches.len() as int) =~= cv);
    let mut branches: Vec<Branch> = Vec::new();
    let mut writes: Vec<PlannedBranchWrite> = Vec::new();
    let mut created: Vec<BranchResult> = Vec::new();
    let mut updated: Vec<BranchResult> = Vec::new();
    let mut j: usize = 0;
    while j < plan.branches.len()
        invariant
            j <= plan.branches.len(),
            cv == branches_view(current.branches@),
            pv == planned_view(plan.branches@),
            t == ts.unix_millis as int,
            branches_view(branches@) == full_fold(pv.take(j as int), cv, pv, t).branches,
            writes_view(writes@) == full_fold(pv.take(j as int), cv, pv, t).writes,
            strs(deletes@) == full_fold(pv.take(j as int), cv, pv, t).deletes,
            results_view(created@) == full_fold(pv.take(j as int), cv, pv, t).created,
            results_view(updated@) == full_fold(pv.take(j as int), cv, pv, t).updated,
        decreases plan.branches.len() - j,
    {
        assert(pv.take(j + 1).drop_last() =~= pv.take(j as int));
        assert(pv.take(j + 1).last() == plan.branches@[j as int]@);
        let planned = &plan.branches[j];
        let found = first_branch_with_slug(&current.branches, planned.slug.as_str());
        let existing: Option<&Branch> = match found {
            Some(k) => Some(&current.branches[k]),
            None => None,
        };
        let (record, result, write) = build_branch_artifacts(planned, existing, ts);
        if found.is_some() {
            push_result(&mut updated, result);
        } else {
            push_result(&mut created, result);
        }
        push_write(&mut writes, write);
        push_branch(&mut branches, record);
        j += 1;
    }
    assert(pv.take(plan.branches.len() as int) =~= pv);
    let new_state = finalize_state(current, ts, branches);
    ManifestDelta {
        new_state,
        branch_writes: writes,
        branch_deletes: deletes,
        branches_created: created,
        branches_updated: updated,
    }
}

fn build_incremental_delta(current: &TreeState, plan: &CompilePlan, ts: Timestamp) -> (r: ManifestDelta)
    ensures
        delta_matches(r, inc_new(planned_view(plan.branches@), branches_view(current.branches@), ts.unix_millis as int,
            inc_existing(branches_view(current.branches@), planned_view(plan.branches@), ts.unix_millis as int))),
        state_carried(r.new_state, *current, ts),
{
    let ghost cv = branches_view(current.branches@);
    let ghost pv = planned_view(plan.branches@);
    let ghost t = ts.unix_millis as int;
    let mut branches: Vec<Branch> = Vec::new();
    let mut writes: Vec<PlannedBranchWrite> = Vec::new();
    let deletes: Vec<String> = Vec::new();
    let mut created: Vec<BranchResult> = Vec::new();
    let mut updated: Vec<BranchResult> = Vec::new();
    let mut i: usize = 0;
    while i < current.branches.len()
        invariant
            i <= current.branches.len(),
            cv == branches_view(current.branches@),
            pv == planned_view(plan.branches@),
            t == ts.unix_millis as int,
            branches_view(branches@) == inc_existing(cv.take(i as int), pv, t).branches,
            writes_view(writes@) == inc_existing(cv.take(i as int), pv, t).writes,
            strs(deletes@) == inc_existing(cv.take(i as int), pv, t).deletes,
            results_view(created@) == inc_existing(cv.take(i as int), pv, t).created,
            results_view(updated@) == inc_existing(cv.take(i as int), pv, t).updated,
        decreases current.branches.len() - i,
    {
        assert(cv.take(i + 1).drop_last() =~= cv.take(i as int));
        assert(cv.take(i + 1).last() == current.branches@[i as int]@);
        let b = &current.branches[i];
        match last_planned_with_slug(&plan.branches, b.slug.as_str()) {
            Some(k) => {
                let (record, result, write) = build_branch_artifacts(&plan.branches[k], Some(b), ts);
                push_result(&mut updated, result);
                push_write(&mut writes, write);
                push_branch(&mut branches, record);
            },
            None => {
                push_branch(&mut branches, clone_branch(b));
            },
        }
        i += 1;
    }
    assert(cv.take(current.branches.len() as int) =~= cv);
    let ghost base = inc_existing(cv, pv, t);
    let mut j: usize = 0;
    while j < plan.branches.len()
        invariant
            j <= plan.branches.len(),
            cv == branches_view(current.branches@),
            pv == planned_view(plan.branches@),
            t == ts.unix_millis as int,
            base == inc_existing(cv, pv, t),
            branches_view(branches@) == inc_new(pv.take(j as int), cv, t, base).branches,
            writes_view(writes@) == inc_new(pv.take(j as int), cv, t, base).writes,
            strs(deletes@) == inc_new(pv.take(j as int), cv, t, base).deletes,
            results_view(created@) == inc_new(pv.take(j as int), cv, t, base).created,
            results_view(updated@) == inc_new(pv.take(j as int), cv, t, base).updated,
        decreases plan.branches.len() - j,
    {
        assert(pv.take(j + 1).drop_last() =~= pv.take(j as int));
        assert(pv.take(j + 1).last() == plan.branches@[j as int]@);
        let planned = &plan.branches[j];
        if first_branch_with_slug(&current.branches, planned.slug.as_str()).is_none() {
            let (record, result, write) = build_branch_artifacts(planned, None, ts);
            push_result(&mut created, result);
            push_write(&mut writes, write);
            push_branch(&mut branches, record);
        }
        j += 1;
    }
    assert(pv.take(plan.branches.len() as int) =~= pv);
    let new_state = finalize_state(current, ts, branches);
    ManifestDelta {
        new_state,
        branch_writes: writes,
        branch_deletes: deletes,
        branches_created: created,
        branches_updated: updated,
    }
}

/// What a settled plan changes. Full mode replaces the branch graph with
/// the plan's branches and deletes the files of branches the plan drops;
/// Incremental mode updates the branches the plan names, keeps the others,
/// appends the new ones and deletes nothing. Either way the tree's name,
/// creation time and leaves are kept and the run becomes the last compile.
pub fn build_manifest_delta(current: &TreeState, plan: &CompilePlan, run_mode: CompileRunMode, run_timestamp: Timestamp) -> (r: ManifestDelta)
    ensures
        delta_matches(r, delta_spec(branches_view(current.branches@), planned_view(plan.branches@), run_mode, run_timestamp.unix_millis as int)),
        state_carried(r.new_state, *current, run_timestamp),
{
    match run_mode {
        CompileRunMode::Full => build_full_delta(current, plan, run_timestamp),
        CompileRunMode::Incremental => build_incremental_delta(current, plan, run_timestamp),
    }
}

// ── laws ─────────────────────────────────────────────────────────────────────

proof fn lemma_planned_with_slug(ps: Seq<PlannedView>, slug: Seq<char>)
    ensures
        planned_with_slug(ps, slug) matches Some(p) ==> p.slug == slug,
        planned_with_slug(ps, slug) is None <==> forall|i: int| 0 <= i < ps.len() ==> ps[i].slug != slug,
    decreases ps.len(),
{
    if ps.len() > 0 {
        lemma_planned_with_slug(ps.drop_last(), slug);
        if ps.last().slug != slug {
            assert forall|i: int| 0 <= i < ps.len() && (forall|k: int| 0 <= k < ps.len() - 1 ==> ps.drop_last()[k].slug != slug) implies ps[i].slug != slug by {
                if i < ps.len() - 1 {
                    assert(ps.drop_last()[i] == ps[i]);
                }
            }
            assert((forall|i: int| 0 <= i < ps.len() ==> ps[i].slug != slug) ==> (forall|k: int| 0 <= k < ps.len() - 1 ==> ps.drop_last()[k].slug != slug)) by {
                if forall|i: int| 0 <= i < ps.len() ==> ps[i].slug != slug {
                    assert forall|k: int| 0 <= k < ps.len() - 1 implies ps.drop_last()[k].slug != slug by {
                        assert(ps.drop_last()[k] == ps[k]);
                    }
                }
            }
        }
    }
}

proof fn lemma_inc_existing(cs: Seq<BranchView>, planned: Seq<PlannedView>, ts: int)
    ensures
        inc_existing(cs, planned, ts).branches.len() == cs.len(),
        inc_existing(cs, planned, ts).deletes.len() == 0,
        inc_existing(cs, planned, ts).created.len() == 0,
        inc_existing(cs, planned, ts).writes.len() == inc_existing(cs, planned, ts).updated.len(),
        forall|i: int| 0 <= i < cs.len() ==> {
            let b = #[trigger] inc_existing(cs, planned, ts).branches[i];
            &&& b.slug == cs[i].slug
            &&& b.file == cs[i].file
            &&& b.created_at == cs[i].created_at
        },
    decreases cs.len(),
{
    if cs.len() > 0 {
        lemma_inc_existing(cs.drop_last(), planned, ts);
        lemma_planned_with_slug(planned, cs.last().slug);
        let d = inc_existing(cs, planned, ts);
        let acc = inc_existing(cs.drop_last(), planned, ts);
        assert forall|i: int| 0 <= i < cs.len() implies {
            let b = #[trigger] d.branches[i];
            &&& b.slug == cs[i].slug
            &&& b.file == cs[i].file
            &&& b.created_at == cs[i].created_at
        } by {
            if i < cs.len() - 1 {
                assert(d.branches[i] == acc.branches[i]);
                assert(cs.drop_last()[i] == cs[i]);
            }
        }
    }
}

proof fn lemma_inc_new(ps: Seq<PlannedView>, current: Seq<BranchView>, ts: int, base: DeltaView)
    ensures
        inc_new(ps, current, ts, base).branches.len() >= base.branches.len(),
        inc_new(ps, current, ts, base).branches.take(base.branches.len() as int) == base.branches,
        inc_new(ps, current, ts, base).deletes == base.deletes,
        inc_new(ps, current, ts, base).updated == base.updated,
        inc_new(ps, current, ts, base).writes.len() - base.writes.len() == inc_new(ps, current, ts, base).created.len()
            - base.created.len(),
    decreases ps.len(),
{
    if ps.len() > 0 {
        lemma_inc_new(ps.drop_last(), current, ts, base);
        let acc = inc_new(ps.drop_last(), current, ts, base);
        let d = inc_new(ps, current, ts, base);
        if branch_with_slug(current, ps.last().slug) is None {
            assert(d.branches.take(base.branches.len() as int) =~= acc.branches.take(base.branches.len() as int));
        }
    }
}

/// An incremental compile deletes no branch file, and every branch the
/// tree had stays in its place with its slug, its file and its creation
/// time; each branch file written is reported as created or updated.
pub proof fn lemma_incremental_delta_keeps_branches(current: Seq<BranchView>, planned: Seq<PlannedView>, ts: int)
    ensures
        delta_spec(current, planned, CompileRunMode::Incremental, ts).deletes.len() == 0,
        delta_spec(current, planned, CompileRunMode::Incremental, ts).branches.len() >= current.len(),
        forall|i: int| 0 <= i < current.len() ==> {
            let b = #[trigger] delta_spec(current, planned, CompileRunMode::Incremental, ts).branches[i];
            &&& b.slug == current[i].slug
            &&& b.file == current[i].file
            &&& b.created_at == current[i].created_at
        },
        delta_spec(current, planned, CompileRunMode::Incremental, ts).writes.len() == delta_spec(
            current,
            planned,
            CompileRunMode::Incremental,
            ts,
        ).created.len() + delta_spec(current, planned, CompileRunMode::Incremental, ts).updated.len(),
{
    let base = inc_existing(current, planned, ts);
    lemma_inc_existing(current, planned, ts);
    lemma_inc_new(planned, current, ts, base);
    let d = inc_new(planned, current, ts, base);
    assert forall|i: int| 0 <= i < current.len() implies {
        let b = #[trigger] d.branches[i];
        &&& b.slug == current[i].slug
        &&& b.file == current[i].file
        &&& b.created_at == current[i].created_at
    } by {
        assert(d.branches.take(base.branches.len() as int)[i] == d.branches[i]);
        assert(base.branches[i] == d.branches[i]);
    }
}

/// `f` is the file of a current branch whose slug no planned branch has.
pub open spec fn unplanned_file(current: Seq<BranchView>, planned: Seq<PlannedView>, f: Seq<char>) -> bool {
    exists|j: int| 0 <= j < current.len() && current[j].file == f && planned_with_slug(planned, current[j].slug) is None
}

/// `f` is the file of a current branch whose slug no planned branch names.
pub open spec fn dropped_file(current: Seq<BranchView>, planned: Seq<PlannedView>, f: Seq<char>) -> bool {
    exists|j: int|
        0 <= j < current.len() && current[j].file == f && forall|i: int| 0 <= i < planned.len() ==> planned[i].slug != current[j].slug
}

proof fn lemma_full_deletes(current: Seq<BranchView>, planned: Seq<PlannedView>)
    ensures
        forall|k: int| 0 <= k < full_deletes(current, planned).len() ==> #[trigger] unplanned_file(
            current,
            planned,
            full_deletes(current, planned)[k],
        ),
        forall|j: int| 0 <= j < current.len() && #[trigger] planned_with_slug(planned, current[j].slug) is None
            ==> full_deletes(current, planned).contains(current[j].file),
    decreases current.len(),
{
    if current.len() > 0 {
        let prev = full_deletes(current.drop_last(), planned);
        let d = full_deletes(current, planned);
        lemma_full_deletes(current.drop_last(), planned);
        assert forall|k: int| 0 <= k < d.len() implies #[trigger] unplanned_file(current, planned, d[k]) by {
            if k < prev.len() {
                assert(d[k] == prev[k]);
                assert(unplanned_file(current.drop_last(), planned, prev[k]));
                let j = choose|j: int| 0 <= j < current.drop_last().len() && current.drop_last()[j].file == prev[k]
                    && planned_with_slug(planned, current.drop_last()[j].slug) is None;
                assert(current.drop_last()[j] == current[j]);
            } else {
                assert(current[current.len() - 1] == current.last());
            }
        }
        assert forall|j: int| 0 <= j < current.len() && #[trigger] planned_with_slug(planned, current[j].slug) is None
            implies d.contains(current[j].file) by {
            if j < current.len() - 1 {
                assert(current.drop_last()[j] == current[j]);
                assert(planned_with_slug(planned, current.drop_last()[j].slug) is None);
                let k = choose|k: int| 0 <= k < prev.len() && prev[k] == current[j].file;
                assert(d[k] == prev[k]);
            } else {
                assert(d[d.len() - 1] == current.last().file);
            }
        }
    }
}

proof fn lemma_full_fold(ps: Seq<PlannedView>, current: Seq<BranchView>, planned: Seq<PlannedView>, ts: int)
    ensures
        full_fold(ps, current, planned, ts).branches.len() == ps.len(),
        full_fold(ps, current, planned, ts).writes.len() == ps.len(),
        full_fold(ps, current, planned, ts).created.len() + full_fold(ps, current, planned, ts).updated.len() == ps.len(),
        full_fold(ps, current, planned, ts).deletes == full_deletes(current, planned),
        forall|i: int| 0 <= i < ps.len() ==> #[trigger] full_fold(ps, current, planned, ts).branches[i] == branch_record(
            ps[i],
            branch_with_slug(current, ps[i].slug),
            ts,
        ),
    decreases ps.len(),
{
    if ps.len() > 0 {
        lemma_full_fold(ps.drop_last(), current, planned, ts);
        let acc = full_fold(ps.drop_last(), current, planned, ts);
        let d = full_fold(ps, current, planned, ts);
        assert forall|i: int| 0 <= i < ps.len() implies #[trigger] d.branches[i] == branch_record(
            ps[i],
            branch_with_slug(current, ps[i].slug),
            ts,
        ) by {
            if i < ps.len() - 1 {
                assert(d.branches[i] == acc.branches[i]);
                assert(ps.drop_last()[i] == ps[i]);
            }
        }
    }
}

/// A full compile makes the plan's branches the whole branch graph, in plan
/// order: each is updated now and cites its planned leaves, and one that
/// already existed keeps its file and creation time. It deletes exactly the
/// files of the branches whose slugs the plan does not name, and reports
/// each planned branch as created or updated.
pub proof fn lemma_full_delta_follows_plan(current: Seq<BranchView>, planned: Seq<PlannedView>, ts: int)
    ensures
        delta_spec(current, planned, CompileRunMode::Full, ts).branches.len() == planned.len(),
        forall|i: int| 0 <= i < planned.len() ==> {
            let b = #[trigger] delta_spec(current, planned, CompileRunMode::Full, ts).branches[i];
            &&& b.slug == planned[i].slug
            &&& b.title == planned[i].title
            &&& b.updated_at == ts
            &&& b.leaves == leaf_stems(planned[i].leaves)
            &&& (branch_with_slug(current, planned[i].slug) matches Some(old_b) ==> b.file == old_b.file
                && b.created_at == old_b.created_at)
            &&& (branch_with_slug(current, planned[i].slug) is None ==> b.created_at == ts)
        },
        forall|k: int| 0 <= k < delta_spec(current, planned, CompileRunMode::Full, ts).deletes.len() ==> #[trigger] dropped_file(
            current,
            planned,
            delta_spec(current, planned, CompileRunMode::Full, ts).deletes[k],
        ),
        forall|j: int| 0 <= j < current.len() && (forall|i: int| 0 <= i < planned.len() ==> planned[i].slug != #[trigger] current[j].slug)
            ==> delta_spec(current, planned, CompileRunMode::Full, ts).deletes.contains(current[j].file),
        delta_spec(current, planned, CompileRunMode::Full, ts).created.len() + delta_spec(current, planned, CompileRunMode::Full, ts).updated.len()
            == planned.len(),
{
    lemma_full_fold(planned, current, planned, ts);
    lemma_full_deletes(current, planned);
    let d = delta_spec(current, planned, CompileRunMode::Full, ts);
    assert forall|k: int| 0 <= k < d.deletes.len() implies #[trigger] dropped_file(current, planned, d.deletes[k]) by {
        assert(unplanned_file(current, planned, full_deletes(current, planned)[k]));
        let j = choose|j: int| 0 <= j < current.len() && current[j].file == full_deletes(current, planned)[k]
            && planned_with_slug(planned, current[j].slug) is None;
        lemma_planned_with_slug(planned, current[j].slug);
    }
    assert forall|j: int| 0 <= j < current.len() && (forall|i: int| 0 <= i < planned.len() ==> planned[i].slug != #[trigger] current[j].slug)
        implies d.deletes.contains(current[j].file) by {
        lemma_planned_with_slug(planned, current[j].slug);
    }
}

} // verus!
