//! Stale-branch repair before a compile: leaves whose files are gone are
//! dropped from the branches that cite them, branches left with fewer than
//! two leaves are removed, and the records of deleted leaves are pruned.
//!
//! Reading the leaf and branch files is the caller's part; it hands in what
//! each read gave.
use vstd::prelude::*;

use super::CompileError;
use super::plan::{new_leaf_slugs_spec, select_new_leaf_slugs};
use super::render::plural;
use crate::text::{cat3, decimal, join, join_strings, owned, push_str, push_string, strings_contain, strs, usize_to_string};
use crate::tree::{branches_view, leaves_view, Branch, BranchView, Leaf, LeafView, TreeMetadata, TreeState};
use crate::compile::delta::{clone_branch, clone_leaf};

verus! {

/// The fewest leaves a branch may keep.
pub const MIN_BRANCH_LEAVES: usize = 2;

/// What reading a leaf's file gave.
#[derive(Debug)]
pub enum LeafFileRead {
    /// The file was read and its frontmatter parsed.
    Parsed,
    /// The file was read but its frontmatter did not parse.
    Malformed,
    /// There is no file.
    Missing,
    /// The file could not be read, for the reason given.
    Unreadable(String),
}

/// Which leaves' files are gone and which are to be skipped.
#[derive(Debug, PartialEq, Eq)]
pub struct LeafFileClassification {
    pub deleted_leaf_slugs: Vec<String>,
    pub skipped_leaf_slugs: Vec<String>,
}

/// A branch removed because too few of its leaves are left.
#[derive(Debug, Clone, PartialEq, Eq)]
pub struct RemovedBranchResult {
    pub slug: String,
    pub title: String,
    pub remaining_leaf_count: usize,
    pub reason: String,
}

/// The deleted leaves, their filenames, and those no branch cites.
#[derive(Debug)]
pub struct DeletionClassification {
    pub deleted_slugs: Vec<String>,
    pub deleted_filenames: Vec<String>,
    pub orphan_slugs: Vec<String>,
}

/// The branches after repair, the branch files to delete, the branches
/// repaired (slug and file) and the branches removed.
#[derive(Debug)]
pub struct BranchRepairOutcome {
    pub repaired_branches: Vec<Branch>,
    pub branch_deletes: Vec<String>,
    pub repaired_branch_slugs: Vec<String>,
    pub repaired_branch_files: Vec<String>,
    pub branches_removed: Vec<RemovedBranchResult>,
}

/// What a repair pass did, for the journal and the user.
#[derive(Debug, Clone)]
pub struct RepairReport {
    pub notifications: Vec<String>,
    pub orphan_leaf_slugs: Vec<String>,
    pub repaired_branch_slugs: Vec<String>,
    pub removed_branches: Vec<RemovedBranchResult>,
}

impl RepairReport {
    /// A report of a pass that changed nothing.
    pub fn empty() -> (r: Self)
        ensures
            r.notifications@.len() == 0,
            r.orphan_leaf_slugs@.len() == 0,
            r.repaired_branch_slugs@.len() == 0,
            r.removed_branches@.len() == 0,
    {
        RepairReport {
            notifications: Vec::new(),
            orphan_leaf_slugs: Vec::new(),
            repaired_branch_slugs: Vec::new(),
            removed_branches: Vec::new(),
        }
    }

    /// True when repair pruned or rewrote nothing.
    pub fn is_empty(&self) -> (r: bool)
        ensures
            r == (self.orphan_leaf_slugs@.len() == 0 && self.repaired_branch_slugs@.len() == 0
                && self.removed_branches@.len() == 0),
    {
        self.orphan_leaf_slugs.len() == 0 && self.repaired_branch_slugs.len() == 0
            && self.removed_branches.len() == 0
    }
}

// ── leaf files ───────────────────────────────────────────────────────────────

pub open spec fn malformed_message(file: Seq<char>) -> Seq<char> {
    "newly selected leaf '"@ + file + "' is malformed; no files were changed"@
}

pub open spec fn unreadable_message(file: Seq<char>, reason: Seq<char>) -> Seq<char> {
    "newly selected leaf '"@ + file + "' is unreadable: "@ + reason + "; no files were changed"@
}

/// Leaf by leaf: a missing file marks the leaf deleted; an unreadable or
/// malformed file skips an old leaf and stops the compile for a new one.
pub open spec fn classify_spec(leaves: Seq<LeafView>, reads: Seq<LeafFileRead>, new_slugs: Seq<Seq<char>>) -> Result<
    (Seq<Seq<char>>, Seq<Seq<char>>),
    Seq<char>,
>
    decreases leaves.len(),
{
    if leaves.len() == 0 || reads.len() == 0 {
        Ok((seq![], seq![]))
    } else {
        match classify_spec(leaves.drop_last(), reads.drop_last(), new_slugs) {
            Err(e) => Err(e),
            Ok((deleted, skipped)) => {
                let l = leaves.last();
                let is_new = new_slugs.contains(l.slug);
                match reads.last() {
                    LeafFileRead::Parsed => Ok((deleted, skipped)),
                    LeafFileRead::Malformed => if is_new {
                        Err(malformed_message(l.file))
                    } else {
                        Ok((deleted, skipped.push(l.slug)))
                    },
                    LeafFileRead::Missing => Ok((deleted.push(l.slug), skipped)),
                    LeafFileRead::Unreadable(e) => if is_new {
                        Err(unreadable_message(l.file, e@))
                    } else {
                        Ok((deleted, skipped.push(l.slug)))
                    },
                }
            },
        }
    }
}

/// Sorts the leaves by what reading their files gave; `reads[i]` is the
/// read of `state.leaves[i]`.
pub fn classify_leaf_files(state: &TreeState, new_leaf_slugs: &Vec<String>, reads: &Vec<LeafFileRead>) -> (r: Result<
    LeafFileClassification,
    CompileError,
>)
    requires
        reads.len() == state.leaves.len(),
    ensures
        match classify_spec(leaves_view(state.leaves@), reads@, strs(new_leaf_slugs@)) {
            Ok((d, s)) => r matches Ok(c) && strs(c.deleted_leaf_slugs@) == d && strs(c.skipped_leaf_slugs@) == s,
            Err(m) => r matches Err(CompileError::Io(t)) && t@ == m,
        },
{
    let ghost lv = leaves_view(state.leaves@);
    let ghost ns = strs(new_leaf_slugs@);
    let mut deleted: Vec<String> = Vec::new();
    let mut skipped: Vec<String> = Vec::new();
    assert(strs(deleted@) =~= seq![]);
    assert(strs(skipped@) =~= seq![]);
    let mut i: usize = 0;
    while i < state.leaves.len()
        invariant
            i <= state.leaves.len(),
            reads.len() == state.leaves.len(),
            lv == leaves_view(state.leaves@),
            ns == strs(new_leaf_slugs@),
            classify_spec(lv.take(i as int), reads@.take(i as int), ns) == Ok::<
                (Seq<Seq<char>>, Seq<Seq<char>>),
                Seq<char>,
            >((strs(deleted@), strs(skipped@))),
        decreases state.leaves.len() - i,
    {
        assert(lv.take(i + 1).drop_last() =~= lv.take(i as int));
        assert(reads@.take(i + 1).drop_last() =~= reads@.take(i as int));
        assert(lv.take(i + 1).last() == state.leaves@[i as int]@);
        assert(reads@.take(i + 1).last() == reads@[i as int]);
        let leaf = &state.leaves[i];
        let is_new = strings_contain(new_leaf_slugs, leaf.slug.as_str());
        match &reads[i] {
            LeafFileRead::Parsed => {},
            LeafFileRead::Malformed => {
                if is_new {
                    proof {
                        lemma_classify_err_stays(lv, reads@, ns, i as int + 1);
                    }
                    return Err(
                        CompileError::Io(
                            cat3("newly selected leaf '", leaf.file.as_str(), "' is malformed; no files were changed"),
                        ),
                    );
                }
                push_string(&mut skipped, leaf.slug.clone());
            },
            LeafFileRead::Missing => {
                push_string(&mut deleted, leaf.slug.clone());
            },
            LeafFileRead::Unreadable(e) => {
                if is_new {
                    proof {
                        lemma_classify_err_stays(lv, reads@, ns, i as int + 1);
                    }
                    let mut m = cat3("newly selected leaf '", leaf.file.as_str(), "' is unreadable: ");
                    push_str(&mut m, e.as_str());
                    push_str(&mut m, "; no files were changed");
                    return Err(CompileError::Io(m));
                }
                push_string(&mut skipped, leaf.slug.clone());
            },
        }
        i += 1;
    }
    assert(lv.take(state.leaves.len() as int) =~= lv);
    assert(reads@.take(state.leaves.len() as int) =~= reads@);
    Ok(LeafFileClassification { deleted_leaf_slugs: deleted, skipped_leaf_slugs: skipped })
}

proof fn lemma_classify_err_stays(lv: Seq<LeafView>, reads: Seq<LeafFileRead>, ns: Seq<Seq<char>>, k: int)
    requires
        0 <= k <= lv.len(),
        lv.len() == reads.len(),
        classify_spec(lv.take(k), reads.take(k), ns) is Err,
    ensures
        classify_spec(lv, reads, ns) == classify_spec(lv.take(k), reads.take(k), ns),
    decreases lv.len() - k,
{
    if k == lv.len() {
        assert(lv.take(k) =~= lv);
        assert(reads.take(k) =~= reads);
    } else {
        assert(lv.drop_last().take(k) =~= lv.take(k));
        assert(reads.drop_last().take(k) =~= reads.take(k));
        lemma_classify_err_stays(lv.drop_last(), reads.drop_last(), ns, k);
    }
}

// ── deletions ────────────────────────────────────────────────────────────────

/// The items of `xs` that are not in `set`, in order.
pub open spec fn filter_not_in(xs: Seq<Seq<char>>, set: Seq<Seq<char>>) -> Seq<Seq<char>>
    decreases xs.len(),
{
    if xs.len() == 0 {
        seq![]
    } else {
        let prev = filter_not_in(xs.drop_last(), set);
        if set.contains(xs.last()) {
            prev
        } else {
            prev.push(xs.last())
        }
    }
}

/// Some branch cites the leaf slug `s`.
pub open spec fn referenced(bs: Seq<BranchView>, s: Seq<char>) -> bool {
    exists|i: int| 0 <= i < bs.len() && (#[trigger] bs[i]).leaves.contains(s)
}

/// The slugs of `xs` that no branch cites, in order.
pub open spec fn unreferenced(xs: Seq<Seq<char>>, bs: Seq<BranchView>) -> Seq<Seq<char>>
    decreases xs.len(),
{
    if xs.len() == 0 {
        seq![]
    } else {
        let prev = unreferenced(xs.drop_last(), bs);
        if referenced(bs, xs.last()) {
            prev
        } else {
            prev.push(xs.last())
        }
    }
}

/// The files of the leaves whose slugs are deleted.
pub open spec fn deleted_files(leaves: Seq<LeafView>, deleted: Seq<Seq<char>>) -> Seq<Seq<char>>
    decreases leaves.len(),
{
    if leaves.len() == 0 {
        seq![]
    } else {
        let prev = deleted_files(leaves.drop_last(), deleted);
        if deleted.contains(leaves.last().slug) {
            prev.push(leaves.last().file)
        } else {
            prev
        }
    }
}

/// The leaves whose slugs are not deleted, in order.
pub open spec fn kept_leaves(leaves: Seq<LeafView>, deleted: Seq<Seq<char>>) -> Seq<LeafView>
    decreases leaves.len(),
{
    if leaves.len() == 0 {
        seq![]
    } else {
        let prev = kept_leaves(leaves.drop_last(), deleted);
        if deleted.contains(leaves.last().slug) {
            prev
        } else {
            prev.push(leaves.last())
        }
    }
}

/// The items of `xs` not in `set`.
pub fn filter_not_in_exec(xs: &Vec<String>, set: &Vec<String>) -> (r: Vec<String>)
    ensures
        strs(r@) == filter_not_in(strs(xs@), strs(set@)),
{
    let ghost xv = strs(xs@);
    let mut out: Vec<String> = Vec::new();
    let mut i: usize = 0;
    while i < xs.len()
        invariant
            i <= xs.len(),
            xv == strs(xs@),
            strs(out@) == filter_not_in(xv.take(i as int), strs(set@)),
        decreases xs.len() - i,
    {
        assert(xv.take(i + 1).drop_last() =~= xv.take(i as int));
        assert(xv.take(i + 1).last() == xs@[i as int]@);
        if !strings_contain(set, xs[i].as_str()) {
            push_string(&mut out, xs[i].clone());
        }
        i += 1;
    }
    assert(xv.take(xs.len() as int) =~= xv);
    out
}

/// Whether some branch cites the leaf slug.
pub fn referenced_by_any(bs: &Vec<Branch>, s: &str) -> (r: bool)
    ensures
        r == referenced(branches_view(bs@), s@),
{
    let ghost bv = branches_view(bs@);
    let mut i: usize = 0;
    while i < bs.len()
        invariant
            i <= bs.len(),
            bv == branches_view(bs@),
            forall|k: int| 0 <= k < i ==> !(#[trigger] bv[k]).leaves.contains(s@),
        decreases bs.len() - i,
    {
        if strings_contain(&bs[i].leaves, s) {
            assert(bv[i as int].leaves.contains(s@));
            return true;
        }
        i += 1;
    }
    false
}

/// The deleted leaves' filenames, and the deleted slugs no branch cites.
pub fn classify_deletions_of(state: &TreeState, deleted_slugs: Vec<String>) -> (r: DeletionClassification)
    ensures
        strs(r.deleted_slugs@) == strs(deleted_slugs@),
        strs(r.deleted_filenames@) == deleted_files(leaves_view(state.leaves@), strs(deleted_slugs@)),
        strs(r.orphan_slugs@) == unreferenced(strs(deleted_slugs@), branches_view(state.branches@)),
{
    let ghost lv = leaves_view(state.leaves@);
    let ghost dv = strs(deleted_slugs@);
    let mut files: Vec<String> = Vec::new();
    let mut i: usize = 0;
    while i < state.leaves.len()
        invariant
            i <= state.leaves.len(),
            lv == leaves_view(state.leaves@),
            dv == strs(deleted_slugs@),
            strs(files@) == deleted_files(lv.take(i as int), dv),
        decreases state.leaves.len() - i,
    {
        assert(lv.take(i + 1).drop_last() =~= lv.take(i as int));
        assert(lv.take(i + 1).last() == state.leaves@[i as int]@);
        if strings_contain(&deleted_slugs, state.leaves[i].slug.as_str()) {
            push_string(&mut files, state.leaves[i].file.clone());
        }
        i += 1;
    }
    assert(lv.take(state.leaves.len() as int) =~= lv);
    let mut orphans: Vec<String> = Vec::new();
    let mut j: usize = 0;
    while j < deleted_slugs.len()
        invariant
            j <= deleted_slugs.len(),
            dv == strs(deleted_slugs@),
            strs(orphans@) == unreferenced(dv.take(j as int), branches_view(state.branches@)),
        decreases deleted_slugs.len() - j,
    {
        assert(dv.take(j + 1).drop_last() =~= dv.take(j as int));
        assert(dv.take(j + 1).last() == deleted_slugs@[j as int]@);
        if !referenced_by_any(&state.branches, deleted_slugs[j].as_str()) {
            push_string(&mut orphans, deleted_slugs[j].clone());
        }
        j += 1;
    }
    assert(dv.take(deleted_slugs.len() as int) =~= dv);
    DeletionClassification { deleted_slugs, deleted_filenames: files, orphan_slugs: orphans }
}

/// Which leaves are deleted, from the reads of all leaf files; the leaves
/// collected since the last compile are the new ones.
pub fn classify_deletions(state: &TreeState, reads: &Vec<LeafFileRead>) -> (r: Result<DeletionClassification, CompileError>)
    requires
        reads.len() == state.leaves.len(),
    ensures
        match classify_spec(leaves_view(state.leaves@), reads@, new_leaf_slugs_spec(state.leaves@, state.tree.last_compiled_at)) {
            Ok((d, s)) => r matches Ok(c) && strs(c.deleted_slugs@) == d
                && strs(c.deleted_filenames@) == deleted_files(leaves_view(state.leaves@), d)
                && strs(c.orphan_slugs@) == unreferenced(d, branches_view(state.branches@)),
            Err(m) => r matches Err(CompileError::Io(t)) && t@ == m,
        },
{
    let new_slugs = select_new_leaf_slugs(state);
    match classify_leaf_files(state, &new_slugs, reads) {
        Ok(c) => Ok(classify_deletions_of(state, c.deleted_leaf_slugs)),
        Err(e) => Err(e),
    }
}

/// Whether a leaf filename survives in a repaired branch's frontmatter.
pub fn keeps_leaf_file(class: &DeletionClassification, filename: &str) -> (r: bool)
    ensures
        r == !strs(class.deleted_filenames@).contains(filename@),
{
    !strings_contain(&class.deleted_filenames, filename)
}

// ── branches ─────────────────────────────────────────────────────────────────

pub open spec fn stale_reason() -> Seq<char> {
    "stale_branch_below_minimum_leaves"@
}

pub open spec fn removed_view(r: RemovedBranchResult) -> (Seq<char>, Seq<char>, int, Seq<char>) {
    (r.slug@, r.title@, r.remaining_leaf_count as int, r.reason@)
}

pub open spec fn removed_views(v: Seq<RemovedBranchResult>) -> Seq<(Seq<char>, Seq<char>, int, Seq<char>)> {
    v.map_values(|r: RemovedBranchResult| removed_view(r))
}

/// A repair pass over branches, as plain values.
pub struct RepairView {
    pub kept: Seq<BranchView>,
    pub deletes: Seq<Seq<char>>,
    pub repaired_slugs: Seq<Seq<char>>,
    pub repaired_files: Seq<Seq<char>>,
    pub removed: Seq<(Seq<char>, Seq<char>, int, Seq<char>)>,
}

/// Each branch loses its deleted leaves; one left with fewer than two is
/// removed and its file deleted; one that lost some is reported repaired.
pub open spec fn repair_spec(bs: Seq<BranchView>, deleted: Seq<Seq<char>>) -> RepairView
    decreases bs.len(),
{
    if bs.len() == 0 {
        RepairView { kept: seq![], deletes: seq![], repaired_slugs: seq![], repaired_files: seq![], removed: seq![] }
    } else {
        let acc = repair_spec(bs.drop_last(), deleted);
        let b = bs.last();
        let rem = filter_not_in(b.leaves, deleted);
        if rem.len() < 2 {
            RepairView {
                deletes: acc.deletes.push(b.file),
                removed: acc.removed.push((b.slug, b.title, rem.len() as int, stale_reason())),
                ..acc
            }
        } else if rem.len() < b.leaves.len() {
            RepairView {
                kept: acc.kept.push(BranchView { leaves: rem, ..b }),
                repaired_slugs: acc.repaired_slugs.push(b.slug),
                repaired_files: acc.repaired_files.push(b.file),
                ..acc
            }
        } else {
            RepairView { kept: acc.kept.push(BranchView { leaves: rem, ..b }), ..acc }
        }
    }
}

pub open spec fn outcome_matches(o: BranchRepairOutcome, v: RepairView) -> bool {
    &&& branches_view(o.repaired_branches@) == v.kept
    &&& strs(o.branch_deletes@) == v.deletes
    &&& strs(o.repaired_branch_slugs@) == v.repaired_slugs
    &&& strs(o.repaired_branch_files@) == v.repaired_files
    &&& removed_views(o.branches_removed@) == v.removed
}

proof fn lemma_filter_not_in_len(xs: Seq<Seq<char>>, set: Seq<Seq<char>>)
    ensures
        filter_not_in(xs, set).len() <= xs.len(),
    decreases xs.len(),
{
    if xs.len() > 0 {
        lemma_filter_not_in_len(xs.drop_last(), set);
    }
}

/// Drops the deleted leaves from each branch and removes the branches left
/// with fewer than two. Rewriting the repaired branches' files is the
/// caller's part.
pub fn repair_branches(state: &TreeState, class: &DeletionClassification) -> (r: BranchRepairOutcome)
    ensures
        outcome_matches(r, repair_spec(branches_view(state.branches@), strs(class.deleted_slugs@))),
{
    let ghost bv = branches_view(state.branches@);
    let ghost dv = strs(class.deleted_slugs@);
    let mut kept: Vec<Branch> = Vec::new();
    let mut deletes: Vec<String> = Vec::new();
    let mut repaired_slugs: Vec<String> = Vec::new();
    let mut repaired_files: Vec<String> = Vec::new();
    let mut removed: Vec<RemovedBranchResult> = Vec::new();
    let mut i: usize = 0;
    while i < state.branches.len()
        invariant
            i <= state.branches.len(),
            bv == branches_view(state.branches@),
            dv == strs(class.deleted_slugs@),
            branches_view(kept@) == repair_spec(bv.take(i as int), dv).kept,
            strs(deletes@) == repair_spec(bv.take(i as int), dv).deletes,
            strs(repaired_slugs@) == repair_spec(bv.take(i as int), dv).repaired_slugs,
            strs(repaired_files@) == repair_spec(bv.take(i as int), dv).repaired_files,
            removed_views(removed@) == repair_spec(bv.take(i as int), dv).removed,
        decreases state.branches.len() - i,
    {
        assert(bv.take(i + 1).drop_last() =~= bv.take(i as int));
        assert(bv.take(i + 1).last() == state.branches@[i as int]@);
        let b = &state.branches[i];
        let remaining = filter_not_in_exec(&b.leaves, &class.deleted_slugs);
        proof {
            lemma_filter_not_in_len(strs(b.leaves@), dv);
        }
        if remaining.len() < MIN_BRANCH_LEAVES {
            push_string(&mut deletes, b.file.clone());
            let entry = RemovedBranchResult {
                slug: b.slug.clone(),
                title: b.title.clone(),
                remaining_leaf_count: remaining.len(),
                reason: owned("stale_branch_below_minimum_leaves"),
            };
            let ghost before = removed@;
            removed.push(entry);
            assert(removed_views(removed@) =~= removed_views(before).push(removed_view(entry)));
        } else {
            if remaining.len() < b.leaves.len() {
                push_string(&mut repaired_slugs, b.slug.clone());
                push_string(&mut repaired_files, b.file.clone());
            }
            let mut repaired = clone_branch(b);
            repaired.leaves = remaining;
            let ghost before = kept@;
            kept.push(repaired);
            assert(branches_view(kept@) =~= branches_view(before).push(repaired@));
        }
        i += 1;
    }
    assert(bv.take(state.branches.len() as int) =~= bv);
    BranchRepairOutcome {
        repaired_branches: kept,
        branch_deletes: deletes,
        repaired_branch_slugs: repaired_slugs,
        repaired_branch_files: repaired_files,
        branches_removed: removed,
    }
}

/// The repaired state: the same tree, the leaves not deleted, and the
/// repaired branches.
pub fn assemble_repaired_state(state: &TreeState, class: &DeletionClassification, outcome: &BranchRepairOutcome) -> (r: TreeState)
    ensures
        r.tree.name@ == state.tree.name@,
        r.tree.created_at == state.tree.created_at,
        r.tree.last_compiled_at == state.tree.last_compiled_at,
        leaves_view(r.leaves@) == kept_leaves(leaves_view(state.leaves@), strs(class.deleted_slugs@)),
        branches_view(r.branches@) == branches_view(outcome.repaired_branches@),
{
    let ghost lv = leaves_view(state.leaves@);
    let ghost dv = strs(class.deleted_slugs@);
    let mut leaves: Vec<Leaf> = Vec::new();
    let mut i: usize = 0;
    while i < state.leaves.len()
        invariant
            i <= state.leaves.len(),
            lv == leaves_view(state.leaves@),
            dv == strs(class.deleted_slugs@),
            leaves_view(leaves@) == kept_leaves(lv.take(i as int), dv),
        decreases state.leaves.len() - i,
    {
        assert(lv.take(i + 1).drop_last() =~= lv.take(i as int));
        assert(lv.take(i + 1).last() == state.leaves@[i as int]@);
        if !strings_contain(&class.deleted_slugs, state.leaves[i].slug.as_str()) {
            let l = clone_leaf(&state.leaves[i]);
            let ghost before = leaves@;
            leaves.push(l);
            assert(leaves_view(leaves@) =~= leaves_view(before).push(l@));
        }
        i += 1;
    }
    assert(lv.take(state.leaves.len() as int) =~= lv);
    let mut branches: Vec<Branch> = Vec::new();
    let mut j: usize = 0;
    while j < outcome.repaired_branches.len()
        invariant
            j <= outcome.repaired_branches.len(),
            branches_view(branches@) == branches_view(outcome.repaired_branches@).take(j as int),
        decreases outcome.repaired_branches.len() - j,
    {
        let b = clone_branch(&outcome.repaired_branches[j]);
        let ghost before = branches@;
        branches.push(b);
        assert(branches_view(branches@) =~= branches_view(before).push(b@));
        assert(branches_view(outcome.repaired_branches@).take(j + 1) =~= branches_view(outcome.repaired_branches@).take(
            j as int,
        ).push(outcome.repaired_branches@[j as int]@));
        j += 1;
    }
    assert(branches_view(outcome.repaired_branches@).take(outcome.repaired_branches.len() as int)
        =~= branches_view(outcome.repaired_branches@));
    TreeState {
        tree: TreeMetadata {
            name: state.tree.name.clone(),
            created_at: state.tree.created_at,
            last_compiled_at: state.tree.last_compiled_at,
        },
        leaves,
        branches,
    }
}

// ── notifications ────────────────────────────────────────────────────────────

pub open spec fn orphan_prune_text(n: nat) -> Seq<char> {
    "pruned "@ + decimal(n) + " orphan leaf record"@ + plural(n, ""@, "s"@) + " (file"@ + plural(n, ""@, "s"@)
        + " missing, not in any branch)"@
}

/// The notice of pruned orphan leaf records, when there are any.
pub fn orphan_prune_message(orphan_slugs: &Vec<String>) -> (r: Option<String>)
    ensures
        orphan_slugs@.len() == 0 ==> r is None,
        orphan_slugs@.len() > 0 ==> (r matches Some(m) && m@ == orphan_prune_text(orphan_slugs@.len())),
{
    let n = orphan_slugs.len();
    if n == 0 {
        return None;
    }
    let s: &str = if n == 1 { "" } else { "s" };
    let mut m = cat3("pruned ", usize_to_string(n).as_str(), " orphan leaf record");
    push_str(&mut m, s);
    push_str(&mut m, " (file");
    push_str(&mut m, s);
    push_str(&mut m, " missing, not in any branch)");
    Some(m)
}

pub open spec fn repaired_text(slugs: Seq<Seq<char>>) -> Seq<char> {
    "repaired "@ + decimal(slugs.len()) + " branch"@ + plural(slugs.len(), ""@, "es"@) + " with deleted leaves: "@ + join(
        slugs,
        ", "@,
    )
}

/// The notice of repaired branches, when there are any.
pub fn repaired_summary_message(slugs: &Vec<String>) -> (r: Option<String>)
    ensures
        slugs@.len() == 0 ==> r is None,
        slugs@.len() > 0 ==> (r matches Some(m) && m@ == repaired_text(strs(slugs@))),
{
    let n = slugs.len();
    if n == 0 {
        return None;
    }
    let mut m = cat3("repaired ", usize_to_string(n).as_str(), " branch");
    push_str(&mut m, if n == 1 { "" } else { "es" });
    push_str(&mut m, " with deleted leaves: ");
    push_str(&mut m, join_strings(slugs, ", ").as_str());
    Some(m)
}

pub open spec fn removed_slugs(v: Seq<RemovedBranchResult>) -> Seq<Seq<char>> {
    v.map_values(|r: RemovedBranchResult| r.slug@)
}

pub open spec fn removed_text(slugs: Seq<Seq<char>>) -> Seq<char> {
    "removed "@ + decimal(slugs.len()) + " stale branch"@ + plural(slugs.len(), ""@, "es"@) + " below threshold: "@ + join(
        slugs,
        ", "@,
    )
}

/// The notice of removed branches, when there are any.
pub fn removed_summary_message(removed: &Vec<RemovedBranchResult>) -> (r: Option<String>)
    ensures
        removed@.len() == 0 ==> r is None,
        removed@.len() > 0 ==> (r matches Some(m) && m@ == removed_text(removed_slugs(removed@))),
{
    let n = removed.len();
    if n == 0 {
        return None;
    }
    let mut names: Vec<String> = Vec::new();
    let mut i: usize = 0;
    while i < n
        invariant
            i <= n,
            n == removed.len(),
            strs(names@) == removed_slugs(removed@).take(i as int),
        decreases n - i,
    {
        push_string(&mut names, removed[i].slug.clone());
        assert(removed_slugs(removed@).take(i + 1) =~= removed_slugs(removed@).take(i as int).push(removed@[i as int].slug@));
        i += 1;
    }
    assert(removed_slugs(removed@).take(n as int) =~= removed_slugs(removed@));
    let mut m = cat3("removed ", usize_to_string(n).as_str(), " stale branch");
    push_str(&mut m, if n == 1 { "" } else { "es" });
    push_str(&mut m, " below threshold: ");
    push_str(&mut m, join_strings(&names, ", ").as_str());
    Some(m)
}

pub open spec fn frontmatter_note_text(slug: Seq<char>) -> Seq<char> {
    "branch '"@ + slug
        + "' frontmatter repaired (body may reference removed leaves; recompile with --all to resynthesize)"@
}

/// The notice that a repaired branch's file was rewritten.
pub fn frontmatter_repaired_note(slug: &str) -> (r: String)
    ensures
        r@ == frontmatter_note_text(slug@),
{
    cat3(
        "branch '",
        slug,
        "' frontmatter repaired (body may reference removed leaves; recompile with --all to resynthesize)",
    )
}

pub open spec fn opt_list(o: Option<Seq<char>>) -> Seq<Seq<char>> {
    match o {
        Some(m) => seq![m],
        None => seq![],
    }
}

pub open spec fn repair_notifications_spec(
    orphans: Seq<Seq<char>>,
    notes: Seq<Seq<char>>,
    repaired: Seq<Seq<char>>,
    removed: Seq<Seq<char>>,
) -> Seq<Seq<char>> {
    opt_list(if orphans.len() > 0 { Some(orphan_prune_text(orphans.len())) } else { None }) + notes + opt_list(
        if repaired.len() > 0 { Some(repaired_text(repaired)) } else { None },
    ) + opt_list(if removed.len() > 0 { Some(removed_text(removed)) } else { None })
}

fn push_opt(v: &mut Vec<String>, o: Option<String>)
    ensures
        strs(final(v)@) == strs(old(v)@) + opt_list(match o { Some(m) => Some(m@), None => None }),
{
    match o {
        Some(m) => {
            let ghost mv = m@;
            push_string(v, m);
            assert(seq![mv] =~= opt_list(Some(mv)));
        },
        None => {
            assert(strs(v@) + seq![] =~= strs(v@));
        },
    }
}

/// The report of a repair pass: the orphan notice, the notices of rewritten
/// branch files, the repaired notice and the removed notice, in that order.
pub fn repair_report(class: DeletionClassification, outcome: BranchRepairOutcome, frontmatter_notes: Vec<String>) -> (r: RepairReport)
    ensures
        strs(r.notifications@) == repair_notifications_spec(
            strs(class.orphan_slugs@),
            strs(frontmatter_notes@),
            strs(outcome.repaired_branch_slugs@),
            removed_slugs(outcome.branches_removed@),
        ),
        strs(r.orphan_leaf_slugs@) == strs(class.orphan_slugs@),
        strs(r.repaired_branch_slugs@) == strs(outcome.repaired_branch_slugs@),
        removed_views(r.removed_branches@) == removed_views(outcome.branches_removed@),
{
    let mut notifications: Vec<String> = Vec::new();
    push_opt(&mut notifications, orphan_prune_message(&class.orphan_slugs));
    crate::text::extend_strings(&mut notifications, frontmatter_notes);
    push_opt(&mut notifications, repaired_summary_message(&outcome.repaired_branch_slugs));
    push_opt(&mut notifications, removed_summary_message(&outcome.branches_removed));
    RepairReport {
        notifications,
        orphan_leaf_slugs: class.orphan_slugs,
        repaired_branch_slugs: outcome.repaired_branch_slugs,
        removed_branches: outcome.branches_removed,
    }
}

// ── laws ─────────────────────────────────────────────────────────────────────

proof fn lemma_filter_not_in(xs: Seq<Seq<char>>, set: Seq<Seq<char>>)
    ensures
        forall|k: int| 0 <= k < filter_not_in(xs, set).len() ==> !set.contains(#[trigger] filter_not_in(xs, set)[k]),
        forall|k: int| 0 <= k < filter_not_in(xs, set).len() ==> xs.contains(#[trigger] filter_not_in(xs, set)[k]),
        forall|x: Seq<char>| xs.contains(x) && !set.contains(x) ==> #[trigger] filter_not_in(xs, set).contains(x),
    decreases xs.len(),
{
    if xs.len() > 0 {
        let prev = filter_not_in(xs.drop_last(), set);
        let r = filter_not_in(xs, set);
        lemma_filter_not_in(xs.drop_last(), set);
        assert forall|k: int| 0 <= k < r.len() implies xs.contains(#[trigger] r[k]) by {
            if k < prev.len() {
                assert(r[k] == prev[k]);
                let j = choose|j: int| 0 <= j < xs.drop_last().len() && xs.drop_last()[j] == prev[k];
                assert(xs[j] == xs.drop_last()[j]);
            } else {
                assert(xs[xs.len() - 1] == xs.last());
            }
        }
        assert forall|k: int| 0 <= k < r.len() implies !set.contains(#[trigger] r[k]) by {
            if k < prev.len() {
                assert(r[k] == prev[k]);
            }
        }
        assert forall|x: Seq<char>| xs.contains(x) && !set.contains(x) implies #[trigger] r.contains(x) by {
            let j = choose|j: int| 0 <= j < xs.len() && xs[j] == x;
            if j < xs.len() - 1 {
                assert(xs.drop_last()[j] == x);
                assert(prev.contains(x));
                let k = choose|k: int| 0 <= k < prev.len() && prev[k] == x;
                assert(r[k] == prev[k]);
            } else {
                assert(r[r.len() - 1] == x);
            }
        }
    }
}

/// What a repair leaves of a branch graph: every branch it keeps has at
/// least two leaves and cites no deleted leaf; every branch it removes had
/// fewer than two left, and its file is the one deleted; each branch of the
/// graph is either kept or removed.
pub proof fn lemma_repair_keeps_valid_branches(bs: Seq<BranchView>, deleted: Seq<Seq<char>>)
    ensures
        repair_spec(bs, deleted).kept.len() + repair_spec(bs, deleted).removed.len() == bs.len(),
        repair_spec(bs, deleted).deletes.len() == repair_spec(bs, deleted).removed.len(),
        repair_spec(bs, deleted).repaired_slugs.len() <= repair_spec(bs, deleted).kept.len(),
        forall|i: int| 0 <= i < repair_spec(bs, deleted).kept.len() ==> (#[trigger] repair_spec(bs, deleted).kept[i]).leaves.len() >= 2,
        forall|i: int, k: int| 0 <= i < repair_spec(bs, deleted).kept.len() && 0 <= k < repair_spec(bs, deleted).kept[i].leaves.len()
            ==> !deleted.contains(#[trigger] repair_spec(bs, deleted).kept[i].leaves[k]),
        forall|i: int| 0 <= i < repair_spec(bs, deleted).removed.len() ==> (#[trigger] repair_spec(bs, deleted).removed[i]).2 < 2,
    decreases bs.len(),
{
    if bs.len() > 0 {
        lemma_repair_keeps_valid_branches(bs.drop_last(), deleted);
        lemma_filter_not_in(bs.last().leaves, deleted);
        let acc = repair_spec(bs.drop_last(), deleted);
        let v = repair_spec(bs, deleted);
        assert forall|i: int| 0 <= i < v.kept.len() implies (#[trigger] v.kept[i]).leaves.len() >= 2 by {
            if i < acc.kept.len() {
                assert(v.kept[i] == acc.kept[i]);
            }
        }
        assert forall|i: int, k: int| 0 <= i < v.kept.len() && 0 <= k < v.kept[i].leaves.len() implies !deleted.contains(
            #[trigger] v.kept[i].leaves[k],
        ) by {
            if i < acc.kept.len() {
                assert(v.kept[i] == acc.kept[i]);
            }
        }
        assert forall|i: int| 0 <= i < v.removed.len() implies (#[trigger] v.removed[i]).2 < 2 by {
            if i < acc.removed.len() {
                assert(v.removed[i] == acc.removed[i]);
            }
        }
    }
}

proof fn lemma_kept_leaves(leaves: Seq<LeafView>, deleted: Seq<Seq<char>>)
    ensures
        forall|k: int| 0 <= k < kept_leaves(leaves, deleted).len() ==> !deleted.contains(
            (#[trigger] kept_leaves(leaves, deleted)[k]).slug,
        ),
        forall|l: LeafView| leaves.contains(l) && !deleted.contains(l.slug) ==> #[trigger] kept_leaves(leaves, deleted).contains(l),
        forall|l: LeafView| #[trigger] kept_leaves(leaves, deleted).contains(l) ==> leaves.contains(l),
    decreases leaves.len(),
{
    if leaves.len() > 0 {
        let prev = kept_leaves(leaves.drop_last(), deleted);
        let r = kept_leaves(leaves, deleted);
        lemma_kept_leaves(leaves.drop_last(), deleted);
        assert forall|k: int| 0 <= k < r.len() implies !deleted.contains((#[trigger] r[k]).slug) by {
            if k < prev.len() {
                assert(r[k] == prev[k]);
            }
        }
        assert forall|l: LeafView| leaves.contains(l) && !deleted.contains(l.slug) implies #[trigger] r.contains(l) by {
            let j = choose|j: int| 0 <= j < leaves.len() && leaves[j] == l;
            if j < leaves.len() - 1 {
                assert(leaves.drop_last()[j] == l);
                assert(leaves.drop_last().contains(l));
                assert(prev.contains(l));
                let k = choose|k: int| 0 <= k < prev.len() && prev[k] == l;
                assert(r[k] == prev[k]);
            } else {
                assert(r[r.len() - 1] == l);
            }
        }
        assert forall|l: LeafView| #[trigger] r.contains(l) implies leaves.contains(l) by {
            let k = choose|k: int| 0 <= k < r.len() && r[k] == l;
            if k < prev.len() {
                assert(r[k] == prev[k]);
                assert(prev.contains(l));
                let j = choose|j: int| 0 <= j < leaves.drop_last().len() && leaves.drop_last()[j] == l;
                assert(leaves[j] == l);
            } else {
                assert(leaves[leaves.len() - 1] == l);
            }
        }
    }
}

/// The repaired state's leaf records are exactly the old ones whose slugs
/// are not deleted.
pub proof fn lemma_repaired_leaves(leaves: Seq<LeafView>, deleted: Seq<Seq<char>>, l: LeafView)
    ensures
        kept_leaves(leaves, deleted).contains(l) <==> (leaves.contains(l) && !deleted.contains(l.slug)),
{
    lemma_kept_leaves(leaves, deleted);
    if kept_leaves(leaves, deleted).contains(l) {
        let k = choose|k: int| 0 <= k < kept_leaves(leaves, deleted).len() && kept_leaves(leaves, deleted)[k] == l;
        assert(!deleted.contains(kept_leaves(leaves, deleted)[k].slug));
    }
}

/// An orphan is a deleted leaf that no branch cites, and every deleted leaf
/// that no branch cites is an orphan.
pub proof fn lemma_orphans(deleted: Seq<Seq<char>>, bs: Seq<BranchView>, s: Seq<char>)
    ensures
        unreferenced(deleted, bs).contains(s) <==> (deleted.contains(s) && !referenced(bs, s)),
    decreases deleted.len(),
{
    if deleted.len() > 0 {
        let prev = unreferenced(deleted.drop_last(), bs);
        let r = unreferenced(deleted, bs);
        lemma_orphans(deleted.drop_last(), bs, s);
        if r.contains(s) {
            let k = choose|k: int| 0 <= k < r.len() && r[k] == s;
            if k < prev.len() {
                assert(r[k] == prev[k]);
                assert(prev.contains(s));
                let j = choose|j: int| 0 <= j < deleted.drop_last().len() && deleted.drop_last()[j] == s;
                assert(deleted[j] == s);
            } else {
                assert(deleted[deleted.len() - 1] == s);
            }
        }
        if deleted.contains(s) && !referenced(bs, s) {
            let j = choose|j: int| 0 <= j < deleted.len() && deleted[j] == s;
            if j < deleted.len() - 1 {
                assert(deleted.drop_last()[j] == s);
                let k = choose|k: int| 0 <= k < prev.len() && prev[k] == s;
                assert(r[k] == prev[k]);
            } else {
                assert(r[r.len() - 1] == s);
            }
        }
    }
}

} // verus!
