//! Validation of the cluster stage of a two-stage compile.
//!
//! A cluster response names groups of leaves. Validation resolves each leaf
//! reference to a canonical leaf filename and repairs what it can (unknown
//! references and leaves claimed by two clusters are dropped, with a
//! warning); what it cannot repair is rejected.
use vstd::prelude::*;

use super::CompileError;
use crate::text::{cat3, cat5, decimal, lowercase, owned, push_string, str_eq, strs, to_lowercase, trim, trim_str, usize_to_string};
use crate::tree::{Branch, TreeState};

verus! {

// ── responses and leaves ─────────────────────────────────────────────────────

/// One cluster of a response: a title and the leaves it groups.
#[derive(Debug)]
pub struct ClusterAssignment {
    pub title: String,
    pub leaf_slugs: Vec<String>,
}

/// New leaves assigned to an existing branch, named by its slug.
#[derive(Debug)]
pub struct BranchAssignment {
    pub branch_slug: String,
    pub leaf_slugs: Vec<String>,
}

/// A Full-mode cluster response.
#[derive(Debug)]
pub struct ClusterResponse {
    pub clusters: Vec<ClusterAssignment>,
}

/// An Incremental-mode cluster response.
#[derive(Debug)]
pub struct IncrementalClusterResponse {
    pub assignments: Vec<BranchAssignment>,
    pub new_clusters: Vec<ClusterAssignment>,
}

/// A leaf read from disk for compiling.
#[derive(Debug)]
pub struct LoadedLeaf {
    pub slug: String,
    pub filename: String,
    pub title: String,
    pub summary: Option<String>,
    pub body: String,
    pub collected_at: String,
}

/// A validated cluster, ready for the synthesis stage.
#[derive(Debug)]
pub struct ValidatedCluster {
    pub title: String,
    /// Canonical leaf filenames.
    pub leaf_files: Vec<String>,
    /// Non-empty when the cluster updates an existing branch.
    pub existing_branch_slug: String,
}

#[derive(Debug)]
pub struct ValidatedClusters {
    pub clusters: Vec<ValidatedCluster>,
}

pub struct ClusterView {
    pub title: Seq<char>,
    pub leaf_files: Seq<Seq<char>>,
    pub existing_branch_slug: Seq<char>,
}

impl View for ValidatedCluster {
    type V = ClusterView;

    open spec fn view(&self) -> ClusterView {
        ClusterView {
            title: self.title@,
            leaf_files: strs(self.leaf_files@),
            existing_branch_slug: self.existing_branch_slug@,
        }
    }
}

pub open spec fn clusters_view(v: Seq<ValidatedCluster>) -> Seq<ClusterView> {
    v.map_values(|c: ValidatedCluster| c@)
}

/// A leaf as the resolver sees it: its slug and its filename.
pub open spec fn leaf_keys(v: Seq<LoadedLeaf>) -> Seq<(Seq<char>, Seq<char>)> {
    v.map_values(|l: LoadedLeaf| (l.slug@, l.filename@))
}

/// A cluster of a response as (title, leaf references).
pub open spec fn assignments_view(v: Seq<ClusterAssignment>) -> Seq<(Seq<char>, Seq<Seq<char>>)> {
    v.map_values(|c: ClusterAssignment| (c.title@, strs(c.leaf_slugs@)))
}

pub open spec fn branch_assignments_view(v: Seq<BranchAssignment>) -> Seq<
    (Seq<char>, Seq<Seq<char>>),
> {
    v.map_values(|a: BranchAssignment| (a.branch_slug@, strs(a.leaf_slugs@)))
}

pub open spec fn pairs_view(v: Seq<(String, String)>) -> Seq<(Seq<char>, Seq<char>)> {
    v.map_values(|p: (String, String)| (p.0@, p.1@))
}

impl ValidatedCluster {
    fn new(title: String, leaf_files: Vec<String>) -> (r: Self)
        ensures
            r@ == (ClusterView { title: title@, leaf_files: strs(leaf_files@), existing_branch_slug: seq![] }),
    {
        ValidatedCluster { title, leaf_files, existing_branch_slug: String::new() }
    }

    /// Whether the cluster updates an existing branch.
    pub fn is_existing_branch(&self) -> (r: bool)
        ensures
            r == (self.existing_branch_slug@.len() > 0),
    {
        !self.existing_branch_slug.as_str().is_empty()
    }
}

// ── leaf resolution ──────────────────────────────────────────────────────────

/// The filename of the first leaf whose slug or filename, lowercased, is `key`.
pub open spec fn resolve_leaf(leaves: Seq<(Seq<char>, Seq<char>)>, key: Seq<char>) -> Option<
    Seq<char>,
>
    decreases leaves.len(),
{
    if leaves.len() == 0 {
        None
    } else if lowercase(leaves[0].0) == key || lowercase(leaves[0].1) == key {
        Some(leaves[0].1)
    } else {
        resolve_leaf(leaves.drop_first(), key)
    }
}

/// The value recorded for `key` in a list of pairs, first match first.
pub open spec fn pair_lookup(s: Seq<(Seq<char>, Seq<char>)>, key: Seq<char>) -> Option<Seq<char>>
    decreases s.len(),
{
    if s.len() == 0 {
        None
    } else if s[0].0 == key {
        Some(s[0].1)
    } else {
        pair_lookup(s.drop_first(), key)
    }
}

fn resolve_key(leaves: &[LoadedLeaf], key: &str) -> (r: Option<String>)
    ensures
        opt_text(r) == resolve_leaf(leaf_keys(leaves@), key@),
{
    let ghost all = leaf_keys(leaves@);
    assert(all.subrange(0, all.len() as int) =~= all);
    let mut i: usize = 0;
    while i < leaves.len()
        invariant
            i <= leaves.len(),
            all == leaf_keys(leaves@),
            resolve_leaf(all, key@) == resolve_leaf(all.subrange(i as int, all.len() as int), key@),
        decreases leaves.len() - i,
    {
        let s = to_lowercase(leaves[i].slug.as_str());
        let f = to_lowercase(leaves[i].filename.as_str());
        let ghost rest = all.subrange(i as int, all.len() as int);
        assert(rest[0] == all[i as int]);
        if str_eq(s.as_str(), key) || str_eq(f.as_str(), key) {
            return Some(leaves[i].filename.clone());
        }
        assert(rest.drop_first() =~= all.subrange(i + 1, all.len() as int));
        i += 1;
    }
    None
}

pub open spec fn opt_text(o: Option<String>) -> Option<Seq<char>> {
    match o {
        Some(s) => Some(s@),
        None => None,
    }
}

pub fn lookup_pair(s: &Vec<(String, String)>, key: &str) -> (r: Option<String>)
    ensures
        opt_text(r) == pair_lookup(pairs_view(s@), key@),
{
    let ghost all = pairs_view(s@);
    assert(all.subrange(0, all.len() as int) =~= all);
    let mut i: usize = 0;
    while i < s.len()
        invariant
            i <= s.len(),
            all == pairs_view(s@),
            pair_lookup(all, key@) == pair_lookup(all.subrange(i as int, all.len() as int), key@),
        decreases s.len() - i,
    {
        let ghost rest = all.subrange(i as int, all.len() as int);
        assert(rest[0] == all[i as int]);
        if str_eq(s[i].0.as_str(), key) {
            return Some(s[i].1.clone());
        }
        assert(rest.drop_first() =~= all.subrange(i + 1, all.len() as int));
        i += 1;
    }
    None
}

// ── messages ─────────────────────────────────────────────────────────────────

pub open spec fn unknown_leaf_warning(label: Seq<char>, key: Seq<char>) -> Seq<char> {
    "warning: "@ + label + " references unknown leaf '"@ + key + "' — dropped"@
}

pub open spec fn multi_cluster_warning(f: Seq<char>, prev: Seq<char>, title: Seq<char>) -> Seq<char> {
    "warning: leaf '"@ + f + "' assigned to multiple clusters; kept in '"@ + prev + "', dropped from '"@
        + title + "'"@
}

pub open spec fn cluster_label(title: Seq<char>) -> Seq<char> {
    "cluster '"@ + title + "'"@
}

pub open spec fn new_cluster_label(title: Seq<char>) -> Seq<char> {
    "new cluster '"@ + title + "'"@
}

pub open spec fn assignment_label(slug: Seq<char>) -> Seq<char> {
    "assignment to '"@ + slug + "'"@
}

pub open spec fn all_repaired_message() -> Seq<char> {
    "invalid cluster response: every cluster was repaired away — no valid clusters remain"@
}

// ── folds ────────────────────────────────────────────────────────────────────

/// Leaf references resolved so far: the files kept (each once), whether an
/// unknown reference was dropped, and the warnings written.
pub struct Resolved {
    pub files: Seq<Seq<char>>,
    pub dropped: bool,
    pub warnings: Seq<Seq<char>>,
}

pub open spec fn no_refs() -> Resolved {
    Resolved { files: seq![], dropped: false, warnings: seq![] }
}

/// Resolves one non-blank reference.
pub open spec fn resolve_one(
    acc: Resolved,
    raw: Seq<char>,
    leaves: Seq<(Seq<char>, Seq<char>)>,
    label: Seq<char>,
) -> Resolved {
    let key = trim(raw);
    match resolve_leaf(leaves, lowercase(key)) {
        None => Resolved {
            files: acc.files,
            dropped: true,
            warnings: acc.warnings.push(unknown_leaf_warning(label, key)),
        },
        Some(f) => if acc.files.contains(f) {
            acc
        } else {
            Resolved { files: acc.files.push(f), dropped: acc.dropped, warnings: acc.warnings }
        },
    }
}

/// Resolves references in order. A blank reference is skipped, or, when
/// `strict`, ends the resolution with the warnings written before it.
pub open spec fn resolve_refs(
    refs: Seq<Seq<char>>,
    leaves: Seq<(Seq<char>, Seq<char>)>,
    label: Seq<char>,
    strict: bool,
) -> Result<Resolved, Seq<Seq<char>>>
    decreases refs.len(),
{
    if refs.len() == 0 {
        Ok(no_refs())
    } else {
        match resolve_refs(refs.drop_last(), leaves, label, strict) {
            Err(w) => Err(w),
            Ok(acc) => if trim(refs.last()).len() == 0 {
                if strict {
                    Err(acc.warnings)
                } else {
                    Ok(acc)
                }
            } else {
                Ok(resolve_one(acc, refs.last(), leaves, label))
            },
        }
    }
}

proof fn lemma_refs_err_sticky(
    refs: Seq<Seq<char>>,
    leaves: Seq<(Seq<char>, Seq<char>)>,
    label: Seq<char>,
    strict: bool,
    k: int,
)
    requires
        0 <= k <= refs.len(),
        resolve_refs(refs.take(k), leaves, label, strict) is Err,
    ensures
        resolve_refs(refs, leaves, label, strict) == resolve_refs(refs.take(k), leaves, label, strict),
    decreases refs.len(),
{
    if k == refs.len() {
        assert(refs.take(k) =~= refs);
    } else {
        assert(refs.drop_last().take(k) =~= refs.take(k));
        lemma_refs_err_sticky(refs.drop_last(), leaves, label, strict, k);
    }
}

/// The files of a cluster once those already claimed by earlier clusters are
/// dropped, the claims afterwards, and the warnings written.
pub struct Dedup {
    pub kept: Seq<Seq<char>>,
    pub assigned: Seq<(Seq<char>, Seq<char>)>,
    pub warnings: Seq<Seq<char>>,
}

pub open spec fn dedup_files(
    files: Seq<Seq<char>>,
    assigned: Seq<(Seq<char>, Seq<char>)>,
    title: Seq<char>,
) -> Dedup
    decreases files.len(),
{
    if files.len() == 0 {
        Dedup { kept: seq![], assigned, warnings: seq![] }
    } else {
        let acc = dedup_files(files.drop_last(), assigned, title);
        let f = files.last();
        match pair_lookup(acc.assigned, f) {
            Some(prev) => Dedup {
                kept: acc.kept,
                assigned: acc.assigned,
                warnings: acc.warnings.push(multi_cluster_warning(f, prev, title)),
            },
            None => Dedup {
                kept: acc.kept.push(f),
                assigned: acc.assigned.push((f, title)),
                warnings: acc.warnings,
            },
        }
    }
}

/// Validation state: lowercased titles seen, leaf claims (file, cluster
/// title), clusters kept and warnings written.
pub struct VState {
    pub seen: Seq<Seq<char>>,
    pub slugs: Seq<Seq<char>>,
    pub assigned: Seq<(Seq<char>, Seq<char>)>,
    pub clusters: Seq<ClusterView>,
    pub warnings: Seq<Seq<char>>,
}

pub open spec fn initial_vstate() -> VState {
    VState { seen: seq![], slugs: seq![], assigned: seq![], clusters: seq![], warnings: seq![] }
}

pub open spec fn with_warnings(st: VState, w: Seq<Seq<char>>) -> VState {
    VState { warnings: st.warnings + w, ..st }
}

pub open spec fn with_warning(st: VState, w: Seq<char>) -> VState {
    VState { warnings: st.warnings.push(w), ..st }
}

/// A failed validation: the warnings written, then the message.
pub type Failure = (Seq<Seq<char>>, Seq<char>);

/// One Full-mode cluster, the `idx`-th of the response.
pub open spec fn full_step(
    st: VState,
    c: (Seq<char>, Seq<Seq<char>>),
    idx: int,
    leaves: Seq<(Seq<char>, Seq<char>)>,
) -> Result<VState, Failure> {
    let title = trim(c.0);
    let low = lowercase(title);
    if title.len() == 0 {
        Err((st.warnings, "invalid cluster response: cluster #"@ + decimal((idx + 1) as nat) + " has empty title"@))
    } else if st.seen.contains(low) {
        Err((st.warnings, "invalid cluster response: duplicate cluster title '"@ + title + "'"@))
    } else {
        let st1 = VState { seen: st.seen.push(low), ..st };
        match resolve_refs(c.1, leaves, cluster_label(title), true) {
            Err(w) => Err(
                (
                    st1.warnings + w,
                    "invalid cluster response: cluster '"@ + title + "' has an empty leaf reference"@,
                ),
            ),
            Ok(res) => {
                let st2 = with_warnings(st1, res.warnings);
                if res.dropped && res.files.len() < 2 {
                    Ok(
                        with_warning(
                            st2,
                            "warning: cluster '"@ + title
                                + "' dropped below 2 leaves after removing unknown refs — cluster dropped"@,
                        ),
                    )
                } else if res.files.len() < 2 {
                    Err(
                        (
                            st2.warnings,
                            "invalid cluster response: cluster '"@ + title + "' has "@ + decimal(
                                res.files.len(),
                            ) + " leaf; clusters must have at least 2"@,
                        ),
                    )
                } else {
                    let d = dedup_files(res.files, st2.assigned, title);
                    let st3 = VState { assigned: d.assigned, ..with_warnings(st2, d.warnings) };
                    if d.kept.len() < 2 {
                        Ok(
                            with_warning(
                                st3,
                                "warning: cluster '"@ + title
                                    + "' dropped below 2 leaves after cross-cluster dedup — cluster dropped"@,
                            ),
                        )
                    } else {
                        Ok(
                            VState {
                                clusters: st3.clusters.push(
                                    ClusterView {
                                        title,
                                        leaf_files: d.kept,
                                        existing_branch_slug: seq![],
                                    },
                                ),
                                ..st3
                            },
                        )
                    }
                }
            },
        }
    }
}

pub open spec fn full_fold(
    cs: Seq<(Seq<char>, Seq<Seq<char>>)>,
    leaves: Seq<(Seq<char>, Seq<char>)>,
) -> Result<VState, Failure>
    decreases cs.len(),
{
    if cs.len() == 0 {
        Ok(initial_vstate())
    } else {
        match full_fold(cs.drop_last(), leaves) {
            Err(e) => Err(e),
            Ok(st) => full_step(st, cs.last(), cs.len() - 1, leaves),
        }
    }
}

/// The end of a validation: the warnings written and the clusters or the
/// rejection message.
pub open spec fn finish(r: Result<VState, Failure>) -> (Seq<Seq<char>>, Result<Seq<ClusterView>, Seq<char>>) {
    match r {
        Err((w, m)) => (w, Err(m)),
        Ok(st) => if st.clusters.len() == 0 {
            (st.warnings, Err(all_repaired_message()))
        } else {
            (st.warnings, Ok(st.clusters))
        },
    }
}

/// What Full-mode validation writes and returns.
pub open spec fn validate_full_spec(
    cs: Seq<(Seq<char>, Seq<Seq<char>>)>,
    leaves: Seq<(Seq<char>, Seq<char>)>,
) -> (Seq<Seq<char>>, Result<Seq<ClusterView>, Seq<char>>) {
    finish(full_fold(cs, leaves))
}

pub open spec fn validated_view(r: Result<ValidatedClusters, CompileError>) -> Result<
    Seq<ClusterView>,
    Seq<char>,
> {
    match r {
        Ok(v) => Ok(clusters_view(v.clusters@)),
        Err(CompileError::Validation(m)) => Err(m@),
        Err(_) => Err(seq![]),
    }
}

// ── executable folds ─────────────────────────────────────────────────────────

/// Exec state of a validation, mirroring `VState` apart from the warnings,
/// which go straight to the caller's list.
struct Progress {
    seen: Vec<String>,
    slugs: Vec<String>,
    assigned: Vec<(String, String)>,
    clusters: Vec<ValidatedCluster>,
}

spec fn progress_matches(p: Progress, st: VState, base: Seq<Seq<char>>, w: Seq<String>) -> bool {
    &&& strs(p.seen@) == st.seen
    &&& strs(p.slugs@) == st.slugs
    &&& pairs_view(p.assigned@) == st.assigned
    &&& clusters_view(p.clusters@) == st.clusters
    &&& strs(w) == base + st.warnings
}

fn resolve_refs_exec(
    refs: &Vec<String>,
    leaves: &[LoadedLeaf],
    label: &str,
    strict: bool,
    warnings: &mut Vec<String>,
) -> (r: Result<(Vec<String>, bool), ()>)
    ensures
        match resolve_refs(strs(refs@), leaf_keys(leaves@), label@, strict) {
            Ok(res) => r matches Ok((f, d)) && strs(f@) == res.files && d == res.dropped && strs(
                final(warnings)@,
            ) == strs(old(warnings)@) + res.warnings,
            Err(w) => r is Err && strs(final(warnings)@) == strs(old(warnings)@) + w,
        },
{
    let ghost rs = strs(refs@);
    let ghost lk = leaf_keys(leaves@);
    let mut files: Vec<String> = Vec::new();
    let mut dropped = false;
    let mut i: usize = 0;
    while i < refs.len()
        invariant
            i <= refs.len(),
            rs == strs(refs@),
            lk == leaf_keys(leaves@),
            resolve_refs(rs.take(i as int), lk, label@, strict) matches Ok(res) && strs(files@)
                == res.files && dropped == res.dropped && strs(warnings@) == strs(old(warnings)@)
                + res.warnings,
        decreases refs.len() - i,
    {
        let ghost before = warnings@;
        assert(rs.take(i + 1).drop_last() =~= rs.take(i as int));
        assert(rs.take(i + 1).last() == refs@[i as int]@);
        let key = trim_str(refs[i].as_str());
        if key.as_str().is_empty() {
            if strict {
                proof {
                    lemma_refs_err_sticky(rs, lk, label@, strict, i + 1);
                }
                return Err(());
            }
        } else {
            let low = to_lowercase(key.as_str());
            match resolve_key(leaves, low.as_str()) {
                None => {
                    dropped = true;
                    let msg = cat5("warning: ", label, " references unknown leaf '", key.as_str(), "' — dropped");
                    push_string(warnings, msg);
                    assert(strs(warnings@) =~= strs(old(warnings)@) + resolve_refs(rs.take(i + 1), lk, label@, strict)->Ok_0.warnings);
                },
                Some(f) => {
                    if !crate::text::strings_contain(&files, f.as_str()) {
                        push_string(&mut files, f);
                    }
                },
            }
        }
        i += 1;
    }
    assert(rs.take(refs.len() as int) =~= rs);
    Ok((files, dropped))
}

fn dedup_exec(
    files: Vec<String>,
    assigned: &mut Vec<(String, String)>,
    title: &str,
    warnings: &mut Vec<String>,
) -> (kept: Vec<String>)
    ensures
        ({
            let d = dedup_files(strs(files@), pairs_view(old(assigned)@), title@);
            &&& strs(kept@) == d.kept
            &&& pairs_view(final(assigned)@) == d.assigned
            &&& strs(final(warnings)@) == strs(old(warnings)@) + d.warnings
        }),
{
    let ghost fs = strs(files@);
    let ghost a0 = pairs_view(assigned@);
    let mut kept: Vec<String> = Vec::new();
    let mut i: usize = 0;
    while i < files.len()
        invariant
            i <= files.len(),
            fs == strs(files@),
            ({
                let d = dedup_files(fs.take(i as int), a0, title@);
                &&& strs(kept@) == d.kept
                &&& pairs_view(assigned@) == d.assigned
                &&& strs(warnings@) == strs(old(warnings)@) + d.warnings
            }),
        decreases files.len() - i,
    {
        assert(fs.take(i + 1).drop_last() =~= fs.take(i as int));
        assert(fs.take(i + 1).last() == files@[i as int]@);
        let f = &files[i];
        match lookup_pair(assigned, f.as_str()) {
            Some(prev) => {
                let mut msg = cat5("warning: leaf '", f.as_str(), "' assigned to multiple clusters; kept in '", prev.as_str(), "', dropped from '");
                crate::text::push_str(&mut msg, title);
                crate::text::push_str(&mut msg, "'");
                push_string(warnings, msg);
                assert(strs(warnings@) =~= strs(old(warnings)@) + dedup_files(fs.take(i + 1), a0, title@).warnings);
            },
            None => {
                let ghost before = assigned@;
                assigned.push((f.clone(), owned(title)));
                assert(pairs_view(assigned@) =~= pairs_view(before).push((f@, title@)));
                push_string(&mut kept, f.clone());
            },
        }
        i += 1;
    }
    assert(fs.take(files.len() as int) =~= fs);
    kept
}

proof fn lemma_full_err_sticky(
    cs: Seq<(Seq<char>, Seq<Seq<char>>)>,
    leaves: Seq<(Seq<char>, Seq<char>)>,
    k: int,
)
    requires
        0 <= k <= cs.len(),
        full_fold(cs.take(k), leaves) is Err,
    ensures
        full_fold(cs, leaves) == full_fold(cs.take(k), leaves),
    decreases cs.len(),
{
    if k == cs.len() {
        assert(cs.take(k) =~= cs);
    } else {
        assert(cs.drop_last().take(k) =~= cs.take(k));
        lemma_full_err_sticky(cs.drop_last(), leaves, k);
    }
}

fn full_step_exec(
    p: &mut Progress,
    c: &ClusterAssignment,
    idx: usize,
    leaves: &[LoadedLeaf],
    warnings: &mut Vec<String>,
    Ghost(st): Ghost<VState>,
    Ghost(base): Ghost<Seq<Seq<char>>>,
) -> (r: Result<(), String>)
    requires
        progress_matches(*old(p), st, base, old(warnings)@),
        idx < usize::MAX,
    ensures
        match full_step(st, (c.title@, strs(c.leaf_slugs@)), idx as int, leaf_keys(leaves@)) {
            Ok(st2) => r is Ok && progress_matches(*final(p), st2, base, final(warnings)@),
            Err((w, m)) => r matches Err(msg) && msg@ == m && strs(final(warnings)@) == base + w,
        },
{
    let title = trim_str(c.title.as_str());
    let low = to_lowercase(title.as_str());
    if title.as_str().is_empty() {
        let n = usize_to_string(idx + 1);
        return Err(cat3("invalid cluster response: cluster #", n.as_str(), " has empty title"));
    }
    if crate::text::strings_contain(&p.seen, low.as_str()) {
        return Err(cat3("invalid cluster response: duplicate cluster title '", title.as_str(), "'"));
    }
    push_string(&mut p.seen, low);
    let label = cat3("cluster '", title.as_str(), "'");
    let ghost w0 = strs(warnings@);
    match resolve_refs_exec(&c.leaf_slugs, leaves, label.as_str(), true, warnings) {
        Err(()) => {
            return Err(
                cat3(
                    "invalid cluster response: cluster '",
                    title.as_str(),
                    "' has an empty leaf reference",
                ),
            );
        },
        Ok((files, dropped)) => {
            let ghost res = resolve_refs(strs(c.leaf_slugs@), leaf_keys(leaves@), label@, true)->Ok_0;
            if dropped && files.len() < 2 {
                let msg = cat3(
                    "warning: cluster '",
                    title.as_str(),
                    "' dropped below 2 leaves after removing unknown refs — cluster dropped",
                );
                let ghost m = msg@;
                push_string(warnings, msg);
                assert(strs(warnings@) =~= base + (st.warnings + res.warnings).push(m));
                return Ok(());
            }
            if files.len() < 2 {
                let n = usize_to_string(files.len());
                return Err(
                    cat5(
                        "invalid cluster response: cluster '",
                        title.as_str(),
                        "' has ",
                        n.as_str(),
                        " leaf; clusters must have at least 2",
                    ),
                );
            }
            let kept = dedup_exec(files, &mut p.assigned, title.as_str(), warnings);
            if kept.len() < 2 {
                let msg = cat3(
                    "warning: cluster '",
                    title.as_str(),
                    "' dropped below 2 leaves after cross-cluster dedup — cluster dropped",
                );
                let ghost m = msg@;
                push_string(warnings, msg);
                assert(strs(warnings@) =~= base + (st.warnings + res.warnings + dedup_files(
                    res.files,
                    st.assigned,
                    title@,
                ).warnings).push(m));
                return Ok(());
            }
            let ghost before = p.clusters@;
            let vc = ValidatedCluster::new(title, kept);
            p.clusters.push(vc);
            assert(clusters_view(p.clusters@) =~= clusters_view(before).push(vc@));
            assert(strs(warnings@) =~= base + (st.warnings + res.warnings + dedup_files(
                res.files,
                st.assigned,
                title@,
            ).warnings));
            Ok(())
        },
    }
}

/// Validates a Full-mode cluster response.
///
/// Repairs, with a warning: an unknown leaf reference is dropped, and the
/// cluster with it when fewer than 2 leaves remain; a leaf claimed by an
/// earlier cluster is dropped from a later one, and the later cluster with
/// it when fewer than 2 leaves remain. Rejections: an empty title, a
/// duplicate title (ignoring case), an empty leaf reference, a cluster of
/// fewer than 2 leaves, and a response repaired away to nothing.
pub fn validate_clusters(
    response: &ClusterResponse,
    loaded_leaves: &[LoadedLeaf],
    warnings: &mut Vec<String>,
) -> (r: Result<ValidatedClusters, CompileError>)
    ensures
        ({
            let out = validate_full_spec(assignments_view(response.clusters@), leaf_keys(loaded_leaves@));
            &&& strs(final(warnings)@) == strs(old(warnings)@) + out.0
            &&& validated_view(r) == out.1
        }),
        r matches Err(e) ==> e is Validation,
{
    let ghost cs = assignments_view(response.clusters@);
    let ghost lk = leaf_keys(loaded_leaves@);
    let ghost base = strs(warnings@);
    let mut p = Progress { seen: Vec::new(), slugs: Vec::new(), assigned: Vec::new(), clusters: Vec::new() };
    proof {
        assert(cs.take(0) =~= seq![]);
        assert(strs(p.seen@) =~= seq![]);
        assert(strs(p.slugs@) =~= seq![]);
        assert(pairs_view(p.assigned@) =~= seq![]);
        assert(clusters_view(p.clusters@) =~= seq![]);
        assert(base + seq![] =~= base);
    }
    let mut i: usize = 0;
    while i < response.clusters.len()
        invariant
            i <= response.clusters.len(),
            cs == assignments_view(response.clusters@),
            lk == leaf_keys(loaded_leaves@),
            base == strs(old(warnings)@),
            full_fold(cs.take(i as int), lk) matches Ok(st) && progress_matches(p, st, base, warnings@),
        decreases response.clusters.len() - i,
    {
        let ghost st = full_fold(cs.take(i as int), lk)->Ok_0;
        assert(cs.take(i + 1).drop_last() =~= cs.take(i as int));
        assert(cs.take(i + 1).last() == cs[i as int]);
        match full_step_exec(&mut p, &response.clusters[i], i, loaded_leaves, warnings, Ghost(st), Ghost(base)) {
            Err(m) => {
                proof {
                    lemma_full_err_sticky(cs, lk, i + 1);
                }
                return Err(CompileError::Validation(m));
            },
            Ok(()) => {},
        }
        i += 1;
    }
    assert(cs.take(response.clusters.len() as int) =~= cs);
    if p.clusters.len() == 0 {
        return Err(
            CompileError::Validation(
                owned(
                    "invalid cluster response: every cluster was repaired away — no valid clusters remain",
                ),
            ),
        );
    }
    Ok(ValidatedClusters { clusters: p.clusters })
}

// ── incremental mode ─────────────────────────────────────────────────────────

/// Each branch as (slug, title).
pub open spec fn branch_pairs(v: Seq<Branch>) -> Seq<(Seq<char>, Seq<char>)> {
    v.map_values(|b: Branch| (b.slug@, b.title@))
}

/// Whether a branch title equals `low` once lowercased.
pub open spec fn title_taken(bs: Seq<(Seq<char>, Seq<char>)>, low: Seq<char>) -> bool {
    exists|j: int| 0 <= j < bs.len() && lowercase(#[trigger] bs[j].1) == low
}

/// Whether some leaf reference is blank.
pub open spec fn has_blank(refs: Seq<Seq<char>>) -> bool {
    exists|j: int| 0 <= j < refs.len() && trim(#[trigger] refs[j]).len() == 0
}

/// One assignment of new leaves to an existing branch.
pub open spec fn assign_step(
    st: VState,
    a: (Seq<char>, Seq<Seq<char>>),
    leaves: Seq<(Seq<char>, Seq<char>)>,
    bs: Seq<(Seq<char>, Seq<char>)>,
) -> Result<VState, Failure> {
    match pair_lookup(bs, a.0) {
        None => Ok(
            with_warning(
                st,
                "warning: assignment references unknown branch '"@ + a.0
                    + "' — assignment dropped"@,
            ),
        ),
        Some(btitle) => if st.slugs.contains(a.0) {
            Err(
                (
                    st.warnings,
                    "invalid cluster response: duplicate assignment to branch '"@ + a.0 + "'"@,
                ),
            )
        } else {
            let st1 = VState { slugs: st.slugs.push(a.0), ..st };
            let res = resolve_refs(a.1, leaves, assignment_label(a.0), false)->Ok_0;
            let st2 = with_warnings(st1, res.warnings);
            if has_blank(a.1) {
                Err(
                    (
                        st2.warnings,
                        "invalid cluster response: assignment to '"@ + a.0
                            + "' has an empty leaf reference"@,
                    ),
                )
            } else if res.files.len() == 0 {
                if res.dropped {
                    Ok(
                        with_warning(
                            st2,
                            "warning: assignment to '"@ + a.0
                                + "' has no valid leaves after removing unknown refs — assignment dropped"@,
                        ),
                    )
                } else {
                    Ok(st2)
                }
            } else {
                let d = dedup_files(res.files, st2.assigned, btitle);
                let st3 = VState { assigned: d.assigned, ..with_warnings(st2, d.warnings) };
                if d.kept.len() == 0 {
                    Ok(
                        with_warning(
                            st3,
                            "warning: assignment to '"@ + a.0
                                + "' has no leaves after dedup — assignment dropped"@,
                        ),
                    )
                } else {
                    Ok(
                        VState {
                            clusters: st3.clusters.push(
                                ClusterView { title: btitle, leaf_files: d.kept, existing_branch_slug: a.0 },
                            ),
                            ..st3
                        },
                    )
                }
            }
        },
    }
}

pub open spec fn assign_fold(
    asg: Seq<(Seq<char>, Seq<Seq<char>>)>,
    leaves: Seq<(Seq<char>, Seq<char>)>,
    bs: Seq<(Seq<char>, Seq<char>)>,
) -> Result<VState, Failure>
    decreases asg.len(),
{
    if asg.len() == 0 {
        Ok(initial_vstate())
    } else {
        match assign_fold(asg.drop_last(), leaves, bs) {
            Err(e) => Err(e),
            Ok(st) => assign_step(st, asg.last(), leaves, bs),
        }
    }
}

/// One new cluster of an Incremental response, the `idx`-th.
pub open spec fn new_step(
    st: VState,
    c: (Seq<char>, Seq<Seq<char>>),
    idx: int,
    leaves: Seq<(Seq<char>, Seq<char>)>,
    bs: Seq<(Seq<char>, Seq<char>)>,
) -> Result<VState, Failure> {
    let title = trim(c.0);
    let low = lowercase(title);
    if title.len() == 0 {
        Err(
            (
                st.warnings,
                "invalid cluster response: new cluster #"@ + decimal((idx + 1) as nat)
                    + " has empty title"@,
            ),
        )
    } else if st.seen.contains(low) {
        Err((st.warnings, "invalid cluster response: duplicate new cluster title '"@ + title + "'"@))
    } else if title_taken(bs, low) {
        Err(
            (
                st.warnings,
                "invalid cluster response: new cluster title '"@ + title
                    + "' collides with existing branch"@,
            ),
        )
    } else {
        let st1 = VState { seen: st.seen.push(low), ..st };
        let res = resolve_refs(c.1, leaves, new_cluster_label(title), false)->Ok_0;
        let st2 = with_warnings(st1, res.warnings);
        if has_blank(c.1) {
            Err(
                (
                    st2.warnings,
                    "invalid cluster response: new cluster '"@ + title
                        + "' has an empty leaf reference"@,
                ),
            )
        } else if res.dropped && res.files.len() < 2 {
            Ok(
                with_warning(
                    st2,
                    "warning: new cluster '"@ + title
                        + "' dropped below 2 leaves after removing unknown refs — cluster dropped"@,
                ),
            )
        } else if res.files.len() < 2 {
            Err(
                (
                    st2.warnings,
                    "invalid cluster response: new cluster '"@ + title + "' has "@ + decimal(
                        res.files.len(),
                    ) + " leaf; clusters must have at least 2"@,
                ),
            )
        } else {
            let d = dedup_files(res.files, st2.assigned, title);
            let st3 = VState { assigned: d.assigned, ..with_warnings(st2, d.warnings) };
            if d.kept.len() < 2 {
                Ok(
                    with_warning(
                        st3,
                        "warning: new cluster '"@ + title
                            + "' dropped below 2 leaves after dedup — cluster dropped"@,
                    ),
                )
            } else {
                Ok(
                    VState {
                        clusters: st3.clusters.push(
                            ClusterView { title, leaf_files: d.kept, existing_branch_slug: seq![] },
                        ),
                        ..st3
                    },
                )
            }
        }
    }
}

pub open spec fn new_fold(
    cs: Seq<(Seq<char>, Seq<Seq<char>>)>,
    st0: VState,
    leaves: Seq<(Seq<char>, Seq<char>)>,
    bs: Seq<(Seq<char>, Seq<char>)>,
) -> Result<VState, Failure>
    decreases cs.len(),
{
    if cs.len() == 0 {
        Ok(st0)
    } else {
        match new_fold(cs.drop_last(), st0, leaves, bs) {
            Err(e) => Err(e),
            Ok(st) => new_step(st, cs.last(), cs.len() - 1, leaves, bs),
        }
    }
}

/// What Incremental-mode validation writes and returns.
pub open spec fn validate_incremental_spec(
    asg: Seq<(Seq<char>, Seq<Seq<char>>)>,
    news: Seq<(Seq<char>, Seq<Seq<char>>)>,
    leaves: Seq<(Seq<char>, Seq<char>)>,
    bs: Seq<(Seq<char>, Seq<char>)>,
) -> (Seq<Seq<char>>, Result<Seq<ClusterView>, Seq<char>>) {
    finish(
        match assign_fold(asg, leaves, bs) {
            Err(e) => Err(e),
            Ok(st) => new_fold(news, st, leaves, bs),
        },
    )
}

proof fn lemma_lenient_ok(
    refs: Seq<Seq<char>>,
    leaves: Seq<(Seq<char>, Seq<char>)>,
    label: Seq<char>,
)
    ensures
        resolve_refs(refs, leaves, label, false) is Ok,
    decreases refs.len(),
{
    if refs.len() > 0 {
        lemma_lenient_ok(refs.drop_last(), leaves, label);
    }
}

proof fn lemma_assign_err_sticky(
    asg: Seq<(Seq<char>, Seq<Seq<char>>)>,
    leaves: Seq<(Seq<char>, Seq<char>)>,
    bs: Seq<(Seq<char>, Seq<char>)>,
    k: int,
)
    requires
        0 <= k <= asg.len(),
        assign_fold(asg.take(k), leaves, bs) is Err,
    ensures
        assign_fold(asg, leaves, bs) == assign_fold(asg.take(k), leaves, bs),
    decreases asg.len(),
{
    if k == asg.len() {
        assert(asg.take(k) =~= asg);
    } else {
        assert(asg.drop_last().take(k) =~= asg.take(k));
        lemma_assign_err_sticky(asg.drop_last(), leaves, bs, k);
    }
}

proof fn lemma_new_err_sticky(
    cs: Seq<(Seq<char>, Seq<Seq<char>>)>,
    st0: VState,
    leaves: Seq<(Seq<char>, Seq<char>)>,
    bs: Seq<(Seq<char>, Seq<char>)>,
    k: int,
)
    requires
        0 <= k <= cs.len(),
        new_fold(cs.take(k), st0, leaves, bs) is Err,
    ensures
        new_fold(cs, st0, leaves, bs) == new_fold(cs.take(k), st0, leaves, bs),
    decreases cs.len(),
{
    if k == cs.len() {
        assert(cs.take(k) =~= cs);
    } else {
        assert(cs.drop_last().take(k) =~= cs.take(k));
        lemma_new_err_sticky(cs.drop_last(), st0, leaves, bs, k);
    }
}

fn branch_title(branches: &Vec<Branch>, slug: &str) -> (r: Option<String>)
    ensures
        opt_text(r) == pair_lookup(branch_pairs(branches@), slug@),
{
    let ghost all = branch_pairs(branches@);
    assert(all.subrange(0, all.len() as int) =~= all);
    let mut i: usize = 0;
    while i < branches.len()
        invariant
            i <= branches.len(),
            all == branch_pairs(branches@),
            pair_lookup(all, slug@) == pair_lookup(all.subrange(i as int, all.len() as int), slug@),
        decreases branches.len() - i,
    {
        let ghost rest = all.subrange(i as int, all.len() as int);
        assert(rest[0] == all[i as int]);
        if str_eq(branches[i].slug.as_str(), slug) {
            return Some(branches[i].title.clone());
        }
        assert(rest.drop_first() =~= all.subrange(i + 1, all.len() as int));
        i += 1;
    }
    None
}

fn title_taken_exec(branches: &Vec<Branch>, low: &str) -> (r: bool)
    ensures
        r == title_taken(branch_pairs(branches@), low@),
{
    let ghost bs = branch_pairs(branches@);
    let mut i: usize = 0;
    while i < branches.len()
        invariant
            i <= branches.len(),
            bs == branch_pairs(branches@),
            forall|j: int| 0 <= j < i ==> lowercase(#[trigger] bs[j].1) != low@,
        decreases branches.len() - i,
    {
        let t = to_lowercase(branches[i].title.as_str());
        assert(bs[i as int].1 == branches@[i as int].title@);
        if str_eq(t.as_str(), low) {
            return true;
        }
        i += 1;
    }
    false
}

fn has_blank_exec(refs: &Vec<String>) -> (r: bool)
    ensures
        r == has_blank(strs(refs@)),
{
    let ghost rs = strs(refs@);
    let mut i: usize = 0;
    while i < refs.len()
        invariant
            i <= refs.len(),
            rs == strs(refs@),
            forall|j: int| 0 <= j < i ==> trim(#[trigger] rs[j]).len() != 0,
        decreases refs.len() - i,
    {
        assert(rs[i as int] == refs@[i as int]@);
        if crate::text::is_blank_str(refs[i].as_str()) {
            return true;
        }
        i += 1;
    }
    false
}

fn assign_step_exec(
    p: &mut Progress,
    a: &BranchAssignment,
    branches: &Vec<Branch>,
    leaves: &[LoadedLeaf],
    warnings: &mut Vec<String>,
    Ghost(st): Ghost<VState>,
    Ghost(base): Ghost<Seq<Seq<char>>>,
) -> (r: Result<(), String>)
    requires
        progress_matches(*old(p), st, base, old(warnings)@),
    ensures
        match assign_step(st, (a.branch_slug@, strs(a.leaf_slugs@)), leaf_keys(leaves@), branch_pairs(branches@)) {
            Ok(st2) => r is Ok && progress_matches(*final(p), st2, base, final(warnings)@),
            Err((w, m)) => r matches Err(msg) && msg@ == m && strs(final(warnings)@) == base + w,
        },
{
    let slug = a.branch_slug.as_str();
    let btitle = match branch_title(branches, slug) {
        None => {
            let msg = cat3("warning: assignment references unknown branch '", slug, "' — assignment dropped");
            let ghost m = msg@;
            push_string(warnings, msg);
            assert(strs(warnings@) =~= base + st.warnings.push(m));
            return Ok(());
        },
        Some(t) => t,
    };
    if crate::text::strings_contain(&p.slugs, slug) {
        return Err(cat3("invalid cluster response: duplicate assignment to branch '", slug, "'"));
    }
    push_string(&mut p.slugs, owned(slug));
    let label = cat3("assignment to '", slug, "'");
    proof {
        lemma_lenient_ok(strs(a.leaf_slugs@), leaf_keys(leaves@), label@);
    }
    let ghost res = resolve_refs(strs(a.leaf_slugs@), leaf_keys(leaves@), label@, false)->Ok_0;
    let (files, dropped) = match resolve_refs_exec(&a.leaf_slugs, leaves, label.as_str(), false, warnings) {
        Ok(x) => x,
        Err(()) => {
            return Err(owned(""));
        },
    };
    if has_blank_exec(&a.leaf_slugs) {
        return Err(cat3("invalid cluster response: assignment to '", slug, "' has an empty leaf reference"));
    }
    if files.len() == 0 {
        if dropped {
            let msg = cat3(
                "warning: assignment to '",
                slug,
                "' has no valid leaves after removing unknown refs — assignment dropped",
            );
            let ghost m = msg@;
            push_string(warnings, msg);
            assert(strs(warnings@) =~= base + (st.warnings + res.warnings).push(m));
        } else {
            assert(strs(warnings@) =~= base + (st.warnings + res.warnings));
        }
        return Ok(());
    }
    let ghost d = dedup_files(res.files, st.assigned, btitle@);
    let kept = dedup_exec(files, &mut p.assigned, btitle.as_str(), warnings);
    if kept.len() == 0 {
        let msg = cat3("warning: assignment to '", slug, "' has no leaves after dedup — assignment dropped");
        let ghost m = msg@;
        push_string(warnings, msg);
        assert(strs(warnings@) =~= base + (st.warnings + res.warnings + d.warnings).push(m));
        return Ok(());
    }
    let ghost before = p.clusters@;
    let vc = ValidatedCluster { title: btitle, leaf_files: kept, existing_branch_slug: owned(slug) };
    p.clusters.push(vc);
    assert(clusters_view(p.clusters@) =~= clusters_view(before).push(vc@));
    assert(strs(warnings@) =~= base + (st.warnings + res.warnings + d.warnings));
    Ok(())
}

fn new_step_exec(
    p: &mut Progress,
    c: &ClusterAssignment,
    idx: usize,
    branches: &Vec<Branch>,
    leaves: &[LoadedLeaf],
    warnings: &mut Vec<String>,
    Ghost(st): Ghost<VState>,
    Ghost(base): Ghost<Seq<Seq<char>>>,
) -> (r: Result<(), String>)
    requires
        progress_matches(*old(p), st, base, old(warnings)@),
        idx < usize::MAX,
    ensures
        match new_step(st, (c.title@, strs(c.leaf_slugs@)), idx as int, leaf_keys(leaves@), branch_pairs(branches@)) {
            Ok(st2) => r is Ok && progress_matches(*final(p), st2, base, final(warnings)@),
            Err((w, m)) => r matches Err(msg) && msg@ == m && strs(final(warnings)@) == base + w,
        },
{
    let title = trim_str(c.title.as_str());
    let low = to_lowercase(title.as_str());
    if title.as_str().is_empty() {
        let n = usize_to_string(idx + 1);
        return Err(cat3("invalid cluster response: new cluster #", n.as_str(), " has empty title"));
    }
    if crate::text::strings_contain(&p.seen, low.as_str()) {
        return Err(cat3("invalid cluster response: duplicate new cluster title '", title.as_str(), "'"));
    }
    if title_taken_exec(branches, low.as_str()) {
        return Err(cat3("invalid cluster response: new cluster title '", title.as_str(), "' collides with existing branch"));
    }
    push_string(&mut p.seen, low);
    let label = cat3("new cluster '", title.as_str(), "'");
    proof {
        lemma_lenient_ok(strs(c.leaf_slugs@), leaf_keys(leaves@), label@);
    }
    let ghost res = resolve_refs(strs(c.leaf_slugs@), leaf_keys(leaves@), label@, false)->Ok_0;
    let (files, dropped) = match resolve_refs_exec(&c.leaf_slugs, leaves, label.as_str(), false, warnings) {
        Ok(x) => x,
        Err(()) => {
            return Err(owned(""));
        },
    };
    if has_blank_exec(&c.leaf_slugs) {
        return Err(cat3("invalid cluster response: new cluster '", title.as_str(), "' has an empty leaf reference"));
    }
    if dropped && files.len() < 2 {
        let msg = cat3(
            "warning: new cluster '",
            title.as_str(),
            "' dropped below 2 leaves after removing unknown refs — cluster dropped",
        );
        let ghost m = msg@;
        push_string(warnings, msg);
        assert(strs(warnings@) =~= base + (st.warnings + res.warnings).push(m));
        return Ok(());
    }
    if files.len() < 2 {
        let n = usize_to_string(files.len());
        return Err(
            cat5(
                "invalid cluster response: new cluster '",
                title.as_str(),
                "' has ",
                n.as_str(),
                " leaf; clusters must have at least 2",
            ),
        );
    }
    let ghost d = dedup_files(res.files, st.assigned, title@);
    let kept = dedup_exec(files, &mut p.assigned, title.as_str(), warnings);
    if kept.len() < 2 {
        let msg = cat3(
            "warning: new cluster '",
            title.as_str(),
            "' dropped below 2 leaves after dedup — cluster dropped",
        );
        let ghost m = msg@;
        push_string(warnings, msg);
        assert(strs(warnings@) =~= base + (st.warnings + res.warnings + d.warnings).push(m));
        return Ok(());
    }
    let ghost before = p.clusters@;
    let vc = ValidatedCluster::new(title, kept);
    p.clusters.push(vc);
    assert(clusters_view(p.clusters@) =~= clusters_view(before).push(vc@));
    assert(strs(warnings@) =~= base + (st.warnings + res.warnings + d.warnings));
    Ok(())
}

/// Validates an Incremental-mode cluster response against the tree state.
///
/// Assignments come first, then new clusters. Repairs, with a warning: an
/// assignment to an unknown branch is dropped; unknown leaf references are
/// dropped, and the assignment with them when none remain, or the new
/// cluster when fewer than 2 remain; a leaf claimed earlier is dropped from
/// a later assignment or cluster, which is dropped when it has no leaf left
/// (an assignment) or fewer than 2 (a new cluster). Rejections: two
/// assignments to one branch; an empty leaf reference in an assignment to
/// a known branch or in a new cluster; a new cluster with an empty title, a
/// title repeated (ignoring case) or equal to an existing branch title
/// (ignoring case), or fewer than 2 leaves; and a response repaired away to
/// nothing.
pub fn validate_incremental_clusters(
    response: &IncrementalClusterResponse,
    state: &TreeState,
    loaded_leaves: &[LoadedLeaf],
    warnings: &mut Vec<String>,
) -> (r: Result<ValidatedClusters, CompileError>)
    ensures
        ({
            let out = validate_incremental_spec(
                branch_assignments_view(response.assignments@),
                assignments_view(response.new_clusters@),
                leaf_keys(loaded_leaves@),
                branch_pairs(state.branches@),
            );
            &&& strs(final(warnings)@) == strs(old(warnings)@) + out.0
            &&& validated_view(r) == out.1
        }),
        r matches Err(e) ==> e is Validation,
{
    let ghost asg = branch_assignments_view(response.assignments@);
    let ghost cs = assignments_view(response.new_clusters@);
    let ghost lk = leaf_keys(loaded_leaves@);
    let ghost bs = branch_pairs(state.branches@);
    let ghost base = strs(warnings@);
    let mut p = Progress { seen: Vec::new(), slugs: Vec::new(), assigned: Vec::new(), clusters: Vec::new() };
    proof {
        assert(asg.take(0) =~= seq![]);
        assert(strs(p.seen@) =~= seq![]);
        assert(strs(p.slugs@) =~= seq![]);
        assert(pairs_view(p.assigned@) =~= seq![]);
        assert(clusters_view(p.clusters@) =~= seq![]);
        assert(base + seq![] =~= base);
    }
    let mut i: usize = 0;
    while i < response.assignments.len()
        invariant
            i <= response.assignments.len(),
            asg == branch_assignments_view(response.assignments@),
            lk == leaf_keys(loaded_leaves@),
            bs == branch_pairs(state.branches@),
            base == strs(old(warnings)@),
            assign_fold(asg.take(i as int), lk, bs) matches Ok(st) && progress_matches(p, st, base, warnings@),
        decreases response.assignments.len() - i,
    {
        let ghost st = assign_fold(asg.take(i as int), lk, bs)->Ok_0;
        assert(asg.take(i + 1).drop_last() =~= asg.take(i as int));
        assert(asg.take(i + 1).last() == asg[i as int]);
        match assign_step_exec(&mut p, &response.assignments[i], &state.branches, loaded_leaves, warnings, Ghost(st), Ghost(base)) {
            Err(m) => {
                proof {
                    lemma_assign_err_sticky(asg, lk, bs, i + 1);
                }
                return Err(CompileError::Validation(m));
            },
            Ok(()) => {},
        }
        i += 1;
    }
    assert(asg.take(response.assignments.len() as int) =~= asg);
    let ghost st0 = assign_fold(asg, lk, bs)->Ok_0;
    assert(cs.take(0) =~= seq![]);
    let mut k: usize = 0;
    while k < response.new_clusters.len()
        invariant
            k <= response.new_clusters.len(),
            cs == assignments_view(response.new_clusters@),
            asg == branch_assignments_view(response.assignments@),
            assign_fold(asg, lk, bs) == Ok::<VState, Failure>(st0),
            lk == leaf_keys(loaded_leaves@),
            bs == branch_pairs(state.branches@),
            base == strs(old(warnings)@),
            new_fold(cs.take(k as int), st0, lk, bs) matches Ok(st) && progress_matches(p, st, base, warnings@),
        decreases response.new_clusters.len() - k,
    {
        let ghost st = new_fold(cs.take(k as int), st0, lk, bs)->Ok_0;
        assert(cs.take(k + 1).drop_last() =~= cs.take(k as int));
        assert(cs.take(k + 1).last() == cs[k as int]);
        match new_step_exec(&mut p, &response.new_clusters[k], k, &state.branches, loaded_leaves, warnings, Ghost(st), Ghost(base)) {
            Err(m) => {
                proof {
                    lemma_new_err_sticky(cs, st0, lk, bs, k + 1);
                }
                return Err(CompileError::Validation(m));
            },
            Ok(()) => {},
        }
        k += 1;
    }
    assert(cs.take(response.new_clusters.len() as int) =~= cs);
    if p.clusters.len() == 0 {
        return Err(
            CompileError::Validation(
                owned(
                    "invalid cluster response: every cluster was repaired away — no valid clusters remain",
                ),
            ),
        );
    }
    Ok(ValidatedClusters { clusters: p.clusters })
}

// ── laws ─────────────────────────────────────────────────────────────────────

/// No text occurs twice.
pub open spec fn distinct(s: Seq<Seq<char>>) -> bool {
    forall|a: int, b: int| 0 <= a < b < s.len() ==> s[a] != s[b]
}

/// `f` is the filename of one of the leaves.
pub open spec fn known_file(leaves: Seq<(Seq<char>, Seq<char>)>, f: Seq<char>) -> bool {
    exists|k: int| 0 <= k < leaves.len() && leaves[k].1 == f
}

/// Some pair has `f` as its key.
pub open spec fn claims(s: Seq<(Seq<char>, Seq<char>)>, f: Seq<char>) -> bool {
    exists|i: int| 0 <= i < s.len() && s[i].0 == f
}

/// A cluster of at least `min` known leaf files, none repeated.
pub open spec fn cluster_ok(c: ClusterView, leaves: Seq<(Seq<char>, Seq<char>)>, min: nat) -> bool {
    &&& c.leaf_files.len() >= min
    &&& distinct(c.leaf_files)
    &&& forall|a: int| 0 <= a < c.leaf_files.len() ==> known_file(leaves, #[trigger] c.leaf_files[a])
}

/// No leaf file is in two clusters.
pub open spec fn disjoint_clusters(vs: Seq<ClusterView>) -> bool {
    forall|i: int, j: int, a: int, b: int|
        #![trigger vs[i].leaf_files[a], vs[j].leaf_files[b]]
        0 <= i < j < vs.len() && 0 <= a < vs[i].leaf_files.len() && 0 <= b < vs[j].leaf_files.len()
            ==> vs[i].leaf_files[a] != vs[j].leaf_files[b]
}

/// No two clusters have titles equal ignoring case.
pub open spec fn distinct_titles(vs: Seq<ClusterView>) -> bool {
    forall|i: int, j: int| 0 <= i < j < vs.len() ==> lowercase(#[trigger] vs[i].title) != lowercase(#[trigger] vs[j].title)
}

pub proof fn lemma_pair_lookup_claims(s: Seq<(Seq<char>, Seq<char>)>, k: Seq<char>)
    ensures
        (pair_lookup(s, k) is Some) == claims(s, k),
    decreases s.len(),
{
    if s.len() > 0 {
        lemma_pair_lookup_claims(s.drop_first(), k);
        if claims(s.drop_first(), k) {
            let i = choose|i: int| 0 <= i < s.drop_first().len() && s.drop_first()[i].0 == k;
            assert(s[i + 1].0 == k);
        }
        if claims(s, k) && s[0].0 != k {
            let i = choose|i: int| 0 <= i < s.len() && s[i].0 == k;
            assert(s.drop_first()[i - 1].0 == k);
        }
    }
}

proof fn lemma_resolve_leaf_known(leaves: Seq<(Seq<char>, Seq<char>)>, key: Seq<char>)
    ensures
        resolve_leaf(leaves, key) matches Some(f) ==> known_file(leaves, f),
    decreases leaves.len(),
{
    if leaves.len() > 0 {
        lemma_resolve_leaf_known(leaves.drop_first(), key);
        if !(lowercase(leaves[0].0) == key || lowercase(leaves[0].1) == key) {
            if let Some(f) = resolve_leaf(leaves.drop_first(), key) {
                let k = choose|k: int| 0 <= k < leaves.drop_first().len() && leaves.drop_first()[k].1 == f;
                assert(leaves[k + 1].1 == f);
            }
        }
    }
}

proof fn lemma_resolve_refs(
    refs: Seq<Seq<char>>,
    leaves: Seq<(Seq<char>, Seq<char>)>,
    label: Seq<char>,
    strict: bool,
)
    ensures
        resolve_refs(refs, leaves, label, strict) matches Ok(res) ==> distinct(res.files) && forall|a: int|
            0 <= a < res.files.len() ==> known_file(leaves, #[trigger] res.files[a]),
    decreases refs.len(),
{
    if refs.len() > 0 {
        lemma_resolve_refs(refs.drop_last(), leaves, label, strict);
        lemma_resolve_leaf_known(leaves, lowercase(trim(refs.last())));
    }
}

proof fn lemma_dedup(files: Seq<Seq<char>>, a: Seq<(Seq<char>, Seq<char>)>, t: Seq<char>)
    ensures
        ({
            let d = dedup_files(files, a, t);
            &&& distinct(files) ==> distinct(d.kept)
            &&& forall|i: int| 0 <= i < d.kept.len() ==> files.contains(#[trigger] d.kept[i])
            &&& forall|i: int| 0 <= i < d.kept.len() ==> !claims(a, #[trigger] d.kept[i])
            &&& d.assigned == a + d.kept.map_values(|f: Seq<char>| (f, t))
        }),
    decreases files.len(),
{
    if files.len() > 0 {
        let acc = dedup_files(files.drop_last(), a, t);
        let f = files.last();
        lemma_dedup(files.drop_last(), a, t);
        assert(distinct(files) ==> distinct(files.drop_last()));
        assert forall|i: int| 0 <= i < acc.kept.len() implies files.contains(#[trigger] acc.kept[i]) by {
            let j = choose|j: int| 0 <= j < files.drop_last().len() && files.drop_last()[j] == acc.kept[i];
            assert(files[j] == acc.kept[i]);
        }
        lemma_pair_lookup_claims(acc.assigned, f);
        if pair_lookup(acc.assigned, f) is None {
            let m = acc.kept.map_values(|g: Seq<char>| (g, t));
            if claims(a, f) {
                let i = choose|i: int| 0 <= i < a.len() && a[i].0 == f;
                assert(acc.assigned[i] == a[i]);
            }
            assert forall|i: int| 0 <= i < acc.kept.len() implies acc.kept[i] != f by {
                assert(acc.assigned[a.len() + i] == m[i]);
            }
            assert(files.contains(f)) by {
                assert(files[files.len() - 1] == f);
            }
            assert(acc.assigned.push((f, t)) =~= a + acc.kept.push(f).map_values(|g: Seq<char>| (g, t)));
        }
    } else {
        assert(a + seq![].map_values(|g: Seq<char>| (g, t)) =~= a);
    }
}

/// What a Full-mode validation keeps true as it goes.
pub open spec fn full_inv(st: VState, leaves: Seq<(Seq<char>, Seq<char>)>) -> bool {
    &&& forall|i: int| 0 <= i < st.clusters.len() ==> cluster_ok(#[trigger] st.clusters[i], leaves, 2)
    &&& forall|i: int| 0 <= i < st.clusters.len() ==> (#[trigger] st.clusters[i]).existing_branch_slug.len() == 0
    &&& disjoint_clusters(st.clusters)
    &&& forall|i: int, a: int| 0 <= i < st.clusters.len() && 0 <= a < st.clusters[i].leaf_files.len()
        ==> claims(st.assigned, #[trigger] st.clusters[i].leaf_files[a])
    &&& forall|i: int| 0 <= i < st.clusters.len() ==> st.seen.contains(lowercase(#[trigger] st.clusters[i].title))
    &&& distinct_titles(st.clusters)
}

pub proof fn lemma_claims_append(a: Seq<(Seq<char>, Seq<char>)>, m: Seq<(Seq<char>, Seq<char>)>, f: Seq<char>)
    ensures
        claims(a, f) ==> claims(a + m, f),
        claims(m, f) ==> claims(a + m, f),
        claims(a + m, f) ==> claims(a, f) || claims(m, f),
{
    if claims(a, f) {
        let i = choose|i: int| 0 <= i < a.len() && a[i].0 == f;
        assert((a + m)[i] == a[i]);
    }
    if claims(m, f) {
        let i = choose|i: int| 0 <= i < m.len() && m[i].0 == f;
        assert((a + m)[a.len() + i] == m[i]);
    }
    if claims(a + m, f) {
        let i = choose|i: int| 0 <= i < (a + m).len() && (a + m)[i].0 == f;
        if i >= a.len() {
            assert(m[i - a.len()].0 == f);
        }
    }
}

/// Pushing a cluster whose files nobody claims keeps clusters disjoint and
/// every clustered file claimed, once the files are claimed.
proof fn lemma_push_cluster(
    st: VState,
    assigned: Seq<(Seq<char>, Seq<char>)>,
    c: ClusterView,
    kept_map: Seq<(Seq<char>, Seq<char>)>,
)
    requires
        disjoint_clusters(st.clusters),
        forall|i: int, a: int| 0 <= i < st.clusters.len() && 0 <= a < st.clusters[i].leaf_files.len()
            ==> claims(st.assigned, #[trigger] st.clusters[i].leaf_files[a]),
        forall|a: int| 0 <= a < c.leaf_files.len() ==> !claims(st.assigned, #[trigger] c.leaf_files[a]),
        assigned == st.assigned + kept_map,
        forall|a: int| 0 <= a < c.leaf_files.len() ==> claims(kept_map, #[trigger] c.leaf_files[a]),
    ensures
        disjoint_clusters(st.clusters.push(c)),
        forall|i: int, a: int| 0 <= i < st.clusters.push(c).len() && 0 <= a < st.clusters.push(c)[i].leaf_files.len()
            ==> claims(assigned, #[trigger] st.clusters.push(c)[i].leaf_files[a]),
{
    let vs = st.clusters.push(c);
    assert forall|i: int, j: int, a: int, b: int|
        0 <= i < j < vs.len() && 0 <= a < vs[i].leaf_files.len() && 0 <= b < vs[j].leaf_files.len()
            implies #[trigger] vs[i].leaf_files[a] != #[trigger] vs[j].leaf_files[b] by {
        if j == st.clusters.len() {
            assert(vs[i] == st.clusters[i]);
            assert(claims(st.assigned, st.clusters[i].leaf_files[a]));
            assert(!claims(st.assigned, c.leaf_files[b]));
        } else {
            assert(vs[i] == st.clusters[i]);
            assert(vs[j] == st.clusters[j]);
        }
    }
    assert forall|i: int, a: int| 0 <= i < vs.len() && 0 <= a < vs[i].leaf_files.len()
        implies claims(assigned, #[trigger] vs[i].leaf_files[a]) by {
        lemma_claims_append(st.assigned, kept_map, vs[i].leaf_files[a]);
        if i < st.clusters.len() {
            assert(vs[i] == st.clusters[i]);
        }
    }
}

proof fn lemma_kept_claimed(kept: Seq<Seq<char>>, t: Seq<char>)
    ensures
        forall|a: int| 0 <= a < kept.len() ==> claims(kept.map_values(|f: Seq<char>| (f, t)), #[trigger] kept[a]),
{
    assert forall|a: int| 0 <= a < kept.len() implies claims(kept.map_values(|f: Seq<char>| (f, t)), #[trigger] kept[a]) by {
        assert(kept.map_values(|f: Seq<char>| (f, t))[a].0 == kept[a]);
    }
}

#[verifier::rlimit(40)]
proof fn lemma_full_step_inv(
    st: VState,
    c: (Seq<char>, Seq<Seq<char>>),
    idx: int,
    leaves: Seq<(Seq<char>, Seq<char>)>,
)
    requires
        full_inv(st, leaves),
    ensures
        full_step(st, c, idx, leaves) matches Ok(st2) ==> full_inv(st2, leaves),
{
    let title = trim(c.0);
    let low = lowercase(title);
    lemma_resolve_refs(c.1, leaves, cluster_label(title), true);
    if title.len() > 0 && !st.seen.contains(low) {
        if let Ok(res) = resolve_refs(c.1, leaves, cluster_label(title), true) {
            if !(res.dropped && res.files.len() < 2) && res.files.len() >= 2 {
                let d = dedup_files(res.files, st.assigned, title);
                lemma_dedup(res.files, st.assigned, title);
                if d.kept.len() >= 2 {
                    let cv = ClusterView { title, leaf_files: d.kept, existing_branch_slug: seq![] };
                    let st2 = full_step(st, c, idx, leaves)->Ok_0;
                    let kept_map = d.kept.map_values(|f: Seq<char>| (f, title));
                    lemma_kept_claimed(d.kept, title);
                    lemma_push_cluster(st, d.assigned, cv, kept_map);
                    assert(st2.clusters == st.clusters.push(cv));
                    assert forall|a: int| 0 <= a < cv.leaf_files.len() implies known_file(leaves, #[trigger] cv.leaf_files[a]) by {
                        let j = choose|j: int| 0 <= j < res.files.len() && res.files[j] == cv.leaf_files[a];
                        assert(known_file(leaves, res.files[j]));
                    }
                    assert(cluster_ok(cv, leaves, 2));
                    assert forall|i: int| 0 <= i < st2.clusters.len() implies st2.seen.contains(lowercase(#[trigger] st2.clusters[i].title)) by {
                        if i < st.clusters.len() {
                            assert(st2.clusters[i] == st.clusters[i]);
                            let k = choose|k: int| 0 <= k < st.seen.len() && st.seen[k] == lowercase(st.clusters[i].title);
                            assert(st2.seen[k] == st.seen[k]);
                        } else {
                            assert(st2.seen[st.seen.len() as int] == low);
                        }
                    }
                    assert forall|i: int, j: int| 0 <= i < j < st2.clusters.len() implies lowercase(#[trigger] st2.clusters[i].title) != lowercase(#[trigger] st2.clusters[j].title) by {
                        assert(st2.clusters[i] == st.clusters[i]);
                        if j < st.clusters.len() {
                            assert(st2.clusters[j] == st.clusters[j]);
                        } else {
                            assert(st.seen.contains(lowercase(st.clusters[i].title)));
                        }
                    }
                    assert forall|i: int| 0 <= i < st2.clusters.len() implies cluster_ok(#[trigger] st2.clusters[i], leaves, 2) by {
                        if i < st.clusters.len() {
                            assert(st2.clusters[i] == st.clusters[i]);
                        }
                    }
                    assert forall|i: int| 0 <= i < st2.clusters.len() implies (#[trigger] st2.clusters[i]).existing_branch_slug.len() == 0 by {
                        if i < st.clusters.len() {
                            assert(st2.clusters[i] == st.clusters[i]);
                        }
                    }
                } else {
                    let st2 = full_step(st, c, idx, leaves)->Ok_0;
                    assert(st2.clusters == st.clusters);
                    assert forall|i: int, a: int| 0 <= i < st2.clusters.len() && 0 <= a < st2.clusters[i].leaf_files.len()
                        implies claims(st2.assigned, #[trigger] st2.clusters[i].leaf_files[a]) by {
                        lemma_claims_append(st.assigned, d.kept.map_values(|f: Seq<char>| (f, title)), st.clusters[i].leaf_files[a]);
                    }
                    assert forall|i: int| 0 <= i < st2.clusters.len() implies st2.seen.contains(lowercase(#[trigger] st2.clusters[i].title)) by {
                        let k = choose|k: int| 0 <= k < st.seen.len() && st.seen[k] == lowercase(st.clusters[i].title);
                        assert(st2.seen[k] == st.seen[k]);
                    }
                }
            } else if res.dropped && res.files.len() < 2 {
                let st2 = full_step(st, c, idx, leaves)->Ok_0;
                assert forall|i: int| 0 <= i < st2.clusters.len() implies st2.seen.contains(lowercase(#[trigger] st2.clusters[i].title)) by {
                    let k = choose|k: int| 0 <= k < st.seen.len() && st.seen[k] == lowercase(st.clusters[i].title);
                    assert(st2.seen[k] == st.seen[k]);
                }
            }
        }
    }
}

proof fn lemma_full_fold_inv(cs: Seq<(Seq<char>, Seq<Seq<char>>)>, leaves: Seq<(Seq<char>, Seq<char>)>)
    ensures
        full_fold(cs, leaves) matches Ok(st) ==> full_inv(st, leaves),
    decreases cs.len(),
{
    if cs.len() > 0 {
        lemma_full_fold_inv(cs.drop_last(), leaves);
        if let Ok(st) = full_fold(cs.drop_last(), leaves) {
            lemma_full_step_inv(st, cs.last(), cs.len() - 1, leaves);
        }
    }
}

/// A Full-mode validation that succeeds returns at least one cluster; each
/// has at least two leaves, all of them known leaf filenames and none
/// repeated; no leaf is in two clusters; no two titles are equal ignoring
/// case; and none names an existing branch.
pub proof fn lemma_validate_clusters_well_formed(
    cs: Seq<(Seq<char>, Seq<Seq<char>>)>,
    leaves: Seq<(Seq<char>, Seq<char>)>,
)
    ensures
        validate_full_spec(cs, leaves).1 matches Ok(vs) ==> {
            &&& vs.len() > 0
            &&& forall|i: int| 0 <= i < vs.len() ==> cluster_ok(#[trigger] vs[i], leaves, 2)
            &&& forall|i: int| 0 <= i < vs.len() ==> (#[trigger] vs[i]).existing_branch_slug.len() == 0
            &&& disjoint_clusters(vs)
            &&& distinct_titles(vs)
        },
{
    lemma_full_fold_inv(cs, leaves);
}

/// What an Incremental-mode validation keeps true as it goes.
pub open spec fn inc_inv(st: VState, leaves: Seq<(Seq<char>, Seq<char>)>, bs: Seq<(Seq<char>, Seq<char>)>) -> bool {
    &&& forall|i: int| 0 <= i < st.clusters.len() ==> inc_cluster_ok(#[trigger] st.clusters[i], leaves, bs)
    &&& disjoint_clusters(st.clusters)
    &&& forall|i: int, a: int| 0 <= i < st.clusters.len() && 0 <= a < st.clusters[i].leaf_files.len()
        ==> claims(st.assigned, #[trigger] st.clusters[i].leaf_files[a])
}

/// An assignment cluster names an existing branch and carries its title and
/// at least one known leaf; a new cluster has at least two known leaves and
/// a title no existing branch has, ignoring case.
pub open spec fn inc_cluster_ok(c: ClusterView, leaves: Seq<(Seq<char>, Seq<char>)>, bs: Seq<(Seq<char>, Seq<char>)>) -> bool {
    &&& cluster_ok(c, leaves, 1)
    &&& c.existing_branch_slug.len() > 0 ==> pair_lookup(bs, c.existing_branch_slug) == Some(c.title)
    &&& c.existing_branch_slug.len() == 0 ==> c.leaf_files.len() >= 2 && !title_taken(bs, lowercase(c.title))
}

proof fn lemma_inc_inv_grow(
    st: VState,
    st2: VState,
    m: Seq<(Seq<char>, Seq<char>)>,
    leaves: Seq<(Seq<char>, Seq<char>)>,
    bs: Seq<(Seq<char>, Seq<char>)>,
)
    requires
        inc_inv(st, leaves, bs),
        st2.clusters == st.clusters,
        st2.assigned == st.assigned + m,
    ensures
        inc_inv(st2, leaves, bs),
{
    assert forall|i: int, a: int| 0 <= i < st2.clusters.len() && 0 <= a < st2.clusters[i].leaf_files.len()
        implies claims(st2.assigned, #[trigger] st2.clusters[i].leaf_files[a]) by {
        lemma_claims_append(st.assigned, m, st.clusters[i].leaf_files[a]);
    }
}

proof fn lemma_inc_push(
    st: VState,
    st2: VState,
    res_files: Seq<Seq<char>>,
    cv: ClusterView,
    leaves: Seq<(Seq<char>, Seq<char>)>,
    bs: Seq<(Seq<char>, Seq<char>)>,
)
    requires
        inc_inv(st, leaves, bs),
        forall|a: int| 0 <= a < res_files.len() ==> known_file(leaves, #[trigger] res_files[a]),
        distinct(res_files),
        cv.leaf_files == dedup_files(res_files, st.assigned, cv.title).kept,
        cv.leaf_files.len() >= 1,
        cv.existing_branch_slug.len() > 0 ==> pair_lookup(bs, cv.existing_branch_slug) == Some(cv.title),
        cv.existing_branch_slug.len() == 0 ==> cv.leaf_files.len() >= 2 && !title_taken(bs, lowercase(cv.title)),
        st2.clusters == st.clusters.push(cv),
        st2.assigned == dedup_files(res_files, st.assigned, cv.title).assigned,
    ensures
        inc_inv(st2, leaves, bs),
{
    let d = dedup_files(res_files, st.assigned, cv.title);
    lemma_dedup(res_files, st.assigned, cv.title);
    let kept_map = d.kept.map_values(|f: Seq<char>| (f, cv.title));
    lemma_kept_claimed(d.kept, cv.title);
    lemma_push_cluster(st, d.assigned, cv, kept_map);
    assert forall|a: int| 0 <= a < cv.leaf_files.len() implies known_file(leaves, #[trigger] cv.leaf_files[a]) by {
        let j = choose|j: int| 0 <= j < res_files.len() && res_files[j] == cv.leaf_files[a];
        assert(known_file(leaves, res_files[j]));
    }
    assert(inc_cluster_ok(cv, leaves, bs));
    assert forall|i: int| 0 <= i < st2.clusters.len() implies inc_cluster_ok(#[trigger] st2.clusters[i], leaves, bs) by {
        if i < st.clusters.len() {
            assert(st2.clusters[i] == st.clusters[i]);
        }
    }
}

#[verifier::rlimit(40)]
proof fn lemma_assign_step_inv(
    st: VState,
    a: (Seq<char>, Seq<Seq<char>>),
    leaves: Seq<(Seq<char>, Seq<char>)>,
    bs: Seq<(Seq<char>, Seq<char>)>,
)
    requires
        inc_inv(st, leaves, bs),
        forall|j: int| 0 <= j < bs.len() ==> (#[trigger] bs[j]).0.len() > 0,
    ensures
        assign_step(st, a, leaves, bs) matches Ok(st2) ==> inc_inv(st2, leaves, bs),
{
    if let Some(btitle) = pair_lookup(bs, a.0) {
        if !st.slugs.contains(a.0) && !has_blank(a.1) {
            lemma_lenient_ok(a.1, leaves, assignment_label(a.0));
            lemma_resolve_refs(a.1, leaves, assignment_label(a.0), false);
            let res = resolve_refs(a.1, leaves, assignment_label(a.0), false)->Ok_0;
            let st2 = assign_step(st, a, leaves, bs)->Ok_0;
            if res.files.len() == 0 {
                lemma_inc_inv_grow(st, st2, seq![], leaves, bs);
                assert(st.assigned + seq![] =~= st.assigned);
            } else {
                let d = dedup_files(res.files, st.assigned, btitle);
                lemma_dedup(res.files, st.assigned, btitle);
                if d.kept.len() == 0 {
                    lemma_inc_inv_grow(st, st2, d.kept.map_values(|f: Seq<char>| (f, btitle)), leaves, bs);
                } else {
                    let cv = ClusterView { title: btitle, leaf_files: d.kept, existing_branch_slug: a.0 };
                    lemma_pair_lookup_claims(bs, a.0);
                    let j = choose|j: int| 0 <= j < bs.len() && bs[j].0 == a.0;
                    assert(bs[j].0.len() > 0);
                    lemma_inc_push(st, st2, res.files, cv, leaves, bs);
                }
            }
        }
    }
}

#[verifier::rlimit(40)]
proof fn lemma_new_step_inv(
    st: VState,
    c: (Seq<char>, Seq<Seq<char>>),
    idx: int,
    leaves: Seq<(Seq<char>, Seq<char>)>,
    bs: Seq<(Seq<char>, Seq<char>)>,
)
    requires
        inc_inv(st, leaves, bs),
    ensures
        new_step(st, c, idx, leaves, bs) matches Ok(st2) ==> inc_inv(st2, leaves, bs),
{
    let title = trim(c.0);
    let low = lowercase(title);
    if title.len() > 0 && !st.seen.contains(low) && !title_taken(bs, low) && !has_blank(c.1) {
        lemma_lenient_ok(c.1, leaves, new_cluster_label(title));
        lemma_resolve_refs(c.1, leaves, new_cluster_label(title), false);
        let res = resolve_refs(c.1, leaves, new_cluster_label(title), false)->Ok_0;
        if res.files.len() >= 2 {
            let st2 = new_step(st, c, idx, leaves, bs)->Ok_0;
            let d = dedup_files(res.files, st.assigned, title);
            lemma_dedup(res.files, st.assigned, title);
            if d.kept.len() < 2 {
                lemma_inc_inv_grow(st, st2, d.kept.map_values(|f: Seq<char>| (f, title)), leaves, bs);
            } else {
                let cv = ClusterView { title, leaf_files: d.kept, existing_branch_slug: seq![] };
                lemma_inc_push(st, st2, res.files, cv, leaves, bs);
            }
        } else if res.dropped {
            let st2 = new_step(st, c, idx, leaves, bs)->Ok_0;
            lemma_inc_inv_grow(st, st2, seq![], leaves, bs);
            assert(st.assigned + seq![] =~= st.assigned);
        }
    }
}

proof fn lemma_assign_fold_inv(
    asg: Seq<(Seq<char>, Seq<Seq<char>>)>,
    leaves: Seq<(Seq<char>, Seq<char>)>,
    bs: Seq<(Seq<char>, Seq<char>)>,
)
    requires
        forall|j: int| 0 <= j < bs.len() ==> (#[trigger] bs[j]).0.len() > 0,
    ensures
        assign_fold(asg, leaves, bs) matches Ok(st) ==> inc_inv(st, leaves, bs),
    decreases asg.len(),
{
    if asg.len() > 0 {
        lemma_assign_fold_inv(asg.drop_last(), leaves, bs);
        if let Ok(st) = assign_fold(asg.drop_last(), leaves, bs) {
            lemma_assign_step_inv(st, asg.last(), leaves, bs);
        }
    }
}

proof fn lemma_new_fold_inv(
    cs: Seq<(Seq<char>, Seq<Seq<char>>)>,
    st0: VState,
    leaves: Seq<(Seq<char>, Seq<char>)>,
    bs: Seq<(Seq<char>, Seq<char>)>,
)
    requires
        inc_inv(st0, leaves, bs),
    ensures
        new_fold(cs, st0, leaves, bs) matches Ok(st) ==> inc_inv(st, leaves, bs),
    decreases cs.len(),
{
    if cs.len() > 0 {
        lemma_new_fold_inv(cs.drop_last(), st0, leaves, bs);
        if let Ok(st) = new_fold(cs.drop_last(), st0, leaves, bs) {
            lemma_new_step_inv(st, cs.last(), cs.len() - 1, leaves, bs);
        }
    }
}

/// An Incremental-mode validation that succeeds, over branches whose slugs
/// are not empty, returns at least one cluster, and no leaf is in two of
/// them. A cluster that updates a branch names an existing branch, carries
/// its title and has at least one known leaf; a new cluster has at least
/// two known leaves and a title that no existing branch has, ignoring case.
/// No cluster repeats a leaf.
pub proof fn lemma_validate_incremental_clusters_well_formed(
    asg: Seq<(Seq<char>, Seq<Seq<char>>)>,
    news: Seq<(Seq<char>, Seq<Seq<char>>)>,
    leaves: Seq<(Seq<char>, Seq<char>)>,
    bs: Seq<(Seq<char>, Seq<char>)>,
)
    requires
        forall|j: int| 0 <= j < bs.len() ==> (#[trigger] bs[j]).0.len() > 0,
    ensures
        validate_incremental_spec(asg, news, leaves, bs).1 matches Ok(vs) ==> {
            &&& vs.len() > 0
            &&& forall|i: int| 0 <= i < vs.len() ==> inc_cluster_ok(#[trigger] vs[i], leaves, bs)
            &&& disjoint_clusters(vs)
        },
{
    lemma_assign_fold_inv(asg, leaves, bs);
    assert(inc_inv(initial_vstate(), leaves, bs));
    if let Ok(st) = assign_fold(asg, leaves, bs) {
        lemma_new_fold_inv(news, st, leaves, bs);
    }
}

} // verus!
