//! The second stage of a two-stage compile: one model call per validated
//! cluster writes that cluster's branch. Membership comes from the cluster,
//! never from the model; a failed cluster is retried once and then dropped;
//! the stage fails only when every cluster failed.
//!
//! The model calls are the caller's part: it asks this module what each
//! reply means and what to do next.
use vstd::prelude::*;

use super::{compile_error_message, CompileError};
use super::cluster::{LoadedLeaf, ValidatedCluster};
use crate::json::{find_member, json_object, member, members_view, parse_json_object};
use crate::text::{cat, cat3, owned, push_str, push_string, str_eq, strings_contain, strs, trim, trim_str, is_blank_str};
use crate::tree::{Branch, Leaf, LeafView, leaves_view};

verus! {

/// A branch the model wrote for a cluster: its trimmed title and body, and
/// the cluster's leaf files.
#[derive(Debug, Clone)]
pub struct Stage2Branch {
    pub title: String,
    pub body: String,
    pub leaves: Vec<String>,
}

pub struct Stage2View {
    pub title: Seq<char>,
    pub body: Seq<char>,
    pub leaves: Seq<Seq<char>>,
}

impl View for Stage2Branch {
    type V = Stage2View;

    open spec fn view(&self) -> Stage2View {
        Stage2View { title: self.title@, body: self.body@, leaves: strs(self.leaves@) }
    }
}

/// The first member whose key is neither `title` nor `body`.
pub open spec fn first_unknown(ms: Seq<(Seq<char>, Option<Seq<char>>)>) -> Option<Seq<char>>
    decreases ms.len(),
{
    if ms.len() == 0 {
        None
    } else {
        match first_unknown(ms.drop_last()) {
            Some(k) => Some(k),
            None => if ms.last().0 != "title"@ && ms.last().0 != "body"@ {
                Some(ms.last().0)
            } else {
                None
            },
        }
    }
}

/// A reply object must hold exactly a string `title` and a string `body`.
pub open spec fn reply_fields(ms: Seq<(Seq<char>, Option<Seq<char>>)>) -> Result<(Seq<char>, Seq<char>), Seq<char>> {
    match first_unknown(ms) {
        Some(k) => Err("unknown field `"@ + k + "`, expected `title` or `body`"@),
        None => match member(ms, "title"@) {
            None => Err("missing field `title`"@),
            Some(None) => Err("invalid type for field `title`, expected a string"@),
            Some(Some(t)) => match member(ms, "body"@) {
                None => Err("missing field `body`"@),
                Some(None) => Err("invalid type for field `body`, expected a string"@),
                Some(Some(b)) => Ok((t, b)),
            },
        },
    }
}

fn first_unknown_exec(ms: &Vec<(String, Option<String>)>) -> (r: Option<String>)
    ensures
        match first_unknown(members_view(ms@)) {
            Some(k) => r matches Some(x) && x@ == k,
            None => r is None,
        },
{
    let ghost mv = members_view(ms@);
    let mut i: usize = 0;
    while i < ms.len()
        invariant
            i <= ms.len(),
            mv == members_view(ms@),
            first_unknown(mv.take(i as int)) is None,
        decreases ms.len() - i,
    {
        assert(mv.take(i + 1).drop_last() =~= mv.take(i as int));
        assert(mv.take(i + 1).last() == mv[i as int]);
        let k = ms[i].0.as_str();
        if !str_eq(k, "title") && !str_eq(k, "body") {
            proof {
                lemma_first_unknown_prefix(mv, i + 1);
            }
            return Some(owned(k));
        }
        i += 1;
    }
    assert(mv.take(ms.len() as int) =~= mv);
    None
}

proof fn lemma_first_unknown_prefix(s: Seq<(Seq<char>, Option<Seq<char>>)>, k: int)
    requires
        0 <= k <= s.len(),
        first_unknown(s.take(k)) is Some,
    ensures
        first_unknown(s) == first_unknown(s.take(k)),
    decreases s.len() - k,
{
    if k == s.len() {
        assert(s.take(k) =~= s);
    } else {
        assert(s.drop_last().take(k) =~= s.take(k));
        lemma_first_unknown_prefix(s.drop_last(), k);
    }
}

fn reply_fields_exec(ms: &Vec<(String, Option<String>)>) -> (r: Result<(String, String), String>)
    ensures
        match reply_fields(members_view(ms@)) {
            Ok((t, b)) => r matches Ok((x, y)) && x@ == t && y@ == b,
            Err(m) => r matches Err(e) && e@ == m,
        },
{
    match first_unknown_exec(ms) {
        Some(k) => {
            return Err(cat3("unknown field `", k.as_str(), "`, expected `title` or `body`"));
        },
        None => {},
    }
    let title = match find_member(ms, "title") {
        None => {
            return Err(owned("missing field `title`"));
        },
        Some(None) => {
            return Err(owned("invalid type for field `title`, expected a string"));
        },
        Some(Some(t)) => t,
    };
    let body = match find_member(ms, "body") {
        None => {
            return Err(owned("missing field `body`"));
        },
        Some(None) => {
            return Err(owned("invalid type for field `body`, expected a string"));
        },
        Some(Some(b)) => b,
    };
    Ok((title, body))
}

pub open spec fn invalid_reply(label: Seq<char>, why: Seq<char>) -> Seq<char> {
    "invalid stage-2 response for '"@ + label + "': "@ + why
}

/// What a cluster's reply means: the model's error, a reply that is not
/// the expected JSON object, a blank title or body, or the branch.
pub open spec fn stage2_spec(response: Result<Seq<char>, CompileError>, label: Seq<char>, leaves: Seq<Seq<char>>) -> Result<
    Stage2View,
    Seq<char>,
> {
    match response {
        Err(e) => Err("stage-2 LLM call failed for '"@ + label + "': "@ + compile_error_message(e)),
        Ok(text) => match json_object(text) {
            Err(e) => Err(invalid_reply(label, e)),
            Ok(None) => Err(invalid_reply(label, "expected a JSON object"@)),
            Ok(Some(ms)) => match reply_fields(ms) {
                Err(e) => Err(invalid_reply(label, e)),
                Ok((t, b)) => if trim(t).len() == 0 {
                    Err(invalid_reply(label, "empty title"@))
                } else if trim(b).len() == 0 {
                    Err(invalid_reply(label, "empty body"@))
                } else {
                    Ok(Stage2View { title: trim(t), body: trim(b), leaves })
                },
            },
        },
    }
}

pub open spec fn response_view(r: Result<String, CompileError>) -> Result<Seq<char>, CompileError> {
    match r {
        Ok(s) => Ok(s@),
        Err(e) => Err(e),
    }
}

/// Reads a stage-2 reply for the cluster called `cluster_label`, whose
/// leaves are `leaf_files`.
pub fn parse_stage2_response(response: &Result<String, CompileError>, cluster_label: &str, leaf_files: &Vec<String>) -> (r: Result<
    Stage2Branch,
    CompileError,
>)
    ensures
        match stage2_spec(response_view(*response), cluster_label@, strs(leaf_files@)) {
            Ok(v) => r matches Ok(b) && b@ == v,
            Err(m) => r matches Err(CompileError::Validation(e)) && e@ == m,
        },
{
    let text = match response {
        Err(e) => {
            let mut m = cat3("stage-2 LLM call failed for '", cluster_label, "': ");
            push_str(&mut m, e.message().as_str());
            return Err(CompileError::Validation(m));
        },
        Ok(t) => t,
    };
    let invalid = cat3("invalid stage-2 response for '", cluster_label, "': ");
    let ms = match parse_json_object(text.as_str()) {
        Err(e) => {
            return Err(CompileError::Validation(cat(invalid.as_str(), e.as_str())));
        },
        Ok(None) => {
            return Err(CompileError::Validation(cat(invalid.as_str(), "expected a JSON object")));
        },
        Ok(Some(ms)) => ms,
    };
    let (t, b) = match reply_fields_exec(&ms) {
        Err(e) => {
            return Err(CompileError::Validation(cat(invalid.as_str(), e.as_str())));
        },
        Ok(f) => f,
    };
    if is_blank_str(t.as_str()) {
        return Err(CompileError::Validation(cat(invalid.as_str(), "empty title")));
    }
    if is_blank_str(b.as_str()) {
        return Err(CompileError::Validation(cat(invalid.as_str(), "empty body")));
    }
    Ok(Stage2Branch { title: trim_str(t.as_str()), body: trim_str(b.as_str()), leaves: leaf_files.clone() })
}

// ── retry ────────────────────────────────────────────────────────────────────

/// What to do after a cluster's attempt.
#[derive(Debug)]
pub enum AttemptStep {
    /// The cluster has its branch.
    Done(Stage2Branch),
    /// Call the model again.
    Retry,
    /// The cluster is dropped, with this error.
    Dropped(CompileError),
}

/// After the first attempt: the branch, or one retry. After the second: the
/// branch, with a warning that it took a retry; or the cluster is dropped,
/// with a warning that names the error.
pub fn after_attempt(attempt: usize, parsed: Result<Stage2Branch, CompileError>, cluster_label: &str, warnings: &mut Vec<String>) -> (r: AttemptStep)
    requires
        attempt == 1 || attempt == 2,
    ensures
        attempt == 1 ==> match parsed {
            Ok(b) => r matches AttemptStep::Done(x) && x@ == b@,
            Err(_) => r is Retry,
        } && strs(final(warnings)@) == strs(old(warnings)@),
        attempt == 2 ==> match parsed {
            Ok(b) => r matches AttemptStep::Done(x) && x@ == b@ && strs(final(warnings)@) == strs(old(warnings)@).push(
                "warning: cluster '"@ + cluster_label@ + "' succeeded on retry"@,
            ),
            Err(e) => r matches AttemptStep::Dropped(x) && x == e && strs(final(warnings)@) == strs(old(warnings)@).push(
                "warning: cluster '"@ + cluster_label@ + "' failed after retry \u{2014} dropping (error: "@
                    + compile_error_message(e) + ")"@,
            ),
        },
{
    match parsed {
        Ok(b) => {
            if attempt == 2 {
                push_string(warnings, cat3("warning: cluster '", cluster_label, "' succeeded on retry"));
            }
            AttemptStep::Done(b)
        },
        Err(e) => {
            if attempt == 1 {
                return AttemptStep::Retry;
            }
            let mut m = cat3("warning: cluster '", cluster_label, "' failed after retry \u{2014} dropping (error: ");
            push_str(&mut m, e.message().as_str());
            push_str(&mut m, ")");
            push_string(warnings, m);
            AttemptStep::Dropped(e)
        },
    }
}

// ── leaves of a cluster ──────────────────────────────────────────────────────

/// The first loaded leaf with the given filename.
pub open spec fn leaf_by_file(leaves: Seq<LoadedLeaf>, file: Seq<char>) -> Option<LoadedLeaf>
    decreases leaves.len(),
{
    if leaves.len() == 0 {
        None
    } else {
        match leaf_by_file(leaves.drop_last(), file) {
            Some(l) => Some(l),
            None => if leaves.last().filename@ == file {
                Some(leaves.last())
            } else {
                None
            },
        }
    }
}

/// The loaded leaves of a cluster's files, in the cluster's order; files
/// with no loaded leaf are passed over.
pub open spec fn cluster_leaves_spec(files: Seq<Seq<char>>, leaves: Seq<LoadedLeaf>) -> Seq<LoadedLeaf>
    decreases files.len(),
{
    if files.len() == 0 {
        seq![]
    } else {
        let prev = cluster_leaves_spec(files.drop_last(), leaves);
        match leaf_by_file(leaves, files.last()) {
            Some(l) => prev.push(l),
            None => prev,
        }
    }
}

proof fn lemma_leaf_by_file_prefix(s: Seq<LoadedLeaf>, k: int, file: Seq<char>)
    requires
        0 <= k <= s.len(),
        leaf_by_file(s.take(k), file) is Some,
    ensures
        leaf_by_file(s, file) == leaf_by_file(s.take(k), file),
    decreases s.len() - k,
{
    if k == s.len() {
        assert(s.take(k) =~= s);
    } else {
        assert(s.drop_last().take(k) =~= s.take(k));
        lemma_leaf_by_file_prefix(s.drop_last(), k, file);
    }
}

fn find_leaf_by_file(leaves: &Vec<LoadedLeaf>, file: &str) -> (r: Option<usize>)
    ensures
        match r {
            Some(i) => i < leaves.len() && leaf_by_file(leaves@, file@) == Some(leaves@[i as int]),
            None => leaf_by_file(leaves@, file@) is None,
        },
{
    let mut i: usize = 0;
    while i < leaves.len()
        invariant
            i <= leaves.len(),
            leaf_by_file(leaves@.take(i as int), file@) is None,
        decreases leaves.len() - i,
    {
        assert(leaves@.take(i + 1).drop_last() =~= leaves@.take(i as int));
        if str_eq(leaves[i].filename.as_str(), file) {
            proof {
                lemma_leaf_by_file_prefix(leaves@, i + 1, file@);
            }
            return Some(i);
        }
        i += 1;
    }
    assert(leaves@.take(leaves.len() as int) =~= leaves@);
    None
}

/// A copy of a loaded leaf.
pub fn clone_loaded_leaf(l: &LoadedLeaf) -> (r: LoadedLeaf)
    ensures
        r == *l,
{
    LoadedLeaf {
        slug: l.slug.clone(),
        filename: l.filename.clone(),
        title: l.title.clone(),
        summary: crate::text::clone_opt_string(&l.summary),
        body: l.body.clone(),
        collected_at: l.collected_at.clone(),
    }
}

/// The loaded leaves of a cluster.
pub fn cluster_leaves(cluster: &ValidatedCluster, all_leaves: &Vec<LoadedLeaf>) -> (r: Vec<LoadedLeaf>)
    ensures
        r@ == cluster_leaves_spec(strs(cluster.leaf_files@), all_leaves@),
{
    let ghost fs = strs(cluster.leaf_files@);
    let mut out: Vec<LoadedLeaf> = Vec::new();
    let mut i: usize = 0;
    while i < cluster.leaf_files.len()
        invariant
            i <= cluster.leaf_files.len(),
            fs == strs(cluster.leaf_files@),
            out@ == cluster_leaves_spec(fs.take(i as int), all_leaves@),
        decreases cluster.leaf_files.len() - i,
    {
        assert(fs.take(i + 1).drop_last() =~= fs.take(i as int));
        assert(fs.take(i + 1).last() == cluster.leaf_files@[i as int]@);
        match find_leaf_by_file(all_leaves, cluster.leaf_files[i].as_str()) {
            Some(k) => out.push(clone_loaded_leaf(&all_leaves[k])),
            None => {},
        }
        i += 1;
    }
    assert(fs.take(cluster.leaf_files.len() as int) =~= fs);
    out
}

/// The first leaf record with the given slug.
pub open spec fn leaf_with_slug(leaves: Seq<LeafView>, slug: Seq<char>) -> Option<LeafView>
    decreases leaves.len(),
{
    if leaves.len() == 0 {
        None
    } else {
        match leaf_with_slug(leaves.drop_last(), slug) {
            Some(l) => Some(l),
            None => if leaves.last().slug == slug {
                Some(leaves.last())
            } else {
                None
            },
        }
    }
}

/// An update's leaf files: the cluster's, then the files of the existing
/// branch's leaves that are not among them yet.
pub open spec fn merged_files(acc: Seq<Seq<char>>, slugs: Seq<Seq<char>>, leaves: Seq<LeafView>) -> Seq<Seq<char>>
    decreases slugs.len(),
{
    if slugs.len() == 0 {
        acc
    } else {
        let prev = merged_files(acc, slugs.drop_last(), leaves);
        match leaf_with_slug(leaves, slugs.last()) {
            Some(l) => if prev.contains(l.file) {
                prev
            } else {
                prev.push(l.file)
            },
            None => prev,
        }
    }
}

proof fn lemma_leaf_with_slug_prefix(s: Seq<LeafView>, k: int, slug: Seq<char>)
    requires
        0 <= k <= s.len(),
        leaf_with_slug(s.take(k), slug) is Some,
    ensures
        leaf_with_slug(s, slug) == leaf_with_slug(s.take(k), slug),
    decreases s.len() - k,
{
    if k == s.len() {
        assert(s.take(k) =~= s);
    } else {
        assert(s.drop_last().take(k) =~= s.take(k));
        lemma_leaf_with_slug_prefix(s.drop_last(), k, slug);
    }
}

fn find_leaf_with_slug(leaves: &Vec<Leaf>, slug: &str) -> (r: Option<usize>)
    ensures
        match r {
            Some(i) => i < leaves.len() && leaf_with_slug(leaves_view(leaves@), slug@) == Some(leaves@[i as int]@),
            None => leaf_with_slug(leaves_view(leaves@), slug@) is None,
        },
{
    let ghost lv = leaves_view(leaves@);
    let mut i: usize = 0;
    while i < leaves.len()
        invariant
            i <= leaves.len(),
            lv == leaves_view(leaves@),
            leaf_with_slug(lv.take(i as int), slug@) is None,
        decreases leaves.len() - i,
    {
        assert(lv.take(i + 1).drop_last() =~= lv.take(i as int));
        assert(lv.take(i + 1).last() == leaves@[i as int]@);
        if str_eq(leaves[i].slug.as_str(), slug) {
            proof {
                lemma_leaf_with_slug_prefix(lv, i + 1, slug@);
            }
            return Some(i);
        }
        i += 1;
    }
    assert(lv.take(leaves.len() as int) =~= lv);
    None
}

/// The leaf files an update of an existing branch covers.
pub fn merged_leaf_files(cluster_files: &Vec<String>, existing: &Branch, leaves: &Vec<Leaf>) -> (r: Vec<String>)
    ensures
        strs(r@) == merged_files(strs(cluster_files@), existing@.leaves, leaves_view(leaves@)),
{
    let ghost ss = existing@.leaves;
    let mut out = cluster_files.clone();
    assert(strs(out@) =~= strs(cluster_files@));
    let mut i: usize = 0;
    while i < existing.leaves.len()
        invariant
            i <= existing.leaves.len(),
            ss == existing@.leaves,
            strs(out@) == merged_files(strs(cluster_files@), ss.take(i as int), leaves_view(leaves@)),
        decreases existing.leaves.len() - i,
    {
        assert(ss.take(i + 1).drop_last() =~= ss.take(i as int));
        assert(ss.take(i + 1).last() == existing.leaves@[i as int]@);
        match find_leaf_with_slug(leaves, existing.leaves[i].as_str()) {
            Some(k) => {
                if !strings_contain(&out, leaves[k].file.as_str()) {
                    push_string(&mut out, leaves[k].file.clone());
                }
            },
            None => {},
        }
        i += 1;
    }
    assert(ss.take(existing.leaves.len() as int) =~= ss);
    out
}

// ── the stage's outcome ──────────────────────────────────────────────────────

/// A branch the stage produced, with the slug it is filed under.
#[derive(Debug)]
pub struct SynthesizedBranch {
    pub slug: String,
    pub title: String,
    pub body: String,
    pub leaves: Vec<String>,
}

pub open spec fn synthesized_view(b: SynthesizedBranch) -> (Seq<char>, Seq<char>, Seq<char>, Seq<Seq<char>>) {
    (b.slug@, b.title@, b.body@, strs(b.leaves@))
}

pub open spec fn synthesized_views(v: Seq<SynthesizedBranch>) -> Seq<(Seq<char>, Seq<char>, Seq<char>, Seq<Seq<char>>)> {
    v.map_values(|b: SynthesizedBranch| synthesized_view(b))
}

/// What the stage has gathered so far: the updated branches, the new ones,
/// the slugs taken, and whether any cluster succeeded.
#[derive(Debug)]
pub struct Stage2Progress {
    pub updated: Vec<SynthesizedBranch>,
    pub created: Vec<SynthesizedBranch>,
    pub seen_slugs: Vec<String>,
    pub any_success: bool,
}

/// Every slug taken is the slug of a branch gathered, and no two gathered
/// branches share a slug.
pub open spec fn progress_ok(p: Stage2Progress) -> bool {
    &&& strs(p.seen_slugs@) == synthesized_views(p.updated@).map_values(|v: (Seq<char>, Seq<char>, Seq<char>, Seq<Seq<char>>)| v.0)
        + synthesized_views(p.created@).map_values(|v: (Seq<char>, Seq<char>, Seq<char>, Seq<Seq<char>>)| v.0)
}

impl Stage2Progress {
    pub fn new() -> (r: Self)
        ensures
            r.updated@.len() == 0,
            r.created@.len() == 0,
            r.seen_slugs@.len() == 0,
            !r.any_success,
            progress_ok(r),
    {
        let r = Stage2Progress { updated: Vec::new(), created: Vec::new(), seen_slugs: Vec::new(), any_success: false };
        assert(strs(r.seen_slugs@) =~= synthesized_views(r.updated@).map_values(
            |v: (Seq<char>, Seq<char>, Seq<char>, Seq<Seq<char>>)| v.0,
        ) + synthesized_views(r.created@).map_values(|v: (Seq<char>, Seq<char>, Seq<char>, Seq<Seq<char>>)| v.0));
        r
    }

    /// A new cluster's branch, filed under `slug`: kept unless the slug is
    /// taken, in which case a warning says it was skipped.
    pub fn record_new(&mut self, branch: Stage2Branch, slug: &str, cluster_title: &str, warnings: &mut Vec<String>)
        ensures
            final(self).any_success,
            strs(old(self).seen_slugs@).contains(slug@) ==> (final(self).created@ == old(self).created@
                && final(self).updated@ == old(self).updated@ && final(self).seen_slugs@ == old(self).seen_slugs@
                && strs(final(warnings)@) == strs(old(warnings)@).push(
                "warning: cluster '"@ + cluster_title@ + "' produced duplicate slug '"@ + slug@
                    + "' \u{2014} skipping"@,
            )),
            !strs(old(self).seen_slugs@).contains(slug@) ==> (synthesized_views(final(self).created@)
                == synthesized_views(old(self).created@).push((slug@, branch.title@, branch.body@, strs(branch.leaves@)))
                && final(self).updated@ == old(self).updated@ && strs(final(self).seen_slugs@) == strs(
                old(self).seen_slugs@,
            ).push(slug@) && strs(final(warnings)@) == strs(old(warnings)@)),
    {
        self.any_success = true;
        if strings_contain(&self.seen_slugs, slug) {
            let mut m = cat3("warning: cluster '", cluster_title, "' produced duplicate slug '");
            push_str(&mut m, slug);
            push_str(&mut m, "' \u{2014} skipping");
            push_string(warnings, m);
            return;
        }
        push_string(&mut self.seen_slugs, owned(slug));
        let b = SynthesizedBranch { slug: owned(slug), title: branch.title, body: branch.body, leaves: branch.leaves };
        let ghost before = self.created@;
        let ghost bv = synthesized_view(b);
        self.created.push(b);
        assert(synthesized_views(self.created@) =~= synthesized_views(before).push(bv));
    }

    /// An update of an existing branch keeps that branch's slug and title;
    /// a slug already taken is passed over silently.
    pub fn record_update(&mut self, branch: Stage2Branch, existing_slug: &str, existing_title: &str)
        ensures
            final(self).any_success,
            final(self).created@ == old(self).created@,
            strs(old(self).seen_slugs@).contains(existing_slug@) ==> (final(self).updated@ == old(self).updated@
                && final(self).seen_slugs@ == old(self).seen_slugs@),
            !strs(old(self).seen_slugs@).contains(existing_slug@) ==> (synthesized_views(final(self).updated@)
                == synthesized_views(old(self).updated@).push(
                (existing_slug@, existing_title@, branch.body@, strs(branch.leaves@)),
            ) && strs(final(self).seen_slugs@) == strs(old(self).seen_slugs@).push(existing_slug@)),
    {
        self.any_success = true;
        if strings_contain(&self.seen_slugs, existing_slug) {
            return;
        }
        push_string(&mut self.seen_slugs, owned(existing_slug));
        let b = SynthesizedBranch {
            slug: owned(existing_slug),
            title: owned(existing_title),
            body: branch.body,
            leaves: branch.leaves,
        };
        let ghost before = self.updated@;
        let ghost bv = synthesized_view(b);
        self.updated.push(b);
        assert(synthesized_views(self.updated@) =~= synthesized_views(before).push(bv));
    }

    /// The stage's result: the updated and the new branches, unless no
    /// cluster succeeded.
    pub fn finish(self) -> (r: Result<(Vec<SynthesizedBranch>, Vec<SynthesizedBranch>), CompileError>)
        ensures
            !self.any_success ==> (r matches Err(CompileError::Validation(m)) && m@
                == "stage-2 synthesize: all clusters failed \u{2014} no branches produced"@),
            self.any_success ==> (r matches Ok((u, c)) && u@ == self.updated@ && c@ == self.created@),
    {
        if !self.any_success {
            return Err(CompileError::Validation(owned("stage-2 synthesize: all clusters failed \u{2014} no branches produced")));
        }
        Ok((self.updated, self.created))
    }
}

/// The warning when an existing branch named by a cluster is not in the
/// state.
pub fn missing_existing_branch_warning(slug: &str) -> (r: String)
    ensures
        r@ == "warning: existing branch '"@ + slug@ + "' not found \u{2014} skipping update"@,
{
    cat3("warning: existing branch '", slug, "' not found \u{2014} skipping update")
}

/// The warning when an update failed and the branch keeps its body.
pub fn failed_update_warning(slug: &str) -> (r: String)
    ensures
        r@ == "warning: update for branch '"@ + slug@ + "' failed \u{2014} keeping existing body"@,
{
    cat3("warning: update for branch '", slug, "' failed \u{2014} keeping existing body")
}

/// The label an update's calls go by.
pub fn update_label(slug: &str) -> (r: String)
    ensures
        r@ == "update for '"@ + slug@ + "'"@,
{
    cat3("update for '", slug, "'")
}

} // verus!
