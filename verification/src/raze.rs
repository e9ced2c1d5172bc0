//! `bo raze`: deleting the tree, its configuration and, on request, the
//! credentials.
//!
//! The library holds the plan of what is deleted (manifest entries whose
//! paths could escape the tree are skipped, with a warning), the
//! confirmation prompt and answer, and the report the CLI prints. The
//! deletions themselves stay with the caller.
use vstd::prelude::*;

use crate::text::{cat, cat3, decimal, owned, push_str, str_eq, usize_to_string};

verus! {

#[derive(Debug, Clone, Default)]
pub struct RazeResult {
    /// The user declined confirmation; every other field is zero or false.
    pub cancelled: bool,
    pub deleted_files: usize,
    pub deleted_manifest: bool,
    pub removed_output_dir: bool,
    pub output_dir_left_in_place: bool,
    pub deleted_config: bool,
    pub deleted_auth: bool,
    pub preserved_auth: bool,
    pub output_dir: String,
    pub config_path: String,
    pub auth_path: String,
}

#[derive(Debug, Clone, Copy, PartialEq, Eq)]
pub enum AuthCleanup {
    Preserve,
    Delete,
}

impl AuthCleanup {
    pub fn deletes_auth(self) -> (r: bool)
        ensures
            r == (self == AuthCleanup::Delete),
    {
        match self {
            AuthCleanup::Delete => true,
            AuthCleanup::Preserve => false,
        }
    }
}

#[derive(Debug)]
pub enum RazeError {
    Io(String),
    Busy(String),
}

impl RazeError {
    pub fn message(&self) -> (r: String)
        ensures
            r@ == match self {
                RazeError::Io(m) => m@,
                RazeError::Busy(m) => m@,
            },
    {
        match self {
            RazeError::Io(m) => m.clone(),
            RazeError::Busy(m) => m.clone(),
        }
    }
}

// ── paths ────────────────────────────────────────────────────────────────────

/// Some `/`-separated component of the path is exactly `..`.
pub open spec fn has_parent_component(p: Seq<char>) -> bool {
    exists|i: int|
        0 <= i && i + 2 <= p.len() && #[trigger] p[i] == '.' && p[i + 1] == '.' && (i == 0 || p[i - 1] == '/')
            && (i + 2 == p.len() || p[i + 2] == '/')
}

/// A relative path that could leave the tree: empty, absolute, or with a
/// `..` component.
pub open spec fn suspicious_relative_path(p: Seq<char>) -> bool {
    p.len() == 0 || p[0] == '/' || has_parent_component(p)
}

pub fn is_suspicious_relative_path(file: &str) -> (r: bool)
    ensures
        r == suspicious_relative_path(file@),
{
    let v = crate::text::chars_of(file);
    if v.len() == 0 || v[0] == '/' {
        return true;
    }
    let mut i: usize = 0;
    while i < v.len() && v.len() - i >= 2
        invariant
            v@ == file@,
            v.len() > 0,
            i <= v.len(),
            forall|k: int|
                0 <= k < i && k + 2 <= v@.len() ==> !(#[trigger] v@[k] == '.' && v@[k + 1] == '.' && (k == 0
                    || v@[k - 1] == '/') && (k + 2 == v@.len() || v@[k + 2] == '/')),
        decreases v.len() - i,
    {
        let start_ok = i == 0 || v[i - 1] == '/';
        let end_ok = i + 2 == v.len() || v[i + 2] == '/';
        if v[i] == '.' && v[i + 1] == '.' && start_ok && end_ok {
            return true;
        }
        i += 1;
    }
    false
}

// ── the plan ─────────────────────────────────────────────────────────────────

/// The relative paths to delete and the warnings for the skipped ones.
pub struct DeletePlan {
    pub deletes: Seq<Seq<char>>,
    pub warnings: Seq<Seq<char>>,
}

pub open spec fn plan_deletes(files: Seq<Seq<char>>) -> DeletePlan
    decreases files.len(),
{
    if files.len() == 0 {
        DeletePlan { deletes: seq![], warnings: seq![] }
    } else {
        let p = plan_deletes(files.drop_last());
        let f = files.last();
        if suspicious_relative_path(f) {
            DeletePlan {
                deletes: p.deletes,
                warnings: p.warnings.push("skipping manifest entry with suspicious path: "@ + f),
            }
        } else {
            DeletePlan { deletes: p.deletes.push(f), warnings: p.warnings }
        }
    }
}

/// The manifest files to delete, in order, with a warning for each entry
/// whose path could leave the tree, which is skipped.
pub fn manifest_deletes(files: &Vec<String>) -> (r: (Vec<String>, Vec<String>))
    ensures
        crate::text::strs(r.0@) == plan_deletes(crate::text::strs(files@)).deletes,
        crate::text::strs(r.1@) == plan_deletes(crate::text::strs(files@)).warnings,
{
    let ghost fs = crate::text::strs(files@);
    let mut deletes: Vec<String> = Vec::new();
    let mut warnings: Vec<String> = Vec::new();
    let mut i: usize = 0;
    while i < files.len()
        invariant
            i <= files.len(),
            fs == crate::text::strs(files@),
            crate::text::strs(deletes@) == plan_deletes(fs.take(i as int)).deletes,
            crate::text::strs(warnings@) == plan_deletes(fs.take(i as int)).warnings,
        decreases files.len() - i,
    {
        assert(fs.take(i + 1).drop_last() =~= fs.take(i as int));
        assert(fs.take(i + 1).last() == files@[i as int]@);
        let f = &files[i];
        if is_suspicious_relative_path(f.as_str()) {
            crate::text::push_string(&mut warnings, cat("skipping manifest entry with suspicious path: ", f.as_str()));
        } else {
            crate::text::push_string(&mut deletes, f.clone());
        }
        i += 1;
    }
    assert(fs.take(files.len() as int) =~= fs);
    (deletes, warnings)
}

/// The manifest's files: every leaf's, then every branch's.
pub open spec fn manifest_files_spec(state: crate::tree::TreeState) -> Seq<Seq<char>> {
    crate::tree::leaves_view(state.leaves@).map_values(|l: crate::tree::LeafView| l.file)
        + crate::tree::branches_view(state.branches@).map_values(|b: crate::tree::BranchView| b.file)
}

pub fn manifest_files(state: &crate::tree::TreeState) -> (r: Vec<String>)
    ensures
        crate::text::strs(r@) == manifest_files_spec(*state),
{
    let ghost lf = crate::tree::leaves_view(state.leaves@).map_values(|l: crate::tree::LeafView| l.file);
    let ghost bf = crate::tree::branches_view(state.branches@).map_values(|b: crate::tree::BranchView| b.file);
    let mut out: Vec<String> = Vec::new();
    let mut i: usize = 0;
    while i < state.leaves.len()
        invariant
            i <= state.leaves.len(),
            lf == crate::tree::leaves_view(state.leaves@).map_values(|l: crate::tree::LeafView| l.file),
            crate::text::strs(out@) == lf.take(i as int),
        decreases state.leaves.len() - i,
    {
        crate::text::push_string(&mut out, state.leaves[i].file.clone());
        assert(lf.take(i + 1) =~= lf.take(i as int).push(state.leaves@[i as int].file@));
        i += 1;
    }
    assert(lf.take(state.leaves.len() as int) =~= lf);
    let mut j: usize = 0;
    while j < state.branches.len()
        invariant
            j <= state.branches.len(),
            lf == crate::tree::leaves_view(state.leaves@).map_values(|l: crate::tree::LeafView| l.file),
            bf == crate::tree::branches_view(state.branches@).map_values(|b: crate::tree::BranchView| b.file),
            crate::text::strs(out@) == lf + bf.take(j as int),
        decreases state.branches.len() - j,
    {
        crate::text::push_string(&mut out, state.branches[j].file.clone());
        assert(bf.take(j + 1) =~= bf.take(j as int).push(state.branches@[j as int].file@));
        j += 1;
    }
    assert(bf.take(state.branches.len() as int) =~= bf);
    out
}

/// Everything a raze deletes under the tree: the manifest's files that are
/// safe to touch, the `branch` and `leaf` directories when they exist, and
/// the `.bo` directory.
pub open spec fn tree_deletes_spec(manifest_deletes: Seq<Seq<char>>, branch_dir: bool, leaf_dir: bool) -> Seq<Seq<char>> {
    manifest_deletes + (if branch_dir { seq!["branch"@] } else { seq![] }) + (if leaf_dir {
        seq!["leaf"@]
    } else {
        seq![]
    }) + seq![".bo"@]
}

pub fn tree_deletes(manifest_deletes: Vec<String>, branch_dir_exists: bool, leaf_dir_exists: bool) -> (r: Vec<String>)
    ensures
        crate::text::strs(r@) == tree_deletes_spec(crate::text::strs(manifest_deletes@), branch_dir_exists, leaf_dir_exists),
{
    let ghost md = crate::text::strs(manifest_deletes@);
    let mut out = manifest_deletes;
    if branch_dir_exists {
        crate::text::push_string(&mut out, owned("branch"));
    }
    let ghost mid = crate::text::strs(out@);
    assert(mid == md + (if branch_dir_exists { seq!["branch"@] } else { seq![] }));
    if leaf_dir_exists {
        crate::text::push_string(&mut out, owned("leaf"));
    }
    assert(crate::text::strs(out@) == mid + (if leaf_dir_exists { seq!["leaf"@] } else { seq![] }));
    crate::text::push_string(&mut out, owned(".bo"));
    out
}

/// How many of the checks hold.
pub open spec fn count_true(v: Seq<bool>) -> nat
    decreases v.len(),
{
    if v.len() == 0 {
        0
    } else {
        count_true(v.drop_last()) + if v.last() { 1nat } else { 0nat }
    }
}

/// The number of planned deletes that are files; `is_file[i]` tells
/// whether the `i`-th is.
pub fn count_files(is_file: &Vec<bool>) -> (r: usize)
    ensures
        r == count_true(is_file@),
{
    let mut n: usize = 0;
    let mut i: usize = 0;
    while i < is_file.len()
        invariant
            i <= is_file.len(),
            n == count_true(is_file@.take(i as int)),
            n <= i,
        decreases is_file.len() - i,
    {
        assert(is_file@.take(i + 1).drop_last() =~= is_file@.take(i as int));
        if is_file[i] {
            n = n + 1;
        }
        i += 1;
    }
    assert(is_file@.take(is_file.len() as int) =~= is_file@);
    n
}

/// What a raze of a tree reports once the user declined: nothing deleted,
/// the credentials preserved unless their deletion was asked for.
pub fn cancelled_result(include_auth: bool, output_dir: &str, config_path: &str, auth_path: &str) -> (r: RazeResult)
    ensures
        r.cancelled,
        r.deleted_files == 0,
        !r.deleted_manifest && !r.removed_output_dir && !r.output_dir_left_in_place,
        !r.deleted_config && !r.deleted_auth,
        r.preserved_auth == !include_auth,
        r.output_dir@ == output_dir@,
        r.config_path@ == config_path@,
        r.auth_path@ == auth_path@,
{
    RazeResult {
        cancelled: true,
        deleted_files: 0,
        deleted_manifest: false,
        removed_output_dir: false,
        output_dir_left_in_place: false,
        deleted_config: false,
        deleted_auth: false,
        preserved_auth: !include_auth,
        output_dir: owned(output_dir),
        config_path: owned(config_path),
        auth_path: owned(auth_path),
    }
}

/// What a finished raze of a tree reports. The directory was removed, or
/// left in place because it was not empty or already gone; the credentials
/// count as deleted only when their deletion was asked for and happened,
/// and as preserved when it was not asked for and they exist.
pub fn razed_result(
    deleted_files: usize,
    removed_output_dir: bool,
    deleted_config: bool,
    auth_cleanup: AuthCleanup,
    auth_deleted: bool,
    auth_exists: bool,
    output_dir: &str,
    config_path: &str,
    auth_path: &str,
) -> (r: RazeResult)
    ensures
        !r.cancelled,
        r.deleted_files == deleted_files,
        r.deleted_manifest,
        r.removed_output_dir == removed_output_dir,
        r.output_dir_left_in_place == !removed_output_dir,
        r.deleted_config == deleted_config,
        r.deleted_auth == (auth_cleanup == AuthCleanup::Delete && auth_deleted),
        r.preserved_auth == (auth_cleanup == AuthCleanup::Preserve && auth_exists),
        r.output_dir@ == output_dir@,
        r.config_path@ == config_path@,
        r.auth_path@ == auth_path@,
{
    let delete_auth = auth_cleanup.deletes_auth();
    RazeResult {
        cancelled: false,
        deleted_files,
        deleted_manifest: true,
        removed_output_dir,
        output_dir_left_in_place: !removed_output_dir,
        deleted_config,
        deleted_auth: delete_auth && auth_deleted,
        preserved_auth: !delete_auth && auth_exists,
        output_dir: owned(output_dir),
        config_path: owned(config_path),
        auth_path: owned(auth_path),
    }
}

/// What deleting the credentials alone reports: nothing when there were
/// none to delete.
pub fn auth_only_result(deleted_auth: bool, auth_path: &str) -> (r: Option<RazeResult>)
    ensures
        !deleted_auth ==> r is None,
        deleted_auth ==> (r matches Some(x) && !x.cancelled && x.deleted_auth && x.deleted_files == 0
            && !x.deleted_manifest && !x.removed_output_dir && !x.output_dir_left_in_place && !x.deleted_config
            && !x.preserved_auth && x.output_dir@.len() == 0 && x.config_path@.len() == 0 && x.auth_path@ == auth_path@),
{
    if !deleted_auth {
        return None;
    }
    Some(
        RazeResult {
            cancelled: false,
            deleted_files: 0,
            deleted_manifest: false,
            removed_output_dir: false,
            output_dir_left_in_place: false,
            deleted_config: false,
            deleted_auth,
            preserved_auth: false,
            output_dir: String::new(),
            config_path: String::new(),
            auth_path: owned(auth_path),
        },
    )
}

/// A credentials-only raze the user declined, or that had nothing to
/// delete: nothing but the path is reported.
pub fn auth_only_untouched(cancelled: bool, auth_path: &str) -> (r: RazeResult)
    ensures
        r.cancelled == cancelled,
        r.deleted_files == 0,
        !r.deleted_manifest && !r.removed_output_dir && !r.output_dir_left_in_place,
        !r.deleted_config && !r.deleted_auth && !r.preserved_auth,
        r.output_dir@.len() == 0 && r.config_path@.len() == 0,
        r.auth_path@ == auth_path@,
{
    RazeResult {
        cancelled,
        deleted_files: 0,
        deleted_manifest: false,
        removed_output_dir: false,
        output_dir_left_in_place: false,
        deleted_config: false,
        deleted_auth: false,
        preserved_auth: false,
        output_dir: String::new(),
        config_path: String::new(),
        auth_path: owned(auth_path),
    }
}

/// Which raze a command asks for.
#[derive(Debug, Clone, Copy, PartialEq, Eq)]
pub enum RazeRoute {
    /// Nothing to raze.
    Nothing,
    /// Raze the seeded tree, with the credentials or without.
    Tree(AuthCleanup),
    /// No tree: delete the credentials alone.
    AuthOnly,
}

/// A seeded tree is razed; a configuration without a tree is left alone;
/// without a configuration only the credentials can go, when asked for.
pub fn raze_route(has_config: bool, seeded: bool, include_auth: bool) -> (r: RazeRoute)
    ensures
        has_config && seeded ==> r == RazeRoute::Tree(if include_auth { AuthCleanup::Delete } else { AuthCleanup::Preserve }),
        has_config && !seeded ==> r == RazeRoute::Nothing,
        !has_config ==> r == (if include_auth { RazeRoute::AuthOnly } else { RazeRoute::Nothing }),
{
    if has_config {
        if !seeded {
            return RazeRoute::Nothing;
        }
        RazeRoute::Tree(if include_auth { AuthCleanup::Delete } else { AuthCleanup::Preserve })
    } else if include_auth {
        RazeRoute::AuthOnly
    } else {
        RazeRoute::Nothing
    }
}

/// A busy tree is reported as busy; any other pending-operation failure as
/// an I/O error.
pub fn map_pending_error(e: &crate::collect::PendingError) -> (r: RazeError)
    ensures
        match e {
            crate::collect::PendingError::Busy(m) => r matches RazeError::Busy(x) && x@ == m@,
            crate::collect::PendingError::TreeState(m) => r matches RazeError::Io(x) && x@ == m@,
            crate::collect::PendingError::Other(m) => r matches RazeError::Io(x) && x@ == m@,
        },
{
    match e {
        crate::collect::PendingError::Busy(m) => RazeError::Busy(m.clone()),
        crate::collect::PendingError::TreeState(m) => RazeError::Io(m.clone()),
        crate::collect::PendingError::Other(m) => RazeError::Io(m.clone()),
    }
}

// ── confirmation ─────────────────────────────────────────────────────────────

/// The counts a manifest gives the prompt, when it could be read.
pub open spec fn raze_prompt_text(tree_root: Seq<char>, counts: Option<(usize, usize)>, include_auth: bool) -> Seq<char> {
    "This will permanently delete the tree at "@ + tree_root + ":\n"@ + (match counts {
        Some((l, b)) => "  "@ + decimal(l as nat) + " leaves, "@ + decimal(b as nat) + " branches\n"@,
        None => "  unable to read manifest \u{2014} cannot determine leaf/branch count\n"@,
    }) + (if include_auth {
        "  Auth credentials: will be deleted\n"@
    } else {
        "  Auth credentials: preserved (use --include-auth to also delete)\n"@
    }) + "Type 'yes' to confirm: "@
}

/// The confirmation prompt for razing a tree.
pub fn raze_prompt(tree_root: &str, counts: Option<(usize, usize)>, include_auth: bool) -> (r: String)
    ensures
        r@ == raze_prompt_text(tree_root@, counts, include_auth),
{
    let mut s = cat3("This will permanently delete the tree at ", tree_root, ":\n");
    match counts {
        Some((l, b)) => {
            push_str(&mut s, "  ");
            push_str(&mut s, usize_to_string(l).as_str());
            push_str(&mut s, " leaves, ");
            push_str(&mut s, usize_to_string(b).as_str());
            push_str(&mut s, " branches\n");
        },
        None => push_str(&mut s, "  unable to read manifest \u{2014} cannot determine leaf/branch count\n"),
    }
    if include_auth {
        push_str(&mut s, "  Auth credentials: will be deleted\n");
    } else {
        push_str(&mut s, "  Auth credentials: preserved (use --include-auth to also delete)\n");
    }
    push_str(&mut s, "Type 'yes' to confirm: ");
    s
}

/// The confirmation prompt for deleting the credentials alone.
pub fn auth_only_prompt(auth_path: &str) -> (r: String)
    ensures
        r@ == "This will permanently delete your bo credentials at "@ + auth_path@ + ":\n"@
            + "Type 'yes' to confirm: "@,
{
    let mut s = cat3("This will permanently delete your bo credentials at ", auth_path, ":\n");
    push_str(&mut s, "Type 'yes' to confirm: ");
    s
}

/// Only the exact line `yes` confirms.
pub fn is_confirmed(answer: &str) -> (r: bool)
    ensures
        r == (answer@ == "yes\n"@),
{
    str_eq(answer, "yes\n")
}

// ── rendering ────────────────────────────────────────────────────────────────

pub open spec fn when(b: bool, s: Seq<char>) -> Seq<char> {
    if b {
        s
    } else {
        seq![]
    }
}

pub open spec fn files_part(r: RazeResult) -> Seq<char> {
    when(r.output_dir@.len() > 0, "deleted "@ + decimal(r.deleted_files as nat) + " markdown file(s)\n"@)
}

pub open spec fn dir_part(r: RazeResult) -> Seq<char> {
    if r.removed_output_dir {
        "removed output directory "@ + r.output_dir@ + "\n"@
    } else if r.output_dir_left_in_place {
        "output directory left in place (not empty or already absent): "@ + r.output_dir@ + "\n"@
    } else {
        seq![]
    }
}

pub open spec fn auth_part(r: RazeResult) -> Seq<char> {
    if r.deleted_auth {
        "deleted auth\n"@
    } else if r.preserved_auth {
        "preserved auth: "@ + r.auth_path@ + "\n"@
    } else {
        seq![]
    }
}

/// The report of a raze.
pub open spec fn raze_text(r: RazeResult) -> Seq<char> {
    if r.cancelled {
        "raze cancelled\n"@
    } else {
        files_part(r) + when(r.deleted_manifest, "deleted manifest\n"@) + dir_part(r) + when(
            r.deleted_config,
            "deleted config\n"@,
        ) + auth_part(r)
    }
}

fn when_exec(b: bool, s: &str) -> (r: String)
    ensures
        r@ == when(b, s@),
{
    if b {
        owned(s)
    } else {
        String::new()
    }
}

fn files_part_exec(r: &RazeResult) -> (s: String)
    ensures
        s@ == files_part(*r),
{
    if r.output_dir.as_str().is_empty() {
        String::new()
    } else {
        cat3("deleted ", usize_to_string(r.deleted_files).as_str(), " markdown file(s)\n")
    }
}

fn dir_part_exec(r: &RazeResult) -> (s: String)
    ensures
        s@ == dir_part(*r),
{
    if r.removed_output_dir {
        cat3("removed output directory ", r.output_dir.as_str(), "\n")
    } else if r.output_dir_left_in_place {
        cat3("output directory left in place (not empty or already absent): ", r.output_dir.as_str(), "\n")
    } else {
        String::new()
    }
}

fn auth_part_exec(r: &RazeResult) -> (s: String)
    ensures
        s@ == auth_part(*r),
{
    if r.deleted_auth {
        owned("deleted auth\n")
    } else if r.preserved_auth {
        cat3("preserved auth: ", r.auth_path.as_str(), "\n")
    } else {
        String::new()
    }
}

/// The report the CLI prints after a raze.
pub fn render_human(result: &RazeResult) -> (r: String)
    ensures
        r@ == raze_text(*result),
{
    if result.cancelled {
        return owned("raze cancelled\n");
    }
    let a = files_part_exec(result);
    let b = when_exec(result.deleted_manifest, "deleted manifest\n");
    let c = dir_part_exec(result);
    let d = when_exec(result.deleted_config, "deleted config\n");
    let e = auth_part_exec(result);
    crate::text::cat5(a.as_str(), b.as_str(), c.as_str(), d.as_str(), e.as_str())
}

} // verus!
