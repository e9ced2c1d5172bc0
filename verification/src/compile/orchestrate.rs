//! The decisions of a compile run around its model calls and writes: when
//! a run has nothing to do, how its result gathers the notices, and what
//! the run hands back.
use vstd::prelude::*;

use super::{branch_leaf_sum, degenerate_spec, CompileDryRunOutcome, CompileError, CompileOptions, CompileOutcome, CompileResult, CompileRunMode, CompileSummary};
use super::plan::{is_noop_with, new_leaf_slugs_spec, preflight_noop, select_new_leaf_slugs};
use crate::text::{cat, strs};
use crate::tree::TreeState;

verus! {

/// A compile run: a dry run's preview or a live run's outcome.
#[derive(Debug)]
pub enum Dispatch {
    DryRun(CompileDryRunOutcome),
    Live(CompileOutcome),
}

/// Whether the options ask for a dry run.
pub fn dispatches_dry_run(options: CompileOptions) -> (r: bool)
    ensures
        r == options.dry_run,
{
    options.dry_run
}

/// What a finished run hands back: on success the warnings ride on the
/// result; on failure they ride on the outcome.
pub fn compile_outcome(result: Result<CompileResult, CompileError>, warnings: Vec<String>) -> (r: CompileOutcome)
    ensures
        is_outcome_of(r, result, warnings),
{
    match result {
        Ok(c) => {
            let mut c = c;
            c.warnings = warnings;
            CompileOutcome { result: Ok(c), warnings: Vec::new() }
        },
        Err(e) => CompileOutcome { result: Err(e), warnings },
    }
}

/// `o` is the outcome [`compile_outcome`] makes of a run's result and
/// warnings.
pub open spec fn is_outcome_of(o: CompileOutcome, result: Result<CompileResult, CompileError>, warnings: Vec<String>) -> bool {
    match result {
        Ok(c) => o.result matches Ok(x) && x == (CompileResult { warnings, ..c }) && o.warnings@.len() == 0,
        Err(e) => o.result matches Err(x) && x == e && o.warnings == warnings,
    }
}

/// A run's outcome reports on stderr exactly the warnings gathered during
/// the run, whether it succeeded or failed: on success they ride on the
/// result and the outcome holds none; on failure they ride on the outcome.
pub proof fn lemma_outcome_reports_run_warnings(
    o: CompileOutcome,
    result: Result<CompileResult, CompileError>,
    warnings: Vec<String>,
)
    requires
        is_outcome_of(o, result, warnings),
    ensures
        super::outcome_lines(o) == warnings@,
        o.result is Ok ==> o.warnings@.len() == 0,
{
}

/// The error for a state that could not be read.
pub fn state_read_error(reason: &str) -> (r: CompileError)
    ensures
        r matches CompileError::Io(m) && m@ == "failed to read state: "@ + reason@,
{
    CompileError::Io(cat("failed to read state: ", reason))
}

/// Before any model call: a tree of no leaf or one leaf has nothing to
/// compile; without `--all`, neither has a tree with no leaf collected since
/// the last compile. Otherwise the run goes on with the new leaves' slugs.
pub fn compile_preflight(state: &TreeState, options: CompileOptions, notifications: Vec<String>) -> (r: Result<
    Vec<String>,
    CompileResult,
>)
    ensures
        state.leaves@.len() == 0 ==> (r matches Err(c) && is_noop_with(Some(c), "empty_tree"@, notifications@)),
        state.leaves@.len() == 1 ==> (r matches Err(c) && is_noop_with(Some(c), "single_leaf"@, notifications@)),
        state.leaves@.len() > 1 && !options.all && new_leaf_slugs_spec(state.leaves@, state.tree.last_compiled_at).len()
            == 0 ==> (r matches Err(c) && is_noop_with(Some(c), "no new leaves since last compile"@, notifications@)),
        state.leaves@.len() > 1 && (options.all || new_leaf_slugs_spec(state.leaves@, state.tree.last_compiled_at).len()
            > 0) ==> (r matches Ok(v) && strs(v@) == new_leaf_slugs_spec(state.leaves@, state.tree.last_compiled_at)),
{
    match preflight_noop(state, &notifications) {
        Some(c) => {
            return Err(c);
        },
        None => {},
    }
    let slugs = select_new_leaf_slugs(state);
    if !options.all && slugs.len() == 0 {
        return Err(CompileResult::noop("no new leaves since last compile", notifications));
    }
    Ok(slugs)
}

/// With fewer than two readable leaves there is nothing to compile.
pub fn loaded_leaves_noop(loaded: usize, notifications: Vec<String>) -> (r: Option<CompileResult>)
    ensures
        loaded == 0 ==> is_noop_with(r, "empty_tree"@, notifications@),
        loaded == 1 ==> is_noop_with(r, "single_leaf"@, notifications@),
        loaded >= 2 ==> r is None,
{
    if loaded == 0 {
        return Some(CompileResult::noop("empty_tree", notifications));
    }
    if loaded == 1 {
        return Some(CompileResult::noop("single_leaf", notifications));
    }
    None
}

/// The result of a compile that wrote its plan: the notices, with a warning
/// added when the result looks degenerate.
pub fn finish_compile(summary: CompileSummary, mode: CompileRunMode, model: &str, notifications: Vec<String>) -> (r: CompileResult)
    requires
        branch_leaf_sum(summary.branches@) <= usize::MAX,
    ensures
        r.status@ == "compiled"@,
        r.mode == Some(mode),
        r.model matches Some(m) && m@ == model@,
        r.branches@ == summary.branches@,
        r.leaves_processed == summary.leaves_processed,
        strs(r.notifications@) == strs(notifications@) + match degenerate_spec(
            Some(mode),
            summary.branches@,
            summary.leaves_processed as nat,
        ) {
            Some(w) => seq![w],
            None => seq![],
        },
{
    let mut notes = notifications;
    let ghost before = strs(notes@);
    match super::degenerate_result_warning(Some(mode), summary.branches.as_slice(), summary.leaves_processed) {
        Some(w) => {
            let ghost wv = w@;
            crate::text::push_string(&mut notes, w);
            assert(strs(notes@) =~= before + seq![wv]);
        },
        None => {
            assert(strs(notes@) =~= before + seq![]);
        },
    }
    CompileResult::compiled(summary, mode, model, notes)
}

} // verus!
