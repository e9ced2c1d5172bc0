//! A compile's dry run: a read-only preflight and a preview of the plan.
//! It writes nothing; a tree with an unfinished transaction or stale
//! branches is refused, and a preview whose tree changed under it is
//! dropped.
use vstd::prelude::*;

use super::{CompileDryRunOutcome, CompileError, CompileOptions, CompilePreview, CompileRunMode, PreviewBranch, Usage};
use super::plan::{new_leaf_slugs_spec, select_new_leaf_slugs, select_run_mode};
use crate::text::{owned, str_eq, strs};
use crate::tree::TreeState;

verus! {

/// The preview of a dry run with nothing to compile.
pub fn noop_preview(reason: &str, provider: &str, model: &str, starting_hash: &str, is_agent: bool) -> (r: CompilePreview)
    ensures
        r.status@ == "noop"@,
        r.reason matches Some(x) && x@ == reason@,
        r.mode is None,
        r.provider@ == provider@ && r.model@ == model@,
        r.starting_manifest_hash@ == starting_hash@,
        r.manifest_unchanged,
        r.agent == is_agent,
        r.turns == 0 && r.tool_calls == 0 && r.usage is None,
        r.branches@.len() == 0 && r.leaves_processed == 0 && r.leaves_skipped@.len() == 0,
        r.notifications@.len() == 0 && r.warnings@.len() == 0,
{
    CompilePreview {
        status: owned("noop"),
        reason: Some(owned(reason)),
        mode: None,
        provider: owned(provider),
        model: owned(model),
        starting_manifest_hash: owned(starting_hash),
        manifest_unchanged: true,
        agent: is_agent,
        turns: 0,
        tool_calls: 0,
        usage: None,
        branches: Vec::new(),
        leaves_processed: 0,
        leaves_skipped: Vec::new(),
        notifications: Vec::new(),
        warnings: Vec::new(),
    }
}

/// The model a preview names: the compile model when one is set.
pub fn preview_model(compile_model: &Option<String>, model: &str) -> (r: String)
    ensures
        r@ == match compile_model {
            Some(c) => c@,
            None => model@,
        },
{
    match compile_model {
        Some(c) => c.clone(),
        None => owned(model),
    }
}

/// How reading the state went.
#[derive(Debug)]
pub enum DryRunLoad {
    Loaded(TreeState),
    FreshSeeded,
    /// The state is missing or unreadable: the error's text.
    Failed(String),
}

/// What the preflight decided: a preview with nothing to compile, or a run
/// that needs the model, in this mode, over these new leaves.
#[derive(Debug)]
pub enum DryRunPreflight {
    Noop(CompilePreview),
    NeedsLlm { run_mode: CompileRunMode, new_leaf_slugs: Vec<String> },
}

pub open spec fn noop_reason(p: Result<DryRunPreflight, CompileError>) -> Option<Seq<char>> {
    match p {
        Ok(DryRunPreflight::Noop(c)) => match c.reason {
            Some(x) => Some(x@),
            None => None,
        },
        _ => None,
    }
}

/// The preflight. An unfinished transaction blocks the preview; a state
/// that cannot be read is an error; a fresh tree has nothing to compile;
/// stale branches block the preview; then the tree must have leaves, new
/// ones unless `--all`, and at least two readable ones.
pub fn dry_run_preflight(
    pending: bool,
    load: DryRunLoad,
    repair_needed: bool,
    starting_hash: &str,
    loaded_leaves: usize,
    options: CompileOptions,
    provider: &str,
    model: &str,
) -> (r: Result<DryRunPreflight, CompileError>)
    ensures
        pending ==> (r matches Err(CompileError::DryRunBlocked(m)) && m@
            == "an unfinished transaction exists; run `bo compile` (without --dry-run) to recover it before previewing"@),
        !pending ==> match load {
            DryRunLoad::Failed(e) => r matches Err(CompileError::Io(m)) && m@ == "failed to read state: "@ + e@,
            DryRunLoad::FreshSeeded => noop_reason(r) == Some("empty_tree"@) && (r matches Ok(DryRunPreflight::Noop(c))
                && c.starting_manifest_hash@ == "<missing>"@),
            DryRunLoad::Loaded(s) => if repair_needed {
                r matches Err(CompileError::DryRunBlocked(m)) && m@
                    == "stale branches require repair; run `bo compile` (without --dry-run) to repair before previewing"@
            } else if s.leaves@.len() == 0 {
                noop_reason(r) == Some("empty_tree"@)
            } else if !options.all && new_leaf_slugs_spec(s.leaves@, s.tree.last_compiled_at).len() == 0 {
                noop_reason(r) == Some("no new leaves since last compile"@)
            } else if loaded_leaves == 0 {
                noop_reason(r) == Some("empty_tree"@)
            } else if loaded_leaves == 1 {
                noop_reason(r) == Some("single_leaf"@)
            } else {
                r matches Ok(DryRunPreflight::NeedsLlm { run_mode, new_leaf_slugs }) && run_mode == (if options.all
                    || s.branches@.len() == 0 {
                    CompileRunMode::Full
                } else {
                    CompileRunMode::Incremental
                }) && strs(new_leaf_slugs@) == new_leaf_slugs_spec(s.leaves@, s.tree.last_compiled_at)
            },
        },
{
    if pending {
        return Err(
            CompileError::DryRunBlocked(
                owned(
                    "an unfinished transaction exists; run `bo compile` (without --dry-run) to recover it before previewing",
                ),
            ),
        );
    }
    let state = match load {
        DryRunLoad::Failed(e) => {
            return Err(CompileError::Io(crate::text::cat("failed to read state: ", e.as_str())));
        },
        DryRunLoad::FreshSeeded => {
            return Ok(DryRunPreflight::Noop(noop_preview("empty_tree", provider, model, "<missing>", options.agent)));
        },
        DryRunLoad::Loaded(s) => s,
    };
    if repair_needed {
        return Err(
            CompileError::DryRunBlocked(
                owned("stale branches require repair; run `bo compile` (without --dry-run) to repair before previewing"),
            ),
        );
    }
    let run_mode = select_run_mode(options, &state);
    if state.leaves.len() == 0 {
        return Ok(DryRunPreflight::Noop(noop_preview("empty_tree", provider, model, starting_hash, options.agent)));
    }
    let new_leaf_slugs = select_new_leaf_slugs(&state);
    if !options.all && new_leaf_slugs.len() == 0 {
        return Ok(
            DryRunPreflight::Noop(
                noop_preview("no new leaves since last compile", provider, model, starting_hash, options.agent),
            ),
        );
    }
    if loaded_leaves == 0 {
        return Ok(DryRunPreflight::Noop(noop_preview("empty_tree", provider, model, starting_hash, options.agent)));
    }
    if loaded_leaves < 2 {
        return Ok(DryRunPreflight::Noop(noop_preview("single_leaf", provider, model, starting_hash, options.agent)));
    }
    Ok(DryRunPreflight::NeedsLlm { run_mode, new_leaf_slugs })
}

/// The preview of a validated plan, unless the tree changed since the
/// preflight hashed it.
pub fn build_preview(
    run_mode: CompileRunMode,
    provider: &str,
    model: &str,
    starting_hash: &str,
    current_hash: &str,
    agent: bool,
    turns: usize,
    tool_calls: usize,
    usage: Option<Usage>,
    branches: Vec<PreviewBranch>,
    leaves_processed: usize,
    leaves_skipped: Vec<String>,
) -> (r: Result<CompilePreview, CompileError>)
    ensures
        current_hash@ != starting_hash@ ==> (r matches Err(CompileError::DryRunBlocked(m)) && m@
            == "state changed during dry-run; rerun `bo compile --dry-run`"@),
        current_hash@ == starting_hash@ ==> (r matches Ok(p) && p.status@ == "preview"@ && p.reason is None
            && p.mode == Some(run_mode) && p.provider@ == provider@ && p.model@ == model@
            && p.starting_manifest_hash@ == starting_hash@ && p.manifest_unchanged && p.agent == agent
            && p.turns == turns && p.tool_calls == tool_calls && p.usage == usage && p.branches == branches
            && p.leaves_processed == leaves_processed && p.leaves_skipped == leaves_skipped
            && p.notifications@.len() == 0 && p.warnings@.len() == 0),
{
    if !str_eq(current_hash, starting_hash) {
        return Err(CompileError::DryRunBlocked(owned("state changed during dry-run; rerun `bo compile --dry-run`")));
    }
    Ok(
        CompilePreview {
            status: owned("preview"),
            reason: None,
            mode: Some(run_mode),
            provider: owned(provider),
            model: owned(model),
            starting_manifest_hash: owned(starting_hash),
            manifest_unchanged: true,
            agent,
            turns,
            tool_calls,
            usage,
            branches,
            leaves_processed,
            leaves_skipped,
            notifications: Vec::new(),
            warnings: Vec::new(),
        },
    )
}

/// What a dry run hands back: on success the warnings ride on the
/// preview; on failure they ride on the outcome.
pub fn dry_run_outcome(result: Result<CompilePreview, CompileError>, warnings: Vec<String>) -> (r: CompileDryRunOutcome)
    ensures
        match result {
            Ok(p) => r.result matches Ok(x) && x == (CompilePreview { warnings, ..p }) && r.warnings@.len() == 0,
            Err(e) => r.result matches Err(x) && x == e && r.warnings == warnings,
        },
{
    match result {
        Ok(p) => {
            let mut p = p;
            p.warnings = warnings;
            CompileDryRunOutcome { result: Ok(p), warnings: Vec::new() }
        },
        Err(e) => CompileDryRunOutcome { result: Err(e), warnings },
    }
}

} // verus!
