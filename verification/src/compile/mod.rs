//! `bo compile`: turning collected leaves into branches.
//!
//! The library holds the compile pipeline's decisions: the cluster response
//! validation, the result and outcome records, the degenerate-result check
//! and the rendering of results as text.
use vstd::prelude::*;

pub mod cluster;
pub mod delta;
pub mod discovery;
pub mod dry_run;
pub mod orchestrate;
pub mod plan;
pub mod prompt;
pub mod render;
pub mod repair;
pub mod response;
pub mod stage2;
pub mod tools;

use crate::text::{cat, cat3, decimal, owned, push_str, usize_to_string};

verus! {

/// Leaf count above which Full mode switches to the two-stage compile.
pub const TWO_STAGE_FULL_THRESHOLD: usize = 40;

/// New-leaf count above which Incremental mode switches to the two-stage compile.
pub const TWO_STAGE_INCREMENTAL_THRESHOLD: usize = 15;

/// Token usage that a model provider reports for a run.
#[derive(Debug, Clone, Copy, PartialEq, Eq)]
pub struct Usage {
    pub prompt_tokens: u64,
    pub completion_tokens: u64,
    pub total_tokens: u64,
}

#[derive(Debug)]
pub enum CompileError {
    /// Collection exceeds the model's context window.
    ContextOverflow { model: String, estimated_tokens: Option<usize>, context_tokens: Option<usize> },
    /// LLM output was truncated.
    Truncated,
    /// Response blocked by content filter.
    ContentFilter,
    /// LLM API or network error.
    Llm(String),
    /// I/O or manifest/pending error.
    Io(String),
    /// Another bo process is mutating this tree.
    Busy(String),
    /// Validation error in the LLM response.
    Validation(String),
    /// A dry-run was blocked; zero bytes were written.
    DryRunBlocked(String),
    /// The agent loop failed to produce a valid plan; zero bytes written.
    AgentFailed {
        message: String,
        turns: usize,
        tool_calls: usize,
        usage: Option<Usage>,
        last_error: Option<String>,
        signals_sent: usize,
    },
}

/// The remedy named when the model's context is too small.
pub open spec fn compile_model_steps() -> Seq<char> {
    "bo config --compile-model gpt-4.1-mini\nbo config --compile-model gpt-4.1"@
}

/// What the error says to a user.
pub open spec fn compile_error_message(e: CompileError) -> Seq<char> {
    match e {
        CompileError::ContextOverflow { model, .. } => "compile model context is too small for '"@
            + model@ + "' — set a larger compile model, for example:\n"@ + compile_model_steps(),
        CompileError::Truncated => "compile output was truncated — try reducing collection size or using a model with larger output capacity"@,
        CompileError::ContentFilter => "compile was blocked by content filter"@,
        CompileError::Llm(m) => "LLM error: "@ + m@,
        CompileError::Io(m) => m@,
        CompileError::Busy(m) => m@,
        CompileError::Validation(m) => m@ + "\nNo files were changed. Try `bo compile` again; if this repeats, switch models with `bo config --model <model>` or report the validation message."@,
        CompileError::DryRunBlocked(m) => m@,
        CompileError::AgentFailed { message, .. } => message@,
    }
}

/// The machine-readable code of the error.
pub open spec fn compile_error_code(e: CompileError) -> Seq<char> {
    match e {
        CompileError::ContextOverflow { .. } => "context_overflow"@,
        CompileError::Truncated => "truncated"@,
        CompileError::ContentFilter => "content_filter"@,
        CompileError::Llm(_) => "llm_error"@,
        CompileError::Io(_) => "io_error"@,
        CompileError::Busy(_) => "tree_busy"@,
        CompileError::Validation(_) => "validation_error"@,
        CompileError::DryRunBlocked(_) => "dry_run_blocked"@,
        CompileError::AgentFailed { .. } => "agent_error"@,
    }
}

impl CompileError {
    /// The error as a user reads it.
    pub fn message(&self) -> (r: String)
        ensures
            r@ == compile_error_message(*self),
    {
        match self {
            CompileError::ContextOverflow { model, .. } => {
                let mut s = cat3(
                    "compile model context is too small for '",
                    model.as_str(),
                    "' — set a larger compile model, for example:\n",
                );
                push_str(&mut s, "bo config --compile-model gpt-4.1-mini\nbo config --compile-model gpt-4.1");
                s
            },
            CompileError::Truncated => owned(
                "compile output was truncated — try reducing collection size or using a model with larger output capacity",
            ),
            CompileError::ContentFilter => owned("compile was blocked by content filter"),
            CompileError::Llm(m) => cat("LLM error: ", m.as_str()),
            CompileError::Io(m) => m.clone(),
            CompileError::Busy(m) => m.clone(),
            CompileError::Validation(m) => cat(
                m.as_str(),
                "\nNo files were changed. Try `bo compile` again; if this repeats, switch models with `bo config --model <model>` or report the validation message.",
            ),
            CompileError::DryRunBlocked(m) => m.clone(),
            CompileError::AgentFailed { message, .. } => message.clone(),
        }
    }

    /// The machine-readable code of the error.
    pub fn code(&self) -> (r: &'static str)
        ensures
            r@ == compile_error_code(*self),
    {
        match self {
            CompileError::ContextOverflow { .. } => "context_overflow",
            CompileError::Truncated => "truncated",
            CompileError::ContentFilter => "content_filter",
            CompileError::Llm(_) => "llm_error",
            CompileError::Io(_) => "io_error",
            CompileError::Busy(_) => "tree_busy",
            CompileError::Validation(_) => "validation_error",
            CompileError::DryRunBlocked(_) => "dry_run_blocked",
            CompileError::AgentFailed { .. } => "agent_error",
        }
    }
}

// ── options and results ──────────────────────────────────────────────────────

#[derive(Debug, Clone, Copy, Default, PartialEq, Eq)]
pub struct CompileOptions {
    pub all: bool,
    /// Use the iterative agent path; it requires `dry_run`.
    pub agent: bool,
    /// Produce a read-only validated preview; write zero bytes to the tree.
    pub dry_run: bool,
}

#[derive(Debug, Clone, Copy, PartialEq, Eq)]
pub enum CompileRunMode {
    Incremental,
    Full,
}

/// The name `Debug` gives a run mode.
pub open spec fn run_mode_name(m: CompileRunMode) -> Seq<char> {
    match m {
        CompileRunMode::Incremental => "Incremental"@,
        CompileRunMode::Full => "Full"@,
    }
}

pub fn run_mode_name_exec(m: CompileRunMode) -> (r: &'static str)
    ensures
        r@ == run_mode_name(m),
{
    match m {
        CompileRunMode::Incremental => "Incremental",
        CompileRunMode::Full => "Full",
    }
}

#[derive(Debug, Clone)]
pub struct BranchResult {
    pub slug: String,
    pub title: String,
    pub leaf_count: usize,
}

#[derive(Debug, Clone)]
pub struct CompileResult {
    pub status: String,
    pub reason: Option<String>,
    pub mode: Option<CompileRunMode>,
    pub model: Option<String>,
    pub branches: Vec<BranchResult>,
    pub leaves_processed: usize,
    pub leaves_skipped: Vec<String>,
    pub notifications: Vec<String>,
    /// Stderr-bound lines, never part of the data envelope.
    pub warnings: Vec<String>,
}

pub struct CompileSummary {
    pub branches: Vec<BranchResult>,
    pub branches_created: Vec<BranchResult>,
    pub branches_updated: Vec<BranchResult>,
    pub branch_deletes: Vec<String>,
    pub leaves_processed: usize,
    pub leaves_skipped: Vec<String>,
}

impl CompileResult {
    /// The result of a compile that wrote branches.
    pub fn compiled(summary: CompileSummary, mode: CompileRunMode, model: &str, notifications: Vec<String>) -> (r: Self)
        ensures
            r.status@ == "compiled"@,
            r.reason is None,
            r.mode == Some(mode),
            r.model matches Some(m) && m@ == model@,
            r.branches@ == summary.branches@,
            r.leaves_processed == summary.leaves_processed,
            r.leaves_skipped@ == summary.leaves_skipped@,
            r.notifications@ == notifications@,
            r.warnings@.len() == 0,
    {
        CompileResult {
            status: owned("compiled"),
            reason: None,
            mode: Some(mode),
            model: Some(owned(model)),
            branches: summary.branches,
            leaves_processed: summary.leaves_processed,
            leaves_skipped: summary.leaves_skipped,
            notifications,
            warnings: Vec::new(),
        }
    }

    /// The result of a compile with nothing to do, and why.
    pub fn noop(reason: &str, notifications: Vec<String>) -> (r: Self)
        ensures
            r.status@ == "noop"@,
            r.reason matches Some(m) && m@ == reason@,
            r.mode is None,
            r.model is None,
            r.branches@.len() == 0,
            r.leaves_processed == 0,
            r.leaves_skipped@.len() == 0,
            r.notifications@ == notifications@,
            r.warnings@.len() == 0,
    {
        CompileResult {
            status: owned("noop"),
            reason: Some(owned(reason)),
            mode: None,
            model: None,
            branches: Vec::new(),
            leaves_processed: 0,
            leaves_skipped: Vec::new(),
            notifications,
            warnings: Vec::new(),
        }
    }
}

/// A compile run's result with the stderr-bound lines gathered on the way.
#[derive(Debug)]
pub struct CompileOutcome {
    pub result: Result<CompileResult, CompileError>,
    pub warnings: Vec<String>,
}

/// The stderr-bound lines of an outcome: the result's on success, the
/// outcome's on failure.
pub open spec fn outcome_lines(o: CompileOutcome) -> Seq<String> {
    match o.result {
        Ok(res) => res.warnings@,
        Err(_) => o.warnings@,
    }
}

impl CompileOutcome {
    /// The stderr-bound lines: the result's on success, the outcome's on failure.
    pub fn stderr_lines(&self) -> (r: &[String])
        ensures
            r@ == outcome_lines(*self),
    {
        match &self.result {
            Ok(result) => result.warnings.as_slice(),
            Err(_) => self.warnings.as_slice(),
        }
    }
}

/// A validated, read-only compile preview; no bytes were written for it.
#[derive(Debug, Clone)]
pub struct CompilePreview {
    pub status: String,
    pub reason: Option<String>,
    pub mode: Option<CompileRunMode>,
    pub provider: String,
    pub model: String,
    pub starting_manifest_hash: String,
    pub manifest_unchanged: bool,
    pub agent: bool,
    pub turns: usize,
    pub tool_calls: usize,
    pub usage: Option<Usage>,
    pub branches: Vec<PreviewBranch>,
    pub leaves_processed: usize,
    pub leaves_skipped: Vec<String>,
    pub notifications: Vec<String>,
    pub warnings: Vec<String>,
}

#[derive(Debug, Clone)]
pub struct PreviewBranch {
    pub slug: String,
    pub title: String,
    pub body: String,
    pub leaves: Vec<String>,
}

/// A dry run's preview with the stderr-bound lines gathered on the way.
#[derive(Debug)]
pub struct CompileDryRunOutcome {
    pub result: Result<CompilePreview, CompileError>,
    pub warnings: Vec<String>,
}

impl CompileDryRunOutcome {
    /// The stderr-bound lines: the preview's on success, the outcome's on failure.
    pub fn stderr_lines(&self) -> (r: &[String])
        ensures
            r@ == match self.result {
                Ok(p) => p.warnings@,
                Err(_) => self.warnings@,
            },
    {
        match &self.result {
            Ok(preview) => preview.warnings.as_slice(),
            Err(_) => self.warnings.as_slice(),
        }
    }
}

// ── degenerate results ───────────────────────────────────────────────────────

/// The leaves placed in branches, counted over all branches.
pub open spec fn branch_leaf_sum(bs: Seq<BranchResult>) -> nat
    decreases bs.len(),
{
    if bs.len() == 0 {
        0
    } else {
        branch_leaf_sum(bs.drop_last()) + bs.last().leaf_count as nat
    }
}

/// `n / d` rounded to the nearest integer, ties to the even one.
pub open spec fn round_half_even(n: nat, d: nat) -> nat
    recommends
        d > 0,
{
    let q = n / d;
    let r = n % d;
    if 2 * r > d || (2 * r == d && q % 2 == 1) {
        q + 1
    } else {
        q
    }
}

pub open spec fn degenerate_fix() -> Seq<char> {
    "the model likely collapsed; try `bo compile --all` again or switch models with `bo config --compile-model <model>`"@
}

/// The warning for a Full compile whose branches cover implausibly few of
/// the leaves processed, if any. Percentages are exact fractions here.
pub open spec fn degenerate_spec(mode: Option<CompileRunMode>, bs: Seq<BranchResult>, leaves: nat) -> Option<Seq<char>> {
    let branched = branch_leaf_sum(bs);
    let unbranched: nat = if leaves >= branched { (leaves - branched) as nat } else { 0 };
    if mode != Some(CompileRunMode::Full) || leaves <= 20 {
        None
    } else if bs.len() < 2 {
        Some(
            "degenerate compile result: "@ + decimal(bs.len()) + " branch(es) for "@ + decimal(leaves)
                + " leaves — "@ + degenerate_fix(),
        )
    } else if unbranched * 5 > leaves * 4 {
        Some(
            "degenerate compile result: "@ + decimal(unbranched) + " of "@ + decimal(leaves)
                + " leaves unbranched ("@ + decimal(round_half_even(100 * unbranched, leaves))
                + "%) — "@ + degenerate_fix(),
        )
    } else if branched * 10 < leaves * 3 {
        Some(
            "degenerate compile result: only "@ + decimal(branched) + " of "@ + decimal(leaves)
                + " leaves placed in branches — "@ + degenerate_fix(),
        )
    } else {
        None
    }
}

pub open spec fn opt_string(o: Option<String>) -> Option<Seq<char>> {
    match o {
        Some(s) => Some(s@),
        None => None,
    }
}

fn branch_leaf_total(branches: &[BranchResult]) -> (r: usize)
    requires
        branch_leaf_sum(branches@) <= usize::MAX,
    ensures
        r == branch_leaf_sum(branches@),
{
    let mut total: usize = 0;
    let mut i: usize = 0;
    while i < branches.len()
        invariant
            i <= branches.len(),
            total == branch_leaf_sum(branches@.take(i as int)),
            branch_leaf_sum(branches@) <= usize::MAX,
        decreases branches.len() - i,
    {
        assert(branches@.take(i + 1).drop_last() =~= branches@.take(i as int));
        proof {
            lemma_leaf_sum_prefix(branches@, i + 1);
        }
        total = total + branches[i].leaf_count;
        i += 1;
    }
    assert(branches@.take(branches.len() as int) =~= branches@);
    total
}

proof fn lemma_leaf_sum_prefix(bs: Seq<BranchResult>, k: int)
    requires
        0 <= k <= bs.len(),
    ensures
        branch_leaf_sum(bs.take(k)) <= branch_leaf_sum(bs),
    decreases bs.len(),
{
    if k < bs.len() {
        assert(bs.drop_last().take(k) =~= bs.take(k));
        lemma_leaf_sum_prefix(bs.drop_last(), k);
    } else {
        assert(bs.take(k) =~= bs);
    }
}

/// Checks a Full compile result for quality collapse: with more than 20
/// leaves processed, fewer than 2 branches, more than 80% of the leaves
/// outside every branch, or under 30% of them inside one is reported.
/// Incremental runs naturally produce fewer branches and are never reported.
pub fn degenerate_result_warning(
    mode: Option<CompileRunMode>,
    branches: &[BranchResult],
    leaves_processed: usize,
) -> (r: Option<String>)
    requires
        branch_leaf_sum(branches@) <= usize::MAX,
    ensures
        opt_string(r) == degenerate_spec(mode, branches@, leaves_processed as nat),
{
    let full = match mode {
        Some(CompileRunMode::Full) => true,
        _ => false,
    };
    if !full || leaves_processed <= 20 {
        return None;
    }
    let fix = "the model likely collapsed; try `bo compile --all` again or switch models with `bo config --compile-model <model>`";
    let branch_count = branches.len();
    let leaves = usize_to_string(leaves_processed);
    if branch_count < 2 {
        let mut s = cat3("degenerate compile result: ", usize_to_string(branch_count).as_str(), " branch(es) for ");
        push_str(&mut s, leaves.as_str());
        push_str(&mut s, " leaves — ");
        push_str(&mut s, fix);
        return Some(s);
    }
    let branched = branch_leaf_total(branches);
    let unbranched = leaves_processed.saturating_sub(branched);
    if (unbranched as u128) * 5 > (leaves_processed as u128) * 4 {
        let n: u128 = (unbranched as u128) * 100;
        let d: u128 = leaves_processed as u128;
        let q: u128 = n / d;
        let rem: u128 = n % d;
        let pct: u128 = if 2 * rem > d || (2 * rem == d && q % 2 == 1) { q + 1 } else { q };
        assert(pct <= 100) by (nonlinear_arith)
            requires
                n == unbranched * 100,
                unbranched <= d,
                d > 0,
                q == n / d,
                rem == n % d,
                pct == (if 2 * rem > d || (2 * rem == d && q % 2 == 1) { q + 1 } else { q as int }),
        {
            assert(q <= 100);
            if q == 100 {
                assert(rem == 0);
            }
        }
        let mut s = cat3("degenerate compile result: ", usize_to_string(unbranched).as_str(), " of ");
        push_str(&mut s, leaves.as_str());
        push_str(&mut s, " leaves unbranched (");
        push_str(&mut s, usize_to_string(pct as usize).as_str());
        push_str(&mut s, "%) — ");
        push_str(&mut s, fix);
        return Some(s);
    }
    if (branched as u128) * 10 < (leaves_processed as u128) * 3 {
        let mut s = cat3("degenerate compile result: only ", usize_to_string(branched).as_str(), " of ");
        push_str(&mut s, leaves.as_str());
        push_str(&mut s, " leaves placed in branches — ");
        push_str(&mut s, fix);
        return Some(s);
    }
    None
}

} // verus!
