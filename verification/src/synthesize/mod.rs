//! `bo synthesize`: the records of a synthesis run, its errors and outcomes.
use vstd::prelude::*;

pub mod agent;


use crate::compile::Usage;
use crate::text::{cat, cat3, owned, push_str};

verus! {

/// Leaf count above which Full mode switches to the two-stage synthesis.
pub const TWO_STAGE_FULL_THRESHOLD: usize = 40;

/// New-leaf count above which Incremental mode switches to the two-stage synthesis.
pub const TWO_STAGE_INCREMENTAL_THRESHOLD: usize = 15;

#[derive(Debug)]
pub enum SynthesisError {
    /// Collection exceeds the model's context window.
    ContextOverflow { model: String, estimated_tokens: Option<usize>, context_tokens: Option<usize> },
    /// LLM output was truncated.
    Truncated,
    /// Response blocked by content filter.
    ContentFilter,
    /// LLM API or network error.
    Llm(String),
    /// I/O, state, or transaction error.
    Io(String),
    /// Another bo process is mutating this tree.
    Busy(String),
    /// Validation error in the LLM response.
    Validation(String),
    /// A dry-run was blocked; zero bytes were written.
    DryRunBlocked(String),
    /// The agent loop failed to produce a valid plan; zero bytes written.
    AgentFailed {
        message: String,
        turns: usize,
        tool_calls: usize,
        usage: Option<Usage>,
        last_error: Option<String>,
        signals_sent: usize,
    },
}


/// The remedy named when the model's context is too small.
pub open spec fn synthesis_model_steps() -> Seq<char> {
    "bo config --synthesis-model gpt-4.1-mini\nbo config --synthesis-model gpt-4.1"@
}

/// What the error says to a user.
pub open spec fn synthesis_error_message(e: SynthesisError) -> Seq<char> {
    match e {
        SynthesisError::ContextOverflow { model, .. } => "synthesis model context is too small for '"@
            + model@ + "' — set a larger synthesis model, for example:\n"@ + synthesis_model_steps(),
        SynthesisError::Truncated => "synthesis output was truncated — try reducing collection size or using a model with larger output capacity"@,
        SynthesisError::ContentFilter => "synthesis was blocked by content filter"@,
        SynthesisError::Llm(m) => "LLM error: "@ + m@,
        SynthesisError::Io(m) => m@,
        SynthesisError::Busy(m) => m@,
        SynthesisError::Validation(m) => m@ + "\nNo files were changed. Try `bo synthesize` again; if this repeats, switch models with `bo config --model <model>` or report the validation message."@,
        SynthesisError::DryRunBlocked(m) => m@,
        SynthesisError::AgentFailed { message, .. } => message@,
    }
}

/// The machine-readable code of the error.
pub open spec fn synthesis_error_code(e: SynthesisError) -> Seq<char> {
    match e {
        SynthesisError::ContextOverflow { .. } => "context_overflow"@,
        SynthesisError::Truncated => "truncated"@,
        SynthesisError::ContentFilter => "content_filter"@,
        SynthesisError::Llm(_) => "llm_error"@,
        SynthesisError::Io(_) => "io_error"@,
        SynthesisError::Busy(_) => "tree_busy"@,
        SynthesisError::Validation(_) => "validation_error"@,
        SynthesisError::DryRunBlocked(_) => "dry_run_blocked"@,
        SynthesisError::AgentFailed { .. } => "agent_error"@,
    }
}

impl SynthesisError {
    /// The error as a user reads it.
    pub fn message(&self) -> (r: String)
        ensures
            r@ == synthesis_error_message(*self),
    {
        match self {
            SynthesisError::ContextOverflow { model, .. } => {
                let mut s = cat3(
                    "synthesis model context is too small for '",
                    model.as_str(),
                    "' — set a larger synthesis model, for example:\n",
                );
                push_str(&mut s, "bo config --synthesis-model gpt-4.1-mini\nbo config --synthesis-model gpt-4.1");
                s
            },
            SynthesisError::Truncated => owned(
                "synthesis output was truncated — try reducing collection size or using a model with larger output capacity",
            ),
            SynthesisError::ContentFilter => owned("synthesis was blocked by content filter"),
            SynthesisError::Llm(m) => cat("LLM error: ", m.as_str()),
            SynthesisError::Io(m) => m.clone(),
            SynthesisError::Busy(m) => m.clone(),
            SynthesisError::Validation(m) => cat(
                m.as_str(),
                "\nNo files were changed. Try `bo synthesize` again; if this repeats, switch models with `bo config --model <model>` or report the validation message.",
            ),
            SynthesisError::DryRunBlocked(m) => m.clone(),
            SynthesisError::AgentFailed { message, .. } => message.clone(),
        }
    }

    /// The machine-readable code of the error.
    pub fn code(&self) -> (r: &'static str)
        ensures
            r@ == synthesis_error_code(*self),
    {
        match self {
            SynthesisError::ContextOverflow { .. } => "context_overflow",
            SynthesisError::Truncated => "truncated",
            SynthesisError::ContentFilter => "content_filter",
            SynthesisError::Llm(_) => "llm_error",
            SynthesisError::Io(_) => "io_error",
            SynthesisError::Busy(_) => "tree_busy",
            SynthesisError::Validation(_) => "validation_error",
            SynthesisError::DryRunBlocked(_) => "dry_run_blocked",
            SynthesisError::AgentFailed { .. } => "agent_error",
        }
    }
}

// ── options and results ──────────────────────────────────────────────────────

#[derive(Debug, Clone, Copy, Default, PartialEq, Eq)]
pub struct SynthesisOptions {
    pub all: bool,
    /// Use the iterative agent path; it requires `dry_run`.
    pub agent: bool,
    /// Produce a read-only validated preview; write zero bytes to the tree.
    pub dry_run: bool,
}

#[derive(Debug, Clone, Copy, PartialEq, Eq)]
pub enum SynthesisMode {
    Incremental,
    Full,
}

/// The name `Debug` gives a run mode.
pub open spec fn synthesis_mode_name(m: SynthesisMode) -> Seq<char> {
    match m {
        SynthesisMode::Incremental => "Incremental"@,
        SynthesisMode::Full => "Full"@,
    }
}

pub fn synthesis_mode_name_exec(m: SynthesisMode) -> (r: &'static str)
    ensures
        r@ == synthesis_mode_name(m),
{
    match m {
        SynthesisMode::Incremental => "Incremental",
        SynthesisMode::Full => "Full",
    }
}

#[derive(Debug, Clone)]
pub struct BranchResult {
    pub slug: String,
    pub title: String,
    pub leaf_count: usize,
}

#[derive(Debug, Clone)]
pub struct SynthesisResult {
    pub status: String,
    pub reason: Option<String>,
    pub mode: Option<SynthesisMode>,
    pub model: Option<String>,
    pub branches: Vec<BranchResult>,
    pub leaves_processed: usize,
    pub leaves_skipped: Vec<String>,
    pub notifications: Vec<String>,
    /// Stderr-bound lines, never part of the data envelope.
    pub warnings: Vec<String>,
}

pub struct SynthesisSummary {
    pub branches: Vec<BranchResult>,
    pub branches_created: Vec<BranchResult>,
    pub branches_updated: Vec<BranchResult>,
    pub branch_deletes: Vec<String>,
    pub leaves_processed: usize,
    pub leaves_skipped: Vec<String>,
}

impl SynthesisResult {
    /// The result of a synthesis that wrote branches.
    pub fn synthesized(summary: SynthesisSummary, mode: SynthesisMode, model: &str, notifications: Vec<String>) -> (r: Self)
        ensures
            r.status@ == "synthesized"@,
            r.reason is None,
            r.mode == Some(mode),
            r.model matches Some(m) && m@ == model@,
            r.branches@ == summary.branches@,
            r.leaves_processed == summary.leaves_processed,
            r.leaves_skipped@ == summary.leaves_skipped@,
            r.notifications@ == notifications@,
            r.warnings@.len() == 0,
    {
        SynthesisResult {
            status: owned("synthesized"),
            reason: None,
            mode: Some(mode),
            model: Some(owned(model)),
            branches: summary.branches,
            leaves_processed: summary.leaves_processed,
            leaves_skipped: summary.leaves_skipped,
            notifications,
            warnings: Vec::new(),
        }
    }

    /// The result of a synthesis with nothing to do, and why.
    pub fn noop(reason: &str, notifications: Vec<String>) -> (r: Self)
        ensures
            r.status@ == "noop"@,
            r.reason matches Some(m) && m@ == reason@,
            r.mode is None,
            r.model is None,
            r.branches@.len() == 0,
            r.leaves_processed == 0,
            r.leaves_skipped@.len() == 0,
            r.notifications@ == notifications@,
            r.warnings@.len() == 0,
    {
        SynthesisResult {
            status: owned("noop"),
            reason: Some(owned(reason)),
            mode: None,
            model: None,
            branches: Vec::new(),
            leaves_processed: 0,
            leaves_skipped: Vec::new(),
            notifications,
            warnings: Vec::new(),
        }
    }
}

/// A synthesis run's result with the stderr-bound lines gathered on the way.
#[derive(Debug)]
pub struct SynthesisOutcome {
    pub result: Result<SynthesisResult, SynthesisError>,
    pub warnings: Vec<String>,
}

impl SynthesisOutcome {
    /// The stderr-bound lines: the result's on success, the outcome's on failure.
    pub fn stderr_lines(&self) -> (r: &[String])
        ensures
            r@ == match self.result {
                Ok(res) => res.warnings@,
                Err(_) => self.warnings@,
            },
    {
        match &self.result {
            Ok(result) => result.warnings.as_slice(),
            Err(_) => self.warnings.as_slice(),
        }
    }
}

/// A validated, read-only synthesis preview; no bytes were written for it.
#[derive(Debug, Clone)]
pub struct SynthesisPreview {
    pub status: String,
    pub reason: Option<String>,
    pub mode: Option<SynthesisMode>,
    pub provider: String,
    pub model: String,
    pub starting_state_hash: String,
    pub state_unchanged: bool,
    pub agent: bool,
    pub turns: usize,
    pub tool_calls: usize,
    pub usage: Option<Usage>,
    pub branches: Vec<PreviewBranch>,
    pub leaves_processed: usize,
    pub leaves_skipped: Vec<String>,
    pub notifications: Vec<String>,
    pub warnings: Vec<String>,
}

#[derive(Debug, Clone)]
pub struct PreviewBranch {
    pub slug: String,
    pub title: String,
    pub body: String,
    pub leaves: Vec<String>,
}

/// A dry run's preview with the stderr-bound lines gathered on the way.
#[derive(Debug)]
pub struct SynthesisDryRunOutcome {
    pub result: Result<SynthesisPreview, SynthesisError>,
    pub warnings: Vec<String>,
}

impl SynthesisDryRunOutcome {
    /// The stderr-bound lines: the preview's on success, the outcome's on failure.
    pub fn stderr_lines(&self) -> (r: &[String])
        ensures
            r@ == match self.result {
                Ok(p) => p.warnings@,
                Err(_) => self.warnings@,
            },
    {
        match &self.result {
            Ok(preview) => preview.warnings.as_slice(),
            Err(_) => self.warnings.as_slice(),
        }
    }
}

} // verus!
