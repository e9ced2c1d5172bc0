//! What the JSON envelopes report of an error or a warning: a code, a
//! message, and named details.
//!
//! The details are plain values here; writing them as JSON objects is the
//! caller's part.
use vstd::prelude::*;

use crate::collect::{collect_error_code, collect_error_text, error_code, CollectError};
use crate::compile::{compile_error_code, compile_error_message, degenerate_spec, CompileError, CompilePreview, CompileResult, Usage};
use crate::config::{config_code, config_message, ConfigWriteError};
use crate::list::ListError;
use crate::query::{query_code, query_message, query_next_step, LowRelevanceReason, QueryError};
use crate::show::{show_error_code, show_error_text, ShowCandidateSummary, ShowError};
use crate::synthesize::{synthesis_error_code, synthesis_error_message, SynthesisError};
use crate::text::{cat3, decimal, owned, strs, usize_to_string};

verus! {

/// A detail's value.
#[derive(Debug)]
pub enum Detail {
    Text(String),
    /// A text, or `null`.
    MaybeText(Option<String>),
    Count(usize),
    /// A count, or `null`.
    MaybeCount(Option<usize>),
    Flag(bool),
    Texts(Vec<String>),
    /// The token usage of model calls, or `null`.
    Tokens(Option<Usage>),
    /// Leaves a title matched, each with its file, title, path and URL.
    Candidates(Vec<ShowCandidateSummary>),
    /// Why the retrieved sources were too weak.
    Relevance(LowRelevanceReason),
}

/// An error as the error envelope reports it.
#[derive(Debug)]
pub struct JsonError {
    pub code: String,
    pub message: String,
    pub details: Vec<(String, Detail)>,
}

/// A warning as an envelope reports it.
#[derive(Debug)]
pub struct JsonWarning {
    pub code: String,
    pub message: String,
    pub details: Vec<(String, Detail)>,
}

/// The names of the details, in order.
pub open spec fn detail_keys(d: Seq<(String, Detail)>) -> Seq<Seq<char>> {
    d.map_values(|x: (String, Detail)| x.0@)
}

pub open spec fn compile_next_steps() -> Seq<Seq<char>> {
    seq!["bo config --compile-model gpt-4.1-mini"@, "bo config --compile-model gpt-4.1"@]
}

pub open spec fn validation_next_step() -> Seq<char> {
    "No files were changed. Try `bo compile` again; if this repeats, switch models with `bo config --model <model>` or report the validation message."@
}

fn next_steps(first: &str, second: &str) -> (r: Vec<String>)
    ensures
        strs(r@) == seq![first@, second@],
{
    let mut v: Vec<String> = Vec::new();
    v.push(owned(first));
    v.push(owned(second));
    assert(strs(v@) =~= seq![first@, second@]);
    v
}

fn detail(key: &str, value: Detail) -> (r: (String, Detail))
    ensures
        r.0@ == key@,
        r.1 == value,
{
    (owned(key), value)
}

// ── compile and synthesize ───────────────────────────────────────────────────

/// The compile error's envelope: its code and message, with details for a
/// context overflow (the model, the token counts and the next steps), a
/// validation failure (its message alone, and that no file changed), a
/// blocked dry run and a failed agent run (its telemetry).
pub fn compile_json_error(e: CompileError) -> (r: JsonError)
    ensures
        r.code@ == compile_error_code(e),
        match e {
            CompileError::ContextOverflow { model, estimated_tokens, context_tokens } => {
                &&& r.message@ == compile_error_message(e)
                &&& detail_keys(r.details@) == seq!["model"@, "estimated_tokens"@, "context_tokens"@, "next_steps"@]
                &&& r.details@[0].1 matches Detail::Text(m) && m == model
                &&& r.details@[1].1 == Detail::MaybeCount(estimated_tokens)
                &&& r.details@[2].1 == Detail::MaybeCount(context_tokens)
                &&& r.details@[3].1 matches Detail::Texts(v) && strs(v@) == compile_next_steps()
            },
            CompileError::Validation(m) => {
                &&& r.message == m
                &&& detail_keys(r.details@) == seq!["phase"@, "files_changed"@, "next_step"@]
                &&& r.details@[0].1 matches Detail::Text(p) && p@ == "compile_validation"@
                &&& r.details@[1].1 == Detail::Flag(false)
                &&& r.details@[2].1 matches Detail::Text(s) && s@ == validation_next_step()
            },
            CompileError::DryRunBlocked(m) => {
                &&& r.message == m
                &&& detail_keys(r.details@) == seq!["files_changed"@]
                &&& r.details@[0].1 == Detail::Flag(false)
            },
            CompileError::AgentFailed { message, turns, tool_calls, usage, last_error, signals_sent } => {
                &&& r.message == message
                &&& detail_keys(r.details@) == seq![
                    "files_changed"@,
                    "turns"@,
                    "tool_calls"@,
                    "signals_sent"@,
                    "usage"@,
                    "last_error"@,
                ]
                &&& r.details@[0].1 == Detail::Flag(false)
                &&& r.details@[1].1 == Detail::Count(turns)
                &&& r.details@[2].1 == Detail::Count(tool_calls)
                &&& r.details@[3].1 == Detail::Count(signals_sent)
                &&& r.details@[4].1 == Detail::Tokens(usage)
                &&& r.details@[5].1 == Detail::MaybeText(last_error)
            },
            _ => r.message@ == compile_error_message(e) && r.details@.len() == 0,
        },
{
    let code = owned(e.code());
    match e {
        CompileError::ContextOverflow { model, estimated_tokens, context_tokens } => {
            let message = CompileError::ContextOverflow { model: model.clone(), estimated_tokens, context_tokens }.message();
            let mut d: Vec<(String, Detail)> = Vec::new();
            d.push(detail("model", Detail::Text(model)));
            d.push(detail("estimated_tokens", Detail::MaybeCount(estimated_tokens)));
            d.push(detail("context_tokens", Detail::MaybeCount(context_tokens)));
            d.push(
                detail(
                    "next_steps",
                    Detail::Texts(next_steps("bo config --compile-model gpt-4.1-mini", "bo config --compile-model gpt-4.1")),
                ),
            );
            assert(detail_keys(d@) =~= seq!["model"@, "estimated_tokens"@, "context_tokens"@, "next_steps"@]);
            JsonError { code, message, details: d }
        },
        CompileError::Validation(m) => {
            let mut d: Vec<(String, Detail)> = Vec::new();
            d.push(detail("phase", Detail::Text(owned("compile_validation"))));
            d.push(detail("files_changed", Detail::Flag(false)));
            d.push(
                detail(
                    "next_step",
                    Detail::Text(
                        owned(
                            "No files were changed. Try `bo compile` again; if this repeats, switch models with `bo config --model <model>` or report the validation message.",
                        ),
                    ),
                ),
            );
            assert(detail_keys(d@) =~= seq!["phase"@, "files_changed"@, "next_step"@]);
            JsonError { code, message: m, details: d }
        },
        CompileError::DryRunBlocked(m) => {
            let mut d: Vec<(String, Detail)> = Vec::new();
            d.push(detail("files_changed", Detail::Flag(false)));
            assert(detail_keys(d@) =~= seq!["files_changed"@]);
            JsonError { code, message: m, details: d }
        },
        CompileError::AgentFailed { message, turns, tool_calls, usage, last_error, signals_sent } => {
            let mut d: Vec<(String, Detail)> = Vec::new();
            d.push(detail("files_changed", Detail::Flag(false)));
            d.push(detail("turns", Detail::Count(turns)));
            d.push(detail("tool_calls", Detail::Count(tool_calls)));
            d.push(detail("signals_sent", Detail::Count(signals_sent)));
            d.push(detail("usage", Detail::Tokens(usage)));
            d.push(detail("last_error", Detail::MaybeText(last_error)));
            assert(detail_keys(d@) =~= seq![
                "files_changed"@,
                "turns"@,
                "tool_calls"@,
                "signals_sent"@,
                "usage"@,
                "last_error"@,
            ]);
            JsonError { code, message, details: d }
        },
        other => {
            let message = other.message();
            JsonError { code, message, details: Vec::new() }
        },
    }
}

/// The synthesis error's envelope, as for a compile error.
pub fn synthesis_json_error(e: SynthesisError) -> (r: JsonError)
    ensures
        r.code@ == synthesis_error_code(e),
        match e {
            SynthesisError::ContextOverflow { model, estimated_tokens, context_tokens } => {
                &&& r.message@ == synthesis_error_message(e)
                &&& detail_keys(r.details@) == seq!["model"@, "estimated_tokens"@, "context_tokens"@, "next_steps"@]
                &&& r.details@[0].1 matches Detail::Text(m) && m == model
                &&& r.details@[1].1 == Detail::MaybeCount(estimated_tokens)
                &&& r.details@[2].1 == Detail::MaybeCount(context_tokens)
                &&& r.details@[3].1 matches Detail::Texts(v) && strs(v@) == compile_next_steps()
            },
            SynthesisError::Validation(m) => {
                &&& r.message == m
                &&& detail_keys(r.details@) == seq!["phase"@, "files_changed"@, "next_step"@]
                &&& r.details@[0].1 matches Detail::Text(p) && p@ == "compile_validation"@
                &&& r.details@[1].1 == Detail::Flag(false)
                &&& r.details@[2].1 matches Detail::Text(s) && s@ == validation_next_step()
            },
            SynthesisError::DryRunBlocked(m) => {
                &&& r.message == m
                &&& detail_keys(r.details@) == seq!["files_changed"@]
                &&& r.details@[0].1 == Detail::Flag(false)
            },
            SynthesisError::AgentFailed { message, turns, tool_calls, usage, last_error, signals_sent } => {
                &&& r.message == message
                &&& detail_keys(r.details@) == seq![
                    "files_changed"@,
                    "turns"@,
                    "tool_calls"@,
                    "signals_sent"@,
                    "usage"@,
                    "last_error"@,
                ]
                &&& r.details@[0].1 == Detail::Flag(false)
                &&& r.details@[1].1 == Detail::Count(turns)
                &&& r.details@[2].1 == Detail::Count(tool_calls)
                &&& r.details@[3].1 == Detail::Count(signals_sent)
                &&& r.details@[4].1 == Detail::Tokens(usage)
                &&& r.details@[5].1 == Detail::MaybeText(last_error)
            },
            _ => r.message@ == synthesis_error_message(e) && r.details@.len() == 0,
        },
{
    let code = owned(e.code());
    match e {
        SynthesisError::ContextOverflow { model, estimated_tokens, context_tokens } => {
            let message = SynthesisError::ContextOverflow {
                model: model.clone(),
                estimated_tokens,
                context_tokens,
            }.message();
            let mut d: Vec<(String, Detail)> = Vec::new();
            d.push(detail("model", Detail::Text(model)));
            d.push(detail("estimated_tokens", Detail::MaybeCount(estimated_tokens)));
            d.push(detail("context_tokens", Detail::MaybeCount(context_tokens)));
            d.push(
                detail(
                    "next_steps",
                    Detail::Texts(next_steps("bo config --compile-model gpt-4.1-mini", "bo config --compile-model gpt-4.1")),
                ),
            );
            assert(detail_keys(d@) =~= seq!["model"@, "estimated_tokens"@, "context_tokens"@, "next_steps"@]);
            JsonError { code, message, details: d }
        },
        SynthesisError::Validation(m) => {
            let mut d: Vec<(String, Detail)> = Vec::new();
            d.push(detail("phase", Detail::Text(owned("compile_validation"))));
            d.push(detail("files_changed", Detail::Flag(false)));
            d.push(
                detail(
                    "next_step",
                    Detail::Text(
                        owned(
                            "No files were changed. Try `bo compile` again; if this repeats, switch models with `bo config --model <model>` or report the validation message.",
                        ),
                    ),
                ),
            );
            assert(detail_keys(d@) =~= seq!["phase"@, "files_changed"@, "next_step"@]);
            JsonError { code, message: m, details: d }
        },
        SynthesisError::DryRunBlocked(m) => {
            let mut d: Vec<(String, Detail)> = Vec::new();
            d.push(detail("files_changed", Detail::Flag(false)));
            assert(detail_keys(d@) =~= seq!["files_changed"@]);
            JsonError { code, message: m, details: d }
        },
        SynthesisError::AgentFailed { message, turns, tool_calls, usage, last_error, signals_sent } => {
            let mut d: Vec<(String, Detail)> = Vec::new();
            d.push(detail("files_changed", Detail::Flag(false)));
            d.push(detail("turns", Detail::Count(turns)));
            d.push(detail("tool_calls", Detail::Count(tool_calls)));
            d.push(detail("signals_sent", Detail::Count(signals_sent)));
            d.push(detail("usage", Detail::Tokens(usage)));
            d.push(detail("last_error", Detail::MaybeText(last_error)));
            assert(detail_keys(d@) =~= seq![
                "files_changed"@,
                "turns"@,
                "tool_calls"@,
                "signals_sent"@,
                "usage"@,
                "last_error"@,
            ]);
            JsonError { code, message, details: d }
        },
        other => {
            let message = other.message();
            JsonError { code, message, details: Vec::new() }
        },
    }
}

pub open spec fn skipped_text(n: nat) -> Seq<char> {
    "skipped "@ + decimal(n) + " leaves with unparseable frontmatter"@
}

fn skipped_warning(files: &Vec<String>) -> (r: JsonWarning)
    ensures
        r.code@ == "skipped_leaves"@,
        r.message@ == skipped_text(files@.len()),
        detail_keys(r.details@) == seq!["files"@],
        r.details@[0].1 matches Detail::Texts(v) && v@ == files@,
{
    let mut d: Vec<(String, Detail)> = Vec::new();
    d.push(detail("files", Detail::Texts(files.clone())));
    assert(detail_keys(d@) =~= seq!["files"@]);
    JsonWarning {
        code: owned("skipped_leaves"),
        message: cat3("skipped ", usize_to_string(files.len()).as_str(), " leaves with unparseable frontmatter"),
        details: d,
    }
}

/// The warnings of a compile result: the skipped leaves, when any were
/// skipped, then the degenerate-result warning, when it applies.
pub fn result_warnings(result: &CompileResult) -> (r: Vec<JsonWarning>)
    requires
        crate::compile::branch_leaf_sum(result.branches@) <= usize::MAX,
    ensures
        r@.map_values(|w: JsonWarning| w.code@) == (if result.leaves_skipped@.len() > 0 {
            seq!["skipped_leaves"@]
        } else {
            seq![]
        }) + (if degenerate_spec(result.mode, result.branches@, result.leaves_processed as nat) is Some {
            seq!["degenerate_result"@]
        } else {
            seq![]
        }),
        r@.len() > 0 && result.leaves_skipped@.len() > 0 ==> r@[0].message@ == skipped_text(result.leaves_skipped@.len())
            && (r@[0].details@[0].1 matches Detail::Texts(v) && v@ == result.leaves_skipped@),
        degenerate_spec(result.mode, result.branches@, result.leaves_processed as nat) matches Some(m) ==> r@.last().message@
            == m && r@.last().details@.len() == 0,
{
    let mut warnings: Vec<JsonWarning> = Vec::new();
    if result.leaves_skipped.len() > 0 {
        warnings.push(skipped_warning(&result.leaves_skipped));
    }
    let ghost before = warnings@;
    match crate::compile::degenerate_result_warning(result.mode, result.branches.as_slice(), result.leaves_processed) {
        Some(m) => {
            warnings.push(JsonWarning { code: owned("degenerate_result"), message: m, details: Vec::new() });
        },
        None => {},
    }
    assert(warnings@.map_values(|w: JsonWarning| w.code@) =~= (if result.leaves_skipped@.len() > 0 {
        seq!["skipped_leaves"@]
    } else {
        seq![]
    }) + (if degenerate_spec(result.mode, result.branches@, result.leaves_processed as nat) is Some {
        seq!["degenerate_result"@]
    } else {
        seq![]
    }));
    warnings
}

/// The warnings of a compile preview: the skipped leaves, when any were.
pub fn preview_warnings(preview: &CompilePreview) -> (r: Vec<JsonWarning>)
    ensures
        preview.leaves_skipped@.len() == 0 ==> r@.len() == 0,
        preview.leaves_skipped@.len() > 0 ==> (r@.len() == 1 && r@[0].code@ == "skipped_leaves"@ && r@[0].message@
            == skipped_text(preview.leaves_skipped@.len()) && (r@[0].details@[0].1 matches Detail::Texts(v) && v@
            == preview.leaves_skipped@)),
{
    let mut warnings: Vec<JsonWarning> = Vec::new();
    if preview.leaves_skipped.len() > 0 {
        warnings.push(skipped_warning(&preview.leaves_skipped));
    }
    warnings
}

// ── the commands' errors ─────────────────────────────────────────────────────

/// The query error's envelope: the next step, and the reason and matches
/// or the leaves consulted, for the errors that have them.
pub fn query_json_error(e: QueryError) -> (r: JsonError)
    ensures
        r.code@ == query_code(e),
        r.message@ == query_message(e),
        match e {
            QueryError::LowRelevance { reason, matched_sources } => {
                &&& detail_keys(r.details@) == seq!["reason"@, "matched_sources"@, "next_step"@]
                &&& r.details@[0].1 == Detail::Relevance(reason)
                &&& r.details@[1].1 == Detail::Count(matched_sources)
                &&& r.details@[2].1 matches Detail::Text(s) && Some(s@) == query_next_step(e)
            },
            QueryError::InsufficientSources { leaves_consulted } => {
                &&& detail_keys(r.details@) == seq!["leaves_consulted"@, "next_step"@]
                &&& r.details@[0].1 == Detail::Count(leaves_consulted)
                &&& r.details@[1].1 matches Detail::Text(s) && Some(s@) == query_next_step(e)
            },
            QueryError::EmptyTree | QueryError::NoResults => {
                &&& detail_keys(r.details@) == seq!["next_step"@]
                &&& r.details@[0].1 matches Detail::Text(s) && Some(s@) == query_next_step(e)
            },
            _ => r.details@.len() == 0,
        },
{
    let code = owned(e.code());
    let message = e.message();
    let step = e.next_step();
    let mut d: Vec<(String, Detail)> = Vec::new();
    match e {
        QueryError::LowRelevance { reason, matched_sources } => {
            d.push(detail("reason", Detail::Relevance(reason)));
            d.push(detail("matched_sources", Detail::Count(matched_sources)));
            match step {
                Some(s) => d.push(detail("next_step", Detail::Text(owned(s)))),
                None => {},
            }
            assert(detail_keys(d@) =~= seq!["reason"@, "matched_sources"@, "next_step"@]);
        },
        QueryError::InsufficientSources { leaves_consulted } => {
            d.push(detail("leaves_consulted", Detail::Count(leaves_consulted)));
            match step {
                Some(s) => d.push(detail("next_step", Detail::Text(owned(s)))),
                None => {},
            }
            assert(detail_keys(d@) =~= seq!["leaves_consulted"@, "next_step"@]);
        },
        QueryError::EmptyTree | QueryError::NoResults => {
            match step {
                Some(s) => d.push(detail("next_step", Detail::Text(owned(s)))),
                None => {},
            }
            assert(detail_keys(d@) =~= seq!["next_step"@]);
        },
        _ => {},
    }
    JsonError { code, message, details: d }
}

/// The show error's envelope: the title, with the candidates when it is
/// ambiguous, or the file.
pub fn show_json_error(e: ShowError) -> (r: JsonError)
    ensures
        r.code@ == show_error_code(e),
        r.message@ == show_error_text(e),
        match e {
            ShowError::NotFound { title } => detail_keys(r.details@) == seq!["title"@] && (r.details@[0].1 matches Detail::Text(t) && t == title),
            ShowError::Ambiguous { title, candidates } => detail_keys(r.details@) == seq!["title"@, "candidates"@]
                && (r.details@[0].1 matches Detail::Text(t) && t == title) && r.details@[1].1 == Detail::Candidates(candidates),
            ShowError::SuspiciousPath { file } | ShowError::MissingFile { file } | ShowError::InvalidFrontmatter {
                file,
                ..
            } | ShowError::UnreadableFile { file, .. } => detail_keys(r.details@) == seq!["file"@] && (r.details@[0].1 matches Detail::Text(f) && f == file),
            _ => r.details@.len() == 0,
        },
{
    let code = owned(e.code());
    let message = e.message();
    let mut d: Vec<(String, Detail)> = Vec::new();
    match e {
        ShowError::NotFound { title } => {
            d.push(detail("title", Detail::Text(title)));
            assert(detail_keys(d@) =~= seq!["title"@]);
        },
        ShowError::Ambiguous { title, candidates } => {
            d.push(detail("title", Detail::Text(title)));
            d.push(detail("candidates", Detail::Candidates(candidates)));
            assert(detail_keys(d@) =~= seq!["title"@, "candidates"@]);
        },
        ShowError::SuspiciousPath { file } | ShowError::MissingFile { file } | ShowError::InvalidFrontmatter {
            file,
            ..
        } | ShowError::UnreadableFile { file, .. } => {
            d.push(detail("file", Detail::Text(file)));
            assert(detail_keys(d@) =~= seq!["file"@]);
        },
        _ => {},
    }
    JsonError { code, message, details: d }
}

/// The collect error's envelope: the existing file of a duplicate, the URL
/// and reason of a refusal.
pub fn collect_json_error(e: CollectError) -> (r: JsonError)
    ensures
        r.code@ == collect_error_code(e),
        r.message@ == collect_error_text(e),
        match e {
            CollectError::DuplicateUrl { existing_file } => detail_keys(r.details@) == seq!["existing_file"@] && (
            r.details@[0].1 matches Detail::Text(f) && f == existing_file),
            CollectError::Rejected { url, reason } => detail_keys(r.details@) == seq!["url"@, "reason"@] && (
            r.details@[0].1 matches Detail::Text(u) && u == url) && (r.details@[1].1 matches Detail::Text(x) && x == reason),
            _ => r.details@.len() == 0,
        },
{
    let code = owned(error_code(&e));
    let message = e.message();
    let mut d: Vec<(String, Detail)> = Vec::new();
    match e {
        CollectError::DuplicateUrl { existing_file } => {
            d.push(detail("existing_file", Detail::Text(existing_file)));
            assert(detail_keys(d@) =~= seq!["existing_file"@]);
        },
        CollectError::Rejected { url, reason } => {
            d.push(detail("url", Detail::Text(url)));
            d.push(detail("reason", Detail::Text(reason)));
            assert(detail_keys(d@) =~= seq!["url"@, "reason"@]);
        },
        _ => {},
    }
    JsonError { code, message, details: d }
}

/// The list error's envelope: its code and message alone.
pub fn list_json_error(e: &ListError) -> (r: JsonError)
    ensures
        r.code@ == match e {
            ListError::Io(_) => "io_error"@,
            ListError::Json(_) => "json_error"@,
            ListError::Manifest(_) => "manifest_error"@,
        },
        r.message@ == match e {
            ListError::Io(x) => "I/O error: "@ + x@,
            ListError::Json(x) => "JSON error: "@ + x@,
            ListError::Manifest(x) => x@,
        },
        r.details@.len() == 0,
{
    JsonError { code: owned(e.code()), message: e.message(), details: Vec::new() }
}

/// The configuration error's envelope: the provider and the valid ones, or
/// the model, its provider and the provider's models.
pub fn config_json_error(e: ConfigWriteError) -> (r: JsonError)
    ensures
        r.code@ == config_code(e),
        r.message@ == config_message(e),
        match e {
            ConfigWriteError::UnknownProvider { raw, valid_providers } => detail_keys(r.details@) == seq![
                "provider"@,
                "valid_providers"@,
            ] && (r.details@[0].1 matches Detail::Text(p) && p == raw) && (r.details@[1].1 matches Detail::Texts(v) && v
                == valid_providers),
            ConfigWriteError::UnsupportedModel { model, provider, supported_models } => detail_keys(r.details@) == seq![
                "model"@,
                "provider"@,
                "supported_models"@,
            ] && (r.details@[0].1 matches Detail::Text(m) && m == model) && (r.details@[1].1 matches Detail::Text(p) && p
                == provider) && (r.details@[2].1 matches Detail::Texts(v) && v == supported_models),
            _ => r.details@.len() == 0,
        },
{
    let code = owned(e.code());
    let message = e.message();
    let mut d: Vec<(String, Detail)> = Vec::new();
    match e {
        ConfigWriteError::UnknownProvider { raw, valid_providers } => {
            d.push(detail("provider", Detail::Text(raw)));
            d.push(detail("valid_providers", Detail::Texts(valid_providers)));
            assert(detail_keys(d@) =~= seq!["provider"@, "valid_providers"@]);
        },
        ConfigWriteError::UnsupportedModel { model, provider, supported_models } => {
            d.push(detail("model", Detail::Text(model)));
            d.push(detail("provider", Detail::Text(provider)));
            d.push(detail("supported_models", Detail::Texts(supported_models)));
            assert(detail_keys(d@) =~= seq!["model"@, "provider"@, "supported_models"@]);
        },
        _ => {},
    }
    JsonError { code, message, details: d }
}

} // verus!
