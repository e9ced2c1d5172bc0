//! `bo query`: answers synthesized from the tree, with citations.
//!
//! The library holds the query's error model (exit codes, codes, next steps
//! and messages), the decisions taken on a model's reply and the text the
//! CLI prints.
use vstd::prelude::*;

use crate::text::{cat, cat3, decimal, owned, push_str, usize_to_string};

verus! {

/// A source cited by an answer.
#[derive(Debug, Clone)]
pub struct Citation {
    pub slug: String,
    pub title: String,
}

#[derive(Debug, Clone)]
pub struct QueryResult {
    pub answer: String,
    pub citations: Vec<Citation>,
    pub model: String,
    pub leaves_consulted: usize,
}

/// Why retrieved matches were judged too weak to answer from.
#[derive(Debug, Clone, Copy, PartialEq, Eq)]
pub enum LowRelevanceReason {
    WeakMatches,
    GenericTerms,
}

#[derive(Debug)]
pub enum QueryError {
    /// No API key or provider configured.
    NoProvider(String),
    /// No meaningful terms in the question.
    NoTerms,
    /// No relevant sources in the tree.
    NoResults,
    /// The tree has no leaves.
    EmptyTree,
    /// Index read or file I/O error.
    Io(String),
    /// The model has too little context left after the reserved budget.
    ContextBudgetExhausted { model: String, context_tokens: usize, reserved_tokens: usize },
    /// The reply hit the completion token limit.
    Truncated,
    /// The reply was blocked by content filtering.
    ContentFilter,
    /// The model call failed; holds the error's text.
    Llm(String),
    /// The reply could not be parsed.
    Parse(String),
    /// Retrieved matches are too weak or generic to support an answer.
    LowRelevance { reason: LowRelevanceReason, matched_sources: usize },
    /// The answer cited no valid source.
    InsufficientSources { leaves_consulted: usize },
}

/// Exit code: 1 when there is no answer, 2 for provider, configuration or
/// system errors.
pub open spec fn query_exit_code(e: QueryError) -> i32 {
    match e {
        QueryError::NoResults | QueryError::EmptyTree | QueryError::LowRelevance { .. }
        | QueryError::InsufficientSources { .. } => 1,
        _ => 2,
    }
}

pub open spec fn query_code(e: QueryError) -> Seq<char> {
    match e {
        QueryError::NoProvider(_) => "no_provider"@,
        QueryError::NoTerms => "no_terms"@,
        QueryError::NoResults => "no_results"@,
        QueryError::EmptyTree => "empty_tree"@,
        QueryError::Io(_) => "io_error"@,
        QueryError::ContextBudgetExhausted { .. } => "context_budget_exhausted"@,
        QueryError::Truncated => "llm_error"@,
        QueryError::ContentFilter => "llm_error"@,
        QueryError::Llm(_) => "llm_error"@,
        QueryError::Parse(_) => "parse_error"@,
        QueryError::LowRelevance { .. } => "low_relevance"@,
        QueryError::InsufficientSources { .. } => "insufficient_sources"@,
    }
}

pub open spec fn query_next_step(e: QueryError) -> Option<Seq<char>> {
    match e {
        QueryError::EmptyTree => Some("collect sources first with `bo collect <url>`"@),
        QueryError::NoResults => Some(
            "collect relevant material or rephrase with terms likely to appear in the tree"@,
        ),
        QueryError::LowRelevance { reason, .. } => match reason {
            LowRelevanceReason::WeakMatches => Some(
                "ask a more specific question, use more specific terms, or collect sources on this topic"@,
            ),
            LowRelevanceReason::GenericTerms => Some(
                "ask with more specific terms from the topic you expect to find"@,
            ),
        },
        QueryError::InsufficientSources { .. } => Some(
            "collect more material on this topic or rephrase your question"@,
        ),
        _ => None,
    }
}

pub open spec fn query_message(e: QueryError) -> Seq<char> {
    match e {
        QueryError::NoProvider(m) => m@,
        QueryError::NoTerms => "could not extract meaningful terms from question — try rephrasing with specific keywords"@,
        QueryError::NoResults => "no relevant sources found in tree"@,
        QueryError::EmptyTree => "no sources collected yet"@,
        QueryError::Io(m) => m@,
        QueryError::ContextBudgetExhausted { model, context_tokens, reserved_tokens } =>
            "query exhausted model context for '"@ + model@ + "' — context window is "@
                + decimal(context_tokens as nat) + " tokens and "@ + decimal(reserved_tokens as nat)
                + " tokens are reserved before source context"@,
        QueryError::Truncated => "query synthesis was truncated — try a model with larger output capacity"@,
        QueryError::ContentFilter => "query synthesis was blocked by content filter"@,
        QueryError::Llm(m) => m@,
        QueryError::Parse(m) => "synthesis failed — "@ + m@,
        QueryError::LowRelevance { reason, .. } => match reason {
            LowRelevanceReason::WeakMatches => "found matching sources, but they were not relevant enough to answer"@,
            LowRelevanceReason::GenericTerms => "query terms were too generic to identify relevant sources"@,
        },
        QueryError::InsufficientSources { leaves_consulted } => "searched "@ + decimal(
            leaves_consulted as nat,
        ) + " sources but could not produce a grounded answer"@,
    }
}

impl QueryError {
    /// Exit code: 1 when there is no answer, 2 for provider, configuration
    /// or system errors.
    pub fn exit_code(&self) -> (r: i32)
        ensures
            r == query_exit_code(*self),
    {
        match self {
            QueryError::NoResults | QueryError::EmptyTree | QueryError::LowRelevance { .. }
            | QueryError::InsufficientSources { .. } => 1,
            _ => 2,
        }
    }

    pub fn code(&self) -> (r: &'static str)
        ensures
            r@ == query_code(*self),
    {
        match self {
            QueryError::NoProvider(_) => "no_provider",
            QueryError::NoTerms => "no_terms",
            QueryError::NoResults => "no_results",
            QueryError::EmptyTree => "empty_tree",
            QueryError::Io(_) => "io_error",
            QueryError::ContextBudgetExhausted { .. } => "context_budget_exhausted",
            QueryError::Truncated | QueryError::ContentFilter => "llm_error",
            QueryError::Llm(_) => "llm_error",
            QueryError::Parse(_) => "parse_error",
            QueryError::LowRelevance { .. } => "low_relevance",
            QueryError::InsufficientSources { .. } => "insufficient_sources",
        }
    }

    /// What the user can do next, for the errors that have an answer to that.
    pub fn next_step(&self) -> (r: Option<&'static str>)
        ensures
            match query_next_step(*self) {
                Some(s) => r matches Some(t) && t@ == s,
                None => r is None,
            },
    {
        match self {
            QueryError::EmptyTree => Some("collect sources first with `bo collect <url>`"),
            QueryError::NoResults => Some(
                "collect relevant material or rephrase with terms likely to appear in the tree",
            ),
            QueryError::LowRelevance { reason, .. } => match reason {
                LowRelevanceReason::WeakMatches => Some(
                    "ask a more specific question, use more specific terms, or collect sources on this topic",
                ),
                LowRelevanceReason::GenericTerms => Some(
                    "ask with more specific terms from the topic you expect to find",
                ),
            },
            QueryError::InsufficientSources { .. } => Some(
                "collect more material on this topic or rephrase your question",
            ),
            _ => None,
        }
    }

    /// The error as a user reads it.
    pub fn message(&self) -> (r: String)
        ensures
            r@ == query_message(*self),
    {
        match self {
            QueryError::NoProvider(m) => m.clone(),
            QueryError::NoTerms => owned(
                "could not extract meaningful terms from question — try rephrasing with specific keywords",
            ),
            QueryError::NoResults => owned("no relevant sources found in tree"),
            QueryError::EmptyTree => owned("no sources collected yet"),
            QueryError::Io(m) => m.clone(),
            QueryError::ContextBudgetExhausted { model, context_tokens, reserved_tokens } => {
                let mut s = cat3("query exhausted model context for '", model.as_str(), "' — context window is ");
                push_str(&mut s, usize_to_string(*context_tokens).as_str());
                push_str(&mut s, " tokens and ");
                push_str(&mut s, usize_to_string(*reserved_tokens).as_str());
                push_str(&mut s, " tokens are reserved before source context");
                s
            },
            QueryError::Truncated => owned(
                "query synthesis was truncated — try a model with larger output capacity",
            ),
            QueryError::ContentFilter => owned("query synthesis was blocked by content filter"),
            QueryError::Llm(m) => m.clone(),
            QueryError::Parse(m) => cat("synthesis failed — ", m.as_str()),
            QueryError::LowRelevance { reason, .. } => match reason {
                LowRelevanceReason::WeakMatches => owned(
                    "found matching sources, but they were not relevant enough to answer",
                ),
                LowRelevanceReason::GenericTerms => owned(
                    "query terms were too generic to identify relevant sources",
                ),
            },
            QueryError::InsufficientSources { leaves_consulted } => cat3(
                "searched ",
                usize_to_string(*leaves_consulted).as_str(),
                " sources but could not produce a grounded answer",
            ),
        }
    }
}

// ── rendering ────────────────────────────────────────────────────────────────

pub open spec fn citation_lines(cs: Seq<Citation>) -> Seq<char>
    decreases cs.len(),
{
    if cs.len() == 0 {
        seq![]
    } else {
        citation_lines(cs.drop_last()) + "  \u{2022} [["@ + cs.last().slug@ + "]] \u{2014} "@
            + cs.last().title@ + "\n"@
    }
}

/// The answer, then its sources, one per line.
pub open spec fn query_text(r: QueryResult) -> Seq<char> {
    if r.citations@.len() == 0 {
        r.answer@
    } else {
        r.answer@ + "\n\nSources:\n"@ + citation_lines(r.citations@)
    }
}

/// The human-readable answer.
pub fn render_human(result: &QueryResult) -> (r: String)
    ensures
        r@ == query_text(*result),
{
    let mut output = result.answer.clone();
    if result.citations.len() > 0 {
        push_str(&mut output, "\n\nSources:\n");
        let mut i: usize = 0;
        while i < result.citations.len()
            invariant
                i <= result.citations.len(),
                output@ == result.answer@ + "\n\nSources:\n"@ + citation_lines(result.citations@.take(i as int)),
            decreases result.citations.len() - i,
        {
            assert(result.citations@.take(i + 1).drop_last() =~= result.citations@.take(i as int));
            assert(result.citations@.take(i + 1).last() == result.citations@[i as int]);
            let c = &result.citations[i];
            push_str(&mut output, "  \u{2022} [[");
            push_str(&mut output, c.slug.as_str());
            push_str(&mut output, "]] \u{2014} ");
            push_str(&mut output, c.title.as_str());
            push_str(&mut output, "\n");
            i += 1;
        }
        assert(result.citations@.take(result.citations.len() as int) =~= result.citations@);
    }
    output
}

/// What the CLI prints for a query error: the message, then the next step
/// when there is one.
pub open spec fn error_text(e: QueryError) -> Seq<char> {
    "error: "@ + query_message(e) + "\n"@ + match query_next_step(e) {
        Some(s) => "next step: "@ + s + "\n"@,
        None => seq![],
    }
}

/// The error as the CLI prints it to stderr.
pub fn render_error_human(error: &QueryError) -> (r: String)
    ensures
        r@ == error_text(*error),
{
    let mut out = cat3("error: ", error.message().as_str(), "\n");
    match error.next_step() {
        Some(s) => {
            push_str(&mut out, "next step: ");
            push_str(&mut out, s);
            push_str(&mut out, "\n");
        },
        None => {
            assert(out@ =~= out@ + seq![]);
        },
    }
    out
}

// ── decisions on a reply ─────────────────────────────────────────────────────

/// Why a model stopped writing.
#[derive(Debug, Clone)]
pub enum FinishReason {
    Stop,
    Length,
    ContentFilter,
    Other(String),
}

/// A reply is usable only when the model stopped of its own accord.
pub fn check_finish_reason(reason: &FinishReason) -> (r: Result<(), QueryError>)
    ensures
        match reason {
            FinishReason::Stop => r is Ok,
            FinishReason::Length => r matches Err(QueryError::Truncated),
            FinishReason::ContentFilter => r matches Err(QueryError::ContentFilter),
            FinishReason::Other(m) => r matches Err(QueryError::Llm(t))
                && t@ == "unexpected finish reason: "@ + m@,
        },
{
    match reason {
        FinishReason::Stop => Ok(()),
        FinishReason::Length => Err(QueryError::Truncated),
        FinishReason::ContentFilter => Err(QueryError::ContentFilter),
        FinishReason::Other(m) => Err(QueryError::Llm(cat("unexpected finish reason: ", m.as_str()))),
    }
}

/// The result of an answer whose citations were validated: an answer
/// without a valid citation is not grounded in the tree.
pub fn finish_query(answer: String, citations: Vec<Citation>, model: String, leaves_consulted: usize) -> (r:
    Result<QueryResult, QueryError>)
    ensures
        citations@.len() == 0 ==> (r matches Err(QueryError::InsufficientSources { leaves_consulted: n })
            && n == leaves_consulted),
        citations@.len() > 0 ==> (r matches Ok(q) && q.answer == answer && q.citations@ == citations@
            && q.model == model && q.leaves_consulted == leaves_consulted),
{
    if citations.len() == 0 {
        return Err(QueryError::InsufficientSources { leaves_consulted });
    }
    Ok(QueryResult { answer, citations, model, leaves_consulted })
}

// ── the prepared query ───────────────────────────────────────────────────────

/// A query ready for the model: the question, the assembled source context,
/// how many leaves it consulted and the model to ask.
#[derive(Debug, Clone)]
pub struct PreparedQuery {
    pub question: String,
    pub context: String,
    pub leaves_consulted: usize,
    pub model: String,
}

/// What the model is asked: the question, then the sources.
pub open spec fn synthesis_message_text(question: Seq<char>, context: Seq<char>) -> Seq<char> {
    "<question>"@ + question + "</question>\n\n<sources>\n"@ + context + "</sources>"@
}

impl PreparedQuery {
    /// The user message sent to the model.
    pub fn user_message(&self) -> (r: String)
        ensures
            r@ == synthesis_message_text(self.question@, self.context@),
    {
        let mut m = cat3("<question>", self.question.as_str(), "</question>\n\n<sources>\n");
        push_str(&mut m, self.context.as_str());
        push_str(&mut m, "</sources>");
        m
    }
}

/// Completes a prepared query with what the model answered: its error, or
/// the answer with the citations that survived validation.
pub fn run_prepared_with_provider(prepared: PreparedQuery, synthesized: Result<(String, Vec<Citation>), QueryError>) -> (r: Result<
    QueryResult,
    QueryError,
>)
    ensures
        match synthesized {
            Err(e) => r matches Err(x) && x == e,
            Ok((answer, citations)) => {
                &&& citations@.len() == 0 ==> (r matches Err(QueryError::InsufficientSources { leaves_consulted: n })
                    && n == prepared.leaves_consulted)
                &&& citations@.len() > 0 ==> (r matches Ok(q) && q.answer == answer && q.citations@ == citations@
                    && q.model == prepared.model && q.leaves_consulted == prepared.leaves_consulted)
            },
        },
{
    match synthesized {
        Err(e) => Err(e),
        Ok((answer, citations)) => finish_query(answer, citations, prepared.model, prepared.leaves_consulted),
    }
}

} // verus!
