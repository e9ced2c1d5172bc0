//! Compile planning: which mode runs, which leaves are new, whether the
//! prompt fits the model, and how a validated plan changes the tree state.
use vstd::prelude::*;

use super::{BranchResult, CompileError, CompileOptions, CompileResult, CompileRunMode};
use crate::query::FinishReason;
use crate::text::{cat, cat3, contains, contains_str, decimal, owned, push_str, strs, usize_to_string};
use crate::tree::{Leaf, Timestamp, TreeState};

verus! {

/// Tokens the model may write in one compile response.
pub const MAX_COMPLETION_TOKENS: u32 = 16384;

/// The smallest limit on the bytes of all compiled branch bodies.
pub const MAX_COMPILED_BODY_BYTES_MIN: usize = 16384;

/// Compiled body bytes allowed per byte of leaf body given as input.
pub const MAX_COMPILED_BODY_BYTES_PER_INPUT_BYTE: usize = 8;

/// Tokens set aside for the compile prompt's fixed parts.
pub const COMPILE_PROMPT_OVERHEAD_TOKENS: usize = 4096;

/// Bytes per token in the token estimate.
pub const TOKEN_ESTIMATE_BYTES_PER_TOKEN: usize = 4;

/// Full when asked for or when there is no branch graph to update;
/// Incremental otherwise.
pub fn select_run_mode(options: CompileOptions, state: &TreeState) -> (r: CompileRunMode)
    ensures
        r == (if options.all || state.branches@.len() == 0 {
            CompileRunMode::Full
        } else {
            CompileRunMode::Incremental
        }),
{
    if options.all || state.branches.len() == 0 {
        CompileRunMode::Full
    } else {
        CompileRunMode::Incremental
    }
}

/// The slugs of the leaves collected after the last compile, in order;
/// all of them when the tree was never compiled.
pub open spec fn new_leaf_slugs_spec(leaves: Seq<Leaf>, last: Option<Timestamp>) -> Seq<Seq<char>>
    decreases leaves.len(),
{
    if leaves.len() == 0 {
        seq![]
    } else {
        let prev = new_leaf_slugs_spec(leaves.drop_last(), last);
        let l = leaves.last();
        match last {
            Some(t) => if l.collected_at.unix_millis > t.unix_millis {
                prev.push(l.slug@)
            } else {
                prev
            },
            None => prev.push(l.slug@),
        }
    }
}

/// A leaf is new when the tree was never compiled or it was collected
/// strictly after the last compile.
pub open spec fn collected_since(l: Leaf, last: Option<Timestamp>) -> bool {
    match last {
        None => true,
        Some(t) => l.collected_at.unix_millis > t.unix_millis,
    }
}

/// The new leaves of a never-compiled tree are all its leaves, in state
/// order; in general the new-leaf slugs are the slugs of exactly the leaves
/// collected since the last compile, in state order.
pub proof fn lemma_new_leaves_are_those_collected_since(leaves: Seq<Leaf>, last: Option<Timestamp>)
    ensures
        last is None ==> new_leaf_slugs_spec(leaves, last) == leaves.map_values(|l: Leaf| l.slug@),
        new_leaf_slugs_spec(leaves, last) == leaves.filter(|l: Leaf| collected_since(l, last)).map_values(
            |l: Leaf| l.slug@,
        ),
    decreases leaves.len(),
{
    reveal(Seq::filter);
    if leaves.len() > 0 {
        lemma_new_leaves_are_those_collected_since(leaves.drop_last(), last);
        let f = |l: Leaf| collected_since(l, last);
        let g = |l: Leaf| l.slug@;
        assert(leaves.filter(f) == if f(leaves.last()) {
            leaves.drop_last().filter(f).push(leaves.last())
        } else {
            leaves.drop_last().filter(f)
        });
        assert(leaves.drop_last().filter(f).push(leaves.last()).map_values(g) =~= leaves.drop_last().filter(
            f,
        ).map_values(g).push(leaves.last().slug@));
        assert(leaves.map_values(g) =~= leaves.drop_last().map_values(g).push(leaves.last().slug@));
    } else {
        assert(leaves.map_values(|l: Leaf| l.slug@) =~= seq![]);
    }
}

pub fn select_new_leaf_slugs(state: &TreeState) -> (r: Vec<String>)
    ensures
        strs(r@) == new_leaf_slugs_spec(state.leaves@, state.tree.last_compiled_at),
{
    let last = state.tree.last_compiled_at;
    let mut out: Vec<String> = Vec::new();
    let mut i: usize = 0;
    while i < state.leaves.len()
        invariant
            i <= state.leaves.len(),
            last == state.tree.last_compiled_at,
            strs(out@) == new_leaf_slugs_spec(state.leaves@.take(i as int), last),
        decreases state.leaves.len() - i,
    {
        assert(state.leaves@.take(i + 1).drop_last() =~= state.leaves@.take(i as int));
        assert(state.leaves@.take(i + 1).last() == state.leaves@[i as int]);
        let l = &state.leaves[i];
        let keep = match last {
            Some(t) => l.collected_at.unix_millis > t.unix_millis,
            None => true,
        };
        if keep {
            crate::text::push_string(&mut out, l.slug.clone());
        }
        i += 1;
    }
    assert(state.leaves@.take(state.leaves.len() as int) =~= state.leaves@);
    out
}

/// `r` is a no-op result with the given reason and notifications.
pub open spec fn is_noop_with(r: Option<CompileResult>, reason: Seq<char>, notifications: Seq<String>) -> bool {
    match r {
        Some(c) => {
            &&& c.status@ == "noop"@
            &&& c.reason matches Some(m)
            &&& m@ == reason
            &&& c.notifications@ == notifications
        },
        None => false,
    }
}

/// Nothing to compile in an empty tree or a tree of one leaf.
pub fn preflight_noop(state: &TreeState, notifications: &Vec<String>) -> (r: Option<CompileResult>)
    ensures
        state.leaves@.len() == 0 ==> is_noop_with(r, "empty_tree"@, notifications@),
        state.leaves@.len() == 1 ==> is_noop_with(r, "single_leaf"@, notifications@),
        state.leaves@.len() > 1 ==> r is None,
{
    if state.leaves.len() == 0 {
        return Some(CompileResult::noop("empty_tree", notifications.clone()));
    }
    if state.leaves.len() == 1 {
        return Some(CompileResult::noop("single_leaf", notifications.clone()));
    }
    None
}

// ── budget ───────────────────────────────────────────────────────────────────

/// Tokens for a number of bytes, rounding up.
pub fn estimate_tokens_from_bytes(bytes: usize) -> (r: usize)
    ensures
        r == (bytes + 3) / 4,
{
    bytes / 4 + if bytes % 4 == 0 { 0 } else { 1 }
}

/// The tokens a compile prompt needs: the overhead, the completion budget
/// and the prompt itself, saturating at the largest `usize`.
pub fn estimate_compile_prompt_tokens(prompt_bytes: usize) -> (r: usize)
    ensures
        r == (if 4096 + 16384 + (prompt_bytes + 3) / 4 > usize::MAX {
            usize::MAX as int
        } else {
            4096 + 16384 + (prompt_bytes + 3) / 4
        }),
{
    let base: usize = 4096usize.saturating_add(16384usize);
    base.saturating_add(estimate_tokens_from_bytes(prompt_bytes))
}

/// A prompt that needs more tokens than the model's context is refused.
pub fn ensure_compile_context_fits(model: &str, context_tokens: usize, estimated_tokens: usize) -> (r: Result<
    (),
    CompileError,
>)
    ensures
        estimated_tokens <= context_tokens ==> r is Ok,
        estimated_tokens > context_tokens ==> (r matches Err(CompileError::ContextOverflow { model: m, estimated_tokens: e, context_tokens: c })
            && m@ == model@ && e == Some(estimated_tokens) && c == Some(context_tokens)),
{
    if estimated_tokens > context_tokens {
        return Err(
            CompileError::ContextOverflow {
                model: owned(model),
                estimated_tokens: Some(estimated_tokens),
                context_tokens: Some(context_tokens),
            },
        );
    }
    Ok(())
}

/// The limit on compiled body bytes: eight bytes per input byte
/// (saturating), and never below 16 KiB.
pub open spec fn body_limit(input: nat) -> nat {
    let scaled = if input * 8 > usize::MAX { usize::MAX as nat } else { input * 8 };
    if scaled > 16384 { scaled } else { 16384 }
}

/// Compiled bodies far larger than their input are refused.
pub fn validate_compiled_body_size(input_body_bytes: usize, output_body_bytes: usize) -> (r: Result<
    (),
    CompileError,
>)
    ensures
        output_body_bytes <= body_limit(input_body_bytes as nat) ==> r is Ok,
        output_body_bytes > body_limit(input_body_bytes as nat) ==> (r matches Err(CompileError::Validation(m))
            && m@ == "invalid compile response: branch bodies total "@ + decimal(output_body_bytes as nat)
            + " bytes, exceeding "@ + decimal(body_limit(input_body_bytes as nat)) + " byte limit for "@ + decimal(
            input_body_bytes as nat,
        ) + " bytes of input"@),
{
    let scaled: usize = if input_body_bytes > usize::MAX / 8 { usize::MAX } else { input_body_bytes * 8 };
    let limit = if scaled > 16384 { scaled } else { 16384 };
    if output_body_bytes > limit {
        let mut s = cat3(
            "invalid compile response: branch bodies total ",
            usize_to_string(output_body_bytes).as_str(),
            " bytes, exceeding ",
        );
        push_str(&mut s, usize_to_string(limit).as_str());
        push_str(&mut s, " byte limit for ");
        push_str(&mut s, usize_to_string(input_body_bytes).as_str());
        push_str(&mut s, " bytes of input");
        return Err(CompileError::Validation(s));
    }
    Ok(())
}

// ── model replies ────────────────────────────────────────────────────────────

/// A model reply is usable only when the model stopped of its own accord.
pub fn check_compile_finish(reason: &FinishReason) -> (r: Result<(), CompileError>)
    ensures
        match reason {
            FinishReason::Stop => r is Ok,
            FinishReason::Length => r matches Err(CompileError::Truncated),
            FinishReason::ContentFilter => r matches Err(CompileError::ContentFilter),
            FinishReason::Other(m) => r matches Err(CompileError::Llm(t)) && t@ == "unexpected finish reason: "@
                + m@,
        },
{
    match reason {
        FinishReason::Stop => Ok(()),
        FinishReason::Length => Err(CompileError::Truncated),
        FinishReason::ContentFilter => Err(CompileError::ContentFilter),
        FinishReason::Other(m) => Err(CompileError::Llm(cat("unexpected finish reason: ", m.as_str()))),
    }
}

/// A provider error that reports the context length as exceeded is a
/// context overflow; any other is a model error with its text.
pub fn map_compile_llm_error(message: &str) -> (r: CompileError)
    ensures
        contains(message@, "maximum context length"@) ==> (r matches CompileError::ContextOverflow { model, estimated_tokens, context_tokens }
            && model@ == "unknown"@ && estimated_tokens is None && context_tokens is None),
        !contains(message@, "maximum context length"@) ==> (r matches CompileError::Llm(m) && m@ == message@),
{
    if contains_str(message, "maximum context length") {
        CompileError::ContextOverflow { model: owned("unknown"), estimated_tokens: None, context_tokens: None }
    } else {
        CompileError::Llm(owned(message))
    }
}

/// A branch's entry in a compile summary.
pub fn branch_result(slug: &str, title: &str, leaf_count: usize) -> (r: BranchResult)
    ensures
        r.slug@ == slug@,
        r.title@ == title@,
        r.leaf_count == leaf_count,
{
    BranchResult { slug: owned(slug), title: owned(title), leaf_count }
}

} // verus!
