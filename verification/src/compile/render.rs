//! Text rendering of compile results, as the CLI prints them.
use vstd::prelude::*;

use super::{run_mode_name, run_mode_name_exec, BranchResult, CompileResult};
use crate::text::{decimal, prefixed_lines, push_prefixed_lines, push_str, str_eq, strs, usize_to_string};

verus! {

/// `one` when `n` is 1, else `many`.
pub open spec fn plural(n: nat, one: Seq<char>, many: Seq<char>) -> Seq<char> {
    if n == 1 {
        one
    } else {
        many
    }
}

fn plural_exec(n: usize, one: &'static str, many: &'static str) -> (r: &'static str)
    ensures
        r@ == plural(n as nat, one@, many@),
{
    if n == 1 {
        one
    } else {
        many
    }
}

/// Each stderr-bound line on a line of its own.
pub fn render_diagnostics(lines: &[String]) -> (r: String)
    ensures
        r@ == prefixed_lines(""@, strs(lines@)),
{
    let mut out = String::new();
    push_prefixed_lines(&mut out, "", lines);
    out
}

pub open spec fn branch_lines(bs: Seq<BranchResult>) -> Seq<char>
    decreases bs.len(),
{
    if bs.len() == 0 {
        seq![]
    } else {
        branch_lines(bs.drop_last()) + "  \u{2713} "@ + bs.last().slug@ + " ("@ + decimal(
            bs.last().leaf_count as nat,
        ) + " "@ + plural(bs.last().leaf_count as nat, "leaf"@, "leaves"@) + ")\n"@
    }
}

pub open spec fn head_line(r: CompileResult) -> Seq<char> {
    match (r.mode, r.model) {
        (Some(m), Some(md)) => "compiled ("@ + run_mode_name(m) + ") using "@ + md@ + "\n"@,
        _ => "compiled\n"@,
    }
}

pub open spec fn branches_text(r: CompileResult) -> Seq<char> {
    let n = r.branches@.len();
    if n == 0 {
        "  no branches found\n"@
    } else {
        "  "@ + decimal(n) + " "@ + plural(n, "branch"@, "branches"@) + " from "@ + decimal(
            r.leaves_processed as nat,
        ) + " processed leaves\n"@ + branch_lines(r.branches@)
    }
}

pub open spec fn skipped_text(r: CompileResult) -> Seq<char> {
    let k = r.leaves_skipped@.len();
    if k == 0 {
        seq![]
    } else {
        "\n"@ + "  \u{26a0} skipped "@ + decimal(k) + " "@ + plural(k, "leaf"@, "leaves"@)
            + " (unparseable frontmatter):\n"@ + prefixed_lines("    - "@, strs(r.leaves_skipped@))
    }
}

pub open spec fn noop_line(reason: Option<String>, tree_name: Seq<char>) -> Seq<char> {
    match reason {
        Some(s) => if s@ == "empty_tree"@ {
            tree_name + " is empty\n"@
        } else if s@ == "single_leaf"@ {
            tree_name + " only has 1 leaf\n"@
        } else if s@ == "no new leaves since last compile"@ {
            "nothing new to compile\n"@
        } else {
            "compiled: no work to do\n"@
        },
        None => "compiled: no work to do\n"@,
    }
}

/// The human-readable report of a compile result.
pub open spec fn render_compile(r: CompileResult, tree_name: Seq<char>) -> Seq<char> {
    if r.status@ == "noop"@ {
        noop_line(r.reason, tree_name) + prefixed_lines("\u{2192} "@, strs(r.notifications@))
    } else {
        head_line(r) + branches_text(r) + skipped_text(r) + prefixed_lines(
            "\u{2192} "@,
            strs(r.notifications@),
        )
    }
}

fn push_branch_lines(out: &mut String, bs: &Vec<BranchResult>)
    ensures
        final(out)@ == old(out)@ + branch_lines(bs@),
{
    let mut i: usize = 0;
    while i < bs.len()
        invariant
            i <= bs.len(),
            out@ == old(out)@ + branch_lines(bs@.take(i as int)),
        decreases bs.len() - i,
    {
        assert(bs@.take(i + 1).drop_last() =~= bs@.take(i as int));
        assert(bs@.take(i + 1).last() == bs@[i as int]);
        let b = &bs[i];
        push_str(out, "  \u{2713} ");
        push_str(out, b.slug.as_str());
        push_str(out, " (");
        push_str(out, usize_to_string(b.leaf_count).as_str());
        push_str(out, " ");
        push_str(out, plural_exec(b.leaf_count, "leaf", "leaves"));
        push_str(out, ")\n");
        i += 1;
    }
    assert(bs@.take(bs.len() as int) =~= bs@);
}

/// What the CLI prints for a compile result in a tree named `tree_name`.
#[verifier::spinoff_prover]
#[verifier::rlimit(30)]
pub fn render_human(result: &CompileResult, tree_name: &str) -> (r: String)
    ensures
        r@ == render_compile(*result, tree_name@),
{
    let mut out = String::new();
    if str_eq(result.status.as_str(), "noop") {
        match &result.reason {
            Some(s) => {
                if str_eq(s.as_str(), "empty_tree") {
                    push_str(&mut out, tree_name);
                    push_str(&mut out, " is empty\n");
                } else if str_eq(s.as_str(), "single_leaf") {
                    push_str(&mut out, tree_name);
                    push_str(&mut out, " only has 1 leaf\n");
                } else if str_eq(s.as_str(), "no new leaves since last compile") {
                    push_str(&mut out, "nothing new to compile\n");
                } else {
                    push_str(&mut out, "compiled: no work to do\n");
                }
            },
            None => push_str(&mut out, "compiled: no work to do\n"),
        }
        push_prefixed_lines(&mut out, "\u{2192} ", &result.notifications);
        return out;
    }
    match (&result.mode, &result.model) {
        (Some(m), Some(md)) => {
            push_str(&mut out, "compiled (");
            push_str(&mut out, run_mode_name_exec(*m));
            push_str(&mut out, ") using ");
            push_str(&mut out, md.as_str());
            push_str(&mut out, "\n");
        },
        _ => push_str(&mut out, "compiled\n"),
    }
    let ghost after_head = out@;
    let n = result.branches.len();
    if n == 0 {
        push_str(&mut out, "  no branches found\n");
    } else {
        push_str(&mut out, "  ");
        push_str(&mut out, usize_to_string(n).as_str());
        push_str(&mut out, " ");
        push_str(&mut out, plural_exec(n, "branch", "branches"));
        push_str(&mut out, " from ");
        push_str(&mut out, usize_to_string(result.leaves_processed).as_str());
        push_str(&mut out, " processed leaves\n");
        push_branch_lines(&mut out, &result.branches);
    }
    assert(out@ =~= after_head + branches_text(*result));
    let ghost after_branches = out@;
    let k = result.leaves_skipped.len();
    if k > 0 {
        push_str(&mut out, "\n");
        push_str(&mut out, "  \u{26a0} skipped ");
        push_str(&mut out, usize_to_string(k).as_str());
        push_str(&mut out, " ");
        push_str(&mut out, plural_exec(k, "leaf", "leaves"));
        push_str(&mut out, " (unparseable frontmatter):\n");
        push_prefixed_lines(&mut out, "    - ", &result.leaves_skipped);
    }
    assert(out@ =~= after_branches + skipped_text(*result));
    push_prefixed_lines(&mut out, "\u{2192} ", &result.notifications);
    out
}

} // verus!
