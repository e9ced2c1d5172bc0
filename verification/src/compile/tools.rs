//! The decisions of the compile agent's writing tools: `write_branch` keeps
//! only the leaves the run knows, and `update_leaf_frontmatter` refuses a
//! file outside the tree. Each tool answers the model with one line.
//!
//! The tool calls' arguments come from the model's JSON; the file reads and
//! writes are the caller's part, which hands in how each went.
use vstd::prelude::*;

use super::BranchResult;
use crate::text::{cat, cat3, join, join_strings, owned, push_str, push_string, strings_contain, strs};

verus! {

/// An argument that the model gave as a list: each item when it is a string.
pub open spec fn string_items(items: Option<Seq<Option<String>>>) -> Seq<Seq<char>>
    decreases (match items {
        Some(s) => s.len(),
        None => 0,
    }),
{
    match items {
        None => seq![],
        Some(s) => if s.len() == 0 {
            seq![]
        } else {
            let prev = string_items(Some(s.drop_last()));
            match s.last() {
                Some(x) => prev.push(x@),
                None => prev,
            }
        },
    }
}

/// The string items of a list argument, in order.
pub fn collect_string_items(items: &Option<Vec<Option<String>>>) -> (r: Vec<String>)
    ensures
        strs(r@) == string_items(
            match items {
                Some(v) => Some(v@),
                None => None,
            },
        ),
{
    let mut out: Vec<String> = Vec::new();
    match items {
        None => out,
        Some(v) => {
            let mut i: usize = 0;
            while i < v.len()
                invariant
                    i <= v.len(),
                    strs(out@) == string_items(Some(v@.take(i as int))),
                decreases v.len() - i,
            {
                assert(v@.take(i + 1).drop_last() =~= v@.take(i as int));
                assert(v@.take(i + 1).last() == v@[i as int]);
                match &v[i] {
                    Some(x) => push_string(&mut out, x.clone()),
                    None => {},
                }
                i += 1;
            }
            assert(v@.take(v.len() as int) =~= v@);
            out
        },
    }
}

// ── write_branch ─────────────────────────────────────────────────────────────

/// A `write_branch` call that can go ahead: the title, the body, the known
/// leaves, and a warning for each leaf skipped.
#[derive(Debug, Clone)]
pub struct BranchWrite {
    pub title: String,
    pub body: String,
    pub leaves: Vec<String>,
    pub warnings: Vec<String>,
}

/// The leaves the run knows, in order, and a warning for each other one.
pub open spec fn split_known(raw: Seq<Seq<char>>, valid: Seq<Seq<char>>) -> (Seq<Seq<char>>, Seq<Seq<char>>)
    decreases raw.len(),
{
    if raw.len() == 0 {
        (seq![], seq![])
    } else {
        let (kept, warnings) = split_known(raw.drop_last(), valid);
        let f = raw.last();
        if valid.contains(f) {
            (kept.push(f), warnings)
        } else {
            (kept, warnings.push("unknown leaf '"@ + f + "' skipped"@))
        }
    }
}

/// Reads a `write_branch` call: a title and a body that are strings, and
/// the string items of `leaves` (none when it is not a list). A missing
/// title or body is answered with the error line.
pub fn plan_write_branch(
    title: Option<String>,
    body: Option<String>,
    leaves: &Option<Vec<Option<String>>>,
    valid_filenames: &Vec<String>,
) -> (r: Result<BranchWrite, String>)
    ensures
        title is None ==> (r matches Err(m) && m@ == "error: missing 'title' argument"@),
        title is Some && body is None ==> (r matches Err(m) && m@ == "error: missing 'body' argument"@),
        title is Some && body is Some ==> (r matches Ok(w) && w.title == title->Some_0 && w.body == body->Some_0 && (
        strs(w.leaves@), strs(w.warnings@)) == split_known(
            string_items(
                match leaves {
                    Some(v) => Some(v@),
                    None => None,
                },
            ),
            strs(valid_filenames@),
        )),
{
    let title = match title {
        Some(t) => t,
        None => {
            return Err(owned("error: missing 'title' argument"));
        },
    };
    let body = match body {
        Some(b) => b,
        None => {
            return Err(owned("error: missing 'body' argument"));
        },
    };
    let raw = collect_string_items(leaves);
    let ghost rv = strs(raw@);
    let mut kept: Vec<String> = Vec::new();
    let mut warnings: Vec<String> = Vec::new();
    let mut i: usize = 0;
    while i < raw.len()
        invariant
            i <= raw.len(),
            rv == strs(raw@),
            (strs(kept@), strs(warnings@)) == split_known(rv.take(i as int), strs(valid_filenames@)),
        decreases raw.len() - i,
    {
        assert(rv.take(i + 1).drop_last() =~= rv.take(i as int));
        assert(rv.take(i + 1).last() == raw@[i as int]@);
        let f = raw[i].as_str();
        if strings_contain(valid_filenames, f) {
            push_string(&mut kept, owned(f));
        } else {
            push_string(&mut warnings, cat3("unknown leaf '", f, "' skipped"));
        }
        i += 1;
    }
    assert(rv.take(raw.len() as int) =~= rv);
    Ok(BranchWrite { title, body, leaves: kept, warnings })
}

pub open spec fn written_text(slug: Seq<char>, warnings: Seq<Seq<char>>) -> Seq<char> {
    "written: "@ + slug + if warnings.len() > 0 {
        " (warnings: "@ + join(warnings, "; "@) + ")"@
    } else {
        seq![]
    }
}

/// The answer to a `write_branch` call once the branch file under `slug`
/// was written, or failed to be, and the branch the run records.
pub fn finish_write_branch(write: BranchWrite, slug: &str, written: Result<(), String>) -> (r: (
    String,
    Option<BranchResult>,
))
    ensures
        match written {
            Err(e) => r.0@ == "error: could not write branch '"@ + slug@ + "': "@ + e@ && r.1 is None,
            Ok(()) => r.0@ == written_text(slug@, strs(write.warnings@)) && (r.1 matches Some(b) && b.slug@ == slug@
                && b.title == write.title && b.leaf_count == write.leaves@.len()),
        },
{
    match written {
        Err(e) => {
            let mut m = cat3("error: could not write branch '", slug, "': ");
            push_str(&mut m, e.as_str());
            (m, None)
        },
        Ok(()) => {
            let mut m = cat("written: ", slug);
            if write.warnings.len() > 0 {
                push_str(&mut m, " (warnings: ");
                push_str(&mut m, join_strings(&write.warnings, "; ").as_str());
                push_str(&mut m, ")");
            } else {
                proof {
                    reveal_strlit("");
                }
            }
            let count = write.leaves.len();
            (m, Some(BranchResult { slug: owned(slug), title: write.title, leaf_count: count }))
        },
    }
}

// ── update_leaf_frontmatter ──────────────────────────────────────────────────

/// How updating a leaf's frontmatter went after the arguments were read.
#[derive(Debug)]
pub enum FrontmatterUpdate {
    /// The file resolves outside the tree.
    OutsideTree,
    ReadFailed(String),
    PatchFailed(String),
    WriteFailed(String),
    Written,
}

/// Reads an `update_leaf_frontmatter` call: a filename that is a string, and
/// the string items of `branches`.
pub fn plan_update_leaf(filename: Option<String>, branches: &Option<Vec<Option<String>>>) -> (r: Result<
    (String, Vec<String>),
    String,
>)
    ensures
        filename is None ==> (r matches Err(m) && m@ == "error: missing 'filename' argument"@),
        filename is Some ==> (r matches Ok((f, bs)) && f == filename->Some_0 && strs(bs@) == string_items(
            match branches {
                Some(v) => Some(v@),
                None => None,
            },
        )),
{
    match filename {
        None => Err(owned("error: missing 'filename' argument")),
        Some(f) => Ok((f, collect_string_items(branches))),
    }
}

/// The answer to an `update_leaf_frontmatter` call, and whether the leaf
/// counts as updated.
pub fn finish_update_leaf(filename: &str, step: FrontmatterUpdate) -> (r: (String, bool))
    ensures
        r.1 == (step is Written),
        r.0@ == match step {
            FrontmatterUpdate::OutsideTree => "error: path traversal rejected for filename '"@ + filename@ + "'"@,
            FrontmatterUpdate::ReadFailed(e) => "error: could not read '"@ + filename@ + "': "@ + e@,
            FrontmatterUpdate::PatchFailed(e) => "error: could not patch frontmatter of '"@ + filename@ + "': "@ + e@,
            FrontmatterUpdate::WriteFailed(e) => "error: could not write '"@ + filename@ + "': "@ + e@,
            FrontmatterUpdate::Written => "updated: "@ + filename@,
        },
{
    match step {
        FrontmatterUpdate::OutsideTree => (cat3("error: path traversal rejected for filename '", filename, "'"), false),
        FrontmatterUpdate::ReadFailed(e) => {
            let mut m = cat3("error: could not read '", filename, "': ");
            push_str(&mut m, e.as_str());
            (m, false)
        },
        FrontmatterUpdate::PatchFailed(e) => {
            let mut m = cat3("error: could not patch frontmatter of '", filename, "': ");
            push_str(&mut m, e.as_str());
            (m, false)
        },
        FrontmatterUpdate::WriteFailed(e) => {
            let mut m = cat3("error: could not write '", filename, "': ");
            push_str(&mut m, e.as_str());
            (m, false)
        },
        FrontmatterUpdate::Written => (cat("updated: ", filename), true),
    }
}

} // verus!
