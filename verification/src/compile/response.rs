//! Validation of a one-shot compile response: each proposed branch needs a
//! title, a body, a slug of its own and at least two distinct known leaves,
//! and the bodies together may not outgrow their input.
//!
//! The response is parsed from JSON by the caller; the slug of each
//! branch's trimmed title, by the tree's slug rules, is handed in too.
use vstd::prelude::*;

use super::CompileError;
use super::cluster::distinct;
use super::plan::{body_limit, validate_compiled_body_size};
use crate::agent::{saturated, utf8_len, utf8_length_saturating};
use crate::text::{cat, cat3, chars_of, decimal, is_blank_str, owned, push_str, push_string, strings_contain, strs, trim, trim_str, usize_to_string};

verus! {

/// A branch as the model proposed it.
#[derive(Debug, Clone)]
pub struct RawBranch {
    pub title: String,
    pub body: String,
    pub leaves: Vec<String>,
}

/// The model's compile response.
#[derive(Debug, Clone)]
pub struct CompileResponse {
    pub branches: Vec<RawBranch>,
}

/// A branch that passed validation: its slug, trimmed title, body and
/// distinct leaf filenames.
#[derive(Debug)]
pub struct ValidatedBranch {
    pub slug: String,
    pub title: String,
    pub body: String,
    pub leaves: Vec<String>,
}

/// The validated branches of a response.
#[derive(Debug)]
pub struct ValidatedPlan {
    pub branches: Vec<ValidatedBranch>,
}

pub struct RawView {
    pub title: Seq<char>,
    pub body: Seq<char>,
    pub leaves: Seq<Seq<char>>,
}

impl View for RawBranch {
    type V = RawView;

    open spec fn view(&self) -> RawView {
        RawView { title: self.title@, body: self.body@, leaves: strs(self.leaves@) }
    }
}

pub open spec fn raws_view(v: Seq<RawBranch>) -> Seq<RawView> {
    v.map_values(|b: RawBranch| b@)
}

pub struct ValidView {
    pub slug: Seq<char>,
    pub title: Seq<char>,
    pub body: Seq<char>,
    pub leaves: Seq<Seq<char>>,
}

impl View for ValidatedBranch {
    type V = ValidView;

    open spec fn view(&self) -> ValidView {
        ValidView { slug: self.slug@, title: self.title@, body: self.body@, leaves: strs(self.leaves@) }
    }
}

pub open spec fn valids_view(v: Seq<ValidatedBranch>) -> Seq<ValidView> {
    v.map_values(|b: ValidatedBranch| b@)
}

pub open spec fn empty_leaf_ref_message(title: Seq<char>) -> Seq<char> {
    "invalid compile response: branch '"@ + title + "' contains an empty leaf reference"@
}

pub open spec fn unknown_leaf_message(title: Seq<char>, leaf: Seq<char>) -> Seq<char> {
    "invalid compile response: branch '"@ + title + "' references unknown leaf '"@ + leaf + "'"@
}

/// A branch's leaves, each known and non-blank, with repeats dropped; the
/// first bad reference is the error.
pub open spec fn branch_leaves_spec(leaves: Seq<Seq<char>>, valid: Seq<Seq<char>>, title: Seq<char>) -> Result<
    Seq<Seq<char>>,
    Seq<char>,
>
    decreases leaves.len(),
{
    if leaves.len() == 0 {
        Ok(seq![])
    } else {
        match branch_leaves_spec(leaves.drop_last(), valid, title) {
            Err(e) => Err(e),
            Ok(ls) => {
                let f = leaves.last();
                if trim(f).len() == 0 {
                    Err(empty_leaf_ref_message(title))
                } else if !valid.contains(f) {
                    Err(unknown_leaf_message(title, f))
                } else if ls.contains(f) {
                    Ok(ls)
                } else {
                    Ok(ls.push(f))
                }
            },
        }
    }
}

/// One branch, the `number`-th, checked against the slugs seen before it.
pub open spec fn branch_spec(
    number: nat,
    raw: RawView,
    slug: Seq<char>,
    seen: Seq<Seq<char>>,
    valid: Seq<Seq<char>>,
) -> Result<ValidView, Seq<char>> {
    let title = trim(raw.title);
    if title.len() == 0 {
        Err("invalid compile response: branch #"@ + decimal(number) + " has empty title"@)
    } else if trim(raw.body).len() == 0 {
        Err("invalid compile response: branch '"@ + title + "' has empty body"@)
    } else if slug.len() == 0 {
        Err("invalid compile response: branch '"@ + title + "' title produces empty file slug"@)
    } else if seen.contains(slug) {
        Err("invalid compile response: duplicate branch slug '"@ + slug + "' (from title '"@ + title
            + "') \u{2014} titles must be distinct"@)
    } else {
        match branch_leaves_spec(raw.leaves, valid, title) {
            Err(e) => Err(e),
            Ok(ls) => if ls.len() < 2 {
                Err("invalid compile response: branch '"@ + title + "' references "@ + decimal(ls.len())
                    + " leaf; branches must reference at least 2 leaves"@)
            } else {
                Ok(ValidView { slug, title, body: raw.body, leaves: ls })
            },
        }
    }
}

/// The branches in order, stopping at the first that fails.
pub open spec fn branches_spec(raws: Seq<RawView>, slugs: Seq<Seq<char>>, valid: Seq<Seq<char>>) -> Result<
    Seq<ValidView>,
    Seq<char>,
>
    decreases raws.len(),
{
    if raws.len() == 0 {
        Ok(seq![])
    } else {
        match branches_spec(raws.drop_last(), slugs, valid) {
            Err(e) => Err(e),
            Ok(vs) => match branch_spec(
                raws.len() as nat,
                raws.last(),
                slugs[raws.len() - 1],
                vs.map_values(|v: ValidView| v.slug),
                valid,
            ) {
                Err(e) => Err(e),
                Ok(v) => Ok(vs.push(v)),
            },
        }
    }
}

/// The bytes of the bodies together, capped at the largest `usize`.
pub open spec fn body_bytes(vs: Seq<ValidView>) -> nat
    decreases vs.len(),
{
    if vs.len() == 0 {
        0
    } else {
        saturated(body_bytes(vs.drop_last()) + saturated(utf8_len(vs.last().body)))
    }
}

pub open spec fn body_size_message(output: nat, input: nat) -> Seq<char> {
    "invalid compile response: branch bodies total "@ + decimal(output) + " bytes, exceeding "@ + decimal(body_limit(input))
        + " byte limit for "@ + decimal(input) + " bytes of input"@
}

/// The whole validation: the branches, then the size of their bodies.
pub open spec fn validate_spec(raws: Seq<RawView>, slugs: Seq<Seq<char>>, valid: Seq<Seq<char>>, input: nat) -> Result<
    Seq<ValidView>,
    Seq<char>,
> {
    if raws.len() == 0 {
        Ok(seq![])
    } else {
        match branches_spec(raws, slugs, valid) {
            Err(e) => Err(e),
            Ok(vs) => if body_bytes(vs) > body_limit(input) {
                Err(body_size_message(body_bytes(vs), input))
            } else {
                Ok(vs)
            },
        }
    }
}

fn branch_leaves(leaves: &Vec<String>, valid: &Vec<String>, title: &str) -> (r: Result<Vec<String>, String>)
    ensures
        match branch_leaves_spec(strs(leaves@), strs(valid@), title@) {
            Ok(ls) => r matches Ok(v) && strs(v@) == ls,
            Err(m) => r matches Err(e) && e@ == m,
        },
{
    let ghost lv = strs(leaves@);
    let mut out: Vec<String> = Vec::new();
    let mut i: usize = 0;
    assert(strs(out@) =~= seq![]);
    while i < leaves.len()
        invariant
            i <= leaves.len(),
            lv == strs(leaves@),
            branch_leaves_spec(lv.take(i as int), strs(valid@), title@) == Ok::<Seq<Seq<char>>, Seq<char>>(strs(out@)),
        decreases leaves.len() - i,
    {
        assert(lv.take(i + 1).drop_last() =~= lv.take(i as int));
        assert(lv.take(i + 1).last() == leaves@[i as int]@);
        let f = leaves[i].as_str();
        if is_blank_str(f) {
            proof {
                lemma_leaves_err_stays(lv, strs(valid@), title@, i + 1);
            }
            return Err(cat3("invalid compile response: branch '", title, "' contains an empty leaf reference"));
        }
        if !strings_contain(valid, f) {
            proof {
                lemma_leaves_err_stays(lv, strs(valid@), title@, i + 1);
            }
            let mut m = cat3("invalid compile response: branch '", title, "' references unknown leaf '");
            push_str(&mut m, f);
            push_str(&mut m, "'");
            return Err(m);
        }
        if !strings_contain(&out, f) {
            push_string(&mut out, leaves[i].clone());
        }
        i += 1;
    }
    assert(lv.take(leaves.len() as int) =~= lv);
    Ok(out)
}

proof fn lemma_leaves_err_stays(lv: Seq<Seq<char>>, valid: Seq<Seq<char>>, title: Seq<char>, k: int)
    requires
        0 <= k <= lv.len(),
        branch_leaves_spec(lv.take(k), valid, title) is Err,
    ensures
        branch_leaves_spec(lv, valid, title) == branch_leaves_spec(lv.take(k), valid, title),
    decreases lv.len() - k,
{
    if k == lv.len() {
        assert(lv.take(k) =~= lv);
    } else {
        assert(lv.drop_last().take(k) =~= lv.take(k));
        lemma_leaves_err_stays(lv.drop_last(), valid, title, k);
    }
}

fn validate_branch(
    number: usize,
    raw: &RawBranch,
    slug: &str,
    seen: &Vec<String>,
    valid: &Vec<String>,
) -> (r: Result<ValidatedBranch, String>)
    ensures
        match branch_spec(number as nat, raw@, slug@, strs(seen@), strs(valid@)) {
            Ok(v) => r matches Ok(b) && b@ == v,
            Err(m) => r matches Err(e) && e@ == m,
        },
{
    let title = trim_str(raw.title.as_str());
    if is_blank_str(raw.title.as_str()) {
        return Err(cat3("invalid compile response: branch #", usize_to_string(number).as_str(), " has empty title"));
    }
    if is_blank_str(raw.body.as_str()) {
        return Err(cat3("invalid compile response: branch '", title.as_str(), "' has empty body"));
    }
    if slug.is_empty() {
        return Err(cat3("invalid compile response: branch '", title.as_str(), "' title produces empty file slug"));
    }
    if strings_contain(seen, slug) {
        let mut m = cat3("invalid compile response: duplicate branch slug '", slug, "' (from title '");
        push_str(&mut m, title.as_str());
        push_str(&mut m, "') \u{2014} titles must be distinct");
        return Err(m);
    }
    let leaves = match branch_leaves(&raw.leaves, valid, title.as_str()) {
        Ok(ls) => ls,
        Err(e) => {
            return Err(e);
        },
    };
    if leaves.len() < 2 {
        let mut m = cat3("invalid compile response: branch '", title.as_str(), "' references ");
        push_str(&mut m, usize_to_string(leaves.len()).as_str());
        push_str(&mut m, " leaf; branches must reference at least 2 leaves");
        return Err(m);
    }
    Ok(ValidatedBranch { slug: owned(slug), title, body: raw.body.clone(), leaves })
}

proof fn lemma_branches_err_stays(rv: Seq<RawView>, slugs: Seq<Seq<char>>, valid: Seq<Seq<char>>, k: int)
    requires
        0 <= k <= rv.len(),
        branches_spec(rv.take(k), slugs, valid) is Err,
    ensures
        branches_spec(rv, slugs, valid) == branches_spec(rv.take(k), slugs, valid),
    decreases rv.len() - k,
{
    if k == rv.len() {
        assert(rv.take(k) =~= rv);
    } else {
        assert(rv.drop_last().take(k) =~= rv.take(k));
        lemma_branches_err_stays(rv.drop_last(), slugs, valid, k);
    }
}

/// Validates a parsed compile response. `branch_slugs[i]` is the slug of
/// the `i`-th branch's trimmed title; `valid_filenames` are the leaves the
/// model was shown; `input_body_bytes` is the size of their bodies. An
/// empty response is valid: no cross-cutting concept was found.
pub fn parse_and_validate_with_input_size(
    response: &CompileResponse,
    branch_slugs: &Vec<String>,
    valid_filenames: &Vec<String>,
    input_body_bytes: usize,
) -> (r: Result<ValidatedPlan, CompileError>)
    requires
        branch_slugs.len() == response.branches.len(),
    ensures
        match validate_spec(raws_view(response.branches@), strs(branch_slugs@), strs(valid_filenames@), input_body_bytes as nat) {
            Ok(vs) => r matches Ok(p) && valids_view(p.branches@) == vs,
            Err(m) => r matches Err(CompileError::Validation(e)) && e@ == m,
        },
{
    let ghost rv = raws_view(response.branches@);
    let ghost sv = strs(branch_slugs@);
    let ghost fv = strs(valid_filenames@);
    if response.branches.len() == 0 {
        let p = ValidatedPlan { branches: Vec::new() };
        assert(valids_view(p.branches@) =~= seq![]);
        return Ok(p);
    }
    let mut validated: Vec<ValidatedBranch> = Vec::new();
    let mut seen: Vec<String> = Vec::new();
    let mut total: usize = 0;
    let mut i: usize = 0;
    assert(valids_view(validated@) =~= seq![]);
    assert(strs(seen@) =~= seq![]);
    while i < response.branches.len()
        invariant
            i <= response.branches.len(),
            branch_slugs.len() == response.branches.len(),
            rv == raws_view(response.branches@),
            sv == strs(branch_slugs@),
            fv == strs(valid_filenames@),
            branches_spec(rv.take(i as int), sv, fv) == Ok::<Seq<ValidView>, Seq<char>>(valids_view(validated@)),
            strs(seen@) == valids_view(validated@).map_values(|v: ValidView| v.slug),
            total == body_bytes(valids_view(validated@)),
        decreases response.branches.len() - i,
    {
        assert(rv.take(i + 1).drop_last() =~= rv.take(i as int));
        assert(rv.take(i + 1).last() == response.branches@[i as int]@);
        assert(rv.take(i + 1).len() == i + 1);
        match validate_branch(i + 1, &response.branches[i], branch_slugs[i].as_str(), &seen, valid_filenames) {
            Err(m) => {
                proof {
                    lemma_branches_err_stays(rv, sv, fv, i + 1);
                }
                return Err(CompileError::Validation(m));
            },
            Ok(b) => {
                let body = chars_of(b.body.as_str());
                let n = utf8_length_saturating(&body);
                total = if total > usize::MAX - n { usize::MAX } else { total + n };
                let ghost before = validated@;
                let ghost bv = b@;
                push_string(&mut seen, b.slug.clone());
                validated.push(b);
                assert(valids_view(validated@) =~= valids_view(before).push(bv));
                assert(valids_view(validated@).map_values(|v: ValidView| v.slug) =~= valids_view(before).map_values(
                    |v: ValidView| v.slug,
                ).push(bv.slug));
                assert(valids_view(validated@).drop_last() =~= valids_view(before));
            },
        }
        i += 1;
    }
    assert(rv.take(response.branches.len() as int) =~= rv);
    match validate_compiled_body_size(input_body_bytes, total) {
        Ok(()) => Ok(ValidatedPlan { branches: validated }),
        Err(e) => Err(e),
    }
}

/// The slugs of the validated branches that cite a leaf, in order.
pub open spec fn slugs_citing(vs: Seq<ValidView>, file: Seq<char>) -> Seq<Seq<char>>
    decreases vs.len(),
{
    if vs.len() == 0 {
        seq![]
    } else {
        let prev = slugs_citing(vs.drop_last(), file);
        if vs.last().leaves.contains(file) {
            prev.push(vs.last().slug)
        } else {
            prev
        }
    }
}

impl ValidatedPlan {
    /// The slugs of the branches a leaf file is assigned to, in plan order.
    pub fn leaf_assignments(&self, filename: &str) -> (r: Vec<String>)
        ensures
            strs(r@) == slugs_citing(valids_view(self.branches@), filename@),
    {
        let ghost vv = valids_view(self.branches@);
        let mut out: Vec<String> = Vec::new();
        let mut i: usize = 0;
        while i < self.branches.len()
            invariant
                i <= self.branches.len(),
                vv == valids_view(self.branches@),
                strs(out@) == slugs_citing(vv.take(i as int), filename@),
            decreases self.branches.len() - i,
        {
            assert(vv.take(i + 1).drop_last() =~= vv.take(i as int));
            assert(vv.take(i + 1).last() == self.branches@[i as int]@);
            if strings_contain(&self.branches[i].leaves, filename) {
                push_string(&mut out, self.branches[i].slug.clone());
            }
            i += 1;
        }
        assert(vv.take(self.branches.len() as int) =~= vv);
        out
    }
}

/// The error for a response that does not have the expected shape.
pub fn response_shape_error(parse_error: &str) -> (r: CompileError)
    ensures
        r matches CompileError::Validation(m) && m@ == "invalid compile response shape: "@ + parse_error@,
{
    CompileError::Validation(cat("invalid compile response shape: ", parse_error))
}

// ── laws ─────────────────────────────────────────────────────────────────────

/// A validated branch: a slug, a trimmed title that is not empty, and at least two
/// distinct leaves, each one of the known files.
pub open spec fn branch_ok(v: ValidView, valid: Seq<Seq<char>>) -> bool {
    &&& v.slug.len() > 0
    &&& v.title.len() > 0
    &&& v.leaves.len() >= 2
    &&& distinct(v.leaves)
    &&& forall|k: int| 0 <= k < v.leaves.len() ==> valid.contains(#[trigger] v.leaves[k])
}

proof fn lemma_branch_leaves(leaves: Seq<Seq<char>>, valid: Seq<Seq<char>>, title: Seq<char>)
    ensures
        branch_leaves_spec(leaves, valid, title) matches Ok(ls) ==> distinct(ls) && forall|k: int|
            0 <= k < ls.len() ==> valid.contains(#[trigger] ls[k]),
    decreases leaves.len(),
{
    if leaves.len() > 0 {
        lemma_branch_leaves(leaves.drop_last(), valid, title);
    }
}

proof fn lemma_branches_ok(raws: Seq<RawView>, slugs: Seq<Seq<char>>, valid: Seq<Seq<char>>)
    ensures
        branches_spec(raws, slugs, valid) matches Ok(vs) ==> vs.len() == raws.len() && (forall|i: int|
            0 <= i < vs.len() ==> branch_ok(#[trigger] vs[i], valid)) && distinct(vs.map_values(|v: ValidView| v.slug)),
    decreases raws.len(),
{
    if raws.len() > 0 {
        lemma_branches_ok(raws.drop_last(), slugs, valid);
        let raw = raws.last();
        lemma_branch_leaves(raw.leaves, valid, trim(raw.title));
        if let Ok(vs) = branches_spec(raws, slugs, valid) {
            let prev = branches_spec(raws.drop_last(), slugs, valid)->Ok_0;
            assert(vs =~= prev.push(vs.last()));
            assert(vs.map_values(|v: ValidView| v.slug) =~= prev.map_values(|v: ValidView| v.slug).push(vs.last().slug));
        }
    }
}

/// Every branch of an accepted response has a slug of its own, a trimmed
/// title that is not empty and at least two distinct known leaves.
pub proof fn lemma_validated_branches_well_formed(
    raws: Seq<RawView>,
    slugs: Seq<Seq<char>>,
    valid: Seq<Seq<char>>,
    input: nat,
)
    ensures
        validate_spec(raws, slugs, valid, input) matches Ok(vs) ==> (forall|i: int|
            0 <= i < vs.len() ==> branch_ok(#[trigger] vs[i], valid)) && distinct(vs.map_values(|v: ValidView| v.slug)),
{
    lemma_branches_ok(raws, slugs, valid);
    if raws.len() == 0 {
        assert(seq![].map_values(|v: ValidView| v.slug) =~= Seq::<Seq<char>>::empty());
    }
}

} // verus!
