//! The user messages of a compile's model calls: the one-shot compile, its
//! incremental form, the two-stage clustering call and the stage-2
//! synthesis calls.
//!
//! Reading branch files is the caller's part; it hands in each branch's
//! body when its file could be read.
use vstd::prelude::*;

use super::cluster::LoadedLeaf;
use super::discovery::{candidate_clusters_spec, clusters_view, compute_candidate_clusters, groups_within, lemma_candidates_within, tokens_view, CandidateCluster};
use crate::text::{cat3, decimal, join, join_strings, push_str, strs, usize_to_string};
use crate::tree::{branches_view, Branch, BranchView};

verus! {

/// A leaf as the prompts quote it.
pub struct LeafQuote {
    pub slug: Seq<char>,
    pub filename: Seq<char>,
    pub title: Seq<char>,
    pub summary: Option<Seq<char>>,
    pub body: Seq<char>,
    pub collected_at: Seq<char>,
}

pub open spec fn quote(l: LoadedLeaf) -> LeafQuote {
    LeafQuote {
        slug: l.slug@,
        filename: l.filename@,
        title: l.title@,
        summary: match l.summary {
            Some(s) => Some(s@),
            None => None,
        },
        body: l.body@,
        collected_at: l.collected_at@,
    }
}

pub open spec fn quotes(v: Seq<LoadedLeaf>) -> Seq<LeafQuote> {
    v.map_values(|l: LoadedLeaf| quote(l))
}

/// A full document with its slug, then a blank line when `gap`.
pub open spec fn slug_document(l: LeafQuote, gap: bool) -> Seq<char> {
    "<document slug=\""@ + l.slug + "\" filename=\""@ + l.filename + "\" title=\""@ + l.title + "\">\n"@ + l.body
        + "\n</document>\n"@ + if gap {
        "\n"@
    } else {
        seq![]
    }
}

pub open spec fn slug_documents(ls: Seq<LeafQuote>) -> Seq<char>
    decreases ls.len(),
{
    if ls.len() == 0 {
        seq![]
    } else {
        slug_documents(ls.drop_last()) + slug_document(ls.last(), true)
    }
}

fn push_slug_document(out: &mut String, l: &LoadedLeaf, gap: bool)
    ensures
        final(out)@ == old(out)@ + slug_document(quote(*l), gap),
{
    push_str(out, "<document slug=\"");
    push_str(out, l.slug.as_str());
    push_str(out, "\" filename=\"");
    push_str(out, l.filename.as_str());
    push_str(out, "\" title=\"");
    push_str(out, l.title.as_str());
    push_str(out, "\">\n");
    push_str(out, l.body.as_str());
    push_str(out, "\n</document>\n");
    if gap {
        push_str(out, "\n");
    } else {
        proof {
            reveal_strlit("");
        }
    }
}

fn push_slug_documents(out: &mut String, ls: &Vec<LoadedLeaf>)
    ensures
        final(out)@ == old(out)@ + slug_documents(quotes(ls@)),
{
    let ghost qs = quotes(ls@);
    let mut i: usize = 0;
    while i < ls.len()
        invariant
            i <= ls.len(),
            qs == quotes(ls@),
            out@ == old(out)@ + slug_documents(qs.take(i as int)),
        decreases ls.len() - i,
    {
        assert(qs.take(i + 1).drop_last() =~= qs.take(i as int));
        assert(qs.take(i + 1).last() == quote(ls@[i as int]));
        push_slug_document(out, &ls[i], true);
        i += 1;
    }
    assert(qs.take(ls.len() as int) =~= qs);
}

// ── the one-shot compile ─────────────────────────────────────────────────────

pub open spec fn plain_document(l: LeafQuote) -> Seq<char> {
    "<document filename=\""@ + l.filename + "\" title=\""@ + l.title + "\">\n"@ + l.body + "\n</document>\n\n"@
}

pub open spec fn plain_documents(ls: Seq<LeafQuote>) -> Seq<char>
    decreases ls.len(),
{
    if ls.len() == 0 {
        seq![]
    } else {
        plain_documents(ls.drop_last()) + plain_document(ls.last())
    }
}

fn push_plain_document(out: &mut String, l: &LoadedLeaf)
    ensures
        final(out)@ == old(out)@ + plain_document(quote(*l)),
{
    push_str(out, "<document filename=\"");
    push_str(out, l.filename.as_str());
    push_str(out, "\" title=\"");
    push_str(out, l.title.as_str());
    push_str(out, "\">\n");
    push_str(out, l.body.as_str());
    push_str(out, "\n</document>\n\n");
}

pub open spec fn user_text(ls: Seq<LeafQuote>) -> Seq<char> {
    "Please compile my knowledge base. There are "@ + decimal(ls.len()) + " documents.\n\n"@ + plain_documents(ls)
}

/// The one-shot compile's request: every document with its body.
pub fn build_user_message(leaves: &Vec<LoadedLeaf>) -> (r: String)
    ensures
        r@ == user_text(quotes(leaves@)),
{
    let ghost qs = quotes(leaves@);
    let mut msg = cat3("Please compile my knowledge base. There are ", usize_to_string(leaves.len()).as_str(), " documents.\n\n");
    let ghost head = msg@;
    let mut i: usize = 0;
    while i < leaves.len()
        invariant
            i <= leaves.len(),
            qs == quotes(leaves@),
            msg@ == head + plain_documents(qs.take(i as int)),
        decreases leaves.len() - i,
    {
        assert(qs.take(i + 1).drop_last() =~= qs.take(i as int));
        assert(qs.take(i + 1).last() == quote(leaves@[i as int]));
        push_plain_document(&mut msg, &leaves[i]);
        i += 1;
    }
    assert(qs.take(leaves.len() as int) =~= qs);
    msg
}

// ── the incremental compile ──────────────────────────────────────────────────

pub open spec fn incremental_rules() -> Seq<char> {
    "Please incrementally compile my knowledge base.\n\nINCREMENTAL RULES:\n- You are integrating NEW leaves (listed in <full_leaf_bodies>) into an existing branch structure.\n- Use `updated_branches` to modify an existing branch \u{2014} include its slug, updated body, and full leaf list (existing + new).\n- Use `new_branches` only for entirely new concepts not covered by any existing branch. Each new branch must include at least one new leaf.\n- Do NOT place an existing branch in `new_branches` \u{2014} that causes a duplicate slug error.\n- Do NOT output branches that only contain previously-compiled leaves with no new leaf added.\n- Omit unchanged branches entirely \u{2014} they are preserved automatically.\n- If no new leaf fits any existing or new cross-cutting concept, return empty arrays.\n\n"@
}

pub open spec fn integrate_note() -> Seq<char> {
    "The above are the NEW leaves you must integrate. Every branch you output (updated or new) MUST include at least one of these new leaves. If none fit any concept, return empty arrays.\n\n"@
}

/// An existing branch: its slug, title and leaves, and its body when its
/// file was read.
pub open spec fn branch_block(b: BranchView, body: Option<Seq<char>>) -> Seq<char> {
    "<branch slug=\""@ + b.slug + "\" title=\""@ + b.title + "\" leaves=\""@ + join(b.leaves, ","@) + "\">\n"@
        + (match body {
        Some(x) => "<branch_body>\n"@ + x + "\n</branch_body>\n"@,
        None => seq![],
    }) + "</branch>\n"@
}

pub open spec fn branch_blocks(bs: Seq<BranchView>, bodies: Seq<Option<Seq<char>>>) -> Seq<char>
    decreases bs.len(),
{
    if bs.len() == 0 || bodies.len() == 0 {
        seq![]
    } else {
        branch_blocks(bs.drop_last(), bodies.drop_last()) + branch_block(bs.last(), bodies.last())
    }
}

pub open spec fn catalogue_entry(l: LeafQuote) -> Seq<char> {
    "<leaf slug=\""@ + l.slug + "\" file=\""@ + l.filename + "\" title=\""@ + l.title + "\" collected_at=\""@
        + l.collected_at + "\">\n"@ + (match l.summary {
        Some(s) => "<summary>"@ + s + "</summary>\n"@,
        None => seq![],
    }) + "</leaf>\n"@
}

pub open spec fn catalogue(ls: Seq<LeafQuote>) -> Seq<char>
    decreases ls.len(),
{
    if ls.len() == 0 {
        seq![]
    } else {
        catalogue(ls.drop_last()) + catalogue_entry(ls.last())
    }
}

pub open spec fn bullet_list(slugs: Seq<Seq<char>>) -> Seq<char>
    decreases slugs.len(),
{
    if slugs.len() == 0 {
        seq![]
    } else {
        bullet_list(slugs.drop_last()) + "  - "@ + slugs.last() + "\n"@
    }
}

/// The last leaf with the slug, as a map built from the leaves keeps it.
pub open spec fn last_with_slug(ls: Seq<LeafQuote>, slug: Seq<char>) -> Option<LeafQuote>
    decreases ls.len(),
{
    if ls.len() == 0 {
        None
    } else if ls.last().slug == slug {
        Some(ls.last())
    } else {
        last_with_slug(ls.drop_last(), slug)
    }
}

pub open spec fn body_documents(ls: Seq<LeafQuote>, slugs: Seq<Seq<char>>) -> Seq<char>
    decreases slugs.len(),
{
    if slugs.len() == 0 {
        seq![]
    } else {
        body_documents(ls, slugs.drop_last()) + match last_with_slug(ls, slugs.last()) {
            Some(l) => slug_document(l, false),
            None => seq![],
        }
    }
}

pub open spec fn incremental_text(
    bs: Seq<BranchView>,
    bodies: Seq<Option<Seq<char>>>,
    ls: Seq<LeafQuote>,
    listed: Seq<Seq<char>>,
    with_bodies: Seq<Seq<char>>,
) -> Seq<char> {
    incremental_rules() + "<existing_branches>\n"@ + branch_blocks(bs, bodies) + "</existing_branches>\n\n"@
        + "<leaf_catalogue>\n"@ + catalogue(ls) + "</leaf_catalogue>\n\n"@ + "<new_leaves_to_integrate>\n"@
        + bullet_list(listed) + "</new_leaves_to_integrate>\n\n"@ + integrate_note() + "<full_leaf_bodies>\n"@
        + body_documents(ls, with_bodies) + "</full_leaf_bodies>\n"@
}

/// The new slugs once each, in some order.
pub open spec fn walk_of(order: Seq<Seq<char>>, slugs: Seq<Seq<char>>) -> bool {
    &&& super::cluster::distinct(order)
    &&& forall|x: Seq<char>| order.contains(x) <==> slugs.contains(x)
}

fn push_branch_block(out: &mut String, b: &Branch, body: &Option<String>)
    ensures
        final(out)@ == old(out)@ + branch_block(b@, crate::youtube::url::opt_view(*body)),
{
    push_str(out, "<branch slug=\"");
    push_str(out, b.slug.as_str());
    push_str(out, "\" title=\"");
    push_str(out, b.title.as_str());
    push_str(out, "\" leaves=\"");
    push_str(out, join_strings(&b.leaves, ",").as_str());
    push_str(out, "\">\n");
    match body {
        Some(x) => {
            push_str(out, "<branch_body>\n");
            push_str(out, x.as_str());
            push_str(out, "\n</branch_body>\n");
        },
        None => {},
    }
    push_str(out, "</branch>\n");
}

fn push_branch_blocks(out: &mut String, bs: &Vec<Branch>, bodies: &Vec<Option<String>>)
    requires
        bodies.len() == bs.len(),
    ensures
        final(out)@ == old(out)@ + branch_blocks(
            branches_view(bs@),
            bodies@.map_values(|o: Option<String>| crate::youtube::url::opt_view(o)),
        ),
{
    let ghost bv = branches_view(bs@);
    let ghost dv = bodies@.map_values(|o: Option<String>| crate::youtube::url::opt_view(o));
    let mut i: usize = 0;
    while i < bs.len()
        invariant
            i <= bs.len(),
            bodies.len() == bs.len(),
            bv == branches_view(bs@),
            dv == bodies@.map_values(|o: Option<String>| crate::youtube::url::opt_view(o)),
            out@ == old(out)@ + branch_blocks(bv.take(i as int), dv.take(i as int)),
        decreases bs.len() - i,
    {
        assert(bv.take(i + 1).drop_last() =~= bv.take(i as int));
        assert(dv.take(i + 1).drop_last() =~= dv.take(i as int));
        assert(bv.take(i + 1).last() == bs@[i as int]@);
        assert(dv.take(i + 1).last() == crate::youtube::url::opt_view(bodies@[i as int]));
        push_branch_block(out, &bs[i], &bodies[i]);
        i += 1;
    }
    assert(bv.take(bs.len() as int) =~= bv);
    assert(dv.take(bs.len() as int) =~= dv);
}

fn push_catalogue_entry(out: &mut String, l: &LoadedLeaf)
    ensures
        final(out)@ == old(out)@ + catalogue_entry(quote(*l)),
{
    push_str(out, "<leaf slug=\"");
    push_str(out, l.slug.as_str());
    push_str(out, "\" file=\"");
    push_str(out, l.filename.as_str());
    push_str(out, "\" title=\"");
    push_str(out, l.title.as_str());
    push_str(out, "\" collected_at=\"");
    push_str(out, l.collected_at.as_str());
    push_str(out, "\">\n");
    match &l.summary {
        Some(s) => {
            push_str(out, "<summary>");
            push_str(out, s.as_str());
            push_str(out, "</summary>\n");
        },
        None => {},
    }
    push_str(out, "</leaf>\n");
}

fn push_catalogue(out: &mut String, ls: &Vec<LoadedLeaf>)
    ensures
        final(out)@ == old(out)@ + catalogue(quotes(ls@)),
{
    let ghost qs = quotes(ls@);
    let mut i: usize = 0;
    while i < ls.len()
        invariant
            i <= ls.len(),
            qs == quotes(ls@),
            out@ == old(out)@ + catalogue(qs.take(i as int)),
        decreases ls.len() - i,
    {
        assert(qs.take(i + 1).drop_last() =~= qs.take(i as int));
        assert(qs.take(i + 1).last() == quote(ls@[i as int]));
        push_catalogue_entry(out, &ls[i]);
        i += 1;
    }
    assert(qs.take(ls.len() as int) =~= qs);
}

fn find_last_with_slug(ls: &Vec<LoadedLeaf>, slug: &str) -> (r: Option<usize>)
    ensures
        match last_with_slug(quotes(ls@), slug@) {
            Some(q) => r matches Some(i) && i < ls.len() && quote(ls@[i as int]) == q,
            None => r is None,
        },
{
    let ghost qs = quotes(ls@);
    let mut i: usize = ls.len();
    assert(qs.take(i as int) =~= qs);
    while i > 0
        invariant
            i <= ls.len(),
            qs == quotes(ls@),
            last_with_slug(qs, slug@) == last_with_slug(qs.take(i as int), slug@),
        decreases i,
    {
        assert(qs.take(i as int).last() == quote(ls@[i - 1]));
        assert(qs.take(i as int).drop_last() =~= qs.take(i - 1));
        if crate::text::str_eq(ls[i - 1].slug.as_str(), slug) {
            return Some(i - 1);
        }
        i -= 1;
    }
    None
}

/// The incremental compile's request: the existing branches with the
/// bodies that could be read, the catalogue of leaves, the new leaves to
/// integrate in `listed` order, and the full bodies of the new leaves in
/// `with_bodies` order. Each order is the walk of a set of the new slugs,
/// which names every new slug once.
pub fn build_incremental_user_message(
    branches: &Vec<Branch>,
    branch_bodies: &Vec<Option<String>>,
    leaves: &Vec<LoadedLeaf>,
    new_leaf_slugs: &Vec<String>,
    listed: &Vec<String>,
    with_bodies: &Vec<String>,
) -> (r: String)
    requires
        branch_bodies.len() == branches.len(),
        walk_of(strs(listed@), strs(new_leaf_slugs@)),
        walk_of(strs(with_bodies@), strs(new_leaf_slugs@)),
    ensures
        r@ == incremental_text(
            branches_view(branches@),
            branch_bodies@.map_values(|o: Option<String>| crate::youtube::url::opt_view(o)),
            quotes(leaves@),
            strs(listed@),
            strs(with_bodies@),
        ),
{
    let mut msg = String::new();
    push_str(
        &mut msg,
        "Please incrementally compile my knowledge base.\n\nINCREMENTAL RULES:\n- You are integrating NEW leaves (listed in <full_leaf_bodies>) into an existing branch structure.\n- Use `updated_branches` to modify an existing branch \u{2014} include its slug, updated body, and full leaf list (existing + new).\n- Use `new_branches` only for entirely new concepts not covered by any existing branch. Each new branch must include at least one new leaf.\n- Do NOT place an existing branch in `new_branches` \u{2014} that causes a duplicate slug error.\n- Do NOT output branches that only contain previously-compiled leaves with no new leaf added.\n- Omit unchanged branches entirely \u{2014} they are preserved automatically.\n- If no new leaf fits any existing or new cross-cutting concept, return empty arrays.\n\n",
    );
    push_str(&mut msg, "<existing_branches>\n");
    push_branch_blocks(&mut msg, branches, branch_bodies);
    push_str(&mut msg, "</existing_branches>\n\n");
    push_str(&mut msg, "<leaf_catalogue>\n");
    push_catalogue(&mut msg, leaves);
    push_str(&mut msg, "</leaf_catalogue>\n\n");
    push_str(&mut msg, "<new_leaves_to_integrate>\n");
    let ghost lv = strs(listed@);
    let ghost before_list = msg@;
    let mut i: usize = 0;
    while i < listed.len()
        invariant
            i <= listed.len(),
            lv == strs(listed@),
            msg@ == before_list + bullet_list(lv.take(i as int)),
        decreases listed.len() - i,
    {
        assert(lv.take(i + 1).drop_last() =~= lv.take(i as int));
        assert(lv.take(i + 1).last() == listed@[i as int]@);
        push_str(&mut msg, "  - ");
        push_str(&mut msg, listed[i].as_str());
        push_str(&mut msg, "\n");
        i += 1;
    }
    assert(lv.take(listed.len() as int) =~= lv);
    push_str(&mut msg, "</new_leaves_to_integrate>\n\n");
    push_str(
        &mut msg,
        "The above are the NEW leaves you must integrate. Every branch you output (updated or new) MUST include at least one of these new leaves. If none fit any concept, return empty arrays.\n\n",
    );
    push_str(&mut msg, "<full_leaf_bodies>\n");
    let ghost wv = strs(with_bodies@);
    let ghost qs = quotes(leaves@);
    let ghost before_bodies = msg@;
    let mut j: usize = 0;
    while j < with_bodies.len()
        invariant
            j <= with_bodies.len(),
            wv == strs(with_bodies@),
            qs == quotes(leaves@),
            msg@ == before_bodies + body_documents(qs, wv.take(j as int)),
        decreases with_bodies.len() - j,
    {
        assert(wv.take(j + 1).drop_last() =~= wv.take(j as int));
        assert(wv.take(j + 1).last() == with_bodies@[j as int]@);
        match find_last_with_slug(leaves, with_bodies[j].as_str()) {
            Some(k) => push_slug_document(&mut msg, &leaves[k], false),
            None => {
                proof {
                    reveal_strlit("");
                }
            },
        }
        j += 1;
    }
    assert(wv.take(with_bodies.len() as int) =~= wv);
    push_str(&mut msg, "</full_leaf_bodies>\n");
    msg
}

// ── the clustering call ──────────────────────────────────────────────────────

/// A document in the clustering catalogue: its title and summary only.
pub open spec fn cluster_doc(l: LeafQuote) -> Seq<char> {
    "<document slug=\""@ + l.slug + "\" filename=\""@ + l.filename + "\" title=\""@ + l.title + "\">\n"@ + (match l.summary {
        Some(s) => "<summary>"@ + s + "</summary>\n"@,
        None => seq![],
    }) + "</document>\n"@
}

pub open spec fn cluster_catalogue(ls: Seq<LeafQuote>) -> Seq<char>
    decreases ls.len(),
{
    if ls.len() == 0 {
        seq![]
    } else {
        cluster_catalogue(ls.drop_last()) + cluster_doc(ls.last())
    }
}

fn push_cluster_doc(out: &mut String, l: &LoadedLeaf)
    ensures
        final(out)@ == old(out)@ + cluster_doc(quote(*l)),
{
    push_str(out, "<document slug=\"");
    push_str(out, l.slug.as_str());
    push_str(out, "\" filename=\"");
    push_str(out, l.filename.as_str());
    push_str(out, "\" title=\"");
    push_str(out, l.title.as_str());
    push_str(out, "\">\n");
    match &l.summary {
        Some(s) => {
            push_str(out, "<summary>");
            push_str(out, s.as_str());
            push_str(out, "</summary>\n");
        },
        None => {},
    }
    push_str(out, "</document>\n");
}

/// The slugs of the leaves at the positions.
pub open spec fn slugs_at(ls: Seq<LeafQuote>, idx: Seq<int>) -> Seq<Seq<char>> {
    idx.map_values(|i: int| ls[i].slug)
}

pub open spec fn group_lines(ls: Seq<LeafQuote>, cs: Seq<Seq<int>>) -> Seq<char>
    decreases cs.len(),
{
    if cs.len() == 0 {
        seq![]
    } else {
        group_lines(ls, cs.drop_last()) + "  Group "@ + decimal(cs.len()) + ": "@ + join(
            slugs_at(ls, cs.last()),
            ", "@,
        ) + "\n"@
    }
}

pub open spec fn cluster_text(ls: Seq<LeafQuote>, cs: Seq<Seq<int>>, incremental: bool) -> Seq<char> {
    "There are "@ + decimal(ls.len()) + " documents to cluster.\n\n"@ + "<leaf_catalogue>\n"@ + cluster_catalogue(ls)
        + "</leaf_catalogue>\n\n"@ + (if cs.len() > 0 {
        "<candidate_clusters>\n"@
            + "These groupings are computed from term similarity \u{2014} they are hints, not constraints. Adjust, split, or merge as needed.\n\n"@
            + group_lines(ls, cs) + "</candidate_clusters>\n\n"@
    } else {
        seq![]
    }) + if incremental {
        "Output assignments (for existing branches) and new_clusters (for new concepts).\n"@
    } else {
        "Output a list of clusters with titles and leaf assignments.\n"@
    }
}

fn slugs_of_cluster(leaves: &Vec<LoadedLeaf>, c: &CandidateCluster) -> (r: Vec<String>)
    requires
        forall|k: int| 0 <= k < c.leaf_indices.len() ==> #[trigger] c.leaf_indices@[k] < leaves.len(),
    ensures
        strs(r@) == slugs_at(quotes(leaves@), c.leaf_indices@.map_values(|x: usize| x as int)),
{
    let ghost want = slugs_at(quotes(leaves@), c.leaf_indices@.map_values(|x: usize| x as int));
    let mut out: Vec<String> = Vec::new();
    let mut i: usize = 0;
    while i < c.leaf_indices.len()
        invariant
            i <= c.leaf_indices.len(),
            want == slugs_at(quotes(leaves@), c.leaf_indices@.map_values(|x: usize| x as int)),
            forall|k: int| 0 <= k < c.leaf_indices.len() ==> #[trigger] c.leaf_indices@[k] < leaves.len(),
            strs(out@) == want.take(i as int),
        decreases c.leaf_indices.len() - i,
    {
        let idx = c.leaf_indices[i];
        crate::text::push_string(&mut out, leaves[idx].slug.clone());
        assert(want.take(i + 1) =~= want.take(i as int).push(leaves@[idx as int].slug@));
        i += 1;
    }
    assert(want.take(c.leaf_indices.len() as int) =~= want);
    out
}

/// The clustering call's request: the catalogue of titles and summaries,
/// the candidate clusters as hints, and what to output.
pub fn build_cluster_message(leaves: &Vec<LoadedLeaf>, candidate_clusters: &Vec<CandidateCluster>, incremental: bool) -> (r: String)
    requires
        groups_within(clusters_view(candidate_clusters@), leaves.len() as int),
    ensures
        r@ == cluster_text(quotes(leaves@), clusters_view(candidate_clusters@), incremental),
{
    let ghost qs = quotes(leaves@);
    let ghost cv = clusters_view(candidate_clusters@);
    let mut msg = cat3("There are ", usize_to_string(leaves.len()).as_str(), " documents to cluster.\n\n");
    push_str(&mut msg, "<leaf_catalogue>\n");
    let ghost before_cat = msg@;
    let mut i: usize = 0;
    while i < leaves.len()
        invariant
            i <= leaves.len(),
            qs == quotes(leaves@),
            msg@ == before_cat + cluster_catalogue(qs.take(i as int)),
        decreases leaves.len() - i,
    {
        assert(qs.take(i + 1).drop_last() =~= qs.take(i as int));
        assert(qs.take(i + 1).last() == quote(leaves@[i as int]));
        push_cluster_doc(&mut msg, &leaves[i]);
        i += 1;
    }
    assert(qs.take(leaves.len() as int) =~= qs);
    push_str(&mut msg, "</leaf_catalogue>\n\n");
    if candidate_clusters.len() > 0 {
        push_str(&mut msg, "<candidate_clusters>\n");
        push_str(
            &mut msg,
            "These groupings are computed from term similarity \u{2014} they are hints, not constraints. Adjust, split, or merge as needed.\n\n",
        );
        let ghost before_groups = msg@;
        let mut g: usize = 0;
        while g < candidate_clusters.len()
            invariant
                g <= candidate_clusters.len(),
                qs == quotes(leaves@),
                cv == clusters_view(candidate_clusters@),
                groups_within(cv, leaves.len() as int),
                msg@ == before_groups + group_lines(qs, cv.take(g as int)),
            decreases candidate_clusters.len() - g,
        {
            assert(cv.take(g + 1).drop_last() =~= cv.take(g as int));
            assert(cv.take(g + 1).last() == cv[g as int]);
            assert forall|k: int| 0 <= k < candidate_clusters[g as int].leaf_indices.len() implies #[trigger] candidate_clusters[g as int].leaf_indices@[k] < leaves.len() by {
                assert(cv[g as int][k] == candidate_clusters[g as int].leaf_indices@[k] as int);
            }
            let slugs = slugs_of_cluster(leaves, &candidate_clusters[g]);
            push_str(&mut msg, "  Group ");
            push_str(&mut msg, usize_to_string(g + 1).as_str());
            push_str(&mut msg, ": ");
            push_str(&mut msg, join_strings(&slugs, ", ").as_str());
            push_str(&mut msg, "\n");
            g += 1;
        }
        assert(cv.take(candidate_clusters.len() as int) =~= cv);
        push_str(&mut msg, "</candidate_clusters>\n\n");
    } else {
        proof {
            reveal_strlit("");
        }
    }
    if incremental {
        push_str(&mut msg, "Output assignments (for existing branches) and new_clusters (for new concepts).\n");
    } else {
        push_str(&mut msg, "Output a list of clusters with titles and leaf assignments.\n");
    }
    msg
}

// ── stage 2 ──────────────────────────────────────────────────────────────────

pub open spec fn synthesize_text(title: Seq<char>, ls: Seq<LeafQuote>) -> Seq<char> {
    "The following documents are all related to the concept: \""@ + title
        + "\".\n\nProduce a single branch that synthesizes how this concept manifests across these documents. Draw connections, note contrasts, highlight patterns. Reference documents by their slug or filename exactly as provided.\n\nThere are "@
        + decimal(ls.len()) + " documents.\n\n"@ + slug_documents(ls)
}

/// The stage-2 request for a new cluster: its title and its documents.
pub fn build_synthesize_user_message(cluster_title: &str, leaves: &Vec<LoadedLeaf>) -> (r: String)
    ensures
        r@ == synthesize_text(cluster_title@, quotes(leaves@)),
{
    let mut msg = cat3("The following documents are all related to the concept: \"", cluster_title, "\".\n\nProduce a single branch that synthesizes how this concept manifests across these documents. Draw connections, note contrasts, highlight patterns. Reference documents by their slug or filename exactly as provided.\n\nThere are ");
    push_str(&mut msg, usize_to_string(leaves.len()).as_str());
    push_str(&mut msg, " documents.\n\n");
    push_slug_documents(&mut msg, leaves);
    msg
}

pub open spec fn update_text(title: Seq<char>, existing: Seq<char>, ls: Seq<LeafQuote>) -> Seq<char> {
    "The following new documents extend the existing concept: \""@ + title
        + "\".\n\nProduce an updated branch body that integrates these new documents with the existing synthesis below. Draw connections, note contrasts, highlight patterns. Reference documents by their slug or filename exactly as provided.\n\n"@
        + "<existing_branch_body>\n"@ + existing + "\n</existing_branch_body>\n\n"@ + "There are "@ + decimal(ls.len())
        + " new documents to integrate.\n\n"@ + slug_documents(ls)
}

/// The stage-2 request for an existing branch: its title and body, and the
/// new documents.
pub fn build_synthesize_update_user_message(branch_title: &str, existing_body: &str, new_leaves: &Vec<LoadedLeaf>) -> (r: String)
    ensures
        r@ == update_text(branch_title@, existing_body@, quotes(new_leaves@)),
{
    let mut msg = cat3("The following new documents extend the existing concept: \"", branch_title, "\".\n\nProduce an updated branch body that integrates these new documents with the existing synthesis below. Draw connections, note contrasts, highlight patterns. Reference documents by their slug or filename exactly as provided.\n\n");
    push_str(&mut msg, "<existing_branch_body>\n");
    push_str(&mut msg, existing_body);
    push_str(&mut msg, "\n</existing_branch_body>\n\n");
    push_str(&mut msg, "There are ");
    push_str(&mut msg, usize_to_string(new_leaves.len()).as_str());
    push_str(&mut msg, " new documents to integrate.\n\n");
    push_slug_documents(&mut msg, new_leaves);
    msg
}

/// The clustering request of a Full compile: every leaf, with the
/// candidate clusters of their tokens as hints; `token_sets[i]` are the
/// distinct tokens of `leaves[i]`.
pub fn build_cluster_user_message(leaves: &Vec<LoadedLeaf>, token_sets: &Vec<Vec<String>>) -> (r: String)
    requires
        token_sets.len() == leaves.len(),
    ensures
        r@ == cluster_text(quotes(leaves@), candidate_clusters_spec(tokens_view(token_sets@)), false),
{
    let candidates = compute_candidate_clusters(token_sets);
    proof {
        lemma_candidates_within(tokens_view(token_sets@));
    }
    build_cluster_message(leaves, &candidates, false)
}

/// The positions of the leaves among the new ones, in order.
pub open spec fn new_positions(ls: Seq<LeafQuote>, slugs: Seq<Seq<char>>) -> Seq<int>
    decreases ls.len(),
{
    if ls.len() == 0 {
        seq![]
    } else {
        new_positions(ls.drop_last(), slugs) + if slugs.contains(ls.last().slug) {
            seq![ls.len() - 1]
        } else {
            seq![]
        }
    }
}

/// The clustering request of an Incremental compile: the new leaves alone,
/// with the candidate clusters of their tokens as hints.
#[verifier::spinoff_prover]
#[verifier::rlimit(40)]
pub fn build_incremental_cluster_user_message(
    leaves: &Vec<LoadedLeaf>,
    token_sets: &Vec<Vec<String>>,
    new_leaf_slugs: &Vec<String>,
) -> (r: String)
    requires
        token_sets.len() == leaves.len(),
    ensures
        ({
            let pos = new_positions(quotes(leaves@), strs(new_leaf_slugs@));
            r@ == cluster_text(
                pos.map_values(|i: int| quotes(leaves@)[i]),
                candidate_clusters_spec(pos.map_values(|i: int| tokens_view(token_sets@)[i])),
                true,
            )
        }),
{
    let ghost qs = quotes(leaves@);
    let ghost tv = tokens_view(token_sets@);
    let ghost sv = strs(new_leaf_slugs@);
    let mut new_leaves: Vec<LoadedLeaf> = Vec::new();
    let mut new_tokens: Vec<Vec<String>> = Vec::new();
    let mut i: usize = 0;
    while i < leaves.len()
        invariant
            i <= leaves.len(),
            token_sets.len() == leaves.len(),
            qs == quotes(leaves@),
            tv == tokens_view(token_sets@),
            sv == strs(new_leaf_slugs@),
            quotes(new_leaves@) == new_positions(qs.take(i as int), sv).map_values(|k: int| qs[k]),
            tokens_view(new_tokens@) == new_positions(qs.take(i as int), sv).map_values(|k: int| tv[k]),
        decreases leaves.len() - i,
    {
        assert(qs.take(i + 1).drop_last() =~= qs.take(i as int));
        assert(qs.take(i + 1).last() == quote(leaves@[i as int]));
        let ghost pos = new_positions(qs.take(i as int), sv);
        if crate::text::strings_contain(new_leaf_slugs, leaves[i].slug.as_str()) {
            let l = super::stage2::clone_loaded_leaf(&leaves[i]);
            let t = token_sets[i].clone();
            let ghost nb = new_leaves@;
            let ghost tb = new_tokens@;
            new_leaves.push(l);
            new_tokens.push(t);
            assert(new_positions(qs.take(i + 1), sv) =~= pos.push(i as int));
            assert(quotes(new_leaves@) =~= quotes(nb).push(qs[i as int]));
            assert(tokens_view(new_tokens@) =~= tokens_view(tb).push(tv[i as int]));
            assert(pos.push(i as int).map_values(|k: int| qs[k]) =~= pos.map_values(|k: int| qs[k]).push(qs[i as int]));
            assert(pos.push(i as int).map_values(|k: int| tv[k]) =~= pos.map_values(|k: int| tv[k]).push(tv[i as int]));
        } else {
            assert(new_positions(qs.take(i + 1), sv) =~= pos);
        }
        i += 1;
    }
    assert(qs.take(leaves.len() as int) =~= qs);
    let candidates = compute_candidate_clusters(&new_tokens);
    proof {
        lemma_candidates_within(tokens_view(new_tokens@));
    }
    build_cluster_message(&new_leaves, &candidates, true)
}

} // verus!
