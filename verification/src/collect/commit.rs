//! Deduplication of expanded inputs against each other and the tree state.
//!
//! Every URL is kept once: a URL already listed earlier in the same run is
//! skipped, one already in the tree state is reported as a duplicate, and
//! the others go on to be fetched. Notes are read beforehand (by the caller)
//! and deduplicated by the source URL derived from their content.
use vstd::prelude::*;

use super::{
    collect_error_code, collect_error_text, collect_failure_item, collect_skipped_item,
    CollectError, CollectItemResult, CollectItemStatus, CollectResult, Outcome,
};
use crate::compile::cluster::{
    claims, lemma_claims_append, lemma_pair_lookup_claims, lookup_pair, opt_text, pair_lookup, pairs_view,
};
use crate::text::{cat, cat3, owned, str_eq, strs};
use crate::tree::{Leaf, Timestamp, TreeMetadata, TreeState};

verus! {

/// What the compute phase produces for one source: everything needed to
/// write a leaf.
#[derive(Debug)]
pub struct ComputedLeaf {
    pub url: String,
    pub title: Option<String>,
    pub body_markdown: String,
    pub summary_text: String,
    /// Frontmatter-strip warning for notes; `None` for fetched URLs.
    pub note_warning: Option<String>,
}

/// The tree state as read from disk: absent (a tree not yet initialised),
/// read, or unreadable with the error's text.
#[derive(Debug)]
pub enum StateRead {
    NotInitialized,
    Read(TreeState),
    Failed(String),
}

/// The file of the first leaf collected from `url`.
pub open spec fn leaf_file_for(leaves: Seq<Leaf>, url: Seq<char>) -> Option<Seq<char>>
    decreases leaves.len(),
{
    if leaves.len() == 0 {
        None
    } else if leaves[0].url@ == url {
        Some(leaves[0].file@)
    } else {
        leaf_file_for(leaves.drop_first(), url)
    }
}

/// The existing file for a URL: none in a tree not yet initialised, the
/// error's text when the state cannot be read.
pub open spec fn duplicate_spec(url: Seq<char>, state: StateRead) -> Result<Option<Seq<char>>, Seq<char>> {
    match state {
        StateRead::NotInitialized => Ok(None),
        StateRead::Failed(m) => Err(m@),
        StateRead::Read(ts) => Ok(leaf_file_for(ts.leaves@, url)),
    }
}

/// The file of an already collected leaf with this URL, if any.
pub fn duplicate_file(url: &str, state: &StateRead) -> (r: Result<Option<String>, CollectError>)
    ensures
        match duplicate_spec(url@, *state) {
            Ok(f) => r matches Ok(o) && opt_text(o) == f,
            Err(m) => r matches Err(CollectError::TreeState(e)) && e@ == m,
        },
{
    match state {
        StateRead::NotInitialized => Ok(None),
        StateRead::Failed(m) => Err(CollectError::TreeState(m.clone())),
        StateRead::Read(ts) => {
            let leaves = &ts.leaves;
            let ghost all = leaves@;
            assert(all.subrange(0, all.len() as int) =~= all);
            let ghost want = duplicate_spec(url@, *state);
            assert(want == Ok::<Option<Seq<char>>, Seq<char>>(leaf_file_for(all, url@)));
            let mut i: usize = 0;
            while i < leaves.len()
                invariant
                    i <= leaves.len(),
                    all == leaves@,
                    want == duplicate_spec(url@, *state),
                    want == Ok::<Option<Seq<char>>, Seq<char>>(leaf_file_for(all, url@)),
                    leaf_file_for(all, url@) == leaf_file_for(all.subrange(i as int, all.len() as int), url@),
                decreases leaves.len() - i,
            {
                let ghost rest = all.subrange(i as int, all.len() as int);
                assert(rest[0] == all[i as int]);
                if str_eq(leaves[i].url.as_str(), url) {
                    return Ok(Some(leaves[i].file.clone()));
                }
                assert(rest.drop_first() =~= all.subrange(i + 1, all.len() as int));
                i += 1;
            }
            Ok(None)
        },
    }
}

// ── the plan ─────────────────────────────────────────────────────────────────

/// An expanded input ready for deduplication; a note has been read and
/// computed already.
#[derive(Debug)]
pub enum PreparedInput {
    Url { input: String, url: String },
    Note { input: String, path: String, computed: Result<ComputedLeaf, CollectError> },
    Failure { input: String, code: String, message: String },
}

/// The plan: outcomes already known, URLs still to fetch as (input, url),
/// and notes computed already as (input, leaf).
#[derive(Debug)]
pub struct DedupPlan {
    pub outcomes: Vec<Outcome>,
    pub to_compute: Vec<(String, String)>,
    pub precomputed_notes: Vec<(String, ComputedLeaf)>,
}

/// An item by its texts.
pub struct ItemView {
    pub input: Seq<char>,
    pub status: CollectItemStatus,
    pub url: Option<Seq<char>>,
    pub file: Option<Seq<char>>,
    pub path: Option<Seq<char>>,
    pub code: Option<Seq<char>>,
    pub message: Option<Seq<char>>,
    pub existing_file: Option<Seq<char>>,
    pub reason: Option<Seq<char>>,
}

pub open spec fn item_view(i: CollectItemResult) -> ItemView {
    ItemView {
        input: i.input@,
        status: i.status,
        url: opt_text(i.url),
        file: opt_text(i.file),
        path: opt_text(i.path),
        code: opt_text(i.code),
        message: opt_text(i.message),
        existing_file: opt_text(i.existing_file),
        reason: opt_text(i.reason),
    }
}

/// An outcome of the plan by its texts; an error by its code and text.
pub enum PlanOutcome {
    Errored { input: Seq<char>, url: Seq<char>, code: Seq<char>, text: Seq<char> },
    Item(ItemView),
    Collected,
}

pub open spec fn outcome_view(o: Outcome) -> PlanOutcome {
    match o {
        Outcome::Errored { input, url, error } => PlanOutcome::Errored {
            input: input@,
            url: url@,
            code: collect_error_code(error),
            text: collect_error_text(error),
        },
        Outcome::Item(i) => PlanOutcome::Item(item_view(i)),
        Outcome::Collected { .. } => PlanOutcome::Collected,
    }
}

pub open spec fn outcomes_view(v: Seq<Outcome>) -> Seq<PlanOutcome> {
    v.map_values(|o: Outcome| outcome_view(o))
}

pub struct PlanState {
    /// URLs met so far, each with the input that first listed it.
    pub seen: Seq<(Seq<char>, Seq<char>)>,
    pub outcomes: Seq<PlanOutcome>,
    pub to_compute: Seq<(Seq<char>, Seq<char>)>,
    pub notes: Seq<(Seq<char>, ComputedLeaf)>,
}

pub open spec fn skipped_view(input: Seq<char>, url: Seq<char>, message: Seq<char>) -> PlanOutcome {
    PlanOutcome::Item(
        ItemView {
            input,
            status: CollectItemStatus::Skipped,
            url: Some(url),
            code: Some("duplicate_input"@),
            message: Some(message),
            existing_file: None,
            file: None,
            path: None,
            reason: None,
        },
    )
}

pub open spec fn errored_view(input: Seq<char>, url: Seq<char>, code: Seq<char>, text: Seq<char>) -> PlanOutcome {
    PlanOutcome::Errored { input, url, code, text }
}

/// The outcome for a URL not yet seen in this run, or `None` when it goes
/// on: a duplicate of a collected leaf, or the state's error.
pub open spec fn state_check(input: Seq<char>, url: Seq<char>, state: StateRead) -> Option<PlanOutcome> {
    match duplicate_spec(url, state) {
        Ok(Some(f)) => Some(errored_view(input, url, "duplicate_url"@, "already collected \u{2192} "@ + f)),
        Ok(None) => None,
        Err(m) => Some(errored_view(input, url, "state_error"@, m)),
    }
}

/// One input of the plan.
pub open spec fn plan_step(st: PlanState, e: PreparedInput, state: StateRead) -> PlanState {
    match e {
        PreparedInput::Failure { input, code, message } => PlanState {
            outcomes: st.outcomes.push(
                PlanOutcome::Item(
                    ItemView {
                        input: input@,
                        status: CollectItemStatus::Failed,
                        url: None,
                        code: Some(code@),
                        message: Some(message@),
                        existing_file: None,
                        file: None,
                        path: None,
                        reason: None,
                    },
                ),
            ),
            ..st
        },
        PreparedInput::Url { input, url } => match pair_lookup(st.seen, url@) {
            Some(first) => PlanState {
                outcomes: st.outcomes.push(
                    skipped_view(input@, url@, "duplicate input URL first listed at "@ + first),
                ),
                ..st
            },
            None => {
                let seen = st.seen.push((url@, input@));
                match state_check(input@, url@, state) {
                    Some(o) => PlanState { seen, outcomes: st.outcomes.push(o), ..st },
                    None => PlanState { seen, to_compute: st.to_compute.push((input@, url@)), ..st },
                }
            },
        },
        PreparedInput::Note { input, path, computed } => match computed {
            Err(error) => PlanState {
                outcomes: st.outcomes.push(
                    errored_view(input@, path@, collect_error_code(error), collect_error_text(error)),
                ),
                ..st
            },
            Ok(leaf) => match pair_lookup(st.seen, leaf.url@) {
                Some(first) => PlanState {
                    outcomes: st.outcomes.push(
                        skipped_view(input@, leaf.url@, "duplicate note first listed at "@ + first),
                    ),
                    ..st
                },
                None => {
                    let seen = st.seen.push((leaf.url@, input@));
                    match state_check(input@, leaf.url@, state) {
                        Some(o) => PlanState { seen, outcomes: st.outcomes.push(o), ..st },
                        None => PlanState { seen, notes: st.notes.push((input@, leaf)), ..st },
                    }
                },
            },
        },
    }
}

pub open spec fn plan_fold(es: Seq<PreparedInput>, state: StateRead) -> PlanState
    decreases es.len(),
{
    if es.len() == 0 {
        PlanState { seen: seq![], outcomes: seq![], to_compute: seq![], notes: seq![] }
    } else {
        plan_step(plan_fold(es.drop_last(), state), es.last(), state)
    }
}

pub open spec fn compute_view(v: Seq<(String, String)>) -> Seq<(Seq<char>, Seq<char>)> {
    v.map_values(|p: (String, String)| (p.0@, p.1@))
}

pub open spec fn notes_view(v: Seq<(String, ComputedLeaf)>) -> Seq<(Seq<char>, ComputedLeaf)> {
    v.map_values(|p: (String, ComputedLeaf)| (p.0@, p.1))
}

/// Appends the outcome of a URL not seen earlier in the run, when the state
/// settles it; returns whether it did.
fn check_state(
    outcomes: &mut Vec<Outcome>,
    input: &String,
    url: &String,
    state: &StateRead,
) -> (settled: bool)
    ensures
        match state_check(input@, url@, *state) {
            Some(o) => settled && outcomes_view(final(outcomes)@) == outcomes_view(old(outcomes)@).push(o),
            None => !settled && final(outcomes)@ == old(outcomes)@,
        },
{
    let ghost before = outcomes@;
    match duplicate_file(url.as_str(), state) {
        Ok(Some(existing_file)) => {
            outcomes.push(
                Outcome::Errored {
                    input: input.clone(),
                    url: url.clone(),
                    error: CollectError::DuplicateUrl { existing_file },
                },
            );
            assert(outcomes_view(outcomes@) =~= outcomes_view(before).push(outcome_view(outcomes@.last())));
            true
        },
        Ok(None) => false,
        Err(error) => {
            outcomes.push(Outcome::Errored { input: input.clone(), url: url.clone(), error });
            assert(outcomes_view(outcomes@) =~= outcomes_view(before).push(outcome_view(outcomes@.last())));
            true
        },
    }
}

fn push_outcome(outcomes: &mut Vec<Outcome>, o: Outcome)
    ensures
        outcomes_view(final(outcomes)@) == outcomes_view(old(outcomes)@).push(outcome_view(o)),
{
    let ghost before = outcomes@;
    outcomes.push(o);
    assert(outcomes_view(outcomes@) =~= outcomes_view(before).push(outcome_view(o)));
}

fn push_pair(v: &mut Vec<(String, String)>, a: String, b: String)
    ensures
        pairs_view(final(v)@) == pairs_view(old(v)@).push((a@, b@)),
{
    let ghost before = v@;
    v.push((a, b));
    assert(pairs_view(v@) =~= pairs_view(before).push((a@, b@)));
}

/// Splits expanded inputs into known outcomes, URLs to fetch and computed
/// notes, in input order. A URL listed twice is fetched once: the later
/// input is skipped, naming the input that listed it first. A URL already
/// collected is reported as a duplicate with the existing file.
pub fn dedup_inputs(expanded: Vec<PreparedInput>, state: &StateRead) -> (plan: DedupPlan)
    ensures
        ({
            let p = plan_fold(expanded@, *state);
            &&& outcomes_view(plan.outcomes@) == p.outcomes
            &&& compute_view(plan.to_compute@) == p.to_compute
            &&& notes_view(plan.precomputed_notes@) == p.notes
        }),
{
    let ghost es = expanded@;
    assert(es.len() == expanded.len());
    let mut seen: Vec<(String, String)> = Vec::new();
    let mut outcomes: Vec<Outcome> = Vec::new();
    let mut to_compute: Vec<(String, String)> = Vec::new();
    let mut notes: Vec<(String, ComputedLeaf)> = Vec::new();
    let mut rest = expanded;
    proof {
        assert(es.take(0) =~= seq![]);
        assert(pairs_view(seen@) =~= seq![]);
        assert(outcomes_view(outcomes@) =~= seq![]);
        assert(compute_view(to_compute@) =~= seq![]);
        assert(notes_view(notes@) =~= seq![]);
        assert(rest@ =~= es.skip(0));
    }
    let mut i: usize = 0;
    while rest.len() > 0
        invariant
            i + rest.len() == es.len(),
            es.len() <= usize::MAX,
            rest@ =~= es.skip(i as int),
            ({
                let p = plan_fold(es.take(i as int), *state);
                &&& pairs_view(seen@) == p.seen
                &&& outcomes_view(outcomes@) == p.outcomes
                &&& compute_view(to_compute@) == p.to_compute
                &&& notes_view(notes@) == p.notes
            }),
        decreases rest.len(),
    {
        let e = rest.remove(0);
        assert(e == es[i as int]);
        assert(es.take(i + 1).drop_last() =~= es.take(i as int));
        assert(es.take(i + 1).last() == es[i as int]);
        assert(rest@ =~= es.skip(i + 1));
        let ghost before_c = to_compute@;
        let ghost before_n = notes@;
        match e {
            PreparedInput::Failure { input, code, message } => {
                let item = collect_failure_item(input.as_str(), None, code.as_str(), message);
                push_outcome(&mut outcomes, Outcome::Item(item));
            },
            PreparedInput::Url { input, url } => {
                match lookup_pair(&seen, url.as_str()) {
                    Some(first) => {
                        let item = collect_skipped_item(
                            input.as_str(),
                            url.as_str(),
                            "duplicate_input",
                            cat("duplicate input URL first listed at ", first.as_str()),
                            None,
                        );
                        push_outcome(&mut outcomes, Outcome::Item(item));
                    },
                    None => {
                        push_pair(&mut seen, url.clone(), input.clone());
                        if !check_state(&mut outcomes, &input, &url, state) {
                            to_compute.push((input, url));
                            assert(compute_view(to_compute@) =~= compute_view(before_c).push(
                                (to_compute@.last().0@, to_compute@.last().1@),
                            ));
                        }
                    },
                }
            },
            PreparedInput::Note { input, path, computed } => {
                match computed {
                    Err(error) => {
                        push_outcome(&mut outcomes, Outcome::Errored { input, url: path, error });
                    },
                    Ok(leaf) => {
                        match lookup_pair(&seen, leaf.url.as_str()) {
                            Some(first) => {
                                let item = collect_skipped_item(
                                    input.as_str(),
                                    leaf.url.as_str(),
                                    "duplicate_input",
                                    cat("duplicate note first listed at ", first.as_str()),
                                    None,
                                );
                                push_outcome(&mut outcomes, Outcome::Item(item));
                            },
                            None => {
                                push_pair(&mut seen, leaf.url.clone(), input.clone());
                                let url = leaf.url.clone();
                                if !check_state(&mut outcomes, &input, &url, state) {
                                    notes.push((input, leaf));
                                    assert(notes_view(notes@) =~= notes_view(before_n).push(
                                        (notes@.last().0@, notes@.last().1),
                                    ));
                                }
                            },
                        }
                    },
                }
            },
        }
        i += 1;
    }
    assert(es.take(es.len() as int) =~= es);
    DedupPlan { outcomes, to_compute, precomputed_notes: notes }
}


// ── laws ─────────────────────────────────────────────────────────────────────

/// The URLs a plan goes on with: each fetched or computed at most once, and
/// none of them already collected.
pub open spec fn plan_well_formed(p: PlanState, state: StateRead) -> bool {
    &&& forall|i: int, j: int| 0 <= i < j < p.to_compute.len() ==> (#[trigger] p.to_compute[i]).1 != (#[trigger] p.to_compute[j]).1
    &&& forall|i: int, j: int| 0 <= i < j < p.notes.len() ==> (#[trigger] p.notes[i]).1.url@ != (#[trigger] p.notes[j]).1.url@
    &&& forall|i: int, j: int| 0 <= i < p.to_compute.len() && 0 <= j < p.notes.len() ==> (#[trigger] p.to_compute[i]).1 != (#[trigger] p.notes[j]).1.url@
    &&& forall|i: int| 0 <= i < p.to_compute.len() ==> duplicate_spec((#[trigger] p.to_compute[i]).1, state) == Ok::<Option<Seq<char>>, Seq<char>>(None)
    &&& forall|j: int| 0 <= j < p.notes.len() ==> duplicate_spec((#[trigger] p.notes[j]).1.url@, state) == Ok::<Option<Seq<char>>, Seq<char>>(None)
}

pub open spec fn plan_inv(p: PlanState, state: StateRead) -> bool {
    &&& plan_well_formed(p, state)
    &&& forall|i: int| 0 <= i < p.to_compute.len() ==> claims(p.seen, (#[trigger] p.to_compute[i]).1)
    &&& forall|j: int| 0 <= j < p.notes.len() ==> claims(p.seen, (#[trigger] p.notes[j]).1.url@)
}

proof fn lemma_plan_step(st: PlanState, e: PreparedInput, state: StateRead)
    requires
        plan_inv(st, state),
    ensures
        plan_inv(plan_step(st, e, state), state),
{
    let st2 = plan_step(st, e, state);
    let key: Seq<char> = match e {
        PreparedInput::Url { url, .. } => url@,
        PreparedInput::Note { computed, .. } => match computed {
            Ok(leaf) => leaf.url@,
            Err(_) => seq![],
        },
        PreparedInput::Failure { .. } => seq![],
    };
    lemma_pair_lookup_claims(st.seen, key);
    assert forall|i: int| 0 <= i < st.to_compute.len() implies claims(st.seen.push((key, seq![])), (#[trigger] st.to_compute[i]).1) by {
        lemma_claims_append(st.seen, seq![(key, seq![])], st.to_compute[i].1);
        assert(st.seen.push((key, seq![])) =~= st.seen + seq![(key, seq![])]);
    }
    if st2.seen.len() > st.seen.len() {
        let pushed = st2.seen.last();
        assert(st2.seen == st.seen.push(pushed));
        assert(pushed.0 == key);
        assert forall|i: int| 0 <= i < st2.to_compute.len() implies claims(st2.seen, (#[trigger] st2.to_compute[i]).1) by {
            if i < st.to_compute.len() {
                assert(st2.to_compute[i] == st.to_compute[i]);
                lemma_claims_append(st.seen, seq![pushed], st.to_compute[i].1);
                assert(st.seen.push(pushed) =~= st.seen + seq![pushed]);
            } else {
                assert(st2.seen[st.seen.len() as int].0 == st2.to_compute[i].1);
            }
        }
        assert forall|j: int| 0 <= j < st2.notes.len() implies claims(st2.seen, (#[trigger] st2.notes[j]).1.url@) by {
            if j < st.notes.len() {
                assert(st2.notes[j] == st.notes[j]);
                lemma_claims_append(st.seen, seq![pushed], st.notes[j].1.url@);
                assert(st.seen.push(pushed) =~= st.seen + seq![pushed]);
            } else {
                assert(st2.seen[st.seen.len() as int].0 == st2.notes[j].1.url@);
            }
        }
        assert forall|i: int| 0 <= i < st.to_compute.len() implies (#[trigger] st.to_compute[i]).1 != key by {
            assert(claims(st.seen, st.to_compute[i].1));
        }
        assert forall|j: int| 0 <= j < st.notes.len() implies (#[trigger] st.notes[j]).1.url@ != key by {
            assert(claims(st.seen, st.notes[j].1.url@));
        }
        if st2.to_compute.len() > st.to_compute.len() {
            assert forall|i: int, j: int| 0 <= i < j < st2.to_compute.len() implies (#[trigger] st2.to_compute[i]).1 != (#[trigger] st2.to_compute[j]).1 by {
                if j < st.to_compute.len() {
                    assert(st2.to_compute[i] == st.to_compute[i]);
                    assert(st2.to_compute[j] == st.to_compute[j]);
                } else {
                    assert(st2.to_compute[i] == st.to_compute[i]);
                }
            }
            assert forall|i: int, j: int| 0 <= i < st2.to_compute.len() && 0 <= j < st2.notes.len() implies (#[trigger] st2.to_compute[i]).1 != (#[trigger] st2.notes[j]).1.url@ by {
                if i < st.to_compute.len() {
                    assert(st2.to_compute[i] == st.to_compute[i]);
                }
            }
        }
        if st2.notes.len() > st.notes.len() {
            assert forall|i: int, j: int| 0 <= i < j < st2.notes.len() implies (#[trigger] st2.notes[i]).1.url@ != (#[trigger] st2.notes[j]).1.url@ by {
                if j < st.notes.len() {
                    assert(st2.notes[i] == st.notes[i]);
                    assert(st2.notes[j] == st.notes[j]);
                } else {
                    assert(st2.notes[i] == st.notes[i]);
                }
            }
            assert forall|i: int, j: int| 0 <= i < st2.to_compute.len() && 0 <= j < st2.notes.len() implies (#[trigger] st2.to_compute[i]).1 != (#[trigger] st2.notes[j]).1.url@ by {
                if j < st.notes.len() {
                    assert(st2.notes[j] == st.notes[j]);
                }
            }
        }
    }
}

proof fn lemma_plan_fold(es: Seq<PreparedInput>, state: StateRead)
    ensures
        plan_inv(plan_fold(es, state), state),
    decreases es.len(),
{
    if es.len() > 0 {
        lemma_plan_fold(es.drop_last(), state);
        lemma_plan_step(plan_fold(es.drop_last(), state), es.last(), state);
    }
}

/// A deduplication plan fetches or computes each URL at most once, and
/// only URLs that the tree state holds no leaf for.
pub proof fn lemma_dedup_plan_well_formed(es: Seq<PreparedInput>, state: StateRead)
    ensures
        plan_well_formed(plan_fold(es, state), state),
{
    lemma_plan_fold(es, state);
}

// ── the commit ───────────────────────────────────────────────────────────────

/// The first leaf with a URL, searched by a loop from the front.
fn leaf_file_in(leaves: &Vec<Leaf>, url: &str) -> (r: Option<String>)
    ensures
        opt_text(r) == leaf_file_for(leaves@, url@),
{
    let ghost all = leaves@;
    assert(all.subrange(0, all.len() as int) =~= all);
    let mut i: usize = 0;
    while i < leaves.len()
        invariant
            i <= leaves.len(),
            all == leaves@,
            leaf_file_for(all, url@) == leaf_file_for(all.subrange(i as int, all.len() as int), url@),
        decreases leaves.len() - i,
    {
        let ghost rest = all.subrange(i as int, all.len() as int);
        assert(rest[0] == all[i as int]);
        if str_eq(leaves[i].url.as_str(), url) {
            return Some(leaves[i].file.clone());
        }
        assert(rest.drop_first() =~= all.subrange(i + 1, all.len() as int));
        i += 1;
    }
    None
}

/// The first step of committing one computed source: a failed compute is
/// reported as it is; a source whose URL the state already holds (collected
/// earlier, or earlier in this batch) is reported as a duplicate of that
/// leaf's file; any other goes on to get a slug. A note's warning is kept.
pub fn commit_begin(
    state: &TreeState,
    warnings: &mut Vec<String>,
    input: String,
    url: String,
    result: Result<ComputedLeaf, CollectError>,
) -> (r: Result<(String, ComputedLeaf), Outcome>)
    ensures
        match result {
            Err(e) => r matches Err(Outcome::Errored { input: i, url: u, error: x }) && i@ == input@ && u@ == url@ && x == e
                && final(warnings)@ == old(warnings)@,
            Ok(c) => {
                &&& strs(final(warnings)@) == strs(old(warnings)@) + match c.note_warning {
                    Some(w) => seq![w@],
                    None => seq![],
                }
                &&& match leaf_file_for(state.leaves@, c.url@) {
                    Some(f) => r matches Err(Outcome::Errored { input: i, url: u, error: CollectError::DuplicateUrl { existing_file } })
                        && i@ == input@ && u@ == c.url@ && existing_file@ == f,
                    None => r matches Ok((i, x)) && i@ == input@ && x == c,
                }
            },
        },
{
    match result {
        Err(e) => Err(Outcome::Errored { input, url, error: e }),
        Ok(computed) => {
            match &computed.note_warning {
                Some(w) => {
                    let ghost before = strs(warnings@);
                    crate::text::push_string(warnings, w.clone());
                    assert(strs(warnings@) =~= before + seq![w@]);
                },
                None => {
                    assert(strs(warnings@) =~= strs(warnings@) + seq![]);
                },
            }
            match leaf_file_in(&state.leaves, computed.url.as_str()) {
                Some(existing_file) => Err(
                    Outcome::Errored {
                        input,
                        url: computed.url,
                        error: CollectError::DuplicateUrl { existing_file },
                    },
                ),
                None => Ok((input, computed)),
            }
        },
    }
}

/// The file a leaf of the given slug is written to.
pub fn leaf_file_of_slug(slug: &str) -> (r: String)
    ensures
        r@ == "leaf/"@ + slug@ + ".md"@,
{
    cat3("leaf/", slug, ".md")
}

/// The second step: the leaf is recorded in the state under its slug,
/// collected now, with its summary when the summary is not empty; `path`
/// is where its file lands.
pub fn commit_leaf(
    state: &mut TreeState,
    input: String,
    computed: ComputedLeaf,
    slug: &str,
    path: String,
    now: Timestamp,
) -> (r: Outcome)
    ensures
        final(state).tree == old(state).tree,
        final(state).branches@ == old(state).branches@,
        final(state).leaves@.len() == old(state).leaves@.len() + 1,
        final(state).leaves@.drop_last() == old(state).leaves@,
        ({
            let l = final(state).leaves@.last();
            &&& l.slug@ == slug@
            &&& l.file@ == "leaf/"@ + slug@ + ".md"@
            &&& l.title == computed.title
            &&& l.url@ == computed.url@
            &&& l.collected_at == now
            &&& l.summary == (if computed.summary_text@.len() == 0 { None } else { Some(computed.summary_text) })
        }),
        r matches Outcome::Collected { input: i, result } && i@ == input@ && result.url@ == computed.url@
            && result.file@ == "leaf/"@ + slug@ + ".md"@ && result.path@ == path@,
{
    let file = leaf_file_of_slug(slug);
    let summary = if computed.summary_text.as_str().is_empty() { None } else { Some(computed.summary_text) };
    let leaf = Leaf {
        slug: owned(slug),
        file: file.clone(),
        title: computed.title,
        url: computed.url.clone(),
        collected_at: now,
        summary,
    };
    let ghost before = state.leaves@;
    state.leaves.push(leaf);
    assert(state.leaves@.drop_last() =~= before);
    Outcome::Collected { input, result: CollectResult { url: computed.url, file, path } }
}

/// The label of a batch commit.
pub fn batch_label(count: usize) -> (r: String)
    ensures
        r@ == "batch of "@ + crate::text::decimal(count as nat) + " urls"@,
{
    cat3("batch of ", crate::text::usize_to_string(count).as_str(), " urls")
}

/// The state a collect starts from: the state read, or a fresh one for a
/// tree not yet initialised, named after its directory (or `unnamed`) and
/// created now.
pub fn load_or_bootstrap_state(read: StateRead, dir_name: Option<String>, now: Timestamp) -> (r: Result<TreeState, CollectError>)
    ensures
        match read {
            StateRead::Read(s) => r == Ok::<TreeState, CollectError>(s),
            StateRead::Failed(m) => r matches Err(CollectError::TreeState(e)) && e@ == m@,
            StateRead::NotInitialized => r matches Ok(s) && s.tree.name@ == (match dir_name {
                Some(n) => n@,
                None => "unnamed"@,
            }) && s.tree.created_at == now && s.tree.last_compiled_at is None && s.leaves@.len() == 0
                && s.branches@.len() == 0,
        },
{
    match read {
        StateRead::Read(s) => Ok(s),
        StateRead::Failed(m) => Err(CollectError::TreeState(m)),
        StateRead::NotInitialized => Ok(
            TreeState {
                tree: TreeMetadata {
                    name: match dir_name {
                        Some(n) => n,
                        None => owned("unnamed"),
                    },
                    created_at: now,
                    last_compiled_at: None,
                },
                leaves: Vec::new(),
                branches: Vec::new(),
            },
        ),
    }
}

/// No two leaves of the state share a URL.
pub open spec fn urls_distinct(leaves: Seq<Leaf>) -> bool {
    forall|a: int, b: int| 0 <= a < b < leaves.len() ==> leaves[a].url@ != leaves[b].url@
}

proof fn lemma_leaf_file_for_none(leaves: Seq<Leaf>, url: Seq<char>)
    requires
        leaf_file_for(leaves, url) is None,
    ensures
        forall|k: int| 0 <= k < leaves.len() ==> leaves[k].url@ != url,
    decreases leaves.len(),
{
    if leaves.len() > 0 {
        lemma_leaf_file_for_none(leaves.drop_first(), url);
        assert forall|k: int| 0 <= k < leaves.len() implies leaves[k].url@ != url by {
            if k > 0 {
                assert(leaves.drop_first()[k - 1] == leaves[k]);
            }
        }
    }
}

/// A commit never records a URL twice: a leaf is added only for a URL the
/// state does not hold yet, so a state whose leaves have distinct URLs
/// keeps them distinct.
pub proof fn lemma_commit_keeps_urls_distinct(leaves: Seq<Leaf>, added: Leaf)
    requires
        urls_distinct(leaves),
        leaf_file_for(leaves, added.url@) is None,
    ensures
        urls_distinct(leaves.push(added)),
{
    lemma_leaf_file_for_none(leaves, added.url@);
    let s = leaves.push(added);
    assert forall|a: int, b: int| 0 <= a < b < s.len() implies s[a].url@ != s[b].url@ by {
        if b == s.len() - 1 {
            assert(s[a] == leaves[a]);
        } else {
            assert(s[a] == leaves[a] && s[b] == leaves[b]);
        }
    }
}

} // verus!
