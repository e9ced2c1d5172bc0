//! `bo journal`: the tree's operation journal, one line per event, newest
//! last.
//!
//! Reading the journal file and its JSON is the caller's part: it hands in
//! each event with what its payload says.
use vstd::prelude::*;

use crate::text::{cat, cat3, decimal, owned, push_str, usize_to_string};

verus! {

/// The operation an event records.
#[derive(Debug, Clone, Copy, PartialEq, Eq)]
pub enum JournalOp {
    Collect,
    Compile,
    Repair,
    Query,
}

/// What an event's payload says, as far as the journal shows it.
#[derive(Debug, Clone)]
pub enum EventPayload {
    /// The status of each collected item, when it has one.
    Collect { statuses: Vec<Option<String>> },
    /// The run mode; the validation failures, when the payload lists them
    /// (each when it is text); the error's code and message; the counts of
    /// branches created, updated and deleted; and the duration.
    Compile {
        mode: Option<String>,
        validation_failures: Option<Vec<Option<String>>>,
        error: Option<(Option<String>, Option<String>)>,
        branches_created: usize,
        branches_updated: usize,
        branches_deleted: usize,
        duration_ms: Option<u64>,
    },
    /// The counts of orphan leaves, repaired branches and removed branches.
    Repair { orphan_leaves: usize, repaired_branches: usize, removed_branches: usize },
    /// The question, the number of citations and of leaves consulted.
    Query { question: Option<String>, citations: usize, leaves_consulted: Option<u64> },
}

/// One journal event.
#[derive(Debug, Clone)]
pub struct JournalEvent {
    pub ts: String,
    pub op: JournalOp,
    pub model: Option<String>,
    pub payload: EventPayload,
}

/// The events read, newest last.
#[derive(Debug, Clone)]
pub struct JournalResult {
    pub events: Vec<JournalEvent>,
}

pub open spec fn op_name(op: JournalOp) -> Seq<char> {
    match op {
        JournalOp::Collect => "collect"@,
        JournalOp::Compile => "compile"@,
        JournalOp::Repair => "repair"@,
        JournalOp::Query => "query"@,
    }
}

/// The operation's label, padded to seven characters.
pub open spec fn op_column(op: JournalOp) -> Seq<char> {
    match op {
        JournalOp::Collect => "collect"@,
        JournalOp::Compile => "compile"@,
        JournalOp::Repair => "repair "@,
        JournalOp::Query => "query  "@,
    }
}

pub fn op_label(op: JournalOp) -> (r: &'static str)
    ensures
        r@ == op_name(op),
{
    match op {
        JournalOp::Collect => "collect",
        JournalOp::Compile => "compile",
        JournalOp::Repair => "repair",
        JournalOp::Query => "query",
    }
}

fn op_padded(op: JournalOp) -> (r: &'static str)
    ensures
        r@ == op_column(op),
{
    match op {
        JournalOp::Collect => "collect",
        JournalOp::Compile => "compile",
        JournalOp::Repair => "repair ",
        JournalOp::Query => "query  ",
    }
}

/// How many statuses are the given one.
pub open spec fn status_count(statuses: Seq<Option<Seq<char>>>, status: Seq<char>) -> nat
    decreases statuses.len(),
{
    if statuses.len() == 0 {
        0
    } else {
        status_count(statuses.drop_last(), status) + if statuses.last() == Some(status) { 1nat } else { 0nat }
    }
}

pub open spec fn opt_views(v: Seq<Option<String>>) -> Seq<Option<Seq<char>>> {
    v.map_values(
        |o: Option<String>|
            match o {
                Some(s) => Some(s@),
                None => None,
            },
    )
}

fn count_status(statuses: &Vec<Option<String>>, status: &str) -> (r: usize)
    ensures
        r == status_count(opt_views(statuses@), status@),
{
    let ghost sv = opt_views(statuses@);
    let mut n: usize = 0;
    let mut i: usize = 0;
    while i < statuses.len()
        invariant
            i <= statuses.len(),
            sv == opt_views(statuses@),
            n == status_count(sv.take(i as int), status@),
            n <= i,
        decreases statuses.len() - i,
    {
        assert(sv.take(i + 1).drop_last() =~= sv.take(i as int));
        assert(sv.take(i + 1).last() == sv[i as int]);
        let hit = match &statuses[i] {
            Some(s) => crate::text::str_eq(s.as_str(), status),
            None => false,
        };
        if hit {
            n = n + 1;
        }
        i += 1;
    }
    assert(sv.take(statuses.len() as int) =~= sv);
    n
}

pub open spec fn collect_detail(statuses: Seq<Option<Seq<char>>>) -> Seq<char> {
    decimal(statuses.len()) + " items ("@ + decimal(status_count(statuses, "collected"@)) + " collected, "@
        + decimal(status_count(statuses, "skipped"@)) + " skipped, "@ + decimal(status_count(statuses, "failed"@))
        + " failed)"@
}

pub fn render_collect(statuses: &Vec<Option<String>>) -> (r: String)
    ensures
        r@ == collect_detail(opt_views(statuses@)),
{
    let mut out = cat(usize_to_string(statuses.len()).as_str(), " items (");
    push_str(&mut out, usize_to_string(count_status(statuses, "collected")).as_str());
    push_str(&mut out, " collected, ");
    push_str(&mut out, usize_to_string(count_status(statuses, "skipped")).as_str());
    push_str(&mut out, " skipped, ");
    push_str(&mut out, usize_to_string(count_status(statuses, "failed")).as_str());
    push_str(&mut out, " failed)");
    out
}

/// At most the first `n` characters.
pub open spec fn first_chars(s: Seq<char>, n: nat) -> Seq<char> {
    if s.len() <= n {
        s
    } else {
        s.take(n as int)
    }
}

fn take_chars(s: &str, n: usize) -> (r: String)
    ensures
        r@ == first_chars(s@, n as nat),
{
    let v = crate::text::chars_of(s);
    if v.len() <= n {
        return owned(s);
    }
    let t = crate::text::slice_chars(&v, 0, n);
    assert(t@ =~= v@.take(n as int));
    crate::text::string_of(&t)
}

pub open spec fn text_or(o: Option<Seq<char>>, d: Seq<char>) -> Seq<char> {
    match o {
        Some(s) => s,
        None => d,
    }
}

pub open spec fn compile_detail(
    mode: Option<Seq<char>>,
    failures: Option<Seq<Option<Seq<char>>>>,
    error: Option<(Option<Seq<char>>, Option<Seq<char>>)>,
    created: nat,
    updated: nat,
    deleted: nat,
    duration: Option<u64>,
) -> Seq<char> {
    let m = text_or(mode, "?"@);
    if failures matches Some(fs) && fs.len() > 0 {
        m + "  validation failed: "@ + first_chars(text_or(failures->Some_0[0], seq![]), 80)
    } else if error is Some {
        m + "  error: "@ + text_or(error->Some_0.0, "error"@) + ": "@ + first_chars(text_or(error->Some_0.1, seq![]), 80)
    } else {
        m + "  "@ + decimal(created) + " created, "@ + decimal(updated) + " updated, "@ + decimal(deleted)
            + " deleted  "@ + decimal(
            match duration {
                Some(d) => d as nat,
                None => 0,
            },
        ) + "ms"@
    }
}

fn opt_str<'a>(o: &'a Option<String>, d: &'a str) -> (r: &'a str)
    ensures
        r@ == text_or(
            match o {
                Some(s) => Some(s@),
                None => None,
            },
            d@,
        ),
{
    match o {
        Some(s) => s.as_str(),
        None => d,
    }
}

pub fn render_compile(
    mode: &Option<String>,
    validation_failures: &Option<Vec<Option<String>>>,
    error: &Option<(Option<String>, Option<String>)>,
    created: usize,
    updated: usize,
    deleted: usize,
    duration_ms: Option<u64>,
) -> (r: String)
    ensures
        r@ == compile_detail(
            crate::youtube::url::opt_view(*mode),
            match *validation_failures {
                Some(v) => Some(opt_views(v@)),
                None => None,
            },
            match *error {
                Some((c, m)) => Some((crate::youtube::url::opt_view(c), crate::youtube::url::opt_view(m))),
                None => None,
            },
            created as nat,
            updated as nat,
            deleted as nat,
            duration_ms,
        ),
{
    proof {
        reveal_strlit("");
    }
    let m = opt_str(mode, "?");
    match validation_failures {
        Some(fs) => {
            if fs.len() > 0 {
                assert(opt_views(fs@)[0] == match fs@[0] {
                    Some(s) => Some(s@),
                    None => None,
                });
                let first = opt_str(&fs[0], "");
                return cat3(m, "  validation failed: ", take_chars(first, 80).as_str());
            }
        },
        None => {},
    }
    match error {
        Some((code, message)) => {
            let mut out = cat3(m, "  error: ", opt_str(code, "error"));
            push_str(&mut out, ": ");
            push_str(&mut out, take_chars(opt_str(message, ""), 80).as_str());
            return out;
        },
        None => {},
    }
    let d: u64 = match duration_ms {
        Some(d) => d,
        None => 0,
    };
    let mut out = cat3(m, "  ", usize_to_string(created).as_str());
    push_str(&mut out, " created, ");
    push_str(&mut out, usize_to_string(updated).as_str());
    push_str(&mut out, " updated, ");
    push_str(&mut out, usize_to_string(deleted).as_str());
    push_str(&mut out, " deleted  ");
    push_str(&mut out, crate::status::u64_to_string(d).as_str());
    push_str(&mut out, "ms");
    out
}

pub open spec fn repair_detail(orphans: nat, repaired: nat, removed: nat) -> Seq<char> {
    decimal(orphans) + " orphan leaves pruned, "@ + decimal(repaired) + " branches repaired, "@ + decimal(removed)
        + " branches removed"@
}

pub fn render_repair(orphans: usize, repaired: usize, removed: usize) -> (r: String)
    ensures
        r@ == repair_detail(orphans as nat, repaired as nat, removed as nat),
{
    let mut out = cat(usize_to_string(orphans).as_str(), " orphan leaves pruned, ");
    push_str(&mut out, usize_to_string(repaired).as_str());
    push_str(&mut out, " branches repaired, ");
    push_str(&mut out, usize_to_string(removed).as_str());
    push_str(&mut out, " branches removed");
    out
}

/// At most `max` characters; a longer text is cut and marked with `…`.
pub open spec fn truncated(s: Seq<char>, max: nat) -> Seq<char> {
    if s.len() <= max {
        s
    } else {
        s.take(max as int) + "\u{2026}"@
    }
}

pub fn truncate(s: &str, max: usize) -> (r: String)
    ensures
        r@ == truncated(s@, max as nat),
{
    let v = crate::text::chars_of(s);
    if v.len() <= max {
        return owned(s);
    }
    let t = crate::text::slice_chars(&v, 0, max);
    assert(t@ =~= v@.take(max as int));
    let mut out = crate::text::string_of(&t);
    push_str(&mut out, "\u{2026}");
    out
}

pub open spec fn query_detail(question: Seq<char>, citations: nat, consulted: nat) -> Seq<char> {
    "\""@ + truncated(question, 60) + "\"  "@ + decimal(citations) + " citations  "@ + decimal(consulted)
        + " consulted"@
}

pub fn render_query(question: &Option<String>, citations: usize, consulted: Option<u64>) -> (r: String)
    ensures
        r@ == query_detail(
            text_or(crate::youtube::url::opt_view(*question), seq![]),
            citations as nat,
            match consulted {
                Some(c) => c as nat,
                None => 0,
            },
        ),
{
    proof {
        reveal_strlit("");
    }
    let c: u64 = match consulted {
        Some(c) => c,
        None => 0,
    };
    let mut out = cat3("\"", truncate(opt_str(question, ""), 60).as_str(), "\"  ");
    push_str(&mut out, usize_to_string(citations).as_str());
    push_str(&mut out, " citations  ");
    push_str(&mut out, crate::status::u64_to_string(c).as_str());
    push_str(&mut out, " consulted");
    out
}

pub open spec fn payload_detail(p: EventPayload) -> Seq<char> {
    match p {
        EventPayload::Collect { statuses } => collect_detail(opt_views(statuses@)),
        EventPayload::Compile {
            mode,
            validation_failures,
            error,
            branches_created,
            branches_updated,
            branches_deleted,
            duration_ms,
        } => compile_detail(
            crate::youtube::url::opt_view(mode),
            match validation_failures {
                Some(v) => Some(opt_views(v@)),
                None => None,
            },
            match error {
                Some((c, m)) => Some((crate::youtube::url::opt_view(c), crate::youtube::url::opt_view(m))),
                None => None,
            },
            branches_created as nat,
            branches_updated as nat,
            branches_deleted as nat,
            duration_ms,
        ),
        EventPayload::Repair { orphan_leaves, repaired_branches, removed_branches } => repair_detail(
            orphan_leaves as nat,
            repaired_branches as nat,
            removed_branches as nat,
        ),
        EventPayload::Query { question, citations, leaves_consulted } => query_detail(
            text_or(crate::youtube::url::opt_view(question), seq![]),
            citations as nat,
            match leaves_consulted {
                Some(c) => c as nat,
                None => 0,
            },
        ),
    }
}

/// One event's line: time, operation, what it did, and the model.
pub open spec fn event_line(e: JournalEvent) -> Seq<char> {
    e.ts@ + "  "@ + op_column(e.op) + "  "@ + payload_detail(e.payload) + match e.model {
        Some(m) => "  model="@ + m@,
        None => seq![],
    }
}

pub fn render_event_line(event: &JournalEvent) -> (r: String)
    ensures
        r@ == event_line(*event),
{
    let detail = match &event.payload {
        EventPayload::Collect { statuses } => render_collect(statuses),
        EventPayload::Compile {
            mode,
            validation_failures,
            error,
            branches_created,
            branches_updated,
            branches_deleted,
            duration_ms,
        } => render_compile(
            mode,
            validation_failures,
            error,
            *branches_created,
            *branches_updated,
            *branches_deleted,
            *duration_ms,
        ),
        EventPayload::Repair { orphan_leaves, repaired_branches, removed_branches } => render_repair(
            *orphan_leaves,
            *repaired_branches,
            *removed_branches,
        ),
        EventPayload::Query { question, citations, leaves_consulted } => render_query(
            question,
            *citations,
            *leaves_consulted,
        ),
    };
    let mut out = cat3(event.ts.as_str(), "  ", op_padded(event.op));
    push_str(&mut out, "  ");
    push_str(&mut out, detail.as_str());
    match &event.model {
        Some(m) => {
            push_str(&mut out, "  model=");
            push_str(&mut out, m.as_str());
        },
        None => {
            assert(out@ =~= out@ + seq![]);
        },
    }
    out
}

pub open spec fn event_lines(es: Seq<JournalEvent>) -> Seq<char>
    decreases es.len(),
{
    if es.len() == 0 {
        seq![]
    } else {
        event_lines(es.drop_last()) + event_line(es.last()) + "\n"@
    }
}

/// The journal as text: one line per event, or a note that it is empty.
pub fn render_human(result: &JournalResult) -> (r: String)
    ensures
        result.events@.len() == 0 ==> r@ == "no journal events yet\n"@,
        result.events@.len() > 0 ==> r@ == event_lines(result.events@),
{
    if result.events.len() == 0 {
        return owned("no journal events yet\n");
    }
    let mut out = String::new();
    let mut i: usize = 0;
    while i < result.events.len()
        invariant
            i <= result.events.len(),
            out@ == event_lines(result.events@.take(i as int)),
        decreases result.events.len() - i,
    {
        assert(result.events@.take(i + 1).drop_last() =~= result.events@.take(i as int));
        push_str(&mut out, render_event_line(&result.events[i]).as_str());
        push_str(&mut out, "\n");
        i += 1;
    }
    assert(result.events@.take(result.events.len() as int) =~= result.events@);
    out
}

} // verus!
