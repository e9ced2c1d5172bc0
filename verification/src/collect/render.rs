//! Human-readable collect output.
use vstd::prelude::*;

use super::{BatchCollectResult, CollectItemResult, CollectItemStatus, CollectResult};
use crate::text::{decimal, push_str, usize_to_string};

verus! {

/// The line for a collected URL.
pub open spec fn collected_line(url: Seq<char>, file: Seq<char>) -> Seq<char> {
    "\u{2713} collected: "@ + url + " \u{2192} "@ + file + "\n"@
}

/// The line a single collect prints.
pub fn render_human(result: &CollectResult) -> (r: String)
    ensures
        r@ == collected_line(result.url@, result.file@),
{
    let mut s = crate::text::owned("\u{2713} collected: ");
    push_str(&mut s, result.url.as_str());
    push_str(&mut s, " \u{2192} ");
    push_str(&mut s, result.file.as_str());
    push_str(&mut s, "\n");
    s
}

pub open spec fn or_text(o: Option<String>, d: Seq<char>) -> Seq<char> {
    match o {
        Some(s) => s@,
        None => d,
    }
}

/// The line of one batch item: what it was collected as, or why not.
pub open spec fn item_line(item: CollectItemResult) -> Seq<char> {
    let label = or_text(item.url, item.input@);
    match item.status {
        CollectItemStatus::Collected => collected_line(label, or_text(item.file, ""@)),
        CollectItemStatus::Skipped => "\u{21b7} skipped: "@ + label + " ("@ + or_text(item.message, "skipped"@)
            + ")\n"@,
        CollectItemStatus::Failed => "\u{2717} failed: "@ + label + " ("@ + or_text(item.message, "failed"@)
            + ")\n"@,
    }
}

pub open spec fn item_lines(items: Seq<CollectItemResult>) -> Seq<char>
    decreases items.len(),
{
    if items.len() == 0 {
        seq![]
    } else {
        item_lines(items.drop_last()) + item_line(items.last())
    }
}

/// What a batch collect prints: a line per item, then the counts.
pub open spec fn batch_text(r: BatchCollectResult) -> Seq<char> {
    item_lines(r.items@) + "collect summary: "@ + decimal(r.summary.collected as nat) + " collected, "@
        + decimal(r.summary.skipped as nat) + " skipped, "@ + decimal(r.summary.failed as nat)
        + " failed\n"@
}

fn opt_or<'a>(o: &'a Option<String>, d: &'a str) -> (r: &'a str)
    ensures
        r@ == or_text(*o, d@),
{
    match o {
        Some(s) => s.as_str(),
        None => d,
    }
}

fn push_item_line(out: &mut String, item: &CollectItemResult)
    ensures
        final(out)@ == old(out)@ + item_line(*item),
{
    let label = opt_or(&item.url, item.input.as_str());
    match item.status {
        CollectItemStatus::Collected => {
            push_str(out, "\u{2713} collected: ");
            push_str(out, label);
            push_str(out, " \u{2192} ");
            push_str(out, opt_or(&item.file, ""));
            push_str(out, "\n");
        },
        CollectItemStatus::Skipped => {
            push_str(out, "\u{21b7} skipped: ");
            push_str(out, label);
            push_str(out, " (");
            push_str(out, opt_or(&item.message, "skipped"));
            push_str(out, ")\n");
        },
        CollectItemStatus::Failed => {
            push_str(out, "\u{2717} failed: ");
            push_str(out, label);
            push_str(out, " (");
            push_str(out, opt_or(&item.message, "failed"));
            push_str(out, ")\n");
        },
    }
}

/// The lines a batch collect prints.
pub fn render_batch_human(result: &BatchCollectResult) -> (r: String)
    ensures
        r@ == batch_text(*result),
{
    let mut out = String::new();
    let mut i: usize = 0;
    while i < result.items.len()
        invariant
            i <= result.items.len(),
            out@ == item_lines(result.items@.take(i as int)),
        decreases result.items.len() - i,
    {
        assert(result.items@.take(i + 1).drop_last() =~= result.items@.take(i as int));
        assert(result.items@.take(i + 1).last() == result.items@[i as int]);
        push_item_line(&mut out, &result.items[i]);
        i += 1;
    }
    assert(result.items@.take(result.items.len() as int) =~= result.items@);
    push_str(&mut out, "collect summary: ");
    push_str(&mut out, usize_to_string(result.summary.collected).as_str());
    push_str(&mut out, " collected, ");
    push_str(&mut out, usize_to_string(result.summary.skipped).as_str());
    push_str(&mut out, " skipped, ");
    push_str(&mut out, usize_to_string(result.summary.failed).as_str());
    push_str(&mut out, " failed\n");
    out
}

} // verus!
