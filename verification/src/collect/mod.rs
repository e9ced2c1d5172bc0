//! `bo collect`: the records, errors and decisions of the collect pipeline.
//!
//! Inputs are expanded (URL lists fan out, notes are recognised), deduplicated
//! against each other and against the tree state, computed and committed.
//! The library holds the classification, the deduplication plan, the item
//! records and their summary, and the text the CLI prints.
use vstd::prelude::*;

pub mod commit;
pub mod input;
pub mod note;
pub mod render;

use crate::text::{cat, cat3, clone_opt_string, owned, push_str, usize_to_string, decimal};
use crate::youtube::{youtube_error_text, YoutubeError};

verus! {

// ── errors ───────────────────────────────────────────────────────────────────

/// Errors of the pending-transaction layer, by kind, with their text.
#[derive(Debug)]
pub enum PendingError {
    TreeState(String),
    Busy(String),
    Other(String),
}

/// Errors specific to collecting a local markdown note.
#[derive(Debug)]
pub enum NoteError {
    Read { path: String, error: String },
    Empty { path: String },
    MalformedFrontmatter { path: String },
}

/// The error of the collect pipeline. Errors raised by fetching, extraction,
/// I/O and the tree state are carried as their text.
#[derive(Debug)]
pub enum CollectError {
    /// The URL has already been collected; holds the existing filename.
    DuplicateUrl { existing_file: String },
    Fetch(String),
    Extract(String),
    Youtube(YoutubeError),
    Rejected { url: String, reason: String },
    Io(String),
    TreeState(String),
    Pending(PendingError),
    Note(NoteError),
}

pub open spec fn note_error_text(e: NoteError) -> Seq<char> {
    match e {
        NoteError::Read { path, error } => "failed to read note "@ + path@ + ": "@ + error@,
        NoteError::Empty { path } => "note "@ + path@ + " has no content"@,
        NoteError::MalformedFrontmatter { path } => "note "@ + path@ + " has malformed frontmatter"@,
    }
}

pub open spec fn pending_error_text(e: PendingError) -> Seq<char> {
    match e {
        PendingError::TreeState(m) => m@,
        PendingError::Busy(m) => m@,
        PendingError::Other(m) => m@,
    }
}

/// What the error says to a user.
pub open spec fn collect_error_text(e: CollectError) -> Seq<char> {
    match e {
        CollectError::DuplicateUrl { existing_file } => "already collected \u{2192} "@ + existing_file@,
        CollectError::Fetch(m) => m@,
        CollectError::Extract(m) => m@,
        CollectError::Youtube(y) => youtube_error_text(y@),
        CollectError::Rejected { url, reason } => url@ + " was not collected: "@ + reason@,
        CollectError::Io(m) => "I/O error: "@ + m@,
        CollectError::TreeState(m) => m@,
        CollectError::Pending(p) => pending_error_text(p),
        CollectError::Note(n) => note_error_text(n),
    }
}

/// The machine-readable code of an error.
pub open spec fn collect_error_code(e: CollectError) -> Seq<char> {
    match e {
        CollectError::DuplicateUrl { .. } => "duplicate_url"@,
        CollectError::Rejected { .. } => "rejected"@,
        CollectError::Fetch(_) => "fetch_error"@,
        CollectError::Extract(_) => "extract_error"@,
        CollectError::Youtube(_) => "youtube_error"@,
        CollectError::Io(_) => "io_error"@,
        CollectError::TreeState(_) => "state_error"@,
        CollectError::Pending(PendingError::TreeState(_)) => "state_error"@,
        CollectError::Pending(PendingError::Busy(_)) => "tree_busy"@,
        CollectError::Pending(PendingError::Other(_)) => "pending_error"@,
        CollectError::Note(NoteError::Read { .. }) => "note_read_error"@,
        CollectError::Note(NoteError::Empty { .. }) => "empty_note"@,
        CollectError::Note(NoteError::MalformedFrontmatter { .. }) => "malformed_frontmatter"@,
    }
}

/// The machine-readable code of an error.
pub fn error_code(error: &CollectError) -> (r: &'static str)
    ensures
        r@ == collect_error_code(*error),
{
    match error {
        CollectError::DuplicateUrl { .. } => "duplicate_url",
        CollectError::Rejected { .. } => "rejected",
        CollectError::Fetch(_) => "fetch_error",
        CollectError::Extract(_) => "extract_error",
        CollectError::Youtube(_) => "youtube_error",
        CollectError::Io(_) => "io_error",
        CollectError::TreeState(_) => "state_error",
        CollectError::Pending(PendingError::TreeState(_)) => "state_error",
        CollectError::Pending(PendingError::Busy(_)) => "tree_busy",
        CollectError::Pending(PendingError::Other(_)) => "pending_error",
        CollectError::Note(NoteError::Read { .. }) => "note_read_error",
        CollectError::Note(NoteError::Empty { .. }) => "empty_note",
        CollectError::Note(NoteError::MalformedFrontmatter { .. }) => "malformed_frontmatter",
    }
}

impl NoteError {
    pub fn message(&self) -> (r: String)
        ensures
            r@ == note_error_text(*self),
    {
        match self {
            NoteError::Read { path, error } => {
                let mut s = cat3("failed to read note ", path.as_str(), ": ");
                push_str(&mut s, error.as_str());
                s
            },
            NoteError::Empty { path } => cat3("note ", path.as_str(), " has no content"),
            NoteError::MalformedFrontmatter { path } => cat3(
                "note ",
                path.as_str(),
                " has malformed frontmatter",
            ),
        }
    }
}

impl CollectError {
    /// The error as a user reads it.
    pub fn message(&self) -> (r: String)
        ensures
            r@ == collect_error_text(*self),
    {
        match self {
            CollectError::DuplicateUrl { existing_file } => cat(
                "already collected \u{2192} ",
                existing_file.as_str(),
            ),
            CollectError::Fetch(m) => m.clone(),
            CollectError::Extract(m) => m.clone(),
            CollectError::Youtube(y) => y.message(),
            CollectError::Rejected { url, reason } => cat3(
                url.as_str(),
                " was not collected: ",
                reason.as_str(),
            ),
            CollectError::Io(m) => cat("I/O error: ", m.as_str()),
            CollectError::TreeState(m) => m.clone(),
            CollectError::Pending(p) => match p {
                PendingError::TreeState(m) => m.clone(),
                PendingError::Busy(m) => m.clone(),
                PendingError::Other(m) => m.clone(),
            },
            CollectError::Note(n) => n.message(),
        }
    }
}

// ── results ──────────────────────────────────────────────────────────────────

#[derive(Debug, Clone)]
pub struct CollectResult {
    pub url: String,
    pub file: String,
    pub path: String,
}

#[derive(Debug, Clone, Copy, PartialEq, Eq, Structural)]
pub enum CollectItemStatus {
    Collected,
    Skipped,
    Failed,
}

#[derive(Debug, Clone)]
pub struct CollectItemResult {
    pub input: String,
    pub status: CollectItemStatus,
    pub url: Option<String>,
    pub file: Option<String>,
    pub path: Option<String>,
    pub code: Option<String>,
    pub message: Option<String>,
    pub existing_file: Option<String>,
    pub reason: Option<String>,
}

#[derive(Debug, Clone, Copy, PartialEq, Eq)]
pub struct BatchCollectSummary {
    pub total: usize,
    pub collected: usize,
    pub skipped: usize,
    pub failed: usize,
}

#[derive(Debug, Clone)]
pub struct BatchCollectResult {
    pub summary: BatchCollectSummary,
    pub items: Vec<CollectItemResult>,
}

#[derive(Debug, Clone)]
pub enum CollectOutput {
    Single(CollectResult),
    Batch(BatchCollectResult),
}

impl BatchCollectResult {
    /// Whether some input failed.
    pub fn has_failures(&self) -> (r: bool)
        ensures
            r == (self.summary.failed > 0),
    {
        self.summary.failed > 0
    }

    /// The message that reports failed inputs, e.g. `2 of 5 collect inputs failed`.
    pub fn failure_message(&self) -> (r: String)
        ensures
            r@ == decimal(self.summary.failed as nat) + " of "@ + decimal(self.summary.total as nat)
                + " collect inputs failed"@,
    {
        let mut s = cat(usize_to_string(self.summary.failed).as_str(), " of ");
        push_str(&mut s, usize_to_string(self.summary.total).as_str());
        push_str(&mut s, " collect inputs failed");
        s
    }
}

// ── item constructors ────────────────────────────────────────────────────────

/// The item of an input that was collected.
pub fn collect_success_item(input: &str, result: CollectResult) -> (r: CollectItemResult)
    ensures
        r.input@ == input@,
        r.status == CollectItemStatus::Collected,
        r.url == Some(result.url),
        r.file == Some(result.file),
        r.path == Some(result.path),
        r.code is None && r.message is None && r.existing_file is None && r.reason is None,
{
    CollectItemResult {
        input: owned(input),
        status: CollectItemStatus::Collected,
        url: Some(result.url),
        file: Some(result.file),
        path: Some(result.path),
        code: None,
        message: None,
        existing_file: None,
        reason: None,
    }
}

/// The item of an input that was skipped.
pub fn collect_skipped_item(
    input: &str,
    url: &str,
    code: &str,
    message: String,
    existing_file: Option<String>,
) -> (r: CollectItemResult)
    ensures
        r.input@ == input@,
        r.status == CollectItemStatus::Skipped,
        r.url matches Some(u) && u@ == url@,
        r.file is None && r.path is None && r.reason is None,
        r.code matches Some(c) && c@ == code@,
        r.message == Some(message),
        r.existing_file == existing_file,
{
    CollectItemResult {
        input: owned(input),
        status: CollectItemStatus::Skipped,
        url: Some(owned(url)),
        file: None,
        path: None,
        code: Some(owned(code)),
        message: Some(message),
        existing_file,
        reason: None,
    }
}

/// The item of an input that failed.
pub fn collect_failure_item(input: &str, url: Option<&str>, code: &str, message: String) -> (r:
    CollectItemResult)
    ensures
        r.input@ == input@,
        r.status == CollectItemStatus::Failed,
        match url {
            Some(u) => r.url matches Some(x) && x@ == u@,
            None => r.url is None,
        },
        r.file is None && r.path is None && r.existing_file is None && r.reason is None,
        r.code matches Some(c) && c@ == code@,
        r.message == Some(message),
{
    CollectItemResult {
        input: owned(input),
        status: CollectItemStatus::Failed,
        url: match url {
            Some(u) => Some(owned(u)),
            None => None,
        },
        file: None,
        path: None,
        code: Some(owned(code)),
        message: Some(message),
        existing_file: None,
        reason: None,
    }
}

/// The item of an input whose collection ended in `error`: a failure,
/// except that an already collected URL is skipped and names the existing
/// file, and a rejection carries its reason.
pub fn collect_item_from_error(input: &str, url: &str, error: &CollectError) -> (r: CollectItemResult)
    ensures
        r.input@ == input@,
        r.url matches Some(u) && u@ == url@,
        r.file is None && r.path is None,
        r.code matches Some(c) && c@ == collect_error_code(*error),
        r.message matches Some(m) && m@ == collect_error_text(*error),
        match error {
            CollectError::DuplicateUrl { existing_file } => r.status == CollectItemStatus::Skipped
                && r.existing_file == Some(*existing_file) && r.reason is None,
            CollectError::Rejected { reason, .. } => r.status == CollectItemStatus::Failed
                && r.existing_file is None && r.reason == Some(*reason),
            _ => r.status == CollectItemStatus::Failed && r.existing_file is None && r.reason is None,
        },
{
    let mut item = collect_failure_item(input, Some(url), error_code(error), error.message());
    match error {
        CollectError::DuplicateUrl { existing_file } => {
            item.status = CollectItemStatus::Skipped;
            item.existing_file = Some(existing_file.clone());
        },
        CollectError::Rejected { reason, .. } => {
            item.reason = Some(reason.clone());
        },
        _ => {},
    }
    item
}

// ── summary ──────────────────────────────────────────────────────────────────

/// How many items have the status.
pub open spec fn count_status(items: Seq<CollectItemResult>, s: CollectItemStatus) -> nat
    decreases items.len(),
{
    if items.len() == 0 {
        0
    } else {
        count_status(items.drop_last(), s) + if items.last().status == s { 1nat } else { 0nat }
    }
}

proof fn lemma_count_bound(items: Seq<CollectItemResult>, s: CollectItemStatus)
    ensures
        count_status(items, s) <= items.len(),
    decreases items.len(),
{
    if items.len() > 0 {
        lemma_count_bound(items.drop_last(), s);
    }
}

/// Every item has exactly one status, so the three counts add up to the
/// number of items.
pub proof fn lemma_counts_partition(items: Seq<CollectItemResult>)
    ensures
        count_status(items, CollectItemStatus::Collected) + count_status(items, CollectItemStatus::Skipped)
            + count_status(items, CollectItemStatus::Failed) == items.len(),
    decreases items.len(),
{
    if items.len() > 0 {
        lemma_counts_partition(items.drop_last());
    }
}

fn count_items(items: &[CollectItemResult], s: CollectItemStatus) -> (r: usize)
    ensures
        r == count_status(items@, s),
{
    let mut n: usize = 0;
    let mut i: usize = 0;
    while i < items.len()
        invariant
            i <= items.len(),
            n == count_status(items@.take(i as int), s),
        decreases items.len() - i,
    {
        assert(items@.take(i + 1).drop_last() =~= items@.take(i as int));
        proof {
            lemma_count_bound(items@.take(i as int), s);
        }
        if items[i].status == s {
            n = n + 1;
        }
        i += 1;
    }
    assert(items@.take(items.len() as int) =~= items@);
    n
}

/// The batch summary: how many items there are and how many have each status.
pub fn summarize_collect_items(items: &[CollectItemResult]) -> (r: BatchCollectSummary)
    ensures
        r.total == items.len(),
        r.collected == count_status(items@, CollectItemStatus::Collected),
        r.skipped == count_status(items@, CollectItemStatus::Skipped),
        r.failed == count_status(items@, CollectItemStatus::Failed),
        r.collected + r.skipped + r.failed == r.total,
{
    proof {
        lemma_counts_partition(items@);
    }
    BatchCollectSummary {
        total: items.len(),
        collected: count_items(items, CollectItemStatus::Collected),
        skipped: count_items(items, CollectItemStatus::Skipped),
        failed: count_items(items, CollectItemStatus::Failed),
    }
}

// ── outcomes ─────────────────────────────────────────────────────────────────

/// What the pipeline produced for one input, before it is shaped for output.
#[derive(Debug)]
pub enum Outcome {
    Collected { input: String, result: CollectResult },
    Errored { input: String, url: String, error: CollectError },
    Item(CollectItemResult),
}

fn clone_result(r: &CollectResult) -> (c: CollectResult)
    ensures
        c == *r,
{
    CollectResult { url: r.url.clone(), file: r.file.clone(), path: r.path.clone() }
}

fn clone_item(i: &CollectItemResult) -> (c: CollectItemResult)
    ensures
        c == *i,
{
    CollectItemResult {
        input: i.input.clone(),
        status: i.status,
        url: clone_opt_string(&i.url),
        file: clone_opt_string(&i.file),
        path: clone_opt_string(&i.path),
        code: clone_opt_string(&i.code),
        message: clone_opt_string(&i.message),
        existing_file: clone_opt_string(&i.existing_file),
        reason: clone_opt_string(&i.reason),
    }
}

/// The output item of an outcome.
pub fn shape_item(o: &Outcome) -> (r: CollectItemResult)
    ensures
        match o {
            Outcome::Collected { input, result } => r.input@ == input@ && r.status == CollectItemStatus::Collected
                && r.url == Some(result.url) && r.file == Some(result.file) && r.path == Some(result.path)
                && r.code is None && r.message is None && r.existing_file is None && r.reason is None,
            Outcome::Errored { input, url, error } => r.input@ == input@ && (r.url matches Some(u) && u@ == url@)
                && (r.code matches Some(c) && c@ == collect_error_code(*error))
                && (r.message matches Some(m) && m@ == collect_error_text(*error))
                && r.file is None && r.path is None
                && (error is DuplicateUrl ==> r.status == CollectItemStatus::Skipped)
                && (!(error is DuplicateUrl) ==> r.status == CollectItemStatus::Failed),
            Outcome::Item(item) => r == *item,
        },
{
    match o {
        Outcome::Collected { input, result } => collect_success_item(input.as_str(), clone_result(result)),
        Outcome::Errored { input, url, error } => collect_item_from_error(input.as_str(), url.as_str(), error),
        Outcome::Item(item) => clone_item(item),
    }
}

/// The result of a single bare URL: its collected result or its error.
pub fn shape_single(outcomes: Vec<Outcome>) -> (r: Result<CollectResult, CollectError>)
    requires
        outcomes.len() > 0,
        !(outcomes@[0] is Item),
    ensures
        match outcomes@[0] {
            Outcome::Collected { result, .. } => r == Ok::<CollectResult, CollectError>(result),
            Outcome::Errored { error, .. } => r == Err::<CollectResult, CollectError>(error),
            Outcome::Item(_) => false,
        },
{
    let mut outcomes = outcomes;
    let first = outcomes.remove(0);
    match first {
        Outcome::Collected { result, .. } => Ok(result),
        Outcome::Errored { error, .. } => Err(error),
        Outcome::Item(_) => Err(CollectError::Io(String::new())),
    }
}

// ── single documents ─────────────────────────────────────────────────────────

/// A document the collect pipeline wrote: its normalised URL and its file.
#[derive(Debug, Clone)]
pub struct Document {
    pub url: String,
    pub filename: String,
}

/// The item of a single URL collected into a file.
pub fn collected_item(input: &str, url: &str, file: &str) -> (r: CollectItemResult)
    ensures
        r.input@ == input@,
        r.status == CollectItemStatus::Collected,
        r.url matches Some(u) && u@ == url@,
        r.file matches Some(f) && f@ == file@,
        r.path is None && r.code is None && r.message is None && r.existing_file is None && r.reason is None,
{
    CollectItemResult {
        input: owned(input),
        status: CollectItemStatus::Collected,
        url: Some(owned(url)),
        file: Some(owned(file)),
        path: None,
        code: None,
        message: None,
        existing_file: None,
        reason: None,
    }
}

/// Where a URL goes: a supported YouTube video is collected from its
/// transcript, another YouTube URL is refused, anything else is fetched.
pub fn route_collect(url: &str) -> (r: Result<Option<crate::youtube::url::SupportedYoutubeUrl>, CollectError>)
    ensures
        match crate::youtube::url::classify_spec(crate::youtube::url::url_parse(url@)) {
            crate::youtube::url::UrlMatchView::NotYoutube => r matches Ok(None),
            crate::youtube::url::UrlMatchView::Supported { video_id, normalized_url } => r matches Ok(Some(s))
                && s@ == (video_id, normalized_url),
            crate::youtube::url::UrlMatchView::Unsupported { url: u, reason } => r matches Err(
                CollectError::Youtube(YoutubeError::UnsupportedUrl { url: x, reason: y }),
            ) && x@ == u && y@ == reason,
        },
{
    match crate::youtube::url::classify_url(url) {
        crate::youtube::url::YoutubeUrlMatch::NotYoutube => Ok(None),
        crate::youtube::url::YoutubeUrlMatch::Supported(s) => Ok(Some(s)),
        crate::youtube::url::YoutubeUrlMatch::Unsupported { url, reason } => Err(
            CollectError::Youtube(YoutubeError::UnsupportedUrl { url, reason }),
        ),
    }
}

/// A URL from outside the tree: not a `bo://` one.
pub open spec fn remote_url(o: Option<String>) -> bool {
    match o {
        Some(u) => !crate::text::starts_with(u@, "bo://"@),
        None => false,
    }
}

/// Some item came from outside the tree.
pub open spec fn involves_remote(items: Seq<CollectItemResult>) -> bool {
    exists|i: int| 0 <= i < items.len() && remote_url(#[trigger] items[i].url)
}

/// The model a collect's journal entry names: the summarising model, when
/// some item was fetched from outside the tree.
pub fn journal_model(items: &Vec<CollectItemResult>, model: &str) -> (r: Option<String>)
    ensures
        involves_remote(items@) ==> (r matches Some(m) && m@ == model@),
        !involves_remote(items@) ==> r is None,
{
    let mut i: usize = 0;
    while i < items.len()
        invariant
            i <= items.len(),
            forall|k: int| 0 <= k < i ==> !remote_url(#[trigger] items@[k].url),
        decreases items.len() - i,
    {
        match &items[i].url {
            Some(u) => {
                if !crate::text::starts_with_str(u.as_str(), "bo://") {
                    assert(remote_url(items@[i as int].url));
                    return Some(owned(model));
                }
            },
            None => {},
        }
        i += 1;
    }
    None
}

} // verus!
