//! `bo show`: one collected leaf, found by its title.
//!
//! Resolving a leaf's path and reading its file are the caller's part: it
//! hands in, for each leaf of the state, the path shown and what reading
//! gave.
use vstd::prelude::*;

use crate::text::{cat, cat3, chars_of, ends_with, ends_with_chars, find_chars, lowercase, occurs_at, owned, push, push_str, slice_chars, starts_with, starts_with_chars, str_eq, string_of, to_lowercase, trim, is_blank_str};
use crate::tree::{Leaf, LeafView, TreeState};
use crate::youtube::url::{opt_view, parse_url, url_parse};

verus! {

// ── the leaf document ────────────────────────────────────────────────────────

/// The first position at or after `i` where `p` occurs in `s`.
pub open spec fn first_at(s: Seq<char>, p: Seq<char>, i: int) -> Option<int>
    decreases s.len() + 1 - i,
{
    if i < 0 || i > s.len() {
        None
    } else if occurs_at(s, p, i) {
        Some(i)
    } else {
        first_at(s, p, i + 1)
    }
}

pub proof fn lemma_first_at(s: Seq<char>, p: Seq<char>, k: int)
    requires
        0 <= k <= s.len() + 1,
        forall|j: int| 0 <= j < k ==> !occurs_at(s, p, j),
    ensures
        first_at(s, p, 0) == first_at(s, p, k),
    decreases k,
{
    if k > 0 {
        lemma_first_at(s, p, k - 1);
    }
}

/// Where the frontmatter closes: the delimiter's length and its position
/// in the text after the opening `---\n`.
pub open spec fn closing(after: Seq<char>) -> Option<(int, int)> {
    match first_at(after, "\n---\n"@, 0) {
        Some(pos) => Some((5, pos)),
        None => if ends_with(after, "\n---"@) {
            Some((4, after.len() - 4))
        } else if starts_with(after, "---\n"@) {
            Some((4, 0))
        } else if after == "---"@ {
            Some((3, 0))
        } else {
            None
        },
    }
}

/// What serde_yaml_ng makes of a frontmatter text read as a mapping: the
/// parse error's message, or the string values of `title` and `url`.
pub uninterp spec fn yaml_title_url(text: Seq<char>) -> Result<(Option<Seq<char>>, Option<Seq<char>>), Seq<char>>;

pub open spec fn yaml_view(r: Result<(Option<String>, Option<String>), String>) -> Result<
    (Option<Seq<char>>, Option<Seq<char>>),
    Seq<char>,
> {
    match r {
        Ok((t, u)) => Ok((opt_view(t), opt_view(u))),
        Err(e) => Err(e@),
    }
}

/// Calls `serde_yaml_ng::from_str::<Mapping>` and reads the string values
/// of `title` and `url`. The contract only names the result: it depends on
/// the text alone.
#[verifier::external_body]
fn parse_yaml_title_url(text: &str) -> (r: Result<(Option<String>, Option<String>), String>)
    ensures
        yaml_view(r) == yaml_title_url(text@),
{
    match serde_yaml_ng::from_str::<serde_yaml_ng::Mapping>(text) {
        Err(e) => Err(e.to_string()),
        Ok(m) => Ok((
            match m.get("title") { Some(serde_yaml_ng::Value::String(s)) => Some(s.clone()), _ => None },
            match m.get("url") { Some(serde_yaml_ng::Value::String(s)) => Some(s.clone()), _ => None },
        )),
    }
}

/// A leaf file taken apart: the frontmatter's title and URL, the raw
/// frontmatter with its delimiters, and the body.
#[derive(Debug, Clone)]
pub struct LeafDocument {
    pub title: Option<String>,
    pub url: Option<String>,
    pub frontmatter_raw: String,
    pub body: String,
}

pub struct DocView {
    pub title: Option<Seq<char>>,
    pub url: Option<Seq<char>>,
    pub raw: Seq<char>,
    pub body: Seq<char>,
}

pub open spec fn doc_view(d: LeafDocument) -> DocView {
    DocView { title: opt_view(d.title), url: opt_view(d.url), raw: d.frontmatter_raw@, body: d.body@ }
}

/// One leading newline dropped, when there is one.
pub open spec fn drop_newline(s: Seq<char>) -> Seq<char> {
    if s.len() > 0 && s[0] == '\n' {
        s.skip(1)
    } else {
        s
    }
}

/// How a leaf file divides: a file without the opening `---\n` is all
/// body; one with it needs a closing delimiter and frontmatter that parses;
/// the body loses up to two leading newlines.
pub open spec fn document_spec(content: Seq<char>) -> Result<DocView, Seq<char>> {
    if !starts_with(content, "---\n"@) {
        Ok(DocView { title: None, url: None, raw: seq![], body: content })
    } else {
        let after = content.skip(4);
        match closing(after) {
            None => Err("no frontmatter delimiters found"@),
            Some((dlen, pos)) => match yaml_title_url(after.take(pos)) {
                Err(e) => Err(e),
                Ok((t, u)) => {
                    let raw_end = 4 + pos + dlen;
                    Ok(
                        DocView {
                            title: t,
                            url: u,
                            raw: content.take(raw_end),
                            body: drop_newline(drop_newline(content.skip(raw_end))),
                        },
                    )
                },
            },
        }
    }
}

fn drop_newline_exec(v: &[char]) -> (r: Vec<char>)
    ensures
        r@ == drop_newline(v@),
{
    if v.len() > 0 && v[0] == '\n' {
        let r = slice_chars(v, 1, v.len());
        assert(r@ =~= v@.skip(1));
        r
    } else {
        let r = slice_chars(v, 0, v.len());
        assert(r@ =~= v@);
        r
    }
}

/// Where the frontmatter closes in the text after the opening `---\n`.
fn closing_exec(after: &Vec<char>) -> (r: Option<(usize, usize)>)
    ensures
        match closing(after@) {
            None => r is None,
            Some((d, p)) => r matches Some((x, y)) && x == d && y == p && p + d <= after@.len(),
        },
{
    let open = chars_of("---\n");
    let mid = chars_of("\n---\n");
    let tail = chars_of("\n---");
    let bare = chars_of("---");
    proof {
        reveal_strlit("---\n");
        reveal_strlit("\n---\n");
        reveal_strlit("\n---");
        reveal_strlit("---");
    }
    match find_chars(after, &mid) {
        Some(p) => {
            proof {
                lemma_first_at(after@, mid@, p as int);
            }
            Some((5, p))
        },
        None => {
            proof {
                lemma_first_at(after@, mid@, after@.len() as int + 1);
            }
            if ends_with_chars(after, &tail) {
                Some((4, after.len() - 4))
            } else if starts_with_chars(after, &open) {
                Some((4, 0))
            } else if crate::text::seq_eq(after, &bare) {
                Some((3, 0))
            } else {
                None
            }
        },
    }
}

/// Takes a leaf file apart.
pub fn parse_leaf_document(content: &str) -> (r: Result<LeafDocument, String>)
    ensures
        match document_spec(content@) {
            Ok(d) => r matches Ok(x) && doc_view(x) == d,
            Err(m) => r matches Err(e) && e@ == m,
        },
{
    let c = chars_of(content);
    let open = chars_of("---\n");
    proof {
        reveal_strlit("---\n");
    }
    if !starts_with_chars(&c, &open) {
        return Ok(LeafDocument { title: None, url: None, frontmatter_raw: String::new(), body: owned(content) });
    }
    let after = slice_chars(&c, 4, c.len());
    assert(after@ =~= c@.skip(4));
    let (dlen, pos): (usize, usize) = match closing_exec(&after) {
        Some(x) => x,
        None => {
            return Err(owned("no frontmatter delimiters found"));
        },
    };
    assert(closing(after@) == Some((dlen as int, pos as int)));
    let fm_text = string_of(&slice_chars(&after, 0, pos));
    assert(fm_text@ =~= after@.take(pos as int));
    let (title, url) = match parse_yaml_title_url(fm_text.as_str()) {
        Err(e) => {
            return Err(e);
        },
        Ok(f) => f,
    };
    let raw_end: usize = 4 + pos + dlen;
    let raw = slice_chars(&c, 0, raw_end);
    assert(raw@ =~= c@.take(raw_end as int));
    let rest = slice_chars(&c, raw_end, c.len());
    assert(rest@ =~= c@.skip(raw_end as int));
    let once = drop_newline_exec(&rest);
    let twice = drop_newline_exec(&once);
    Ok(LeafDocument { title, url, frontmatter_raw: string_of(&raw), body: string_of(&twice) })
}

/// What `serde_yaml_ng::from_str::<Mapping>` makes of a frontmatter block:
/// `None` when it does not parse, else the string values of `title` and
/// `collected_at`.
pub uninterp spec fn yaml_title_collected(text: Seq<char>) -> Option<(Option<Seq<char>>, Option<Seq<char>>)>;

pub open spec fn opt_pair_view(r: Option<(Option<String>, Option<String>)>) -> Option<
    (Option<Seq<char>>, Option<Seq<char>>),
> {
    match r {
        Some((t, c)) => Some((opt_view(t), opt_view(c))),
        None => None,
    }
}

/// Calls `serde_yaml_ng::from_str::<Mapping>` and reads the string values
/// of `title` and `collected_at`. The contract only names the result: it
/// depends on the text alone.
#[verifier::external_body]
fn parse_yaml_title_collected_at(text: &str) -> (r: Option<(Option<String>, Option<String>)>)
    ensures
        opt_pair_view(r) == yaml_title_collected(text@),
{
    match serde_yaml_ng::from_str::<serde_yaml_ng::Mapping>(text) {
        Err(_) => None,
        Ok(m) => Some((
            match m.get("title") { Some(serde_yaml_ng::Value::String(s)) => Some(s.clone()), _ => None },
            match m.get("collected_at") { Some(serde_yaml_ng::Value::String(s)) => Some(s.clone()), _ => None },
        )),
    }
}

/// A leaf file's frontmatter as search reads it: the `title` and
/// `collected_at` of a block that closes and parses, and the body after it
/// (split as [`document_spec`] splits); `None` when there is no such block.
pub open spec fn leaf_frontmatter_spec(content: Seq<char>) -> Option<(Option<Seq<char>>, Option<Seq<char>>, Seq<char>)> {
    if !starts_with(content, "---\n"@) {
        None
    } else {
        let after = content.skip(4);
        match closing(after) {
            None => None,
            Some((dlen, pos)) => match yaml_title_collected(after.take(pos)) {
                None => None,
                Some((t, c)) => Some((t, c, drop_newline(drop_newline(content.skip(4 + pos + dlen))))),
            },
        }
    }
}

pub open spec fn frontmatter_view(r: Option<(Option<String>, Option<String>, String)>) -> Option<
    (Option<Seq<char>>, Option<Seq<char>>, Seq<char>),
> {
    match r {
        Some((t, c, b)) => Some((opt_view(t), opt_view(c), b@)),
        None => None,
    }
}

/// Reads a leaf file's frontmatter for search.
pub fn leaf_frontmatter(content: &str) -> (r: Option<(Option<String>, Option<String>, String)>)
    ensures
        frontmatter_view(r) == leaf_frontmatter_spec(content@),
{
    let c = chars_of(content);
    let open = chars_of("---\n");
    proof {
        reveal_strlit("---\n");
    }
    if !starts_with_chars(&c, &open) {
        return None;
    }
    let after = slice_chars(&c, 4, c.len());
    assert(after@ =~= c@.skip(4));
    let (dlen, pos): (usize, usize) = match closing_exec(&after) {
        Some(x) => x,
        None => {
            return None;
        },
    };
    let fm_text = string_of(&slice_chars(&after, 0, pos));
    assert(fm_text@ =~= after@.take(pos as int));
    let (title, collected_at) = match parse_yaml_title_collected_at(fm_text.as_str()) {
        None => {
            return None;
        },
        Some(f) => f,
    };
    let raw_end: usize = 4 + pos + dlen;
    let rest = slice_chars(&c, raw_end, c.len());
    assert(rest@ =~= c@.skip(raw_end as int));
    let once = drop_newline_exec(&rest);
    let twice = drop_newline_exec(&once);
    Some((title, collected_at, string_of(&twice)))
}

// ── candidates ───────────────────────────────────────────────────────────────

/// A leaf as a candidate for the title: its file, title, path and URL.
#[derive(Debug, Clone, PartialEq, Eq)]
pub struct ShowCandidateSummary {
    pub file: String,
    pub title: String,
    pub path: String,
    pub url: Option<String>,
}

pub struct SummaryView {
    pub file: Seq<char>,
    pub title: Seq<char>,
    pub path: Seq<char>,
    pub url: Option<Seq<char>>,
}

pub open spec fn summary_view(c: ShowCandidateSummary) -> SummaryView {
    SummaryView { file: c.file@, title: c.title@, path: c.path@, url: opt_view(c.url) }
}

pub open spec fn summaries_view(v: Seq<ShowCandidateSummary>) -> Seq<SummaryView> {
    v.map_values(|c: ShowCandidateSummary| summary_view(c))
}

#[derive(Debug)]
pub enum ShowError {
    Io(String),
    TreeState(String),
    NotFound { title: String },
    Ambiguous { title: String, candidates: Vec<ShowCandidateSummary> },
    SuspiciousPath { file: String },
    MissingFile { file: String },
    UnreadableFile { file: String, source: String },
    InvalidFrontmatter { file: String, reason: String },
}

/// One candidate's line in an ambiguity message.
pub open spec fn candidate_line(c: SummaryView) -> Seq<char> {
    "\n- "@ + c.title + " ("@ + c.file + ")"@ + (if c.path.len() > 0 { " at "@ + c.path } else { seq![] }) + match c.url {
        Some(u) => " \u{2014} "@ + u,
        None => seq![],
    }
}

pub open spec fn candidate_lines(cs: Seq<SummaryView>) -> Seq<char>
    decreases cs.len(),
{
    if cs.len() == 0 {
        seq![]
    } else {
        candidate_lines(cs.drop_last()) + candidate_line(cs.last())
    }
}

pub open spec fn show_error_text(e: ShowError) -> Seq<char> {
    match e {
        ShowError::Io(m) => "I/O error: "@ + m@,
        ShowError::TreeState(m) => m@,
        ShowError::NotFound { title } => "leaf title '"@ + title@ + "' not found; run `bo list` to inspect available leaves"@,
        ShowError::Ambiguous { title, candidates } => "leaf title '"@ + title@ + "' is ambiguous; matches:"@
            + candidate_lines(summaries_view(candidates@)),
        ShowError::SuspiciousPath { file } => "cannot show '"@ + file@ + "': suspicious path"@,
        ShowError::MissingFile { file } => "cannot show '"@ + file@
            + "': file is missing \u{2014} the file was deleted or moved.\nrun `bo synthesize` to clean up the stale state record."@,
        ShowError::UnreadableFile { file, source } => "cannot show '"@ + file@ + "': unreadable file: "@ + source@,
        ShowError::InvalidFrontmatter { file, reason } => "cannot show '"@ + file@ + "': invalid frontmatter: "@
            + reason@,
    }
}

pub open spec fn show_error_code(e: ShowError) -> Seq<char> {
    match e {
        ShowError::NotFound { .. } => "not_found"@,
        ShowError::Ambiguous { .. } => "ambiguous"@,
        ShowError::Io(_) => "io_error"@,
        ShowError::TreeState(_) => "state_error"@,
        ShowError::SuspiciousPath { .. } => "suspicious_path"@,
        ShowError::MissingFile { .. } => "not_found"@,
        ShowError::InvalidFrontmatter { .. } => "validation_error"@,
        ShowError::UnreadableFile { .. } => "io_error"@,
    }
}

impl ShowError {
    /// The error's code in a JSON error envelope.
    pub fn code(&self) -> (r: &'static str)
        ensures
            r@ == show_error_code(*self),
    {
        match self {
            ShowError::NotFound { .. } => "not_found",
            ShowError::Ambiguous { .. } => "ambiguous",
            ShowError::Io(_) => "io_error",
            ShowError::TreeState(_) => "state_error",
            ShowError::SuspiciousPath { .. } => "suspicious_path",
            ShowError::MissingFile { .. } => "not_found",
            ShowError::InvalidFrontmatter { .. } => "validation_error",
            ShowError::UnreadableFile { .. } => "io_error",
        }
    }

    /// The error as a user reads it.
    pub fn message(&self) -> (r: String)
        ensures
            r@ == show_error_text(*self),
    {
        match self {
            ShowError::Io(m) => cat("I/O error: ", m.as_str()),
            ShowError::TreeState(m) => m.clone(),
            ShowError::NotFound { title } => cat3(
                "leaf title '",
                title.as_str(),
                "' not found; run `bo list` to inspect available leaves",
            ),
            ShowError::Ambiguous { title, candidates } => {
                let mut out = cat3("leaf title '", title.as_str(), "' is ambiguous; matches:");
                let ghost cv = summaries_view(candidates@);
                let ghost base = out@;
                let mut i: usize = 0;
                while i < candidates.len()
                    invariant
                        i <= candidates.len(),
                        cv == summaries_view(candidates@),
                        out@ == base + candidate_lines(cv.take(i as int)),
                    decreases candidates.len() - i,
                {
                    assert(cv.take(i + 1).drop_last() =~= cv.take(i as int));
                    assert(cv.take(i + 1).last() == summary_view(candidates@[i as int]));
                    let c = &candidates[i];
                    let ghost before = out@;
                    push_str(&mut out, "\n- ");
                    push_str(&mut out, c.title.as_str());
                    push_str(&mut out, " (");
                    push_str(&mut out, c.file.as_str());
                    push_str(&mut out, ")");
                    let ghost mid = out@;
                    if !c.path.as_str().is_empty() {
                        push_str(&mut out, " at ");
                        push_str(&mut out, c.path.as_str());
                    }
                    assert(out@ == mid + (if c.path@.len() > 0 { " at "@ + c.path@ } else { seq![] }));
                    let ghost mid2 = out@;
                    match &c.url {
                        Some(u) => {
                            push_str(&mut out, " \u{2014} ");
                            push_str(&mut out, u.as_str());
                        },
                        None => {},
                    }
                    assert(out@ == mid2 + match opt_view(c.url) {
                        Some(u) => " \u{2014} "@ + u,
                        None => seq![],
                    });
                    assert(out@ =~= before + candidate_line(summary_view(*c)));
                    i += 1;
                }
                assert(cv.take(candidates.len() as int) =~= cv);
                out
            },
            ShowError::SuspiciousPath { file } => cat3("cannot show '", file.as_str(), "': suspicious path"),
            ShowError::MissingFile { file } => cat3(
                "cannot show '",
                file.as_str(),
                "': file is missing \u{2014} the file was deleted or moved.\nrun `bo synthesize` to clean up the stale state record.",
            ),
            ShowError::UnreadableFile { file, source } => {
                let mut m = cat3("cannot show '", file.as_str(), "': unreadable file: ");
                push_str(&mut m, source.as_str());
                m
            },
            ShowError::InvalidFrontmatter { file, reason } => {
                let mut m = cat3("cannot show '", file.as_str(), "': invalid frontmatter: ");
                push_str(&mut m, reason.as_str());
                m
            },
        }
    }
}

/// What resolving and reading a leaf's file gave.
#[derive(Debug)]
pub enum LeafFileOutcome {
    /// The path could leave the tree.
    Suspicious,
    /// The file does not exist.
    Missing,
    /// The file could not be read, for this reason.
    Unreadable(String),
    /// The file's text.
    Content(String),
}

/// A leaf loaded for showing: its summary, raw frontmatter and body.
#[derive(Debug, Clone)]
pub struct LoadedShowLeaf {
    pub summary: ShowCandidateSummary,
    pub frontmatter_raw: String,
    pub body: String,
}

/// A candidate: loaded, or broken with the error showing it would give.
#[derive(Debug)]
pub enum CandidateLoad {
    Loaded(LoadedShowLeaf),
    Broken { summary: ShowCandidateSummary, error: ShowError },
}

impl CandidateLoad {
    /// The candidate's summary.
    pub fn summary(self) -> (r: ShowCandidateSummary)
        ensures
            r == match self {
                CandidateLoad::Loaded(l) => l.summary,
                CandidateLoad::Broken { summary, .. } => summary,
            },
    {
        match self {
            CandidateLoad::Loaded(l) => l.summary,
            CandidateLoad::Broken { summary, .. } => summary,
        }
    }
}

/// The title a frontmatter gives, when it is not blank.
pub open spec fn fm_title(t: Option<Seq<char>>) -> Option<Seq<char>> {
    match t {
        Some(x) if trim(x).len() > 0 => Some(x),
        _ => None,
    }
}

/// The URL a frontmatter gives, as the URL parser writes it, when it parses.
pub open spec fn fm_url(u: Option<Seq<char>>) -> Option<Seq<char>> {
    match u {
        Some(x) => match url_parse(x) {
            Some(parts) => Some(parts.4),
            None => None,
        },
        None => None,
    }
}

/// The title a candidate goes by.
pub open spec fn candidate_title(c: CandidateLoad) -> Seq<char> {
    match c {
        CandidateLoad::Loaded(l) => l.summary.title@,
        CandidateLoad::Broken { summary, .. } => summary.title@,
    }
}

pub open spec fn candidate_summary(c: CandidateLoad) -> SummaryView {
    match c {
        CandidateLoad::Loaded(l) => summary_view(l.summary),
        CandidateLoad::Broken { summary, .. } => summary_view(summary),
    }
}

/// The state's title of a leaf, or nothing.
pub open spec fn fallback_title(l: LeafView) -> Seq<char> {
    match l.title {
        Some(t) => t,
        None => seq![],
    }
}

/// A candidate as loading gives it: a suspicious path, a missing or
/// unreadable file or a file that does not divide is broken, with the
/// state's title and URL; otherwise its title is the frontmatter's (or the
/// state's), its URL the frontmatter's (or the state's).
pub open spec fn candidate_ok(l: LeafView, path: Seq<char>, outcome: LeafFileOutcome, c: CandidateLoad) -> bool {
    let broken_at = |p: Seq<char>| SummaryView { file: l.file, title: fallback_title(l), path: p, url: Some(l.url) };
    match outcome {
        LeafFileOutcome::Suspicious => c matches CandidateLoad::Broken { summary, error: ShowError::SuspiciousPath { file } }
            && summary_view(summary) == broken_at(l.file) && file@ == l.file,
        LeafFileOutcome::Missing => c matches CandidateLoad::Broken { summary, error: ShowError::MissingFile { file } }
            && summary_view(summary) == broken_at(path) && file@ == l.file,
        LeafFileOutcome::Unreadable(e) => c matches CandidateLoad::Broken {
            summary,
            error: ShowError::UnreadableFile { file, source },
        } && summary_view(summary) == broken_at(path) && file@ == l.file && source@ == e@,
        LeafFileOutcome::Content(text) => match document_spec(text@) {
            Err(m) => c matches CandidateLoad::Broken { summary, error: ShowError::InvalidFrontmatter { file, reason } }
                && summary_view(summary) == broken_at(path) && file@ == l.file && reason@ == m,
            Ok(d) => c matches CandidateLoad::Loaded(x) && summary_view(x.summary) == (SummaryView {
                file: l.file,
                title: match fm_title(d.title) {
                    Some(t) => t,
                    None => fallback_title(l),
                },
                path,
                url: match fm_url(d.url) {
                    Some(u) => Some(u),
                    None => Some(l.url),
                },
            }) && x.frontmatter_raw@ == d.raw && x.body@ == d.body,
        },
    }
}

fn clone_summary(c: &ShowCandidateSummary) -> (r: ShowCandidateSummary)
    ensures
        r == *c,
{
    ShowCandidateSummary {
        file: c.file.clone(),
        title: c.title.clone(),
        path: c.path.clone(),
        url: crate::text::clone_opt_string(&c.url),
    }
}

/// Loads one leaf as a candidate; `path` is where its file resolved.
pub fn load_candidate(leaf: &Leaf, path: &str, outcome: LeafFileOutcome) -> (r: CandidateLoad)
    ensures
        candidate_ok(leaf@, path@, outcome, r),
{
    let fallback = match &leaf.title {
        Some(t) => t.clone(),
        None => String::new(),
    };
    let unresolved = ShowCandidateSummary {
        file: leaf.file.clone(),
        title: clone_str(&fallback),
        path: leaf.file.clone(),
        url: Some(leaf.url.clone()),
    };
    let at_path = ShowCandidateSummary {
        file: leaf.file.clone(),
        title: fallback,
        path: owned(path),
        url: Some(leaf.url.clone()),
    };
    match outcome {
        LeafFileOutcome::Suspicious => CandidateLoad::Broken {
            summary: unresolved,
            error: ShowError::SuspiciousPath { file: leaf.file.clone() },
        },
        LeafFileOutcome::Missing => CandidateLoad::Broken {
            summary: at_path,
            error: ShowError::MissingFile { file: leaf.file.clone() },
        },
        LeafFileOutcome::Unreadable(e) => CandidateLoad::Broken {
            summary: at_path,
            error: ShowError::UnreadableFile { file: leaf.file.clone(), source: e },
        },
        LeafFileOutcome::Content(text) => match parse_leaf_document(text.as_str()) {
            Err(reason) => CandidateLoad::Broken {
                summary: at_path,
                error: ShowError::InvalidFrontmatter { file: leaf.file.clone(), reason },
            },
            Ok(doc) => {
                let title = match &doc.title {
                    Some(t) => if is_blank_str(t.as_str()) {
                        at_path.title
                    } else {
                        t.clone()
                    },
                    None => at_path.title,
                };
                let url = match &doc.url {
                    Some(u) => match parse_url(u.as_str()) {
                        Some(parts) => Some(parts.serialized),
                        None => Some(leaf.url.clone()),
                    },
                    None => Some(leaf.url.clone()),
                };
                CandidateLoad::Loaded(
                    LoadedShowLeaf {
                        summary: ShowCandidateSummary { file: leaf.file.clone(), title, path: at_path.path, url },
                        frontmatter_raw: doc.frontmatter_raw,
                        body: doc.body,
                    },
                )
            },
        },
    }
}

fn clone_str(s: &String) -> (r: String)
    ensures
        r == *s,
{
    s.clone()
}

// ── showing ──────────────────────────────────────────────────────────────────

/// What showing a leaf gives: its title, file, path and URL, its raw
/// frontmatter, and its body when the whole leaf was asked for.
#[derive(Debug, Clone)]
pub struct ShowResult {
    pub title: String,
    pub file: String,
    pub path: String,
    pub url: Option<String>,
    pub frontmatter_raw: String,
    pub body: Option<String>,
    pub full: bool,
}

/// The result for a loaded leaf.
pub fn build_result(leaf: LoadedShowLeaf, full: bool) -> (r: ShowResult)
    ensures
        r.title == leaf.summary.title && r.file == leaf.summary.file && r.path == leaf.summary.path,
        r.url == leaf.summary.url && r.frontmatter_raw == leaf.frontmatter_raw,
        r.body == (if full { Some(leaf.body) } else { None }),
        r.full == full,
{
    ShowResult {
        title: leaf.summary.title,
        file: leaf.summary.file,
        path: leaf.summary.path,
        url: leaf.summary.url,
        frontmatter_raw: leaf.frontmatter_raw,
        body: if full { Some(leaf.body) } else { None },
        full,
    }
}

/// The candidates whose title matches, ignoring case.
pub open spec fn matching(cs: Seq<CandidateLoad>, title: Seq<char>) -> Seq<CandidateLoad>
    decreases cs.len(),
{
    if cs.len() == 0 {
        seq![]
    } else {
        let prev = matching(cs.drop_last(), title);
        if lowercase(candidate_title(cs.last())) == lowercase(title) {
            prev.push(cs.last())
        } else {
            prev
        }
    }
}

/// The answer for the matching candidates: none is not found, one is shown
/// (or its error given), several are ambiguous.
pub open spec fn picked(ms: Seq<CandidateLoad>, title: Seq<char>, full: bool, r: Result<ShowResult, ShowError>) -> bool {
    if ms.len() == 0 {
        r matches Err(ShowError::NotFound { title: t }) && t@ == title
    } else if ms.len() == 1 {
        match ms[0] {
            CandidateLoad::Loaded(l) => r matches Ok(res) && res.title == l.summary.title && res.file == l.summary.file
                && res.path == l.summary.path && res.url == l.summary.url && res.frontmatter_raw == l.frontmatter_raw
                && res.body == (if full { Some(l.body) } else { None }) && res.full == full,
            CandidateLoad::Broken { error, .. } => r == Err::<ShowResult, ShowError>(error),
        }
    } else {
        r matches Err(ShowError::Ambiguous { title: t, candidates }) && t@ == title && summaries_view(candidates@)
            == ms.map_values(|c: CandidateLoad| candidate_summary(c))
    }
}

/// How reading the state went.
#[derive(Debug)]
pub enum ShowLoad {
    Loaded(TreeState),
    /// The tree is seeded but holds nothing yet.
    FreshSeeded,
    /// The state is missing or unreadable: the error's text.
    Failed(String),
}

/// Shows the leaf with the given title. `reads[i]` is where the `i`-th
/// leaf's file resolved and what reading it gave.
pub fn show_leaf(title: &str, full: bool, load: ShowLoad, reads: Vec<(String, LeafFileOutcome)>) -> (r: Result<
    ShowResult,
    ShowError,
>)
    requires
        load matches ShowLoad::Loaded(s) ==> reads@.len() == s.leaves@.len(),
    ensures
        title@.len() == 0 ==> (r matches Err(ShowError::NotFound { title: t }) && t@ == title@),
        title@.len() > 0 ==> match load {
            ShowLoad::FreshSeeded => r matches Err(ShowError::NotFound { title: t }) && t@ == title@,
            ShowLoad::Failed(m) => r matches Err(ShowError::TreeState(e)) && e@ == m@,
            ShowLoad::Loaded(s) => exists|cs: Seq<CandidateLoad>|
                cs.len() == s.leaves@.len() && (forall|i: int|
                    0 <= i < cs.len() ==> candidate_ok(#[trigger] s.leaves@[i]@, reads@[i].0@, reads@[i].1, cs[i]))
                    && picked(matching(cs, title@), title@, full, r),
        },
{
    if title.is_empty() {
        return Err(ShowError::NotFound { title: owned(title) });
    }
    let state = match load {
        ShowLoad::FreshSeeded => {
            return Err(ShowError::NotFound { title: owned(title) });
        },
        ShowLoad::Failed(m) => {
            return Err(ShowError::TreeState(m));
        },
        ShowLoad::Loaded(s) => s,
    };
    let requested = to_lowercase(title);
    let ghost reads0 = reads@;
    let mut reads = reads;
    let mut matches: Vec<CandidateLoad> = Vec::new();
    let ghost mut cs: Seq<CandidateLoad> = seq![];
    let mut i: usize = 0;
    while reads.len() > 0
        invariant
            reads0.len() == state.leaves.len(),
            i + reads@.len() == reads0.len(),
            reads@ == reads0.skip(i as int),
            requested@ == lowercase(title@),
            cs.len() == i,
            forall|k: int| 0 <= k < i ==> candidate_ok(#[trigger] state.leaves@[k]@, reads0[k].0@, reads0[k].1, cs[k]),
            matches@ == matching(cs, title@),
        decreases reads@.len(),
    {
        let (path, outcome) = reads.remove(0);
        assert(reads0[i as int] == (path, outcome));
        let c = load_candidate(&state.leaves[i], path.as_str(), outcome);
        let t = match &c {
            CandidateLoad::Loaded(l) => to_lowercase(l.summary.title.as_str()),
            CandidateLoad::Broken { summary, .. } => to_lowercase(summary.title.as_str()),
        };
        let ghost cs_before = cs;
        proof {
            cs = cs.push(c);
            assert(cs.drop_last() =~= cs_before);
        }
        if str_eq(t.as_str(), requested.as_str()) {
            matches.push(c);
        }
        assert(reads@ =~= reads0.skip(i + 1));
        assert(i < state.leaves.len());
        i += 1;
    }
    let n = matches.len();
    if n == 0 {
        return Err(ShowError::NotFound { title: owned(title) });
    }
    if n == 1 {
        let only = matches.remove(0);
        return match only {
            CandidateLoad::Loaded(l) => Ok(build_result(l, full)),
            CandidateLoad::Broken { error, .. } => Err(error),
        };
    }
    let ghost ms = matches@;
    let mut summaries: Vec<ShowCandidateSummary> = Vec::new();
    let mut k: usize = 0;
    while k < n
        invariant
            k <= n,
            n == matches.len(),
            ms == matches@,
            summaries_view(summaries@) == ms.map_values(|c: CandidateLoad| candidate_summary(c)).take(k as int),
        decreases n - k,
    {
        let s = match &matches[k] {
            CandidateLoad::Loaded(l) => clone_summary(&l.summary),
            CandidateLoad::Broken { summary, .. } => clone_summary(summary),
        };
        let ghost before = summaries@;
        summaries.push(s);
        assert(summaries_view(summaries@) =~= summaries_view(before).push(summary_view(s)));
        assert(ms.map_values(|c: CandidateLoad| candidate_summary(c)).take(k + 1) =~= ms.map_values(
            |c: CandidateLoad| candidate_summary(c),
        ).take(k as int).push(candidate_summary(ms[k as int])));
        k += 1;
    }
    assert(ms.map_values(|c: CandidateLoad| candidate_summary(c)).take(n as int) =~= ms.map_values(
        |c: CandidateLoad| candidate_summary(c),
    ));
    Err(ShowError::Ambiguous { title: owned(title), candidates: summaries })
}

/// The leaf as text: the raw frontmatter, then the body when asked for,
/// each ending in a newline.
pub open spec fn show_text(r: ShowResult) -> Seq<char> {
    let head = if r.frontmatter_raw@.len() > 0 && r.frontmatter_raw@.last() == '\n' {
        r.frontmatter_raw@
    } else {
        r.frontmatter_raw@ + "\n"@
    };
    match r.body {
        Some(b) => head + "\n"@ + b@ + if b@.len() > 0 && b@.last() == '\n' { seq![] } else { "\n"@ },
        None => head,
    }
}

pub fn render_human(result: &ShowResult) -> (r: String)
    ensures
        r@ == show_text(*result),
{
    proof {
        reveal_strlit("\n");
    }
    let mut out = result.frontmatter_raw.clone();
    let v = chars_of(out.as_str());
    if !(v.len() > 0 && v[v.len() - 1] == '\n') {
        push(&mut out, '\n');
    }
    match &result.body {
        Some(b) => {
            push(&mut out, '\n');
            push_str(&mut out, b.as_str());
            let bv = chars_of(b.as_str());
            if !(bv.len() > 0 && bv[bv.len() - 1] == '\n') {
                push(&mut out, '\n');
            } else {
                assert(out@ =~= out@ + seq![]);
            }
        },
        None => {},
    }
    out
}

} // verus!
