//! Plain records of a tree's state: its collected leaves and compiled
//! branches.
use vstd::prelude::*;

use crate::text::strs;
use crate::youtube::url::opt_view;

verus! {

/// An instant, in milliseconds since the Unix epoch.
#[derive(Clone, Copy, Debug, PartialEq, Eq)]
pub struct Timestamp {
    pub unix_millis: i64,
}

/// What chrono reads from an RFC 3339 text, when the text is one: the
/// instant's whole seconds and nanoseconds past them since the Unix epoch,
/// and the instant in milliseconds.
pub uninterp spec fn rfc3339_parts(s: Seq<char>) -> Option<(i64, u32, i64)>;

/// The instant an RFC 3339 text names, in milliseconds since the Unix epoch,
/// when the text is one.
pub open spec fn rfc3339_millis(s: Seq<char>) -> Option<i64> {
    match rfc3339_parts(s) {
        Some(p) => Some(p.2),
        None => None,
    }
}

/// Calls chrono's `DateTime::parse_from_rfc3339` and reads the instant's
/// `timestamp`, `timestamp_subsec_nanos` and `timestamp_millis`. The
/// contract only names the result: it depends on the text alone.
#[verifier::external_body]
fn parse_rfc3339(s: &str) -> (r: Option<(i64, u32, i64)>)
    ensures
        r == rfc3339_parts(s@),
{
    match chrono::DateTime::parse_from_rfc3339(s) {
        Ok(d) => Some((d.timestamp(), d.timestamp_subsec_nanos(), d.timestamp_millis())),
        Err(_) => None,
    }
}

/// The instant an RFC 3339 text names, as whole seconds and nanoseconds,
/// which orders instants as chrono does.
pub fn rfc3339_instant(s: &str) -> (r: Option<(i64, u32)>)
    ensures
        r == match rfc3339_parts(s@) {
            Some(p) => Some((p.0, p.1)),
            None => None::<(i64, u32)>,
        },
{
    match parse_rfc3339(s) {
        Some(p) => Some((p.0, p.1)),
        None => None,
    }
}

impl Timestamp {
    /// Reads an RFC 3339 timestamp such as `2026-01-01T00:00:00Z`.
    pub fn parse(s: &str) -> (r: Option<Timestamp>)
        ensures
            match rfc3339_millis(s@) {
                Some(ms) => r == Some(Timestamp { unix_millis: ms }),
                None => r is None,
            },
    {
        match parse_rfc3339(s) {
            Some(p) => Some(Timestamp { unix_millis: p.2 }),
            None => None,
        }
    }
}

/// The RFC 3339 text of an instant given in milliseconds since the Unix
/// epoch, with milliseconds and `Z`, when chrono can represent the instant.
pub uninterp spec fn rfc3339_text(ms: i64) -> Option<Seq<char>>;

/// Calls chrono's `DateTime::from_timestamp_millis` and formats the instant
/// with `to_rfc3339_opts(SecondsFormat::Millis, true)`. The contract only
/// names the result: it depends on the number alone.
#[verifier::external_body]
fn format_rfc3339_millis(ms: i64) -> (r: Option<String>)
    ensures
        opt_view(r) == rfc3339_text(ms),
{
    match chrono::DateTime::from_timestamp_millis(ms) {
        Some(d) => Some(d.to_rfc3339_opts(chrono::SecondsFormat::Millis, true)),
        None => None,
    }
}

impl Timestamp {
    /// The instant as RFC 3339 text with milliseconds, such as
    /// `2026-01-01T00:00:00.000Z`, when it can be written.
    pub fn to_rfc3339_millis(&self) -> (r: Option<String>)
        ensures
            opt_view(r) == rfc3339_text(self.unix_millis),
    {
        format_rfc3339_millis(self.unix_millis)
    }
}

/// A collected leaf as the tree state records it.
#[derive(Debug)]
pub struct Leaf {
    pub slug: String,
    pub file: String,
    pub title: Option<String>,
    pub url: String,
    pub collected_at: Timestamp,
    pub summary: Option<String>,
}

/// A compiled branch as the tree state records it; `leaves` are leaf slugs.
#[derive(Debug)]
pub struct Branch {
    pub slug: String,
    pub file: String,
    pub title: String,
    pub created_at: Timestamp,
    pub updated_at: Timestamp,
    pub leaves: Vec<String>,
}

#[derive(Debug)]
pub struct TreeMetadata {
    pub name: String,
    pub created_at: Timestamp,
    pub last_compiled_at: Option<Timestamp>,
}

/// The recorded state of one tree.
#[derive(Debug)]
pub struct TreeState {
    pub tree: TreeMetadata,
    pub leaves: Vec<Leaf>,
    pub branches: Vec<Branch>,
}

pub struct LeafView {
    pub slug: Seq<char>,
    pub file: Seq<char>,
    pub title: Option<Seq<char>>,
    pub url: Seq<char>,
    pub collected_at: int,
    pub summary: Option<Seq<char>>,
}

pub struct BranchView {
    pub slug: Seq<char>,
    pub file: Seq<char>,
    pub title: Seq<char>,
    pub created_at: int,
    pub updated_at: int,
    pub leaves: Seq<Seq<char>>,
}

impl View for Leaf {
    type V = LeafView;

    open spec fn view(&self) -> LeafView {
        LeafView {
            slug: self.slug@,
            file: self.file@,
            title: opt_view(self.title),
            url: self.url@,
            collected_at: self.collected_at.unix_millis as int,
            summary: opt_view(self.summary),
        }
    }
}

impl View for Branch {
    type V = BranchView;

    open spec fn view(&self) -> BranchView {
        BranchView {
            slug: self.slug@,
            file: self.file@,
            title: self.title@,
            created_at: self.created_at.unix_millis as int,
            updated_at: self.updated_at.unix_millis as int,
            leaves: strs(self.leaves@),
        }
    }
}

pub open spec fn leaves_view(v: Seq<Leaf>) -> Seq<LeafView> {
    v.map_values(|l: Leaf| l@)
}

pub open spec fn branches_view(v: Seq<Branch>) -> Seq<BranchView> {
    v.map_values(|b: Branch| b@)
}

/// The position of the first branch with the given slug.
pub fn find_branch(branches: &Vec<Branch>, slug: &str) -> (r: Option<usize>)
    ensures
        r matches Some(i) ==> i < branches.len() && branches@[i as int].slug@ == slug@
            && forall|j: int| 0 <= j < i ==> branches@[j].slug@ != slug@,
        r is None ==> forall|j: int| 0 <= j < branches.len() ==> branches@[j].slug@ != slug@,
{
    let mut i: usize = 0;
    while i < branches.len()
        invariant
            i <= branches.len(),
            forall|j: int| 0 <= j < i ==> branches@[j].slug@ != slug@,
        decreases branches.len() - i,
    {
        if crate::text::str_eq(branches[i].slug.as_str(), slug) {
            return Some(i);
        }
        i += 1;
    }
    None
}

} // verus!
