//! Local markdown notes as sources: their title and their source URL.
use vstd::prelude::*;

use crate::collect::{CollectError, NoteError};
use crate::collect::commit::ComputedLeaf;
use crate::text::{cat, chars_of, is_blank, is_blank_str, owned, slice_chars, starts_with, strip_char_start, string_of, trim, trim_chars};

verus! {

/// The first position of `c` in `s`.
pub open spec fn char_index(s: Seq<char>, c: char) -> Option<int>
    decreases s.len(),
{
    if s.len() == 0 {
        None
    } else if s[0] == c {
        Some(0)
    } else {
        match char_index(s.drop_first(), c) {
            Some(i) => Some(i + 1),
            None => None,
        }
    }
}

proof fn lemma_char_index(s: Seq<char>, c: char, i: int)
    requires
        0 <= i <= s.len(),
        forall|k: int| 0 <= k < i ==> s[k] != c,
    ensures
        char_index(s, c) == (match char_index(s.skip(i), c) {
            Some(j) => Some(j + i),
            None => None,
        }),
    decreases i,
{
    if i == 0 {
        assert(s.skip(0) =~= s);
    } else {
        assert(s.drop_first().skip(i - 1) =~= s.skip(i));
        lemma_char_index(s.drop_first(), c, i - 1);
    }
}

fn strip_start(v: &[char], c: char) -> (r: Vec<char>)
    ensures
        r@ == strip_char_start(v@, c),
{
    let mut i: usize = 0;
    assert(v@.skip(0) =~= v@);
    while i < v.len() && v[i] == c
        invariant
            i <= v.len(),
            strip_char_start(v@, c) == strip_char_start(v@.skip(i as int), c),
        decreases v.len() - i,
    {
        assert(v@.skip(i as int).drop_first() =~= v@.skip(i + 1));
        i += 1;
    }
    let r = slice_chars(v, i, v.len());
    assert(r@ =~= v@.skip(i as int));
    r
}

/// A note's title and body: a leading `# ` heading (after blank lines)
/// gives the title, trimmed, and leaves the body after it without leading
/// blank lines; with no such heading, or a blank one, the note has no
/// title and keeps its body.
pub open spec fn note_title_spec(body: Seq<char>) -> (Option<Seq<char>>, Seq<char>) {
    let after = strip_char_start(body, '\n');
    if !starts_with(after, "# "@) {
        (None, body)
    } else {
        let rest = after.skip(2);
        let (heading, remainder) = match char_index(rest, '\n') {
            Some(idx) => (rest.take(idx), strip_char_start(rest.skip(idx + 1), '\n')),
            None => (rest, seq![]),
        };
        if trim(heading).len() == 0 {
            (None, body)
        } else {
            (Some(trim(heading)), remainder)
        }
    }
}

/// Pulls a title from a note's leading `# ` heading.
pub fn extract_note_title(body: &str) -> (r: (Option<String>, String))
    ensures
        note_title_spec(body@) == (
            match r.0 {
                Some(t) => Some(t@),
                None => None,
            },
            r.1@,
        ),
{
    proof {
        reveal_strlit("# ");
    }
    let v = chars_of(body);
    let after = strip_start(&v, '\n');
    if !(after.len() >= 2 && after[0] == '#' && after[1] == ' ') {
        assert(!starts_with(after@, "# "@)) by {
            if starts_with(after@, "# "@) {
                assert(after@.take(2)[0] == '#' && after@.take(2)[1] == ' ');
            }
        }
        return (None, owned(body));
    }
    assert(after@.take(2) =~= "# "@);
    let rest = slice_chars(&after, 2, after.len());
    assert(rest@ =~= after@.skip(2));
    let mut i: usize = 0;
    while i < rest.len() && rest[i] != '\n'
        invariant
            i <= rest.len(),
            forall|k: int| 0 <= k < i ==> rest@[k] != '\n',
        decreases rest.len() - i,
    {
        i += 1;
    }
    proof {
        lemma_char_index(rest@, '\n', i as int);
    }
    let (heading, remainder) = if i < rest.len() {
        assert(rest@.skip(i as int)[0] == '\n');
        let h = slice_chars(&rest, 0, i);
        assert(h@ =~= rest@.take(i as int));
        let tail = slice_chars(&rest, i + 1, rest.len());
        assert(tail@ =~= rest@.skip(i + 1));
        (h, strip_start(&tail, '\n'))
    } else {
        assert(rest@.skip(i as int) =~= seq![]);
        let h = slice_chars(&rest, 0, rest.len());
        assert(h@ =~= rest@);
        (h, Vec::new())
    };
    let title = trim_chars(&heading);
    if title.len() == 0 {
        return (None, owned(body));
    }
    (Some(string_of(&title)), string_of(&remainder))
}

/// A note's source URL, addressed by the first sixteen characters of the
/// hash of its body.
pub open spec fn note_url_text(hash: Seq<char>) -> Seq<char> {
    "bo://note/"@ + (if hash.len() <= 16 { hash } else { hash.take(16) })
}

pub fn note_url(hash: &str) -> (r: String)
    ensures
        r@ == note_url_text(hash@),
{
    let v = chars_of(hash);
    let n: usize = if v.len() <= 16 { v.len() } else { 16 };
    let prefix = slice_chars(&v, 0, n);
    assert(v@.len() <= 16 ==> prefix@ =~= v@);
    assert(v@.len() > 16 ==> prefix@ =~= v@.take(16));
    crate::text::cat("bo://note/", string_of(&prefix).as_str())
}


/// What reading the leading YAML frontmatter block of a note found.
#[derive(Debug)]
pub enum NoteFrontmatter {
    /// A block was read; `empty` says whether its mapping has no keys, and
    /// `body` is the text after the block.
    Parsed { empty: bool, body: String },
    /// The note does not start with a frontmatter block.
    Missing,
    /// The note starts with a block that cannot be read.
    Malformed,
}

/// The warning given when a note's own frontmatter was dropped.
pub open spec fn stripped_warning(path: Seq<char>) -> Seq<char> {
    "stripped user frontmatter from "@ + path
}

/// A note's body once its frontmatter is dropped, with the warning, or the
/// error for a block that cannot be read.
pub open spec fn stripped_note(path: Seq<char>, raw: Seq<char>, found: NoteFrontmatter) -> Result<
    (Seq<char>, Option<Seq<char>>),
    (),
> {
    match found {
        NoteFrontmatter::Parsed { empty, body } => Ok(
            (body@, if empty { None } else { Some(stripped_warning(path)) }),
        ),
        NoteFrontmatter::Missing => Ok((raw, None)),
        NoteFrontmatter::Malformed => Err(()),
    }
}

/// Drops the leading frontmatter block of a note (leaf frontmatter belongs to
/// the tree), warning when the block held anything.
pub fn strip_user_frontmatter(path: &str, raw: &str, found: NoteFrontmatter) -> (r: Result<
    (String, Option<String>),
    CollectError,
>)
    ensures
        match (stripped_note(path@, raw@, found), r) {
            (Ok((body, warning)), Ok((b, w))) => b@ == body && match (warning, w) {
                (None, None) => true,
                (Some(x), Some(y)) => y@ == x,
                _ => false,
            },
            (Err(()), Err(CollectError::Note(NoteError::MalformedFrontmatter { path: p }))) => p@
                == path@,
            _ => false,
        },
{
    match found {
        NoteFrontmatter::Parsed { empty, body } => {
            let warning = if empty {
                None
            } else {
                Some(cat("stripped user frontmatter from ", path))
            };
            Ok((body, warning))
        },
        NoteFrontmatter::Missing => Ok((owned(raw), None)),
        NoteFrontmatter::Malformed => Err(
            CollectError::Note(NoteError::MalformedFrontmatter { path: owned(path) }),
        ),
    }
}

/// The body of a note ready to be hashed: its frontmatter dropped, refused
/// when nothing but whitespace is left.
pub fn note_body(path: &str, raw: &str, found: NoteFrontmatter) -> (r: Result<
    (String, Option<String>),
    CollectError,
>)
    ensures
        match (stripped_note(path@, raw@, found), r) {
            (Ok((body, warning)), Ok((b, w))) => !is_blank(body) && b@ == body && match (
                warning,
                w,
            ) {
                (None, None) => true,
                (Some(x), Some(y)) => y@ == x,
                _ => false,
            },
            (Ok((body, _)), Err(CollectError::Note(NoteError::Empty { path: p }))) => is_blank(
                body,
            ) && p@ == path@,
            (Err(()), Err(CollectError::Note(NoteError::MalformedFrontmatter { path: p }))) => p@
                == path@,
            _ => false,
        },
{
    let (body, warning) = match strip_user_frontmatter(path, raw, found) {
        Ok(pair) => pair,
        Err(e) => {
            return Err(e);
        },
    };
    if is_blank_str(body.as_str()) {
        return Err(CollectError::Note(NoteError::Empty { path: owned(path) }));
    }
    Ok((body, warning))
}

/// The leaf computed from a note's body: its source URL from the body's hash,
/// its title from a leading heading, and no summary.
pub fn note_leaf(body: &str, warning: Option<String>, hash: &str) -> (r: ComputedLeaf)
    ensures
        r.url@ == note_url_text(hash@),
        ({
            let (title, rest) = note_title_spec(body@);
            &&& r.body_markdown@ == rest
            &&& match (title, r.title) {
                (None, None) => true,
                (Some(x), Some(y)) => y@ == x,
                _ => false,
            }
        }),
        r.summary_text@.len() == 0,
        r.note_warning == warning,
{
    let url = note_url(hash);
    let (title, body_markdown) = extract_note_title(body);
    ComputedLeaf { url, title, body_markdown, summary_text: String::new(), note_warning: warning }
}

} // verus!
