//! Classification and expansion of collect inputs.
//!
//! Single URLs pass through; `.txt` URL-list files fan out one entry per
//! non-empty line; existing local `.md` files route to the note path.
use vstd::prelude::*;

use crate::text::{
    ascii_lower_seq, cat3, chars_of, contains, contains_char, contains_str, decimal, ends_with,
    ends_with_str, owned, seq_eq, slice_chars, string_of, to_ascii_lowercase, trim, trim_chars,
    usize_to_string,
};
use crate::youtube::url::opt_view;

verus! {

// ── paths ────────────────────────────────────────────────────────────────────

/// The final component of a path, as `std::path::Path::file_name` gives it.
pub uninterp spec fn path_file_name(p: Seq<char>) -> Option<Seq<char>>;

/// Calls `Path::new(p).file_name()`. The contract only names the result:
/// it depends on the path text alone.
#[verifier::external_body]
pub(crate) fn file_name_of(p: &str) -> (r: Option<String>)
    ensures
        opt_view(r) == path_file_name(p@),
{
    std::path::Path::new(p).file_name().map(|n| n.to_string_lossy().into_owned())
}

/// The extension of a file name, as `Path::extension` documents it: none
/// without a `.` after the first character, else what follows the last `.`.
pub open spec fn name_extension(name: Seq<char>) -> Option<Seq<char>> {
    if exists|i: int| 0 < i < name.len() && name[i] == '.' {
        let i = choose|i: int|
            0 < i < name.len() && name[i] == '.' && forall|j: int| i < j < name.len() ==> name[j] != '.';
        Some(name.skip(i + 1))
    } else {
        None
    }
}

pub open spec fn path_extension(p: Seq<char>) -> Option<Seq<char>> {
    match path_file_name(p) {
        Some(name) => name_extension(name),
        None => None,
    }
}

proof fn lemma_name_extension(name: Seq<char>, k: int)
    requires
        0 < k < name.len(),
        name[k] == '.',
        forall|j: int| k < j < name.len() ==> name[j] != '.',
    ensures
        name_extension(name) == Some(name.skip(k + 1)),
{
    assert(exists|i: int| 0 < i < name.len() && name[i] == '.');
    let i = choose|i: int|
        0 < i < name.len() && name[i] == '.' && forall|j: int| i < j < name.len() ==> name[j] != '.';
    if i < k {
        assert(name[k] != '.');
    } else if i > k {
        assert(name[i] != '.');
    }
}

fn extension_of(p: &str) -> (r: Option<Vec<char>>)
    ensures
        match path_extension(p@) {
            Some(e) => r matches Some(v) && v@ == e,
            None => r is None,
        },
{
    let fname = file_name_of(p);
    let name = match &fname {
        Some(n) => chars_of(n.as_str()),
        None => {
            return None;
        },
    };
    assert(path_file_name(p@) == Some(name@));
    let mut i: usize = name.len();
    while i > 1
        invariant
            1 <= i <= name.len() || (i == name.len() && name.len() <= 1),
            path_file_name(p@) == Some(name@),
            forall|j: int| i <= j < name.len() ==> name@[j] != '.',
        decreases i,
    {
        if name[i - 1] == '.' {
            let k: usize = i - 1;
            proof {
                lemma_name_extension(name@, k as int);
            }
            let mut ext: Vec<char> = Vec::new();
            let mut j: usize = i;
            while j < name.len()
                invariant
                    i <= j <= name.len(),
                    ext@ == name@.subrange(i as int, j as int),
                decreases name.len() - j,
            {
                ext.push(name[j]);
                assert(name@.subrange(i as int, j + 1) == name@.subrange(i as int, j as int).push(name@[j as int]));
                j += 1;
            }
            assert(name@.skip(i as int) =~= name@.subrange(i as int, name.len() as int));
            assert(path_extension(p@) == Some(name@.skip(k + 1)));
            return Some(ext);
        }
        i -= 1;
    }
    assert(!(exists|w: int| 0 < w < name@.len() && name@[w] == '.'));
    None
}

/// The stem of a file name, as `Path::file_stem` documents it: the part
/// before the last `.` after the first character, else the whole name.
pub open spec fn name_stem(name: Seq<char>) -> Seq<char> {
    if exists|i: int| 0 < i < name.len() && name[i] == '.' {
        let i = choose|i: int|
            0 < i < name.len() && name[i] == '.' && forall|j: int| i < j < name.len() ==> name[j] != '.';
        name.take(i)
    } else {
        name
    }
}

pub open spec fn path_file_stem(p: Seq<char>) -> Option<Seq<char>> {
    match path_file_name(p) {
        Some(name) => Some(name_stem(name)),
        None => None,
    }
}

proof fn lemma_name_stem(name: Seq<char>, k: int)
    requires
        0 < k < name.len(),
        name[k] == '.',
        forall|j: int| k < j < name.len() ==> name[j] != '.',
    ensures
        name_stem(name) == name.take(k),
{
    assert(exists|i: int| 0 < i < name.len() && name[i] == '.');
    let i = choose|i: int|
        0 < i < name.len() && name[i] == '.' && forall|j: int| i < j < name.len() ==> name[j] != '.';
    if i < k {
        assert(name[k] != '.');
    } else if i > k {
        assert(name[i] != '.');
    }
}

/// `Path::file_stem` of a path text.
pub fn file_stem_of(p: &str) -> (r: Option<String>)
    ensures
        opt_view(r) == path_file_stem(p@),
{
    let fname = file_name_of(p);
    let name = match &fname {
        Some(n) => chars_of(n.as_str()),
        None => {
            return None;
        },
    };
    assert(path_file_name(p@) == Some(name@));
    let mut i: usize = name.len();
    while i > 1
        invariant
            1 <= i <= name.len() || (i == name.len() && name.len() <= 1),
            path_file_name(p@) == Some(name@),
            forall|j: int| i <= j < name.len() ==> name@[j] != '.',
        decreases i,
    {
        if name[i - 1] == '.' {
            let k: usize = i - 1;
            proof {
                lemma_name_stem(name@, k as int);
            }
            return Some(string_of(&slice_chars(&name, 0, k)));
        }
        i -= 1;
    }
    assert(!(exists|w: int| 0 < w < name@.len() && name@[w] == '.'));
    Some(string_of(&name))
}

/// Whether two texts are equal once ASCII letters are lowercased.
pub fn eq_ignore_ascii_case(a: &[char], b: &str) -> (r: bool)
    ensures
        r == (ascii_lower_seq(a@) == ascii_lower_seq(b@)),
{
    let la = to_ascii_lowercase(a);
    let vb = chars_of(b);
    let lb = to_ascii_lowercase(&vb);
    seq_eq(&la, &lb)
}

/// Whether the path's extension is `ext`, ignoring ASCII case.
pub open spec fn has_extension(p: Seq<char>, ext: Seq<char>) -> bool {
    path_extension(p) matches Some(e) && ascii_lower_seq(e) == ascii_lower_seq(ext)
}

fn has_extension_exec(p: &str, ext: &str) -> (r: bool)
    ensures
        r == has_extension(p@, ext@),
{
    match extension_of(p) {
        Some(e) => eq_ignore_ascii_case(&e, ext),
        None => false,
    }
}

/// The text before the first `c`, or all of it.
pub open spec fn before_first(s: Seq<char>, c: char) -> Seq<char> {
    if s.contains(c) {
        s.take(choose|i: int| 0 <= i < s.len() && s[i] == c && forall|j: int| 0 <= j < i ==> s[j] != c)
    } else {
        s
    }
}

fn before_first_exec(s: &[char], c: char) -> (r: Vec<char>)
    ensures
        r@ == before_first(s@, c),
{
    let mut out: Vec<char> = Vec::new();
    let mut i: usize = 0;
    while i < s.len()
        invariant
            i <= s.len(),
            out@ == s@.take(i as int),
            forall|j: int| 0 <= j < i ==> s@[j] != c,
        decreases s.len() - i,
    {
        if s[i] == c {
            proof {
                let w = choose|w: int| 0 <= w < s@.len() && s@[w] == c && forall|j: int| 0 <= j < w ==> s@[j] != c;
                if w < i {
                    assert(s@[w] != c);
                } else if w > i {
                    assert(s@[i as int] != c);
                }
            }
            return out;
        }
        out.push(s[i]);
        assert(s@.take(i + 1) == s@.take(i as int).push(s@[i as int]));
        i += 1;
    }
    assert(s@.take(s@.len() as int) =~= s@);
    out
}

// ── classification ───────────────────────────────────────────────────────────

/// A local URL-list file: a `.txt` extension (ignoring ASCII case), no URL
/// scheme, and nothing before the first `/` that looks like a host name.
pub open spec fn url_list_file(input: Seq<char>) -> bool {
    &&& has_extension(input, "txt"@)
    &&& !contains(input, "://"@)
    &&& !before_first(input, '/').contains('.')
}

pub fn is_url_list_file(input: &str) -> (r: bool)
    ensures
        r == url_list_file(input@),
{
    if !has_extension_exec(input, "txt") {
        return false;
    }
    if contains_str(input, "://") {
        return false;
    }
    let v = chars_of(input);
    let head = before_first_exec(&v, '/');
    !contains_char(&head, '.')
}

/// A local markdown note: a `.md` extension (ignoring ASCII case), no URL
/// scheme, and a file at that path (`is_file`, which the caller reads from
/// the file system).
pub open spec fn local_note_file(input: Seq<char>, is_file: bool) -> bool {
    !contains(input, "://"@) && has_extension(input, "md"@) && is_file
}

pub fn is_local_note_file(input: &str, is_file: bool) -> (r: bool)
    ensures
        r == local_note_file(input@, is_file),
{
    if contains_str(input, "://") {
        return false;
    }
    has_extension_exec(input, "md") && is_file
}

/// Whether the inputs select the single-result output: one input that is
/// neither URL-list-like nor an existing local note. `first_is_file` is
/// whether a file exists at the first input's path.
pub open spec fn single_bare_url(inputs: Seq<Seq<char>>, first_is_file: bool) -> bool {
    inputs.len() == 1 && {
        let input = inputs[0];
        let list_like = (ends_with(input, ".txt"@) && !contains(input, "://"@)) || url_list_file(input);
        !list_like && !local_note_file(input, first_is_file)
    }
}

pub fn is_single_bare_url(inputs: &[String], first_is_file: bool) -> (r: bool)
    ensures
        r == single_bare_url(crate::text::strs(inputs@), first_is_file),
{
    if inputs.len() != 1 {
        return false;
    }
    let input = inputs[0].as_str();
    let list_like = (ends_with_str(input, ".txt") && !contains_str(input, "://")) || is_url_list_file(input);
    !list_like && !is_local_note_file(input, first_is_file)
}

// ── expansion ────────────────────────────────────────────────────────────────

/// An input after expansion: a URL to fetch, a note to read, or a failure
/// already known.
#[derive(Debug)]
pub enum ExpandedCollectInput {
    Url { input: String, url: String },
    Note { input: String, path: String },
    Failure { input: String, code: String, message: String },
}

pub enum ExpandedView {
    Url { input: Seq<char>, url: Seq<char> },
    Note { input: Seq<char>, path: Seq<char> },
    Failure { input: Seq<char>, code: Seq<char>, message: Seq<char> },
}

impl View for ExpandedCollectInput {
    type V = ExpandedView;

    open spec fn view(&self) -> ExpandedView {
        match self {
            ExpandedCollectInput::Url { input, url } => ExpandedView::Url { input: input@, url: url@ },
            ExpandedCollectInput::Note { input, path } => ExpandedView::Note { input: input@, path: path@ },
            ExpandedCollectInput::Failure { input, code, message } => ExpandedView::Failure {
                input: input@,
                code: code@,
                message: message@,
            },
        }
    }
}

pub open spec fn expanded_view(v: Seq<ExpandedCollectInput>) -> Seq<ExpandedView> {
    v.map_values(|e: ExpandedCollectInput| e@)
}

/// How an input is collected.
#[derive(Debug, Clone, Copy, PartialEq, Eq)]
pub enum InputKind {
    Note,
    UrlList,
    Url,
}

pub open spec fn input_kind_spec(input: Seq<char>, is_file: bool) -> InputKind {
    if local_note_file(input, is_file) {
        InputKind::Note
    } else if url_list_file(input) {
        InputKind::UrlList
    } else {
        InputKind::Url
    }
}

/// How an input is collected; `is_file` is whether a file exists at its path.
pub fn input_kind(input: &str, is_file: bool) -> (r: InputKind)
    ensures
        r == input_kind_spec(input@, is_file),
{
    if is_local_note_file(input, is_file) {
        InputKind::Note
    } else if is_url_list_file(input) {
        InputKind::UrlList
    } else {
        InputKind::Url
    }
}

/// The expansion of an input that is a note or a URL.
pub fn expand_single(input: &str, kind: InputKind) -> (r: ExpandedCollectInput)
    requires
        kind != InputKind::UrlList,
    ensures
        kind == InputKind::Note ==> r@ == (ExpandedView::Note { input: input@, path: input@ }),
        kind == InputKind::Url ==> r@ == (ExpandedView::Url { input: input@, url: input@ }),
{
    match kind {
        InputKind::Note => ExpandedCollectInput::Note { input: owned(input), path: owned(input) },
        _ => ExpandedCollectInput::Url { input: owned(input), url: owned(input) },
    }
}

/// The text split at each `\n`; a text without one is a single line.
pub open spec fn split_lines(s: Seq<char>) -> Seq<Seq<char>>
    decreases s.len(),
{
    if s.len() == 0 {
        seq![seq![]]
    } else {
        let prev = split_lines(s.drop_last());
        if s.last() == '\n' {
            prev.push(seq![])
        } else {
            prev.update(prev.len() - 1, prev.last().push(s.last()))
        }
    }
}

proof fn lemma_split_lines_len(s: Seq<char>)
    ensures
        split_lines(s).len() <= s.len() + 1,
    decreases s.len(),
{
    if s.len() > 0 {
        lemma_split_lines_len(s.drop_last());
        lemma_split_lines_nonempty(s.drop_last());
    }
}

proof fn lemma_split_lines_nonempty(s: Seq<char>)
    ensures
        split_lines(s).len() >= 1,
    decreases s.len(),
{
    if s.len() > 0 {
        lemma_split_lines_nonempty(s.drop_last());
    }
}

/// The URL entries of a list file's lines: one per line that is not blank,
/// labelled `<file>:<line number>`, holding the trimmed line.
pub open spec fn list_entries(file: Seq<char>, lines: Seq<Seq<char>>) -> Seq<ExpandedView>
    decreases lines.len(),
{
    if lines.len() == 0 {
        seq![]
    } else {
        let prev = list_entries(file, lines.drop_last());
        let url = trim(lines.last());
        if url.len() == 0 {
            prev
        } else {
            prev.push(ExpandedView::Url { input: file + ":"@ + decimal(lines.len()), url })
        }
    }
}

/// What a URL-list file expands to, given its text or the error reading it.
pub open spec fn expand_list_spec(file: Seq<char>, contents: Result<Seq<char>, Seq<char>>) -> Seq<ExpandedView> {
    match contents {
        Err(e) => seq![
            ExpandedView::Failure {
                input: file,
                code: "url_list_read_error"@,
                message: "failed to read URL list: "@ + e,
            },
        ],
        Ok(text) => {
            let entries = list_entries(file, split_lines(text));
            if entries.len() == 0 {
                seq![
                    ExpandedView::Failure {
                        input: file,
                        code: "empty_url_list"@,
                        message: "URL list file contains no URLs"@,
                    },
                ]
            } else {
                entries
            }
        },
    }
}

pub open spec fn contents_view(c: Result<String, String>) -> Result<Seq<char>, Seq<char>> {
    match c {
        Ok(t) => Ok(t@),
        Err(e) => Err(e@),
    }
}

/// Handles one complete line: its entry, if it is not blank.
fn push_line_entry(out: &mut Vec<ExpandedCollectInput>, file: &str, line: &Vec<char>, number: usize)
    ensures
        ({
            let url = trim(line@);
            if url.len() == 0 {
                expanded_view(final(out)@) == expanded_view(old(out)@)
            } else {
                expanded_view(final(out)@) == expanded_view(old(out)@).push(
                    ExpandedView::Url { input: file@ + ":"@ + decimal(number as nat), url },
                )
            }
        }),
{
    let url = trim_chars(line);
    if url.len() > 0 {
        let label = cat3(file, ":", usize_to_string(number).as_str());
        let ghost before = out@;
        out.push(ExpandedCollectInput::Url { input: label, url: string_of(&url) });
        assert(expanded_view(out@) =~= expanded_view(before).push(out@.last()@));
    }
}

/// The expansion of a URL-list file from its text, or from the error that
/// reading it gave (the caller reads the file).
pub fn expand_url_list(file: &str, contents: Result<String, String>) -> (r: Vec<ExpandedCollectInput>)
    requires
        contents matches Ok(t) ==> t@.len() < usize::MAX,
    ensures
        expanded_view(r@) == expand_list_spec(file@, contents_view(contents)),
{
    let text = match contents {
        Err(e) => {
            let message = crate::text::cat("failed to read URL list: ", e.as_str());
            let v = vec![
                ExpandedCollectInput::Failure {
                    input: owned(file),
                    code: owned("url_list_read_error"),
                    message,
                },
            ];
            assert(expanded_view(v@) =~= expand_list_spec(file@, contents_view(contents)));
            return v;
        },
        Ok(t) => t,
    };
    let chars = chars_of(text.as_str());
    let mut out: Vec<ExpandedCollectInput> = Vec::new();
    let mut line: Vec<char> = Vec::new();
    let mut number: usize = 1;
    let mut i: usize = 0;
    proof {
        assert(chars@.take(0) =~= seq![]);
    }
    while i < chars.len()
        invariant
            i <= chars.len(),
            chars@ == text@,
            chars.len() < usize::MAX,
            ({
                let ls = split_lines(chars@.take(i as int));
                &&& number == ls.len()
                &&& line@ == ls.last()
                &&& expanded_view(out@) == list_entries(file@, ls.drop_last())
            }),
        decreases chars.len() - i,
    {
        let ghost ls = split_lines(chars@.take(i as int));
        proof {
            lemma_split_lines_nonempty(chars@.take(i as int));
        }
        assert(chars@.take(i + 1).drop_last() =~= chars@.take(i as int));
        assert(chars@.take(i + 1).last() == chars@[i as int]);
        if chars[i] == '\n' {
            push_line_entry(&mut out, file, &line, number);
            proof {
                let ls2 = ls.push(seq![]);
                assert(ls2.drop_last() =~= ls);
                assert(ls.drop_last().push(ls.last()) =~= ls);
            }
            line = Vec::new();
            proof {
                lemma_split_lines_len(chars@.take(i as int));
            }
            number = number + 1;
        } else {
            line.push(chars[i]);
            proof {
                let ls2 = ls.update(ls.len() - 1, ls.last().push(chars@[i as int]));
                assert(ls2.drop_last() =~= ls.drop_last());
            }
        }
        i += 1;
    }
    assert(chars@.take(chars.len() as int) =~= chars@);
    proof {
        lemma_split_lines_nonempty(chars@);
        let ls = split_lines(chars@);
        assert(ls.drop_last().push(ls.last()) =~= ls);
    }
    push_line_entry(&mut out, file, &line, number);
    if out.len() == 0 {
        out.push(
            ExpandedCollectInput::Failure {
                input: owned(file),
                code: owned("empty_url_list"),
                message: owned("URL list file contains no URLs"),
            },
        );
        assert(expanded_view(out@) =~= expand_list_spec(file@, contents_view(Ok::<String, String>(text))));
    }
    out
}

/// Whether some expanded input is a URL, the one kind of source that a
/// summary model applies to.
pub fn has_external_source(expanded: &Vec<ExpandedCollectInput>) -> (r: bool)
    ensures
        r == exists|i: int| 0 <= i < expanded.len() && (#[trigger] expanded@[i]) is Url,
{
    let mut i: usize = 0;
    while i < expanded.len()
        invariant
            i <= expanded.len(),
            forall|j: int| 0 <= j < i ==> !(#[trigger] expanded@[j] is Url),
        decreases expanded.len() - i,
    {
        if let ExpandedCollectInput::Url { .. } = &expanded[i] {
            return true;
        }
        i += 1;
    }
    false
}

} // verus!
