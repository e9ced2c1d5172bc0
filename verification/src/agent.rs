//! `bo agent`: the bounded document-summary agent.
//!
//! The agent talks to a model through a small set of tools. The library
//! holds the agent's decisions: its options, the facade command grammar,
//! the bounds on tool output, the grouping of raw snapshots into sources
//! and the bookkeeping of summaries. The model calls, the file system and
//! the JSON stay with the caller.
use vstd::prelude::*;

use crate::text::{
    cat, cat3, chars_of, contains_char, decimal, join, owned, push, push_str, split_whitespace, str_eq,
    string_of, strs, trim, usize_to_string, words,
};

verus! {

// ── options ──────────────────────────────────────────────────────────────────

/// The agent's limits.
#[derive(Clone, Copy, Debug, PartialEq, Eq)]
pub struct Config {
    pub max_turns: usize,
    pub max_tool_calls: usize,
    pub max_tool_output_bytes: usize,
    pub max_response_tokens: usize,
    pub timeout_seconds: usize,
}

pub open spec fn default_config() -> Config {
    Config {
        max_turns: 32,
        max_tool_calls: 64,
        max_tool_output_bytes: 65_536,
        max_response_tokens: 4_096,
        timeout_seconds: 120,
    }
}

impl Default for Config {
    fn default() -> (r: Self)
        ensures
            r == default_config(),
    {
        Config {
            max_turns: 32,
            max_tool_calls: 64,
            max_tool_output_bytes: 65_536,
            max_response_tokens: 4_096,
            timeout_seconds: 120,
        }
    }
}

pub open spec fn usage_text() -> Seq<char> {
    "usage: bo agent <dir> [--max-turns N] [--max-tool-calls N] [--max-tool-output-bytes N] [--max-response-tokens N] [--timeout-seconds N]"@
}

pub fn usage() -> (r: &'static str)
    ensures
        r@ == usage_text(),
{
    "usage: bo agent <dir> [--max-turns N] [--max-tool-calls N] [--max-tool-output-bytes N] [--max-response-tokens N] [--timeout-seconds N]"
}

pub open spec fn is_digit(c: char) -> bool {
    '0' <= c && c <= '9'
}

pub open spec fn all_digits(d: Seq<char>) -> bool {
    forall|i: int| 0 <= i < d.len() ==> is_digit(#[trigger] d[i])
}

/// The number the decimal digits spell.
pub open spec fn digits_value(s: Seq<char>) -> nat
    decreases s.len(),
{
    if s.len() == 0 {
        0
    } else {
        digits_value(s.drop_last()) * 10 + ((s.last() as nat) - ('0' as nat)) as nat
    }
}

/// What `str::parse::<usize>` accepts: an optional `+`, then one or more
/// decimal digits spelling a number that fits.
pub open spec fn parse_usize_spec(s: Seq<char>) -> Option<nat> {
    let d = if s.len() > 0 && s[0] == '+' {
        s.drop_first()
    } else {
        s
    };
    if d.len() > 0 && all_digits(d) && digits_value(d) <= usize::MAX {
        Some(digits_value(d))
    } else {
        None
    }
}

proof fn lemma_digits_prefix(s: Seq<char>, k: int)
    requires
        0 <= k <= s.len(),
        forall|i: int| 0 <= i < s.len() ==> is_digit(#[trigger] s[i]),
    ensures
        digits_value(s.take(k)) <= digits_value(s),
    decreases s.len(),
{
    if k < s.len() {
        assert(s.drop_last().take(k) =~= s.take(k));
        lemma_digits_prefix(s.drop_last(), k);
    } else {
        assert(s.take(k) =~= s);
    }
}

/// Reads a decimal `usize` as `str::parse` does.
pub fn parse_usize(s: &str) -> (r: Option<usize>)
    ensures
        match parse_usize_spec(s@) {
            Some(n) => r == Some(n as usize),
            None => r is None,
        },
{
    let v = chars_of(s);
    let start: usize = if v.len() > 0 && v[0] == '+' { 1 } else { 0 };
    let ghost d = if s@.len() > 0 && s@[0] == '+' { s@.drop_first() } else { s@ };
    assert(d =~= v@.skip(start as int));
    if start >= v.len() {
        return None;
    }
    let mut acc: usize = 0;
    let mut i: usize = start;
    while i < v.len()
        invariant
            start <= i <= v.len(),
            v@ == s@,
            d == v@.skip(start as int),
            d == (if s@.len() > 0 && s@[0] == '+' {
                s@.drop_first()
            } else {
                s@
            }),
            acc == digits_value(v@.subrange(start as int, i as int)),
            forall|k: int| start <= k < i ==> is_digit(#[trigger] v@[k]),
        decreases v.len() - i,
    {
        let c = v[i];
        assert(v@.subrange(start as int, i + 1).drop_last() =~= v@.subrange(start as int, i as int));
        if !('0' <= c && c <= '9') {
            assert(d[i - start] == v@[i as int]);
            assert(!is_digit(d[i - start]));
            assert(!all_digits(d));
            return None;
        }
        let digit: usize = ((c as u32) - 48) as usize;
        if acc > (usize::MAX - digit) / 10 {
            proof {
                let t = v@.subrange(start as int, i + 1);
                assert(digits_value(t) == acc * 10 + digit);
                assert(acc * 10 + digit > usize::MAX) by (nonlinear_arith)
                    requires
                        acc > (usize::MAX - digit) / 10,
                        digit <= 9,
                ;
                if all_digits(d) {
                    assert(d.take(i + 1 - start) =~= t);
                    lemma_digits_prefix(d, i + 1 - start);
                }
            }
            return None;
        }
        acc = acc * 10 + digit;
        i += 1;
    }
    assert(v@.subrange(start as int, v.len() as int) =~= d);
    Some(acc)
}

/// The option's positive number, or the error that names the option.
pub open spec fn option_number(option: Seq<char>, value: Seq<char>) -> Result<nat, Seq<char>> {
    match parse_usize_spec(value) {
        Some(n) => if n > 0 {
            Ok(n)
        } else {
            Err(option + " requires a positive integer"@)
        },
        None => Err(option + " requires a positive integer"@),
    }
}

/// The flags the agent knows, by position in `Config`.
pub open spec fn flag_index(f: Seq<char>) -> Option<int> {
    if f == "--max-turns"@ {
        Some(0)
    } else if f == "--max-tool-calls"@ {
        Some(1)
    } else if f == "--max-tool-output-bytes"@ {
        Some(2)
    } else if f == "--max-response-tokens"@ {
        Some(3)
    } else if f == "--timeout-seconds"@ {
        Some(4)
    } else {
        None
    }
}

pub open spec fn set_field(c: Config, i: int, n: usize) -> Config {
    if i == 0 {
        Config { max_turns: n, ..c }
    } else if i == 1 {
        Config { max_tool_calls: n, ..c }
    } else if i == 2 {
        Config { max_tool_output_bytes: n, ..c }
    } else if i == 3 {
        Config { max_response_tokens: n, ..c }
    } else {
        Config { timeout_seconds: n, ..c }
    }
}

/// The options read from `args[at..]`, pairwise, onto `c`.
pub open spec fn parse_from(args: Seq<Seq<char>>, at: int, c: Config) -> Result<Config, Seq<char>>
    decreases args.len() - at,
{
    if at >= args.len() || at < 0 {
        Ok(c)
    } else {
        let option = args[at];
        match flag_index(option) {
            None => Err(usage_text()),
            Some(i) => if at + 1 >= args.len() {
                Err("missing value for "@ + option)
            } else {
                match option_number(option, args[at + 1]) {
                    Err(e) => Err(e),
                    Ok(n) => parse_from(args, at + 2, set_field(c, i, n as usize)),
                }
            },
        }
    }
}

fn flag_index_exec(f: &str) -> (r: Option<usize>)
    ensures
        match flag_index(f@) {
            Some(i) => r == Some(i as usize),
            None => r is None,
        },
{
    if str_eq(f, "--max-turns") {
        Some(0)
    } else if str_eq(f, "--max-tool-calls") {
        Some(1)
    } else if str_eq(f, "--max-tool-output-bytes") {
        Some(2)
    } else if str_eq(f, "--max-response-tokens") {
        Some(3)
    } else if str_eq(f, "--timeout-seconds") {
        Some(4)
    } else {
        None
    }
}

/// Reads the agent's flags, each followed by a positive number; an unknown
/// flag gives the usage, a flag without its value says so.
pub fn parse_options(args: Vec<String>) -> (r: Result<Config, String>)
    ensures
        match parse_from(strs(args@), 0, default_config()) {
            Ok(c) => r == Ok::<Config, String>(c),
            Err(e) => r matches Err(m) && m@ == e,
        },
{
    let ghost a = strs(args@);
    let mut config = Config::default();
    let mut at: usize = 0;
    while at < args.len()
        invariant
            a == strs(args@),
            at <= args.len(),
            parse_from(a, at as int, config) == parse_from(a, 0, default_config()),
        decreases args.len() - at,
    {
        let option = args[at].as_str();
        assert(a[at as int] == option@);
        let index = match flag_index_exec(option) {
            None => {
                return Err(owned(usage()));
            },
            Some(i) => i,
        };
        if at + 1 >= args.len() {
            return Err(cat("missing value for ", option));
        }
        assert(a[at + 1] == args@[at + 1]@);
        let n = match parse_usize(args[at + 1].as_str()) {
            Some(n) => n,
            None => {
                return Err(cat(option, " requires a positive integer"));
            },
        };
        if n == 0 {
            return Err(cat(option, " requires a positive integer"));
        }
        if index == 0 {
            config.max_turns = n;
        } else if index == 1 {
            config.max_tool_calls = n;
        } else if index == 2 {
            config.max_tool_output_bytes = n;
        } else if index == 3 {
            config.max_response_tokens = n;
        } else {
            config.timeout_seconds = n;
        }
        at = at + 2;
    }
    Ok(config)
}

// ── bounded output ───────────────────────────────────────────────────────────

/// The UTF-8 length of a character.
pub open spec fn char_len(c: char) -> nat {
    if (c as u32) < 0x80 {
        1
    } else if (c as u32) < 0x800 {
        2
    } else if (c as u32) < 0x10000 {
        3
    } else {
        4
    }
}

/// The UTF-8 length of a text, in bytes.
pub open spec fn utf8_len(s: Seq<char>) -> nat
    decreases s.len(),
{
    if s.len() == 0 {
        0
    } else {
        utf8_len(s.drop_last()) + char_len(s.last())
    }
}

/// How many leading characters fit in `limit` bytes.
pub open spec fn fit_count(s: Seq<char>, limit: nat) -> nat
    decreases s.len(),
{
    if s.len() == 0 || char_len(s[0]) > limit {
        0
    } else {
        1 + fit_count(s.drop_first(), (limit - char_len(s[0])) as nat)
    }
}

/// The longest prefix of whole characters within `limit` bytes.
pub open spec fn prefix_within(s: Seq<char>, limit: nat) -> Seq<char> {
    s.take(fit_count(s, limit) as int)
}

proof fn lemma_utf8_len_first(s: Seq<char>)
    requires
        s.len() > 0,
    ensures
        utf8_len(s) == char_len(s[0]) + utf8_len(s.drop_first()),
    decreases s.len(),
{
    if s.len() > 1 {
        lemma_utf8_len_first(s.drop_last());
        assert(s.drop_last().drop_first() =~= s.drop_first().drop_last());
        assert(s.drop_first().last() == s.last());
        assert(s.drop_last()[0] == s[0]);
    } else {
        assert(s.drop_first() =~= seq![]);
        assert(s.drop_last() =~= seq![]);
    }
}

/// A prefix cut at a character boundary within `limit` bytes takes no more
/// than `limit` bytes, and all of a text that fits.
pub proof fn lemma_prefix_within(s: Seq<char>, limit: nat)
    ensures
        utf8_len(prefix_within(s, limit)) <= limit,
        fit_count(s, limit) <= s.len(),
        utf8_len(s) <= limit ==> prefix_within(s, limit) == s,
    decreases s.len(),
{
    if s.len() > 0 {
        lemma_utf8_len_first(s);
        if char_len(s[0]) <= limit {
            let rest = (limit - char_len(s[0])) as nat;
            lemma_prefix_within(s.drop_first(), rest);
            let k = fit_count(s, limit);
            assert(s.take(k as int).drop_first() =~= s.drop_first().take(fit_count(s.drop_first(), rest) as int));
            lemma_utf8_len_first(s.take(k as int));
            if utf8_len(s) <= limit {
                assert(s.drop_first().take(fit_count(s.drop_first(), rest) as int) =~= s.drop_first());
                assert(s.take(k as int) =~= s);
            }
        } else {
            assert(s.take(0) =~= seq![]);
        }
    } else {
        assert(s.take(0) =~= s);
    }
}

pub(crate) fn char_len_exec(c: char) -> (r: usize)
    ensures
        r == char_len(c),
{
    let u = c as u32;
    if u < 0x80 {
        1
    } else if u < 0x800 {
        2
    } else if u < 0x10000 {
        3
    } else {
        4
    }
}

/// The UTF-8 length of a text.
pub fn utf8_length(v: &[char]) -> (r: usize)
    requires
        utf8_len(v@) <= usize::MAX,
    ensures
        r == utf8_len(v@),
{
    let mut n: usize = 0;
    let mut i: usize = 0;
    while i < v.len()
        invariant
            i <= v.len(),
            n == utf8_len(v@.take(i as int)),
            utf8_len(v@) <= usize::MAX,
        decreases v.len() - i,
    {
        assert(v@.take(i + 1).drop_last() =~= v@.take(i as int));
        proof {
            lemma_utf8_prefix(v@, i + 1);
        }
        n = n + char_len_exec(v[i]);
        i += 1;
    }
    assert(v@.take(v.len() as int) =~= v@);
    n
}

/// A count capped at the largest `usize`.
pub open spec fn saturated(n: nat) -> nat {
    if n > usize::MAX {
        usize::MAX as nat
    } else {
        n
    }
}

/// The UTF-8 length of a text, capped at the largest `usize`.
pub fn utf8_length_saturating(v: &[char]) -> (r: usize)
    ensures
        r == saturated(utf8_len(v@)),
{
    let mut n: usize = 0;
    let mut i: usize = 0;
    while i < v.len()
        invariant
            i <= v.len(),
            n == saturated(utf8_len(v@.take(i as int))),
        decreases v.len() - i,
    {
        assert(v@.take(i + 1).drop_last() =~= v@.take(i as int));
        let c = char_len_exec(v[i]);
        n = if n > usize::MAX - c { usize::MAX } else { n + c };
        i += 1;
    }
    assert(v@.take(v.len() as int) =~= v@);
    n
}

proof fn lemma_utf8_prefix(s: Seq<char>, k: int)
    requires
        0 <= k <= s.len(),
    ensures
        utf8_len(s.take(k)) <= utf8_len(s),
    decreases s.len(),
{
    if k < s.len() {
        assert(s.drop_last().take(k) =~= s.take(k));
        lemma_utf8_prefix(s.drop_last(), k);
    } else {
        assert(s.take(k) =~= s);
    }
}

/// The longest prefix of whole characters within `limit` bytes.
pub fn take_prefix(value: &str, limit: usize) -> (r: String)
    ensures
        r@ == prefix_within(value@, limit as nat),
{
    let v = chars_of(value);
    let mut out: Vec<char> = Vec::new();
    let mut room: usize = limit;
    let mut i: usize = 0;
    proof {
        assert(v@.skip(0) =~= v@);
    }
    while i < v.len() && char_len_exec(v[i]) <= room
        invariant
            i <= v.len(),
            v@ == value@,
            out@ == v@.take(i as int),
            fit_count(v@, limit as nat) == i + fit_count(v@.skip(i as int), room as nat),
        decreases v.len() - i,
    {
        proof {
            assert(v@.skip(i as int)[0] == v@[i as int]);
            assert(v@.skip(i as int).drop_first() =~= v@.skip(i + 1));
        }
        room = room - char_len_exec(v[i]);
        out.push(v[i]);
        assert(v@.take(i + 1) =~= v@.take(i as int).push(v@[i as int]));
        i += 1;
    }
    proof {
        if i < v.len() {
            assert(v@.skip(i as int)[0] == v@[i as int]);
        }
        assert(fit_count(v@.skip(i as int), room as nat) == 0);
    }
    string_of(&out)
}

/// The notice that replaces what does not fit.
pub open spec fn truncation_marker(total: nat) -> Seq<char> {
    "\n[truncated at "@ + decimal(total) + " bytes]\n"@
}

/// A tool's output within `limit` bytes: all of it when it fits, else a
/// prefix followed by a notice of the full length (or as much of the
/// notice as fits).
pub open spec fn bounded_spec(value: Seq<char>, limit: nat) -> Seq<char> {
    if utf8_len(value) <= limit {
        value
    } else {
        let marker = truncation_marker(utf8_len(value));
        if utf8_len(marker) >= limit {
            prefix_within(marker, limit)
        } else {
            prefix_within(value, (limit - utf8_len(marker)) as nat) + marker
        }
    }
}

pub fn bounded_output(value: &str, limit: usize) -> (r: String)
    requires
        utf8_len(value@) <= usize::MAX,
        utf8_len(truncation_marker(utf8_len(value@))) <= usize::MAX,
    ensures
        r@ == bounded_spec(value@, limit as nat),
{
    let v = chars_of(value);
    let total = utf8_length(&v);
    if total <= limit {
        return owned(value);
    }
    let marker = cat3("\n[truncated at ", usize_to_string(total).as_str(), " bytes]\n");
    let mv = chars_of(marker.as_str());
    let mlen = utf8_length(&mv);
    if mlen >= limit {
        return take_prefix(marker.as_str(), limit);
    }
    let mut out = take_prefix(value, limit - mlen);
    push_str(&mut out, marker.as_str());
    out
}

/// Output that does not fit is cut to fit: whatever the text, the bounded
/// output of a text longer than the limit takes at most `limit` bytes, and
/// a text within the limit is returned whole.
pub proof fn lemma_bounded_output_fits(value: Seq<char>, limit: nat)
    ensures
        utf8_len(bounded_spec(value, limit)) <= limit || bounded_spec(value, limit) == value,
        utf8_len(value) <= limit ==> bounded_spec(value, limit) == value,
        utf8_len(value) > limit ==> utf8_len(bounded_spec(value, limit)) <= limit,
{
    if utf8_len(value) > limit {
        let marker = truncation_marker(utf8_len(value));
        if utf8_len(marker) >= limit {
            lemma_prefix_within(marker, limit);
        } else {
            let room = (limit - utf8_len(marker)) as nat;
            lemma_prefix_within(value, room);
            lemma_utf8_concat(prefix_within(value, room), marker);
        }
    }
}

pub proof fn lemma_utf8_concat(a: Seq<char>, b: Seq<char>)
    ensures
        utf8_len(a + b) == utf8_len(a) + utf8_len(b),
    decreases b.len(),
{
    if b.len() == 0 {
        assert(a + b =~= a);
    } else {
        lemma_utf8_concat(a, b.drop_last());
        assert((a + b).drop_last() =~= a + b.drop_last());
    }
}

// ── the facade command grammar ───────────────────────────────────────────────

/// A command of the `bash` tool's facade; it is not a shell.
#[derive(Debug, Clone)]
pub enum BashCommand {
    Ls(Option<String>),
    Cd(String),
    Cat(String),
    Grep(String, Option<String>),
}

pub open spec fn shell_char(c: char) -> bool {
    c == '|' || c == '&' || c == ';' || c == '>' || c == '<' || c == '$' || c == '`' || c == '('
        || c == ')' || c == '{' || c == '}' || c == '\n' || c == '\r'
}

pub enum CommandView {
    Ls(Option<Seq<char>>),
    Cd(Seq<char>),
    Cat(Seq<char>),
    Grep(Seq<char>, Option<Seq<char>>),
}

pub open spec fn command_view(c: BashCommand) -> CommandView {
    match c {
        BashCommand::Ls(p) => CommandView::Ls(
            match p {
                Some(s) => Some(s@),
                None => None,
            },
        ),
        BashCommand::Cd(p) => CommandView::Cd(p@),
        BashCommand::Cat(p) => CommandView::Cat(p@),
        BashCommand::Grep(a, p) => CommandView::Grep(
            a@,
            match p {
                Some(s) => Some(s@),
                None => None,
            },
        ),
    }
}

/// The command a facade line names: `ls [path]`, `cd path`, `cat path` or
/// `grep literal [path]`, its words split at whitespace. A line that is
/// empty or holds shell syntax is refused.
pub open spec fn parse_command_spec(line: Seq<char>) -> Result<CommandView, Seq<char>> {
    if line.len() == 0 || exists|i: int| 0 <= i < line.len() && shell_char(#[trigger] line[i]) {
        Err("unsupported shell syntax"@)
    } else {
        let w = words(line);
        if w.len() == 1 && w[0] == "ls"@ {
            Ok(CommandView::Ls(None))
        } else if w.len() == 2 && w[0] == "ls"@ {
            Ok(CommandView::Ls(Some(w[1])))
        } else if w.len() == 2 && w[0] == "cd"@ {
            Ok(CommandView::Cd(w[1]))
        } else if w.len() == 2 && w[0] == "cat"@ {
            Ok(CommandView::Cat(w[1]))
        } else if w.len() == 2 && w[0] == "grep"@ {
            Ok(CommandView::Grep(w[1], None))
        } else if w.len() == 3 && w[0] == "grep"@ {
            Ok(CommandView::Grep(w[1], Some(w[2])))
        } else {
            Err("unsupported command grammar"@)
        }
    }
}

fn has_shell_char(v: &[char]) -> (r: bool)
    ensures
        r == exists|i: int| 0 <= i < v@.len() && shell_char(#[trigger] v@[i]),
{
    let mut i: usize = 0;
    while i < v.len()
        invariant
            i <= v.len(),
            forall|k: int| 0 <= k < i ==> !shell_char(#[trigger] v@[k]),
        decreases v.len() - i,
    {
        let c = v[i];
        if c == '|' || c == '&' || c == ';' || c == '>' || c == '<' || c == '$' || c == '`' || c == '('
            || c == ')' || c == '{' || c == '}' || c == '\n' || c == '\r' {
            assert(shell_char(v@[i as int]));
            return true;
        }
        i += 1;
    }
    false
}

/// Reads one facade command.
pub fn parse_command(line: &str) -> (r: Result<BashCommand, String>)
    ensures
        match parse_command_spec(line@) {
            Ok(c) => r matches Ok(x) && command_view(x) == c,
            Err(e) => r matches Err(m) && m@ == e,
        },
{
    let v = chars_of(line);
    if v.len() == 0 || has_shell_char(&v) {
        return Err(owned("unsupported shell syntax"));
    }
    let w = split_whitespace(&v);
    let ghost ws = w@.map_values(|x: Vec<char>| x@);
    assert(ws == words(line@));
    let n = w.len();
    if n >= 1 && n <= 3 {
        assert(ws[0] == w@[0]@);
        let first = string_of(&w[0]);
        let f = first.as_str();
        if n == 1 && str_eq(f, "ls") {
            return Ok(BashCommand::Ls(None));
        }
        if n == 2 {
            assert(ws[1] == w@[1]@);
            let arg = string_of(&w[1]);
            if str_eq(f, "ls") {
                return Ok(BashCommand::Ls(Some(arg)));
            } else if str_eq(f, "cd") {
                return Ok(BashCommand::Cd(arg));
            } else if str_eq(f, "cat") {
                return Ok(BashCommand::Cat(arg));
            } else if str_eq(f, "grep") {
                return Ok(BashCommand::Grep(arg, None));
            }
        }
        if n == 3 && str_eq(f, "grep") {
            assert(ws[1] == w@[1]@);
            assert(ws[2] == w@[2]@);
            return Ok(BashCommand::Grep(string_of(&w[1]), Some(string_of(&w[2]))));
        }
    }
    Err(owned("unsupported command grammar"))
}

// ── summaries ────────────────────────────────────────────────────────────────

/// A raw snapshot recorded in the state: the file, the URL it came from,
/// and when it was written (nanoseconds).
#[derive(Debug, Clone)]
pub struct RawRecord {
    pub filename: String,
    pub url: String,
    pub written_at: u128,
}

/// A summary recorded in the state.
#[derive(Debug, Clone)]
pub struct SummaryRecord {
    pub filename: String,
    pub source_key: String,
    pub derived_from: String,
    pub created_at: u128,
    pub updated_at: u128,
}

/// Whether a summary file name is a plain Markdown file name: not empty,
/// not `.` or `..`, without a path separator, and with an `md` extension
/// (ignoring ASCII case) after its last `.`.
pub open spec fn summary_name_ok(f: Seq<char>) -> bool {
    &&& f.len() > 0
    &&& f != "."@
    &&& f != ".."@
    &&& !f.contains('/')
    &&& !f.contains('\\')
    &&& exists|i: int| #[trigger] md_dot(f, i)
}

/// Position `i` holds the last `.` of the name and an `md` extension follows.
pub open spec fn md_dot(f: Seq<char>, i: int) -> bool {
    0 <= i < f.len() && f[i] == '.' && !f.skip(i + 1).contains('.') && crate::text::ascii_lower_seq(f.skip(i + 1))
        == "md"@
}

pub fn check_summary_filename(filename: &str) -> (r: Result<(), String>)
    ensures
        summary_name_ok(filename@) ==> r is Ok,
        !summary_name_ok(filename@) ==> (r matches Err(m) && m@ == "summary filename must be a Markdown file name"@),
{
    let v = chars_of(filename);
    let bad = Err(owned("summary filename must be a Markdown file name"));
    if v.len() == 0 || str_eq(filename, ".") || str_eq(filename, "..") || contains_char(&v, '/')
        || contains_char(&v, '\\') {
        return bad;
    }
    let mut i: usize = v.len();
    while i > 0
        invariant
            i <= v.len(),
            v@ == filename@,
            filename@.len() > 0,
            bad matches Err(m) && m@ == "summary filename must be a Markdown file name"@,
            filename@ != "."@,
            filename@ != ".."@,
            !filename@.contains('/'),
            !filename@.contains('\\'),
            forall|k: int| i <= k < v@.len() ==> v@[k] != '.',
        decreases i,
    {
        if v[i - 1] == '.' {
            let k = i - 1;
            let mut ext: Vec<char> = Vec::new();
            let mut j: usize = i;
            while j < v.len()
                invariant
                    i <= j <= v.len(),
                    ext@ == v@.subrange(i as int, j as int),
                decreases v.len() - j,
            {
                ext.push(v[j]);
                assert(v@.subrange(i as int, j + 1) == v@.subrange(i as int, j as int).push(v@[j as int]));
                j += 1;
            }
            assert(v@.skip(i as int) =~= ext@);
            assert(!v@.skip(i as int).contains('.')) by {
                if v@.skip(i as int).contains('.') {
                    let w = choose|w: int| 0 <= w < v@.skip(i as int).len() && v@.skip(i as int)[w] == '.';
                    assert(v@[i + w] == '.');
                }
            }
            if crate::collect::input::eq_ignore_ascii_case(&ext, "md") {
                proof {
                    reveal_strlit("md");
                    assert(crate::text::ascii_lower_seq("md"@) =~= "md"@);
                    assert(crate::text::ascii_lower_seq(v@.skip(k + 1)) == "md"@);
                    assert(v@[k as int] == '.');
                    assert(md_dot(filename@, k as int));
                }
                return Ok(());
            }
            proof {
                reveal_strlit("md");
                assert(crate::text::ascii_lower_seq("md"@) =~= "md"@);
                assert forall|x: int| !#[trigger] md_dot(filename@, x) by {
                    if 0 <= x < v@.len() && v@[x] == '.' && !v@.skip(x + 1).contains('.') {
                    if x < k {
                        assert(v@.skip(x + 1)[k - x - 1] == '.');
                    } else if x > k {
                        assert(v@[x] != '.');
                    } else {
                        assert(v@.skip(x + 1) =~= ext@);
                    }
                    }
                }
            }
            return bad;
        }
        i -= 1;
    }
    assert(!summary_name_ok(filename@)) by {
        if summary_name_ok(filename@) {
            let x = choose|x: int| #[trigger] md_dot(filename@, x);
            assert(v@[x] != '.');
        }
    }
    bad
}

/// Checks a summary's Markdown: not blank, and within the output bound.
pub fn check_summary_markdown(markdown: &str, max_output_bytes: usize) -> (r: Result<(), String>)
    requires
        utf8_len(markdown@) <= usize::MAX,
    ensures
        trim(markdown@).len() == 0 ==> (r matches Err(m) && m@ == "summary Markdown must be non-empty"@),
        trim(markdown@).len() > 0 && utf8_len(markdown@) > max_output_bytes ==> (r matches Err(m) && m@
            == "summary exceeds max tool output bytes ("@ + decimal(max_output_bytes as nat) + ")"@),
        trim(markdown@).len() > 0 && utf8_len(markdown@) <= max_output_bytes ==> r is Ok,
{
    if crate::text::is_blank_str(markdown) {
        return Err(owned("summary Markdown must be non-empty"));
    }
    let v = chars_of(markdown);
    if utf8_length(&v) > max_output_bytes {
        return Err(cat3("summary exceeds max tool output bytes (", usize_to_string(max_output_bytes).as_str(), ")"));
    }
    Ok(())
}

/// The record a summary write leaves: a first write is created and
/// updated now; a rewrite keeps its file and creation time, and its update
/// time moves forward, past the previous one even when the clock did not.
pub open spec fn record_spec(
    existing: Option<SummaryRecord>,
    source_key: Seq<char>,
    latest_filename: Seq<char>,
    now: u128,
) -> (Seq<char>, Seq<char>, Seq<char>, u128, u128) {
    match existing {
        Some(e) => (
            e.filename@,
            source_key,
            latest_filename,
            e.created_at,
            if now > e.updated_at + 1 { now } else { (e.updated_at + 1) as u128 },
        ),
        None => (latest_filename, source_key, latest_filename, now, now),
    }
}

pub open spec fn record_view(r: SummaryRecord) -> (Seq<char>, Seq<char>, Seq<char>, u128, u128) {
    (r.filename@, r.source_key@, r.derived_from@, r.created_at, r.updated_at)
}

/// The first summary recorded for the source.
pub open spec fn summary_for(records: Seq<SummaryRecord>, key: Seq<char>) -> Option<int>
    decreases records.len(),
{
    if records.len() == 0 {
        None
    } else if records[0].source_key@ == key {
        Some(0)
    } else {
        match summary_for(records.drop_first(), key) {
            Some(i) => Some(i + 1),
            None => None,
        }
    }
}

proof fn lemma_summary_for(records: Seq<SummaryRecord>, key: Seq<char>)
    ensures
        summary_for(records, key) matches Some(i) ==> 0 <= i < records.len() && records[i].source_key@ == key
            && forall|j: int| 0 <= j < i ==> records[j].source_key@ != key,
        summary_for(records, key) is None ==> forall|j: int| 0 <= j < records.len() ==> records[j].source_key@ != key,
    decreases records.len(),
{
    if records.len() > 0 {
        lemma_summary_for(records.drop_first(), key);
        if records[0].source_key@ != key {
            assert forall|j: int| 0 < j < records.len() implies records[j] == records.drop_first()[j - 1] by {}
        }
    }
}

fn find_summary(records: &Vec<SummaryRecord>, key: &str) -> (r: Option<usize>)
    ensures
        r matches Some(k) ==> summary_for(records@, key@) == Some(k as int),
        r is None ==> summary_for(records@, key@) is None,
{
    proof {
        lemma_summary_for(records@, key@);
    }
    let mut i: usize = 0;
    while i < records.len()
        invariant
            i <= records.len(),
            forall|j: int| 0 <= j < i ==> records@[j].source_key@ != key@,
        decreases records.len() - i,
    {
        if str_eq(records[i].source_key.as_str(), key) {
            proof {
                lemma_summary_for(records@, key@);
                if let Some(k) = summary_for(records@, key@) {
                    if k > i {
                        assert(records@[i as int].source_key@ != key@);
                    }
                }
            }
            return Some(i);
        }
        i += 1;
    }
    proof {
        lemma_summary_for(records@, key@);
        if let Some(k) = summary_for(records@, key@) {
            assert(records@[k].source_key@ != key@);
        }
    }
    None
}

fn rewritten_record(e: &SummaryRecord, source_key: &str, latest_filename: &str, now: u128) -> (r: SummaryRecord)
    requires
        e.updated_at < u128::MAX,
    ensures
        record_view(r) == record_spec(Some(*e), source_key@, latest_filename@, now),
{
    let next: u128 = e.updated_at + 1;
    let updated_at: u128 = if now > next { now } else { next };
    SummaryRecord {
        filename: e.filename.clone(),
        source_key: owned(source_key),
        derived_from: owned(latest_filename),
        created_at: e.created_at,
        updated_at,
    }
}

/// Records a summary written at `now` for `source_key`, whose newest raw
/// snapshot is `latest_filename`: the source's record is replaced in place,
/// or a new one is added at the end. Returns the summary's file name.
pub fn upsert_summary(
    summaries: &mut Vec<SummaryRecord>,
    source_key: &str,
    latest_filename: &str,
    now: u128,
) -> (filename: String)
    requires
        forall|i: int| 0 <= i < old(summaries)@.len() ==> old(summaries)@[i].updated_at < u128::MAX,
    ensures
        summary_for(old(summaries)@, source_key@) matches Some(i) ==> {
            &&& final(summaries)@.len() == old(summaries)@.len()
            &&& record_view(final(summaries)@[i]) == record_spec(Some(old(summaries)@[i]), source_key@, latest_filename@, now)
            &&& forall|j: int| 0 <= j < old(summaries)@.len() && j != i ==> final(summaries)@[j] == old(summaries)@[j]
            &&& filename@ == old(summaries)@[i].filename@
        },
        summary_for(old(summaries)@, source_key@) is None ==> {
            &&& final(summaries)@.len() == old(summaries)@.len() + 1
            &&& record_view(final(summaries)@.last()) == record_spec(None, source_key@, latest_filename@, now)
            &&& final(summaries)@.drop_last() == old(summaries)@
            &&& filename@ == latest_filename@
        },
{
    proof {
        lemma_summary_for(summaries@, source_key@);
    }
    match find_summary(summaries, source_key) {
        Some(i) => {
            let record = rewritten_record(&summaries[i], source_key, latest_filename, now);
            let filename = summaries[i].filename.clone();
            summaries.set(i, record);
            filename
        },
        None => {
            summaries.push(
                SummaryRecord {
                    filename: owned(latest_filename),
                    source_key: owned(source_key),
                    derived_from: owned(latest_filename),
                    created_at: now,
                    updated_at: now,
                },
            );
            assert(summaries@.drop_last() =~= old(summaries)@);
            owned(latest_filename)
        },
    }
}

/// A summary rewrite never loses its creation time, and its update time
/// always moves past the previous one.
pub proof fn lemma_rewrite_keeps_created_and_advances(
    e: SummaryRecord,
    source_key: Seq<char>,
    latest_filename: Seq<char>,
    now: u128,
)
    requires
        e.updated_at < u128::MAX,
    ensures
        record_spec(Some(e), source_key, latest_filename, now).3 == e.created_at,
        record_spec(Some(e), source_key, latest_filename, now).4 > e.updated_at,
        record_spec(Some(e), source_key, latest_filename, now).4 >= now,
        record_spec(Some(e), source_key, latest_filename, now).0 == e.filename@,
{
}



// ── sources ──────────────────────────────────────────────────────────────────

/// A source identity's newest raw snapshot.
#[derive(Debug, Clone)]
pub struct Source {
    pub latest_filename: String,
    pub latest_written_at: u128,
    pub latest_state_index: usize,
}

/// The first state record of a raw file.
pub open spec fn first_raw(raw: Seq<RawRecord>, f: Seq<char>) -> Option<int>
    decreases raw.len(),
{
    if raw.len() == 0 {
        None
    } else if raw[0].filename@ == f {
        Some(0)
    } else {
        match first_raw(raw.drop_first(), f) {
            Some(i) => Some(i + 1),
            None => None,
        }
    }
}

proof fn lemma_first_raw(raw: Seq<RawRecord>, f: Seq<char>)
    ensures
        first_raw(raw, f) matches Some(i) ==> 0 <= i < raw.len() && raw[i].filename@ == f
            && forall|j: int| 0 <= j < i ==> raw[j].filename@ != f,
        first_raw(raw, f) is None ==> forall|j: int| 0 <= j < raw.len() ==> raw[j].filename@ != f,
    decreases raw.len(),
{
    if raw.len() > 0 {
        lemma_first_raw(raw.drop_first(), f);
        if raw[0].filename@ != f {
            assert forall|j: int| 0 < j < raw.len() implies raw[j] == raw.drop_first()[j - 1] by {}
        }
    }
}

/// The source identity of a raw file, with the time and position of its
/// state record: the record's URL, or `raw:<file>` at time 0 for a file
/// the state does not record.
pub open spec fn source_of(raw: Seq<RawRecord>, f: Seq<char>) -> (Seq<char>, u128, int) {
    match first_raw(raw, f) {
        Some(i) => (raw[i].url@, raw[i].written_at, i),
        None => ("raw:"@ + f, 0, 0),
    }
}

/// A source as (identity, newest file, its time, its state position).
pub type SourceEntry = (Seq<char>, Seq<char>, u128, int);

pub open spec fn entry_position(es: Seq<SourceEntry>, k: Seq<char>) -> Option<int>
    decreases es.len(),
{
    if es.len() == 0 {
        None
    } else if es[0].0 == k {
        Some(0)
    } else {
        match entry_position(es.drop_first(), k) {
            Some(i) => Some(i + 1),
            None => None,
        }
    }
}

/// `(w, i)` comes after `(w2, i2)`: a later time, or the same time and a
/// later position.
pub open spec fn newer(w: u128, i: int, w2: u128, i2: int) -> bool {
    w > w2 || (w == w2 && i > i2)
}

/// The sources of the raw files, in order of first appearance; each holds
/// its newest snapshot.
pub open spec fn group_sources(files: Seq<Seq<char>>, raw: Seq<RawRecord>) -> Seq<SourceEntry>
    decreases files.len(),
{
    if files.len() == 0 {
        seq![]
    } else {
        let acc = group_sources(files.drop_last(), raw);
        let f = files.last();
        let (k, w, i) = source_of(raw, f);
        match entry_position(acc, k) {
            None => acc.push((k, f, w, i)),
            Some(p) => if newer(w, i, acc[p].2, acc[p].3) {
                acc.update(p, (k, f, w, i))
            } else {
                acc
            },
        }
    }
}

pub open spec fn entries_view(v: Seq<(String, Source)>) -> Seq<SourceEntry> {
    v.map_values(
        |e: (String, Source)| (e.0@, e.1.latest_filename@, e.1.latest_written_at, e.1.latest_state_index as int),
    )
}

proof fn lemma_entry_position(es: Seq<SourceEntry>, k: Seq<char>)
    ensures
        entry_position(es, k) matches Some(i) ==> 0 <= i < es.len() && es[i].0 == k
            && forall|j: int| 0 <= j < i ==> es[j].0 != k,
        entry_position(es, k) is None ==> forall|j: int| 0 <= j < es.len() ==> es[j].0 != k,
    decreases es.len(),
{
    if es.len() > 0 {
        lemma_entry_position(es.drop_first(), k);
        if es[0].0 != k {
            assert forall|j: int| 0 < j < es.len() implies es[j] == es.drop_first()[j - 1] by {}
        }
    }
}

fn source_of_exec(raw: &Vec<RawRecord>, f: &str) -> (r: (String, u128, usize))
    ensures
        (r.0@, r.1, r.2 as int) == source_of(raw@, f@),
{
    proof {
        lemma_first_raw(raw@, f@);
    }
    let mut i: usize = 0;
    while i < raw.len()
        invariant
            i <= raw.len(),
            forall|j: int| 0 <= j < i ==> raw@[j].filename@ != f@,
        decreases raw.len() - i,
    {
        if str_eq(raw[i].filename.as_str(), f) {
            proof {
                lemma_first_raw(raw@, f@);
                if let Some(k) = first_raw(raw@, f@) {
                    if k > i {
                        assert(raw@[i as int].filename@ != f@);
                    }
                }
            }
            return (raw[i].url.clone(), raw[i].written_at, i);
        }
        i += 1;
    }
    proof {
        lemma_first_raw(raw@, f@);
        if let Some(k) = first_raw(raw@, f@) {
            assert(raw@[k].filename@ != f@);
        }
    }
    (cat("raw:", f), 0, 0)
}

fn entry_position_exec(es: &Vec<(String, Source)>, k: &str) -> (r: Option<usize>)
    ensures
        r matches Some(p) ==> entry_position(entries_view(es@), k@) == Some(p as int),
        r is None ==> entry_position(entries_view(es@), k@) is None,
{
    let ghost ev = entries_view(es@);
    proof {
        lemma_entry_position(ev, k@);
    }
    let mut i: usize = 0;
    while i < es.len()
        invariant
            i <= es.len(),
            ev == entries_view(es@),
            forall|j: int| 0 <= j < i ==> ev[j].0 != k@,
        decreases es.len() - i,
    {
        assert(ev[i as int].0 == es@[i as int].0@);
        if str_eq(es[i].0.as_str(), k) {
            proof {
                lemma_entry_position(ev, k@);
                if let Some(q) = entry_position(ev, k@) {
                    if q > i {
                        assert(ev[i as int].0 != k@);
                    }
                }
            }
            return Some(i);
        }
        i += 1;
    }
    proof {
        lemma_entry_position(ev, k@);
        if let Some(q) = entry_position(ev, k@) {
            assert(ev[q].0 != k@);
        }
    }
    None
}

/// Groups raw files into source identities, keeping for each the newest
/// snapshot by (time, state position). `documents` are the raw file names.
pub fn source_groups(documents: &Vec<String>, raw: &Vec<RawRecord>) -> (r: Vec<(String, Source)>)
    ensures
        entries_view(r@) == group_sources(strs(documents@), raw@),
{
    let ghost fs = strs(documents@);
    let mut out: Vec<(String, Source)> = Vec::new();
    let mut n: usize = 0;
    assert(entries_view(out@) =~= seq![]);
    while n < documents.len()
        invariant
            n <= documents.len(),
            fs == strs(documents@),
            entries_view(out@) == group_sources(fs.take(n as int), raw@),
        decreases documents.len() - n,
    {
        assert(fs.take(n + 1).drop_last() =~= fs.take(n as int));
        assert(fs.take(n + 1).last() == documents@[n as int]@);
        let f = &documents[n];
        let (k, w, i) = source_of_exec(raw, f.as_str());
        let ghost before = out@;
        match entry_position_exec(&out, k.as_str()) {
            None => {
                out.push((k, Source { latest_filename: f.clone(), latest_written_at: w, latest_state_index: i }));
                assert(entries_view(out@) =~= entries_view(before).push(entries_view(out@).last()));
            },
            Some(p) => {
                proof {
                    lemma_entry_position(entries_view(before), k@);
                }
                let old_w = out[p].1.latest_written_at;
                let old_i = out[p].1.latest_state_index;
                if w > old_w || (w == old_w && i > old_i) {
                    let e = (k, Source { latest_filename: f.clone(), latest_written_at: w, latest_state_index: i });
                    out.set(p, e);
                    assert(entries_view(out@) =~= entries_view(before).update(p as int, entries_view(out@)[p as int]));
                }
            },
        }
        n += 1;
    }
    assert(fs.take(documents.len() as int) =~= fs);
    out
}

// ── the loop ─────────────────────────────────────────────────────────────────

/// How far an agent run has gone: turns taken, tool calls made, and whether
/// the one correction prompt was sent.
#[derive(Clone, Copy, Debug, PartialEq, Eq)]
pub struct AgentProgress {
    pub turns: usize,
    pub tool_calls: usize,
    pub correction_sent: bool,
}

/// The progress stays within the configured limits.
pub open spec fn within_limits(p: AgentProgress, c: Config) -> bool {
    p.turns <= c.max_turns && p.tool_calls <= c.max_tool_calls
}

pub open spec fn budget_message(what: Seq<char>, limit: nat, written: nat, sources: nat) -> Seq<char> {
    what + " reached ("@ + decimal(limit) + ") with "@ + decimal(written) + " of "@ + decimal(sources)
        + " summaries written"@
}

fn budget_error(what: &str, limit: usize, written: usize, sources: usize) -> (r: String)
    ensures
        r@ == budget_message(what@, limit as nat, written as nat, sources as nat),
{
    let mut m = cat3(what, " reached (", usize_to_string(limit).as_str());
    push_str(&mut m, ") with ");
    push_str(&mut m, usize_to_string(written).as_str());
    push_str(&mut m, " of ");
    push_str(&mut m, usize_to_string(sources).as_str());
    push_str(&mut m, " summaries written");
    m
}

/// What to do when the model answers without calling a tool.
#[derive(Debug)]
pub enum FinishStep {
    /// Every source has its summary: the run wrote this many.
    Done(usize),
    /// The model stopped twice with sources left: the run fails.
    Stop(String),
    /// Send the model this correction and take another turn.
    Correct(String),
}

impl AgentProgress {
    pub fn new() -> (r: Self)
        ensures
            r.turns == 0,
            r.tool_calls == 0,
            !r.correction_sent,
    {
        AgentProgress { turns: 0, tool_calls: 0, correction_sent: false }
    }

    /// Starts a turn, unless the turn budget is spent.
    pub fn begin_turn(&mut self, config: &Config, written: usize, sources: usize) -> (r: Result<(), String>)
        ensures
            old(self).turns >= config.max_turns ==> (r matches Err(m) && m@ == budget_message(
                "max turns"@,
                config.max_turns as nat,
                written as nat,
                sources as nat,
            ) && *final(self) == *old(self)),
            old(self).turns < config.max_turns ==> (r is Ok && *final(self) == (AgentProgress {
                turns: (old(self).turns + 1) as usize,
                ..*old(self)
            })),
    {
        if self.turns >= config.max_turns {
            return Err(budget_error("max turns", config.max_turns, written, sources));
        }
        self.turns = self.turns + 1;
        Ok(())
    }

    /// Starts a tool call, unless the tool-call budget is spent.
    pub fn begin_tool_call(&mut self, config: &Config, written: usize, sources: usize) -> (r: Result<(), String>)
        ensures
            old(self).tool_calls >= config.max_tool_calls ==> (r matches Err(m) && m@ == budget_message(
                "max tool calls"@,
                config.max_tool_calls as nat,
                written as nat,
                sources as nat,
            ) && *final(self) == *old(self)),
            old(self).tool_calls < config.max_tool_calls ==> (r is Ok && *final(self) == (AgentProgress {
                tool_calls: (old(self).tool_calls + 1) as usize,
                ..*old(self)
            })),
    {
        if self.tool_calls >= config.max_tool_calls {
            return Err(budget_error("max tool calls", config.max_tool_calls, written, sources));
        }
        self.tool_calls = self.tool_calls + 1;
        Ok(())
    }

    /// The model answered without a tool call. Done when no source is
    /// missing; otherwise one correction, then failure.
    pub fn finish_without_tools(&mut self, missing: &Vec<String>, written: usize) -> (r: FinishStep)
        ensures
            missing@.len() == 0 ==> (r matches FinishStep::Done(n) && n == written && *final(self) == *old(self)),
            missing@.len() > 0 && old(self).correction_sent ==> (r matches FinishStep::Stop(m) && m@
                == "model stopped with missing summaries: "@ + join(strs(missing@), ", "@) && *final(self) == *old(self)),
            missing@.len() > 0 && !old(self).correction_sent ==> (r matches FinishStep::Correct(m) && m@
                == correction_text(strs(missing@)) && *final(self) == (AgentProgress {
                correction_sent: true,
                ..*old(self)
            })),
    {
        if missing.len() == 0 {
            return FinishStep::Done(written);
        }
        let names = crate::text::join_strings(missing, ", ");
        if self.correction_sent {
            return FinishStep::Stop(cat("model stopped with missing summaries: ", names.as_str()));
        }
        self.correction_sent = true;
        FinishStep::Correct(
            cat(
                "You stopped before completing the task. Use the bounded tools now and write successful summaries for every missing source identity: ",
                names.as_str(),
            ),
        )
    }
}

pub open spec fn correction_text(missing: Seq<Seq<char>>) -> Seq<char> {
    "You stopped before completing the task. Use the bounded tools now and write successful summaries for every missing source identity: "@
        + join(missing, ", "@)
}

/// The run's opening request to the model.
pub open spec fn opening_text(documents: Seq<Seq<char>>) -> Seq<char> {
    "Call read_state first. Then inspect the latest raw snapshot for every source identity and write one concise Markdown summary per source. Raw documents: "@
        + join(documents, ", "@)
}

pub fn opening_message(documents: &Vec<String>) -> (r: String)
    ensures
        r@ == opening_text(strs(documents@)),
{
    cat(
        "Call read_state first. Then inspect the latest raw snapshot for every source identity and write one concise Markdown summary per source. Raw documents: ",
        crate::text::join_strings(documents, ", ").as_str(),
    )
}

/// The source keys that have no summary yet, in source order.
pub open spec fn missing_spec(sources: Seq<Seq<char>>, written: Seq<Seq<char>>) -> Seq<Seq<char>>
    decreases sources.len(),
{
    if sources.len() == 0 {
        seq![]
    } else {
        let prev = missing_spec(sources.drop_last(), written);
        if written.contains(sources.last()) {
            prev
        } else {
            prev.push(sources.last())
        }
    }
}

pub fn missing_sources(sources: &Vec<String>, written: &Vec<String>) -> (r: Vec<String>)
    ensures
        strs(r@) == missing_spec(strs(sources@), strs(written@)),
{
    let ghost sv = strs(sources@);
    let mut out: Vec<String> = Vec::new();
    let mut i: usize = 0;
    while i < sources.len()
        invariant
            i <= sources.len(),
            sv == strs(sources@),
            strs(out@) == missing_spec(sv.take(i as int), strs(written@)),
        decreases sources.len() - i,
    {
        assert(sv.take(i + 1).drop_last() =~= sv.take(i as int));
        assert(sv.take(i + 1).last() == sources@[i as int]@);
        if !crate::text::strings_contain(written, sources[i].as_str()) {
            crate::text::push_string(&mut out, sources[i].clone());
        }
        i += 1;
    }
    assert(sv.take(sources.len() as int) =~= sv);
    out
}

/// Records that a source now has its summary, once.
pub fn record_summary(written: &mut Vec<String>, source_key: &str)
    ensures
        strs(old(written)@).contains(source_key@) ==> strs(final(written)@) == strs(old(written)@),
        !strs(old(written)@).contains(source_key@) ==> strs(final(written)@) == strs(old(written)@).push(source_key@),
{
    if !crate::text::strings_contain(written, source_key) {
        crate::text::push_string(written, owned(source_key));
    }
}

/// What a tool call reports to the model: its output, or its error after
/// `ERROR: `, bounded to the configured bytes.
pub open spec fn tool_reply_text(result: Result<Seq<char>, Seq<char>>, limit: nat) -> Seq<char> {
    bounded_spec(
        match result {
            Ok(c) => c,
            Err(e) => "ERROR: "@ + e,
        },
        limit,
    )
}

pub fn tool_message_content(result: &Result<String, String>, limit: usize) -> (r: String)
    requires
        utf8_len(match result {
            Ok(c) => c@,
            Err(e) => "ERROR: "@ + e@,
        }) <= usize::MAX,
        utf8_len(
            truncation_marker(
                utf8_len(match result {
                    Ok(c) => c@,
                    Err(e) => "ERROR: "@ + e@,
                }),
            ),
        ) <= usize::MAX,
    ensures
        r@ == tool_reply_text(
            match result {
                Ok(c) => Ok(c@),
                Err(e) => Err(e@),
            },
            limit as nat,
        ),
{
    match result {
        Ok(c) => bounded_output(c.as_str(), limit),
        Err(e) => {
            let content = cat("ERROR: ", e.as_str());
            bounded_output(content.as_str(), limit)
        },
    }
}

/// A run never takes more turns or tool calls than its limits allow: each
/// step either stays within them or refuses and leaves the progress as it
/// was. A correction is sent at most once.
pub proof fn lemma_agent_steps_stay_within_limits(p: AgentProgress, c: Config)
    requires
        within_limits(p, c),
    ensures
        p.turns < c.max_turns ==> within_limits(AgentProgress { turns: (p.turns + 1) as usize, ..p }, c),
        p.tool_calls < c.max_tool_calls ==> within_limits(AgentProgress { tool_calls: (p.tool_calls + 1) as usize, ..p }, c),
        within_limits(AgentProgress { correction_sent: true, ..p }, c),
{
}

// ── tool calls ───────────────────────────────────────────────────────────────

/// A tool call the agent will carry out.
#[derive(Debug, Clone)]
pub enum ToolAction {
    ReadState,
    Bash(String),
    ReadSummary(String),
    WriteSummary(String, String),
}

pub enum ToolActionView {
    ReadState,
    Bash(Seq<char>),
    ReadSummary(Seq<char>),
    WriteSummary(Seq<char>, Seq<char>),
}

pub open spec fn tool_action_view(a: ToolAction) -> ToolActionView {
    match a {
        ToolAction::ReadState => ToolActionView::ReadState,
        ToolAction::Bash(c) => ToolActionView::Bash(c@),
        ToolAction::ReadSummary(k) => ToolActionView::ReadSummary(k@),
        ToolAction::WriteSummary(k, m) => ToolActionView::WriteSummary(k@, m@),
    }
}

/// A call's arguments: each key with its value when the value is a string.
pub open spec fn args_view(args: Seq<(String, Option<String>)>) -> Seq<(Seq<char>, Option<Seq<char>>)> {
    args.map_values(
        |a: (String, Option<String>)|
            (
                a.0@,
                match a.1 {
                    Some(v) => Some(v@),
                    None => None,
                },
            ),
    )
}

/// The value of the first argument with the given key.
pub open spec fn arg_lookup(args: Seq<(Seq<char>, Option<Seq<char>>)>, key: Seq<char>) -> Option<Option<Seq<char>>>
    decreases args.len(),
{
    if args.len() == 0 {
        None
    } else {
        match arg_lookup(args.drop_last(), key) {
            Some(v) => Some(v),
            None => if args.last().0 == key {
                Some(args.last().1)
            } else {
                None
            },
        }
    }
}

/// The string value of an argument, when there is one.
pub open spec fn arg_str(args: Seq<(Seq<char>, Option<Seq<char>>)>, key: Seq<char>) -> Option<Seq<char>> {
    match arg_lookup(args, key) {
        Some(Some(v)) => Some(v),
        _ => None,
    }
}

proof fn lemma_arg_lookup_prefix(s: Seq<(Seq<char>, Option<Seq<char>>)>, k: int, key: Seq<char>)
    requires
        0 <= k <= s.len(),
        arg_lookup(s.take(k), key) is Some,
    ensures
        arg_lookup(s, key) == arg_lookup(s.take(k), key),
    decreases s.len() - k,
{
    if k == s.len() {
        assert(s.take(k) =~= s);
    } else {
        assert(s.drop_last().take(k) =~= s.take(k));
        lemma_arg_lookup_prefix(s.drop_last(), k, key);
    }
}

fn string_arg(args: &Vec<(String, Option<String>)>, key: &str) -> (r: Option<String>)
    ensures
        match arg_str(args_view(args@), key@) {
            Some(v) => r matches Some(x) && x@ == v,
            None => r is None,
        },
{
    let ghost av = args_view(args@);
    let mut i: usize = 0;
    while i < args.len()
        invariant
            i <= args.len(),
            av == args_view(args@),
            arg_lookup(av.take(i as int), key@) is None,
        decreases args.len() - i,
    {
        assert(av.take(i + 1).drop_last() =~= av.take(i as int));
        assert(av.take(i + 1).last() == av[i as int]);
        if str_eq(args[i].0.as_str(), key) {
            proof {
                lemma_arg_lookup_prefix(av, i + 1, key@);
            }
            return match &args[i].1 {
                Some(v) => Some(v.clone()),
                None => None,
            };
        }
        i += 1;
    }
    assert(av.take(args.len() as int) =~= av);
    None
}

/// Every tool but `read_state` waits until the state was read.
pub open spec fn gate_spec(name: Seq<char>, state_read: bool) -> Result<(), Seq<char>> {
    if name != "read_state"@ && !state_read {
        Err("read_state must be called before other tools"@)
    } else {
        Ok(())
    }
}

pub fn check_tool_gate(name: &str, state_read: bool) -> (r: Result<(), String>)
    ensures
        match gate_spec(name@, state_read) {
            Ok(()) => r is Ok,
            Err(m) => r matches Err(e) && e@ == m,
        },
{
    if !str_eq(name, "read_state") && !state_read {
        return Err(owned("read_state must be called before other tools"));
    }
    Ok(())
}

/// Which tool a call names, with its arguments checked.
pub open spec fn plan_tool_spec(name: Seq<char>, args: Seq<(Seq<char>, Option<Seq<char>>)>) -> Result<
    ToolActionView,
    Seq<char>,
> {
    if name == "read_state"@ {
        if args.len() != 0 {
            Err("read_state arguments must be empty"@)
        } else {
            Ok(ToolActionView::ReadState)
        }
    } else if name == "bash"@ {
        if args.len() != 1 {
            Err("bash arguments must contain only command"@)
        } else {
            match arg_str(args, "command"@) {
                Some(c) => Ok(ToolActionView::Bash(c)),
                None => Err("bash.command must be a string"@),
            }
        }
    } else if name == "read_summary"@ {
        if args.len() != 1 {
            Err("read_summary arguments must contain only source_key"@)
        } else {
            match arg_str(args, "source_key"@) {
                Some(k) => Ok(ToolActionView::ReadSummary(k)),
                None => Err("read_summary.source_key must be a string"@),
            }
        }
    } else if name == "write_summary"@ {
        if args.len() != 2 {
            Err("write_summary arguments must contain only source_key and markdown"@)
        } else {
            match arg_str(args, "source_key"@) {
                None => Err("write_summary.source_key must be a string"@),
                Some(k) => match arg_str(args, "markdown"@) {
                    None => Err("write_summary.markdown must be a string"@),
                    Some(m) => Ok(ToolActionView::WriteSummary(k, m)),
                },
            }
        }
    } else {
        Err("unsupported tool: "@ + name)
    }
}

/// Reads a tool call: its name and its arguments, each with its value when
/// that is a string.
pub fn plan_tool_call(name: &str, args: &Vec<(String, Option<String>)>) -> (r: Result<ToolAction, String>)
    ensures
        match plan_tool_spec(name@, args_view(args@)) {
            Ok(a) => r matches Ok(x) && tool_action_view(x) == a,
            Err(m) => r matches Err(e) && e@ == m,
        },
{
    if str_eq(name, "read_state") {
        if args.len() != 0 {
            return Err(owned("read_state arguments must be empty"));
        }
        return Ok(ToolAction::ReadState);
    }
    if str_eq(name, "bash") {
        if args.len() != 1 {
            return Err(owned("bash arguments must contain only command"));
        }
        return match string_arg(args, "command") {
            Some(c) => Ok(ToolAction::Bash(c)),
            None => Err(owned("bash.command must be a string")),
        };
    }
    if str_eq(name, "read_summary") {
        if args.len() != 1 {
            return Err(owned("read_summary arguments must contain only source_key"));
        }
        return match string_arg(args, "source_key") {
            Some(k) => Ok(ToolAction::ReadSummary(k)),
            None => Err(owned("read_summary.source_key must be a string")),
        };
    }
    if str_eq(name, "write_summary") {
        if args.len() != 2 {
            return Err(owned("write_summary arguments must contain only source_key and markdown"));
        }
        let key = match string_arg(args, "source_key") {
            Some(k) => k,
            None => {
                return Err(owned("write_summary.source_key must be a string"));
            },
        };
        return match string_arg(args, "markdown") {
            Some(m) => Ok(ToolAction::WriteSummary(key, m)),
            None => Err(owned("write_summary.markdown must be a string")),
        };
    }
    Err(cat("unsupported tool: ", name))
}

/// The reply to a summary written.
pub fn summary_written_message(source_key: &str) -> (r: String)
    ensures
        r@ == "summary written: "@ + source_key@,
{
    cat("summary written: ", source_key)
}

// ── grep ─────────────────────────────────────────────────────────────────────

/// The lines of one file that contain the literal, as `name:line:text`,
/// numbering lines from one.
pub open spec fn grep_file(name: Seq<char>, lines: Seq<Seq<char>>, pattern: Seq<char>) -> Seq<char>
    decreases lines.len(),
{
    if lines.len() == 0 {
        seq![]
    } else {
        grep_file(name, lines.drop_last(), pattern) + if crate::text::contains(lines.last(), pattern) {
            name + ":"@ + decimal(lines.len()) + ":"@ + lines.last() + "\n"@
        } else {
            seq![]
        }
    }
}

pub open spec fn grep_files(files: Seq<(Seq<char>, Seq<Seq<char>>)>, pattern: Seq<char>) -> Seq<char>
    decreases files.len(),
{
    if files.len() == 0 {
        seq![]
    } else {
        grep_files(files.drop_last(), pattern) + grep_file(files.last().0, files.last().1, pattern)
    }
}

/// The matches, or `(no matches)` when there are none.
pub open spec fn grep_text(files: Seq<(Seq<char>, Seq<Seq<char>>)>, pattern: Seq<char>) -> Seq<char> {
    if grep_files(files, pattern).len() == 0 {
        "(no matches)\n"@
    } else {
        grep_files(files, pattern)
    }
}

pub open spec fn files_view(files: Seq<(String, Vec<String>)>) -> Seq<(Seq<char>, Seq<Seq<char>>)> {
    files.map_values(|f: (String, Vec<String>)| (f.0@, strs(f.1@)))
}

/// The `grep` facade's output over the given files and their lines, before
/// it is bounded.
pub fn grep_output(files: &Vec<(String, Vec<String>)>, pattern: &str) -> (r: String)
    ensures
        r@ == grep_text(files_view(files@), pattern@),
{
    let ghost fv = files_view(files@);
    let mut out = String::new();
    let mut i: usize = 0;
    while i < files.len()
        invariant
            i <= files.len(),
            fv == files_view(files@),
            out@ == grep_files(fv.take(i as int), pattern@),
        decreases files.len() - i,
    {
        assert(fv.take(i + 1).drop_last() =~= fv.take(i as int));
        assert(fv.take(i + 1).last() == fv[i as int]);
        let name = files[i].0.as_str();
        let lines = &files[i].1;
        let ghost lv = strs(lines@);
        let ghost base = out@;
        let mut j: usize = 0;
        while j < lines.len()
            invariant
                j <= lines.len(),
                lv == strs(lines@),
                out@ == base + grep_file(name@, lv.take(j as int), pattern@),
            decreases lines.len() - j,
        {
            assert(lv.take(j + 1).drop_last() =~= lv.take(j as int));
            assert(lv.take(j + 1).last() == lines@[j as int]@);
            let ghost before = out@;
            if crate::text::contains_str(lines[j].as_str(), pattern) {
                push_str(&mut out, name);
                push_str(&mut out, ":");
                push_str(&mut out, usize_to_string(j + 1).as_str());
                push_str(&mut out, ":");
                push_str(&mut out, lines[j].as_str());
                push_str(&mut out, "\n");
                assert(out@ =~= before + (name@ + ":"@ + decimal((j + 1) as nat) + ":"@ + lines@[j as int]@ + "\n"@));
            } else {
                assert(out@ =~= before + seq![]);
            }
            assert(lv.take(j + 1).len() == j + 1);
            j += 1;
        }
        assert(lv.take(lines.len() as int) =~= lv);
        i += 1;
    }
    assert(fv.take(files.len() as int) =~= fv);
    if out.as_str().is_empty() {
        return owned("(no matches)\n");
    }
    out
}

} // verus!
