//! `bo status`: tree health and synthesis readiness at a glance.
//!
//! The library holds the hints derived from the counts, the size estimate
//! and the report the CLI prints. Scanning the tree stays with the caller;
//! the token estimate reaches the report already formatted, since its
//! `1.2k` form is computed in floating point.
use vstd::prelude::*;

use crate::compile::render::plural;
use crate::text::{cat, cat3, decimal, owned, prefixed_lines, push_prefixed_lines, push_str, strs, usize_to_string};

verus! {

#[derive(Debug, Clone)]
pub struct LeafStatus {
    pub total: usize,
    pub unsynthesized: usize,
    pub unsynthesized_slugs: Vec<String>,
}

#[derive(Debug, Clone)]
pub struct BranchStatus {
    pub total: usize,
    pub last_synthesized_at: Option<String>,
}

#[derive(Debug, Clone, Copy)]
pub struct SizeStatus {
    pub bytes: u64,
    pub estimated_tokens: u64,
}

#[derive(Debug, Clone)]
pub struct MissingLeafFile {
    pub file: String,
    pub title: String,
    pub url: String,
    pub remediation: String,
}

#[derive(Debug, Clone)]
pub struct HealthReport {
    pub missing_leaf_files: Vec<MissingLeafFile>,
    pub untracked_leaf_files: Vec<String>,
}

#[derive(Debug, Clone)]
pub struct StatusResult {
    pub tree_name: String,
    pub leaves: LeafStatus,
    pub branches: BranchStatus,
    pub size: SizeStatus,
    pub health: HealthReport,
    pub hints: Vec<String>,
    pub provider: String,
    pub model: Option<String>,
    pub synthesis_model: Option<String>,
    pub model_context_tokens: Option<usize>,
    pub synthesis_model_context_tokens: Option<usize>,
}

#[derive(Debug)]
pub enum StatusError {
    Io(String),
    TreeState(String),
}

impl StatusError {
    pub fn message(&self) -> (r: String)
        ensures
            r@ == match self {
                StatusError::Io(m) => m@,
                StatusError::TreeState(m) => m@,
            },
    {
        match self {
            StatusError::Io(m) => m.clone(),
            StatusError::TreeState(m) => m.clone(),
        }
    }
}

/// The size of the markdown files, with about four bytes to a token.
pub fn size_status(bytes: u64) -> (r: SizeStatus)
    ensures
        r.bytes == bytes,
        r.estimated_tokens == bytes / 4,
{
    SizeStatus { bytes, estimated_tokens: bytes / 4 }
}

/// The remediation named for a leaf whose file is gone.
pub fn missing_leaf_remediation(url: &str) -> (r: String)
    ensures
        r@ == "re-collect '"@ + url@ + "' or remove the state entry"@,
{
    cat3("re-collect '", url, "' or remove the state entry")
}

// ── the report ───────────────────────────────────────────────────────────────

/// The configuration the report shows: the provider, the models and their
/// context windows.
#[derive(Debug, Clone)]
pub struct ConfigFields {
    pub provider: String,
    pub model: Option<String>,
    pub synthesis_model: Option<String>,
    pub model_context_tokens: Option<usize>,
    pub synthesis_model_context_tokens: Option<usize>,
}

/// What a report shows without a configuration: the default provider.
pub fn default_config_fields() -> (r: ConfigFields)
    ensures
        r.provider@ == "openai"@,
        r.model is None && r.synthesis_model is None,
        r.model_context_tokens is None && r.synthesis_model_context_tokens is None,
{
    ConfigFields {
        provider: owned("openai"),
        model: None,
        synthesis_model: None,
        model_context_tokens: None,
        synthesis_model_context_tokens: None,
    }
}

/// The report for a tree not seeded yet: the configuration alone, and the
/// hint to seed one.
pub fn config_only_status(config: ConfigFields) -> (r: StatusResult)
    ensures
        r.tree_name@.len() == 0,
        r.leaves.total == 0 && r.leaves.unsynthesized == 0 && r.leaves.unsynthesized_slugs@.len() == 0,
        r.branches.total == 0 && r.branches.last_synthesized_at is None,
        r.size.bytes == 0 && r.size.estimated_tokens == 0,
        r.health.missing_leaf_files@.len() == 0 && r.health.untracked_leaf_files@.len() == 0,
        strs(r.hints@) == seq!["run 'bo seed --path <path>' to create a tree"@],
        r.provider == config.provider && r.model == config.model && r.synthesis_model == config.synthesis_model,
        r.model_context_tokens == config.model_context_tokens,
        r.synthesis_model_context_tokens == config.synthesis_model_context_tokens,
{
    let mut hints: Vec<String> = Vec::new();
    crate::text::push_string(&mut hints, owned("run 'bo seed --path <path>' to create a tree"));
    assert(strs(hints@) =~= seq!["run 'bo seed --path <path>' to create a tree"@]);
    StatusResult {
        tree_name: String::new(),
        leaves: LeafStatus { total: 0, unsynthesized: 0, unsynthesized_slugs: Vec::new() },
        branches: BranchStatus { total: 0, last_synthesized_at: None },
        size: SizeStatus { bytes: 0, estimated_tokens: 0 },
        health: HealthReport { missing_leaf_files: Vec::new(), untracked_leaf_files: Vec::new() },
        hints,
        provider: config.provider,
        model: config.model,
        synthesis_model: config.synthesis_model,
        model_context_tokens: config.model_context_tokens,
        synthesis_model_context_tokens: config.synthesis_model_context_tokens,
    }
}

pub open spec fn missing_view(m: MissingLeafFile) -> (Seq<char>, Seq<char>, Seq<char>, Seq<char>) {
    (m.file@, m.title@, m.url@, m.remediation@)
}

/// The leaves whose files do not exist, with their title (or nothing), URL
/// and remediation.
pub open spec fn missing_spec(leaves: Seq<crate::tree::LeafView>, exists: Seq<bool>) -> Seq<(Seq<char>, Seq<char>, Seq<char>, Seq<char>)>
    decreases leaves.len(),
{
    if leaves.len() == 0 || exists.len() == 0 {
        seq![]
    } else {
        let prev = missing_spec(leaves.drop_last(), exists.drop_last());
        let l = leaves.last();
        if exists.last() {
            prev
        } else {
            prev.push(
                (
                    l.file,
                    match l.title {
                        Some(t) => t,
                        None => seq![],
                    },
                    l.url,
                    "re-collect '"@ + l.url + "' or remove the state entry"@,
                ),
            )
        }
    }
}

/// The leaves of the state whose files are gone; `exists[i]` tells whether
/// the file of the `i`-th leaf exists.
pub fn missing_leaf_files(state: &crate::tree::TreeState, exists: &Vec<bool>) -> (r: Vec<MissingLeafFile>)
    requires
        exists.len() == state.leaves.len(),
    ensures
        r@.map_values(|m: MissingLeafFile| missing_view(m)) == missing_spec(crate::tree::leaves_view(state.leaves@), exists@),
{
    let ghost lv = crate::tree::leaves_view(state.leaves@);
    let mut out: Vec<MissingLeafFile> = Vec::new();
    let mut i: usize = 0;
    while i < state.leaves.len()
        invariant
            i <= state.leaves.len(),
            exists.len() == state.leaves.len(),
            lv == crate::tree::leaves_view(state.leaves@),
            out@.map_values(|m: MissingLeafFile| missing_view(m)) == missing_spec(lv.take(i as int), exists@.take(i as int)),
        decreases state.leaves.len() - i,
    {
        assert(lv.take(i + 1).drop_last() =~= lv.take(i as int));
        assert(exists@.take(i + 1).drop_last() =~= exists@.take(i as int));
        assert(lv.take(i + 1).last() == state.leaves@[i as int]@);
        let l = &state.leaves[i];
        if !exists[i] {
            let m = MissingLeafFile {
                file: l.file.clone(),
                title: match &l.title {
                    Some(t) => t.clone(),
                    None => String::new(),
                },
                url: l.url.clone(),
                remediation: missing_leaf_remediation(l.url.as_str()),
            };
            let ghost before = out@;
            out.push(m);
            assert(out@.map_values(|m: MissingLeafFile| missing_view(m)) =~= before.map_values(
                |m: MissingLeafFile| missing_view(m),
            ).push(missing_view(m)));
        }
        i += 1;
    }
    assert(lv.take(state.leaves.len() as int) =~= lv);
    assert(exists@.take(state.leaves.len() as int) =~= exists@);
    out
}

/// The markdown files under `leaf/` that look like leaves but that no leaf
/// of the state names.
pub open spec fn untracked_spec(entries: Seq<(Seq<char>, bool)>, files: Seq<Seq<char>>) -> Seq<Seq<char>>
    decreases entries.len(),
{
    if entries.len() == 0 {
        seq![]
    } else {
        let prev = untracked_spec(entries.drop_last(), files);
        let (name, is_leaf) = entries.last();
        if files.contains("leaf/"@ + name) || !is_leaf {
            prev
        } else {
            prev.push(name)
        }
    }
}

/// The untracked leaf files among the `.md` files of `leaf/`; each entry is
/// a file name and whether its frontmatter names a URL.
pub fn untracked_leaf_files(state: &crate::tree::TreeState, entries: &Vec<(String, bool)>) -> (r: Vec<String>)
    ensures
        strs(r@) == untracked_spec(
            entries@.map_values(|e: (String, bool)| (e.0@, e.1)),
            crate::tree::leaves_view(state.leaves@).map_values(|l: crate::tree::LeafView| l.file),
        ),
{
    let files = crate::raze::manifest_files(&crate::tree::TreeState {
        tree: crate::tree::TreeMetadata {
            name: String::new(),
            created_at: state.tree.created_at,
            last_compiled_at: None,
        },
        leaves: clone_leaves_of(state),
        branches: Vec::new(),
    });
    let ghost fv = crate::tree::leaves_view(state.leaves@).map_values(|l: crate::tree::LeafView| l.file);
    assert(strs(files@) =~= fv);
    let ghost ev = entries@.map_values(|e: (String, bool)| (e.0@, e.1));
    let mut out: Vec<String> = Vec::new();
    let mut i: usize = 0;
    while i < entries.len()
        invariant
            i <= entries.len(),
            ev == entries@.map_values(|e: (String, bool)| (e.0@, e.1)),
            strs(files@) == fv,
            strs(out@) == untracked_spec(ev.take(i as int), fv),
        decreases entries.len() - i,
    {
        assert(ev.take(i + 1).drop_last() =~= ev.take(i as int));
        assert(ev.take(i + 1).last() == ev[i as int]);
        let name = entries[i].0.as_str();
        let relative = cat("leaf/", name);
        if !crate::text::strings_contain(&files, relative.as_str()) && entries[i].1 {
            crate::text::push_string(&mut out, owned(name));
        }
        i += 1;
    }
    assert(ev.take(entries.len() as int) =~= ev);
    out
}

fn clone_leaves_of(state: &crate::tree::TreeState) -> (r: Vec<crate::tree::Leaf>)
    ensures
        crate::tree::leaves_view(r@) == crate::tree::leaves_view(state.leaves@),
{
    let mut out: Vec<crate::tree::Leaf> = Vec::new();
    let mut i: usize = 0;
    while i < state.leaves.len()
        invariant
            i <= state.leaves.len(),
            crate::tree::leaves_view(out@) == crate::tree::leaves_view(state.leaves@).take(i as int),
        decreases state.leaves.len() - i,
    {
        let l = crate::compile::delta::clone_leaf(&state.leaves[i]);
        let ghost before = out@;
        out.push(l);
        assert(crate::tree::leaves_view(out@) =~= crate::tree::leaves_view(before).push(l@));
        assert(crate::tree::leaves_view(state.leaves@).take(i + 1) =~= crate::tree::leaves_view(state.leaves@).take(
            i as int,
        ).push(state.leaves@[i as int]@));
        i += 1;
    }
    assert(crate::tree::leaves_view(state.leaves@).take(state.leaves.len() as int) =~= crate::tree::leaves_view(
        state.leaves@,
    ));
    out
}

/// How reading the state went.
#[derive(Debug)]
pub enum StatusLoad {
    Loaded(crate::tree::TreeState),
    /// The tree is seeded but nothing was collected yet.
    FreshSeeded,
    /// The state could not be read, or is missing; the error's text.
    Failed(String),
}

/// The status of a tree. `exists[i]` tells whether the `i`-th leaf's file
/// exists; `entries` are the `.md` files of `leaf/` with whether each looks
/// like a leaf; `size_bytes` is the size of the markdown files.
pub fn compute_status(
    load: StatusLoad,
    tree_name: &str,
    now: crate::tree::Timestamp,
    exists: &Vec<bool>,
    entries: &Vec<(String, bool)>,
    size_bytes: u64,
    config: ConfigFields,
) -> (r: Result<StatusResult, StatusError>)
    requires
        load matches StatusLoad::Loaded(s) ==> exists@.len() == s.leaves@.len(),
        load is FreshSeeded ==> exists@.len() == 0,
    ensures
        load matches StatusLoad::Failed(m) ==> (r matches Err(StatusError::TreeState(e)) && e@ == m@),
        load matches StatusLoad::Loaded(s) ==> (r matches Ok(res) && res.tree_name@ == tree_name@
            && res.leaves.total == s.leaves@.len()
            && strs(res.leaves.unsynthesized_slugs@) == crate::compile::plan::new_leaf_slugs_spec(s.leaves@, s.tree.last_compiled_at)
            && res.leaves.unsynthesized == res.leaves.unsynthesized_slugs@.len()
            && res.branches.total == s.branches@.len()
            && res.size.bytes == size_bytes && res.size.estimated_tokens == size_bytes / 4
            && res.health.missing_leaf_files@.map_values(|m: MissingLeafFile| missing_view(m)) == missing_spec(
                crate::tree::leaves_view(s.leaves@), exists@)
            && strs(res.health.untracked_leaf_files@) == untracked_spec(
                entries@.map_values(|e: (String, bool)| (e.0@, e.1)),
                crate::tree::leaves_view(s.leaves@).map_values(|l: crate::tree::LeafView| l.file))
            && strs(res.hints@) == work_hint(res.leaves, res.branches) + health_hints(res.health)
            && res.provider == config.provider && res.model == config.model),
        load is FreshSeeded ==> (r matches Ok(res) && res.tree_name@ == tree_name@ && res.leaves.total == 0
            && res.leaves.unsynthesized == 0 && res.branches.total == 0 && res.branches.last_synthesized_at is None
            && res.size.bytes == size_bytes && res.health.missing_leaf_files@.len() == 0
            && strs(res.health.untracked_leaf_files@) == untracked_spec(
                entries@.map_values(|e: (String, bool)| (e.0@, e.1)), seq![])
            && strs(res.hints@) == work_hint(res.leaves, res.branches) + health_hints(res.health)),
{
    let state = match load {
        StatusLoad::Failed(m) => {
            return Err(StatusError::TreeState(m));
        },
        StatusLoad::Loaded(s) => s,
        StatusLoad::FreshSeeded => crate::tree::TreeState {
            tree: crate::tree::TreeMetadata { name: owned(tree_name), created_at: now, last_compiled_at: None },
            leaves: Vec::new(),
            branches: Vec::new(),
        },
    };
    let slugs = crate::compile::plan::select_new_leaf_slugs(&state);
    let leaves = LeafStatus { total: state.leaves.len(), unsynthesized: slugs.len(), unsynthesized_slugs: slugs };
    let last = match state.tree.last_compiled_at {
        Some(t) => t.to_rfc3339_millis(),
        None => None,
    };
    let branches = BranchStatus { total: state.branches.len(), last_synthesized_at: last };
    let size = size_status(size_bytes);
    let health = HealthReport {
        missing_leaf_files: missing_leaf_files(&state, exists),
        untracked_leaf_files: untracked_leaf_files(&state, entries),
    };
    proof {
        if state.leaves@.len() == 0 {
            assert(crate::tree::leaves_view(state.leaves@).map_values(|l: crate::tree::LeafView| l.file) =~= seq![]);
            assert(crate::tree::leaves_view(state.leaves@) =~= seq![]);
            assert(health.missing_leaf_files@.map_values(|m: MissingLeafFile| missing_view(m)).len() == 0);
        }
    }
    let hints = generate_hints(&leaves, &branches, &health);
    Ok(
        StatusResult {
            tree_name: owned(tree_name),
            leaves,
            branches,
            size,
            health,
            hints,
            provider: config.provider,
            model: config.model,
            synthesis_model: config.synthesis_model,
            model_context_tokens: config.model_context_tokens,
            synthesis_model_context_tokens: config.synthesis_model_context_tokens,
        },
    )
}

// ── hints ────────────────────────────────────────────────────────────────────

pub open spec fn work_hint(leaves: LeafStatus, branches: BranchStatus) -> Seq<Seq<char>> {
    if leaves.total == 0 {
        seq!["run 'bo collect <url>' to add your first source"@]
    } else if leaves.unsynthesized > 0 && branches.total == 0 {
        seq![
            "run 'bo synthesize' to create your first branch from "@ + decimal(leaves.total as nat)
                + " leaves"@,
        ]
    } else if leaves.unsynthesized > 0 {
        seq!["run 'bo synthesize' to process "@ + decimal(leaves.unsynthesized as nat) + " new leaves"@]
    } else {
        seq![]
    }
}

pub open spec fn health_hints(health: HealthReport) -> Seq<Seq<char>> {
    let m = health.missing_leaf_files@.len();
    let u = health.untracked_leaf_files@.len();
    (if m > 0 {
        seq![
            decimal(m) + " state "@ + plural(m, "entry"@, "entries"@)
                + " reference missing files \u{2014} re-collect or remove manually"@,
        ]
    } else {
        seq![]
    }) + (if u > 0 {
        seq![
            decimal(u) + " leaf "@ + plural(u, "file"@, "files"@)
                + " untracked \u{2014} they won't appear in search or synthesis"@,
        ]
    } else {
        seq![]
    })
}

/// The hints for what to do next: first the work to do, then the health
/// problems.
pub fn generate_hints(leaves: &LeafStatus, branches: &BranchStatus, health: &HealthReport) -> (r: Vec<String>)
    ensures
        strs(r@) == work_hint(*leaves, *branches) + health_hints(*health),
{
    let mut hints: Vec<String> = Vec::new();
    if leaves.total == 0 {
        hints.push(owned("run 'bo collect <url>' to add your first source"));
    } else if leaves.unsynthesized > 0 && branches.total == 0 {
        hints.push(cat3("run 'bo synthesize' to create your first branch from ", usize_to_string(leaves.total).as_str(), " leaves"));
    } else if leaves.unsynthesized > 0 {
        hints.push(cat3("run 'bo synthesize' to process ", usize_to_string(leaves.unsynthesized).as_str(), " new leaves"));
    }
    assert(strs(hints@) =~= work_hint(*leaves, *branches));
    let ghost first = strs(hints@);
    let m = health.missing_leaf_files.len();
    if m > 0 {
        let mut s = cat3(usize_to_string(m).as_str(), " state ", if m == 1 { "entry" } else { "entries" });
        push_str(&mut s, " reference missing files \u{2014} re-collect or remove manually");
        crate::text::push_string(&mut hints, s);
    }
    let ghost second = strs(hints@);
    let u = health.untracked_leaf_files.len();
    if u > 0 {
        let mut s = cat3(usize_to_string(u).as_str(), " leaf ", if u == 1 { "file" } else { "files" });
        push_str(&mut s, " untracked \u{2014} they won't appear in search or synthesis");
        crate::text::push_string(&mut hints, s);
    }
    assert(strs(hints@) =~= work_hint(*leaves, *branches) + health_hints(*health));
    hints
}

// ── rendering ────────────────────────────────────────────────────────────────

/// ` (NK context)` for a known context window, else nothing.
pub open spec fn context_note(t: Option<usize>) -> Seq<char> {
    match t {
        Some(n) => " ("@ + decimal((n / 1000) as nat) + "K context)"@,
        None => seq![],
    }
}

pub open spec fn config_part(r: StatusResult) -> Seq<char> {
    (if r.tree_name@.len() > 0 {
        "bo \u{00b7} "@ + r.tree_name@ + "\n"@
    } else {
        seq![]
    }) + "\n"@ + "  provider:      "@ + r.provider@ + "\n"@ + (match r.model {
        Some(m) => "  model:         "@ + m@ + context_note(r.model_context_tokens) + "\n"@,
        None => seq![],
    }) + (match r.synthesis_model {
        Some(m) => "  synthesis_model: "@ + m@ + context_note(r.synthesis_model_context_tokens) + "\n"@,
        None => seq![],
    }) + "\n"@
}

/// `N KB` from a kibibyte on, else `N B`.
pub open spec fn size_text(bytes: u64) -> Seq<char> {
    if bytes / 1024 > 0 {
        decimal((bytes / 1024) as nat) + " KB"@
    } else {
        decimal(bytes as nat) + " B"@
    }
}

pub open spec fn counts_part(r: StatusResult, tokens_text: Seq<char>) -> Seq<char> {
    (if r.leaves.unsynthesized > 0 {
        "  Leaves:      "@ + decimal(r.leaves.total as nat) + " ("@ + decimal(r.leaves.unsynthesized as nat)
            + " unsynthesized)\n"@
    } else {
        "  Leaves:      "@ + decimal(r.leaves.total as nat) + "\n"@
    }) + "  Branches:    "@ + decimal(r.branches.total as nat) + "\n"@ + (match r.branches.last_synthesized_at {
        Some(ts) => "  Last synthesis: "@ + ts@ + "\n"@,
        None => seq![],
    }) + "  Size:        "@ + size_text(r.size.bytes) + " (~"@ + tokens_text + " tokens)\n"@
}

/// At most ten slugs are listed, then how many more there are.
pub open spec fn unsynthesized_part(slugs: Seq<Seq<char>>) -> Seq<char> {
    if slugs.len() == 0 {
        seq![]
    } else {
        let shown: nat = if slugs.len() < 10 { slugs.len() } else { 10 };
        let remaining = slugs.len() - shown;
        "\n"@ + "  Unsynthesized:\n"@ + prefixed_lines("    \u{2022} "@, slugs.take(shown as int)) + (if remaining > 0 {
            "    \u{2026} and "@ + decimal(remaining as nat) + " more\n"@
        } else {
            seq![]
        })
    }
}

pub open spec fn orphan_lines(ms: Seq<MissingLeafFile>) -> Seq<char>
    decreases ms.len(),
{
    if ms.len() == 0 {
        seq![]
    } else {
        orphan_lines(ms.drop_last()) + "    \u{26a0} orphan: "@ + ms.last().file@ + " ("@ + ms.last().remediation@
            + ")\n"@
    }
}

pub open spec fn untracked_lines(us: Seq<Seq<char>>) -> Seq<char>
    decreases us.len(),
{
    if us.len() == 0 {
        seq![]
    } else {
        untracked_lines(us.drop_last()) + "    \u{26a0} untracked: "@ + us.last()
            + " (run 'bo collect' to track it)\n"@
    }
}

pub open spec fn issues_part(h: HealthReport) -> Seq<char> {
    if h.missing_leaf_files@.len() == 0 && h.untracked_leaf_files@.len() == 0 {
        seq![]
    } else {
        "\n"@ + "  Issues:\n"@ + orphan_lines(h.missing_leaf_files@) + untracked_lines(
            strs(h.untracked_leaf_files@),
        )
    }
}

pub open spec fn hints_part(hints: Seq<Seq<char>>) -> Seq<char> {
    if hints.len() == 0 {
        seq![]
    } else {
        "\n"@ + prefixed_lines("  \u{2192} "@, hints)
    }
}

/// The status report; `tokens_text` is the token estimate as the CLI
/// shows it (such as `850`, `1.2k` or `3.4M`).
pub open spec fn status_text(r: StatusResult, tokens_text: Seq<char>) -> Seq<char> {
    config_part(r) + counts_part(r, tokens_text) + unsynthesized_part(strs(r.leaves.unsynthesized_slugs@))
        + issues_part(r.health) + hints_part(strs(r.hints@))
}

fn context_note_exec(t: Option<usize>) -> (r: String)
    ensures
        r@ == context_note(t),
{
    match t {
        Some(n) => cat3(" (", usize_to_string(n / 1000).as_str(), "K context)"),
        None => String::new(),
    }
}

fn config_part_exec(r: &StatusResult) -> (s: String)
    ensures
        s@ == config_part(*r),
{
    let mut s = String::new();
    if !r.tree_name.as_str().is_empty() {
        s = cat3("bo \u{00b7} ", r.tree_name.as_str(), "\n");
    }
    let ghost a = s@;
    push_str(&mut s, "\n");
    push_str(&mut s, "  provider:      ");
    push_str(&mut s, r.provider.as_str());
    push_str(&mut s, "\n");
    let ghost b = s@;
    match &r.model {
        Some(m) => {
            push_str(&mut s, "  model:         ");
            push_str(&mut s, m.as_str());
            push_str(&mut s, context_note_exec(r.model_context_tokens).as_str());
            push_str(&mut s, "\n");
        },
        None => {},
    }
    let ghost c = s@;
    match &r.synthesis_model {
        Some(m) => {
            push_str(&mut s, "  synthesis_model: ");
            push_str(&mut s, m.as_str());
            push_str(&mut s, context_note_exec(r.synthesis_model_context_tokens).as_str());
            push_str(&mut s, "\n");
        },
        None => {},
    }
    let ghost d = s@;
    push_str(&mut s, "\n");
    assert(c =~= b + match r.model {
        Some(m) => "  model:         "@ + m@ + context_note(r.model_context_tokens) + "\n"@,
        None => seq![],
    });
    assert(d =~= c + match r.synthesis_model {
        Some(m) => "  synthesis_model: "@ + m@ + context_note(r.synthesis_model_context_tokens) + "\n"@,
        None => seq![],
    });
    s
}

fn counts_part_exec(r: &StatusResult, tokens_text: &str) -> (s: String)
    ensures
        s@ == counts_part(*r, tokens_text@),
{
    let mut s = cat("  Leaves:      ", usize_to_string(r.leaves.total).as_str());
    if r.leaves.unsynthesized > 0 {
        push_str(&mut s, " (");
        push_str(&mut s, usize_to_string(r.leaves.unsynthesized).as_str());
        push_str(&mut s, " unsynthesized)\n");
    } else {
        push_str(&mut s, "\n");
    }
    let ghost a = s@;
    push_str(&mut s, "  Branches:    ");
    push_str(&mut s, usize_to_string(r.branches.total).as_str());
    push_str(&mut s, "\n");
    let ghost b = s@;
    match &r.branches.last_synthesized_at {
        Some(ts) => {
            push_str(&mut s, "  Last synthesis: ");
            push_str(&mut s, ts.as_str());
            push_str(&mut s, "\n");
        },
        None => {},
    }
    let ghost c = s@;
    push_str(&mut s, "  Size:        ");
    let kb = r.size.bytes / 1024;
    if kb > 0 {
        push_str(&mut s, u64_to_string(kb).as_str());
        push_str(&mut s, " KB");
    } else {
        push_str(&mut s, u64_to_string(r.size.bytes).as_str());
        push_str(&mut s, " B");
    }
    push_str(&mut s, " (~");
    push_str(&mut s, tokens_text);
    push_str(&mut s, " tokens)\n");
    assert(c =~= b + match r.branches.last_synthesized_at {
        Some(ts) => "  Last synthesis: "@ + ts@ + "\n"@,
        None => seq![],
    });
    s
}

/// Decimal digits of a `u64`.
pub fn u64_to_string(n: u64) -> (s: String)
    ensures
        s@ == decimal(n as nat),
{
    let mut digits: Vec<char> = Vec::new();
    let mut m: u64 = n;
    loop
        invariant_except_break
            m <= n,
            decimal(n as nat) == decimal(m as nat) + digits@,
        ensures
            decimal(n as nat) == digits@,
        decreases m,
    {
        let d: u8 = (m % 10) as u8;
        let c = (48 + d) as char;
        proof {
            assert(c == crate::text::digit((m % 10) as nat));
            if m >= 10 {
                assert(decimal(m as nat) == decimal((m / 10) as nat).push(c));
            } else {
                assert(decimal(m as nat) == seq![c]);
            }
        }
        let ghost old_digits = digits@;
        digits.insert(0, c);
        assert(digits@ =~= seq![c] + old_digits);
        if m < 10 {
            assert(decimal(m as nat) + old_digits =~= digits@);
            break;
        }
        assert(decimal((m / 10) as nat).push(c) + old_digits =~= decimal((m / 10) as nat) + digits@);
        m = m / 10;
    }
    crate::text::string_of(&digits)
}

fn unsynthesized_part_exec(slugs: &Vec<String>) -> (s: String)
    ensures
        s@ == unsynthesized_part(strs(slugs@)),
{
    if slugs.len() == 0 {
        return String::new();
    }
    let shown: usize = if slugs.len() < 10 { slugs.len() } else { 10 };
    let mut s = owned("\n");
    push_str(&mut s, "  Unsynthesized:\n");
    let mut first: Vec<String> = Vec::new();
    let mut i: usize = 0;
    while i < shown
        invariant
            i <= shown <= slugs.len(),
            strs(first@) == strs(slugs@).take(i as int),
        decreases shown - i,
    {
        crate::text::push_string(&mut first, slugs[i].clone());
        assert(strs(slugs@).take(i + 1) =~= strs(slugs@).take(i as int).push(slugs@[i as int]@));
        i += 1;
    }
    push_prefixed_lines(&mut s, "    \u{2022} ", &first);
    let remaining = slugs.len() - shown;
    let ghost a = s@;
    if remaining > 0 {
        push_str(&mut s, "    \u{2026} and ");
        push_str(&mut s, usize_to_string(remaining).as_str());
        push_str(&mut s, " more\n");
    } else {
        assert(s@ =~= a + seq![]);
    }
    s
}

fn issues_part_exec(h: &HealthReport) -> (s: String)
    ensures
        s@ == issues_part(*h),
{
    if h.missing_leaf_files.len() == 0 && h.untracked_leaf_files.len() == 0 {
        return String::new();
    }
    let mut s = owned("\n");
    push_str(&mut s, "  Issues:\n");
    let ghost base = s@;
    let mut i: usize = 0;
    while i < h.missing_leaf_files.len()
        invariant
            i <= h.missing_leaf_files.len(),
            s@ == base + orphan_lines(h.missing_leaf_files@.take(i as int)),
        decreases h.missing_leaf_files.len() - i,
    {
        assert(h.missing_leaf_files@.take(i + 1).drop_last() =~= h.missing_leaf_files@.take(i as int));
        assert(h.missing_leaf_files@.take(i + 1).last() == h.missing_leaf_files@[i as int]);
        let o = &h.missing_leaf_files[i];
        push_str(&mut s, "    \u{26a0} orphan: ");
        push_str(&mut s, o.file.as_str());
        push_str(&mut s, " (");
        push_str(&mut s, o.remediation.as_str());
        push_str(&mut s, ")\n");
        i += 1;
    }
    assert(h.missing_leaf_files@.take(h.missing_leaf_files.len() as int) =~= h.missing_leaf_files@);
    let ghost mid = s@;
    let ghost us = strs(h.untracked_leaf_files@);
    let mut k: usize = 0;
    while k < h.untracked_leaf_files.len()
        invariant
            k <= h.untracked_leaf_files.len(),
            us == strs(h.untracked_leaf_files@),
            s@ == mid + untracked_lines(us.take(k as int)),
        decreases h.untracked_leaf_files.len() - k,
    {
        assert(us.take(k + 1).drop_last() =~= us.take(k as int));
        assert(us.take(k + 1).last() == h.untracked_leaf_files@[k as int]@);
        push_str(&mut s, "    \u{26a0} untracked: ");
        push_str(&mut s, h.untracked_leaf_files[k].as_str());
        push_str(&mut s, " (run 'bo collect' to track it)\n");
        k += 1;
    }
    assert(us.take(h.untracked_leaf_files.len() as int) =~= us);
    s
}

fn hints_part_exec(hints: &Vec<String>) -> (s: String)
    ensures
        s@ == hints_part(strs(hints@)),
{
    if hints.len() == 0 {
        return String::new();
    }
    let mut s = owned("\n");
    push_prefixed_lines(&mut s, "  \u{2192} ", hints);
    s
}

/// The status report as the CLI prints it; `tokens_text` is the token
/// estimate already formatted.
pub fn render_human(result: &StatusResult, tokens_text: &str) -> (r: String)
    ensures
        r@ == status_text(*result, tokens_text@),
{
    let a = config_part_exec(result);
    let b = counts_part_exec(result, tokens_text);
    let c = unsynthesized_part_exec(&result.leaves.unsynthesized_slugs);
    let d = issues_part_exec(&result.health);
    let e = hints_part_exec(&result.hints);
    crate::text::cat5(a.as_str(), b.as_str(), c.as_str(), d.as_str(), e.as_str())
}

} // verus!
