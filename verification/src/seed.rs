//! `bo seed`: creating the one tree and its configuration.
//!
//! The library holds the seed's error model, the choice between a fresh and
//! an existing seed, the defaults of the answers and the text the CLI
//! prints. Paths reach it already made absolute and comparable by the
//! caller, which owns the file system.
use vstd::prelude::*;

use crate::text::join_strings;
use crate::text::{cat3, join, owned, push_str, str_eq, strs, trim, trim_str};

verus! {

/// The tree name used when none is given.
pub open spec fn default_tree_name() -> Seq<char> {
    "bo"@
}

#[derive(Debug, Clone)]
pub struct SeedOptions {
    pub path: Option<String>,
    pub name: Option<String>,
    pub provider: Option<String>,
    pub model: Option<String>,
}

#[derive(Debug, Clone, Copy, PartialEq, Eq)]
pub enum SeedStatus {
    Created,
    AlreadyExists,
}

#[derive(Debug, Clone)]
pub struct SeedResult {
    pub status: SeedStatus,
    pub path: String,
    pub name: String,
    /// RFC 3339 text of the creation instant.
    pub created_at: String,
    pub provider: String,
    pub model: String,
    pub compile_model: Option<String>,
}

#[derive(Debug)]
pub enum SeedError {
    UnsupportedFlag { flag: String },
    MissingInput { field: String, flag: String },
    /// The provider is not known; holds the known ones.
    UnknownProvider { raw: String, valid_providers: Vec<String> },
    /// The model is not one of the provider's; holds the provider's models.
    UnsupportedModel { model: String, provider: String, supported_models: Vec<String> },
    TreeAlreadySeeded { existing_path: String, requested_path: String },
    ConfigRead(String),
    ConfigWrite(String),
    CreateTreeDir(String),
    CurrentDir(String),
    PromptIo(String),
}

/// 2 for a usage error, 1 for a system error.
pub open spec fn seed_exit_code(e: SeedError) -> i32 {
    match e {
        SeedError::UnsupportedFlag { .. } | SeedError::MissingInput { .. } | SeedError::UnknownProvider {
            ..
        } | SeedError::UnsupportedModel { .. } | SeedError::TreeAlreadySeeded { .. } => 2,
        _ => 1,
    }
}

pub open spec fn seed_message(e: SeedError) -> Seq<char> {
    match e {
        SeedError::UnsupportedFlag { flag } => "the `"@ + flag@ + "` flag is not supported for seed."@,
        SeedError::MissingInput { field, flag } => "missing seed "@ + field@ + "; rerun with `"@ + flag@
            + "` or run `bo seed` in a terminal"@,
        SeedError::UnknownProvider { raw, valid_providers } => "unknown provider '"@ + raw@
            + "'; valid providers: "@ + join(strs(valid_providers@), ", "@),
        SeedError::UnsupportedModel { model, provider, supported_models } => "unsupported model '"@
            + model@ + "' for provider '"@ + provider@ + "'; supported models: "@ + join(
            strs(supported_models@),
            ", "@,
        ),
        SeedError::TreeAlreadySeeded { existing_path, requested_path } =>
            "bo is single-tree right now; already seeded at "@ + existing_path@ + ", refusing to seed "@
                + requested_path@,
        SeedError::ConfigRead(m) => m@,
        SeedError::ConfigWrite(m) => m@,
        SeedError::CreateTreeDir(m) => m@,
        SeedError::CurrentDir(m) => m@,
        SeedError::PromptIo(m) => m@,
    }
}

impl SeedError {
    /// 2 for a usage error, 1 for a system error.
    pub fn exit_code(&self) -> (r: i32)
        ensures
            r == seed_exit_code(*self),
    {
        match self {
            SeedError::UnsupportedFlag { .. } | SeedError::MissingInput { .. }
            | SeedError::UnknownProvider { .. } | SeedError::UnsupportedModel { .. }
            | SeedError::TreeAlreadySeeded { .. } => 2,
            SeedError::ConfigRead(_) | SeedError::ConfigWrite(_) | SeedError::CreateTreeDir(_)
            | SeedError::CurrentDir(_) | SeedError::PromptIo(_) => 1,
        }
    }

    /// The error as a user reads it.
    pub fn message(&self) -> (r: String)
        ensures
            r@ == seed_message(*self),
    {
        match self {
            SeedError::UnsupportedFlag { flag } => cat3("the `", flag.as_str(), "` flag is not supported for seed."),
            SeedError::MissingInput { field, flag } => {
                let mut s = cat3("missing seed ", field.as_str(), "; rerun with `");
                push_str(&mut s, flag.as_str());
                push_str(&mut s, "` or run `bo seed` in a terminal");
                s
            },
            SeedError::UnknownProvider { raw, valid_providers } => {
                let mut s = cat3("unknown provider '", raw.as_str(), "'; valid providers: ");
                push_str(&mut s, join_strings(valid_providers, ", ").as_str());
                s
            },
            SeedError::UnsupportedModel { model, provider, supported_models } => {
                let mut s = cat3("unsupported model '", model.as_str(), "' for provider '");
                push_str(&mut s, provider.as_str());
                push_str(&mut s, "'; supported models: ");
                push_str(&mut s, join_strings(supported_models, ", ").as_str());
                s
            },
            SeedError::TreeAlreadySeeded { existing_path, requested_path } => {
                let mut s = cat3(
                    "bo is single-tree right now; already seeded at ",
                    existing_path.as_str(),
                    ", refusing to seed ",
                );
                push_str(&mut s, requested_path.as_str());
                s
            },
            SeedError::ConfigRead(m) => m.clone(),
            SeedError::ConfigWrite(m) => m.clone(),
            SeedError::CreateTreeDir(m) => m.clone(),
            SeedError::CurrentDir(m) => m.clone(),
            SeedError::PromptIo(m) => m.clone(),
        }
    }
}

/// The trimmed value, or the default when nothing but whitespace is left.
pub fn non_empty_or_default(value: String, default: &str) -> (r: String)
    ensures
        r@ == (if trim(value@).len() == 0 {
            default@
        } else {
            trim(value@)
        }),
{
    let trimmed = trim_str(value.as_str());
    if trimmed.as_str().is_empty() {
        owned(default)
    } else {
        trimmed
    }
}

/// What the name prompt's answer gives: the answer itself; the default
/// when there is no terminal to ask; any other error as it is.
pub fn prompted_name(prompted: Result<String, SeedError>) -> (r: Result<String, SeedError>)
    ensures
        match prompted {
            Ok(s) => r == Ok::<String, SeedError>(s),
            Err(SeedError::MissingInput { field, flag }) => if field@ == "name"@ {
                r matches Ok(s) && s@ == default_tree_name()
            } else {
                r == Err::<String, SeedError>(SeedError::MissingInput { field, flag })
            },
            Err(e) => r == Err::<String, SeedError>(e),
        },
{
    match prompted {
        Ok(s) => Ok(s),
        Err(SeedError::MissingInput { field, flag }) => {
            if str_eq(field.as_str(), "name") {
                Ok(owned("bo"))
            } else {
                Err(SeedError::MissingInput { field, flag })
            }
        },
        Err(e) => Err(e),
    }
}

/// The tree name: the given one (trimmed, or the default when blank), else
/// what [`prompted_name`] makes of the prompt's answer; the prompt is only
/// asked when no name is given.
pub fn resolve_name<P: SeedPrompt>(name: Option<String>, prompt: &mut P) -> (r: Result<String, SeedError>)
    ensures
        name matches Some(n) ==> (r matches Ok(s) && s@ == (if trim(n@).len() == 0 {
            default_tree_name()
        } else {
            trim(n@)
        })),
{
    match name {
        Some(n) => Ok(non_empty_or_default(n, "bo")),
        None => prompted_name(prompt.prompt_name("bo")),
    }
}

/// A seed that is already in place.
#[derive(Debug, Clone)]
pub struct ExistingSeed {
    pub path: String,
    pub name: String,
    pub created_at: String,
    pub provider: String,
    pub model: String,
    pub compile_model: Option<String>,
}

/// The result of seeding over an existing seed: the existing tree, unless
/// another path was asked for. Paths are compared as the caller made them
/// comparable (absolute and canonical).
pub fn existing_seed_result(existing: ExistingSeed, requested_path: Option<String>) -> (r: Result<
    SeedResult,
    SeedError,
>)
    ensures
        match requested_path {
            Some(p) => p@ != existing.path@ ==> (r matches Err(SeedError::TreeAlreadySeeded { existing_path, requested_path: q })
                && existing_path@ == existing.path@ && q@ == p@),
            None => true,
        },
        (requested_path is None || requested_path->Some_0@ == existing.path@) ==> (r matches Ok(s)
            && s.status == SeedStatus::AlreadyExists && s.path == existing.path && s.name == existing.name
            && s.created_at == existing.created_at && s.provider == existing.provider && s.model == existing.model
            && s.compile_model == existing.compile_model),
{
    if let Some(p) = requested_path {
        if !str_eq(p.as_str(), existing.path.as_str()) {
            return Err(SeedError::TreeAlreadySeeded { existing_path: existing.path, requested_path: p });
        }
    }
    Ok(
        SeedResult {
            status: SeedStatus::AlreadyExists,
            path: existing.path,
            name: existing.name,
            created_at: existing.created_at,
            provider: existing.provider,
            model: existing.model,
            compile_model: existing.compile_model,
        },
    )
}

// ── answers ──────────────────────────────────────────────────────────────────

/// Asks the user for what the options left out. Each answer is whatever the
/// user gives; an error ends the seed.
pub trait SeedPrompt {
    fn prompt_path(&mut self) -> Result<String, SeedError>;

    fn prompt_name(&mut self, default: &str) -> Result<String, SeedError>;

    fn prompt_provider(&mut self) -> Result<String, SeedError>;

    fn prompt_model(&mut self, provider: &str) -> Result<String, SeedError>;
}

/// The tree path: the one given unless it is empty, else the prompt's
/// answer.
pub fn resolve_fresh_path<P: SeedPrompt>(path: Option<String>, prompt: &mut P) -> (r: Result<String, SeedError>)
    ensures
        path is Some && path->Some_0@.len() > 0 ==> r == Ok::<String, SeedError>(path->Some_0),
{
    match path {
        Some(p) => {
            if !p.as_str().is_empty() {
                return Ok(p);
            }
            prompt.prompt_path()
        },
        None => prompt.prompt_path(),
    }
}

/// The provider: the one given when it is one of the valid ones, an error
/// naming them when it is not; else the prompt's answer.
pub fn resolve_provider<P: SeedPrompt>(provider: Option<String>, valid_providers: &Vec<String>, prompt: &mut P) -> (r: Result<
    String,
    SeedError,
>)
    ensures
        provider is Some && strs(valid_providers@).contains(provider->Some_0@) ==> r == Ok::<String, SeedError>(
            provider->Some_0,
        ),
        provider is Some && !strs(valid_providers@).contains(provider->Some_0@) ==> (r matches Err(
            SeedError::UnknownProvider { raw, valid_providers: v },
        ) && raw@ == provider->Some_0@ && strs(v@) == strs(valid_providers@)),
{
    match provider {
        Some(p) => {
            if crate::text::strings_contain(valid_providers, p.as_str()) {
                Ok(p)
            } else {
                Err(SeedError::UnknownProvider { raw: p, valid_providers: valid_providers.clone() })
            }
        },
        None => prompt.prompt_provider(),
    }
}

/// The model: the one given, trimmed, unless it is blank, else the
/// prompt's answer; either way it must be one of the provider's models.
pub fn resolve_model<P: SeedPrompt>(
    model: Option<String>,
    provider: &str,
    supported_models: &Vec<String>,
    prompt: &mut P,
) -> (r: Result<String, SeedError>)
    ensures
        model is Some && trim(model->Some_0@).len() > 0 ==> (if strs(supported_models@).contains(trim(model->Some_0@)) {
            r matches Ok(x) && x@ == trim(model->Some_0@)
        } else {
            r matches Err(SeedError::UnsupportedModel { model: x, provider: p, supported_models: v }) && x@ == trim(model->Some_0@)
                && p@ == provider@ && strs(v@) == strs(supported_models@)
        }),
        r matches Ok(x) ==> strs(supported_models@).contains(x@),
{
    let chosen = match model {
        Some(m) => {
            let t = trim_str(m.as_str());
            if !t.as_str().is_empty() {
                t
            } else {
                match prompt.prompt_model(provider) {
                    Ok(x) => x,
                    Err(e) => {
                        return Err(e);
                    },
                }
            }
        },
        None => match prompt.prompt_model(provider) {
            Ok(x) => x,
            Err(e) => {
                return Err(e);
            },
        },
    };
    if !crate::text::strings_contain(supported_models, chosen.as_str()) {
        return Err(
            SeedError::UnsupportedModel {
                model: chosen,
                provider: owned(provider),
                supported_models: supported_models.clone(),
            },
        );
    }
    Ok(chosen)
}

/// The result of a fresh seed.
pub fn created_seed_result(path: String, name: String, created_at: String, provider: String, model: String) -> (r: SeedResult)
    ensures
        r.status == SeedStatus::Created,
        r.path == path && r.name == name && r.created_at == created_at,
        r.provider == provider && r.model == model,
        r.compile_model is None,
{
    SeedResult { status: SeedStatus::Created, path, name, created_at, provider, model, compile_model: None }
}

/// A configuration describes a usable seed when it names a tree that is a
/// directory and a model (and compile model, when set) of its provider.
pub fn valid_existing_seed(
    tree: Option<(String, String, String)>,
    provider: String,
    model: Option<String>,
    compile_model: Option<String>,
    supported_models: &Vec<String>,
    tree_is_dir: bool,
) -> (r: Option<ExistingSeed>)
    ensures
        r is Some <==> (tree is Some && model is Some && strs(supported_models@).contains(model->Some_0@) && (
        compile_model matches Some(c) ==> strs(supported_models@).contains(c@)) && tree_is_dir),
        r matches Some(e) ==> e.path == tree->Some_0.0 && e.name == tree->Some_0.1 && e.created_at == tree->Some_0.2
            && e.provider == provider && e.model == model->Some_0 && e.compile_model == compile_model,
{
    let (path, name, created_at) = match tree {
        Some(t) => t,
        None => {
            return None;
        },
    };
    let m = match model {
        Some(m) => m,
        None => {
            return None;
        },
    };
    if !crate::text::strings_contain(supported_models, m.as_str()) {
        return None;
    }
    match &compile_model {
        Some(c) => {
            if !crate::text::strings_contain(supported_models, c.as_str()) {
                return None;
            }
        },
        None => {},
    }
    if !tree_is_dir {
        return None;
    }
    Some(ExistingSeed { path, name, created_at, provider, model: m, compile_model })
}

// ── rendering ────────────────────────────────────────────────────────────────

pub open spec fn seed_text(r: SeedResult) -> Seq<char> {
    (match r.status {
        SeedStatus::Created => "seeded bo"@,
        SeedStatus::AlreadyExists => "bo is already seeded"@,
    }) + "\n"@ + "tree:"@ + "\n"@ + "  path: "@ + r.path@ + "\n"@ + "  name: "@ + r.name@ + "\n"@
        + "  created_at: "@ + r.created_at@ + "\n"@ + "provider: "@ + r.provider@ + "\n"@ + "model: "@
        + r.model@ + (match r.compile_model {
        Some(cm) => "\n"@ + "compile_model: "@ + cm@,
        None => seq![],
    }) + (match r.status {
        SeedStatus::AlreadyExists => "\n"@ + "use `bo config` to change provider or model"@,
        SeedStatus::Created => seq![],
    }) + "\n"@
}

/// The seed's summary, one value per line.
pub fn render_human(result: &SeedResult) -> (r: String)
    ensures
        r@ == seed_text(*result),
{
    let mut s = match result.status {
        SeedStatus::Created => owned("seeded bo"),
        SeedStatus::AlreadyExists => owned("bo is already seeded"),
    };
    push_str(&mut s, "\n");
    push_str(&mut s, "tree:");
    push_str(&mut s, "\n");
    push_str(&mut s, "  path: ");
    push_str(&mut s, result.path.as_str());
    push_str(&mut s, "\n");
    push_str(&mut s, "  name: ");
    push_str(&mut s, result.name.as_str());
    push_str(&mut s, "\n");
    push_str(&mut s, "  created_at: ");
    push_str(&mut s, result.created_at.as_str());
    push_str(&mut s, "\n");
    push_str(&mut s, "provider: ");
    push_str(&mut s, result.provider.as_str());
    push_str(&mut s, "\n");
    push_str(&mut s, "model: ");
    push_str(&mut s, result.model.as_str());
    let ghost a = s@;
    match &result.compile_model {
        Some(cm) => {
            push_str(&mut s, "\n");
            push_str(&mut s, "compile_model: ");
            push_str(&mut s, cm.as_str());
        },
        None => {
            assert(s@ =~= a + seq![]);
        },
    }
    let ghost b = s@;
    match result.status {
        SeedStatus::AlreadyExists => {
            push_str(&mut s, "\n");
            push_str(&mut s, "use `bo config` to change provider or model");
        },
        SeedStatus::Created => {
            assert(s@ =~= b + seq![]);
        },
    }
    push_str(&mut s, "\n");
    s
}

} // verus!
