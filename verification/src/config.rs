//! `bo config`: flag-driven changes to the configuration.
//!
//! The library holds the decision (which values the new configuration
//! takes, and when a model is refused), the error model and the text the CLI
//! prints. Reading and writing the file, and the registry of providers and
//! their models, stay with the caller, which hands in the lists.
use vstd::prelude::*;

use crate::text::{cat, cat3, join, join_strings, owned, push_str, strs, strings_contain, trim, trim_str};

verus! {

#[derive(Debug, Clone)]
pub struct WriteConfigOptions {
    pub provider: Option<String>,
    pub model: Option<String>,
    pub compile_model: Option<String>,
}

#[derive(Debug, Clone)]
pub struct ConfigWriteResult {
    pub status: String,
    pub provider: String,
    pub model: String,
    pub compile_model: Option<String>,
}

/// The configuration values a write can change.
#[derive(Debug, Clone)]
pub struct ConfigValues {
    pub provider: String,
    pub model: String,
    pub compile_model: Option<String>,
}

#[derive(Debug)]
pub enum ConfigWriteError {
    /// The provider is not known; holds the known ones.
    UnknownProvider { raw: String, valid_providers: Vec<String> },
    /// The model is not one of the provider's; holds the provider's models.
    UnsupportedModel { model: String, provider: String, supported_models: Vec<String> },
    Read(String),
    Write(String),
}

pub open spec fn config_exit_code(e: ConfigWriteError) -> i32 {
    match e {
        ConfigWriteError::UnknownProvider { .. } => 2,
        ConfigWriteError::UnsupportedModel { .. } => 2,
        ConfigWriteError::Read(_) => 1,
        ConfigWriteError::Write(_) => 1,
    }
}

pub open spec fn config_code(e: ConfigWriteError) -> Seq<char> {
    match e {
        ConfigWriteError::UnknownProvider { .. } => "usage_error"@,
        ConfigWriteError::UnsupportedModel { .. } => "usage_error"@,
        ConfigWriteError::Read(_) => "io_error"@,
        ConfigWriteError::Write(_) => "io_error"@,
    }
}

pub open spec fn config_message(e: ConfigWriteError) -> Seq<char> {
    match e {
        ConfigWriteError::UnknownProvider { raw, valid_providers } => "unknown provider '"@ + raw@
            + "'; valid providers: "@ + join(strs(valid_providers@), ", "@),
        ConfigWriteError::UnsupportedModel { model, provider, supported_models } => "unsupported model '"@
            + model@ + "' for provider '"@ + provider@ + "'; supported models: "@ + join(
            strs(supported_models@),
            ", "@,
        ),
        ConfigWriteError::Read(m) => "failed to read config: "@ + m@,
        ConfigWriteError::Write(m) => "failed to write config: "@ + m@,
    }
}

impl ConfigWriteError {
    /// 2 for a usage error, 1 for an I/O error.
    pub fn exit_code(&self) -> (r: i32)
        ensures
            r == config_exit_code(*self),
    {
        match self {
            ConfigWriteError::UnknownProvider { .. } => 2,
            ConfigWriteError::UnsupportedModel { .. } => 2,
            ConfigWriteError::Read(_) => 1,
            ConfigWriteError::Write(_) => 1,
        }
    }

    pub fn code(&self) -> (r: &'static str)
        ensures
            r@ == config_code(*self),
    {
        match self {
            ConfigWriteError::UnknownProvider { .. } => "usage_error",
            ConfigWriteError::UnsupportedModel { .. } => "usage_error",
            ConfigWriteError::Read(_) => "io_error",
            ConfigWriteError::Write(_) => "io_error",
        }
    }

    /// The error as a user reads it.
    pub fn message(&self) -> (r: String)
        ensures
            r@ == config_message(*self),
    {
        match self {
            ConfigWriteError::UnknownProvider { raw, valid_providers } => {
                let mut s = cat3("unknown provider '", raw.as_str(), "'; valid providers: ");
                push_str(&mut s, join_strings(valid_providers, ", ").as_str());
                s
            },
            ConfigWriteError::UnsupportedModel { model, provider, supported_models } => {
                let mut s = cat3("unsupported model '", model.as_str(), "' for provider '");
                push_str(&mut s, provider.as_str());
                push_str(&mut s, "'; supported models: ");
                push_str(&mut s, join_strings(supported_models, ", ").as_str());
                s
            },
            ConfigWriteError::Read(m) => cat("failed to read config: ", m.as_str()),
            ConfigWriteError::Write(m) => cat("failed to write config: ", m.as_str()),
        }
    }
}


// ── applying the flags ───────────────────────────────────────────────────────

pub open spec fn opt_text(o: Option<String>) -> Option<Seq<char>> {
    match o {
        Some(s) => Some(s@),
        None => None,
    }
}

/// The configuration after the flags, or the refusal of a model that the
/// provider in effect (the new one when given, else the current one) does
/// not support. Models are trimmed before they are checked and stored.
pub open spec fn apply_spec(
    current: ConfigValues,
    options: WriteConfigOptions,
    supported: Seq<Seq<char>>,
) -> Result<(Seq<char>, Seq<char>, Option<Seq<char>>), Seq<char>> {
    let provider = match options.provider {
        Some(p) => p@,
        None => current.provider@,
    };
    let model_ok = match options.model {
        Some(m) => supported.contains(trim(m@)),
        None => true,
    };
    let cm_ok = match options.compile_model {
        Some(m) => supported.contains(trim(m@)),
        None => true,
    };
    if !model_ok {
        Err(trim(options.model->Some_0@))
    } else if !cm_ok {
        Err(trim(options.compile_model->Some_0@))
    } else {
        Ok(
            (
                provider,
                match options.model {
                    Some(m) => trim(m@),
                    None => current.model@,
                },
                match options.compile_model {
                    Some(m) => Some(trim(m@)),
                    None => opt_text(current.compile_model),
                },
            ),
        )
    }
}

/// A configuration write stores the provider it was given, else keeps the
/// current one; it stores each model given, trimmed, else keeps the current
/// one; and it is refused exactly when a given model, trimmed, is not one of
/// the provider's models.
pub proof fn lemma_config_flags_are_stored(current: ConfigValues, options: WriteConfigOptions, supported: Seq<Seq<char>>)
    ensures
        apply_spec(current, options, supported) is Ok <==> (
            (options.model matches Some(m) ==> supported.contains(trim(m@)))
            && (options.compile_model matches Some(m) ==> supported.contains(trim(m@)))),
        apply_spec(current, options, supported) matches Ok((p, m, cm)) ==> {
            &&& p == (match options.provider {
                Some(x) => x@,
                None => current.provider@,
            })
            &&& m == (match options.model {
                Some(x) => trim(x@),
                None => current.model@,
            })
            &&& cm == (match options.compile_model {
                Some(x) => Some(trim(x@)),
                None => opt_text(current.compile_model),
            })
        },
{
}

/// Applies the flags to the current values. `supported_models` are the
/// models of the provider in effect, in the registry's order.
pub fn apply_config_options(
    current: ConfigValues,
    options: WriteConfigOptions,
    supported_models: &Vec<String>,
) -> (r: Result<ConfigValues, ConfigWriteError>)
    ensures
        match apply_spec(current, options, strs(supported_models@)) {
            Ok((p, m, cm)) => r matches Ok(c) && c.provider@ == p && c.model@ == m && opt_text(
                c.compile_model,
            ) == cm,
            Err(bad) => r matches Err(ConfigWriteError::UnsupportedModel { model, provider, supported_models: s })
                && model@ == bad && provider@ == (match options.provider {
                Some(p) => p@,
                None => current.provider@,
            }) && strs(s@) == strs(supported_models@),
        },
{
    let provider = match &options.provider {
        Some(p) => p.clone(),
        None => current.provider.clone(),
    };
    let mut model = current.model;
    let mut compile_model = current.compile_model;
    if let Some(m) = &options.model {
        let trimmed = trim_str(m.as_str());
        if !strings_contain(supported_models, trimmed.as_str()) {
            return Err(
                ConfigWriteError::UnsupportedModel {
                    model: trimmed,
                    provider,
                    supported_models: supported_models.clone(),
                },
            );
        }
        model = trimmed;
    }
    if let Some(m) = &options.compile_model {
        let trimmed = trim_str(m.as_str());
        if !strings_contain(supported_models, trimmed.as_str()) {
            return Err(
                ConfigWriteError::UnsupportedModel {
                    model: trimmed,
                    provider,
                    supported_models: supported_models.clone(),
                },
            );
        }
        compile_model = Some(trimmed);
    }
    Ok(ConfigValues { provider, model, compile_model })
}

// ── the write ────────────────────────────────────────────────────────────────

/// How reading the configuration file went.
#[derive(Debug)]
pub enum ConfigRead {
    /// There is no configuration yet.
    NotFound,
    Read(ConfigValues),
    /// The file could not be read or parsed: the error's text.
    Failed(String),
}

/// The values to write: the flags applied to the configuration read, or to
/// the defaults when there is none. A file that cannot be read, or a model
/// that the provider in effect does not support (the error names the model
/// trimmed, that provider and its models), stops the write: nothing is to
/// be written unless the result is `Ok`.
pub fn write_config(
    read: ConfigRead,
    defaults: ConfigValues,
    options: WriteConfigOptions,
    supported_models: &Vec<String>,
) -> (r: Result<ConfigValues, ConfigWriteError>)
    ensures
        match read {
            ConfigRead::Failed(e) => r matches Err(ConfigWriteError::Read(m)) && m@ == "failed to read config: "@ + e@,
            ConfigRead::NotFound => match apply_spec(defaults, options, strs(supported_models@)) {
                Ok((p, m, cm)) => r matches Ok(c) && c.provider@ == p && c.model@ == m && opt_text(c.compile_model) == cm,
                Err(bad) => r matches Err(ConfigWriteError::UnsupportedModel { model, provider, supported_models: s })
                    && model@ == bad && provider@ == (match options.provider {
                    Some(p) => p@,
                    None => defaults.provider@,
                }) && strs(s@) == strs(supported_models@),
            },
            ConfigRead::Read(current) => match apply_spec(current, options, strs(supported_models@)) {
                Ok((p, m, cm)) => r matches Ok(c) && c.provider@ == p && c.model@ == m && opt_text(c.compile_model) == cm,
                Err(bad) => r matches Err(ConfigWriteError::UnsupportedModel { model, provider, supported_models: s })
                    && model@ == bad && provider@ == (match options.provider {
                    Some(p) => p@,
                    None => current.provider@,
                }) && strs(s@) == strs(supported_models@),
            },
        },
{
    let current = match read {
        ConfigRead::Failed(e) => {
            return Err(ConfigWriteError::Read(cat("failed to read config: ", e.as_str())));
        },
        ConfigRead::NotFound => defaults,
        ConfigRead::Read(c) => c,
    };
    apply_config_options(current, options, supported_models)
}

/// The report of a configuration written.
pub fn config_write_result(values: ConfigValues) -> (r: ConfigWriteResult)
    ensures
        r.status@ == "ok"@,
        r.provider == values.provider && r.model == values.model && r.compile_model == values.compile_model,
{
    ConfigWriteResult { status: owned("ok"), provider: values.provider, model: values.model, compile_model: values.compile_model }
}

/// The error of a write that failed, with its reason.
pub fn write_failure(reason: &str) -> (r: ConfigWriteError)
    ensures
        r matches ConfigWriteError::Write(m) && m@ == "failed to write config: "@ + reason@,
{
    ConfigWriteError::Write(cat("failed to write config: ", reason))
}

// ── rendering ────────────────────────────────────────────────────────────────

pub open spec fn config_text(r: ConfigWriteResult) -> Seq<char> {
    "provider: "@ + r.provider@ + "\n"@ + "model: "@ + r.model@ + match r.compile_model {
        Some(cm) => "\n"@ + "compile_model: "@ + cm@,
        None => seq![],
    } + "\n"@
}

/// The written configuration, one value per line.
pub fn render_human(result: &ConfigWriteResult) -> (r: String)
    ensures
        r@ == config_text(*result),
{
    let mut s = cat3("provider: ", result.provider.as_str(), "\n");
    push_str(&mut s, "model: ");
    push_str(&mut s, result.model.as_str());
    let ghost before = s@;
    match &result.compile_model {
        Some(cm) => {
            push_str(&mut s, "\n");
            push_str(&mut s, "compile_model: ");
            push_str(&mut s, cm.as_str());
        },
        None => {
            assert(s@ =~= before + seq![]);
        },
    }
    push_str(&mut s, "\n");
    s
}

} // verus!
