use bo::collect::PendingError;
use bo::config::{config_write_result, write_config, write_failure, ConfigRead, ConfigValues, ConfigWriteError, WriteConfigOptions};
use bo::raze::{auth_only_result, auth_only_untouched, cancelled_result, count_files, manifest_files, map_pending_error, raze_route, razed_result, tree_deletes, AuthCleanup, RazeError, RazeRoute};
use bo::seed::{created_seed_result, resolve_fresh_path, resolve_name, resolve_model, resolve_provider, valid_existing_seed, SeedError, SeedPrompt, SeedStatus};
use bo::status::{compute_status, config_only_status, default_config_fields, StatusError, StatusLoad};
use bo::tree::{Branch, Leaf, Timestamp, TreeMetadata, TreeState};

fn leaf(slug: &str, title: Option<&str>, at: i64) -> Leaf {
    Leaf {
        slug: slug.to_string(),
        file: format!("leaf/{}.md", slug),
        title: title.map(|t| t.to_string()),
        url: format!("https://example.com/{}", slug),
        collected_at: Timestamp { unix_millis: at },
        summary: None,
    }
}

fn state(leaves: Vec<Leaf>, branches: Vec<Branch>, last: Option<i64>) -> TreeState {
    TreeState {
        tree: TreeMetadata {
            name: "t".to_string(),
            created_at: Timestamp { unix_millis: 0 },
            last_compiled_at: last.map(|ms| Timestamp { unix_millis: ms }),
        },
        leaves,
        branches,
    }
}

#[test]
fn status_reports_work_and_health() {
    let s = state(vec![leaf("a", Some("A"), 1), leaf("b", None, 20)], vec![], Some(10));
    let entries = vec![("a.md".to_string(), true), ("stray.md".to_string(), true), ("notes.md".to_string(), false)];
    let r = compute_status(StatusLoad::Loaded(s), "t", Timestamp { unix_millis: 0 }, &vec![true, false], &entries, 400, default_config_fields()).unwrap();
    assert_eq!(r.leaves.total, 2);
    assert_eq!(r.leaves.unsynthesized_slugs, vec!["b".to_string()]);
    assert_eq!(r.size.estimated_tokens, 100);
    assert_eq!(r.branches.last_synthesized_at, Some("1970-01-01T00:00:00.010Z".to_string()));
    assert_eq!(r.health.missing_leaf_files.len(), 1);
    assert_eq!(r.health.missing_leaf_files[0].file, "leaf/b.md");
    assert_eq!(r.health.missing_leaf_files[0].title, "");
    assert_eq!(r.health.missing_leaf_files[0].remediation, "re-collect 'https://example.com/b' or remove the state entry");
    assert_eq!(r.health.untracked_leaf_files, vec!["stray.md".to_string()]);
    assert_eq!(
        r.hints,
        vec![
            "run 'bo synthesize' to create your first branch from 2 leaves".to_string(),
            "1 state entry reference missing files \u{2014} re-collect or remove manually".to_string(),
            "1 leaf file untracked \u{2014} they won't appear in search or synthesis".to_string(),
        ]
    );
    assert_eq!(r.provider, "openai");
}

#[test]
fn status_of_fresh_failed_and_unseeded_trees() {
    let r = compute_status(StatusLoad::FreshSeeded, "mine", Timestamp { unix_millis: 0 }, &vec![], &vec![], 0, default_config_fields()).unwrap();
    assert_eq!(r.tree_name, "mine");
    assert_eq!(r.hints, vec!["run 'bo collect <url>' to add your first source".to_string()]);
    match compute_status(StatusLoad::Failed("bad".to_string()), "t", Timestamp { unix_millis: 0 }, &vec![], &vec![], 0, default_config_fields()) {
        Err(StatusError::TreeState(m)) => assert_eq!(m, "bad"),
        other => panic!("unexpected {:?}", other),
    }
    let c = config_only_status(default_config_fields());
    assert_eq!(c.hints, vec!["run 'bo seed --path <path>' to create a tree".to_string()]);
    assert_eq!(c.tree_name, "");
}

struct Scripted {
    path: Result<String, ()>,
    provider: String,
    model: String,
}

impl SeedPrompt for Scripted {
    fn prompt_path(&mut self) -> Result<String, SeedError> {
        self.path.clone().map_err(|_| SeedError::MissingInput { field: "path".into(), flag: "--path <path>".into() })
    }
    fn prompt_name(&mut self, default: &str) -> Result<String, SeedError> {
        Ok(default.to_string())
    }
    fn prompt_provider(&mut self) -> Result<String, SeedError> {
        Ok(self.provider.clone())
    }
    fn prompt_model(&mut self, _provider: &str) -> Result<String, SeedError> {
        Ok(self.model.clone())
    }
}

#[test]
fn seed_answers_come_from_flags_then_prompts() {
    let mut p = Scripted { path: Ok("/prompted".to_string()), provider: "deepseek".to_string(), model: "m2".to_string() };
    assert_eq!(resolve_fresh_path(Some("/given".to_string()), &mut p).unwrap(), "/given");
    assert_eq!(resolve_name(Some("  my tree ".to_string()), &mut p).unwrap(), "my tree");
    assert_eq!(resolve_name(Some(" ".to_string()), &mut p).unwrap(), "bo");
    assert_eq!(resolve_name(None, &mut p).unwrap(), "bo");
    assert_eq!(resolve_fresh_path(Some(String::new()), &mut p).unwrap(), "/prompted");
    let mut none = Scripted { path: Err(()), provider: String::new(), model: String::new() };
    assert!(matches!(resolve_fresh_path(None, &mut none), Err(SeedError::MissingInput { .. })));
    let providers = vec!["openai".to_string(), "deepseek".to_string()];
    assert_eq!(resolve_provider(Some("openai".to_string()), &providers, &mut p).unwrap(), "openai");
    assert_eq!(resolve_provider(None, &providers, &mut p).unwrap(), "deepseek");
    let e = resolve_provider(Some("nope".to_string()), &providers, &mut p).unwrap_err();
    assert_eq!(e.message(), "unknown provider 'nope'; valid providers: openai, deepseek");
    assert_eq!(e.exit_code(), 2);
    let models = vec!["m1".to_string(), "m2".to_string()];
    assert_eq!(resolve_model(Some(" m1 ".to_string()), "openai", &models, &mut p).unwrap(), "m1");
    assert_eq!(resolve_model(Some("  ".to_string()), "openai", &models, &mut p).unwrap(), "m2");
    let e = resolve_model(Some("m9".to_string()), "openai", &models, &mut p).unwrap_err();
    assert_eq!(e.message(), "unsupported model 'm9' for provider 'openai'; supported models: m1, m2");
    let r = created_seed_result("/p".into(), "n".into(), "c".into(), "openai".into(), "m1".into());
    assert_eq!(r.status, SeedStatus::Created);
    let tree = || Some(("/p".to_string(), "n".to_string(), "c".to_string()));
    assert!(valid_existing_seed(tree(), "openai".into(), Some("m1".into()), None, &models, true).is_some());
    assert!(valid_existing_seed(tree(), "openai".into(), Some("m1".into()), Some("m9".into()), &models, true).is_none());
    assert!(valid_existing_seed(tree(), "openai".into(), Some("m1".into()), None, &models, false).is_none());
    assert!(valid_existing_seed(None, "openai".into(), Some("m1".into()), None, &models, true).is_none());
}

#[test]
fn config_writes_apply_flags_to_what_was_read() {
    let supported = vec!["gpt-4.1".to_string(), "gpt-4.1-mini".to_string()];
    let defaults = ConfigValues { provider: "openai".into(), model: "gpt-4.1".into(), compile_model: None };
    let opts = WriteConfigOptions { provider: None, model: None, compile_model: Some("gpt-4.1-mini".into()) };
    let c = write_config(ConfigRead::NotFound, defaults.clone(), opts.clone(), &supported).unwrap();
    assert_eq!(c.model, "gpt-4.1");
    assert_eq!(c.compile_model, Some("gpt-4.1-mini".to_string()));
    let read = ConfigValues { provider: "openai".into(), model: "gpt-4.1-mini".into(), compile_model: None };
    let c = write_config(ConfigRead::Read(read), defaults.clone(), opts.clone(), &supported).unwrap();
    assert_eq!(c.model, "gpt-4.1-mini");
    match write_config(ConfigRead::Failed("bad toml".into()), defaults, opts, &supported) {
        Err(ConfigWriteError::Read(m)) => assert_eq!(m, "failed to read config: bad toml"),
        other => panic!("unexpected {:?}", other),
    }
    let r = config_write_result(c);
    assert_eq!(r.status, "ok");
    // The error wraps the reason, and its text wraps it once more, as the command reports it.
    assert_eq!(write_failure("disk full").message(), "failed to write config: failed to write config: disk full");
}

#[test]
fn raze_routes_and_results() {
    assert_eq!(raze_route(true, true, true), RazeRoute::Tree(AuthCleanup::Delete));
    assert_eq!(raze_route(true, true, false), RazeRoute::Tree(AuthCleanup::Preserve));
    assert_eq!(raze_route(true, false, true), RazeRoute::Nothing);
    assert_eq!(raze_route(false, false, true), RazeRoute::AuthOnly);
    assert_eq!(raze_route(false, true, false), RazeRoute::Nothing);
    let s = state(
        vec![leaf("a", None, 1)],
        vec![Branch {
            slug: "b".into(),
            file: "branch/b.md".into(),
            title: "B".into(),
            created_at: Timestamp { unix_millis: 0 },
            updated_at: Timestamp { unix_millis: 0 },
            leaves: vec![],
        }],
        None,
    );
    assert_eq!(manifest_files(&s), vec!["leaf/a.md".to_string(), "branch/b.md".to_string()]);
    assert_eq!(
        tree_deletes(vec!["leaf/a.md".to_string()], true, false),
        vec!["leaf/a.md".to_string(), "branch".to_string(), ".bo".to_string()]
    );
    assert_eq!(count_files(&vec![true, false, true]), 2);
    let r = razed_result(3, false, true, AuthCleanup::Preserve, false, true, "/out", "/cfg", "/auth");
    assert!(r.output_dir_left_in_place);
    assert!(r.preserved_auth);
    assert!(!r.deleted_auth);
    let c = cancelled_result(true, "/out", "/cfg", "/auth");
    assert!(c.cancelled);
    assert!(auth_only_result(false, "/auth").is_none());
    assert!(auth_only_result(true, "/auth").unwrap().deleted_auth);
    assert!(auth_only_untouched(true, "/auth").cancelled);
    assert!(matches!(map_pending_error(&PendingError::Busy("busy".into())), RazeError::Busy(m) if m == "busy"));
    assert!(matches!(map_pending_error(&PendingError::Other("x".into())), RazeError::Io(m) if m == "x"));
}
