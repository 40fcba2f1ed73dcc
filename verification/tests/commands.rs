use orksorksorks::commands::{
    read_failure, select_command, Action, Cli, Commands, CreateFailure, Event, GitReport,
};
use orksorksorks::config::{Config, Model, Prompt, Script, Step};
use orksorksorks::config_dir::{ConfigEnv, ConfigPathSource};
use orksorksorks::errors::Error;
use orksorksorks::output::{output_result, CommandResult};

/// What the outside world answers while a command runs.
struct Outside {
    /// The config file, or `None` when it is missing.
    config: Option<Config>,
    /// The working directory and branch git reports, or `None` outside a
    /// repository.
    git: Option<(&'static str, &'static str)>,
    /// The files that exist.
    present: Vec<String>,
    /// Whether the config file already exists (for `init`).
    exists: bool,
    /// Whether creating the config file is denied (for `init`).
    denied: bool,
}

/// Run a command against `outside`, returning its answer and the actions
/// it asked for.
fn drive(cli: &Cli, env: &ConfigEnv, outside: &Outside) -> (Result<String, Error>, Vec<String>) {
    let mut asked = Vec::new();
    let (mut run, mut action) = select_command(cli, env);
    loop {
        match action {
            Action::Finish(r) => return (r, asked),
            Action::LoadConfig { path, source } => {
                asked.push(format!("load {path}"));
                let loaded = match &outside.config {
                    Some(c) => Ok(c.clone()),
                    None => Err(read_failure(&path, source, "No such file or directory (os error 2)")),
                };
                action = run.advance(Event::ConfigLoaded(loaded));
            }
            Action::RunGit => {
                asked.push("git".to_string());
                let report = match outside.git {
                    Some((cwd, branch)) => GitReport {
                        cwd: cwd.to_string(),
                        exit_ok: true,
                        stdout: format!("{branch}\n"),
                        stderr: String::new(),
                    },
                    None => GitReport {
                        cwd: "/tmp".to_string(),
                        exit_ok: false,
                        stdout: String::new(),
                        stderr: "fatal: not a git repository\n".to_string(),
                    },
                };
                action = run.advance(Event::GitRan(Ok(report)));
            }
            Action::CheckArtifact(path) => {
                asked.push(format!("check {path}"));
                let exists = outside.present.contains(&path);
                action = run.advance(Event::ArtifactChecked(Ok(exists)));
            }
            Action::CreateConfig(path) => {
                asked.push(format!("create {path}"));
                let created = if outside.exists {
                    Err(CreateFailure { already_exists: true, message: "File exists (os error 17)".to_string() })
                } else if outside.denied {
                    Err(CreateFailure { already_exists: false, message: "Permission denied (os error 13)".to_string() })
                } else {
                    Ok(())
                };
                action = run.advance(Event::ConfigCreated(created));
            }
        }
    }
}

fn missing() -> Outside {
    Outside { config: None, git: None, present: vec![], exists: false, denied: false }
}

fn cli(command: Commands) -> Cli {
    Cli { json: false, command }
}

fn missing_config() -> Option<String> {
    Some("definitely-missing-config-file.toml".to_string())
}

fn step(name: &str, trigger: &str, model: &str, script: Option<&str>) -> Step {
    Step {
        name: name.to_string(),
        trigger_artifact: trigger.to_string(),
        model: model.to_string(),
        script: script.map(|s| s.to_string()),
    }
}

/// Two steps (`one`, `two`) with prompts, models and a script for `one`.
fn two_steps(show_frontmatter: bool) -> Config {
    Config {
        version: "0.1.0".to_string(),
        show_frontmatter,
        steps: vec![
            step("one", "first.txt", "small", Some("run-one")),
            step("two", "second.txt", "high", None),
        ],
        models: vec![
            Model { name: "small".to_string(), model: "openrouter/deepseek/flash".to_string(), thinking: "low".to_string() },
            Model { name: "high".to_string(), model: "openrouter/deepseek/pro".to_string(), thinking: "high".to_string() },
        ],
        prompts: vec![
            Prompt { name: "one".to_string(), content: "# Prompt for step one\n".to_string() },
            Prompt { name: "two".to_string(), content: "# Prompt for step two\n".to_string() },
        ],
        scripts: vec![Script { name: "run-one".to_string(), content: "# Script for step one\n".to_string() }],
    }
}

fn in_repo(config: Config, present: &[&str]) -> Outside {
    Outside {
        config: Some(config),
        git: Some(("/repo", "main")),
        present: present.iter().map(|p| format!("/repo/.pi/orksorksorks/main/{p}")).collect(),
        exists: false,
        denied: false,
    }
}

#[test]
fn select_command_routes_step() {
    let cli = cli(Commands::Step { config: missing_config(), step: None });
    let (r, _) = drive(&cli, &ConfigEnv::default(), &missing());
    let err = r.unwrap_err();
    assert_eq!(err.source, "io");
}

#[test]
fn select_command_routes_model() {
    let cli = cli(Commands::Model { config: missing_config(), step: None });
    let (r, _) = drive(&cli, &ConfigEnv::default(), &missing());
    let err = r.unwrap_err();
    assert_eq!(err.source, "io");
}

#[test]
fn select_command_routes_thinking() {
    let cli = cli(Commands::Thinking { config: missing_config(), step: None });
    let (r, _) = drive(&cli, &ConfigEnv::default(), &missing());
    let err = r.unwrap_err();
    assert_eq!(err.source, "io");
}

#[test]
fn select_command_routes_prompt() {
    let cli = cli(Commands::Prompt { step: None, config: missing_config() });
    let (r, _) = drive(&cli, &ConfigEnv::default(), &missing());
    let err = r.unwrap_err();
    assert_eq!(err.source, "io");
}

#[test]
fn select_command_routes_script() {
    let cli = cli(Commands::Script { step_name: None, config: missing_config() });
    let (r, _) = drive(&cli, &ConfigEnv::default(), &missing());
    let err = r.unwrap_err();
    assert_eq!(err.source, "io");
}

#[test]
fn read_config_missing_file_tags_io() {
    let err = read_failure("/tmp/x/nope.toml", ConfigPathSource::ExplicitFlag, "No such file");
    assert_eq!(err.source, "io");
    assert!(err.message.contains("/tmp/x/nope.toml"), "{}", err.message);
    assert!(err.message.contains("specified via --config"), "{}", err.message);
    assert_eq!(
        err.message,
        "could not read config file at /tmp/x/nope.toml (specified via --config): No such file"
    );
}

#[test]
fn read_config_io_error_contains_xdg_source() {
    let err = read_failure("/cfg/orksorksorks.toml", ConfigPathSource::XdgConfigHome, "denied");
    assert_eq!(err.source, "io");
    assert!(err.message.contains("resolved from XDG_CONFIG_HOME"));
    assert!(err.message.contains("/cfg/orksorksorks.toml"));
}

#[test]
fn select_command_routes_init() {
    let env = ConfigEnv { xdg_config_home: Some("/tmp/cfgdir".to_string()), ..ConfigEnv::default() };
    let cli = cli(Commands::Init { config: None });
    let (r, asked) = drive(&cli, &env, &missing());
    assert_eq!(asked, vec!["create /tmp/cfgdir/orksorksorks.toml".to_string()]);
    assert_eq!(r.unwrap(), "✓ Created /tmp/cfgdir/orksorksorks.toml");
}

#[test]
fn init_refuses_existing_file() {
    let cli = cli(Commands::Init { config: Some("/tmp/o.toml".to_string()) });
    let outside = Outside { exists: true, ..missing() };
    let err = drive(&cli, &ConfigEnv::default(), &outside).0.unwrap_err();
    assert_eq!(err.source, "config-exists");
    assert_eq!(err.message, "/tmp/o.toml already exists; not overwriting");
}

#[test]
fn init_without_config_dir_fails() {
    let cli = cli(Commands::Init { config: None });
    let (r, asked) = drive(&cli, &ConfigEnv::default(), &missing());
    assert!(asked.is_empty());
    assert_eq!(r.unwrap_err().source, "config-dir");
}

#[test]
fn branch_prints_current_branch() {
    let outside = Outside { git: Some(("/repo", "feature/foo")), ..missing() };
    let (r, _) = drive(&cli(Commands::Branch), &ConfigEnv::default(), &outside);
    assert_eq!(r.unwrap(), "feature/foo");
}

#[test]
fn branch_outside_repo_fails() {
    let (r, _) = drive(&cli(Commands::Branch), &ConfigEnv::default(), &missing());
    let err = r.unwrap_err();
    assert_eq!(err.source, "git");
    assert_eq!(err.message, "fatal: not a git repository");
}

#[test]
fn artifact_directory_prints_composed_path() {
    let outside = Outside { git: Some(("/repo", "feature/foo")), ..missing() };
    let (r, _) = drive(&cli(Commands::ArtifactDirectory), &ConfigEnv::default(), &outside);
    assert_eq!(r.unwrap(), "/repo/.pi/orksorksorks/feature-foo/");
}

#[test]
fn step_prints_name_of_step_with_present_artifact() {
    let cli = cli(Commands::Step { config: Some("orksorksorks.toml".to_string()), step: None });
    let (r, asked) = drive(&cli, &ConfigEnv::default(), &in_repo(two_steps(true), &["second.txt"]));
    assert_eq!(r.unwrap(), "two");
    assert_eq!(
        asked,
        vec![
            "load orksorksorks.toml".to_string(),
            "git".to_string(),
            "check /repo/.pi/orksorksorks/main/second.txt".to_string(),
        ]
    );
}

#[test]
fn step_no_artifacts_present_fails() {
    let cli = cli(Commands::Step { config: Some("orksorksorks.toml".to_string()), step: None });
    let (r, _) = drive(&cli, &ConfigEnv::default(), &in_repo(two_steps(true), &[]));
    let err = r.unwrap_err();
    assert_eq!(err.source, "step");
    assert_eq!(err.message, "/repo/.pi/orksorksorks/main/: no trigger artifact matched");
}

#[test]
fn step_command_flag_succeeds_in_non_git_dir() {
    let cli = cli(Commands::Step { config: Some("orksorksorks.toml".to_string()), step: Some("one".to_string()) });
    let outside = Outside { config: Some(two_steps(true)), ..missing() };
    let (r, asked) = drive(&cli, &ConfigEnv::default(), &outside);
    assert_eq!(r.unwrap(), "one");
    assert_eq!(asked, vec!["load orksorksorks.toml".to_string()]);
}

#[test]
fn step_command_flag_unknown_name_tags_step() {
    let cli = cli(Commands::Step { config: Some("c.toml".to_string()), step: Some("nope".to_string()) });
    let outside = Outside { config: Some(Config::default()), ..missing() };
    let err = drive(&cli, &ConfigEnv::default(), &outside).0.unwrap_err();
    assert_eq!(err.source, "step");
    assert!(err.message.contains("no step named \"nope\""), "{}", err.message);
}

#[test]
fn step_with_invalid_config_fails_with_config_tag() {
    let mut config = two_steps(true);
    config.prompts.pop();
    let cli = cli(Commands::Step { config: Some("c.toml".to_string()), step: None });
    let (r, asked) = drive(&cli, &ConfigEnv::default(), &in_repo(config, &["first.txt"]));
    assert_eq!(r.unwrap_err().source, "config:missing-prompt");
    assert_eq!(asked.len(), 1);
}

#[test]
fn model_prints_model_of_current_step() {
    let cli = cli(Commands::Model { config: Some("c.toml".to_string()), step: None });
    let (r, _) = drive(&cli, &ConfigEnv::default(), &in_repo(two_steps(true), &["first.txt"]));
    assert_eq!(r.unwrap(), "openrouter/deepseek/flash");
}

#[test]
fn thinking_prints_budget_of_named_step() {
    let cli = cli(Commands::Thinking { config: Some("c.toml".to_string()), step: Some("two".to_string()) });
    let outside = Outside { config: Some(two_steps(true)), ..missing() };
    let (r, _) = drive(&cli, &ConfigEnv::default(), &outside);
    assert_eq!(r.unwrap(), "high");
}

#[test]
fn prompt_frontmatter_shown_by_default() {
    let cli = cli(Commands::Prompt { step: None, config: Some("c.toml".to_string()) });
    let (r, asked) = drive(&cli, &ConfigEnv::default(), &in_repo(two_steps(true), &["first.txt"]));
    let out = r.unwrap();
    assert_eq!(
        out,
        "## Important variables\nUse these everywhere you see $<variable>\nstep = one\nbranch = main\nartifact_directory = /repo/.pi/orksorksorks/main/\n\n# Prompt for step one\n"
    );
    assert_eq!(asked.iter().filter(|a| *a == "git").count(), 2);
}

#[test]
fn prompt_frontmatter_hidden_when_show_frontmatter_false() {
    let cli = cli(Commands::Prompt { step: None, config: Some("c.toml".to_string()) });
    let (r, _) = drive(&cli, &ConfigEnv::default(), &in_repo(two_steps(false), &["first.txt"]));
    assert_eq!(r.unwrap(), "# Prompt for step one\n");
}

#[test]
fn prompt_with_explicit_step_name_flag_overrides_step() {
    let cli = cli(Commands::Prompt { step: Some("one".to_string()), config: Some("c.toml".to_string()) });
    let (r, _) = drive(&cli, &ConfigEnv::default(), &in_repo(two_steps(true), &["second.txt"]));
    let out = r.unwrap();
    assert!(out.starts_with("## Important variables\n"), "{out}");
    assert!(out.contains("## Important variables\nUse these everywhere you see $<variable>\nstep = one\n"), "{out}");
    assert!(out.contains("# Prompt for step one"), "{out}");
}

#[test]
fn prompt_command_step_flag_unknown_name_tags_step() {
    let cli = cli(Commands::Prompt { step: Some("nope".to_string()), config: Some("c.toml".to_string()) });
    let outside = Outside { config: Some(Config::default()), ..missing() };
    let err = drive(&cli, &ConfigEnv::default(), &outside).0.unwrap_err();
    assert_eq!(err.source, "step");
    assert!(err.message.contains("no step named \"nope\""), "{}", err.message);
}

#[test]
fn prompt_command_step_flag_known_step_missing_prompt_tags_validation() {
    let mut config = Config::default();
    config.steps.push(step("one", "first.txt", "small", None));
    let cli = cli(Commands::Prompt { step: Some("one".to_string()), config: Some("c.toml".to_string()) });
    let outside = Outside { config: Some(config), ..missing() };
    let err = drive(&cli, &ConfigEnv::default(), &outside).0.unwrap_err();
    assert_eq!(err.source, "config:missing-prompt");
    assert!(err.message.contains("has no matching prompt"), "{}", err.message);
}

#[test]
fn prompt_frontmatter_needs_git() {
    let cli = cli(Commands::Prompt { step: Some("one".to_string()), config: Some("c.toml".to_string()) });
    let outside = Outside { config: Some(two_steps(true)), ..missing() };
    let err = drive(&cli, &ConfigEnv::default(), &outside).0.unwrap_err();
    assert_eq!(err.source, "git");
}

#[test]
fn script_without_step_name_infers_current_step() {
    let cli = cli(Commands::Script { step_name: None, config: Some("c.toml".to_string()) });
    let (r, _) = drive(&cli, &ConfigEnv::default(), &in_repo(two_steps(true), &["first.txt"]));
    let out = r.unwrap();
    assert_eq!(out, "# Script for step one\n");
    assert!(!out.contains("## Important variables"));
}

#[test]
fn script_command_step_without_script_errors() {
    let cli = cli(Commands::Script { step_name: Some("two".to_string()), config: Some("c.toml".to_string()) });
    let outside = Outside { config: Some(two_steps(true)), ..missing() };
    let err = drive(&cli, &ConfigEnv::default(), &outside).0.unwrap_err();
    assert_eq!(err.source, "script");
    assert!(err.message.contains("has no script configured"), "{}", err.message);
    assert_eq!(err.message, "step \"two\" has no script configured");
}

#[test]
fn script_unknown_script_name_fails() {
    let mut config = two_steps(true);
    config.steps[0].script = Some("nope".to_string());
    let cli = cli(Commands::Script { step_name: Some("one".to_string()), config: Some("c.toml".to_string()) });
    let outside = Outside { config: Some(config), ..missing() };
    let err = drive(&cli, &ConfigEnv::default(), &outside).0.unwrap_err();
    assert_eq!(err.source, "script");
    assert!(err.message.contains("no script named"), "{}", err.message);
}

#[test]
fn step_without_flag_reads_config_dir() {
    let env = ConfigEnv { xdg_config_home: Some("/xdg/cfg".to_string()), ..ConfigEnv::default() };
    let cli = cli(Commands::Step { config: None, step: None });
    let (r, asked) = drive(&cli, &env, &in_repo(two_steps(true), &["first.txt"]));
    assert_eq!(r.unwrap(), "one");
    assert_eq!(asked[0], "load /xdg/cfg/orksorksorks.toml");
}

/// Run a command and print its answer as the program does: the printed
/// text, whether it went to stderr, and whether the program fails.
fn printed(cli: &Cli, env: &ConfigEnv, outside: &Outside) -> (String, bool, bool) {
    let (result, _) = drive(cli, env, outside);
    let cr = CommandResult { result, json: cli.json };
    let shown = output_result(&cr);
    (shown.text, shown.to_stderr, cr.failed())
}

fn json(command: Commands) -> Cli {
    Cli { json: true, command }
}

#[test]
fn artifact_directory_json_returns_valid_json_with_no_ansi() {
    let outside = Outside { git: Some(("/repo", "feature/foo")), ..missing() };
    let (stdout, to_stderr, failed) = printed(&json(Commands::ArtifactDirectory), &ConfigEnv::default(), &outside);
    assert!(!failed && !to_stderr);
    let v: serde_json::Value = serde_json::from_str(&stdout).unwrap();
    assert_eq!(v["data"].as_str(), Some("/repo/.pi/orksorksorks/feature-foo/"));
    assert!(!stdout.contains('\x1b'), "stdout: {stdout}");
}

#[test]
fn artifact_directory_outside_repo_fails() {
    let (_, to_stderr, failed) = printed(&cli(Commands::ArtifactDirectory), &ConfigEnv::default(), &missing());
    assert!(failed);
    assert!(to_stderr);
}

#[test]
fn branch_json_returns_valid_json_with_no_ansi() {
    let outside = Outside { git: Some(("/repo", "feature/foo")), ..missing() };
    let (stdout, to_stderr, failed) = printed(&json(Commands::Branch), &ConfigEnv::default(), &outside);
    assert!(!failed && !to_stderr);
    let v: serde_json::Value = serde_json::from_str(&stdout).unwrap();
    assert_eq!(v["data"].as_str(), Some("feature/foo"));
    assert!(!stdout.contains('\x1b'), "stdout: {stdout}");
}

fn xdg_config() -> ConfigEnv {
    ConfigEnv { xdg_config_home: Some("/tmp/t/config".to_string()), ..ConfigEnv::default() }
}

#[test]
fn init_returns_success_message() {
    let (stdout, to_stderr, failed) = printed(&cli(Commands::Init { config: None }), &xdg_config(), &missing());
    assert!(!failed && !to_stderr);
    assert!(stdout.contains("✓ Created /tmp/t/config/orksorksorks.toml"), "stdout: {stdout}");
}

#[test]
fn init_json_returns_valid_json_with_data_field() {
    let (stdout, to_stderr, failed) = printed(&json(Commands::Init { config: None }), &xdg_config(), &missing());
    assert!(!failed && !to_stderr);
    assert!(stdout.contains(r#""data""#), "stdout: {stdout}");
    assert!(stdout.contains("✓ Created /tmp/t/config/orksorksorks.toml"), "stdout: {stdout}");
    let _: serde_json::Value = serde_json::from_str(&stdout).unwrap();
}

#[test]
fn init_no_json_prints_plain_text() {
    let (stdout, _, failed) = printed(&cli(Commands::Init { config: None }), &xdg_config(), &missing());
    assert!(!failed);
    assert!(stdout.contains("✓ Created /tmp/t/config/orksorksorks.toml"), "stdout: {stdout}");
    assert!(!stdout.contains('\x1b'), "stdout should have no ANSI: {stdout}");
}

#[test]
fn prompt_without_step_name_no_artifacts_fails() {
    let cli = cli(Commands::Prompt { step: None, config: Some("orksorksorks.toml".to_string()) });
    let (_, to_stderr, failed) = printed(&cli, &ConfigEnv::default(), &in_repo(two_steps(true), &[]));
    assert!(failed);
    assert!(to_stderr);
}

#[test]
fn prompt_flag_returns_content() {
    let cli = json(Commands::Prompt { step: Some("one".to_string()), config: Some("orksorksorks.toml".to_string()) });
    let (stdout, _, failed) = printed(&cli, &ConfigEnv::default(), &in_repo(two_steps(true), &[]));
    assert!(!failed);
    let v: serde_json::Value = serde_json::from_str(&stdout).unwrap();
    let data = v["data"].as_str().unwrap();
    assert!(data.contains("# Prompt for step one"), "data: {data}");
    assert!(!stdout.contains('\x1b'), "stdout: {stdout}");
}

#[test]
fn script_step_without_script_field_fails() {
    let cli = json(Commands::Script { step_name: Some("two".to_string()), config: Some("orksorksorks.toml".to_string()) });
    let outside = Outside { config: Some(two_steps(true)), ..missing() };
    let (stdout, to_stderr, failed) = printed(&cli, &ConfigEnv::default(), &outside);
    assert!(failed);
    assert!(!to_stderr);
    let v: serde_json::Value = serde_json::from_str(&stdout).unwrap();
    assert_eq!(v["error"]["source"].as_str().unwrap(), "script");
    let message = v["error"]["message"].as_str().unwrap();
    assert!(message.contains("has no script configured"), "message: {message}");
}

#[test]
fn only_init_asks_to_create_a_file() {
    let outside = in_repo(two_steps(true), &["first.txt"]);
    let commands = vec![
        Commands::Branch,
        Commands::ArtifactDirectory,
        Commands::Step { config: Some("c.toml".to_string()), step: None },
        Commands::Model { config: Some("c.toml".to_string()), step: None },
        Commands::Thinking { config: Some("c.toml".to_string()), step: None },
        Commands::Prompt { config: Some("c.toml".to_string()), step: None },
        Commands::Script { step_name: None, config: Some("c.toml".to_string()) },
    ];
    for command in commands {
        let (r, asked) = drive(&cli(command), &ConfigEnv::default(), &outside);
        assert!(r.is_ok());
        assert!(asked.iter().all(|a| !a.starts_with("create")), "{asked:?}");
    }
    let (_, asked) = drive(&cli(Commands::Init { config: Some("c.toml".to_string()) }), &ConfigEnv::default(), &outside);
    assert_eq!(asked, vec!["create c.toml".to_string()]);
}

#[test]
fn step_flag_only_loads_the_config() {
    let outside = Outside { config: Some(two_steps(true)), ..missing() };
    let named = || Some("one".to_string());
    let commands = vec![
        (Commands::Step { config: Some("c.toml".to_string()), step: named() }, "one"),
        (Commands::Model { config: Some("c.toml".to_string()), step: named() }, "openrouter/deepseek/flash"),
        (Commands::Thinking { config: Some("c.toml".to_string()), step: named() }, "low"),
        (Commands::Script { step_name: named(), config: Some("c.toml".to_string()) }, "# Script for step one\n"),
    ];
    for (command, expected) in commands {
        let (r, asked) = drive(&cli(command), &ConfigEnv::default(), &outside);
        assert_eq!(r.unwrap(), expected);
        assert_eq!(asked, vec!["load c.toml".to_string()]);
    }
    let hidden = Outside { config: Some(two_steps(false)), ..missing() };
    let prompt = Commands::Prompt { config: Some("c.toml".to_string()), step: named() };
    let (r, asked) = drive(&cli(prompt), &ConfigEnv::default(), &hidden);
    assert_eq!(r.unwrap(), "# Prompt for step one\n");
    assert_eq!(asked, vec!["load c.toml".to_string()]);
}

#[test]
fn config_is_read_before_git() {
    let cli = cli(Commands::Model { config: Some("c.toml".to_string()), step: None });
    let (r, asked) = drive(&cli, &ConfigEnv::default(), &missing());
    assert_eq!(asked, vec!["load c.toml".to_string()]);
    assert_eq!(r.unwrap_err().source, "io");
}

#[test]
fn init_in_readonly_dir_returns_error_exit_code() {
    let outside = Outside { denied: true, ..missing() };
    let (_, _, failed) = printed(&cli(Commands::Init { config: None }), &xdg_config(), &outside);
    assert!(failed);
}

#[test]
fn init_json_error_in_readonly_dir_shows_source_io() {
    let outside = Outside { denied: true, ..missing() };
    let (stdout, to_stderr, failed) = printed(&json(Commands::Init { config: None }), &xdg_config(), &outside);
    assert!(failed && !to_stderr);
    assert!(stdout.contains(r#""source":"io""#), "stdout: {stdout}");
    assert_eq!(stdout, r#"{"error":{"message":"Permission denied (os error 13)","source":"io"}}"#);
}

#[test]
fn every_command_finishes_within_its_bound() {
    // Two steps in the config: a run finishes within 2 * 2 + 5 exchanges.
    let outside = in_repo(two_steps(true), &["first.txt"]);
    let commands = vec![
        Commands::Init { config: Some("c.toml".to_string()) },
        Commands::Branch,
        Commands::ArtifactDirectory,
        Commands::Step { config: Some("c.toml".to_string()), step: None },
        Commands::Model { config: Some("c.toml".to_string()), step: None },
        Commands::Thinking { config: Some("c.toml".to_string()), step: None },
        Commands::Prompt { config: Some("c.toml".to_string()), step: None },
        Commands::Script { step_name: None, config: Some("c.toml".to_string()) },
    ];
    for command in commands {
        let (_, asked) = drive(&cli(command), &ConfigEnv::default(), &outside);
        assert!(asked.len() <= 9, "{asked:?}");
    }
}
