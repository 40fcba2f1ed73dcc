use orksorksorks::config::{Config, Model, Prompt, Script, Step};
use orksorksorks::errors::Error;
use orksorksorks::resolve::{
    artifact_dir_path, resolve_model, resolve_prompt, resolve_script, resolve_step,
};
use orksorksorks::search::{SearchStep, StepSearch};

fn step(name: &str, trigger: &str, model: &str) -> Step {
    Step {
        name: name.to_string(),
        trigger_artifact: trigger.to_string(),
        model: model.to_string(),
        script: None,
    }
}

fn config_with(steps: Vec<Step>, models: Vec<Model>, prompts: Vec<Prompt>, scripts: Vec<Script>) -> Config {
    Config {
        version: "0.1.0".to_string(),
        show_frontmatter: true,
        steps,
        models,
        prompts,
        scripts,
    }
}

/// Drive the step search, answering each check from the files in
/// `present` (names relative to `artifact_dir`).
fn determine_step(config: &Config, artifact_dir: &str, present: &[&str]) -> Result<Step, Error> {
    let mut search = StepSearch::new(config);
    let mut step = search.advance(config, artifact_dir, None);
    loop {
        match step {
            SearchStep::Check(path) => {
                let exists = present
                    .iter()
                    .any(|name| format!("{artifact_dir}{name}") == path);
                step = search.advance(config, artifact_dir, Some(Ok(exists)));
            }
            SearchStep::Done(result) => return result,
        }
    }
}

#[test]
fn artifact_dir_path_appends_trailing_slash() {
    let path = artifact_dir_path("/repo", "main");
    assert_eq!(path, "/repo/.pi/orksorksorks/main/");
}

#[test]
fn artifact_dir_path_is_plain() {
    let path = artifact_dir_path("/repo", "main");
    assert!(!path.contains('\x1b'), "{path}");
}

#[test]
fn artifact_dir_path_handles_branch_with_slashes() {
    let path = artifact_dir_path("/repo", "feature/x");
    assert_eq!(path, "/repo/.pi/orksorksorks/feature-x/");
}

#[test]
fn artifact_dir_path_replaces_all_slashes() {
    let path = artifact_dir_path("/repo", "a/b/c");
    assert_eq!(path, "/repo/.pi/orksorksorks/a-b-c/");
}

#[test]
fn artifact_dir_path_leaves_slashless_branch_unchanged() {
    let path = artifact_dir_path("/repo", "main");
    assert_eq!(path, "/repo/.pi/orksorksorks/main/");
}

#[test]
fn determine_step_returns_step_with_present_artifact() {
    let config = config_with(
        vec![step("one", "first.txt", "small"), step("two", "second.txt", "high")],
        vec![],
        vec![],
        vec![],
    );
    let artifact_dir = "/tmp/work/";
    assert_eq!(determine_step(&config, artifact_dir, &["first.txt"]).unwrap().name, "one");
}

#[test]
fn determine_step_prefers_last_step_in_reverse() {
    let config = config_with(
        vec![step("one", "first.txt", "small"), step("two", "second.txt", "high")],
        vec![],
        vec![],
        vec![],
    );
    let artifact_dir = "/tmp/work/";
    assert_eq!(
        determine_step(&config, artifact_dir, &["first.txt", "second.txt"]).unwrap().name,
        "two"
    );
}

#[test]
fn determine_step_empty_trigger_is_default_fallback() {
    let config = config_with(
        vec![step("one", "first.txt", "small"), step("default", "", "small")],
        vec![],
        vec![],
        vec![],
    );
    assert_eq!(determine_step(&config, "/tmp/work/", &[]).unwrap().name, "default");
}

#[test]
fn determine_step_empty_trigger_does_not_shadow_real_match() {
    let config = config_with(
        vec![step("one", "first.txt", "small"), step("default", "", "small")],
        vec![],
        vec![],
        vec![],
    );
    assert_eq!(determine_step(&config, "/tmp/work/", &["first.txt"]).unwrap().name, "one");
}

#[test]
fn determine_step_empty_trigger_matches_before_later_artifact() {
    let config = config_with(
        vec![step("default", "", "small"), step("two", "second.txt", "high")],
        vec![],
        vec![],
        vec![],
    );
    assert_eq!(determine_step(&config, "/tmp/work/", &["second.txt"]).unwrap().name, "two");
}

#[test]
fn determine_step_latest_empty_trigger_wins() {
    let config = config_with(
        vec![step("one", "", "small"), step("two", "", "high")],
        vec![],
        vec![],
        vec![],
    );
    assert_eq!(determine_step(&config, "/tmp/work/", &[]).unwrap().name, "two");
}

#[test]
fn determine_step_no_match_errors_with_step_tag() {
    let config = config_with(vec![step("one", "first.txt", "small")], vec![], vec![], vec![]);
    let err = determine_step(&config, "/tmp/work/", &[]).unwrap_err();
    assert_eq!(err.source, "step");
    assert!(err.message.contains("no trigger artifact matched"), "{}", err.message);
    assert_eq!(err.message, "/tmp/work/: no trigger artifact matched");
}

#[test]
fn determine_step_checks_paths_under_artifact_dir() {
    let config = config_with(
        vec![step("one", "first.txt", "small"), step("two", "second.txt", "high")],
        vec![],
        vec![],
        vec![],
    );
    let mut search = StepSearch::new(&config);
    match search.advance(&config, "/a/", None) {
        SearchStep::Check(path) => assert_eq!(path, "/a/second.txt"),
        SearchStep::Done(_) => panic!("expected a check"),
    }
    match search.advance(&config, "/a/", Some(Ok(false))) {
        SearchStep::Check(path) => assert_eq!(path, "/a/first.txt"),
        SearchStep::Done(_) => panic!("expected a check"),
    }
}

#[test]
fn determine_step_check_error_ends_search() {
    let config = config_with(vec![step("one", "first.txt", "small")], vec![], vec![], vec![]);
    let mut search = StepSearch::new(&config);
    let _ = search.advance(&config, "/a/", None);
    match search.advance(&config, "/a/", Some(Err(Error::new("io", "denied")))) {
        SearchStep::Done(Err(e)) => {
            assert_eq!(e.source, "io");
            assert_eq!(e.message, "denied");
        }
        _ => panic!("expected the error"),
    }
}

#[test]
fn resolve_model_returns_model_for_matching_name() {
    let config = config_with(
        vec![],
        vec![Model {
            name: "small".to_string(),
            model: "openrouter/deepseek/flash".to_string(),
            thinking: "high".to_string(),
        }],
        vec![],
        vec![],
    );
    assert_eq!(
        resolve_model(&config, "small").unwrap().model,
        "openrouter/deepseek/flash",
    );
    assert_eq!(resolve_model(&config, "small").unwrap().thinking, "high");
}

#[test]
fn resolve_model_missing_name_errors_with_model_tag() {
    let config = config_with(
        vec![],
        vec![Model {
            name: "small".to_string(),
            model: "openrouter/deepseek/flash".to_string(),
            thinking: "high".to_string(),
        }],
        vec![],
        vec![],
    );
    let err = resolve_model(&config, "large").unwrap_err();
    assert_eq!(err.source, "model");
    assert!(err.message.contains("no model named"), "{}", err.message);
    assert_eq!(err.message, "no model named \"large\"");
}

#[test]
fn resolve_step_returns_matching_step() {
    let config = config_with(vec![step("one", "first.txt", "small")], vec![], vec![], vec![]);
    let step = resolve_step(&config, "one").unwrap();
    assert_eq!(step.name, "one");
    assert_eq!(step.trigger_artifact, "first.txt");
    assert_eq!(step.model, "small");
}

#[test]
fn resolve_step_unknown_name_tags_step_error() {
    let config = config_with(vec![step("one", "", "small")], vec![], vec![], vec![]);
    let err = resolve_step(&config, "nope").unwrap_err();
    assert_eq!(err.source, "step");
    assert!(err.message.contains("no step named \"nope\""), "{}", err.message);
}

#[test]
fn resolve_step_first_match_wins() {
    let config = config_with(
        vec![step("dup", "", "small"), step("dup", "", "high")],
        vec![],
        vec![],
        vec![],
    );
    let step = resolve_step(&config, "dup").unwrap();
    assert_eq!(step.model, "small");
}

#[test]
fn resolve_prompt_returns_content_for_matching_name() {
    let config = config_with(
        vec![],
        vec![],
        vec![Prompt {
            name: "questions".to_string(),
            content: "# Question — Decompose the Task\n".to_string(),
        }],
        vec![],
    );
    assert_eq!(
        resolve_prompt(&config, "questions").unwrap(),
        "# Question — Decompose the Task\n",
    );
}

#[test]
fn resolve_prompt_missing_name_errors_with_prompt_tag() {
    let config = config_with(
        vec![],
        vec![],
        vec![Prompt { name: "questions".to_string(), content: String::new() }],
        vec![],
    );
    let err = resolve_prompt(&config, "research").unwrap_err();
    assert_eq!(err.source, "prompt");
    assert!(err.message.contains("no prompt named"), "{}", err.message);
}

#[test]
fn resolve_script_hit_returns_content() {
    let config = config_with(
        vec![],
        vec![],
        vec![],
        vec![Script { name: "run-one".to_string(), content: "#!/bin/bash\n".to_string() }],
    );
    assert_eq!(resolve_script(&config, "run-one").unwrap(), "#!/bin/bash\n",);
}

#[test]
fn resolve_script_miss_returns_script_tag() {
    let config = config_with(
        vec![],
        vec![],
        vec![],
        vec![Script { name: "run-one".to_string(), content: String::new() }],
    );
    let err = resolve_script(&config, "nope").unwrap_err();
    assert_eq!(err.source, "script");
    assert!(err.message.contains("no script named"), "{}", err.message);
}

#[test]
fn resolve_script_first_match_wins() {
    let config = config_with(
        vec![],
        vec![],
        vec![],
        vec![
            Script { name: "dup".to_string(), content: "first\n".to_string() },
            Script { name: "dup".to_string(), content: "second\n".to_string() },
        ],
    );
    assert_eq!(resolve_script(&config, "dup").unwrap(), "first\n",);
}
