use ail_core::config::domain::{
    ActionKind, ContextSource, ExitCodeMatch, HitlHeadlessBehavior, Pipeline, ProviderConfig,
    ResultAction, ResultBranch, ResultMatcher, Step, StepBody, StepId, ToolPolicy,
};
use ail_core::materialize::{materialize, yaml_quote};

fn make_step(id: &str, body: StepBody) -> Step {
    Step {
        id: StepId(id.to_string()),
        body,
        message: None,
        tools: None,
        on_result: None,
        model: None,
        runner: None,
        condition: None,
        append_system_prompt: None,
        system_prompt: None,
        resume: false,
        async_step: false,
        depends_on: vec![],
        on_error: None,
        before: vec![],
        then_steps: vec![],
        output_schema: None,
        input_schema: None,
    }
}

fn pipeline_of(steps: Vec<Step>, source: &str) -> Pipeline {
    Pipeline {
        steps,
        source: Some(source.to_string()),
        defaults: ProviderConfig::default(),
        ..Default::default()
    }
}

fn make_pipeline(prompt: &str) -> Pipeline {
    pipeline_of(vec![make_step("test_step", StepBody::Prompt(prompt.to_string()))], "test.ail.yaml")
}

fn is_valid_yaml(text: &str) -> bool {
    serde_yaml::from_str::<serde_yaml::Value>(text).is_ok()
}

#[test]
fn output_contains_origin_comment() {
    let output = materialize(&make_pipeline("do something"));
    assert!(output.contains("# origin: [1] test.ail.yaml"));
}

#[test]
fn output_is_valid_yaml() {
    let output = materialize(&make_pipeline("do something"));
    assert!(is_valid_yaml(&output), "Output was not valid YAML: {output}");
}

#[test]
fn passthrough_source_uses_passthrough_label() {
    let output = materialize(&Pipeline::passthrough());
    assert!(output.contains("<passthrough>"), "expected <passthrough> label in origin comment, got: {output}");
}

#[test]
fn single_step_id_appears_in_output() {
    let output = materialize(&make_pipeline("do something"));
    assert!(output.contains("test_step"), "step id not found in output: {output}");
}

#[test]
fn multiple_step_ids_all_appear_in_output() {
    let pipeline = pipeline_of(
        vec![
            make_step("alpha", StepBody::Prompt("first".to_string())),
            make_step("beta", StepBody::Prompt("second".to_string())),
            make_step("gamma", StepBody::Prompt("third".to_string())),
        ],
        "multi.ail.yaml",
    );
    let output = materialize(&pipeline);
    assert!(output.contains("alpha"), "alpha not in output");
    assert!(output.contains("beta"), "beta not in output");
    assert!(output.contains("gamma"), "gamma not in output");
}

#[test]
fn multiple_steps_have_sequential_origin_numbers() {
    let pipeline = pipeline_of(
        vec![
            make_step("s1", StepBody::Prompt("p1".to_string())),
            make_step("s2", StepBody::Prompt("p2".to_string())),
        ],
        "numbered.ail.yaml",
    );
    let output = materialize(&pipeline);
    assert!(output.contains("# origin: [1]"), "missing origin [1]");
    assert!(output.contains("# origin: [2]"), "missing origin [2]");
}

#[test]
fn prompt_text_appears_in_output() {
    let prompt = "Review everything carefully before committing";
    let output = materialize(&make_pipeline(prompt));
    assert!(output.contains(prompt), "prompt text not found in output: {output}");
}

#[test]
fn prompt_with_special_chars_produces_valid_yaml() {
    let output = materialize(&make_pipeline(r#"Use "quotes" and back\slashes"#));
    assert!(is_valid_yaml(&output), "Output was not valid YAML: {output}");
}

#[test]
fn context_shell_step_appears_in_output() {
    let pipeline = pipeline_of(
        vec![make_step("lint", StepBody::Context(ContextSource::Shell("cargo clippy -- -D warnings".to_string())))],
        "ctx.ail.yaml",
    );
    let output = materialize(&pipeline);
    assert!(output.contains("context:"), "context: key missing");
    assert!(output.contains("shell:"), "shell: key missing");
    assert!(output.contains("cargo clippy"), "shell command not in output");
}

#[test]
fn empty_steps_list_produces_valid_yaml() {
    let output = materialize(&pipeline_of(vec![], "empty.ail.yaml"));
    assert!(is_valid_yaml(&output), "Output was not valid YAML: {output}");
}

#[test]
fn resume_true_step_appears_in_output() {
    let mut step = make_step("resume_step", StepBody::Prompt("hello".to_string()));
    step.resume = true;
    let output = materialize(&pipeline_of(vec![step], "resume.ail.yaml"));
    assert!(output.contains("resume: true"), "resume: true not in output: {output}");
}

#[test]
fn system_prompt_appears_in_output() {
    let mut step = make_step("sp_step", StepBody::Prompt("hello".to_string()));
    step.system_prompt = Some("You are a helpful assistant.".to_string());
    let output = materialize(&pipeline_of(vec![step], "sp.ail.yaml"));
    assert!(output.contains("system_prompt:"), "system_prompt key missing");
    assert!(output.contains("You are a helpful assistant."), "system_prompt value missing");
}

#[test]
fn action_pause_for_human_appears_in_output() {
    let output = materialize(&pipeline_of(
        vec![make_step("gate", StepBody::Action(ActionKind::PauseForHuman))],
        "action.ail.yaml",
    ));
    assert!(output.contains("pause_for_human"), "pause_for_human not in output: {output}");
}

#[test]
fn on_result_section_appears_in_output() {
    let mut step = make_step("checked", StepBody::Prompt("do work".to_string()));
    step.on_result = Some(vec![ResultBranch { matcher: ResultMatcher::Always, action: ResultAction::Continue }]);
    let output = materialize(&pipeline_of(vec![step], "on_result.ail.yaml"));
    assert!(output.contains("on_result:"), "on_result: key missing");
    assert!(output.contains("always: true"), "always matcher missing");
    assert!(output.contains("continue"), "continue action missing");
}

#[test]
fn sub_pipeline_step_appears_in_output() {
    let output = materialize(&pipeline_of(
        vec![make_step("child", StepBody::SubPipeline { path: "child.ail.yaml".to_string(), prompt: None })],
        "parent.ail.yaml",
    ));
    assert!(output.contains("pipeline: child.ail.yaml"), "pipeline key missing");
}

#[test]
fn skill_step_appears_in_output() {
    let output = materialize(&pipeline_of(
        vec![make_step("sk", StepBody::Skill { name: "skills/my-skill".to_string() })],
        "skill.ail.yaml",
    ));
    assert!(output.contains("skill:"), "skill: key missing");
    assert!(output.contains("my-skill"), "skill path missing");
}

#[test]
fn output_starts_with_version_header() {
    let output = materialize(&make_pipeline("anything"));
    assert!(output.starts_with("version:"), "output does not start with version header: {output}");
}

#[test]
fn pipeline_with_default_tools_produces_valid_yaml() {
    let mut pipeline = pipeline_of(vec![make_step("s", StepBody::Prompt("x".to_string()))], "dt.ail.yaml");
    pipeline.default_tools = Some(ToolPolicy { disabled: false, allow: vec!["Bash".to_string()], deny: vec![] });
    let output = materialize(&pipeline);
    assert!(is_valid_yaml(&output), "Output was not valid YAML: {output}");
}

#[test]
fn yaml_quote_escapes_backslashes_and_quotes() {
    assert_eq!(yaml_quote(r#"a\b"c"#), r#"a\\b\"c"#);
    assert_eq!(yaml_quote("plain"), "plain");
}

#[test]
fn exact_text_of_a_small_pipeline() {
    let mut step = make_step("check", StepBody::Context(ContextSource::Shell("exit 1".to_string())));
    step.on_result = Some(vec![
        ResultBranch { matcher: ResultMatcher::ExitCode(ExitCodeMatch::Exact(-2)), action: ResultAction::Break },
        ResultBranch {
            matcher: ResultMatcher::Contains("x".to_string()),
            action: ResultAction::Pipeline { path: "fix.yaml".to_string(), prompt: Some("go".to_string()) },
        },
    ]);
    let gate = make_step(
        "gate",
        StepBody::Action(ActionKind::ModifyOutput {
            headless_behavior: HitlHeadlessBehavior::UseDefault,
            default_value: Some("d".to_string()),
        }),
    );
    let output = materialize(&pipeline_of(vec![step, gate], "p.yaml"));
    let expected = [
        "version: \"0.0.1\"\npipeline:\n",
        "  # origin: [1] p.yaml\n",
        "  - id: check\n",
        "    context:\n      shell: \"exit 1\"\n",
        "    on_result:\n",
        "      - exit_code: -2\n        action: break\n",
        "      - contains: \"x\"\n        action: pipeline: fix.yaml\n        prompt: \"go\"\n",
        "  # origin: [2] p.yaml\n",
        "  - id: gate\n",
        "    action: modify_output\n    on_headless: use_default\n    default_value: \"d\"\n",
    ]
    .concat();
    assert_eq!(output, expected);
}
