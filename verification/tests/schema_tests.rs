use ail_core::config::on_result::validate_field_in_schema;
use ail_core::config::domain::{OnError, Pipeline, ResultAction, ResultBranch, ResultMatcher, Step, StepBody, StepId};
use ail_core::error::error_types;
use ail_core::error::AilError;
use ail_core::executor::engine::{execute, StepEffects};
use ail_core::executor::events::ExecuteOutcome;
use ail_core::executor::schema::{validate_join_output_schema, validate_output_schema, field_matches};
use ail_core::executor::turn::TurnEntry;
use ail_core::runner::{InvokeOptions, RunResult, Runner};
use ail_core::session::Session;

struct FixedRunner {
    response: String,
}

impl Runner for FixedRunner {
    fn invoke(&self, _prompt: &str, _options: InvokeOptions) -> Result<RunResult, AilError> {
        Ok(RunResult { response: self.response.clone(), ..Default::default() })
    }
}

struct NoEffects;

impl StepEffects for NoEffects {
    fn run_shell(&mut self, _step_id: &str, _cmd: &str) -> Result<(String, String, i32), AilError> {
        Ok((String::new(), String::new(), 0))
    }

    fn read_file(&mut self, _step_id: &str, path: &str) -> Result<String, AilError> {
        Err(AilError::config_not_found(path))
    }

    fn load_pipeline(&mut self, _step_id: &str, path: &str) -> Result<Pipeline, AilError> {
        Err(AilError::config_not_found(path))
    }
}

fn prompt(id: &str) -> Step {
    Step {
        id: StepId(id.to_string()),
        body: StepBody::Prompt("p".to_string()),
        message: None,
        tools: None,
        on_result: None,
        model: None,
        runner: None,
        condition: None,
        append_system_prompt: None,
        system_prompt: None,
        resume: false,
        async_step: false,
        depends_on: vec![],
        on_error: None,
        before: vec![],
        then_steps: vec![],
        output_schema: None,
        input_schema: None,
    }
}

fn run(steps: Vec<Step>, response: &str) -> (Result<ExecuteOutcome, AilError>, Session) {
    let mut session = Session::new(Pipeline { steps, ..Default::default() }, "go".to_string());
    let runner = FixedRunner { response: response.to_string() };
    let r = execute(&mut session, &runner, &mut NoEffects);
    (r, session)
}

const OBJECT_WITH_OK: &str = r#"{"type": "object", "required": ["ok"]}"#;

#[test]
fn output_schema_accepts_matching_response() {
    let step = Step { output_schema: Some(OBJECT_WITH_OK.to_string()), ..prompt("s") };
    let (r, session) = run(vec![step], r#"{"ok": true}"#);
    assert!(matches!(r, Ok(ExecuteOutcome::Completed)));
    assert_eq!(session.turn_log.entries().len(), 1);
}

#[test]
fn output_schema_rejects_response_that_is_not_json() {
    let step = Step { output_schema: Some(OBJECT_WITH_OK.to_string()), ..prompt("s") };
    let (r, session) = run(vec![step], "plain words");
    let err = r.unwrap_err();
    assert_eq!(err.error_type(), error_types::PIPELINE_ABORTED);
    assert!(err.detail().contains("not valid JSON"));
    assert!(session.turn_log.entries().is_empty());
}

#[test]
fn output_schema_rejects_response_that_breaks_schema() {
    let step = Step { output_schema: Some(OBJECT_WITH_OK.to_string()), ..prompt("s") };
    let (r, _) = run(vec![step], r#"{"other": 1}"#);
    let err = r.unwrap_err();
    assert_eq!(err.error_type(), error_types::PIPELINE_ABORTED);
    assert!(err.detail().contains("failed output_schema validation"));
}

#[test]
fn output_schema_failure_with_continue_skips_the_entry() {
    let step = Step {
        output_schema: Some(OBJECT_WITH_OK.to_string()),
        on_error: Some(OnError::Continue),
        ..prompt("s")
    };
    let (r, session) = run(vec![step, prompt("next")], "plain words");
    assert!(matches!(r, Ok(ExecuteOutcome::Completed)));
    let entries = session.turn_log.entries();
    assert_eq!(entries.len(), 1);
    assert_eq!(entries[0].step_id, "next");
}

#[test]
fn input_schema_rejects_preceding_output_that_is_not_json() {
    let step = Step { input_schema: Some(r#"{"type": "object"}"#.to_string()), ..prompt("second") };
    let (r, session) = run(vec![prompt("first"), step], "plain words");
    let err = r.unwrap_err();
    assert_eq!(err.error_type(), error_types::PIPELINE_ABORTED);
    assert!(err.detail().contains("input_schema"));
    assert_eq!(session.turn_log.entries().len(), 1);
}

#[test]
fn field_matcher_fires_on_validated_input() {
    let step = Step {
        input_schema: Some(r#"{"type": "object"}"#.to_string()),
        on_result: Some(vec![ResultBranch {
            matcher: ResultMatcher::Field { name: "verdict".to_string(), equals: r#""pass""#.to_string() },
            action: ResultAction::Break,
        }]),
        ..prompt("second")
    };
    let (r, _) = run(vec![prompt("first"), step, prompt("third")], r#"{"verdict": "pass"}"#);
    match r {
        Ok(ExecuteOutcome::Break { step_id }) => assert_eq!(step_id, "second"),
        other => panic!("expected Break, got {other:?}"),
    }
}

#[test]
fn field_matcher_without_input_schema_never_fires() {
    let step = Step {
        on_result: Some(vec![ResultBranch {
            matcher: ResultMatcher::Field { name: "verdict".to_string(), equals: r#""pass""#.to_string() },
            action: ResultAction::Break,
        }]),
        ..prompt("second")
    };
    let (r, session) = run(vec![prompt("first"), step, prompt("third")], r#"{"verdict": "pass"}"#);
    assert!(matches!(r, Ok(ExecuteOutcome::Completed)));
    assert_eq!(session.turn_log.entries().len(), 3);
}

#[test]
fn field_matches_compares_member_values() {
    let doc = r#"{"verdict": "pass", "score": 3}"#;
    assert!(field_matches(Some(doc), "verdict", r#""pass""#));
    assert!(!field_matches(Some(doc), "verdict", r#""fail""#));
    assert!(field_matches(Some(doc), "score", "3"));
    assert!(!field_matches(Some(doc), "missing", "null"));
    assert!(!field_matches(None, "verdict", r#""pass""#));
}

#[test]
fn validate_output_schema_reports_the_step_id() {
    let entry = TurnEntry::with_response("gen".to_string(), "p".to_string(), Some("[1]".to_string()));
    let err = validate_output_schema(&entry, OBJECT_WITH_OK, "gen").unwrap_err();
    assert!(err.detail().starts_with("Step 'gen'"));
    assert!(validate_output_schema(&entry, r#"{"type": "array"}"#, "gen").is_ok());
}

#[test]
fn validate_join_output_schema_distinguishes_its_errors() {
    let schema = OBJECT_WITH_OK;
    let not_json = validate_join_output_schema("nope", schema, "j").unwrap_err();
    assert_eq!(not_json.error_type(), error_types::CONFIG_VALIDATION_FAILED);
    let mismatch = validate_join_output_schema(r#"{"x": 1}"#, schema, "j").unwrap_err();
    assert_eq!(mismatch.error_type(), error_types::PIPELINE_ABORTED);
    assert!(validate_join_output_schema(r#"{"ok": 1}"#, schema, "j").is_ok());
    let bad_schema = validate_join_output_schema("{}", r#"{"type": 12}"#, "j").unwrap_err();
    assert_eq!(bad_schema.error_type(), error_types::CONFIG_VALIDATION_FAILED);
}

#[test]
fn field_in_schema_found_in_properties_or_required() {
    let by_props = r#"{"type": "object", "properties": {"verdict": {"type": "string"}}}"#;
    assert!(validate_field_in_schema("verdict", by_props, "s").is_ok());
    let by_required = r#"{"type": "object", "required": ["other", "verdict"]}"#;
    assert!(validate_field_in_schema("verdict", by_required, "s").is_ok());
    let neither = r#"{"type": "object", "properties": {"x": {}}, "required": ["x", 3]}"#;
    let err = validate_field_in_schema("verdict", neither, "s").unwrap_err();
    assert_eq!(err.error_type(), error_types::CONFIG_VALIDATION_FAILED);
    assert!(err.detail().contains("on_result references field 'verdict'"));
}

#[test]
fn validate_output_schema_names_the_kind_of_failure() {
    let entry = TurnEntry::with_response("gen".to_string(), "p".to_string(), Some("[1]".to_string()));
    let mismatch = validate_output_schema(&entry, OBJECT_WITH_OK, "gen").unwrap_err();
    assert!(mismatch.detail().starts_with("Step 'gen' output failed output_schema validation: "));
    let bad_schema = validate_output_schema(&entry, r#"{"type": 12}"#, "gen").unwrap_err();
    assert!(bad_schema.detail().starts_with("Step 'gen' output_schema failed to compile as JSON Schema: "));
    let not_json = TurnEntry::with_response("gen".to_string(), "p".to_string(), Some("nope".to_string()));
    let err = validate_output_schema(&not_json, OBJECT_WITH_OK, "gen").unwrap_err();
    assert!(err.detail().starts_with("Step 'gen' declares output_schema but the response is not valid JSON: "));
}
