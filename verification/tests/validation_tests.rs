use ail_core::config::domain::{
    ActionKind, Condition, ContextSource, ExitCodeMatch, ResultAction, ResultMatcher, StepBody,
    SystemPromptEntry,
};
use ail_core::config::dto::{
    AppendSystemPromptEntryDto, AppendSystemPromptStructuredDto, ContextDto, DefaultsDto,
    ExitCodeDto, OnResultBranchDto, OnResultDto, PipelineFileDto, ProviderDto, StepDto, ToolsDto,
};
use ail_core::config::validation::pipeline::validate;
use ail_core::config::validation::parse_on_error;
use ail_core::error::error_types;

fn source() -> String {
    "/tmp/test.ail.yaml".to_string()
}

fn minimal_step(id: &str, prompt: &str) -> StepDto {
    StepDto {
        id: Some(id.to_string()),
        prompt: Some(prompt.to_string()),
        ..Default::default()
    }
}

fn minimal_dto(steps: Vec<StepDto>) -> PipelineFileDto {
    PipelineFileDto {
        version: Some("1".to_string()),
        pipeline: Some(steps),
        ..Default::default()
    }
}

#[test]
fn mod_valid_minimal_pipeline_returns_ok() {
    let dto = minimal_dto(vec![minimal_step("review", "Please review the code")]);
    let pipeline = validate(dto, source()).expect("should succeed");
    assert_eq!(pipeline.steps.len(), 1);
    assert_eq!(pipeline.steps[0].id.as_str(), "review");
}

#[test]
fn mod_missing_version_returns_error() {
    let dto = PipelineFileDto {
        pipeline: Some(vec![minimal_step("s1", "hello")]),
        ..Default::default()
    };
    let err = validate(dto, source()).expect_err("should fail");
    assert_eq!(err.error_type(), error_types::CONFIG_VALIDATION_FAILED);
    assert!(err.detail().contains("version"));
}

#[test]
fn mod_empty_version_returns_error() {
    let dto = PipelineFileDto {
        version: Some("   ".to_string()),
        pipeline: Some(vec![minimal_step("s1", "hello")]),
        ..Default::default()
    };
    let err = validate(dto, source()).expect_err("should fail");
    assert_eq!(err.error_type(), error_types::CONFIG_VALIDATION_FAILED);
}

#[test]
fn mod_missing_pipeline_field_returns_error() {
    let dto = PipelineFileDto {
        version: Some("1".to_string()),
        ..Default::default()
    };
    let err = validate(dto, source()).expect_err("should fail");
    assert_eq!(err.error_type(), error_types::CONFIG_VALIDATION_FAILED);
    assert!(err.detail().contains("pipeline"));
}

#[test]
fn mod_empty_pipeline_array_returns_error() {
    let dto = PipelineFileDto {
        version: Some("1".to_string()),
        pipeline: Some(vec![]),
        ..Default::default()
    };
    let err = validate(dto, source()).expect_err("should fail");
    assert_eq!(err.error_type(), error_types::CONFIG_VALIDATION_FAILED);
}

#[test]
fn mod_step_missing_id_returns_error() {
    let dto = minimal_dto(vec![StepDto {
        prompt: Some("hello".to_string()),
        ..Default::default()
    }]);
    let err = validate(dto, source()).expect_err("should fail");
    assert_eq!(err.error_type(), error_types::CONFIG_VALIDATION_FAILED);
    assert!(err.detail().contains("id"));
}

#[test]
fn mod_duplicate_step_id_returns_error() {
    let dto = minimal_dto(vec![
        minimal_step("dupe", "first"),
        minimal_step("dupe", "second"),
    ]);
    let err = validate(dto, source()).expect_err("should fail");
    assert_eq!(err.error_type(), error_types::CONFIG_VALIDATION_FAILED);
    assert!(err.detail().contains("dupe"));
}

#[test]
fn mod_invocation_step_not_first_returns_error() {
    let dto = minimal_dto(vec![
        minimal_step("first", "hello"),
        minimal_step("invocation", "world"),
    ]);
    let err = validate(dto, source()).expect_err("should fail");
    assert_eq!(err.error_type(), error_types::CONFIG_VALIDATION_FAILED);
    assert!(err.detail().contains("invocation"));
}

#[test]
fn mod_invocation_step_first_is_valid() {
    let dto = minimal_dto(vec![
        minimal_step("invocation", "kick off"),
        minimal_step("second", "continue"),
    ]);
    let pipeline = validate(dto, source()).expect("should succeed");
    assert_eq!(pipeline.steps[0].id.as_str(), "invocation");
}

#[test]
fn mod_step_with_no_primary_field_returns_error() {
    let dto = minimal_dto(vec![StepDto {
        id: Some("empty".to_string()),
        ..Default::default()
    }]);
    let err = validate(dto, source()).expect_err("should fail");
    assert_eq!(err.error_type(), error_types::CONFIG_VALIDATION_FAILED);
    assert!(err.detail().contains("empty"));
}

#[test]
fn mod_step_with_two_primary_fields_returns_error() {
    let dto = minimal_dto(vec![StepDto {
        id: Some("conflict".to_string()),
        prompt: Some("hello".to_string()),
        skill: Some("my-skill".to_string()),
        ..Default::default()
    }]);
    let err = validate(dto, source()).expect_err("should fail");
    assert_eq!(err.error_type(), error_types::CONFIG_VALIDATION_FAILED);
}

#[test]
fn mod_skill_step_round_trips() {
    // skill: steps are supported.
    let dto = minimal_dto(vec![StepDto {
        id: Some("sk".to_string()),
        skill: Some("ail/code_review".to_string()),
        ..Default::default()
    }]);
    let pipeline = validate(dto, source()).expect("skill: step should be accepted");
    assert!(matches!(pipeline.steps[0].body, StepBody::Skill { .. }));
    if let StepBody::Skill { ref name } = pipeline.steps[0].body {
        assert_eq!(name, "ail/code_review");
    }
}

#[test]
fn skill_step_empty_name_returns_error() {
    let dto = minimal_dto(vec![StepDto {
        id: Some("sk".to_string()),
        skill: Some("  ".to_string()),
        ..Default::default()
    }]);
    let err = validate(dto, source()).expect_err("empty skill name should fail");
    assert_eq!(
        err.error_type(),
        error_types::CONFIG_VALIDATION_FAILED,
        "empty skill name must yield CONFIG_VALIDATION_FAILED"
    );
    assert!(
        err.detail().contains("empty"),
        "error detail should mention 'empty', got: {}",
        err.detail()
    );
}

#[test]
fn mod_sub_pipeline_step_round_trips() {
    let dto = minimal_dto(vec![StepDto {
        id: Some("sub".to_string()),
        pipeline: Some("child.ail.yaml".to_string()),
        ..Default::default()
    }]);
    let pipeline = validate(dto, source()).expect("should succeed");
    assert!(matches!(
        pipeline.steps[0].body,
        StepBody::SubPipeline { .. }
    ));
}

#[test]
fn mod_action_pause_for_human_round_trips() {
    let dto = minimal_dto(vec![StepDto {
        id: Some("gate".to_string()),
        action: Some("pause_for_human".to_string()),
        message: Some("Waiting for approval".to_string()),
        ..Default::default()
    }]);
    let pipeline = validate(dto, source()).expect("should succeed");
    assert!(matches!(
        pipeline.steps[0].body,
        StepBody::Action(ActionKind::PauseForHuman)
    ));
}

#[test]
fn mod_unknown_action_returns_error() {
    let dto = minimal_dto(vec![StepDto {
        id: Some("bad-action".to_string()),
        action: Some("fly_to_moon".to_string()),
        ..Default::default()
    }]);
    let err = validate(dto, source()).expect_err("should fail");
    assert_eq!(err.error_type(), error_types::CONFIG_VALIDATION_FAILED);
    assert!(err.detail().contains("fly_to_moon"));
}

#[test]
fn mod_context_shell_step_round_trips() {
    let dto = minimal_dto(vec![StepDto {
        id: Some("ctx".to_string()),
        context: Some(ContextDto {
            shell: Some("git status".to_string()),
            ..Default::default()
        }),
        ..Default::default()
    }]);
    let pipeline = validate(dto, source()).expect("should succeed");
    assert!(matches!(
        pipeline.steps[0].body,
        StepBody::Context(ContextSource::Shell(_))
    ));
}

#[test]
fn mod_context_step_without_source_returns_error() {
    let dto = minimal_dto(vec![StepDto {
        id: Some("ctx".to_string()),
        context: Some(ContextDto::default()),
        ..Default::default()
    }]);
    let err = validate(dto, source()).expect_err("should fail");
    assert_eq!(err.error_type(), error_types::CONFIG_VALIDATION_FAILED);
    assert!(err.detail().contains("context"));
}

#[test]
fn mod_condition_always_is_accepted_and_returns_none() {
    let mut step = minimal_step("s", "hello");
    step.condition = Some("always".to_string());
    let dto = minimal_dto(vec![step]);
    let pipeline = validate(dto, source()).expect("should succeed");
    assert!(pipeline.steps[0].condition.is_none());
}

#[test]
fn mod_condition_never_round_trips() {
    let mut step = minimal_step("s", "hello");
    step.condition = Some("never".to_string());
    let dto = minimal_dto(vec![step]);
    let pipeline = validate(dto, source()).expect("should succeed");
    assert!(matches!(pipeline.steps[0].condition, Some(Condition::Never)));
}

#[test]
fn mod_condition_unknown_returns_error() {
    let mut step = minimal_step("s", "hello");
    step.condition = Some("maybe".to_string());
    let dto = minimal_dto(vec![step]);
    let err = validate(dto, source()).expect_err("should fail");
    assert_eq!(err.error_type(), error_types::CONFIG_VALIDATION_FAILED);
    assert!(err.detail().contains("maybe"));
}

#[test]
fn condition_eq_expression_round_trips() {
    let mut step = minimal_step("s", "hello");
    step.condition = Some("{{ step.test.exit_code }} == 0".to_string());
    let dto = minimal_dto(vec![step]);
    let pipeline = validate(dto, source()).expect("should succeed");
    let cond = pipeline.steps[0]
        .condition
        .as_ref()
        .expect("should have condition");
    assert!(
        matches!(cond, Condition::Expression(expr) if expr.op == ail_core::config::domain::ConditionOp::Eq),
        "Expected Expression(Eq), got: {cond:?}"
    );
}

#[test]
fn condition_ne_expression_round_trips() {
    let mut step = minimal_step("s", "hello");
    step.condition = Some("{{ step.test.exit_code }} != 0".to_string());
    let dto = minimal_dto(vec![step]);
    let pipeline = validate(dto, source()).expect("should succeed");
    let cond = pipeline.steps[0]
        .condition
        .as_ref()
        .expect("should have condition");
    assert!(
        matches!(cond, Condition::Expression(expr) if expr.op == ail_core::config::domain::ConditionOp::Ne),
    );
}

#[test]
fn condition_contains_expression_round_trips() {
    let mut step = minimal_step("s", "hello");
    step.condition = Some("{{ step.review.response }} contains 'APPROVED'".to_string());
    let dto = minimal_dto(vec![step]);
    let pipeline = validate(dto, source()).expect("should succeed");
    let cond = pipeline.steps[0]
        .condition
        .as_ref()
        .expect("should have condition");
    match cond {
        Condition::Expression(expr) => {
            assert_eq!(expr.op, ail_core::config::domain::ConditionOp::Contains);
            assert_eq!(expr.rhs, "APPROVED");
        }
        other => panic!("Expected Expression(Contains), got: {other:?}"),
    }
}

#[test]
fn condition_starts_with_expression_round_trips() {
    let mut step = minimal_step("s", "hello");
    step.condition = Some("{{ step.check.response }} starts_with 'PASS'".to_string());
    let dto = minimal_dto(vec![step]);
    let pipeline = validate(dto, source()).expect("should succeed");
    let cond = pipeline.steps[0]
        .condition
        .as_ref()
        .expect("should have condition");
    assert!(matches!(
        cond,
        Condition::Expression(expr) if expr.op == ail_core::config::domain::ConditionOp::StartsWith
    ));
}

#[test]
fn condition_ends_with_expression_round_trips() {
    let mut step = minimal_step("s", "hello");
    step.condition = Some("{{ step.check.response }} ends_with 'done'".to_string());
    let dto = minimal_dto(vec![step]);
    let pipeline = validate(dto, source()).expect("should succeed");
    let cond = pipeline.steps[0]
        .condition
        .as_ref()
        .expect("should have condition");
    assert!(matches!(
        cond,
        Condition::Expression(expr) if expr.op == ail_core::config::domain::ConditionOp::EndsWith
    ));
}

#[test]
fn condition_expression_empty_lhs_returns_error() {
    let mut step = minimal_step("s", "hello");
    step.condition = Some(" == 0".to_string());
    let dto = minimal_dto(vec![step]);
    let err = validate(dto, source()).expect_err("should fail");
    assert_eq!(err.error_type(), error_types::CONFIG_VALIDATION_FAILED);
    assert!(err.detail().contains("empty left-hand side"));
}

#[test]
fn condition_expression_empty_rhs_returns_error() {
    let mut step = minimal_step("s", "hello");
    step.condition = Some("{{ step.test.exit_code }} == ".to_string());
    let dto = minimal_dto(vec![step]);
    let err = validate(dto, source()).expect_err("should fail");
    assert_eq!(err.error_type(), error_types::CONFIG_VALIDATION_FAILED);
    assert!(err.detail().contains("empty right-hand side"));
}

#[test]
fn condition_expression_strips_quotes_from_rhs() {
    let mut step = minimal_step("s", "hello");
    step.condition = Some("{{ step.review.response }} contains 'text value'".to_string());
    let dto = minimal_dto(vec![step]);
    let pipeline = validate(dto, source()).expect("should succeed");
    let cond = pipeline.steps[0]
        .condition
        .as_ref()
        .expect("should have condition");
    match cond {
        Condition::Expression(expr) => {
            assert_eq!(expr.rhs, "text value");
        }
        other => panic!("Expected Expression, got: {other:?}"),
    }
}

#[test]
fn condition_expression_double_quotes_on_rhs() {
    let mut step = minimal_step("s", "hello");
    step.condition = Some("{{ step.review.response }} contains \"APPROVED\"".to_string());
    let dto = minimal_dto(vec![step]);
    let pipeline = validate(dto, source()).expect("should succeed");
    let cond = pipeline.steps[0]
        .condition
        .as_ref()
        .expect("should have condition");
    match cond {
        Condition::Expression(expr) => {
            assert_eq!(expr.rhs, "APPROVED");
        }
        other => panic!("Expected Expression, got: {other:?}"),
    }
}

#[test]
fn mod_on_result_contains_continue_round_trips() {
    let mut step = minimal_step("s", "hello");
    step.on_result = Some(OnResultDto::Branches(vec![OnResultBranchDto {
        contains: Some("SUCCESS".to_string()),
        action: Some("continue".to_string()),
        ..Default::default()
    }]));
    let dto = minimal_dto(vec![step]);
    let pipeline = validate(dto, source()).expect("should succeed");
    let branch = &pipeline.steps[0].on_result.as_ref().unwrap()[0];
    assert!(matches!(branch.matcher, ResultMatcher::Contains(_)));
    assert!(matches!(branch.action, ResultAction::Continue));
}

#[test]
fn mod_on_result_exit_code_exact_round_trips() {
    let mut step = minimal_step("s", "hello");
    step.on_result = Some(OnResultDto::Branches(vec![OnResultBranchDto {
        exit_code: Some(ExitCodeDto::Integer(1)),
        action: Some("break".to_string()),
        ..Default::default()
    }]));
    let dto = minimal_dto(vec![step]);
    let pipeline = validate(dto, source()).expect("should succeed");
    let branch = &pipeline.steps[0].on_result.as_ref().unwrap()[0];
    assert!(matches!(
        branch.matcher,
        ResultMatcher::ExitCode(ExitCodeMatch::Exact(1))
    ));
    assert!(matches!(branch.action, ResultAction::Break));
}

#[test]
fn mod_on_result_exit_code_any_round_trips() {
    let mut step = minimal_step("s", "hello");
    step.on_result = Some(OnResultDto::Branches(vec![OnResultBranchDto {
        exit_code: Some(ExitCodeDto::Keyword("any".to_string())),
        action: Some("abort_pipeline".to_string()),
        ..Default::default()
    }]));
    let dto = minimal_dto(vec![step]);
    let pipeline = validate(dto, source()).expect("should succeed");
    let branch = &pipeline.steps[0].on_result.as_ref().unwrap()[0];
    assert!(matches!(
        branch.matcher,
        ResultMatcher::ExitCode(ExitCodeMatch::Any)
    ));
    assert!(matches!(branch.action, ResultAction::AbortPipeline));
}

#[test]
fn mod_on_result_exit_code_invalid_keyword_returns_error() {
    let mut step = minimal_step("s", "hello");
    step.on_result = Some(OnResultDto::Branches(vec![OnResultBranchDto {
        exit_code: Some(ExitCodeDto::Keyword("none".to_string())),
        action: Some("continue".to_string()),
        ..Default::default()
    }]));
    let dto = minimal_dto(vec![step]);
    let err = validate(dto, source()).expect_err("should fail");
    assert_eq!(err.error_type(), error_types::CONFIG_VALIDATION_FAILED);
    assert!(err.detail().contains("none"));
}

#[test]
fn mod_on_result_always_matcher_round_trips() {
    let mut step = minimal_step("s", "hello");
    step.on_result = Some(OnResultDto::Branches(vec![OnResultBranchDto {
        always: Some(true),
        action: Some("pause_for_human".to_string()),
        ..Default::default()
    }]));
    let dto = minimal_dto(vec![step]);
    let pipeline = validate(dto, source()).expect("should succeed");
    let branch = &pipeline.steps[0].on_result.as_ref().unwrap()[0];
    assert!(matches!(branch.matcher, ResultMatcher::Always));
    assert!(matches!(branch.action, ResultAction::PauseForHuman));
}

#[test]
fn mod_on_result_pipeline_action_round_trips() {
    let mut step = minimal_step("s", "hello");
    step.on_result = Some(OnResultDto::Branches(vec![OnResultBranchDto {
        contains: Some("ok".to_string()),
        action: Some("pipeline: child.ail.yaml".to_string()),
        ..Default::default()
    }]));
    let dto = minimal_dto(vec![step]);
    let pipeline = validate(dto, source()).expect("should succeed");
    let branch = &pipeline.steps[0].on_result.as_ref().unwrap()[0];
    assert!(matches!(branch.action, ResultAction::Pipeline { .. }));
}

#[test]
fn mod_on_result_pipeline_action_empty_path_returns_error() {
    let mut step = minimal_step("s", "hello");
    step.on_result = Some(OnResultDto::Branches(vec![OnResultBranchDto {
        contains: Some("ok".to_string()),
        action: Some("pipeline:".to_string()),
        ..Default::default()
    }]));
    let dto = minimal_dto(vec![step]);
    let err = validate(dto, source()).expect_err("should fail");
    assert_eq!(err.error_type(), error_types::CONFIG_VALIDATION_FAILED);
    assert!(err.detail().contains("path"));
}

#[test]
fn mod_on_result_unknown_action_returns_error() {
    let mut step = minimal_step("s", "hello");
    step.on_result = Some(OnResultDto::Branches(vec![OnResultBranchDto {
        contains: Some("ok".to_string()),
        action: Some("teleport".to_string()),
        ..Default::default()
    }]));
    let dto = minimal_dto(vec![step]);
    let err = validate(dto, source()).expect_err("should fail");
    assert_eq!(err.error_type(), error_types::CONFIG_VALIDATION_FAILED);
    assert!(err.detail().contains("teleport"));
}

#[test]
fn mod_on_result_branch_missing_action_returns_error() {
    let mut step = minimal_step("s", "hello");
    step.on_result = Some(OnResultDto::Branches(vec![OnResultBranchDto {
        contains: Some("ok".to_string()),
        ..Default::default()
    }]));
    let dto = minimal_dto(vec![step]);
    let err = validate(dto, source()).expect_err("should fail");
    assert_eq!(err.error_type(), error_types::CONFIG_VALIDATION_FAILED);
    assert!(err.detail().contains("action"));
}

#[test]
fn mod_on_result_branch_zero_matchers_returns_error() {
    let mut step = minimal_step("s", "hello");
    step.on_result = Some(OnResultDto::Branches(vec![OnResultBranchDto {
        action: Some("continue".to_string()),
        ..Default::default()
    }]));
    let dto = minimal_dto(vec![step]);
    let err = validate(dto, source()).expect_err("should fail");
    assert_eq!(err.error_type(), error_types::CONFIG_VALIDATION_FAILED);
}

#[test]
fn mod_on_result_branch_two_matchers_returns_error() {
    let mut step = minimal_step("s", "hello");
    step.on_result = Some(OnResultDto::Branches(vec![OnResultBranchDto {
        contains: Some("ok".to_string()),
        exit_code: Some(ExitCodeDto::Integer(0)),
        action: Some("continue".to_string()),
        ..Default::default()
    }]));
    let dto = minimal_dto(vec![step]);
    let err = validate(dto, source()).expect_err("should fail");
    assert_eq!(err.error_type(), error_types::CONFIG_VALIDATION_FAILED);
}

#[test]
fn mod_defaults_model_field_propagates() {
    let dto = PipelineFileDto {
        version: Some("1".to_string()),
        defaults: Some(DefaultsDto {
            model: Some("haiku-small".to_string()),
            ..Default::default()
        }),
        pipeline: Some(vec![minimal_step("s", "hello")]),
        ..Default::default()
    };
    let pipeline = validate(dto, source()).expect("should succeed");
    assert_eq!(pipeline.defaults.model.as_deref(), Some("haiku-small"));
}

#[test]
fn mod_defaults_provider_model_wins_over_top_level_model() {
    let dto = PipelineFileDto {
        version: Some("1".to_string()),
        defaults: Some(DefaultsDto {
            model: Some("top-level".to_string()),
            provider: Some(ProviderDto {
                model: Some("provider-wins".to_string()),
                ..Default::default()
            }),
            ..Default::default()
        }),
        pipeline: Some(vec![minimal_step("s", "hello")]),
        ..Default::default()
    };
    let pipeline = validate(dto, source()).expect("should succeed");
    // provider.model takes precedence over defaults.model
    assert_eq!(pipeline.defaults.model.as_deref(), Some("provider-wins"));
}

#[test]
fn mod_defaults_no_provider_falls_through_to_top_level_model() {
    let dto = PipelineFileDto {
        version: Some("1".to_string()),
        defaults: Some(DefaultsDto {
            model: Some("fallback-model".to_string()),
            ..Default::default()
        }),
        pipeline: Some(vec![minimal_step("s", "hello")]),
        ..Default::default()
    };
    let pipeline = validate(dto, source()).expect("should succeed");
    assert_eq!(pipeline.defaults.model.as_deref(), Some("fallback-model"));
}

#[test]
fn mod_timeout_seconds_propagates() {
    let dto = PipelineFileDto {
        version: Some("1".to_string()),
        defaults: Some(DefaultsDto {
            timeout_seconds: Some(120),
            ..Default::default()
        }),
        pipeline: Some(vec![minimal_step("s", "hello")]),
        ..Default::default()
    };
    let pipeline = validate(dto, source()).expect("should succeed");
    assert_eq!(pipeline.timeout_seconds, Some(120));
}

#[test]
fn mod_default_tools_propagate() {
    let dto = PipelineFileDto {
        version: Some("1".to_string()),
        defaults: Some(DefaultsDto {
            tools: Some(ToolsDto {
                disabled: false,
                allow: vec!["Bash".to_string()],
                deny: vec![],
            }),
            ..Default::default()
        }),
        pipeline: Some(vec![minimal_step("s", "hello")]),
        ..Default::default()
    };
    let pipeline = validate(dto, source()).expect("should succeed");
    let default_tools = pipeline.default_tools.expect("should have default_tools");
    assert_eq!(default_tools.allow, vec!["Bash".to_string()]);
}

#[test]
fn mod_append_system_prompt_text_shorthand_round_trips() {
    let mut step = minimal_step("s", "hello");
    step.append_system_prompt = Some(vec![AppendSystemPromptEntryDto::Text(
        "Be concise".to_string(),
    )]);
    let dto = minimal_dto(vec![step]);
    let pipeline = validate(dto, source()).expect("should succeed");
    let entries = pipeline.steps[0]
        .append_system_prompt
        .as_ref()
        .expect("should have entries");
    assert_eq!(entries.len(), 1);
    assert!(matches!(entries[0], SystemPromptEntry::Text(_)));
}

#[test]
fn mod_append_system_prompt_structured_text_round_trips() {
    let mut step = minimal_step("s", "hello");
    step.append_system_prompt = Some(vec![AppendSystemPromptEntryDto::Structured(
        AppendSystemPromptStructuredDto {
            text: Some("Be helpful".to_string()),
            file: None,
            shell: None,
        },
    )]);
    let dto = minimal_dto(vec![step]);
    let pipeline = validate(dto, source()).expect("should succeed");
    let entries = pipeline.steps[0]
        .append_system_prompt
        .as_ref()
        .expect("should have entries");
    assert!(matches!(entries[0], SystemPromptEntry::Text(_)));
}

#[test]
fn mod_append_system_prompt_structured_file_round_trips() {
    let mut step = minimal_step("s", "hello");
    step.append_system_prompt = Some(vec![AppendSystemPromptEntryDto::Structured(
        AppendSystemPromptStructuredDto {
            text: None,
            file: Some("rules.txt".to_string()),
            shell: None,
        },
    )]);
    let dto = minimal_dto(vec![step]);
    let pipeline = validate(dto, source()).expect("should succeed");
    let entries = pipeline.steps[0]
        .append_system_prompt
        .as_ref()
        .expect("should have entries");
    assert!(matches!(entries[0], SystemPromptEntry::File(_)));
}

#[test]
fn mod_append_system_prompt_structured_shell_round_trips() {
    let mut step = minimal_step("s", "hello");
    step.append_system_prompt = Some(vec![AppendSystemPromptEntryDto::Structured(
        AppendSystemPromptStructuredDto {
            text: None,
            file: None,
            shell: Some("cat rules.txt".to_string()),
        },
    )]);
    let dto = minimal_dto(vec![step]);
    let pipeline = validate(dto, source()).expect("should succeed");
    let entries = pipeline.steps[0]
        .append_system_prompt
        .as_ref()
        .expect("should have entries");
    assert!(matches!(entries[0], SystemPromptEntry::Shell(_)));
}

#[test]
fn mod_append_system_prompt_structured_zero_keys_returns_error() {
    let mut step = minimal_step("s", "hello");
    step.append_system_prompt = Some(vec![AppendSystemPromptEntryDto::Structured(
        AppendSystemPromptStructuredDto {
            text: None,
            file: None,
            shell: None,
        },
    )]);
    let dto = minimal_dto(vec![step]);
    let err = validate(dto, source()).expect_err("should fail");
    assert_eq!(err.error_type(), error_types::CONFIG_VALIDATION_FAILED);
}

#[test]
fn mod_append_system_prompt_structured_two_keys_returns_error() {
    let mut step = minimal_step("s", "hello");
    step.append_system_prompt = Some(vec![AppendSystemPromptEntryDto::Structured(
        AppendSystemPromptStructuredDto {
            text: Some("inline".to_string()),
            file: Some("also-file.txt".to_string()),
            shell: None,
        },
    )]);
    let dto = minimal_dto(vec![step]);
    let err = validate(dto, source()).expect_err("should fail");
    assert_eq!(err.error_type(), error_types::CONFIG_VALIDATION_FAILED);
}

#[test]
fn mod_resume_defaults_to_false() {
    let dto = minimal_dto(vec![minimal_step("s", "hello")]);
    let pipeline = validate(dto, source()).expect("should succeed");
    assert!(!pipeline.steps[0].resume);
}

#[test]
fn mod_resume_true_propagates() {
    let mut step = minimal_step("s", "hello");
    step.resume = Some(true);
    let dto = minimal_dto(vec![step]);
    let pipeline = validate(dto, source()).expect("should succeed");
    assert!(pipeline.steps[0].resume);
}

#[test]
fn mod_source_path_is_set_on_pipeline() {
    let dto = minimal_dto(vec![minimal_step("s", "hello")]);
    let src = "/custom/path.ail.yaml".to_string();
    let pipeline = validate(dto, src.clone()).expect("should succeed");
    assert_eq!(pipeline.source, Some(src));
}

#[test]
fn action_modify_output_round_trips_with_skip_default() {
    let mut step = minimal_step("gate", "unused");
    step.prompt = None;
    step.action = Some("modify_output".to_string());
    step.message = Some("Please review".to_string());
    let dto = minimal_dto(vec![step]);
    let pipeline = validate(dto, source()).expect("should succeed");
    assert!(matches!(
        pipeline.steps[0].body,
        StepBody::Action(ActionKind::ModifyOutput {
            headless_behavior: ail_core::config::domain::HitlHeadlessBehavior::Skip,
            ..
        })
    ));
}

#[test]
fn action_modify_output_abort_headless_round_trips() {
    let mut step = minimal_step("gate", "unused");
    step.prompt = None;
    step.action = Some("modify_output".to_string());
    step.on_headless = Some("abort".to_string());
    let dto = minimal_dto(vec![step]);
    let pipeline = validate(dto, source()).expect("should succeed");
    assert!(matches!(
        pipeline.steps[0].body,
        StepBody::Action(ActionKind::ModifyOutput {
            headless_behavior: ail_core::config::domain::HitlHeadlessBehavior::Abort,
            ..
        })
    ));
}

#[test]
fn action_modify_output_use_default_requires_default_value() {
    let mut step = minimal_step("gate", "unused");
    step.prompt = None;
    step.action = Some("modify_output".to_string());
    step.on_headless = Some("use_default".to_string());
    // default_value is None → validation should fail
    let dto = minimal_dto(vec![step]);
    let err = validate(dto, source()).expect_err("should fail");
    assert_eq!(err.error_type(), error_types::CONFIG_VALIDATION_FAILED);
    assert!(err.detail().contains("default_value"));
}

#[test]
fn action_modify_output_use_default_with_value_round_trips() {
    let mut step = minimal_step("gate", "unused");
    step.prompt = None;
    step.action = Some("modify_output".to_string());
    step.on_headless = Some("use_default".to_string());
    step.default_value = Some("fallback text".to_string());
    let dto = minimal_dto(vec![step]);
    let pipeline = validate(dto, source()).expect("should succeed");
    if let StepBody::Action(ActionKind::ModifyOutput {
        headless_behavior,
        default_value,
    }) = &pipeline.steps[0].body
    {
        assert_eq!(
            *headless_behavior,
            ail_core::config::domain::HitlHeadlessBehavior::UseDefault
        );
        assert_eq!(default_value.as_deref(), Some("fallback text"));
    } else {
        panic!("expected ModifyOutput step body");
    }
}

#[test]
fn action_modify_output_unknown_on_headless_returns_error() {
    let mut step = minimal_step("gate", "unused");
    step.prompt = None;
    step.action = Some("modify_output".to_string());
    step.on_headless = Some("magic".to_string());
    let dto = minimal_dto(vec![step]);
    let err = validate(dto, source()).expect_err("should fail");
    assert_eq!(err.error_type(), error_types::CONFIG_VALIDATION_FAILED);
    assert!(err.detail().contains("magic"));
}

#[test]
fn on_error_defaults_to_none() {
    let dto = minimal_dto(vec![minimal_step("s", "hello")]);
    let pipeline = validate(dto, source()).expect("should succeed");
    assert!(pipeline.steps[0].on_error.is_none());
}

#[test]
fn on_error_continue_round_trips() {
    let mut step = minimal_step("s", "hello");
    step.on_error = Some("continue".to_string());
    let dto = minimal_dto(vec![step]);
    let pipeline = validate(dto, source()).expect("should succeed");
    assert_eq!(
        pipeline.steps[0].on_error,
        Some(ail_core::config::domain::OnError::Continue)
    );
}

#[test]
fn on_error_abort_pipeline_round_trips() {
    let mut step = minimal_step("s", "hello");
    step.on_error = Some("abort_pipeline".to_string());
    let dto = minimal_dto(vec![step]);
    let pipeline = validate(dto, source()).expect("should succeed");
    assert_eq!(
        pipeline.steps[0].on_error,
        Some(ail_core::config::domain::OnError::AbortPipeline)
    );
}

#[test]
fn on_error_retry_with_max_retries_round_trips() {
    let mut step = minimal_step("s", "hello");
    step.on_error = Some("retry".to_string());
    step.max_retries = Some(3);
    let dto = minimal_dto(vec![step]);
    let pipeline = validate(dto, source()).expect("should succeed");
    assert_eq!(
        pipeline.steps[0].on_error,
        Some(ail_core::config::domain::OnError::Retry { max_retries: 3 })
    );
}

#[test]
fn on_error_retry_without_max_retries_returns_error() {
    let mut step = minimal_step("s", "hello");
    step.on_error = Some("retry".to_string());
    let dto = minimal_dto(vec![step]);
    let err = validate(dto, source()).expect_err("should fail");
    assert_eq!(err.error_type(), error_types::CONFIG_VALIDATION_FAILED);
    assert!(err.detail().contains("max_retries"));
}

#[test]
fn on_error_retry_with_zero_max_retries_returns_error() {
    let mut step = minimal_step("s", "hello");
    step.on_error = Some("retry".to_string());
    step.max_retries = Some(0);
    let dto = minimal_dto(vec![step]);
    let err = validate(dto, source()).expect_err("should fail");
    assert_eq!(err.error_type(), error_types::CONFIG_VALIDATION_FAILED);
    assert!(err.detail().contains("max_retries"));
}

#[test]
fn max_retries_without_on_error_returns_error() {
    let mut step = minimal_step("s", "hello");
    step.max_retries = Some(3);
    let dto = minimal_dto(vec![step]);
    let err = validate(dto, source()).expect_err("should fail");
    assert_eq!(err.error_type(), error_types::CONFIG_VALIDATION_FAILED);
    assert!(err.detail().contains("max_retries"));
}

#[test]
fn max_retries_with_continue_returns_error() {
    let mut step = minimal_step("s", "hello");
    step.on_error = Some("continue".to_string());
    step.max_retries = Some(3);
    let dto = minimal_dto(vec![step]);
    let err = validate(dto, source()).expect_err("should fail");
    assert_eq!(err.error_type(), error_types::CONFIG_VALIDATION_FAILED);
}

#[test]
fn unknown_on_error_value_returns_error() {
    let mut step = minimal_step("s", "hello");
    step.on_error = Some("panic".to_string());
    let dto = minimal_dto(vec![step]);
    let err = validate(dto, source()).expect_err("should fail");
    assert_eq!(err.error_type(), error_types::CONFIG_VALIDATION_FAILED);
    assert!(err.detail().contains("panic"));
}

#[test]
fn validation_valid_minimal_pipeline_returns_ok() {
    let dto = minimal_dto(vec![minimal_step("review", "Please review the code")]);
    let pipeline = validate(dto, source()).expect("should succeed");
    assert_eq!(pipeline.steps.len(), 1);
    assert_eq!(pipeline.steps[0].id.as_str(), "review");
}

#[test]
fn validation_missing_version_returns_error() {
    let dto = PipelineFileDto {
        pipeline: Some(vec![minimal_step("s1", "hello")]),
        ..Default::default()
    };
    let err = validate(dto, source()).expect_err("should fail");
    assert_eq!(err.error_type(), error_types::CONFIG_VALIDATION_FAILED);
    assert!(err.detail().contains("version"));
}

#[test]
fn validation_empty_version_returns_error() {
    let dto = PipelineFileDto {
        version: Some("   ".to_string()),
        pipeline: Some(vec![minimal_step("s1", "hello")]),
        ..Default::default()
    };
    let err = validate(dto, source()).expect_err("should fail");
    assert_eq!(err.error_type(), error_types::CONFIG_VALIDATION_FAILED);
}

#[test]
fn validation_missing_pipeline_field_returns_error() {
    let dto = PipelineFileDto {
        version: Some("1".to_string()),
        ..Default::default()
    };
    let err = validate(dto, source()).expect_err("should fail");
    assert_eq!(err.error_type(), error_types::CONFIG_VALIDATION_FAILED);
    assert!(err.detail().contains("pipeline"));
}

#[test]
fn validation_empty_pipeline_array_returns_error() {
    let dto = PipelineFileDto {
        version: Some("1".to_string()),
        pipeline: Some(vec![]),
        ..Default::default()
    };
    let err = validate(dto, source()).expect_err("should fail");
    assert_eq!(err.error_type(), error_types::CONFIG_VALIDATION_FAILED);
}

#[test]
fn validation_step_missing_id_returns_error() {
    let dto = minimal_dto(vec![StepDto {
        id: None,
        prompt: Some("hello".to_string()),
        ..minimal_step("unused", "unused")
    }]);
    let err = validate(dto, source()).expect_err("should fail");
    assert_eq!(err.error_type(), error_types::CONFIG_VALIDATION_FAILED);
    assert!(err.detail().contains("id"));
}

#[test]
fn validation_duplicate_step_id_returns_error() {
    let dto = minimal_dto(vec![
        minimal_step("dupe", "first"),
        minimal_step("dupe", "second"),
    ]);
    let err = validate(dto, source()).expect_err("should fail");
    assert_eq!(err.error_type(), error_types::CONFIG_VALIDATION_FAILED);
    assert!(err.detail().contains("dupe"));
}

#[test]
fn validation_invocation_step_not_first_returns_error() {
    let dto = minimal_dto(vec![
        minimal_step("first", "hello"),
        minimal_step("invocation", "world"),
    ]);
    let err = validate(dto, source()).expect_err("should fail");
    assert_eq!(err.error_type(), error_types::CONFIG_VALIDATION_FAILED);
    assert!(err.detail().contains("invocation"));
}

#[test]
fn validation_invocation_step_first_is_valid() {
    let dto = minimal_dto(vec![
        minimal_step("invocation", "kick off"),
        minimal_step("second", "continue"),
    ]);
    let pipeline = validate(dto, source()).expect("should succeed");
    assert_eq!(pipeline.steps[0].id.as_str(), "invocation");
}

#[test]
fn validation_step_with_no_primary_field_returns_error() {
    let dto = minimal_dto(vec![StepDto {
        id: Some("empty".to_string()),
        ..Default::default()
    }]);
    let err = validate(dto, source()).expect_err("should fail");
    assert_eq!(err.error_type(), error_types::CONFIG_VALIDATION_FAILED);
    assert!(err.detail().contains("empty"));
}

#[test]
fn validation_step_with_two_primary_fields_returns_error() {
    let dto = minimal_dto(vec![StepDto {
        id: Some("conflict".to_string()),
        prompt: Some("hello".to_string()),
        skill: Some("my-skill".to_string()),
        ..Default::default()
    }]);
    let err = validate(dto, source()).expect_err("should fail");
    assert_eq!(err.error_type(), error_types::CONFIG_VALIDATION_FAILED);
}

#[test]
fn validation_skill_step_round_trips() {
    let dto = minimal_dto(vec![StepDto {
        id: Some("sk".to_string()),
        skill: Some("my-skill.yaml".to_string()),
        ..Default::default()
    }]);
    let pipeline = validate(dto, source()).expect("should succeed");
    assert!(matches!(pipeline.steps[0].body, StepBody::Skill { .. }));
}

#[test]
fn validation_sub_pipeline_step_round_trips() {
    let dto = minimal_dto(vec![StepDto {
        id: Some("sub".to_string()),
        pipeline: Some("child.ail.yaml".to_string()),
        ..Default::default()
    }]);
    let pipeline = validate(dto, source()).expect("should succeed");
    assert!(matches!(
        pipeline.steps[0].body,
        StepBody::SubPipeline { .. }
    ));
}

#[test]
fn validation_action_pause_for_human_round_trips() {
    let dto = minimal_dto(vec![StepDto {
        id: Some("gate".to_string()),
        action: Some("pause_for_human".to_string()),
        message: Some("Waiting for approval".to_string()),
        ..Default::default()
    }]);
    let pipeline = validate(dto, source()).expect("should succeed");
    assert!(matches!(
        pipeline.steps[0].body,
        StepBody::Action(ActionKind::PauseForHuman)
    ));
}

#[test]
fn validation_unknown_action_returns_error() {
    let dto = minimal_dto(vec![StepDto {
        id: Some("bad-action".to_string()),
        action: Some("fly_to_moon".to_string()),
        ..Default::default()
    }]);
    let err = validate(dto, source()).expect_err("should fail");
    assert_eq!(err.error_type(), error_types::CONFIG_VALIDATION_FAILED);
    assert!(err.detail().contains("fly_to_moon"));
}

#[test]
fn validation_context_shell_step_round_trips() {
    let dto = minimal_dto(vec![StepDto {
        id: Some("ctx".to_string()),
        context: Some(ContextDto {
            shell: Some("git status".to_string()),
            ..Default::default()
        }),
        ..Default::default()
    }]);
    let pipeline = validate(dto, source()).expect("should succeed");
    assert!(matches!(
        pipeline.steps[0].body,
        StepBody::Context(ContextSource::Shell(_))
    ));
}

#[test]
fn validation_context_step_without_source_returns_error() {
    let dto = minimal_dto(vec![StepDto {
        id: Some("ctx".to_string()),
        context: Some(ContextDto::default()),
        ..Default::default()
    }]);
    let err = validate(dto, source()).expect_err("should fail");
    assert_eq!(err.error_type(), error_types::CONFIG_VALIDATION_FAILED);
    assert!(err.detail().contains("context"));
}

#[test]
fn validation_condition_always_is_accepted_and_returns_none() {
    let mut step = minimal_step("s", "hello");
    step.condition = Some("always".to_string());
    let dto = minimal_dto(vec![step]);
    let pipeline = validate(dto, source()).expect("should succeed");
    assert!(pipeline.steps[0].condition.is_none());
}

#[test]
fn validation_condition_never_round_trips() {
    let mut step = minimal_step("s", "hello");
    step.condition = Some("never".to_string());
    let dto = minimal_dto(vec![step]);
    let pipeline = validate(dto, source()).expect("should succeed");
    assert!(matches!(pipeline.steps[0].condition, Some(Condition::Never)));
}

#[test]
fn validation_condition_unknown_returns_error() {
    let mut step = minimal_step("s", "hello");
    step.condition = Some("maybe".to_string());
    let dto = minimal_dto(vec![step]);
    let err = validate(dto, source()).expect_err("should fail");
    assert_eq!(err.error_type(), error_types::CONFIG_VALIDATION_FAILED);
    assert!(err.detail().contains("maybe"));
}

#[test]
fn validation_on_result_contains_continue_round_trips() {
    let mut step = minimal_step("s", "hello");
    step.on_result = Some(OnResultDto::Branches(vec![OnResultBranchDto {
        contains: Some("SUCCESS".to_string()),
        action: Some("continue".to_string()),
        ..Default::default()
    }]));
    let dto = minimal_dto(vec![step]);
    let pipeline = validate(dto, source()).expect("should succeed");
    let branch = &pipeline.steps[0].on_result.as_ref().unwrap()[0];
    assert!(matches!(branch.matcher, ResultMatcher::Contains(_)));
    assert!(matches!(branch.action, ResultAction::Continue));
}

#[test]
fn validation_on_result_exit_code_exact_round_trips() {
    let mut step = minimal_step("s", "hello");
    step.on_result = Some(OnResultDto::Branches(vec![OnResultBranchDto {
        exit_code: Some(ExitCodeDto::Integer(1)),
        action: Some("break".to_string()),
        ..Default::default()
    }]));
    let dto = minimal_dto(vec![step]);
    let pipeline = validate(dto, source()).expect("should succeed");
    let branch = &pipeline.steps[0].on_result.as_ref().unwrap()[0];
    assert!(matches!(
        branch.matcher,
        ResultMatcher::ExitCode(ExitCodeMatch::Exact(1))
    ));
    assert!(matches!(branch.action, ResultAction::Break));
}

#[test]
fn validation_on_result_exit_code_any_round_trips() {
    let mut step = minimal_step("s", "hello");
    step.on_result = Some(OnResultDto::Branches(vec![OnResultBranchDto {
        exit_code: Some(ExitCodeDto::Keyword("any".to_string())),
        action: Some("abort_pipeline".to_string()),
        ..Default::default()
    }]));
    let dto = minimal_dto(vec![step]);
    let pipeline = validate(dto, source()).expect("should succeed");
    let branch = &pipeline.steps[0].on_result.as_ref().unwrap()[0];
    assert!(matches!(
        branch.matcher,
        ResultMatcher::ExitCode(ExitCodeMatch::Any)
    ));
    assert!(matches!(branch.action, ResultAction::AbortPipeline));
}

#[test]
fn validation_on_result_exit_code_invalid_keyword_returns_error() {
    let mut step = minimal_step("s", "hello");
    step.on_result = Some(OnResultDto::Branches(vec![OnResultBranchDto {
        exit_code: Some(ExitCodeDto::Keyword("none".to_string())),
        action: Some("continue".to_string()),
        ..Default::default()
    }]));
    let dto = minimal_dto(vec![step]);
    let err = validate(dto, source()).expect_err("should fail");
    assert_eq!(err.error_type(), error_types::CONFIG_VALIDATION_FAILED);
    assert!(err.detail().contains("none"));
}

#[test]
fn validation_on_result_always_matcher_round_trips() {
    let mut step = minimal_step("s", "hello");
    step.on_result = Some(OnResultDto::Branches(vec![OnResultBranchDto {
        always: Some(true),
        action: Some("pause_for_human".to_string()),
        ..Default::default()
    }]));
    let dto = minimal_dto(vec![step]);
    let pipeline = validate(dto, source()).expect("should succeed");
    let branch = &pipeline.steps[0].on_result.as_ref().unwrap()[0];
    assert!(matches!(branch.matcher, ResultMatcher::Always));
    assert!(matches!(branch.action, ResultAction::PauseForHuman));
}

#[test]
fn validation_on_result_pipeline_action_round_trips() {
    let mut step = minimal_step("s", "hello");
    step.on_result = Some(OnResultDto::Branches(vec![OnResultBranchDto {
        contains: Some("ok".to_string()),
        action: Some("pipeline: child.ail.yaml".to_string()),
        ..Default::default()
    }]));
    let dto = minimal_dto(vec![step]);
    let pipeline = validate(dto, source()).expect("should succeed");
    let branch = &pipeline.steps[0].on_result.as_ref().unwrap()[0];
    assert!(matches!(branch.action, ResultAction::Pipeline { .. }));
}

#[test]
fn validation_on_result_pipeline_action_empty_path_returns_error() {
    let mut step = minimal_step("s", "hello");
    step.on_result = Some(OnResultDto::Branches(vec![OnResultBranchDto {
        contains: Some("ok".to_string()),
        action: Some("pipeline:".to_string()),
        ..Default::default()
    }]));
    let dto = minimal_dto(vec![step]);
    let err = validate(dto, source()).expect_err("should fail");
    assert_eq!(err.error_type(), error_types::CONFIG_VALIDATION_FAILED);
    assert!(err.detail().contains("path"));
}

#[test]
fn validation_on_result_unknown_action_returns_error() {
    let mut step = minimal_step("s", "hello");
    step.on_result = Some(OnResultDto::Branches(vec![OnResultBranchDto {
        contains: Some("ok".to_string()),
        action: Some("teleport".to_string()),
        ..Default::default()
    }]));
    let dto = minimal_dto(vec![step]);
    let err = validate(dto, source()).expect_err("should fail");
    assert_eq!(err.error_type(), error_types::CONFIG_VALIDATION_FAILED);
    assert!(err.detail().contains("teleport"));
}

#[test]
fn validation_on_result_branch_missing_action_returns_error() {
    let mut step = minimal_step("s", "hello");
    step.on_result = Some(OnResultDto::Branches(vec![OnResultBranchDto {
        contains: Some("ok".to_string()),
        ..Default::default()
    }]));
    let dto = minimal_dto(vec![step]);
    let err = validate(dto, source()).expect_err("should fail");
    assert_eq!(err.error_type(), error_types::CONFIG_VALIDATION_FAILED);
    assert!(err.detail().contains("action"));
}

#[test]
fn validation_on_result_branch_zero_matchers_returns_error() {
    let mut step = minimal_step("s", "hello");
    step.on_result = Some(OnResultDto::Branches(vec![OnResultBranchDto {
        action: Some("continue".to_string()),
        ..Default::default()
    }]));
    let dto = minimal_dto(vec![step]);
    let err = validate(dto, source()).expect_err("should fail");
    assert_eq!(err.error_type(), error_types::CONFIG_VALIDATION_FAILED);
}

#[test]
fn validation_on_result_branch_two_matchers_returns_error() {
    let mut step = minimal_step("s", "hello");
    step.on_result = Some(OnResultDto::Branches(vec![OnResultBranchDto {
        contains: Some("ok".to_string()),
        exit_code: Some(ExitCodeDto::Integer(0)),
        action: Some("continue".to_string()),
        ..Default::default()
    }]));
    let dto = minimal_dto(vec![step]);
    let err = validate(dto, source()).expect_err("should fail");
    assert_eq!(err.error_type(), error_types::CONFIG_VALIDATION_FAILED);
}

#[test]
fn validation_defaults_model_field_propagates() {
    let dto = PipelineFileDto {
        version: Some("1".to_string()),
        defaults: Some(DefaultsDto {
            model: Some("haiku-small".to_string()),
            ..Default::default()
        }),
        pipeline: Some(vec![minimal_step("s", "hello")]),
        ..Default::default()
    };
    let pipeline = validate(dto, source()).expect("should succeed");
    assert_eq!(pipeline.defaults.model.as_deref(), Some("haiku-small"));
}

#[test]
fn validation_defaults_provider_model_wins_over_top_level_model() {
    let dto = PipelineFileDto {
        version: Some("1".to_string()),
        defaults: Some(DefaultsDto {
            model: Some("top-level".to_string()),
            provider: Some(ProviderDto {
                model: Some("provider-wins".to_string()),
                ..Default::default()
            }),
            ..Default::default()
        }),
        pipeline: Some(vec![minimal_step("s", "hello")]),
        ..Default::default()
    };
    let pipeline = validate(dto, source()).expect("should succeed");
    // provider.model takes precedence over defaults.model
    assert_eq!(pipeline.defaults.model.as_deref(), Some("provider-wins"));
}

#[test]
fn validation_defaults_no_provider_falls_through_to_top_level_model() {
    let dto = PipelineFileDto {
        version: Some("1".to_string()),
        defaults: Some(DefaultsDto {
            model: Some("fallback-model".to_string()),
            ..Default::default()
        }),
        pipeline: Some(vec![minimal_step("s", "hello")]),
        ..Default::default()
    };
    let pipeline = validate(dto, source()).expect("should succeed");
    assert_eq!(pipeline.defaults.model.as_deref(), Some("fallback-model"));
}

#[test]
fn validation_timeout_seconds_propagates() {
    let dto = PipelineFileDto {
        version: Some("1".to_string()),
        defaults: Some(DefaultsDto {
            timeout_seconds: Some(120),
            ..Default::default()
        }),
        pipeline: Some(vec![minimal_step("s", "hello")]),
        ..Default::default()
    };
    let pipeline = validate(dto, source()).expect("should succeed");
    assert_eq!(pipeline.timeout_seconds, Some(120));
}

#[test]
fn validation_default_tools_propagate() {
    let dto = PipelineFileDto {
        version: Some("1".to_string()),
        defaults: Some(DefaultsDto {
            tools: Some(ToolsDto {
                disabled: false,
                allow: vec!["Bash".to_string()],
                deny: vec![],
            }),
            ..Default::default()
        }),
        pipeline: Some(vec![minimal_step("s", "hello")]),
        ..Default::default()
    };
    let pipeline = validate(dto, source()).expect("should succeed");
    let default_tools = pipeline.default_tools.expect("should have default_tools");
    assert_eq!(default_tools.allow, vec!["Bash".to_string()]);
}

#[test]
fn validation_append_system_prompt_text_shorthand_round_trips() {
    let mut step = minimal_step("s", "hello");
    step.append_system_prompt = Some(vec![AppendSystemPromptEntryDto::Text(
        "Be concise".to_string(),
    )]);
    let dto = minimal_dto(vec![step]);
    let pipeline = validate(dto, source()).expect("should succeed");
    let entries = pipeline.steps[0]
        .append_system_prompt
        .as_ref()
        .expect("should have entries");
    assert_eq!(entries.len(), 1);
    assert!(matches!(entries[0], SystemPromptEntry::Text(_)));
}

#[test]
fn validation_append_system_prompt_structured_text_round_trips() {
    let mut step = minimal_step("s", "hello");
    step.append_system_prompt = Some(vec![AppendSystemPromptEntryDto::Structured(
        AppendSystemPromptStructuredDto {
            text: Some("Be helpful".to_string()),
            file: None,
            shell: None,
        },
    )]);
    let dto = minimal_dto(vec![step]);
    let pipeline = validate(dto, source()).expect("should succeed");
    let entries = pipeline.steps[0]
        .append_system_prompt
        .as_ref()
        .expect("should have entries");
    assert!(matches!(entries[0], SystemPromptEntry::Text(_)));
}

#[test]
fn validation_append_system_prompt_structured_file_round_trips() {
    let mut step = minimal_step("s", "hello");
    step.append_system_prompt = Some(vec![AppendSystemPromptEntryDto::Structured(
        AppendSystemPromptStructuredDto {
            text: None,
            file: Some("rules.txt".to_string()),
            shell: None,
        },
    )]);
    let dto = minimal_dto(vec![step]);
    let pipeline = validate(dto, source()).expect("should succeed");
    let entries = pipeline.steps[0]
        .append_system_prompt
        .as_ref()
        .expect("should have entries");
    assert!(matches!(entries[0], SystemPromptEntry::File(_)));
}

#[test]
fn validation_append_system_prompt_structured_shell_round_trips() {
    let mut step = minimal_step("s", "hello");
    step.append_system_prompt = Some(vec![AppendSystemPromptEntryDto::Structured(
        AppendSystemPromptStructuredDto {
            text: None,
            file: None,
            shell: Some("cat rules.txt".to_string()),
        },
    )]);
    let dto = minimal_dto(vec![step]);
    let pipeline = validate(dto, source()).expect("should succeed");
    let entries = pipeline.steps[0]
        .append_system_prompt
        .as_ref()
        .expect("should have entries");
    assert!(matches!(entries[0], SystemPromptEntry::Shell(_)));
}

#[test]
fn validation_append_system_prompt_structured_zero_keys_returns_error() {
    let mut step = minimal_step("s", "hello");
    step.append_system_prompt = Some(vec![AppendSystemPromptEntryDto::Structured(
        AppendSystemPromptStructuredDto {
            text: None,
            file: None,
            shell: None,
        },
    )]);
    let dto = minimal_dto(vec![step]);
    let err = validate(dto, source()).expect_err("should fail");
    assert_eq!(err.error_type(), error_types::CONFIG_VALIDATION_FAILED);
}

#[test]
fn validation_append_system_prompt_structured_two_keys_returns_error() {
    let mut step = minimal_step("s", "hello");
    step.append_system_prompt = Some(vec![AppendSystemPromptEntryDto::Structured(
        AppendSystemPromptStructuredDto {
            text: Some("inline".to_string()),
            file: Some("also-file.txt".to_string()),
            shell: None,
        },
    )]);
    let dto = minimal_dto(vec![step]);
    let err = validate(dto, source()).expect_err("should fail");
    assert_eq!(err.error_type(), error_types::CONFIG_VALIDATION_FAILED);
}

#[test]
fn validation_resume_defaults_to_false() {
    let dto = minimal_dto(vec![minimal_step("s", "hello")]);
    let pipeline = validate(dto, source()).expect("should succeed");
    assert!(!pipeline.steps[0].resume);
}

#[test]
fn validation_resume_true_propagates() {
    let mut step = minimal_step("s", "hello");
    step.resume = Some(true);
    let dto = minimal_dto(vec![step]);
    let pipeline = validate(dto, source()).expect("should succeed");
    assert!(pipeline.steps[0].resume);
}

#[test]
fn validation_source_path_is_set_on_pipeline() {
    let dto = minimal_dto(vec![minimal_step("s", "hello")]);
    let src = "/custom/path.ail.yaml".to_string();
    let pipeline = validate(dto, src.clone()).expect("should succeed");
    assert_eq!(pipeline.source, Some(src));
}

#[test]
fn on_error_pairs_are_refused_with_their_message() {
    let err = parse_on_error("s", &Some("retry".to_string()), None).unwrap_err();
    assert_eq!(
        err.detail(),
        "Step 's' specifies 'on_error: retry' but 'max_retries' is missing; 'max_retries' is required when 'on_error' is 'retry'"
    );
    let err = parse_on_error("s", &Some("later".to_string()), None).unwrap_err();
    assert_eq!(
        err.detail(),
        "Step 's' specifies unknown on_error value 'later'; supported values are 'continue', 'retry', and 'abort_pipeline'"
    );
    assert!(parse_on_error("s", &None, None).unwrap().is_none());
}
