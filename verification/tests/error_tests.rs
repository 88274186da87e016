use ail_core::error::error_types;
use ail_core::error::{AilError, ErrorContext, RecoveryStrategy};

fn make_err() -> AilError {
    AilError::ConfigInvalidYaml {
        detail: "unexpected token at line 3".to_string(),
        context: None,
    }
}

#[test]
fn display_contains_error_type() {
    let err = make_err();
    assert!(err.to_string().contains(error_types::CONFIG_INVALID_YAML));
}

#[test]
fn display_contains_detail() {
    let err = make_err();
    assert!(err.to_string().contains("unexpected token at line 3"));
}

#[test]
fn test_with_step_context() {
    let err = AilError::ConfigValidationFailed {
        detail: "test".to_string(),
        context: None,
    };
    let err = err.with_step_context("run-1", "step-1");
    let ctx = err.context().unwrap();
    assert_eq!(ctx.pipeline_run_id, Some("run-1".to_string()));
    assert_eq!(ctx.step_id, Some("step-1".to_string()));
    assert!(ctx.source.is_none());
}

#[test]
fn none_context_does_not_affect_display() {
    let err_with = AilError::ConfigInvalidYaml {
        detail: "some detail".to_string(),
        context: Some(ErrorContext {
            pipeline_run_id: Some("run-1".to_string()),
            step_id: None,
            source: None,
        }),
    };
    let err_without = AilError::ConfigInvalidYaml {
        detail: "some detail".to_string(),
        context: None,
    };
    assert_eq!(err_with.to_string(), err_without.to_string());
}

#[test]
fn constructors_set_correct_error_type() {
    assert_eq!(
        AilError::config_not_found("d").error_type(),
        error_types::CONFIG_FILE_NOT_FOUND
    );
    assert_eq!(
        AilError::config_invalid_yaml("d").error_type(),
        error_types::CONFIG_INVALID_YAML
    );
    assert_eq!(
        AilError::config_validation("d").error_type(),
        error_types::CONFIG_VALIDATION_FAILED
    );
    assert_eq!(
        AilError::template_unresolved("d").error_type(),
        error_types::TEMPLATE_UNRESOLVED
    );
    assert_eq!(
        AilError::runner_failed("d").error_type(),
        error_types::RUNNER_INVOCATION_FAILED
    );
    assert_eq!(
        AilError::runner_not_found("d").error_type(),
        error_types::RUNNER_NOT_FOUND
    );
    assert_eq!(
        AilError::pipeline_aborted("d").error_type(),
        error_types::PIPELINE_ABORTED
    );
    assert_eq!(
        AilError::runner_cancelled("d").error_type(),
        error_types::RUNNER_CANCELLED
    );
}

#[test]
fn recovery_strategy_runner_failed_is_retry() {
    let err = AilError::runner_failed("d");
    assert_eq!(
        err.recovery_strategy(),
        RecoveryStrategy::Retry { max_attempts: 2 }
    );
}

#[test]
fn recovery_strategy_config_errors_abort() {
    assert_eq!(
        AilError::config_validation("d").recovery_strategy(),
        RecoveryStrategy::Abort
    );
    assert_eq!(
        AilError::config_not_found("d").recovery_strategy(),
        RecoveryStrategy::Abort
    );
    assert_eq!(
        AilError::config_invalid_yaml("d").recovery_strategy(),
        RecoveryStrategy::Abort
    );
}

#[test]
fn detail_accessor_returns_correct_string() {
    let err = AilError::TemplateUnresolved {
        detail: "missing var".to_string(),
        context: None,
    };
    assert_eq!(err.detail(), "missing var");
}

#[test]
fn into_detail_consumes_and_returns_string() {
    let err = AilError::PipelineAborted {
        detail: "aborted reason".to_string(),
        context: None,
    };
    assert_eq!(err.into_detail(), "aborted reason");
}

#[test]
fn display_joins_type_and_detail() {
    let err = AilError::pipeline_aborted("stopped");
    assert_eq!(err.to_string(), "[ail:pipeline/aborted] stopped");
}

#[test]
fn step_context_keeps_kind_and_detail() {
    let err = AilError::runner_failed("boom").with_step_context("r", "s");
    assert_eq!(err.error_type(), error_types::RUNNER_INVOCATION_FAILED);
    assert_eq!(err.detail(), "boom");
}
