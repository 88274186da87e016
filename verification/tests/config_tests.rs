use ail_core::config::discovery::{decide_discovery, display_stem, DiscoveryResult, PipelineEntry};
use ail_core::config::domain::{Condition, ConditionOp, StepBody};
use ail_core::config::dto::{
    ChainStepDto, DefaultsDto, DoWhileDto, PipelineFileDto, ProviderDto, StepDto,
};
use ail_core::config::domain::Pipeline;
use ail_core::config::inheritance::{apply_hooks, check_cycle, merge_defaults, merge_dtos, resolve_from_path};
use ail_core::config::validation::pipeline::validate;
use ail_core::error::error_types;

fn minimal_step(id: &str, prompt: &str) -> StepDto {
    StepDto {
        id: Some(id.to_string()),
        prompt: Some(prompt.to_string()),
        ..Default::default()
    }
}

fn minimal_dto(steps: Vec<StepDto>) -> PipelineFileDto {
    PipelineFileDto {
        version: Some("1".to_string()),
        pipeline: Some(steps),
        ..Default::default()
    }
}

fn source() -> String {
    "/tmp/test.ail.yaml".to_string()
}

#[test]
fn display_stem_strips_double_extension() {
    assert_eq!(display_stem("code-review.ail.yaml"), "code-review");
    assert_eq!(display_stem("default.yaml"), "default");
    assert_eq!(display_stem(".ohmy.ail.yaml"), ".ohmy");
}

#[test]
fn check_cycle_no_cycle() {
    let chain = vec!["/a.yaml".to_string(), "/b.yaml".to_string()];
    assert!(check_cycle(&chain, "/c.yaml").is_ok());
}

#[test]
fn check_cycle_detects_repeat_and_shows_chain() {
    let chain = vec!["/a.yaml".to_string(), "/b.yaml".to_string()];
    let err = check_cycle(&chain, "/a.yaml").unwrap_err();
    assert_eq!(err.error_type(), error_types::CIRCULAR_INHERITANCE);
    assert_eq!(
        err.detail(),
        "circular inheritance detected\n  /a.yaml \u{2192} /b.yaml \u{2192} /a.yaml\n  ail cannot resolve a pipeline that inherits from itself."
    );
}

#[test]
fn valid_minimal_pipeline_returns_ok() {
    let dto = minimal_dto(vec![minimal_step("review", "Please review the code")]);
    let pipeline = validate(dto, source()).expect("should succeed");
    assert_eq!(pipeline.steps.len(), 1);
    assert_eq!(pipeline.steps[0].id.as_str(), "review");
    assert_eq!(pipeline.source.as_deref(), Some("/tmp/test.ail.yaml"));
}

#[test]
fn missing_version_returns_error() {
    let dto = PipelineFileDto {
        pipeline: Some(vec![minimal_step("s1", "hello")]),
        ..Default::default()
    };
    let err = validate(dto, source()).expect_err("should fail");
    assert_eq!(err.error_type(), error_types::CONFIG_VALIDATION_FAILED);
    assert!(err.detail().contains("version"));
}

#[test]
fn empty_version_returns_error() {
    let dto = PipelineFileDto {
        version: Some("   ".to_string()),
        pipeline: Some(vec![minimal_step("s1", "hello")]),
        ..Default::default()
    };
    let err = validate(dto, source()).expect_err("should fail");
    assert_eq!(err.detail(), "The 'version' field must not be empty");
}

#[test]
fn missing_pipeline_field_returns_error() {
    let dto = PipelineFileDto {
        version: Some("1".to_string()),
        ..Default::default()
    };
    let err = validate(dto, source()).expect_err("should fail");
    assert_eq!(
        err.detail(),
        "The 'pipeline' array is required and must contain at least one step"
    );
}

#[test]
fn invocation_step_must_come_first() {
    let dto = minimal_dto(vec![minimal_step("a", "x"), minimal_step("invocation", "y")]);
    let err = validate(dto, source()).expect_err("should fail");
    assert_eq!(
        err.detail(),
        "The 'invocation' step, if declared, must be the first step in the pipeline"
    );
}

#[test]
fn duplicate_step_ids_are_rejected() {
    let dto = minimal_dto(vec![minimal_step("a", "x"), minimal_step("a", "y")]);
    let err = validate(dto, source()).expect_err("should fail");
    assert_eq!(err.detail(), "Step id 'a' appears more than once in pipeline");
}

#[test]
fn step_without_id_is_rejected() {
    let dto = minimal_dto(vec![StepDto {
        prompt: Some("x".to_string()),
        ..Default::default()
    }]);
    let err = validate(dto, source()).expect_err("should fail");
    assert_eq!(err.detail(), "Every step in pipeline must declare an 'id' field");
}

#[test]
fn two_primary_fields_are_rejected() {
    let dto = minimal_dto(vec![StepDto {
        id: Some("s".to_string()),
        prompt: Some("x".to_string()),
        skill: Some("k".to_string()),
        ..Default::default()
    }]);
    let err = validate(dto, source()).expect_err("should fail");
    assert_eq!(
        err.detail(),
        "Step 's' must have exactly one primary field (prompt, skill, pipeline, action, context, or do_while); found 2"
    );
}

#[test]
fn condition_expression_is_parsed() {
    let dto = minimal_dto(vec![StepDto {
        condition: Some("{{ step.test.exit_code }} == 0".to_string()),
        ..minimal_step("s", "x")
    }]);
    let p = validate(dto, source()).unwrap();
    match &p.steps[0].condition {
        Some(Condition::Expression(e)) => {
            assert_eq!(e.lhs, "{{ step.test.exit_code }}");
            assert_eq!(e.op, ConditionOp::Eq);
            assert_eq!(e.rhs, "0");
        }
        _ => panic!("expected an expression condition"),
    }
}

#[test]
fn chain_steps_get_namespaced_ids() {
    let dto = minimal_dto(vec![StepDto {
        before: Some(vec![ChainStepDto::Short("lint first".to_string())]),
        then_steps: Some(vec![
            ChainStepDto::Short("a".to_string()),
            ChainStepDto::Full(Box::new(StepDto {
                prompt: Some("b".to_string()),
                ..Default::default()
            })),
        ]),
        ..minimal_step("main", "x")
    }]);
    let p = validate(dto, source()).unwrap();
    let s = &p.steps[0];
    assert_eq!(s.before[0].id.as_str(), "main::before::0");
    assert_eq!(s.then_steps[0].id.as_str(), "main::then::0");
    assert_eq!(s.then_steps[1].id.as_str(), "main::then::1");
}

#[test]
fn do_while_requires_max_iterations() {
    let dto = minimal_dto(vec![StepDto {
        id: Some("loop".to_string()),
        do_while: Some(DoWhileDto {
            exit_when: Some("{{ step.t.exit_code }} == 0".to_string()),
            steps: Some(vec![minimal_step("t", "try")]),
            ..Default::default()
        }),
        ..Default::default()
    }]);
    let err = validate(dto, source()).expect_err("should fail");
    assert_eq!(
        err.detail(),
        "Step 'loop' declares do_while: but 'max_iterations' is missing; max_iterations is required to prevent unbounded loops"
    );
}

#[test]
fn do_while_body_is_parsed() {
    let dto = minimal_dto(vec![StepDto {
        id: Some("loop".to_string()),
        do_while: Some(DoWhileDto {
            max_iterations: Some(3),
            exit_when: Some("{{ step.t.exit_code }} == 0".to_string()),
            steps: Some(vec![minimal_step("t", "try")]),
            ..Default::default()
        }),
        ..Default::default()
    }]);
    let p = validate(dto, source()).unwrap();
    match &p.steps[0].body {
        StepBody::DoWhile { max_iterations, steps, .. } => {
            assert_eq!(*max_iterations, 3);
            assert_eq!(steps.len(), 1);
        }
        _ => panic!("expected a do_while body"),
    }
}

#[test]
fn named_pipeline_reference_is_recognised() {
    let dto = PipelineFileDto {
        pipelines: Some(vec![("gates".to_string(), vec![minimal_step("g", "check")])]),
        ..minimal_dto(vec![StepDto {
            id: Some("call".to_string()),
            pipeline: Some("gates".to_string()),
            ..Default::default()
        }])
    };
    let p = validate(dto, source()).unwrap();
    match &p.steps[0].body {
        StepBody::NamedPipeline { name, prompt } => {
            assert_eq!(name, "gates");
            assert!(prompt.is_none());
        }
        _ => panic!("expected a named pipeline reference"),
    }
    assert_eq!(p.named_pipelines.len(), 1);
}

#[test]
fn named_pipeline_cycle_is_rejected() {
    let a = StepDto {
        id: Some("to_b".to_string()),
        pipeline: Some("b".to_string()),
        ..Default::default()
    };
    let b = StepDto {
        id: Some("to_a".to_string()),
        pipeline: Some("a".to_string()),
        ..Default::default()
    };
    let dto = PipelineFileDto {
        pipelines: Some(vec![("a".to_string(), vec![a]), ("b".to_string(), vec![b])]),
        ..minimal_dto(vec![minimal_step("s", "x")])
    };
    let err = validate(dto, source()).expect_err("should fail");
    assert_eq!(err.error_type(), error_types::PIPELINE_CIRCULAR_REFERENCE);
    assert!(err.detail().starts_with("Circular reference detected among named pipelines: '"));
}

#[test]
fn hooks_without_from_are_rejected() {
    let dto = minimal_dto(vec![StepDto {
        run_before: Some("x".to_string()),
        ..minimal_step("s", "p")
    }]);
    let err = validate(dto, source()).expect_err("should fail");
    assert_eq!(
        err.detail(),
        "Step declares hook operation 'run_before: x' but the pipeline has no FROM field \u{2014} hook operations are only valid in pipelines that inherit from a base via FROM"
    );
}

fn ids(steps: &[StepDto]) -> Vec<String> {
    steps.iter().map(|s| s.id.clone().unwrap_or_default()).collect()
}

#[test]
fn override_replaces_step() {
    let base = vec![minimal_step("a", "A"), minimal_step("b", "B")];
    let child = vec![StepDto {
        override_step: Some("a".to_string()),
        prompt: Some("A2".to_string()),
        ..Default::default()
    }];
    let merged = apply_hooks(base, child, "child.yaml").unwrap();
    assert_eq!(ids(&merged), vec!["a", "b"]);
    assert_eq!(merged[0].prompt.as_deref(), Some("A2"));
    assert!(merged[0].override_step.is_none());
}

#[test]
fn disable_removes_step() {
    let base = vec![minimal_step("a", "A"), minimal_step("b", "B")];
    let child = vec![StepDto {
        disable: Some("a".to_string()),
        ..Default::default()
    }];
    let merged = apply_hooks(base, child, "child.yaml").unwrap();
    assert_eq!(ids(&merged), vec!["b"]);
}

#[test]
fn run_before_and_after_insert_around_target() {
    let base = vec![minimal_step("a", "A"), minimal_step("b", "B")];
    let child = vec![
        StepDto {
            run_before: Some("b".to_string()),
            ..minimal_step("pre", "P")
        },
        StepDto {
            run_after: Some("a".to_string()),
            ..minimal_step("post", "Q")
        },
        minimal_step("tail", "T"),
    ];
    let merged = apply_hooks(base, child, "child.yaml").unwrap();
    assert_eq!(ids(&merged), vec!["a", "post", "pre", "b", "tail"]);
    assert!(merged.iter().all(|s| s.run_before.is_none() && s.run_after.is_none()));
}

#[test]
fn hook_targeting_nonexistent_step_fails() {
    let base = vec![minimal_step("b", "B"), minimal_step("a", "A")];
    let child = vec![StepDto {
        run_before: Some("zzz".to_string()),
        ..minimal_step("x", "X")
    }];
    let err = apply_hooks(base, child, "child.yaml").unwrap_err();
    assert_eq!(err.error_type(), error_types::CONFIG_VALIDATION_FAILED);
    assert_eq!(
        err.detail(),
        "Hook operation 'run_before: zzz' in 'child.yaml' targets a step ID that does not exist in the inheritance chain. Valid step IDs: [\"a\", \"b\"]"
    );
}

#[test]
fn override_with_different_id_fails() {
    let base = vec![minimal_step("a", "A")];
    let child = vec![StepDto {
        override_step: Some("a".to_string()),
        ..minimal_step("other", "X")
    }];
    let err = apply_hooks(base, child, "child.yaml").unwrap_err();
    assert_eq!(
        err.detail(),
        "override: a declares id 'other' which differs from the target step ID -- override must not change the step ID"
    );
}

#[test]
fn duplicate_hook_same_target_fails() {
    let base = vec![minimal_step("a", "A")];
    let child = vec![
        StepDto {
            run_before: Some("a".to_string()),
            ..minimal_step("x", "X")
        },
        StepDto {
            run_before: Some("a".to_string()),
            ..minimal_step("y", "Y")
        },
    ];
    let err = apply_hooks(base, child, "child.yaml").unwrap_err();
    assert_eq!(
        err.detail(),
        "Duplicate hook operation 'run_before: a' in 'child.yaml' -- use sequential steps instead"
    );
}

#[test]
fn multiple_hooks_on_one_step_fail() {
    let base = vec![minimal_step("a", "A")];
    let child = vec![StepDto {
        run_before: Some("a".to_string()),
        disable: Some("a".to_string()),
        ..minimal_step("x", "X")
    }];
    let err = apply_hooks(base, child, "child.yaml").unwrap_err();
    assert_eq!(
        err.detail(),
        "Step 'x' declares multiple hook operations (run_before, run_after, override, disable); at most one is allowed"
    );
}

#[test]
fn no_child_steps_keep_the_base() {
    let base = vec![minimal_step("a", "A"), minimal_step("b", "B")];
    let merged = apply_hooks(base, vec![], "child.yaml").unwrap();
    assert_eq!(ids(&merged), vec!["a", "b"]);
}

#[test]
fn child_defaults_override_base_defaults() {
    let base = Some(DefaultsDto {
        model: Some("base-model".to_string()),
        timeout_seconds: Some(10),
        provider: Some(ProviderDto {
            base_url: Some("http://base".to_string()),
            ..Default::default()
        }),
        ..Default::default()
    });
    let child = Some(DefaultsDto {
        model: Some("child-model".to_string()),
        provider: Some(ProviderDto {
            auth_token: Some("tok".to_string()),
            ..Default::default()
        }),
        ..Default::default()
    });
    let merged = merge_defaults(base, child).unwrap();
    assert_eq!(merged.model.as_deref(), Some("child-model"));
    assert_eq!(merged.timeout_seconds, Some(10));
    let p = merged.provider.unwrap();
    assert_eq!(p.base_url.as_deref(), Some("http://base"));
    assert_eq!(p.auth_token.as_deref(), Some("tok"));
}

#[test]
fn merge_dtos_consumes_from_and_keeps_child_version() {
    let base = PipelineFileDto {
        version: Some("1".to_string()),
        pipeline: Some(vec![minimal_step("a", "A")]),
        ..Default::default()
    };
    let child = PipelineFileDto {
        version: Some("2".to_string()),
        from: Some("./base.yaml".to_string()),
        pipeline: Some(vec![minimal_step("c", "C")]),
        ..Default::default()
    };
    let merged = merge_dtos(base, child, "child.yaml").unwrap();
    assert_eq!(merged.version.as_deref(), Some("2"));
    assert!(merged.from.is_none());
    assert_eq!(ids(merged.pipeline.as_ref().unwrap()), vec!["a", "c"]);
}

#[test]
fn resolve_relative_from_path() {
    let result = resolve_from_path("./base.yaml", "/project/.ail.yaml").unwrap();
    // Compared as paths, which ignore `.` components.
    assert_eq!(std::path::Path::new(&result), std::path::Path::new("/project/base.yaml"));
}

#[test]
fn resolve_absolute_from_path() {
    let result = resolve_from_path("/etc/ail/base.yaml", "/project/.ail.yaml").unwrap();
    assert_eq!(std::path::Path::new(&result), std::path::Path::new("/etc/ail/base.yaml"));
}

#[test]
fn check_cycle_detects_cycle() {
    let a = "/tmp/project/a.yaml".to_string();
    let chain = vec![a.clone()];
    let err = check_cycle(&chain, &a).unwrap_err();
    assert_eq!(err.error_type(), error_types::CIRCULAR_INHERITANCE);
    assert!(err.detail().contains("circular inheritance detected"));
}

#[test]
fn passthrough_pipeline_has_one_invocation_step() {
    let pipeline = Pipeline::passthrough();
    assert_eq!(pipeline.steps.len(), 1);
    assert_eq!(pipeline.steps[0].id.as_str(), "invocation");
    assert!(pipeline.source.is_none(), "passthrough source must be None");
}

#[test]
fn explicit_path_is_returned_as_resolved() {
    let path = "/some/explicit/path.ail.yaml".to_string();
    assert_eq!(
        decide_discovery(Some(path.clone()), None, None, vec![], None),
        DiscoveryResult::Resolved(path)
    );
}

fn entry(name: &str, path: &str) -> PipelineEntry {
    PipelineEntry { name: name.to_string(), path: path.to_string() }
}

#[test]
fn discovery_prefers_last_used_then_marker_then_candidates() {
    let two = vec![entry("a", "/p/.ail/a/default.yaml"), entry("b", "/p/.ail/b/default.yaml")];
    assert_eq!(
        decide_discovery(None, Some("/last.yaml".to_string()), Some("/marker.yaml".to_string()), two.clone(), None),
        DiscoveryResult::Resolved("/last.yaml".to_string())
    );
    assert_eq!(
        decide_discovery(None, None, Some("/marker.yaml".to_string()), two.clone(), None),
        DiscoveryResult::Resolved("/marker.yaml".to_string())
    );
    assert_eq!(decide_discovery(None, None, None, two.clone(), None), DiscoveryResult::Ambiguous(two));
    assert_eq!(
        decide_discovery(None, None, None, vec![entry("a", "/p/.ail/a/default.yaml")], Some("/home.yaml".to_string())),
        DiscoveryResult::Resolved("/p/.ail/a/default.yaml".to_string())
    );
    assert_eq!(
        decide_discovery(None, None, None, vec![], Some("/home.yaml".to_string())),
        DiscoveryResult::Resolved("/home.yaml".to_string())
    );
    assert_eq!(decide_discovery(None, None, None, vec![], None), DiscoveryResult::NotFound);
}
