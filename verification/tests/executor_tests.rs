use std::cell::Cell;
use std::time::{Duration, SystemTime};

use ail_core::config::domain::{
    ActionKind, Condition, ContextSource, ExitCodeMatch, JoinErrorMode, OnMaxItems, Pipeline,
    ResultAction, ResultBranch, ResultMatcher, Step, StepBody, StepId, ToolPolicy,
};
use ail_core::error::error_types;
use ail_core::error::AilError;
use ail_core::executor::cancel::CancelToken;
use ail_core::config::domain::{ConditionExpr, ConditionOp, SystemPromptEntry};
use ail_core::executor::condition::evaluate_condition;
use ail_core::executor::engine::{execute, resolve_prompt_file, resolve_step_system_prompts, StepEffects};
use ail_core::executor::turn::TurnEntry;
use ail_core::executor::events::ExecuteOutcome;
use ail_core::executor::helpers::build_tool_policy;
use ail_core::executor::parallel::{iso8601, ConcurrencySemaphore};
use ail_core::executor::turn::ToolPermissionPolicy;
use ail_core::runner::{InvokeOptions, RunResult, Runner};
use ail_core::session::Session;

// ── test doubles ────────────────────────────────────────────────────────────

struct StubRunner {
    response: String,
}

impl StubRunner {
    fn new(response: &str) -> Self {
        StubRunner { response: response.to_string() }
    }
}

impl Runner for StubRunner {
    fn invoke(&self, _prompt: &str, _options: InvokeOptions) -> Result<RunResult, AilError> {
        Ok(RunResult { response: self.response.clone(), ..Default::default() })
    }
}

struct CountingStubRunner {
    response: String,
    count: Cell<usize>,
}

impl CountingStubRunner {
    fn new(response: &str) -> Self {
        CountingStubRunner { response: response.to_string(), count: Cell::new(0) }
    }

    fn invocation_count(&self) -> usize {
        self.count.get()
    }
}

impl Runner for CountingStubRunner {
    fn invoke(&self, _prompt: &str, _options: InvokeOptions) -> Result<RunResult, AilError> {
        self.count.set(self.count.get() + 1);
        Ok(RunResult { response: self.response.clone(), ..Default::default() })
    }
}

/// Interprets the few shell forms these tests use: `echo TEXT`,
/// `echo TEXT >&2` and `exit N`, joined by `;`. Loading a pipeline gives
/// what `loader` gives for the path.
struct ScriptedShell {
    loader: fn(&str) -> Option<Pipeline>,
}

fn no_pipelines(_path: &str) -> Option<Pipeline> {
    None
}

impl StepEffects for ScriptedShell {
    fn run_shell(&mut self, _step_id: &str, cmd: &str) -> Result<(String, String, i32), AilError> {
        let mut stdout = String::new();
        let mut stderr = String::new();
        for part in cmd.split(';') {
            let part = part.trim();
            if let Some(code) = part.strip_prefix("exit ") {
                return Ok((stdout, stderr, code.trim().parse().unwrap()));
            } else if let Some(text) = part.strip_prefix("echo ") {
                if let Some(t) = text.strip_suffix(">&2") {
                    stderr.push_str(t.trim());
                    stderr.push('\n');
                } else {
                    stdout.push_str(text.trim());
                    stdout.push('\n');
                }
            }
        }
        Ok((stdout, stderr, 0))
    }

    fn read_file(&mut self, _step_id: &str, path: &str) -> Result<String, AilError> {
        Err(AilError::config_not_found(path))
    }

    fn load_pipeline(&mut self, _step_id: &str, path: &str) -> Result<Pipeline, AilError> {
        match (self.loader)(path) {
            Some(p) => Ok(p),
            None => Err(AilError::config_not_found(path)),
        }
    }
}

fn run(session: &mut Session, runner: &dyn RunnerRef) -> Result<ExecuteOutcome, AilError> {
    runner.run(session)
}

trait RunnerRef {
    fn run(&self, session: &mut Session) -> Result<ExecuteOutcome, AilError>;
}

impl RunnerRef for StubRunner {
    fn run(&self, session: &mut Session) -> Result<ExecuteOutcome, AilError> {
        execute(session, self, &mut ScriptedShell { loader: no_pipelines })
    }
}

impl RunnerRef for CountingStubRunner {
    fn run(&self, session: &mut Session) -> Result<ExecuteOutcome, AilError> {
        execute(session, self, &mut ScriptedShell { loader: no_pipelines })
    }
}

fn bare_step(id: &str, body: StepBody) -> Step {
    Step {
        id: StepId(id.to_string()),
        body,
        message: None,
        tools: None,
        on_result: None,
        model: None,
        runner: None,
        condition: None,
        append_system_prompt: None,
        system_prompt: None,
        resume: false,
        async_step: false,
        depends_on: vec![],
        on_error: None,
        before: vec![],
        then_steps: vec![],
        output_schema: None,
        input_schema: None,
    }
}

fn prompt_step(id: &str, prompt: &str) -> Step {
    bare_step(id, StepBody::Prompt(prompt.to_string()))
}

fn prompt_step_with_on_result(id: &str, branches: Vec<ResultBranch>) -> Step {
    Step { on_result: Some(branches), ..prompt_step(id, "test prompt") }
}

fn context_shell_step(id: &str, cmd: &str) -> Step {
    bare_step(id, StepBody::Context(ContextSource::Shell(cmd.to_string())))
}

fn context_shell_step_with_on_result(id: &str, cmd: &str, branches: Vec<ResultBranch>) -> Step {
    Step { on_result: Some(branches), ..context_shell_step(id, cmd) }
}

fn action_step(id: &str) -> Step {
    bare_step(id, StepBody::Action(ActionKind::PauseForHuman))
}

fn make_session(steps: Vec<Step>) -> Session {
    Session::new(Pipeline { steps, ..Default::default() }, "test invocation".to_string())
}

fn make_policy(disabled: bool, allow: Vec<&str>, deny: Vec<&str>) -> ToolPolicy {
    ToolPolicy {
        disabled,
        allow: allow.iter().map(|s| s.to_string()).collect(),
        deny: deny.iter().map(|s| s.to_string()).collect(),
    }
}

// ── tool policy ─────────────────────────────────────────────────────────────

#[test]
fn helpers_build_tool_policy_none_returns_runner_default() {
    assert!(matches!(build_tool_policy(None), ToolPermissionPolicy::RunnerDefault));
}

#[test]
fn helpers_build_tool_policy_disabled_returns_no_tools() {
    let policy = make_policy(true, vec![], vec![]);
    assert!(matches!(build_tool_policy(Some(&policy)), ToolPermissionPolicy::NoTools));
}

#[test]
fn helpers_build_tool_policy_allow_and_deny_returns_mixed() {
    let policy = make_policy(false, vec!["Bash"], vec!["Write"]);
    assert!(matches!(build_tool_policy(Some(&policy)), ToolPermissionPolicy::Mixed { .. }));
}

#[test]
fn helpers_build_tool_policy_allow_only_returns_allowlist() {
    let policy = make_policy(false, vec!["Read", "Bash"], vec![]);
    assert!(matches!(build_tool_policy(Some(&policy)), ToolPermissionPolicy::Allowlist(_)));
}

#[test]
fn helpers_build_tool_policy_deny_only_returns_denylist() {
    let policy = make_policy(false, vec![], vec!["Bash"]);
    assert!(matches!(build_tool_policy(Some(&policy)), ToolPermissionPolicy::Denylist(_)));
}

#[test]
fn helpers_build_tool_policy_empty_returns_runner_default() {
    let policy = make_policy(false, vec![], vec![]);
    assert!(matches!(build_tool_policy(Some(&policy)), ToolPermissionPolicy::RunnerDefault));
}

#[test]
fn on_result_build_tool_policy_none_returns_runner_default() {
    assert!(matches!(build_tool_policy(None), ToolPermissionPolicy::RunnerDefault));
}

#[test]
fn on_result_build_tool_policy_disabled_returns_no_tools() {
    let policy = make_policy(true, vec![], vec![]);
    assert!(matches!(build_tool_policy(Some(&policy)), ToolPermissionPolicy::NoTools));
}

#[test]
fn on_result_build_tool_policy_allow_and_deny_returns_mixed() {
    let policy = make_policy(false, vec!["Bash"], vec!["Write"]);
    assert!(matches!(build_tool_policy(Some(&policy)), ToolPermissionPolicy::Mixed { .. }));
}

#[test]
fn on_result_build_tool_policy_allow_only_returns_allowlist() {
    let policy = make_policy(false, vec!["Read", "Bash"], vec![]);
    assert!(matches!(build_tool_policy(Some(&policy)), ToolPermissionPolicy::Allowlist(_)));
}

#[test]
fn on_result_build_tool_policy_deny_only_returns_denylist() {
    let policy = make_policy(false, vec![], vec!["Bash"]);
    assert!(matches!(build_tool_policy(Some(&policy)), ToolPermissionPolicy::Denylist(_)));
}

#[test]
fn on_result_build_tool_policy_empty_returns_runner_default() {
    let policy = make_policy(false, vec![], vec![]);
    assert!(matches!(build_tool_policy(Some(&policy)), ToolPermissionPolicy::RunnerDefault));
}

#[test]
fn tool_policy_lists_are_copied_in_order() {
    let policy = make_policy(false, vec!["Read", "Bash"], vec!["Write"]);
    match build_tool_policy(Some(&policy)) {
        ToolPermissionPolicy::Mixed { allow, deny } => {
            assert_eq!(allow, vec!["Read".to_string(), "Bash".to_string()]);
            assert_eq!(deny, vec!["Write".to_string()]);
        }
        other => panic!("expected Mixed, got {other:?}"),
    }
}

// ── timestamps and the concurrency cap ──────────────────────────────────────

#[test]
fn iso8601_formats_epoch() {
    let s = iso8601(SystemTime::UNIX_EPOCH);
    assert_eq!(s, "1970-01-01T00:00:00.000Z");
}

#[test]
fn iso8601_monotonic() {
    let t1 = iso8601(SystemTime::UNIX_EPOCH);
    let t2 = iso8601(SystemTime::UNIX_EPOCH + Duration::from_secs(86_400));
    assert!(t2 > t1);
    assert_eq!(t2, "1970-01-02T00:00:00.000Z");
}

#[test]
fn iso8601_formats_leap_day_and_millis() {
    // 2024-02-29T12:34:56.789Z
    let t = SystemTime::UNIX_EPOCH + Duration::from_millis(1_709_210_096_789);
    assert_eq!(iso8601(t), "2024-02-29T12:34:56.789Z");
}

#[test]
fn semaphore_limits_concurrency() {
    let mut sem = ConcurrencySemaphore::new(2);
    let ct = CancelToken::new();
    assert!(sem.acquire(&ct));
    assert!(sem.acquire(&ct));
    // A third acquire would wait for a release.
    assert!(!sem.has_free_slot());
    sem.release();
    assert!(sem.acquire(&ct));
    sem.release();
    sem.release();
}

#[test]
fn semaphore_acquire_after_cancel_takes_nothing() {
    let mut sem = ConcurrencySemaphore::new(1);
    let ct = CancelToken::new();
    ct.cancel();
    assert!(!sem.acquire(&ct));
    assert!(sem.has_free_slot());
}

// ── headless execution ──────────────────────────────────────────────────────

#[test]
fn condition_never_skips_step() {
    let mut skipped = prompt_step("skipped", "this should not run");
    skipped.condition = Some(Condition::Never);
    let after = prompt_step("after", "this should run");
    let mut session = make_session(vec![skipped, after]);
    let runner = StubRunner::new("ok");
    let result = run(&mut session, &runner);

    assert!(result.is_ok());
    let entries = session.turn_log.entries();
    assert_eq!(entries.len(), 1, "only the 'after' step should have run");
    assert_eq!(entries[0].step_id, "after");
}

#[test]
fn condition_never_on_all_steps_produces_empty_turn_log() {
    let mut s1 = prompt_step("s1", "text");
    s1.condition = Some(Condition::Never);
    let mut s2 = prompt_step("s2", "text");
    s2.condition = Some(Condition::Never);
    let mut session = make_session(vec![s1, s2]);
    let runner = StubRunner::new("never called");
    let result = run(&mut session, &runner);

    assert!(result.is_ok());
    assert!(session.turn_log.entries().is_empty(), "no entries expected when all steps are skipped");
}

#[test]
fn context_shell_step_populates_stdout_stderr_exit_code() {
    let step = context_shell_step("ctx", "echo hello_out; echo err_out >&2; exit 0");
    let mut session = make_session(vec![step]);
    let runner = StubRunner::new("unused");
    let result = run(&mut session, &runner);

    assert!(result.is_ok());
    let entries = session.turn_log.entries();
    assert_eq!(entries.len(), 1);
    let entry = &entries[0];
    assert_eq!(entry.step_id, "ctx");
    assert!(entry.stdout.as_deref().unwrap_or("").contains("hello_out"), "stdout should contain 'hello_out'");
    assert_eq!(entry.exit_code, Some(0));
    assert!(entry.response.is_none(), "context steps have no response field");
}

#[test]
fn context_shell_step_captures_nonzero_exit_code() {
    let step = context_shell_step("ctx", "exit 42");
    let mut session = make_session(vec![step]);
    let runner = StubRunner::new("unused");
    let result = run(&mut session, &runner);

    assert!(result.is_ok(), "non-zero exit code is a result, not an error");
    let entries = session.turn_log.entries();
    assert_eq!(entries.len(), 1);
    assert_eq!(entries[0].exit_code, Some(42));
}

#[test]
fn on_result_contains_match_action_fires() {
    let step = prompt_step_with_on_result(
        "check",
        vec![ResultBranch {
            matcher: ResultMatcher::Contains("needle".to_string()),
            action: ResultAction::Continue,
        }],
    );
    let after = prompt_step("after", "next");
    let mut session = make_session(vec![step, after]);
    let runner = StubRunner::new("response with needle in it");
    let result = run(&mut session, &runner);

    assert!(result.is_ok());
    assert_eq!(session.turn_log.entries().len(), 2, "both steps should have run");
}

#[test]
fn on_result_contains_no_match_no_action_fires() {
    let step = prompt_step_with_on_result(
        "check",
        vec![ResultBranch {
            matcher: ResultMatcher::Contains("needle".to_string()),
            action: ResultAction::Break,
        }],
    );
    let after = prompt_step("after", "next");
    let mut session = make_session(vec![step, after]);
    let runner = StubRunner::new("no match here");
    let result = run(&mut session, &runner);

    assert!(result.is_ok());
    assert_eq!(session.turn_log.entries().len(), 2, "both steps should run because contains: did not match");
    assert!(matches!(result.unwrap(), ExecuteOutcome::Completed), "should complete, not break");
}

#[test]
fn on_result_contains_match_is_case_insensitive() {
    let step = prompt_step_with_on_result(
        "check",
        vec![ResultBranch {
            matcher: ResultMatcher::Contains("SUCCESS".to_string()),
            action: ResultAction::Break,
        }],
    );
    let after = prompt_step("unreachable", "never");
    let mut session = make_session(vec![step, after]);
    let runner = StubRunner::new("task ended with success status");
    let result = run(&mut session, &runner);

    assert!(result.is_ok());
    assert!(matches!(result.unwrap(), ExecuteOutcome::Break { .. }), "case-insensitive match should fire break");
    assert_eq!(session.turn_log.entries().len(), 1);
}

#[test]
fn on_result_break_returns_correct_step_id() {
    let step = prompt_step_with_on_result(
        "breaking_step",
        vec![ResultBranch { matcher: ResultMatcher::Always, action: ResultAction::Break }],
    );
    let after = prompt_step("unreachable", "never");
    let mut session = make_session(vec![step, after]);
    let runner = StubRunner::new("any response");
    let result = run(&mut session, &runner);

    assert!(result.is_ok());
    match result.unwrap() {
        ExecuteOutcome::Break { step_id } => assert_eq!(step_id, "breaking_step"),
        other => panic!("expected Break, got {other:?}"),
    }
    assert_eq!(session.turn_log.entries().len(), 1);
}

#[test]
fn on_result_abort_pipeline_returns_pipeline_aborted_error() {
    let step = prompt_step_with_on_result(
        "aborter",
        vec![ResultBranch { matcher: ResultMatcher::Always, action: ResultAction::AbortPipeline }],
    );
    let mut session = make_session(vec![step]);
    let runner = StubRunner::new("any response");
    let result = run(&mut session, &runner);

    assert!(result.is_err());
    let err = result.unwrap_err();
    assert_eq!(err.error_type(), error_types::PIPELINE_ABORTED, "on_result abort_pipeline must return PIPELINE_ABORTED");
    assert!(err.detail().contains("aborter"), "error detail should reference the step id");
}

#[test]
fn on_result_exit_code_exact_match_on_context_step() {
    let step = context_shell_step_with_on_result(
        "linter",
        "exit 2",
        vec![ResultBranch {
            matcher: ResultMatcher::ExitCode(ExitCodeMatch::Exact(2)),
            action: ResultAction::Break,
        }],
    );
    let after = prompt_step("unreachable", "never");
    let mut session = make_session(vec![step, after]);
    let runner = StubRunner::new("unused");
    let result = run(&mut session, &runner);

    assert!(result.is_ok());
    assert!(matches!(result.unwrap(), ExecuteOutcome::Break { .. }), "exit_code: 2 should trigger break");
    assert_eq!(session.turn_log.entries().len(), 1);
}

#[test]
fn on_result_exit_code_any_matches_nonzero_context_step() {
    let step = context_shell_step_with_on_result(
        "build",
        "exit 1",
        vec![ResultBranch {
            matcher: ResultMatcher::ExitCode(ExitCodeMatch::Any),
            action: ResultAction::AbortPipeline,
        }],
    );
    let mut session = make_session(vec![step]);
    let runner = StubRunner::new("unused");
    let result = run(&mut session, &runner);

    assert!(result.is_err());
    assert_eq!(result.unwrap_err().error_type(), error_types::PIPELINE_ABORTED);
}

#[test]
fn pause_for_human_action_step_is_noop_in_headless_mode() {
    let pause = action_step("gate");
    let after = prompt_step("after", "continue");
    let mut session = make_session(vec![pause, after]);
    let runner = StubRunner::new("ok");
    let result = run(&mut session, &runner);

    assert!(result.is_ok());
    assert!(matches!(result.unwrap(), ExecuteOutcome::Completed), "pipeline should complete after no-op pause_for_human");
    let entries = session.turn_log.entries();
    assert_eq!(entries.len(), 1, "pause_for_human produces no turn entry");
    assert_eq!(entries[0].step_id, "after");
}

#[test]
fn empty_pipeline_returns_completed() {
    let mut session = make_session(vec![]);
    let runner = StubRunner::new("unused");
    let result = run(&mut session, &runner);

    assert!(result.is_ok());
    assert!(matches!(result.unwrap(), ExecuteOutcome::Completed), "empty pipeline should return Completed");
    assert!(session.turn_log.entries().is_empty());
}

#[test]
fn multi_step_pipeline_runs_all_steps_in_order() {
    let s1 = prompt_step("first", "prompt one");
    let s2 = prompt_step("second", "prompt two");
    let s3 = prompt_step("third", "prompt three");
    let mut session = make_session(vec![s1, s2, s3]);
    let runner = StubRunner::new("stub");
    let result = run(&mut session, &runner);

    assert!(result.is_ok());
    let entries = session.turn_log.entries();
    assert_eq!(entries.len(), 3);
    assert_eq!(entries[0].step_id, "first");
    assert_eq!(entries[1].step_id, "second");
    assert_eq!(entries[2].step_id, "third");
}

#[test]
fn step_without_on_result_always_continues() {
    let s1 = prompt_step("s1", "step one");
    let s2 = prompt_step("s2", "step two");
    let mut session = make_session(vec![s1, s2]);
    let runner = StubRunner::new("anything");
    let result = run(&mut session, &runner);

    assert!(result.is_ok());
    assert_eq!(session.turn_log.entries().len(), 2);
}

#[test]
fn template_failure_aborts_before_runner_invoked() {
    let step = prompt_step("unresolvable", "{{ nonexistent.variable }}");
    let mut session = make_session(vec![step]);
    let runner = CountingStubRunner::new("should never see this");
    let result = run(&mut session, &runner);

    assert!(result.is_err());
    let err = result.unwrap_err();
    assert_eq!(err.error_type(), error_types::TEMPLATE_UNRESOLVED, "Expected TEMPLATE_UNRESOLVED, got: {}", err.error_type());
    assert_eq!(runner.invocation_count(), 0, "Runner must not be invoked when template resolution fails");
    assert!(session.turn_log.entries().is_empty(), "No TurnEntry should be recorded for the failed step");
}

#[test]
fn template_failure_mid_pipeline_preserves_prior_entries() {
    let ok_step = prompt_step("first", "valid prompt");
    let bad_step = prompt_step("second", "{{ step.nonexistent.response }}");
    let mut session = make_session(vec![ok_step, bad_step]);
    let runner = CountingStubRunner::new("response");
    let result = run(&mut session, &runner);

    assert!(result.is_err());
    assert_eq!(runner.invocation_count(), 1, "Runner should be called once for the first step only");
    assert_eq!(session.turn_log.entries().len(), 1, "Only the first step should produce a TurnEntry");
    assert_eq!(session.turn_log.entries()[0].step_id, "first");
}

#[test]
fn mixed_prompt_and_context_pipeline_produces_correct_entries() {
    let p = prompt_step("ask", "question");
    let c = context_shell_step("check", "echo ok");
    let mut session = make_session(vec![p, c]);
    let runner = StubRunner::new("answer");
    let result = run(&mut session, &runner);

    assert!(result.is_ok());
    let entries = session.turn_log.entries();
    assert_eq!(entries.len(), 2);
    assert_eq!(entries[0].step_id, "ask");
    assert!(entries[0].response.is_some());
    assert!(entries[0].exit_code.is_none());
    assert_eq!(entries[1].step_id, "check");
    assert!(entries[1].response.is_none());
    assert_eq!(entries[1].exit_code, Some(0));
    assert!(entries[1].stdout.as_deref().unwrap_or("").contains("ok"));
}

#[test]
fn on_result_continue_branch_pipeline_continues() {
    let step = prompt_step_with_on_result(
        "check",
        vec![ResultBranch { matcher: ResultMatcher::Always, action: ResultAction::Continue }],
    );
    let after = prompt_step("after", "next");
    let mut session = make_session(vec![step, after]);
    let runner = StubRunner::new("anything");
    let result = run(&mut session, &runner);

    assert!(result.is_ok());
    assert!(matches!(result.unwrap(), ExecuteOutcome::Completed));
    assert_eq!(session.turn_log.entries().len(), 2);
}

#[test]
fn later_prompt_sees_earlier_response() {
    let s1 = prompt_step("first", "one");
    let s2 = prompt_step("second", "previous said: {{ step.first.response }}");
    let mut session = make_session(vec![s1, s2]);
    let runner = StubRunner::new("hello");
    let result = run(&mut session, &runner);

    assert!(result.is_ok());
    let entries = session.turn_log.entries();
    assert_eq!(entries[1].prompt, "previous said: hello");
}

// ── for_each ────────────────────────────────────────────────────────────────

fn for_each_step(id: &str, over: &str, as_name: &str, max_items: Option<u64>, on_max: OnMaxItems, inner: Vec<Step>) -> Step {
    bare_step(
        id,
        StepBody::ForEach {
            over: over.to_string(),
            as_name: as_name.to_string(),
            max_items,
            on_max_items: on_max,
            steps: inner,
        },
    )
}

#[test]
fn for_each_runs_inner_steps_once_per_item() {
    let inner = prompt_step("inner", "item {{ for_each.item }} ({{ for_each.index }} of {{ for_each.total }})");
    let step = for_each_step("loop", r#"["a","b"]"#, "item", None, OnMaxItems::Continue, vec![inner]);
    let mut session = make_session(vec![step]);
    let runner = CountingStubRunner::new("done");
    let result = run(&mut session, &runner);

    assert!(matches!(result, Ok(ExecuteOutcome::Completed)));
    assert_eq!(runner.invocation_count(), 2);
    let entries = session.turn_log.entries();
    assert_eq!(entries.len(), 2, "only the last item's inner entry remains, then the loop entry");
    assert_eq!(entries[0].step_id, "loop::inner");
    assert_eq!(entries[0].prompt, "item b (2 of 2)");
    assert_eq!(entries[1].step_id, "loop");
    assert_eq!(entries[1].prompt, "for_each(items=2)");
    assert_eq!(entries[1].response.as_deref(), Some("done"));
}

#[test]
fn for_each_binds_the_item_to_its_name() {
    let inner = prompt_step("inner", "review {{ for_each.file }}");
    let step = for_each_step("files", r#"["x.rs"]"#, "file", None, OnMaxItems::Continue, vec![inner]);
    let mut session = make_session(vec![step]);
    let result = run(&mut session, &StubRunner::new("ok"));

    assert!(result.is_ok());
    assert_eq!(session.turn_log.entries()[0].prompt, "review x.rs");
}

#[test]
fn for_each_items_that_are_not_strings_keep_their_json_text() {
    let inner = prompt_step("inner", "{{ for_each.item }}");
    let step = for_each_step("loop", r#"[1, {"k":2}]"#, "item", None, OnMaxItems::Continue, vec![inner]);
    let mut session = make_session(vec![step]);
    let result = run(&mut session, &StubRunner::new("ok"));

    assert!(result.is_ok());
    assert_eq!(session.turn_log.entries()[0].prompt, r#"{"k":2}"#);
}

#[test]
fn for_each_over_text_that_is_not_json_fails() {
    let step = for_each_step("loop", "not json", "item", None, OnMaxItems::Continue, vec![prompt_step("i", "x")]);
    let mut session = make_session(vec![step]);
    let err = run(&mut session, &StubRunner::new("ok")).unwrap_err();
    assert_eq!(err.error_type(), error_types::PIPELINE_ABORTED);
    assert!(err.detail().contains("not valid JSON"), "{}", err.detail());
}

#[test]
fn for_each_over_json_that_is_not_an_array_fails() {
    let step = for_each_step("loop", r#"{"a": 1}"#, "item", None, OnMaxItems::Continue, vec![prompt_step("i", "x")]);
    let mut session = make_session(vec![step]);
    let err = run(&mut session, &StubRunner::new("ok")).unwrap_err();
    assert!(err.detail().contains("not an array"), "{}", err.detail());
}

#[test]
fn for_each_over_the_cap_aborts_when_asked() {
    let step = for_each_step("loop", "[1,2,3]", "item", Some(2), OnMaxItems::AbortPipeline, vec![prompt_step("i", "x")]);
    let mut session = make_session(vec![step]);
    let err = run(&mut session, &StubRunner::new("ok")).unwrap_err();
    assert_eq!(err.error_type(), error_types::PIPELINE_ABORTED);
    assert!(err.detail().contains("for_each array has 3 items but max_items is 2"), "{}", err.detail());
}

#[test]
fn for_each_over_the_cap_runs_the_first_items_when_continuing() {
    let step = for_each_step("loop", "[1,2,3]", "item", Some(2), OnMaxItems::Continue, vec![prompt_step("i", "{{ for_each.item }}")]);
    let mut session = make_session(vec![step]);
    let runner = CountingStubRunner::new("ok");
    let result = run(&mut session, &runner);

    assert!(result.is_ok());
    assert_eq!(runner.invocation_count(), 2);
    assert_eq!(session.turn_log.entries()[1].prompt, "for_each(items=2)");
}

#[test]
fn for_each_break_ends_the_loop_not_the_run() {
    let inner = prompt_step_with_on_result(
        "check",
        vec![ResultBranch { matcher: ResultMatcher::Always, action: ResultAction::Break }],
    );
    let step = for_each_step("loop", "[1,2,3]", "item", None, OnMaxItems::Continue, vec![inner]);
    let after = prompt_step("after", "next");
    let mut session = make_session(vec![step, after]);
    let runner = CountingStubRunner::new("ok");
    let result = run(&mut session, &runner);

    assert!(matches!(result, Ok(ExecuteOutcome::Completed)));
    assert_eq!(runner.invocation_count(), 2, "one item, then the step after the loop");
}

// ── async steps and joins ───────────────────────────────────────────────────

fn async_prompt(id: &str, prompt: &str) -> Step {
    Step { async_step: true, ..prompt_step(id, prompt) }
}

fn join_step(id: &str, deps: &[&str], mode: JoinErrorMode) -> Step {
    Step {
        depends_on: deps.iter().map(|d| StepId(d.to_string())).collect(),
        ..bare_step(id, StepBody::Action(ActionKind::Join { on_error_mode: mode }))
    }
}

#[test]
fn async_branches_are_merged_by_the_join_in_declaration_order() {
    let steps = vec![
        async_prompt("a", "first"),
        async_prompt("b", "second"),
        join_step("j", &["a", "b"], JoinErrorMode::FailFast),
    ];
    let mut session = make_session(steps);
    let result = run(&mut session, &StubRunner::new("stub"));

    assert!(matches!(result, Ok(ExecuteOutcome::Completed)));
    let entries = session.turn_log.entries();
    assert_eq!(entries.len(), 3);
    assert_eq!(entries[0].step_id, "a");
    assert_eq!(entries[1].step_id, "b");
    assert!(entries[0].concurrent_group.is_some());
    assert_eq!(entries[0].concurrent_group, entries[1].concurrent_group);
    assert_eq!(entries[2].step_id, "j");
    assert_eq!(entries[2].prompt, "join:[a,b]");
    assert_eq!(entries[2].response.as_deref(), Some("[a]:\nstub\n\n[b]:\nstub\n"));
}

#[test]
fn join_on_a_dependency_that_never_ran_reports_it_missing() {
    let steps = vec![async_prompt("a", "first"), join_step("j", &["a", "ghost"], JoinErrorMode::WaitForAll)];
    let mut session = make_session(steps);
    let result = run(&mut session, &StubRunner::new("r"));

    assert!(result.is_ok());
    let entries = session.turn_log.entries();
    assert_eq!(entries.last().unwrap().response.as_deref(), Some("[a]:\nr\n\n[ghost]:\n<missing>\n"));
}

#[test]
fn failed_branch_aborts_a_fail_fast_join() {
    let steps = vec![
        async_prompt("a", "{{ step.nowhere.response }}"),
        join_step("j", &["a"], JoinErrorMode::FailFast),
    ];
    let mut session = make_session(steps);
    let err = run(&mut session, &StubRunner::new("r")).unwrap_err();
    assert_eq!(err.error_type(), error_types::PIPELINE_ABORTED);
    assert!(err.detail().starts_with("Join dependency 'a' failed (fail_fast): "), "{}", err.detail());
}

// ── reload_self ─────────────────────────────────────────────────────────────

fn reloaded_pipeline(path: &str) -> Option<Pipeline> {
    if path != "/work/p.ail.yaml" {
        return None;
    }
    Some(Pipeline {
        steps: vec![bare_step("r", StepBody::Action(ActionKind::ReloadSelf)), prompt_step("c", "new step")],
        source: Some(path.to_string()),
        ..Default::default()
    })
}

#[test]
fn reload_self_resumes_after_the_reload_step_in_the_new_pipeline() {
    let steps = vec![
        prompt_step("a", "first"),
        bare_step("r", StepBody::Action(ActionKind::ReloadSelf)),
        prompt_step("b", "old step"),
    ];
    let pipeline = Pipeline { steps, source: Some("/work/p.ail.yaml".to_string()), ..Default::default() };
    let mut session = Session::new(pipeline, "go".to_string());
    let runner = StubRunner::new("ok");
    let result = execute(&mut session, &runner, &mut ScriptedShell { loader: reloaded_pipeline });

    assert!(matches!(result, Ok(ExecuteOutcome::Completed)));
    let ids: Vec<&str> = session.turn_log.entries().iter().map(|e| e.step_id.as_str()).collect();
    assert_eq!(ids, vec!["a", "r", "c"]);
    assert_eq!(
        session.turn_log.entries()[1].response.as_deref(),
        Some("reloaded pipeline (3 -> 2 steps) from /work/p.ail.yaml")
    );
    assert_eq!(session.reload_count, 1);
    assert_eq!(session.pipeline.steps.len(), 2);
}

#[test]
fn reload_self_without_a_source_file_fails() {
    let steps = vec![bare_step("r", StepBody::Action(ActionKind::ReloadSelf))];
    let mut session = make_session(steps);
    let err = run(&mut session, &StubRunner::new("ok")).unwrap_err();
    assert_eq!(err.error_type(), error_types::PIPELINE_ABORTED);
    assert!(err.detail().contains("passthrough"), "{}", err.detail());
}

fn pipeline_without_anchor(_path: &str) -> Option<Pipeline> {
    Some(Pipeline { steps: vec![prompt_step("other", "x")], ..Default::default() })
}

#[test]
fn reload_self_fails_when_the_new_pipeline_lost_the_step() {
    let steps = vec![bare_step("r", StepBody::Action(ActionKind::ReloadSelf))];
    let pipeline = Pipeline { steps, source: Some("/work/p.ail.yaml".to_string()), ..Default::default() };
    let mut session = Session::new(pipeline, "go".to_string());
    let err = execute(&mut session, &StubRunner::new("ok"), &mut ScriptedShell { loader: pipeline_without_anchor }).unwrap_err();
    assert!(err.detail().contains("no longer contains a step with id 'r'"), "{}", err.detail());
    assert_eq!(session.reload_count, 0);
}

// ── conditions ──────────────────────────────────────────────────────────────

fn session_with_shell_entry(step_id: &str, exit_code: i32, stdout: &str) -> Session {
    let mut session = make_session(vec![prompt_step("dummy", "dummy")]);
    session.turn_log.append(TurnEntry {
        step_id: step_id.to_string(),
        prompt: "cmd".to_string(),
        stdout: Some(stdout.to_string()),
        stderr: Some(String::new()),
        exit_code: Some(exit_code),
        ..Default::default()
    });
    session
}

fn session_with_prompt_entry(step_id: &str, response: &str) -> Session {
    let mut session = make_session(vec![prompt_step("dummy", "dummy")]);
    session.turn_log.append(TurnEntry {
        step_id: step_id.to_string(),
        prompt: "ask".to_string(),
        response: Some(response.to_string()),
        ..Default::default()
    });
    session
}

fn expr(lhs: &str, op: ConditionOp, rhs: &str) -> Condition {
    Condition::Expression(ConditionExpr { lhs: lhs.to_string(), op, rhs: rhs.to_string() })
}

#[test]
fn always_returns_true() {
    let session = make_session(vec![]);
    assert!(evaluate_condition(&Condition::Always, &session, "s").unwrap());
}

#[test]
fn never_returns_false() {
    let session = make_session(vec![]);
    assert!(!evaluate_condition(&Condition::Never, &session, "s").unwrap());
}

#[test]
fn eq_operator_matches_exit_code() {
    let session = session_with_shell_entry("test", 0, "ok");
    assert!(evaluate_condition(&expr("{{ step.test.exit_code }}", ConditionOp::Eq, "0"), &session, "s").unwrap());
}

#[test]
fn eq_operator_does_not_match_different_exit_code() {
    let session = session_with_shell_entry("test", 1, "fail");
    assert!(!evaluate_condition(&expr("{{ step.test.exit_code }}", ConditionOp::Eq, "0"), &session, "s").unwrap());
}

#[test]
fn ne_operator_works() {
    let session = session_with_shell_entry("test", 1, "fail");
    assert!(evaluate_condition(&expr("{{ step.test.exit_code }}", ConditionOp::Ne, "0"), &session, "s").unwrap());
}

#[test]
fn contains_operator_case_insensitive() {
    let session = session_with_prompt_entry("review", "Everything looks APPROVED to me");
    assert!(evaluate_condition(&expr("{{ step.review.response }}", ConditionOp::Contains, "approved"), &session, "s").unwrap());
}

#[test]
fn contains_operator_no_match() {
    let session = session_with_prompt_entry("review", "Needs more work");
    assert!(!evaluate_condition(&expr("{{ step.review.response }}", ConditionOp::Contains, "APPROVED"), &session, "s").unwrap());
}

#[test]
fn starts_with_operator() {
    let session = session_with_prompt_entry("check", "PASS: all tests passed");
    assert!(evaluate_condition(&expr("{{ step.check.response }}", ConditionOp::StartsWith, "PASS"), &session, "s").unwrap());
}

#[test]
fn ends_with_operator() {
    let session = session_with_prompt_entry("check", "All tests passed");
    assert!(evaluate_condition(&expr("{{ step.check.response }}", ConditionOp::EndsWith, "passed"), &session, "s").unwrap());
}

#[test]
fn unresolvable_template_produces_condition_invalid() {
    let session = make_session(vec![]);
    let err = evaluate_condition(&expr("{{ step.nonexistent.response }}", ConditionOp::Eq, "value"), &session, "mycheck")
        .unwrap_err();
    assert_eq!(err.error_type(), error_types::CONDITION_INVALID);
    assert!(err.detail().contains("mycheck"));
}

// ── prompt files and system prompts ─────────────────────────────────────────

fn shell() -> ScriptedShell {
    ScriptedShell { loader: no_pipelines }
}

fn step_with_append(entries: Vec<SystemPromptEntry>) -> Step {
    Step { append_system_prompt: Some(entries), ..prompt_step("test-step", "say hi") }
}

fn check_plain_text_returns_unchanged() {
    let text = "just a plain string with no path prefix";
    let result = resolve_prompt_file(text, "step", &None, &mut shell()).unwrap();
    assert_eq!(result, text);
}

fn check_missing_file_returns_config_file_not_found() {
    let result = resolve_prompt_file("/nonexistent/path/file.txt", "step", &None, &mut shell());
    assert!(result.is_err());
    assert_eq!(result.unwrap_err().error_type(), error_types::CONFIG_FILE_NOT_FOUND);
}

fn check_text_entry_returns_inline_text() {
    let step = step_with_append(vec![SystemPromptEntry::Text("inline text".to_string())]);
    let session = make_session(vec![]);
    let (system_prompt, append) = resolve_step_system_prompts(&step, &session, "test-step", &None, &mut shell()).unwrap();
    assert!(system_prompt.is_none());
    assert_eq!(append, vec!["inline text"]);
}

fn check_shell_entry_captures_stdout() {
    let step = step_with_append(vec![SystemPromptEntry::Shell("echo 'from shell'".to_string())]);
    let session = make_session(vec![]);
    let (_system_prompt, append) = resolve_step_system_prompts(&step, &session, "test-step", &None, &mut shell()).unwrap();
    assert_eq!(append.len(), 1);
    assert!(append[0].contains("from shell"), "expected shell output, got: {:?}", append[0]);
}

fn check_no_entries_returns_empty() {
    let step = prompt_step("no-append", "hello");
    let session = make_session(vec![]);
    let (system_prompt, append) = resolve_step_system_prompts(&step, &session, "no-append", &None, &mut shell()).unwrap();
    assert!(system_prompt.is_none());
    assert!(append.is_empty());
}

#[test]
fn helpers_resolve_prompt_file_plain_text_returns_unchanged() {
    check_plain_text_returns_unchanged();
}

#[test]
fn helpers_resolve_prompt_file_missing_file_returns_config_file_not_found() {
    check_missing_file_returns_config_file_not_found();
}

#[test]
fn helpers_resolve_step_system_prompts_text_entry_returns_inline_text() {
    check_text_entry_returns_inline_text();
}

#[test]
fn helpers_resolve_step_system_prompts_shell_entry_captures_stdout() {
    check_shell_entry_captures_stdout();
}

#[test]
fn helpers_resolve_step_system_prompts_no_entries_returns_empty() {
    check_no_entries_returns_empty();
}

#[test]
fn system_prompt_resolve_prompt_file_plain_text_returns_unchanged() {
    check_plain_text_returns_unchanged();
}

#[test]
fn system_prompt_resolve_prompt_file_missing_file_returns_config_file_not_found() {
    check_missing_file_returns_config_file_not_found();
}

#[test]
fn system_prompt_resolve_step_system_prompts_text_entry_returns_inline_text() {
    check_text_entry_returns_inline_text();
}

#[test]
fn system_prompt_resolve_step_system_prompts_shell_entry_captures_stdout() {
    check_shell_entry_captures_stdout();
}

#[test]
fn system_prompt_resolve_step_system_prompts_no_entries_returns_empty() {
    check_no_entries_returns_empty();
}

#[test]
fn system_prompt_and_appended_text_are_rendered() {
    let mut step = step_with_append(vec![SystemPromptEntry::Text("run {{ pipeline.run_id }}".to_string())]);
    step.system_prompt = Some("You help with {{ step.invocation.prompt }}".to_string());
    let session = Session::with_run_id(Pipeline::default(), "tests".to_string(), "r-1".to_string());
    let (system_prompt, append) = resolve_step_system_prompts(&step, &session, "test-step", &None, &mut shell()).unwrap();
    assert_eq!(system_prompt.as_deref(), Some("You help with tests"));
    assert_eq!(append, vec!["run r-1"]);
}

#[test]
fn headless_passthrough_pipeline_runs_invocation_step() {
    let mut session = Session::new(Pipeline::passthrough(), "hello world".to_string());
    let runner = StubRunner::new("response");
    let result = run(&mut session, &runner);

    assert!(result.is_ok());
    let entries = session.turn_log.entries();
    assert_eq!(entries.len(), 1);
    assert_eq!(entries[0].step_id, "invocation");
    assert_eq!(entries[0].prompt, "hello world");
}

fn check_passthrough_pipeline_runs_invocation_step() {
    let mut session = Session::new(Pipeline::passthrough(), "hello".to_string());
    let runner = StubRunner::new("stub response");
    let result = run(&mut session, &runner);
    assert!(result.is_ok());
    // passthrough declares invocation as step zero; executor runs it
    assert_eq!(session.turn_log.entries().len(), 1);
    assert_eq!(session.turn_log.entries()[0].step_id, "invocation");
}

fn check_single_step_pipeline_appends_to_turn_log() {
    let mut session = make_session(vec![prompt_step("review", "Do a review")]);
    let runner = StubRunner::new("looks good");
    run(&mut session, &runner).unwrap();
    assert_eq!(session.turn_log.entries().len(), 1);
    assert_eq!(session.turn_log.entries()[0].step_id, "review");
    assert_eq!(session.turn_log.entries()[0].response.as_deref(), Some("looks good"));
}

fn check_two_step_pipeline_runs_both_steps_in_order() {
    let mut session = make_session(vec![prompt_step("step_a", "First prompt"), prompt_step("step_b", "Second prompt")]);
    let runner = StubRunner::new("stub");
    run(&mut session, &runner).unwrap();
    let entries = session.turn_log.entries();
    assert_eq!(entries.len(), 2);
    assert_eq!(entries[0].step_id, "step_a");
    assert_eq!(entries[1].step_id, "step_b");
}

fn check_template_variable_in_prompt_is_resolved_before_runner() {
    let mut session = make_session(vec![prompt_step("meta", "The run id is: {{ pipeline.run_id }}")]);
    let run_id = session.run_id.clone();
    let runner = StubRunner::new("ok");
    run(&mut session, &runner).unwrap();
    let prompt_sent = &session.turn_log.entries()[0].prompt;
    assert!(prompt_sent.contains(&run_id), "Expected run_id in resolved prompt, got: {prompt_sent}");
}

fn check_unresolvable_template_aborts_pipeline_with_error() {
    let mut session = make_session(vec![prompt_step("bad", "{{ totally.unknown.variable }}")]);
    let runner = StubRunner::new("never called");
    let result = run(&mut session, &runner);
    assert!(result.is_err());
    // No entries should have been appended
    assert_eq!(session.turn_log.entries().len(), 0);
}

#[test]
fn executor_passthrough_pipeline_runs_invocation_step() {
    check_passthrough_pipeline_runs_invocation_step();
}

#[test]
fn executor_single_step_pipeline_appends_to_turn_log() {
    check_single_step_pipeline_appends_to_turn_log();
}

#[test]
fn executor_two_step_pipeline_runs_both_steps_in_order() {
    check_two_step_pipeline_runs_both_steps_in_order();
}

#[test]
fn executor_template_variable_in_prompt_is_resolved_before_runner() {
    check_template_variable_in_prompt_is_resolved_before_runner();
}

#[test]
fn executor_unresolvable_template_aborts_pipeline_with_error() {
    check_unresolvable_template_aborts_pipeline_with_error();
}

#[test]
fn mod_passthrough_pipeline_runs_invocation_step() {
    check_passthrough_pipeline_runs_invocation_step();
}

#[test]
fn mod_single_step_pipeline_appends_to_turn_log() {
    check_single_step_pipeline_appends_to_turn_log();
}

#[test]
fn mod_two_step_pipeline_runs_both_steps_in_order() {
    check_two_step_pipeline_runs_both_steps_in_order();
}

#[test]
fn mod_template_variable_in_prompt_is_resolved_before_runner() {
    check_template_variable_in_prompt_is_resolved_before_runner();
}

#[test]
fn mod_unresolvable_template_aborts_pipeline_with_error() {
    check_unresolvable_template_aborts_pipeline_with_error();
}

// ── prompt files read through the effects ──────────────────────────────────

/// Files held in memory, keyed by path; `.` and `..` segments are resolved
/// before lookup, as a file system would.
struct MemoryFiles {
    files: Vec<(String, String)>,
    shell: ScriptedShell,
}

fn normalize(path: &str) -> String {
    let mut parts: Vec<&str> = Vec::new();
    for seg in path.split('/') {
        match seg {
            "" | "." => {}
            ".." => {
                parts.pop();
            }
            s => parts.push(s),
        }
    }
    format!("/{}", parts.join("/"))
}

impl StepEffects for MemoryFiles {
    fn run_shell(&mut self, step_id: &str, cmd: &str) -> Result<(String, String, i32), AilError> {
        self.shell.run_shell(step_id, cmd)
    }

    fn read_file(&mut self, _step_id: &str, path: &str) -> Result<String, AilError> {
        let key = normalize(path);
        match self.files.iter().find(|(p, _)| *p == key) {
            Some((_, c)) => Ok(c.clone()),
            None => Err(AilError::config_not_found(path)),
        }
    }

    fn load_pipeline(&mut self, step_id: &str, path: &str) -> Result<Pipeline, AilError> {
        self.shell.load_pipeline(step_id, path)
    }
}

fn files(entries: &[(&str, &str)]) -> MemoryFiles {
    MemoryFiles {
        files: entries.iter().map(|(p, c)| (p.to_string(), c.to_string())).collect(),
        shell: shell(),
    }
}

fn check_absolute_path_reads_content() {
    let mut fs = files(&[("/tmp/prompt-abs.txt", "absolute content")]);
    let result = resolve_prompt_file("/tmp/prompt-abs.txt", "step", &None, &mut fs).unwrap();
    assert_eq!(result, "absolute content");
}

fn check_relative_dot_slash_resolves_against_base_dir() {
    let mut fs = files(&[("/work/base/prompt.txt", "from base dir")]);
    let result = resolve_prompt_file("./prompt.txt", "step", &Some("/work/base".to_string()), &mut fs).unwrap();
    assert_eq!(result, "from base dir");
}

fn check_relative_dot_dot_resolves_against_base_dir() {
    let mut fs = files(&[("/work/parent/up.txt", "parent content")]);
    let result = resolve_prompt_file("../up.txt", "step", &Some("/work/parent/sub".to_string()), &mut fs).unwrap();
    assert_eq!(result, "parent content");
}

fn check_tilde_prefix_reads_file_in_home() {
    let home = dirs::home_dir().expect("home dir must be available in test environment");
    let home = home.to_string_lossy().to_string();
    let full = format!("{}/ail_test_prompt.txt", home.trim_end_matches('/'));
    let mut fs = files(&[(normalize(&full).as_str(), "home content")]);
    let result = resolve_prompt_file("~/ail_test_prompt.txt", "step", &None, &mut fs).unwrap();
    assert_eq!(result, "home content");
}

fn check_file_entry_reads_file_content() {
    let mut fs = files(&[("/tmp/system-entry.txt", "from file")]);
    let step = step_with_append(vec![SystemPromptEntry::File("/tmp/system-entry.txt".to_string())]);
    let session = make_session(vec![]);
    let (_system_prompt, append) = resolve_step_system_prompts(&step, &session, "test-step", &None, &mut fs).unwrap();
    assert_eq!(append, vec!["from file"]);
}

fn check_multiple_entries_all_resolved() {
    let mut fs = files(&[("/tmp/system-multi.txt", "file content")]);
    let step = step_with_append(vec![
        SystemPromptEntry::Text("first".to_string()),
        SystemPromptEntry::File("/tmp/system-multi.txt".to_string()),
        SystemPromptEntry::Shell("echo 'third'".to_string()),
    ]);
    let session = make_session(vec![]);
    let (_system_prompt, append) = resolve_step_system_prompts(&step, &session, "test-step", &None, &mut fs).unwrap();
    assert_eq!(append.len(), 3);
    assert_eq!(append[0], "first");
    assert_eq!(append[1], "file content");
    assert!(append[2].contains("third"), "expected 'third' in shell output");
}

#[test]
fn helpers_resolve_prompt_file_absolute_path_reads_content() {
    check_absolute_path_reads_content();
}

#[test]
fn helpers_resolve_prompt_file_relative_dot_slash_resolves_against_base_dir() {
    check_relative_dot_slash_resolves_against_base_dir();
}

#[test]
fn helpers_resolve_prompt_file_relative_dot_dot_resolves_against_base_dir() {
    check_relative_dot_dot_resolves_against_base_dir();
}

#[test]
fn helpers_resolve_prompt_file_tilde_prefix_reads_file_in_home() {
    check_tilde_prefix_reads_file_in_home();
}

#[test]
fn helpers_resolve_step_system_prompts_file_entry_reads_file_content() {
    check_file_entry_reads_file_content();
}

#[test]
fn helpers_resolve_step_system_prompts_multiple_entries_all_resolved() {
    check_multiple_entries_all_resolved();
}

#[test]
fn system_prompt_resolve_prompt_file_absolute_path_reads_content() {
    check_absolute_path_reads_content();
}

#[test]
fn system_prompt_resolve_prompt_file_relative_dot_slash_resolves_against_base_dir() {
    check_relative_dot_slash_resolves_against_base_dir();
}

#[test]
fn system_prompt_resolve_prompt_file_relative_dot_dot_resolves_against_base_dir() {
    check_relative_dot_dot_resolves_against_base_dir();
}

#[test]
fn system_prompt_resolve_prompt_file_tilde_prefix_reads_file_in_home() {
    check_tilde_prefix_reads_file_in_home();
}

#[test]
fn system_prompt_resolve_step_system_prompts_file_entry_reads_file_content() {
    check_file_entry_reads_file_content();
}

#[test]
fn system_prompt_resolve_step_system_prompts_multiple_entries_all_resolved() {
    check_multiple_entries_all_resolved();
}

#[test]
fn do_while_with_empty_body_and_true_exit_completes() {
    let step = bare_step(
        "loop",
        StepBody::DoWhile {
            max_iterations: 3,
            exit_when: ConditionExpr { lhs: "a".to_string(), op: ConditionOp::Eq, rhs: "a".to_string() },
            steps: vec![],
        },
    );
    let mut session = make_session(vec![step]);
    let result = run(&mut session, &StubRunner::new("unused"));
    assert!(matches!(result, Ok(ExecuteOutcome::Completed)));
    let entries = session.turn_log.entries();
    assert_eq!(entries.len(), 1);
    assert_eq!(entries[0].prompt, "do_while(max_iterations=3)");
    assert_eq!(entries[0].response, None);
}

#[test]
fn do_while_with_zero_iterations_fails() {
    let step = bare_step(
        "loop",
        StepBody::DoWhile {
            max_iterations: 0,
            exit_when: ConditionExpr { lhs: "a".to_string(), op: ConditionOp::Eq, rhs: "a".to_string() },
            steps: vec![],
        },
    );
    let mut session = make_session(vec![step]);
    let err = run(&mut session, &StubRunner::new("unused")).unwrap_err();
    assert_eq!(err.error_type(), error_types::PIPELINE_ABORTED);
}

#[test]
fn for_each_with_empty_body_counts_items() {
    let step = for_each_step("each", "[1, 2, 3]", "n", Some(2), OnMaxItems::Continue, vec![]);
    let mut session = make_session(vec![step]);
    let result = run(&mut session, &StubRunner::new("unused"));
    assert!(matches!(result, Ok(ExecuteOutcome::Completed)));
    assert_eq!(session.turn_log.entries()[0].prompt, "for_each(items=2)");
}

struct FailingCountingRunner {
    count: Cell<usize>,
}

impl Runner for FailingCountingRunner {
    fn invoke(&self, _prompt: &str, _options: InvokeOptions) -> Result<RunResult, AilError> {
        self.count.set(self.count.get() + 1);
        Err(AilError::PipelineAborted { detail: "runner down".to_string(), context: None })
    }
}

fn do_while_step(id: &str, max_iterations: u64, lhs: &str, rhs: &str, inner: Vec<Step>) -> Step {
    bare_step(
        id,
        StepBody::DoWhile {
            max_iterations,
            exit_when: ConditionExpr { lhs: lhs.to_string(), op: ConditionOp::Eq, rhs: rhs.to_string() },
            steps: inner,
        },
    )
}

#[test]
fn do_while_that_never_exits_reports_exhausted_iterations() {
    let mut session = make_session(vec![do_while_step("loop", 3, "a", "b", vec![])]);
    let err = run(&mut session, &StubRunner::new("unused")).unwrap_err();
    assert_eq!(err.error_type(), error_types::PIPELINE_ABORTED);
    assert_eq!(err.detail(), "Step 'loop' exhausted do_while.max_iterations (3) without exit_when becoming true");
    assert_eq!(session.loop_depth, 0);
    assert!(session.do_while_context.is_none());
}

#[test]
fn do_while_inner_failure_restores_loop_state() {
    let inner = prompt_step("ask", "{{ step.missing.response }}");
    let mut session = make_session(vec![do_while_step("loop", 3, "a", "a", vec![inner])]);
    let err = run(&mut session, &StubRunner::new("unused")).unwrap_err();
    assert_eq!(err.error_type(), error_types::TEMPLATE_UNRESOLVED);
    assert_eq!(session.loop_depth, 0);
    assert!(session.do_while_context.is_none());
}

#[test]
fn for_each_inner_failure_restores_loop_state() {
    let inner = prompt_step("ask", "{{ step.missing.response }}");
    let step = for_each_step("each", "[1, 2]", "n", None, OnMaxItems::Continue, vec![inner]);
    let mut session = make_session(vec![step]);
    let err = run(&mut session, &StubRunner::new("unused")).unwrap_err();
    assert_eq!(err.error_type(), error_types::TEMPLATE_UNRESOLVED);
    assert_eq!(session.loop_depth, 0);
    assert!(session.for_each_context.is_none());
}

#[test]
fn self_referencing_named_pipeline_is_a_circular_reference() {
    let call = bare_step("call", StepBody::NamedPipeline { name: "again".to_string(), prompt: None });
    let inner = bare_step("inner", StepBody::NamedPipeline { name: "again".to_string(), prompt: None });
    let pipeline = Pipeline {
        steps: vec![call],
        named_pipelines: vec![("again".to_string(), vec![inner])],
        ..Default::default()
    };
    let mut session = Session::new(pipeline, "go".to_string());
    let err = run(&mut session, &StubRunner::new("unused")).unwrap_err();
    assert_eq!(err.error_type(), error_types::PIPELINE_CIRCULAR_REFERENCE);
    assert_eq!(
        err.detail(),
        "Circular reference detected: named pipeline 'again' references itself (directly or transitively)"
    );
}

#[test]
fn retry_policy_dispatches_max_retries_plus_one_times() {
    let step = Step { on_error: Some(ail_core::config::domain::OnError::Retry { max_retries: 2 }), ..prompt_step("p", "hello") };
    let mut session = make_session(vec![step]);
    let runner = FailingCountingRunner { count: Cell::new(0) };
    let result = execute(&mut session, &runner, &mut ScriptedShell { loader: no_pipelines });
    assert!(result.is_err());
    assert_eq!(runner.count.get(), 3);
    assert!(session.turn_log.entries().is_empty());
}

#[test]
fn continue_policy_gives_no_entry_after_failure() {
    let step = Step { on_error: Some(ail_core::config::domain::OnError::Continue), ..prompt_step("p", "hello") };
    let mut session = make_session(vec![step]);
    let runner = FailingCountingRunner { count: Cell::new(0) };
    let result = execute(&mut session, &runner, &mut ScriptedShell { loader: no_pipelines });
    assert!(matches!(result, Ok(ExecuteOutcome::Completed)));
    assert_eq!(runner.count.get(), 1);
    assert!(session.turn_log.entries().is_empty());
}

#[test]
fn prompt_entry_records_the_runner_answer() {
    let result = RunResult { response: "hello".to_string(), session_id: Some("s1".to_string()), ..Default::default() };
    let e = ail_core::executor::engine::prompt_entry("ask", "resolved prompt".to_string(), result);
    assert_eq!(e.step_id, "ask");
    assert_eq!(e.prompt, "resolved prompt");
    assert_eq!(e.response.as_deref(), Some("hello"));
    assert_eq!(e.runner_session_id.as_deref(), Some("s1"));
}
