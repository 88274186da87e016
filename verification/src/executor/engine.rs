//! The step-dispatch loop shared by headless and controlled runs: conditions,
//! chains, step bodies, error policies, loops, sub-pipelines and `on_result`.
use vstd::prelude::*;
use vstd::string::*;

use crate::config::domain::{
    ActionKind, Condition, ConditionExpr, ContextSource, HitlHeadlessBehavior, JoinErrorMode, OnError, OnMaxItems, Pipeline,
    ProviderConfig, ResultAction, Step, StepBody, SystemPromptEntry, MAX_LOOP_DEPTH, MAX_RELOADS_PER_RUN,
    MAX_SUB_PIPELINE_DEPTH,
};
use crate::error::{opt_view, AilError, ErrorContext, ErrorKind};
use crate::executor::condition::{evaluate_condition, evaluate_on_result};
use crate::executor::events::ExecuteOutcome;
use crate::executor::helpers::build_tool_policy;
use crate::executor::cancel::CancelToken;
use crate::executor::parallel::{
    current_time, is_join_step, iso8601, join_error_mode, merge_join_results, new_concurrent_group_id,
    BranchResult,
};
use crate::executor::schema::{item_texts, json_array_shape, parse_json_array, validate_input_schema, validate_join_output_schema, validate_output_schema, json_text_parses, response_text};
use crate::executor::turn::TurnEntry;
use crate::runner::{answered_entry, InvokeOptions, RunResult, Runner};
use crate::session::{last_response_of, DoWhileContext, ForEachContext, Session, TurnLog};
use crate::template::{render_from, resolve, unresolved_message, Rendered};
use crate::text::{clone_opt, decimal, starts_with_exec, str_eq, to_chars};

verus! {

/// Whether to run a step, skip it (no entry), or stop the loop.
pub enum BeforeStepAction {
    Run,
    Skip,
    Stop,
}

/// What the loop does after a top-level step.
pub enum LoopControl {
    Continue,
    Skip,
    Break,
    Return(ExecuteOutcome),
}

/// The mode-specific side of a run: event reporting, human gates, and the
/// outside work (shell commands, files) a step needs. Headless and
/// controlled runs implement it.
pub trait StepObserver {
    /// Whether the guard runs every step whose condition does not skip it
    /// (an observer that never skips or stops on its own).
    open spec fn runs_unskipped_steps() -> bool {
        false
    }

    /// Whether the guard, in this state, stops the run at the next step (a
    /// controlled run that was killed).
    open spec fn stops_every_step(&self) -> bool {
        false
    }

    /// Pre-step guard; `condition_skip` is `true` when the condition said skip.
    fn before_step(&mut self, step_id: &str, step_index: usize, condition_skip: bool) -> (a: BeforeStepAction)
        ensures
            Self::runs_unskipped_steps() && !condition_skip ==> a is Run,
            old(self).stops_every_step() ==> a is Stop,
    ;

    /// A step that is not a prompt is about to run.
    fn on_non_prompt_started(&mut self, step_id: &str, step_index: usize, total_steps: usize);

    /// A prompt step's text is resolved and about to be sent.
    fn on_prompt_ready(&mut self, step_id: &str, step_index: usize, total_steps: usize, resolved: &str);

    /// A step failed.
    fn on_step_failed(&mut self, step_id: &str, detail: &str);

    /// A step failed and `on_error: continue` let the run go on.
    fn on_step_error_continued(&mut self, step_id: &str, error: &str, error_type: &str);

    /// A step failed and is about to be tried again.
    fn on_step_retrying(&mut self, step_id: &str, error: &str, attempt: u64, max_retries: u32);

    /// Fill in mode-specific invocation settings.
    fn augment_options(&self, opts: InvokeOptions) -> InvokeOptions;

    /// A prompt step completed.
    fn on_prompt_completed(&mut self, step_id: &str, result: &RunResult);

    /// A step that is not a prompt completed.
    fn on_non_prompt_completed(&mut self, step_id: &str);

    /// A `pause_for_human` step is reached.
    fn handle_pause_for_human(&mut self, step_id: &str, message: Option<&str>);

    /// A `modify_output` gate is reached: the modified text, or `None` to skip.
    fn handle_modify_output(
        &mut self,
        step_id: &str,
        message: Option<&str>,
        last_response: Option<&str>,
        headless_behavior: HitlHeadlessBehavior,
        default_value: Option<&str>,
    ) -> Result<Option<String>, AilError>;

    /// The run finished (completed or broke off).
    fn on_pipeline_done(&mut self, outcome: &ExecuteOutcome);

    /// The run is about to fail.
    fn on_pipeline_error(&mut self, err: &AilError);

    /// An `on_result: pause_for_human` branch fired.
    fn on_result_pause(&mut self, step_id: &str, message: Option<&str>);
}

/// A text option as plain values.
pub open spec fn opt_str_view(o: Option<&str>) -> Option<Seq<char>> {
    match o {
        Some(d) => Some(d@),
        None => None,
    }
}

/// What a `modify_output` gate gives without a human: nothing for `skip`, the
/// abort error for `abort`, the default value (or the empty text) for
/// `use_default`.
pub open spec fn headless_modify_result(
    step_id: Seq<char>,
    headless_behavior: HitlHeadlessBehavior,
    default_value: Option<Seq<char>>,
    r: Result<Option<String>, AilError>,
) -> bool {
    match headless_behavior {
        HitlHeadlessBehavior::Skip => r matches Ok(None),
        HitlHeadlessBehavior::Abort => r matches Err(e) && e.is_fresh(
            ErrorKind::PipelineAborted,
            "Step '"@ + step_id
                + "' is a modify_output gate with on_headless: abort — pipeline cannot continue without human input"@,
        ),
        HitlHeadlessBehavior::UseDefault => r matches Ok(Some(v)) && v@ == match default_value {
            Some(d) => d,
            None => Seq::<char>::empty(),
        },
    }
}

/// The guard of a controlled run: stop once a kill is requested, skip a step
/// the user disabled or whose condition is false, run it otherwise.
pub fn controlled_before_step(kill_requested: bool, disabled: bool, condition_skip: bool) -> (a: BeforeStepAction)
    ensures
        kill_requested ==> a is Stop,
        !kill_requested && (disabled || condition_skip) ==> a is Skip,
        !kill_requested && !disabled && !condition_skip ==> a is Run,
{
    if kill_requested {
        BeforeStepAction::Stop
    } else if disabled || condition_skip {
        BeforeStepAction::Skip
    } else {
        BeforeStepAction::Run
    }
}

/// The outside work steps need: shell commands and files.
pub trait StepEffects {
    /// Run `cmd` with `/bin/sh -c`: stdout, stderr and exit code.
    fn run_shell(&mut self, step_id: &str, cmd: &str) -> Result<(String, String, i32), AilError>;

    /// Read a file a step names (a prompt file, a system-prompt file).
    fn read_file(&mut self, step_id: &str, path: &str) -> Result<String, AilError>;

    /// Load and validate the pipeline file at `path`.
    fn load_pipeline(&mut self, step_id: &str, path: &str) -> Result<Pipeline, AilError>;
}

/// The headless observer: no events, human gates resolved by the step's
/// headless settings, condition skips honoured.
pub struct NullObserver;

/// What a headless `modify_output` gate does.
pub fn headless_modify_output(step_id: &str, headless_behavior: HitlHeadlessBehavior, default_value: Option<&str>) -> (r: Result<Option<String>, AilError>)
    ensures
        headless_modify_result(step_id@, headless_behavior, opt_str_view(default_value), r),
{
    match headless_behavior {
        HitlHeadlessBehavior::Skip => Ok(None),
        HitlHeadlessBehavior::Abort => Err(
            AilError::PipelineAborted {
                detail: step_text(
                    step_id,
                    "' is a modify_output gate with on_headless: abort — pipeline cannot continue without human input",
                ),
                context: None,
            },
        ),
        HitlHeadlessBehavior::UseDefault => Ok(
            Some(
                match default_value {
                    Some(d) => String::from_str(d),
                    None => String::new(),
                },
            ),
        ),
    }
}

impl StepObserver for NullObserver {
    open spec fn runs_unskipped_steps() -> bool {
        true
    }

    fn before_step(&mut self, step_id: &str, step_index: usize, condition_skip: bool) -> (a: BeforeStepAction)
        ensures
            condition_skip ==> a is Skip,
            !condition_skip ==> a is Run,
    {
        if condition_skip {
            BeforeStepAction::Skip
        } else {
            BeforeStepAction::Run
        }
    }

    fn on_non_prompt_started(&mut self, step_id: &str, step_index: usize, total_steps: usize) {
    }

    fn on_prompt_ready(&mut self, step_id: &str, step_index: usize, total_steps: usize, resolved: &str) {
    }

    fn on_step_failed(&mut self, step_id: &str, detail: &str) {
    }

    fn on_step_error_continued(&mut self, step_id: &str, error: &str, error_type: &str) {
    }

    fn on_step_retrying(&mut self, step_id: &str, error: &str, attempt: u64, max_retries: u32) {
    }

    fn augment_options(&self, opts: InvokeOptions) -> (o: InvokeOptions)
        ensures
            o == opts,
    {
        opts
    }

    fn on_prompt_completed(&mut self, step_id: &str, result: &RunResult) {
    }

    fn on_non_prompt_completed(&mut self, step_id: &str) {
    }

    fn handle_pause_for_human(&mut self, step_id: &str, message: Option<&str>) {
    }

    fn handle_modify_output(
        &mut self,
        step_id: &str,
        message: Option<&str>,
        last_response: Option<&str>,
        headless_behavior: HitlHeadlessBehavior,
        default_value: Option<&str>,
    ) -> (r: Result<Option<String>, AilError>)
        ensures
            headless_modify_result(step_id@, headless_behavior, opt_str_view(default_value), r),
    {
        headless_modify_output(step_id, headless_behavior, default_value)
    }

    fn on_pipeline_done(&mut self, outcome: &ExecuteOutcome) {
    }

    fn on_pipeline_error(&mut self, err: &AilError) {
    }

    fn on_result_pause(&mut self, step_id: &str, message: Option<&str>) {
    }
}

/// A pipeline with no steps, to hold the place of the running one.
fn empty_pipeline() -> (p: Pipeline)
    ensures
        p.steps@.len() == 0,
        p.source is None,
        p.defaults.model is None,
        p.defaults.base_url is None,
        p.defaults.auth_token is None,
        p.defaults.connect_timeout_seconds is None,
        p.defaults.read_timeout_seconds is None,
        p.defaults.max_history_messages is None,
        p.timeout_seconds is None,
        p.default_tools is None,
        p.named_pipelines@.len() == 0,
        p.max_concurrency is None,
{
    Pipeline {
        steps: Vec::new(),
        source: None,
        defaults: ProviderConfig {
            model: None,
            base_url: None,
            auth_token: None,
            connect_timeout_seconds: None,
            read_timeout_seconds: None,
            max_history_messages: None,
        },
        timeout_seconds: None,
        default_tools: None,
        named_pipelines: Vec::new(),
        max_concurrency: None,
    }
}

/// "Step '<id>'" followed by `tail`.
fn step_text(step_id: &str, tail: &str) -> (s: String)
    ensures
        s@ == "Step '"@ + step_id@ + tail@,
{
    let mut s = String::from_str("Step '");
    s.append(step_id);
    s.append(tail);
    s
}

/// An error for the current step of the run.
fn step_error(kind_aborted: bool, detail: String, run_id: &str, step_id: &str) -> (e: AilError)
    ensures
        e.kind() == (if kind_aborted { ErrorKind::PipelineAborted } else { ErrorKind::SkillUnknown }),
        e.detail_string() == detail,
{
    let ctx = Some(ErrorContext::for_step(run_id, step_id));
    if kind_aborted {
        AilError::PipelineAborted { detail, context: ctx }
    } else {
        AilError::SkillUnknown { detail, context: ctx }
    }
}

// ── Prompt text and invocation settings ─────────────────────────────────────

/// Prompt text that names a file: it starts with `./`, `../`, `~/` or `/`.
pub open spec fn names_file(t: Seq<char>) -> bool {
    crate::text::starts_with(t, "./"@) || crate::text::starts_with(t, "../"@) || crate::text::starts_with(
        t,
        "~/"@,
    ) || crate::text::starts_with(t, "/"@)
}

/// The directory of the pipeline file, when it came from one.
fn pipeline_base_dir(root: &Pipeline) -> (r: Option<String>)
    ensures
        opt_view(r) == match root.source {
            Some(src) => crate::config::inheritance::path_parent(src@),
            None => None,
        },
{
    match &root.source {
        Some(src) => crate::config::inheritance::parent_path(src.as_str()),
        None => None,
    }
}

/// The text of a prompt or system prompt: the contents of the file it names
/// (`~/` from the home directory, `./` and `../` from `base_dir`), or the
/// text itself.
pub fn resolve_prompt_file<E: StepEffects>(text: &str, step_id: &str, base_dir: &Option<String>, effects: &mut E) -> (r: Result<String, AilError>)
    ensures
        !names_file(text@) ==> (r matches Ok(t) && t@ == text@),
{
    let cs = to_chars(text);
    let dot = to_chars("./");
    let dotdot = to_chars("../");
    let home = to_chars("~/");
    let root = to_chars("/");
    let is_path = starts_with_exec(&cs, &dot) || starts_with_exec(&cs, &dotdot) || starts_with_exec(&cs, &home)
        || starts_with_exec(&cs, &root);
    if !is_path {
        return Ok(String::from_str(text));
    }
    proof {
        reveal_strlit("~/");
    }
    let path = if starts_with_exec(&cs, &home) {
        match crate::config::inheritance::home_dir() {
            Some(h) => {
                let rel = crate::text::string_of(&cs, 2, cs.len());
                crate::config::inheritance::join_path(h.as_str(), rel.as_str())
            },
            None => {
                return Err(
                    AilError::ConfigFileNotFound {
                        detail: step_text(step_id, "' prompt path starts with ~/ but home dir is unavailable"),
                        context: None,
                    },
                );
            },
        }
    } else if starts_with_exec(&cs, &root) {
        String::from_str(text)
    } else {
        match base_dir {
            Some(b) => crate::config::inheritance::join_path(b.as_str(), text),
            None => String::from_str(text),
        }
    };
    effects.read_file(step_id, path.as_str())
}

/// Every entry of `entries` is inline text that renders in `s`.
pub open spec fn texts_render(s: Session, entries: Seq<SystemPromptEntry>) -> bool {
    forall|k: int| 0 <= k < entries.len() ==> (#[trigger] entries[k] matches SystemPromptEntry::Text(t)
        && render_from(s, t@, 0) is Text)
}

/// The step's system prompt and appended system-prompt texts, resolved: the
/// system prompt's text (or named file) rendered; each appended entry as
/// inline text, a file's contents or a command's output, rendered.
pub fn resolve_step_system_prompts<E: StepEffects>(step: &Step, session: &Session, step_id: &str, base_dir: &Option<String>, effects: &mut E) -> (r: Result<(Option<String>, Vec<String>), AilError>)
    ensures
        r matches Ok((sp, app)) ==> {
            &&& (step.system_prompt is None <==> sp is None)
            &&& app@.len() == match step.append_system_prompt {
                Some(es) => es@.len(),
                None => 0,
            }
            &&& step.append_system_prompt matches Some(es) ==> forall|k: int|
                0 <= k < es@.len() ==> (#[trigger] es@[k] matches SystemPromptEntry::Text(t)
                    ==> render_from(*session, t@, 0) == Rendered::Text(app@[k]@))
        },
        step.system_prompt is None && (step.append_system_prompt matches Some(es) ==> texts_render(*session, es@))
            ==> r is Ok,
{
    let system_prompt = match &step.system_prompt {
        None => None,
        Some(sp) => {
            let content = match resolve_prompt_file(sp.as_str(), step_id, base_dir, effects) {
                Ok(c) => c,
                Err(e) => {
                    return Err(e);
                },
            };
            match resolve(content.as_str(), session) {
                Ok(t) => Some(t),
                Err(e) => {
                    return Err(e.with_step_context(session.run_id.as_str(), step_id));
                },
            }
        },
    };
    let mut appended: Vec<String> = Vec::new();
    if let Some(entries) = &step.append_system_prompt {
        let mut i: usize = 0;
        while i < entries.len()
            invariant
                i <= entries@.len(),
                appended@.len() == i,
                step.append_system_prompt == Some(*entries),
                step.system_prompt is None <==> system_prompt is None,
                forall|k: int| 0 <= k < i ==> (#[trigger] entries@[k] matches SystemPromptEntry::Text(t)
                    ==> render_from(*session, t@, 0) == Rendered::Text(appended@[k]@)),
            decreases entries.len() - i,
        {
            let text = match &entries[i] {
                SystemPromptEntry::Text(t) => match resolve(t.as_str(), session) {
                    Ok(x) => x,
                    Err(e) => {
                        return Err(e.with_step_context(session.run_id.as_str(), step_id));
                    },
                },
                SystemPromptEntry::File(path) => {
                    let content = match effects.read_file(step_id, path.as_str()) {
                        Ok(c) => c,
                        Err(e) => {
                            return Err(e);
                        },
                    };
                    match resolve(content.as_str(), session) {
                        Ok(x) => x,
                        Err(e) => {
                            return Err(e.with_step_context(session.run_id.as_str(), step_id));
                        },
                    }
                },
                SystemPromptEntry::Shell(cmd) => {
                    let resolved_cmd = match resolve(cmd.as_str(), session) {
                        Ok(x) => x,
                        Err(e) => {
                            return Err(e.with_step_context(session.run_id.as_str(), step_id));
                        },
                    };
                    match effects.run_shell(step_id, resolved_cmd.as_str()) {
                        Ok((stdout, _stderr, _code)) => stdout,
                        Err(e) => {
                            return Err(e);
                        },
                    }
                },
            };
            appended.push(text);
            i += 1;
        }
    }
    proof {
        if step.append_system_prompt is None {
            assert(appended@.len() == 0);
        }
    }
    Ok((system_prompt, appended))
}

/// The runner session id of the latest entry that has one.
pub open spec fn last_session_id_of(es: Seq<TurnEntry>) -> Option<Seq<char>>
    decreases es.len(),
{
    if es.len() == 0 {
        None
    } else if es.last().runner_session_id is Some {
        Some(es.last().runner_session_id->0@)
    } else {
        last_session_id_of(es.drop_last())
    }
}

/// The runner session id of the latest entry that has one.
fn last_runner_session_id(log: &TurnLog) -> (r: Option<String>)
    ensures
        opt_view(r) == last_session_id_of(log@),
{
    let entries = log.entries();
    let mut i = entries.len();
    assert(entries@.take(i as int) =~= entries@);
    while i > 0
        invariant
            i <= entries.len(),
            entries@ == log@,
            last_session_id_of(log@) == last_session_id_of(entries@.take(i as int)),
        decreases i,
    {
        let ghost t = entries@.take(i as int);
        assert(t.drop_last() =~= entries@.take(i - 1));
        assert(t.last() == entries@[i - 1]);
        if let Some(sid) = &entries[i - 1].runner_session_id {
            return Some(sid.clone());
        }
        i -= 1;
    }
    None
}

/// Run the host-managed invocation step, for pipelines that do not declare
/// their own: invoke the runner with `prompt` and log an `invocation` entry.
/// Callers check first that the pipeline has no `invocation` step of its own.
pub fn run_invocation_step<R: Runner>(session: &mut Session, runner: &R, prompt: &str, options: InvokeOptions) -> (r: Result<RunResult, AilError>)
    ensures
        final(session).run_id == old(session).run_id,
        final(session).pipeline == old(session).pipeline,
        old(session).reload_count <= final(session).reload_count,
        within_reload_cap(old(session).reload_count, final(session).reload_count),
        match r {
            Ok(res) => {
                &&& runner.answers(prompt@, options, Ok::<RunResult, AilError>(res))
                &&& final(session).turn_log@.len() == old(session).turn_log@.len() + 1
                &&& final(session).turn_log@.drop_last() == old(session).turn_log@
                &&& final(session).turn_log@.last().step_id@ == "invocation"@
                &&& final(session).turn_log@.last().prompt@ == prompt@
                &&& final(session).turn_log@.last().response == Some(res.response)
                &&& opt_view(final(session).turn_log@.last().runner_session_id) == opt_view(res.session_id)
                &&& final(session).turn_log@.last().exit_code is None
            },
            Err(e) => {
                &&& exists|re: AilError|
                    #[trigger] runner.answers(prompt@, options, Err::<RunResult, AilError>(re)) && e.kind() == re.kind()
                        && e.detail_string() == re.detail_string()
                &&& final(session).turn_log@ == old(session).turn_log@
                &&& e.context_value() matches Some(c) && c.view_triple() == (
                    Some(old(session).run_id@),
                    Some("invocation"@),
                    None::<Seq<char>>,
                )
            },
        },
{
    proof {
        reveal_strlit("invocation");
    }
    let result = match runner.invoke(prompt, options) {
        Ok(x) => x,
        Err(e) => {
            return Err(e.with_step_context(session.run_id.as_str(), "invocation"));
        },
    };
    let response = result.response.clone();
    let mut entry = TurnEntry::with_response(String::from_str("invocation"), String::from_str(prompt), Some(response));
    entry.runner_session_id = clone_opt(&result.session_id);
    session.turn_log.append(entry);
    proof {
        reveal_strlit("invocation");
        assert(session.turn_log@.drop_last() =~= old(session).turn_log@);
    }
    Ok(result)
}

/// Run a prompt step: load and resolve its text, then invoke the runner.
fn execute_prompt<R: Runner, O: StepObserver, E: StepEffects>(
    root: &Pipeline,
    template_text: &str,
    step: &Step,
    step_id: &str,
    session: &mut Session,
    runner: &R,
    observer: &mut O,
    effects: &mut E,
    step_index: usize,
    total_steps: usize,
) -> (r: Result<TurnEntry, AilError>)
    ensures
        r matches Ok(e) ==> e.step_id@ == step_id@,
        r matches Ok(e) ==> e.response is Some && e.stdout is None && e.stderr is None && e.exit_code is None,
        r matches Ok(e) ==> answered_entry(*runner, e),
        final(session).turn_log@ == old(session).turn_log@,
        final(session).run_id == old(session).run_id,
        final(session).pipeline == old(session).pipeline,
        final(session).reload_count == old(session).reload_count,
        !names_file(template_text@) ==> match render_from(*old(session), template_text@, 0) {
            Rendered::Unresolved(v) => r matches Err(e) && e.kind() == ErrorKind::TemplateUnresolved
                && e.detail_view() == unresolved_message(v),
            Rendered::Text(x) => r matches Ok(e) ==> e.prompt@ == x,
        },
{
    let base_dir = pipeline_base_dir(root);
    let content = match resolve_prompt_file(template_text, step_id, &base_dir, effects) {
        Ok(c) => c,
        Err(e) => {
            observer.on_step_failed(step_id, e.detail());
            return Err(e.with_step_context(session.run_id.as_str(), step_id));
        },
    };
    let resolved = match resolve(content.as_str(), session) {
        Ok(t) => t,
        Err(e) => {
            observer.on_step_failed(step_id, e.detail());
            return Err(e.with_step_context(session.run_id.as_str(), step_id));
        },
    };
    observer.on_prompt_ready(step_id, step_index, total_steps, resolved.as_str());
    let (system_prompt, append_system_prompt) = match resolve_step_system_prompts(step, session, step_id, &base_dir, effects) {
        Ok(x) => x,
        Err(e) => {
            observer.on_step_failed(step_id, e.detail());
            return Err(e);
        },
    };
    let options = prompt_options(root, step, system_prompt, append_system_prompt, &session.turn_log);
    let options = observer.augment_options(options);
    let ghost sent = options;
    let result = match runner.invoke(resolved.as_str(), options) {
        Ok(x) => x,
        Err(e) => {
            observer.on_step_failed(step_id, e.detail());
            return Err(e.with_step_context(session.run_id.as_str(), step_id));
        },
    };
    observer.on_prompt_completed(step_id, &result);
    let ghost answer = result;
    let entry = prompt_entry(step_id, resolved, result);
    assert(runner.answers(entry.prompt@, sent, Ok::<RunResult, AilError>(answer)));
    Ok(entry)
}

/// The options a prompt step hands to the runner: the step's model, else the
/// pipeline's default model; the step's tool policy, else the pipeline's;
/// the resolved system prompts; with `resume`, the latest runner session id
/// of the log; no cancel token (a controlled run adds its own).
fn prompt_options(
    root: &Pipeline,
    step: &Step,
    system_prompt: Option<String>,
    append_system_prompt: Vec<String>,
    log: &TurnLog,
) -> (o: InvokeOptions)
    ensures
        opt_view(o.model) == match step.model {
            Some(m) => Some(m@),
            None => opt_view(root.defaults.model),
        },
        o.tool_policy.view_value() == crate::executor::helpers::tool_policy_of(
            match step.tools {
                Some(t) => Some(t),
                None => root.default_tools,
            },
        ),
        o.system_prompt == system_prompt,
        o.append_system_prompt == append_system_prompt,
        opt_view(o.resume_session_id) == if step.resume {
            last_session_id_of(log@)
        } else {
            None
        },
        o.cancel_token is None,
{
    let model = match &step.model {
        Some(m) => Some(m.clone()),
        None => clone_opt(&root.defaults.model),
    };
    let tools = match &step.tools {
        Some(t) => Some(t),
        None => match &root.default_tools {
            Some(t) => Some(t),
            None => None,
        },
    };
    let resume_session_id = if step.resume {
        last_runner_session_id(log)
    } else {
        None
    };
    InvokeOptions {
        model,
        tool_policy: build_tool_policy(tools),
        system_prompt,
        append_system_prompt,
        resume_session_id,
        cancel_token: None,
    }
}

/// The entry of a prompt step from the runner's answer: the step id, the
/// resolved prompt, and the answer's response and runner session id.
pub fn prompt_entry(step_id: &str, resolved: String, result: RunResult) -> (e: TurnEntry)
    ensures
        e.step_id@ == step_id@,
        e.prompt == resolved,
        e.response == Some(result.response),
        e.runner_session_id == result.session_id,
        e.stdout is None && e.stderr is None && e.exit_code is None,
{
    let RunResult { response, session_id, .. } = result;
    let mut entry = TurnEntry::with_response(String::from_str(step_id), resolved, Some(response));
    entry.runner_session_id = session_id;
    entry
}

// ── Specification ───────────────────────────────────────────────────────────

/// The step declares an `on_result` branch whose action is `break`.
pub open spec fn declares_break(s: Step) -> bool {
    s.on_result matches Some(bs) && exists|j: int| 0 <= j < bs@.len() && (#[trigger] bs@[j]).action is Break
}

/// The step is a prompt given in line (not a file) whose template does not
/// render in `s`.
pub open spec fn unresolved_prompt(step: Step, s: Session) -> bool {
    &&& step.body matches StepBody::Prompt(t)
    &&& !names_file(t@)
    &&& render_from(s, t@, 0) is Unresolved
}

/// A step that is not a built-in action and has no chains or `on_result`:
/// its error policy alone decides what a failed dispatch gives.
pub open spec fn lone_step(s: Step) -> bool {
    &&& !(s.body is Action)
    &&& s.before@.len() == 0
    &&& s.then_steps@.len() == 0
    &&& s.on_result is None
}

/// No step of `steps` is async.
pub open spec fn no_async(steps: Seq<Step>) -> bool {
    forall|k: int| 0 <= k < steps.len() ==> !(#[trigger] steps[k]).async_step
}

/// `step` is a plain prompt step without input schema whose inline template
/// does not render in `s`.
pub open spec fn first_prompt_unresolved(step: Step, s: Session) -> bool {
    &&& plain_step(step)
    &&& step.input_schema is None
    &&& unresolved_prompt(step, s)
}

/// A plain step: a prompt or a shell context step, run in line, without
/// condition, chains, `on_result` or error policy.
pub open spec fn plain_step(s: Step) -> bool {
    &&& (s.body is Prompt || s.body is Context)
    &&& !s.async_step
    &&& s.condition is None
    &&& s.before@.len() == 0
    &&& s.then_steps@.len() == 0
    &&& s.on_result is None
    &&& s.on_error is None
}

/// `after` is `before` followed by entries of steps of `steps`, in the
/// steps' order, one entry per step at most.
pub open spec fn logged_in_order(before: Seq<TurnEntry>, after: Seq<TurnEntry>, steps: Seq<Step>) -> bool {
    &&& before.len() <= after.len()
    &&& after.take(before.len() as int) == before
    &&& exists|idx: Seq<int>| picks_in_order(idx, before, after, steps)
}

/// `idx` picks, for each new entry, the step it belongs to, in increasing order.
/// A run reloads its pipeline at most `MAX_RELOADS_PER_RUN` times: the
/// reload count after a call is the count before, or within the cap.
pub open spec fn within_reload_cap(before: usize, after: usize) -> bool {
    after <= before || after <= MAX_RELOADS_PER_RUN
}

/// The `then:` chain of `parent` when `after`, else its `before:` chain.
pub open spec fn chain_steps(parent: Step, after: bool) -> Seq<Step> {
    if after {
        parent.then_steps@
    } else {
        parent.before@
    }
}

/// Every step of `steps` is plain.
pub open spec fn all_plain(steps: Seq<Step>) -> bool {
    forall|k: int| 0 <= k < steps.len() ==> plain_step(#[trigger] steps[k])
}

/// `after` is `before` followed by exactly one entry per step of `steps`,
/// in the steps' order.
pub open spec fn logs_each_step(before: Seq<TurnEntry>, after: Seq<TurnEntry>, steps: Seq<Step>) -> bool {
    &&& after.len() == before.len() + steps.len()
    &&& after.take(before.len() as int) == before
    &&& forall|j: int| 0 <= j < steps.len() ==> after[before.len() + j].step_id@ == (#[trigger] steps[j]).id.0@
}

/// Each new entry picked for a prompt step records an answer of `runner` to
/// its prompt.
pub open spec fn picked_prompts_answered<R: Runner>(runner: R, idx: Seq<int>, before: Seq<TurnEntry>, after: Seq<TurnEntry>, steps: Seq<Step>) -> bool {
    forall|j: int|
        #![trigger idx[j]]
        0 <= j < idx.len() && steps[idx[j]].body is Prompt ==> answered_entry(runner, after[before.len() + j])
}

/// The new entries are logged in order, and those of prompt steps record
/// answers of `runner` to their prompts.
pub open spec fn logged_with_answers<R: Runner>(runner: R, before: Seq<TurnEntry>, after: Seq<TurnEntry>, steps: Seq<Step>) -> bool {
    &&& before.len() <= after.len()
    &&& after.take(before.len() as int) == before
    &&& exists|idx: Seq<int>|
        picks_in_order(idx, before, after, steps) && picked_prompts_answered(runner, idx, before, after, steps)
}

pub open spec fn picks_in_order(idx: Seq<int>, before: Seq<TurnEntry>, after: Seq<TurnEntry>, steps: Seq<Step>) -> bool {
    &&& idx.len() == after.len() - before.len()
    &&& forall|a: int, b: int| 0 <= a < b < idx.len() ==> #[trigger] idx[a] < #[trigger] idx[b]
    &&& forall|j: int|
        0 <= j < idx.len() ==> 0 <= #[trigger] idx[j] < steps.len() && after[before.len() + j].step_id@
            == steps[idx[j]].id.0@
}

// ── The dispatch loop ───────────────────────────────────────────────────────

fn opt_str(o: &Option<String>) -> (r: Option<&str>)
    ensures
        match (o, r) {
            (Some(a), Some(b)) => a@ == b@,
            (None, None) => true,
            _ => false,
        },
{
    match o {
        Some(s) => Some(s.as_str()),
        None => None,
    }
}

/// The invocation prompt of a child run: the resolved override, else the
/// latest response, else this run's invocation prompt.
fn child_invocation_prompt(prompt_override: &Option<String>, session: &Session, step_id: &str) -> (r: Result<String, AilError>)
    ensures
        match prompt_override {
            Some(t) => match render_from(*session, t@, 0) {
                Rendered::Text(x) => r matches Ok(o) && o@ == x,
                Rendered::Unresolved(v) => r matches Err(e) && e.kind() == ErrorKind::TemplateUnresolved
                    && e.detail_view() == unresolved_message(v),
            },
            None => r matches Ok(o) && o@ == match last_response_of(session.turn_log@) {
                Some(x) => x,
                None => session.invocation_prompt@,
            },
        },
{
    match prompt_override {
        Some(t) => match resolve(t.as_str(), session) {
            Ok(x) => Ok(x),
            Err(e) => Err(e.with_step_context(session.run_id.as_str(), step_id)),
        },
        None => match session.turn_log.last_response() {
            Some(r) => Ok(r.clone()),
            None => Ok(session.invocation_prompt.clone()),
        },
    }
}

/// The latest response of a finished child run, or nothing.
fn child_response(child: &Session) -> (r: String)
    ensures
        r@ == match last_response_of(child.turn_log@) {
            Some(x) => x,
            None => Seq::<char>::empty(),
        },
{
    match child.turn_log.last_response() {
        Some(r) => r.clone(),
        None => String::new(),
    }
}

/// The error for going deeper than the sub-pipeline nesting limit.
/// The error detail of a step that would nest sub-pipelines too deeply.
pub open spec fn depth_message(step_id: Seq<char>) -> Seq<char> {
    "Step '"@ + step_id + "' would exceed the maximum sub-pipeline nesting depth of 16"@
}

fn depth_error(run_id: &str, step_id: &str) -> (e: AilError)
    ensures
        e.kind() == ErrorKind::PipelineAborted,
        e.detail_view() == depth_message(step_id@),
{
    step_error(
        true,
        step_text(step_id, "' would exceed the maximum sub-pipeline nesting depth of 16"),
        run_id,
        step_id,
    )
}

/// Run a context shell step.
fn execute_shell<O: StepObserver, E: StepEffects>(cmd: &str, step_id: &str, observer: &mut O, effects: &mut E) -> (r: Result<TurnEntry, AilError>)
    ensures
        r matches Ok(e) ==> e.step_id@ == step_id@ && e.prompt@ == cmd@ && e.response is None && e.stdout is Some
            && e.stderr is Some && e.exit_code is Some,
{
    match effects.run_shell(step_id, cmd) {
        Ok((stdout, stderr, code)) => {
            observer.on_non_prompt_completed(step_id);
            Ok(TurnEntry::from_context(String::from_str(step_id), String::from_str(cmd), stdout, stderr, code))
        },
        Err(e) => {
            observer.on_step_failed(step_id, e.detail());
            Err(e)
        },
    }
}

/// Load a pipeline file and run it as a child of this run; its latest
/// response becomes the calling step's entry.
fn execute_sub_pipeline<R: Runner, E: StepEffects>(
    root: &Pipeline,
    path_template: &str,
    prompt_override: &Option<String>,
    step_id: &str,
    session: &mut Session,
    runner: &R,
    effects: &mut E,
    depth: usize,
) -> (r: Result<TurnEntry, AilError>)
    requires
        depth <= MAX_SUB_PIPELINE_DEPTH,
    ensures
        r matches Ok(e) ==> e.step_id@ == step_id@,
        final(session).turn_log@ == old(session).turn_log@,
        final(session).run_id == old(session).run_id,
        final(session).pipeline == old(session).pipeline,
        old(session).reload_count <= final(session).reload_count,
        within_reload_cap(old(session).reload_count, final(session).reload_count),
        depth >= MAX_SUB_PIPELINE_DEPTH ==> (r matches Err(e) && e.kind() == ErrorKind::PipelineAborted
            && e.detail_view() == depth_message(step_id@)),
        depth < MAX_SUB_PIPELINE_DEPTH ==> match render_from(*old(session), path_template@, 0) {
            Rendered::Unresolved(_) => r matches Err(e) && e.kind() == ErrorKind::TemplateUnresolved,
            Rendered::Text(x) => r matches Ok(e) ==> e.prompt@ == x && e.response is Some,
        },
    decreases MAX_SUB_PIPELINE_DEPTH - depth, 0int, vstd::pervasive::arbitrary::<Step>(), 0int,
{
    if depth >= MAX_SUB_PIPELINE_DEPTH {
        return Err(depth_error(session.run_id.as_str(), step_id));
    }
    let resolved_path = match resolve(path_template, session) {
        Ok(p) => p,
        Err(e) => {
            return Err(e.with_step_context(session.run_id.as_str(), step_id));
        },
    };
    let rp = to_chars(resolved_path.as_str());
    let dot = to_chars("./");
    let dotdot = to_chars("../");
    let base_dir = pipeline_base_dir(root);
    let path = if starts_with_exec(&rp, &dot) || starts_with_exec(&rp, &dotdot) {
        match &base_dir {
            Some(b) => crate::config::inheritance::join_path(b.as_str(), resolved_path.as_str()),
            None => resolved_path.clone(),
        }
    } else {
        resolved_path.clone()
    };
    let sub = match effects.load_pipeline(step_id, path.as_str()) {
        Ok(p) => p,
        Err(e) => {
            return Err(e.with_step_context(session.run_id.as_str(), step_id));
        },
    };
    let invocation_prompt = match child_invocation_prompt(prompt_override, session, step_id) {
        Ok(p) => p,
        Err(e) => {
            return Err(e);
        },
    };
    let mut child = Session::new(sub, invocation_prompt);
    let mut headless = NullObserver;
    match execute_core(&mut child, runner, &mut headless, effects, depth + 1) {
        Ok(_) => {},
        Err(e) => {
            return Err(e);
        },
    }
    let mut entry = TurnEntry::with_response(String::from_str(step_id), resolved_path, Some(child_response(&child)));
    entry.runner_session_id = last_runner_session_id(&child.turn_log);
    Ok(entry)
}

/// `name` is one of the named pipelines whose runs contain the run `s`.
pub open spec fn on_named_chain(s: Session, name: Seq<char>) -> bool {
    exists|k: int| 0 <= k < s.named_chain@.len() && (#[trigger] s.named_chain@[k])@ == name
}

/// Run a named pipeline of the root pipeline as a child of this run; one
/// already on the chain of named pipelines that contain this run refers to
/// itself, directly or through others.
fn execute_named<R: Runner, E: StepEffects>(
    root: &Pipeline,
    name: &str,
    prompt_override: &Option<String>,
    step_id: &str,
    session: &mut Session,
    runner: &R,
    effects: &mut E,
    depth: usize,
) -> (r: Result<TurnEntry, AilError>)
    requires
        depth <= MAX_SUB_PIPELINE_DEPTH,
    ensures
        r matches Ok(e) ==> e.step_id@ == step_id@,
        final(session).turn_log@ == old(session).turn_log@,
        final(session).run_id == old(session).run_id,
        final(session).pipeline == old(session).pipeline,
        old(session).reload_count <= final(session).reload_count,
        within_reload_cap(old(session).reload_count, final(session).reload_count),
        depth >= MAX_SUB_PIPELINE_DEPTH ==> (r matches Err(e) && e.kind() == ErrorKind::PipelineAborted
            && e.detail_view() == depth_message(step_id@)),
        depth < MAX_SUB_PIPELINE_DEPTH && on_named_chain(*old(session), name@) ==> (r matches Err(e) && e.kind()
            == ErrorKind::PipelineCircularReference && e.detail_view() == "Circular reference detected: named pipeline '"@
            + name@ + "' references itself (directly or transitively)"@),
        !on_named_chain(*old(session), name@) && (forall|j: int|
            0 <= j < root.named_pipelines@.len() ==> (#[trigger] root.named_pipelines@[j]).0@ != name@) ==> (r matches Err(
            e,
        ) && e.kind() == ErrorKind::PipelineAborted),
        r matches Ok(e) ==> e.prompt@ == "named:"@ + name@ && e.response is Some,
        depth < MAX_SUB_PIPELINE_DEPTH && prompt_override is None && !on_named_chain(*old(session), name@) && (exists|j: int|
            0 <= j < root.named_pipelines@.len() && (#[trigger] root.named_pipelines@[j]).0@ == name@) && (forall|j: int|
            0 <= j < root.named_pipelines@.len() && (#[trigger] root.named_pipelines@[j]).0@ == name@
                ==> root.named_pipelines@[j].1@.len() == 0) ==> r is Ok,
    decreases MAX_SUB_PIPELINE_DEPTH - depth, 0int, vstd::pervasive::arbitrary::<Step>(), 0int,
{
    if depth >= MAX_SUB_PIPELINE_DEPTH {
        return Err(depth_error(session.run_id.as_str(), step_id));
    }
    let mut c: usize = 0;
    while c < session.named_chain.len()
        invariant
            c <= session.named_chain.len(),
            depth < MAX_SUB_PIPELINE_DEPTH,
            forall|k: int| 0 <= k < c ==> (#[trigger] session.named_chain@[k])@ != name@,
        decreases session.named_chain.len() - c,
    {
        if str_eq(session.named_chain[c].as_str(), name) {
            let mut d = String::from_str("Circular reference detected: named pipeline '");
            d.append(name);
            d.append("' references itself (directly or transitively)");
            let ctx = Some(ErrorContext::for_step(session.run_id.as_str(), step_id));
            return Err(AilError::PipelineCircularReference { detail: d, context: ctx });
        }
        c += 1;
    }
    let mut found: Option<usize> = None;
    let mut k: usize = 0;
    while k < root.named_pipelines.len() && found.is_none()
        invariant
            k <= root.named_pipelines.len(),
            found matches Some(j) ==> j < root.named_pipelines.len() && root.named_pipelines@[j as int].0@ == name@,
            found is None ==> forall|j: int| 0 <= j < k ==> (#[trigger] root.named_pipelines@[j]).0@ != name@,
        decreases root.named_pipelines.len() - k,
    {
        if str_eq(root.named_pipelines[k].0.as_str(), name) {
            found = Some(k);
        }
        k += 1;
    }
    let j = match found {
        Some(j) => j,
        None => {
            let mut d = step_text(step_id, "' references named pipeline '");
            d.append(name);
            d.append("' which is not defined in the pipelines: section");
            return Err(step_error(true, d, session.run_id.as_str(), step_id));
        },
    };
    let invocation_prompt = match child_invocation_prompt(prompt_override, session, step_id) {
        Ok(p) => p,
        Err(e) => {
            return Err(e);
        },
    };
    let mut child = Session::new(empty_pipeline(), invocation_prompt);
    child.named_chain = session.named_chain.clone();
    child.named_chain.push(String::from_str(name));
    let mut headless = NullObserver;
    match run_steps(root, &root.named_pipelines[j].1, 0, &mut child, runner, &mut headless, effects, depth + 1) {
        Ok(_) => {},
        Err(e) => {
            return Err(e);
        },
    }
    let mut prompt = String::from_str("named:");
    proof {
        reveal_strlit("named:");
    }
    prompt.append(name);
    let mut entry = TurnEntry::with_response(String::from_str(step_id), prompt, Some(child_response(&child)));
    entry.runner_session_id = last_runner_session_id(&child.turn_log);
    Ok(entry)
}

/// Run the steps of a chain (`before:` or `then:`). Their `on_result`
/// actions stay local to the chain.
fn execute_chain_steps<R: Runner, O: StepObserver, E: StepEffects>(
    root: &Pipeline,
    parent: &Step,
    after: bool,
    session: &mut Session,
    runner: &R,
    observer: &mut O,
    effects: &mut E,
    depth: usize,
) -> (r: Result<(), AilError>)
    requires
        depth <= MAX_SUB_PIPELINE_DEPTH,
    ensures
        final(session).run_id == old(session).run_id,
        final(session).pipeline == old(session).pipeline,
        old(session).reload_count <= final(session).reload_count,
        within_reload_cap(old(session).reload_count, final(session).reload_count),
        (if after { parent.then_steps@ } else { parent.before@ }).len() == 0 ==> (r is Ok
            && *final(session) == *old(session)),
        all_plain(chain_steps(*parent, after)) && r is Ok ==> logs_each_step(
            old(session).turn_log@,
            final(session).turn_log@,
            chain_steps(*parent, after),
        ),
    decreases MAX_SUB_PIPELINE_DEPTH - depth, 1int, *parent, 0int,
{
    let chain = if after {
        &parent.then_steps
    } else {
        &parent.before
    };
    let mut k: usize = 0;
    while k < chain.len()
        invariant
            k <= chain.len(),
            *chain == (if after { parent.then_steps } else { parent.before }),
            chain.len() == 0 ==> *session == *old(session),
            all_plain(chain@) ==> {
                &&& session.turn_log@.len() == old(session).turn_log@.len() + k
                &&& session.turn_log@.take(old(session).turn_log@.len() as int) == old(session).turn_log@
                &&& forall|j: int|
                    0 <= j < k ==> session.turn_log@[old(session).turn_log@.len() + j].step_id@ == (
                    #[trigger] chain@[j]).id.0@
            },
            depth <= MAX_SUB_PIPELINE_DEPTH,
            session.run_id == old(session).run_id,
            old(session).reload_count <= session.reload_count,
            within_reload_cap(old(session).reload_count, session.reload_count),
            session.pipeline == old(session).pipeline,
        decreases chain.len() - k,
    {
        let st = &chain[k];
        proof {
            if after {
                assert(decreases_to!(*parent => parent.then_steps));
                assert(decreases_to!(parent.then_steps => parent.then_steps@));
                assert(decreases_to!(parent.then_steps@ => parent.then_steps@[k as int]));
            } else {
                assert(decreases_to!(*parent => parent.before));
                assert(decreases_to!(parent.before => parent.before@));
                assert(decreases_to!(parent.before@ => parent.before@[k as int]));
            }
        }
        let ghost before = session.turn_log@;
        match execute_single_step(root, st, st.id.0.as_str(), session, runner, observer, effects, depth, chain.len(), k) {
            Ok(_) => {},
            Err(e) => {
                return Err(e);
            },
        }
        proof {
            if all_plain(chain@) {
                assert(plain_step(chain@[k as int]));
                let n0 = old(session).turn_log@.len();
                assert(session.turn_log@.take(n0 as int) =~= before.take(n0 as int));
                assert forall|j: int| 0 <= j < k + 1 implies session.turn_log@[n0 + j].step_id@ == (
                #[trigger] chain@[j]).id.0@ by {
                    if j < k {
                        assert(session.turn_log@[n0 + j] == before[n0 + j]);
                    }
                }
            }
        }
        k += 1;
    }
    proof {
        if all_plain(chain@) {
            assert forall|j: int| 0 <= j < chain@.len() implies session.turn_log@[old(session).turn_log@.len() + j].step_id@
                == (#[trigger] chain@[j]).id.0@ by {}
        }
    }
    Ok(())
}

/// The body's work, producing the step's entry.
fn dispatch_body<R: Runner, O: StepObserver, E: StepEffects>(
    root: &Pipeline,
    step: &Step,
    step_id: &str,
    session: &mut Session,
    runner: &R,
    observer: &mut O,
    effects: &mut E,
    depth: usize,
    total_steps: usize,
    step_index: usize,
) -> (r: Result<TurnEntry, AilError>)
    requires
        depth <= MAX_SUB_PIPELINE_DEPTH,
    ensures
        r matches Ok(e) ==> e.step_id@ == step_id@,
        final(session).run_id == old(session).run_id,
        final(session).pipeline == old(session).pipeline,
        old(session).reload_count <= final(session).reload_count,
        within_reload_cap(old(session).reload_count, final(session).reload_count),
        (step.body is Prompt || step.body is Context) ==> final(session).turn_log@ == old(session).turn_log@
            && final(session).reload_count == old(session).reload_count,
        unresolved_prompt(*step, *old(session)) ==> (r matches Err(e) && e.kind() == ErrorKind::TemplateUnresolved),
        step.body is Prompt ==> (r matches Ok(e) ==> answered_entry(*runner, e)),
    decreases MAX_SUB_PIPELINE_DEPTH - depth, 1int, *step, 2int,
{
    match &step.body {
        StepBody::Prompt(t) => execute_prompt(
            root,
            t.as_str(),
            step,
            step_id,
            session,
            runner,
            observer,
            effects,
            step_index,
            total_steps,
        ),
        StepBody::Context(ContextSource::Shell(cmd)) => execute_shell(cmd.as_str(), step_id, observer, effects),
        StepBody::SubPipeline { path, prompt } => {
            let r = execute_sub_pipeline(root, path.as_str(), prompt, step_id, session, runner, effects, depth);
            match &r {
                Ok(_) => observer.on_non_prompt_completed(step_id),
                Err(e) => observer.on_step_failed(step_id, e.detail()),
            }
            r
        },
        StepBody::NamedPipeline { name, prompt } => {
            let r = execute_named(root, name.as_str(), prompt, step_id, session, runner, effects, depth);
            match &r {
                Ok(_) => observer.on_non_prompt_completed(step_id),
                Err(e) => observer.on_step_failed(step_id, e.detail()),
            }
            r
        },
        StepBody::Skill { name } => {
            let mut d = String::from_str("Skill '");
            d.append(name.as_str());
            d.append("' is not registered");
            observer.on_step_failed(step_id, d.as_str());
            Err(step_error(false, d, session.run_id.as_str(), step_id))
        },
        StepBody::DoWhile { .. } => {
            let r = execute_do_while(
                root,
                step,
                step_id,
                session,
                runner,
                observer,
                effects,
                depth,
            );
            match &r {
                Ok(_) => observer.on_non_prompt_completed(step_id),
                Err(e) => observer.on_step_failed(step_id, e.detail()),
            }
            r
        },
        StepBody::ForEach { .. } => {
            let r = execute_for_each(
                root,
                step,
                step_id,
                session,
                runner,
                observer,
                effects,
                depth,
            );
            match &r {
                Ok(_) => observer.on_non_prompt_completed(step_id),
                Err(e) => observer.on_step_failed(step_id, e.detail()),
            }
            r
        },
        StepBody::Action(_) => {
            let d = step_text(step_id, "' is an action step and has no body to run");
            Err(step_error(true, d, session.run_id.as_str(), step_id))
        },
    }
}

/// The text of `n` in decimal.
fn decimal_string(n: u64) -> (s: String)
    ensures
        s@ == crate::text::decimal(n as nat),
{
    let mut s = String::new();
    crate::text::push_decimal(&mut s, n);
    assert(s@ =~= crate::text::decimal(n as nat));
    s
}

/// `action: reload_self`: load the pipeline again from its file, keep it
/// for the run loop to switch to after this step, and log the reload. The
/// reloaded pipeline must still hold this step, where the run resumes; at
/// most `MAX_RELOADS_PER_RUN` reloads happen in a run.
fn handle_reload_self<E: StepEffects>(root: &Pipeline, step_id: &str, session: &mut Session, effects: &mut E) -> (r: Result<(), AilError>)
    ensures
        final(session).run_id == old(session).run_id,
        final(session).pipeline == old(session).pipeline,
        r is Ok ==> {
            &&& final(session).reload_count == old(session).reload_count + 1
            &&& final(session).reload_count <= MAX_RELOADS_PER_RUN
            &&& final(session).pending_reload matches Some(p) && exists|k: int|
                0 <= k < p.steps@.len() && (#[trigger] p.steps@[k]).id.0@ == step_id@
            &&& final(session).turn_log@.len() == old(session).turn_log@.len() + 1
            &&& final(session).turn_log@.drop_last() == old(session).turn_log@
            &&& final(session).turn_log@.last().step_id@ == step_id@
        },
        r is Err ==> final(session).reload_count == old(session).reload_count
            && final(session).turn_log@ == old(session).turn_log@,
        root.source is None || old(session).reload_count >= MAX_RELOADS_PER_RUN ==> (r matches Err(e) && e.kind()
            == ErrorKind::PipelineAborted),
        root.source is None ==> (r matches Err(e) && e.detail_view() == "Step '"@ + step_id@
            + "' declares action: reload_self but this run has no pipeline source on disk (passthrough mode); reload is only supported for pipelines loaded from a file"@),
        root.source is Some && old(session).reload_count >= MAX_RELOADS_PER_RUN ==> (r matches Err(e) && e.detail_view()
            == "Step '"@ + step_id@ + "' exceeded the per-run reload cap (16); the pipeline has already hot-reloaded "@
            + decimal(old(session).reload_count as nat) + " times — aborting to prevent an infinite self-rewrite loop"@),
        r is Ok ==> final(session).turn_log@.last().prompt@ == "reload_self"@,
        r is Ok ==> (final(session).pending_reload matches Some(p) && (final(session).turn_log@.last().response matches Some(
            t,
        ) && t@ == "reloaded pipeline ("@ + decimal(root.steps@.len()) + " -> "@ + decimal(p.steps@.len())
            + " steps) from "@ + root.source->0@)),
{
    proof {
        reveal_strlit("reload_self");
    }
    let source = match &root.source {
        Some(src) => src.clone(),
        None => {
            let d = step_text(step_id, "' declares action: reload_self but this run has no pipeline source on disk (passthrough mode); reload is only supported for pipelines loaded from a file");
            return Err(step_error(true, d, session.run_id.as_str(), step_id));
        },
    };
    if session.reload_count >= MAX_RELOADS_PER_RUN {
        let mut d = step_text(step_id, "' exceeded the per-run reload cap (16); the pipeline has already hot-reloaded ");
        crate::text::push_decimal(&mut d, session.reload_count as u64);
        d.append(" times — aborting to prevent an infinite self-rewrite loop");
        return Err(step_error(true, d, session.run_id.as_str(), step_id));
    }
    let before_len = root.steps.len();
    let new_pipeline = match effects.load_pipeline(step_id, source.as_str()) {
        Ok(p) => p,
        Err(e) => {
            let mut d = step_text(step_id, "' failed to reload pipeline from ");
            d.append(source.as_str());
            d.append(": ");
            d.append(e.detail());
            return Err(step_error(true, d, session.run_id.as_str(), step_id));
        },
    };
    let mut found = false;
    let mut k: usize = 0;
    while k < new_pipeline.steps.len() && !found
        invariant
            k <= new_pipeline.steps@.len(),
            found ==> exists|j: int| 0 <= j < new_pipeline.steps@.len() && (#[trigger] new_pipeline.steps@[j]).id.0@ == step_id@,
        decreases new_pipeline.steps@.len() - k,
    {
        if str_eq(new_pipeline.steps[k].id.0.as_str(), step_id) {
            found = true;
        }
        k += 1;
    }
    if !found {
        let mut d = step_text(step_id, "' reloaded pipeline from ");
        d.append(source.as_str());
        d.append(" but the reloaded step list no longer contains a step with id '");
        d.append(step_id);
        d.append("'; the executor cannot determine where to resume");
        return Err(step_error(true, d, session.run_id.as_str(), step_id));
    }
    let after_len = new_pipeline.steps.len();
    session.pending_reload = Some(new_pipeline);
    session.reload_count = session.reload_count + 1;
    let mut response = String::from_str("reloaded pipeline (");
    response.append(decimal_string(before_len as u64).as_str());
    response.append(" -> ");
    response.append(decimal_string(after_len as u64).as_str());
    response.append(" steps) from ");
    response.append(source.as_str());
    session.turn_log.append(TurnEntry::with_response(String::from_str(step_id), String::from_str("reload_self"), Some(response)));
    proof {
        assert(session.turn_log@.drop_last() =~= old(session).turn_log@);
    }
    Ok(())
}

/// Dispatch the body of `step` under the error policy `on_error`, holding
/// each entry to `output_schema`. `retry { max_retries }` dispatches again
/// after a failure, at most `max_retries` more times, and returns the last
/// failure; `continue` gives no entry after a failure; `abort_pipeline`
/// returns the first failure. The second result is how many times the body
/// was dispatched.
fn dispatch_with_policy<R: Runner, O: StepObserver, E: StepEffects>(
    root: &Pipeline,
    step: &Step,
    step_id: &str,
    session: &mut Session,
    runner: &R,
    observer: &mut O,
    effects: &mut E,
    depth: usize,
    total_steps: usize,
    step_index: usize,
    on_error: OnError,
) -> (r: (Result<Option<TurnEntry>, AilError>, Ghost<nat>))
    requires
        depth <= MAX_SUB_PIPELINE_DEPTH,
    ensures
        r.0 matches Ok(Some(e)) ==> e.step_id@ == step_id@ && (step.output_schema is Some ==> json_text_parses(
            response_text(e),
        )),
        r.0 matches Ok(None) ==> on_error == OnError::Continue,
        step.body is Prompt ==> (r.0 matches Ok(Some(e)) ==> answered_entry(*runner, e)),
        on_error == OnError::Continue ==> r.0 is Ok,
        final(session).run_id == old(session).run_id,
        final(session).pipeline == old(session).pipeline,
        old(session).reload_count <= final(session).reload_count,
        within_reload_cap(old(session).reload_count, final(session).reload_count),
        (step.body is Prompt || step.body is Context) ==> final(session).turn_log@ == old(session).turn_log@
            && final(session).reload_count == old(session).reload_count,
        on_error == OnError::AbortPipeline && unresolved_prompt(*step, *old(session)) ==> (r.0 matches Err(e)
            && e.kind() == ErrorKind::TemplateUnresolved),
        1 <= r.1@,
        !(on_error is Retry) ==> r.1@ == 1,
        on_error is Retry ==> r.1@ <= on_error->max_retries + 1,
        on_error is Retry && r.0 is Err ==> r.1@ == on_error->max_retries + 1,
    decreases MAX_SUB_PIPELINE_DEPTH - depth, 1int, *step, 3int,
{
    let max_attempts: u64 = match on_error {
        OnError::Retry { max_retries } => max_retries as u64 + 1,
        _ => 1,
    };
    let mut entry_opt: Option<TurnEntry> = None;
    let mut attempt: u64 = 1;
    let mut done = false;
    while !done && attempt <= max_attempts
        invariant
            depth <= MAX_SUB_PIPELINE_DEPTH,
            max_attempts as int == match on_error {
                OnError::Retry { max_retries } => max_retries as int + 1,
                _ => 1int,
            },
            1 <= attempt <= max_attempts,
            entry_opt matches Some(e) ==> e.step_id@ == step_id@ && (step.output_schema is Some ==> json_text_parses(
                response_text(e),
            )),
            on_error != OnError::Continue && done ==> entry_opt is Some,
            step.body is Prompt ==> (entry_opt matches Some(e) ==> answered_entry(*runner, e)),
            on_error == OnError::AbortPipeline && !done ==> *session == *old(session),
            (step.body is Prompt || step.body is Context) ==> session.turn_log@ == old(session).turn_log@
                && session.reload_count == old(session).reload_count,
            on_error == OnError::AbortPipeline && unresolved_prompt(*step, *old(session)) ==> !done,
            session.run_id == old(session).run_id,
            old(session).reload_count <= session.reload_count,
            within_reload_cap(old(session).reload_count, session.reload_count),
            session.pipeline == old(session).pipeline,
        decreases (if done { 0int } else { 1int }), max_attempts + 1 - attempt,
    {
        match dispatch_body(root, step, step_id, session, runner, observer, effects, depth, total_steps, step_index) {
            Ok(entry) => {
                let schema_failure = match &step.output_schema {
                    Some(schema) => match validate_output_schema(&entry, schema.as_str(), step_id) {
                        Ok(()) => None,
                        Err(e) => Some(e),
                    },
                    None => None,
                };
                match schema_failure {
                    None => {
                        entry_opt = Some(entry);
                        done = true;
                    },
                    Some(e) => match on_error {
                        OnError::Continue => {
                            observer.on_step_error_continued(step_id, e.detail(), e.error_type());
                            done = true;
                        },
                        OnError::Retry { max_retries } => {
                            if attempt < max_attempts {
                                observer.on_step_retrying(step_id, e.detail(), attempt, max_retries);
                                attempt += 1;
                            } else {
                                observer.on_step_failed(step_id, e.detail());
                                return (Err(e), Ghost(attempt as nat));
                            }
                        },
                        OnError::AbortPipeline => {
                            observer.on_step_failed(step_id, e.detail());
                            return (Err(e), Ghost(attempt as nat));
                        },
                    },
                }
            },
            Err(err) => match on_error {
                OnError::Continue => {
                    observer.on_step_error_continued(step_id, err.detail(), err.error_type());
                    done = true;
                },
                OnError::Retry { max_retries } => {
                    if attempt < max_attempts {
                        observer.on_step_retrying(step_id, err.detail(), attempt, max_retries);
                        attempt += 1;
                    } else {
                        observer.on_pipeline_error(&err);
                        return (Err(err), Ghost(attempt as nat));
                    }
                },
                OnError::AbortPipeline => {
                    return (Err(err), Ghost(attempt as nat));
                },
            },
        }
    }
    (Ok(entry_opt), Ghost(attempt as nat))
}

/// Run one step with its chains, error policy and `on_result`: the action
/// of the `on_result` branch that fired, if any.
fn execute_single_step<R: Runner, O: StepObserver, E: StepEffects>(
    root: &Pipeline,
    step: &Step,
    step_id: &str,
    session: &mut Session,
    runner: &R,
    observer: &mut O,
    effects: &mut E,
    depth: usize,
    total_steps: usize,
    step_index: usize,
) -> (r: Result<Option<ResultAction>, AilError>)
    requires
        depth <= MAX_SUB_PIPELINE_DEPTH,
    ensures
        final(session).run_id == old(session).run_id,
        final(session).pipeline == old(session).pipeline,
        old(session).reload_count <= final(session).reload_count,
        within_reload_cap(old(session).reload_count, final(session).reload_count),
        r matches Ok(Some(a)) ==> (step.on_result matches Some(bs) && exists|j: int|
            0 <= j < bs@.len() && (#[trigger] bs@[j]).action.view_value() == a.view_value()),
        plain_step(*step) ==> match r {
            Ok(m) => m is None && exists|e: TurnEntry|
                #![trigger old(session).turn_log@.push(e)]
                e.step_id@ == step_id@ && final(session).turn_log@ == old(session).turn_log@.push(e)
                    && (step.output_schema is Some ==> json_text_parses(response_text(e)))
                    && (step.body is Prompt ==> answered_entry(*runner, e)),
            Err(_) => final(session).turn_log@ == old(session).turn_log@,
        },
        plain_step(*step) ==> final(session).reload_count == old(session).reload_count,
        step.on_error == Some(OnError::Continue) && lone_step(*step) ==> (r matches Ok(None)),
        lone_step(*step) && (step.body is Prompt || step.body is Context) ==> match r {
            Ok(_) => final(session).turn_log@ == old(session).turn_log@ || exists|e: TurnEntry|
                e.step_id@ == step_id@ && final(session).turn_log@ == old(session).turn_log@.push(e),
            Err(_) => final(session).turn_log@ == old(session).turn_log@,
        },
        lone_step(*step) && (step.body is Prompt || step.body is Context) && step.on_error != Some(OnError::Continue)
            ==> (r is Ok ==> exists|e: TurnEntry|
            e.step_id@ == step_id@ && final(session).turn_log@ == old(session).turn_log@.push(e)),
        (step.body matches StepBody::Action(ActionKind::PauseForHuman)) && step.before@.len() == 0 ==> (r matches Ok(None)
            && *final(session) == *old(session)),
        plain_step(*step) && step.input_schema is None && unresolved_prompt(*step, *old(session)) ==> (r matches Err(e)
            && e.kind() == ErrorKind::TemplateUnresolved && final(session).turn_log@ == old(session).turn_log@),
    decreases MAX_SUB_PIPELINE_DEPTH - depth, 1int, *step, 4int,
{
    match execute_chain_steps(root, step, false, session, runner, observer, effects, depth) {
        Ok(()) => {},
        Err(e) => {
            return Err(e);
        },
    }
    match &step.body {
        StepBody::Action(ActionKind::PauseForHuman) => {
            observer.handle_pause_for_human(step_id, opt_str(&step.message));
            return Ok(None);
        },
        StepBody::Action(ActionKind::ReloadSelf) => {
            return match handle_reload_self(root, step_id, session, effects) {
                Ok(()) => Ok(None),
                Err(e) => Err(e),
            };
        },
        StepBody::Action(ActionKind::Join { .. }) => {
            let entry = TurnEntry::with_response(
                String::from_str(step_id),
                String::from_str("join (no async deps)"),
                Some(String::new()),
            );
            session.turn_log.append(entry);
            return match execute_chain_steps(root, step, true, session, runner, observer, effects, depth) {
                Ok(()) => Ok(None),
                Err(e) => Err(e),
            };
        },
        StepBody::Action(ActionKind::ModifyOutput { headless_behavior, default_value }) => {
            let last: Option<String> = match session.turn_log.last_response() {
                Some(x) => Some(x.clone()),
                None => None,
            };
            let modified = match observer.handle_modify_output(
                step_id,
                opt_str(&step.message),
                opt_str(&last),
                *headless_behavior,
                opt_str(default_value),
            ) {
                Ok(m) => m,
                Err(e) => {
                    return Err(e);
                },
            };
            if let Some(text) = modified {
                let msg = match &step.message {
                    Some(m) => m.clone(),
                    None => String::from_str("modify_output"),
                };
                session.turn_log.append(TurnEntry::with_response(String::from_str(step_id), msg, Some(text)));
            }
            return Ok(None);
        },
        StepBody::Prompt(_) => {},
        StepBody::Skill { .. } => {},
        _ => {
            observer.on_non_prompt_started(step_id, step_index, total_steps);
        },
    }
    let on_error = match step.on_error {
        Some(o) => o,
        None => OnError::AbortPipeline,
    };
    let validated_input: Option<String> = match &step.input_schema {
        None => None,
        Some(schema) => match validate_input_schema(session, schema.as_str(), step_id) {
            Ok(doc) => Some(doc),
            Err(e) => {
                if on_error == OnError::Continue {
                    observer.on_step_error_continued(step_id, e.detail(), e.error_type());
                    return match execute_chain_steps(root, step, true, session, runner, observer, effects, depth) {
                        Ok(()) => Ok(None),
                        Err(e2) => Err(e2),
                    };
                }
                observer.on_step_failed(step_id, e.detail());
                return Err(e);
            },
        },
    };
    let (outcome, _) = dispatch_with_policy(
        root,
        step,
        step_id,
        session,
        runner,
        observer,
        effects,
        depth,
        total_steps,
        step_index,
        on_error,
    );
    let entry = match outcome {
        Ok(Some(e)) => e,
        Ok(None) => {
            return Ok(None);
        },
        Err(e) => {
            return Err(e);
        },
    };
    let ghost logged = session.turn_log@;
    let ghost the_entry = entry;
    session.turn_log.append(entry);
    let matched = match &step.on_result {
        Some(branches) => {
            let entries = session.turn_log.entries();
            let last = &entries[entries.len() - 1];
            let input: Option<&str> = match &validated_input {
                Some(v) => Some(v.as_str()),
                None => None,
            };
            match evaluate_on_result(branches, session, step_id, last, input) {
                Ok(a) => a,
                Err(e) => {
                    return Err(e);
                },
            }
        },
        None => None,
    };
    let ghost appended = session.turn_log@;
    match execute_chain_steps(root, step, true, session, runner, observer, effects, depth) {
        Ok(()) => {},
        Err(e) => {
            return Err(e);
        },
    }
    proof {
        if plain_step(*step) {
            assert(session.turn_log@ == old(session).turn_log@.push(the_entry));
            assert(the_entry.step_id@ == step_id@ && session.turn_log@ == old(session).turn_log@.push(the_entry)
                && (step.output_schema is Some ==> json_text_parses(response_text(the_entry)))
                && (step.body is Prompt ==> answered_entry(*runner, the_entry)));
        }
    }
    Ok(matched)
}

/// How one pass over a loop body ended.
enum LoopBodyExit {
    Completed,
    /// An inner step's `on_result` fired `break`, or the observer stopped.
    Broken,
    /// The inner step with this (namespaced) id fired `abort_pipeline`.
    Aborted(String),
}

/// No step of `steps` has a condition or an `on_result`: with an observer
/// that runs every step whose condition does not skip it, nothing but an
/// error ends a pass over them early.
pub open spec fn unbreakable(steps: Seq<Step>) -> bool {
    forall|k: int| 0 <= k < steps.len() ==> (#[trigger] steps[k]).condition is None && steps[k].on_result is None
}

/// `inner` is the body of the loop step `loop_step`.
pub open spec fn loop_body_of(loop_step: Step, inner: Vec<Step>) -> bool {
    ||| loop_step.body is DoWhile && inner == loop_step.body->DoWhile_steps
    ||| loop_step.body is ForEach && inner == loop_step.body->ForEach_steps
}

/// Run the inner steps of a loop once, in order, as `<prefix><id>`. Their
/// `on_result` actions act on the loop: `break` ends it, `abort_pipeline`
/// is reported to the caller, which aborts the run.
fn run_loop_body<R: Runner, O: StepObserver, E: StepEffects>(
    root: &Pipeline,
    loop_step: &Step,
    inner_steps: &Vec<Step>,
    prefix: &str,
    session: &mut Session,
    runner: &R,
    observer: &mut O,
    effects: &mut E,
    depth: usize,
) -> (r: Result<LoopBodyExit, AilError>)
    requires
        depth <= MAX_SUB_PIPELINE_DEPTH,
        loop_body_of(*loop_step, *inner_steps),
    ensures
        final(session).run_id == old(session).run_id,
        final(session).pipeline == old(session).pipeline,
        old(session).reload_count <= final(session).reload_count,
        within_reload_cap(old(session).reload_count, final(session).reload_count),
        inner_steps@.len() == 0 ==> (r matches Ok(LoopBodyExit::Completed) && *final(session) == *old(session)),
        unbreakable(inner_steps@) && O::runs_unskipped_steps() ==> (r is Ok ==> r matches Ok(LoopBodyExit::Completed)),
        r matches Ok(LoopBodyExit::Aborted(id)) ==> exists|k: int|
            0 <= k < inner_steps@.len() && id@ == prefix@ + (#[trigger] inner_steps@[k]).id.0@,
    decreases MAX_SUB_PIPELINE_DEPTH - depth, 1int, *loop_step, 0int,
{
    let mut k: usize = 0;
    while k < inner_steps.len()
        invariant
            inner_steps.len() == 0 ==> *session == *old(session),
            depth <= MAX_SUB_PIPELINE_DEPTH,
            loop_body_of(*loop_step, *inner_steps),
            k <= inner_steps.len(),
            session.run_id == old(session).run_id,
            old(session).reload_count <= session.reload_count,
            within_reload_cap(old(session).reload_count, session.reload_count),
            session.pipeline == old(session).pipeline,
        decreases inner_steps.len() - k,
    {
        let inner = &inner_steps[k];
        proof {
            assert(decreases_to!(*loop_step => loop_step.body));
            if loop_step.body is DoWhile {
                assert(decreases_to!(loop_step.body => loop_step.body->DoWhile_steps));
                assert(decreases_to!(loop_step.body->DoWhile_steps => loop_step.body->DoWhile_steps@));
                assert(decreases_to!(loop_step.body->DoWhile_steps@ => loop_step.body->DoWhile_steps@[k as int]));
            } else {
                assert(decreases_to!(loop_step.body => loop_step.body->ForEach_steps));
                assert(decreases_to!(loop_step.body->ForEach_steps => loop_step.body->ForEach_steps@));
                assert(decreases_to!(loop_step.body->ForEach_steps@ => loop_step.body->ForEach_steps@[k as int]));
            }
        }
        let mut ns_id = String::from_str(prefix);
        ns_id.append(inner.id.0.as_str());
        let condition_skip = match &inner.condition {
            Some(c) => match evaluate_condition(c, session, ns_id.as_str()) {
                Ok(b) => !b,
                Err(e) => {
                    return Err(e);
                },
            },
            None => false,
        };
        match observer.before_step(ns_id.as_str(), k, condition_skip) {
            BeforeStepAction::Run => {
                let matched = match execute_single_step(
                    root,
                    inner,
                    ns_id.as_str(),
                    session,
                    runner,
                    observer,
                    effects,
                    depth,
                    inner_steps.len(),
                    k,
                ) {
                    Ok(m) => m,
                    Err(e) => {
                        return Err(e);
                    },
                };
                if let Some(action) = matched {
                    match action {
                        ResultAction::Continue => {},
                        ResultAction::Break => {
                            return Ok(LoopBodyExit::Broken);
                        },
                        ResultAction::AbortPipeline => {
                            assert(ns_id@ == prefix@ + inner_steps@[k as int].id.0@);
                            return Ok(LoopBodyExit::Aborted(ns_id));
                        },
                        ResultAction::PauseForHuman => {
                            observer.on_result_pause(ns_id.as_str(), None);
                        },
                        ResultAction::Pipeline { path, prompt } => {
                            let mut sub_id = ns_id.clone();
                            sub_id.append("__on_result");
                            match execute_sub_pipeline(
                                root,
                                path.as_str(),
                                &prompt,
                                sub_id.as_str(),
                                session,
                                runner,
                                effects,
                                depth,
                            ) {
                                Ok(entry) => session.turn_log.append(entry),
                                Err(e) => {
                                    observer.on_pipeline_error(&e);
                                    return Err(e);
                                },
                            }
                        },
                    }
                }
            },
            BeforeStepAction::Skip => {},
            BeforeStepAction::Stop => {
                return Ok(LoopBodyExit::Broken);
            },
        }
        k += 1;
    }
    Ok(LoopBodyExit::Completed)
}

/// The latest response among the entries whose step id starts with `prefix`.
pub open spec fn latest_response_with_prefix(es: Seq<TurnEntry>, prefix: Seq<char>) -> Option<Seq<char>>
    decreases es.len(),
{
    if es.len() == 0 {
        None
    } else if crate::text::starts_with(es.last().step_id@, prefix) && es.last().response is Some {
        Some(es.last().response->0@)
    } else {
        latest_response_with_prefix(es.drop_last(), prefix)
    }
}

fn latest_inner_response(log: &TurnLog, prefix: &str) -> (r: Option<String>)
    ensures
        opt_view(r) == latest_response_with_prefix(log@, prefix@),
{
    let pc = to_chars(prefix);
    let entries = log.entries();
    let mut response: Option<String> = None;
    let mut i = entries.len();
    assert(entries@.take(i as int) =~= entries@);
    while i > 0 && response.is_none()
        invariant
            i <= entries.len(),
            entries@ == log@,
            pc@ == prefix@,
            response is None ==> latest_response_with_prefix(log@, prefix@) == latest_response_with_prefix(
                entries@.take(i as int),
                prefix@,
            ),
            response is Some ==> opt_view(response) == latest_response_with_prefix(log@, prefix@),
        decreases i,
    {
        let ghost t = entries@.take(i as int);
        assert(t.drop_last() =~= entries@.take(i - 1));
        assert(t.last() == entries@[i - 1]);
        let e = &entries[i - 1];
        let id = to_chars(e.step_id.as_str());
        if starts_with_exec(&id, &pc) {
            if let Some(r) = &e.response {
                response = Some(r.clone());
            }
        }
        i -= 1;
    }
    response
}

/// `e` compares two texts without template variables, and the comparison
/// holds: it holds in every session.
pub open spec fn fixed_condition_holds(e: ConditionExpr) -> bool {
    &&& crate::text::find_from(e.lhs@, "{{"@, 0) is None
    &&& crate::text::find_from(e.rhs@, "{{"@, 0) is None
    &&& crate::executor::helpers::condition_op_holds(e.op, e.lhs@, e.rhs@)
}

/// `e` compares two texts without template variables, and the comparison
/// fails: it fails in every session.
pub open spec fn fixed_condition_fails(e: ConditionExpr) -> bool {
    &&& crate::text::find_from(e.lhs@, "{{"@, 0) is None
    &&& crate::text::find_from(e.rhs@, "{{"@, 0) is None
    &&& !crate::executor::helpers::condition_op_holds(e.op, e.lhs@, e.rhs@)
}

proof fn lemma_fixed_condition_outcome(s: Session, e: ConditionExpr, step_id: Seq<char>)
    requires
        crate::text::find_from(e.lhs@, "{{"@, 0) is None,
        crate::text::find_from(e.rhs@, "{{"@, 0) is None,
    ensures
        crate::executor::condition::expression_outcome(s, e, step_id) == Ok::<bool, Seq<char>>(
            crate::executor::helpers::condition_op_holds(e.op, e.lhs@, e.rhs@),
        ),
{
    assert(e.lhs@.subrange(0, e.lhs@.len() as int) =~= e.lhs@);
    assert(e.rhs@.subrange(0, e.rhs@.len() as int) =~= e.rhs@);
}

/// The abort of a run by an inner step of a loop.
fn loop_abort_error(ns_id: &str, kind: &str, loop_step_id: &str, run_id: &str) -> (e: AilError)
    ensures
        e.kind() == ErrorKind::PipelineAborted,
{
    let mut d = step_text(ns_id, "' on_result fired abort_pipeline inside ");
    d.append(kind);
    d.append(" loop '");
    d.append(loop_step_id);
    d.append("'");
    step_error(true, d, run_id, loop_step_id)
}

/// Run a `do_while` loop: the inner steps in order, then `exit_when`, until
/// it holds or the iterations run out. Inner steps run as `<loop>::<id>`;
/// each iteration starts without the previous iteration's inner entries.
fn execute_do_while<R: Runner, O: StepObserver, E: StepEffects>(
    root: &Pipeline,
    loop_step: &Step,
    loop_step_id: &str,
    session: &mut Session,
    runner: &R,
    observer: &mut O,
    effects: &mut E,
    depth: usize,
) -> (r: Result<TurnEntry, AilError>)
    requires
        depth <= MAX_SUB_PIPELINE_DEPTH,
        loop_step.body is DoWhile,
    ensures
        r matches Ok(e) ==> e.step_id@ == loop_step_id@,
        final(session).run_id == old(session).run_id,
        final(session).pipeline == old(session).pipeline,
        old(session).reload_count <= final(session).reload_count,
        within_reload_cap(old(session).reload_count, final(session).reload_count),
        old(session).loop_depth >= MAX_LOOP_DEPTH || loop_step.body->DoWhile_max_iterations == 0 ==> (r matches Err(e)
            && e.kind() == ErrorKind::PipelineAborted),
        old(session).loop_depth < MAX_LOOP_DEPTH && loop_step.body->DoWhile_max_iterations > 0
            && loop_step.body->DoWhile_steps@.len() == 0 && fixed_condition_holds(loop_step.body->DoWhile_exit_when)
            ==> r is Ok,
        old(session).loop_depth < MAX_LOOP_DEPTH && loop_step.body->DoWhile_max_iterations > 0
            && loop_step.body->DoWhile_steps@.len() == 0 && fixed_condition_fails(loop_step.body->DoWhile_exit_when)
            ==> (r matches Err(e) && e.kind() == ErrorKind::PipelineAborted && e.detail_string()@ == "Step '"@
            + loop_step_id@ + "' exhausted do_while.max_iterations ("@ + decimal(
            loop_step.body->DoWhile_max_iterations as nat,
        ) + ") without exit_when becoming true"@),
        final(session).loop_depth == old(session).loop_depth,
        final(session).do_while_context == old(session).do_while_context,
        O::runs_unskipped_steps() && unbreakable(loop_step.body->DoWhile_steps@) && fixed_condition_fails(
            loop_step.body->DoWhile_exit_when,
        ) ==> r is Err,
        r matches Ok(e) ==> e.prompt@ == "do_while(max_iterations="@ + decimal(
            loop_step.body->DoWhile_max_iterations as nat,
        ) + ")"@ && opt_view(e.response) == latest_response_with_prefix(
            final(session).turn_log@,
            loop_step_id@ + "::"@,
        ),
    decreases MAX_SUB_PIPELINE_DEPTH - depth, 1int, *loop_step, 1int,
{
    let (max_iterations, exit_when, inner_steps) = match &loop_step.body {
        StepBody::DoWhile { max_iterations, exit_when, steps } => (*max_iterations, exit_when, steps),
        _ => {
            return Err(step_error(true, step_text(loop_step_id, "' is not a do_while step"), session.run_id.as_str(), loop_step_id));
        },
    };
    if session.loop_depth >= MAX_LOOP_DEPTH {
        let d = step_text(loop_step_id, "' would exceed the maximum loop nesting depth of 8");
        return Err(step_error(true, d, session.run_id.as_str(), loop_step_id));
    }
    let prev_context = session.do_while_context.take();
    let saved_depth = session.loop_depth;
    session.loop_depth = saved_depth + 1;
    let mut prefix = String::from_str(loop_step_id);
    prefix.append("::");
    proof {
        reveal_strlit("::");
        reveal_strlit("do_while(max_iterations=");
        reveal_strlit(")");
    }
    let mut finished = false;
    let mut iteration: u64 = 0;
    let ghost easy = max_iterations > 0 && inner_steps@.len() == 0 && fixed_condition_holds(*exit_when);
    let ghost exhausts = max_iterations > 0 && inner_steps@.len() == 0 && fixed_condition_fails(*exit_when);
    let ghost never_exits = O::runs_unskipped_steps() && unbreakable(inner_steps@) && fixed_condition_fails(*exit_when);
    while iteration < max_iterations
        invariant
            easy ==> iteration == 0,
            easy == (max_iterations > 0 && inner_steps@.len() == 0 && fixed_condition_holds(*exit_when)),
            exhausts == (max_iterations > 0 && inner_steps@.len() == 0 && fixed_condition_fails(*exit_when)),
            exhausts ==> !finished,
            never_exits == (O::runs_unskipped_steps() && unbreakable(inner_steps@) && fixed_condition_fails(*exit_when)),
            never_exits ==> !finished,
            saved_depth == old(session).loop_depth,
            prev_context == old(session).do_while_context,
            *exit_when == loop_step.body->DoWhile_exit_when,
            depth <= MAX_SUB_PIPELINE_DEPTH,
            loop_step.body is DoWhile,
            *inner_steps == loop_step.body->DoWhile_steps,
            max_iterations == loop_step.body->DoWhile_max_iterations,
            prefix@ == loop_step_id@ + "::"@,
            max_iterations == 0 ==> !finished,
            old(session).loop_depth < MAX_LOOP_DEPTH,
            session.run_id == old(session).run_id,
            old(session).reload_count <= session.reload_count,
            within_reload_cap(old(session).reload_count, session.reload_count),
            session.pipeline == old(session).pipeline,
        ensures
            easy ==> finished,
            exhausts ==> !finished,
            never_exits ==> !finished,
        decreases max_iterations - iteration,
    {
        session.turn_log.remove_entries_with_prefix(prefix.as_str());
        session.do_while_context = Some(
            DoWhileContext { loop_id: String::from_str(loop_step_id), iteration, max_iterations },
        );
        match run_loop_body(root, loop_step, inner_steps, prefix.as_str(), session, runner, observer, effects, depth) {
            Ok(LoopBodyExit::Completed) => {},
            Ok(LoopBodyExit::Broken) => {
                finished = true;
                break;
            },
            Ok(LoopBodyExit::Aborted(ns_id)) => {
                session.loop_depth = saved_depth;
                session.do_while_context = prev_context;
                let err = loop_abort_error(ns_id.as_str(), "do_while", loop_step_id, session.run_id.as_str());
                observer.on_pipeline_error(&err);
                return Err(err);
            },
            Err(e) => {
                session.loop_depth = saved_depth;
                session.do_while_context = prev_context;
                return Err(e);
            },
        }
        proof {
            if easy || exhausts || never_exits {
                lemma_fixed_condition_outcome(*session, *exit_when, loop_step_id@);
            }
        }
        let should_exit = match crate::executor::condition::evaluate_expression(exit_when, session, loop_step_id) {
            Ok(b) => b,
            Err(e) => {
                session.loop_depth = saved_depth;
                session.do_while_context = prev_context;
                return Err(e);
            },
        };
        if should_exit {
            finished = true;
            break;
        }
        iteration += 1;
    }
    session.loop_depth = saved_depth;
    session.do_while_context = prev_context;
    if !finished {
        let mut d = step_text(loop_step_id, "' exhausted do_while.max_iterations (");
        crate::text::push_decimal(&mut d, max_iterations);
        d.append(") without exit_when becoming true");
        return Err(step_error(true, d, session.run_id.as_str(), loop_step_id));
    }
    let response = latest_inner_response(&session.turn_log, prefix.as_str());
    let mut prompt = String::from_str("do_while(max_iterations=");
    crate::text::push_decimal(&mut prompt, max_iterations);
    prompt.append(")");
    Ok(TurnEntry::with_response(String::from_str(loop_step_id), prompt, response))
}

/// The array has more items than `max_items` and the loop is to abort then.
pub open spec fn for_each_over_cap(len: nat, max_items: Option<u64>, on_max: OnMaxItems) -> bool {
    max_items matches Some(cap) && len > cap && on_max == OnMaxItems::AbortPipeline
}

/// How many items a `for_each` loop runs: all of them, at most `max_items`.
pub open spec fn for_each_count(len: nat, max_items: Option<u64>) -> nat {
    match max_items {
        Some(cap) => if len > cap { cap as nat } else { len },
        None => len,
    }
}

/// Run a `for_each` loop: the inner steps once per item of the JSON array
/// that `over` renders to, at most `max_items` of them. Inner steps run as
/// `<loop>::<id>` and see the item as `for_each.item` and
/// `for_each.<as_name>`; each item starts without the previous item's
/// inner entries.
fn execute_for_each<R: Runner, O: StepObserver, E: StepEffects>(
    root: &Pipeline,
    loop_step: &Step,
    loop_step_id: &str,
    session: &mut Session,
    runner: &R,
    observer: &mut O,
    effects: &mut E,
    depth: usize,
) -> (r: Result<TurnEntry, AilError>)
    requires
        depth <= MAX_SUB_PIPELINE_DEPTH,
        loop_step.body is ForEach,
    ensures
        r matches Ok(e) ==> e.step_id@ == loop_step_id@,
        final(session).run_id == old(session).run_id,
        final(session).pipeline == old(session).pipeline,
        old(session).reload_count <= final(session).reload_count,
        within_reload_cap(old(session).reload_count, final(session).reload_count),
        old(session).loop_depth >= MAX_LOOP_DEPTH ==> (r matches Err(e) && e.kind() == ErrorKind::PipelineAborted),
        final(session).loop_depth == old(session).loop_depth,
        final(session).for_each_context == old(session).for_each_context,
        old(session).loop_depth < MAX_LOOP_DEPTH ==> match render_from(*old(session), loop_step.body->ForEach_over@, 0) {
            Rendered::Unresolved(_) => r matches Err(e) && e.kind() == ErrorKind::TemplateUnresolved,
            Rendered::Text(t) => match json_array_shape(t) {
                Ok(Some(items)) => {
                    &&& for_each_over_cap(items.len(), loop_step.body->ForEach_max_items, loop_step.body->ForEach_on_max_items)
                        ==> (r matches Err(e) && e.kind() == ErrorKind::PipelineAborted)
                    &&& r matches Ok(e) ==> e.prompt@ == "for_each(items="@ + decimal(
                        for_each_count(items.len(), loop_step.body->ForEach_max_items),
                    ) + ")"@ && opt_view(e.response) == latest_response_with_prefix(
                        final(session).turn_log@,
                        loop_step_id@ + "::"@,
                    )
                    &&& !for_each_over_cap(items.len(), loop_step.body->ForEach_max_items, loop_step.body->ForEach_on_max_items)
                        && loop_step.body->ForEach_steps@.len() == 0 ==> r is Ok
                },
                _ => r matches Err(e) && e.kind() == ErrorKind::PipelineAborted,
            },
        },
    decreases MAX_SUB_PIPELINE_DEPTH - depth, 1int, *loop_step, 1int,
{
    let (over, as_name, max_items, on_max_items, inner_steps) = match &loop_step.body {
        StepBody::ForEach { over, as_name, max_items, on_max_items, steps } => (over, as_name, *max_items, *on_max_items, steps),
        _ => {
            return Err(step_error(true, step_text(loop_step_id, "' is not a for_each step"), session.run_id.as_str(), loop_step_id));
        },
    };
    if session.loop_depth >= MAX_LOOP_DEPTH {
        let d = step_text(loop_step_id, "' would exceed the maximum loop nesting depth of 8");
        return Err(step_error(true, d, session.run_id.as_str(), loop_step_id));
    }
    let resolved_over = match resolve(over.as_str(), session) {
        Ok(t) => t,
        Err(e) => {
            return Err(e);
        },
    };
    let parsed = match parse_json_array(resolved_over.as_str()) {
        Err(msg) => {
            let mut d = step_text(loop_step_id, "' for_each.over resolved to a value that is not valid JSON: ");
            d.append(msg.as_str());
            return Err(AilError::PipelineAborted { detail: d, context: None });
        },
        Ok(None) => {
            let d = step_text(loop_step_id, "' for_each.over resolved to JSON that is not an array");
            return Err(AilError::PipelineAborted { detail: d, context: None });
        },
        Ok(Some(v)) => v,
    };
    let items = item_texts(parsed);
    let raw_count = items.len();
    let effective_count: usize = match max_items {
        Some(cap) => if raw_count as u64 > cap {
            match on_max_items {
                OnMaxItems::AbortPipeline => {
                    let mut d = step_text(loop_step_id, "' for_each array has ");
                    crate::text::push_decimal(&mut d, raw_count as u64);
                    d.append(" items but max_items is ");
                    crate::text::push_decimal(&mut d, cap);
                    d.append(" and on_max_items is abort_pipeline");
                    return Err(step_error(true, d, session.run_id.as_str(), loop_step_id));
                },
                OnMaxItems::Continue => cap as usize,
            }
        } else {
            raw_count
        },
        None => raw_count,
    };
    let prev_context = session.for_each_context.take();
    let saved_depth = session.loop_depth;
    session.loop_depth = saved_depth + 1;
    let mut prefix = String::from_str(loop_step_id);
    prefix.append("::");
    proof {
        reveal_strlit("::");
        reveal_strlit("for_each(items=");
        reveal_strlit(")");
    }
    let mut idx: usize = 0;
    while idx < effective_count
        invariant
            depth <= MAX_SUB_PIPELINE_DEPTH,
            loop_step.body is ForEach,
            *inner_steps == loop_step.body->ForEach_steps,
            effective_count <= items.len(),
            prefix@ == loop_step_id@ + "::"@,
            old(session).loop_depth < MAX_LOOP_DEPTH,
            render_from(*old(session), loop_step.body->ForEach_over@, 0) == Rendered::Text(resolved_over@),
            json_array_shape(resolved_over@) matches Ok(Some(sh)) && sh.len() == items@.len(),
            !for_each_over_cap(items@.len(), loop_step.body->ForEach_max_items, loop_step.body->ForEach_on_max_items),
            effective_count == for_each_count(items@.len(), loop_step.body->ForEach_max_items),
            saved_depth == old(session).loop_depth,
            prev_context == old(session).for_each_context,
            session.run_id == old(session).run_id,
            old(session).reload_count <= session.reload_count,
            within_reload_cap(old(session).reload_count, session.reload_count),
            session.pipeline == old(session).pipeline,
        decreases effective_count - idx,
    {
        session.turn_log.remove_entries_with_prefix(prefix.as_str());
        session.for_each_context = Some(ForEachContext {
            loop_id: String::from_str(loop_step_id),
            index: idx as u64 + 1,
            total: effective_count as u64,
            item: items[idx].clone(),
            as_name: as_name.clone(),
        });
        match run_loop_body(root, loop_step, inner_steps, prefix.as_str(), session, runner, observer, effects, depth) {
            Ok(LoopBodyExit::Completed) => {},
            Ok(LoopBodyExit::Broken) => {
                break;
            },
            Ok(LoopBodyExit::Aborted(ns_id)) => {
                session.loop_depth = saved_depth;
                session.for_each_context = prev_context;
                let err = loop_abort_error(ns_id.as_str(), "for_each", loop_step_id, session.run_id.as_str());
                observer.on_pipeline_error(&err);
                return Err(err);
            },
            Err(e) => {
                session.loop_depth = saved_depth;
                session.for_each_context = prev_context;
                return Err(e);
            },
        }
        idx += 1;
    }
    session.loop_depth = saved_depth;
    session.for_each_context = prev_context;
    let response = latest_inner_response(&session.turn_log, prefix.as_str());
    let mut prompt = String::from_str("for_each(items=");
    crate::text::push_decimal(&mut prompt, effective_count as u64);
    prompt.append(")");
    Ok(TurnEntry::with_response(String::from_str(loop_step_id), prompt, response))
}

/// Carry out the `on_result` action of a top-level step.
fn handle_on_result_action<R: Runner, O: StepObserver, E: StepEffects>(
    root: &Pipeline,
    action: ResultAction,
    step: &Step,
    session: &mut Session,
    runner: &R,
    observer: &mut O,
    effects: &mut E,
    depth: usize,
) -> (r: Result<LoopControl, AilError>)
    requires
        depth <= MAX_SUB_PIPELINE_DEPTH,
    ensures
        final(session).run_id == old(session).run_id,
        final(session).pipeline == old(session).pipeline,
        old(session).reload_count <= final(session).reload_count,
        within_reload_cap(old(session).reload_count, final(session).reload_count),
        r matches Ok(LoopControl::Return(ExecuteOutcome::Break { step_id })) ==> step_id@ == step.id.0@
            && action is Break,
        r matches Ok(LoopControl::Return(o)) ==> o is Break,
        !(r matches Ok(LoopControl::Skip)) && !(r matches Ok(LoopControl::Break)),
        r matches Err(e) ==> (action is AbortPipeline || action is Pipeline),
        action is Continue || action is PauseForHuman ==> (r matches Ok(LoopControl::Continue) && *final(session)
            == *old(session)),
        action is Break ==> (r matches Ok(LoopControl::Return(ExecuteOutcome::Break { step_id })) && step_id@
            == step.id.0@ && *final(session) == *old(session)),
        action is AbortPipeline ==> (r matches Err(e) && e.kind() == ErrorKind::PipelineAborted && *final(session)
            == *old(session)),
        action is Pipeline && r is Ok ==> final(session).turn_log@.len() == old(session).turn_log@.len() + 1
            && final(session).turn_log@.drop_last() == old(session).turn_log@,
    decreases MAX_SUB_PIPELINE_DEPTH - depth, 1int, vstd::pervasive::arbitrary::<Step>(), 0int,
{
    let step_id = step.id.0.as_str();
    match action {
        ResultAction::Continue => Ok(LoopControl::Continue),
        ResultAction::Break => {
            let outcome = ExecuteOutcome::Break { step_id: String::from_str(step_id) };
            observer.on_pipeline_done(&outcome);
            Ok(LoopControl::Return(outcome))
        },
        ResultAction::AbortPipeline => {
            let d = step_text(step_id, "' on_result fired abort_pipeline");
            let err = step_error(true, d, session.run_id.as_str(), step_id);
            observer.on_pipeline_error(&err);
            Err(err)
        },
        ResultAction::PauseForHuman => {
            observer.on_result_pause(step_id, opt_str(&step.message));
            Ok(LoopControl::Continue)
        },
        ResultAction::Pipeline { path, prompt } => {
            let mut sub_id = String::from_str(step_id);
            sub_id.append("__on_result");
            match execute_sub_pipeline(root, path.as_str(), &prompt, sub_id.as_str(), session, runner, effects, depth) {
                Ok(entry) => {
                    session.turn_log.append(entry);
                    Ok(LoopControl::Continue)
                },
                Err(e) => {
                    observer.on_pipeline_error(&e);
                    Err(e)
                },
            }
        },
    }
}

/// Run one top-level step: its condition, the observer's guard, the step,
/// and its `on_result` action.
fn dispatch_top_level_step<R: Runner, O: StepObserver, E: StepEffects>(
    root: &Pipeline,
    step: &Step,
    step_index: usize,
    session: &mut Session,
    runner: &R,
    observer: &mut O,
    effects: &mut E,
    depth: usize,
    total_steps: usize,
) -> (r: Result<LoopControl, AilError>)
    requires
        depth <= MAX_SUB_PIPELINE_DEPTH,
    ensures
        final(session).run_id == old(session).run_id,
        final(session).pipeline == old(session).pipeline,
        old(session).reload_count <= final(session).reload_count,
        within_reload_cap(old(session).reload_count, final(session).reload_count),
        r matches Ok(LoopControl::Return(ExecuteOutcome::Break { step_id })) ==> step_id@ == step.id.0@
            && declares_break(*step),
        r matches Ok(LoopControl::Return(o)) ==> o is Break,
        plain_step(*step) ==> match r {
            Ok(LoopControl::Continue) => exists|e: TurnEntry|
                #![trigger old(session).turn_log@.push(e)]
                e.step_id@ == step.id.0@ && final(session).turn_log@ == old(session).turn_log@.push(e)
                    && (step.body is Prompt ==> answered_entry(*runner, e)),
            Ok(LoopControl::Return(_)) => false,
            _ => final(session).turn_log@ == old(session).turn_log@,
        },
        plain_step(*step) && O::runs_unskipped_steps() ==> (r is Ok ==> r matches Ok(LoopControl::Continue)),
        plain_step(*step) && O::runs_unskipped_steps() && step.input_schema is None && unresolved_prompt(*step, *old(session))
            ==> (r matches Err(e) && e.kind() == ErrorKind::TemplateUnresolved && final(session).turn_log@ == old(
            session,
        ).turn_log@),
        step.condition is None && O::runs_unskipped_steps() && (step.body matches StepBody::Action(ActionKind::PauseForHuman))
            && step.before@.len() == 0 ==> (r matches Ok(LoopControl::Continue) && *final(session) == *old(session)),
        plain_step(*step) ==> final(session).reload_count == old(session).reload_count,
        (r matches Ok(LoopControl::Skip)) || (r matches Ok(LoopControl::Break)) ==> *final(session) == *old(session),
        step.condition is None && old(observer).stops_every_step() ==> (r matches Ok(LoopControl::Break)),
    decreases MAX_SUB_PIPELINE_DEPTH - depth, 2int, vstd::pervasive::arbitrary::<Step>(), 0int,
{
    let step_id = step.id.0.as_str();
    let condition_skip = match &step.condition {
        Some(c) => match evaluate_condition(c, session, step_id) {
            Ok(b) => !b,
            Err(e) => {
                return Err(e);
            },
        },
        None => false,
    };
    match observer.before_step(step_id, step_index, condition_skip) {
        BeforeStepAction::Run => {},
        BeforeStepAction::Skip => {
            return Ok(LoopControl::Skip);
        },
        BeforeStepAction::Stop => {
            return Ok(LoopControl::Break);
        },
    }
    let matched = match execute_single_step(root, step, step_id, session, runner, observer, effects, depth, total_steps, step_index) {
        Ok(m) => m,
        Err(e) => {
            return Err(e);
        },
    };
    match matched {
        Some(action) => {
            let ghost av = action.view_value();
            let r = handle_on_result_action(root, action, step, session, runner, observer, effects, depth);
            proof {
                if r matches Ok(LoopControl::Return(ExecuteOutcome::Break { .. })) {
                    let bs = step.on_result->0;
                    let j = choose|j: int| 0 <= j < bs@.len() && (#[trigger] bs@[j]).action.view_value() == av;
                    assert(bs@[j].action is Break);
                }
            }
            r
        },
        None => Ok(LoopControl::Continue),
    }
}

/// How a pass over top-level steps ended.
enum RunEnd {
    Done(ExecuteOutcome),
    /// The step with this id reloaded the pipeline; the run goes on after
    /// that step in the reloaded pipeline.
    Reload(String),
}

/// Run `steps` (top-level steps of a pipeline, or of a named pipeline) in
/// order from `start`, until one of them reloads the pipeline.
fn run_steps<R: Runner, O: StepObserver, E: StepEffects>(
    root: &Pipeline,
    steps: &Vec<Step>,
    start: usize,
    session: &mut Session,
    runner: &R,
    observer: &mut O,
    effects: &mut E,
    depth: usize,
) -> (r: Result<RunEnd, AilError>)
    requires
        depth <= MAX_SUB_PIPELINE_DEPTH,
    ensures
        final(session).run_id == old(session).run_id,
        final(session).pipeline == old(session).pipeline,
        old(session).reload_count <= final(session).reload_count,
        within_reload_cap(old(session).reload_count, final(session).reload_count),
        r matches Ok(RunEnd::Done(o)) ==> (o is Completed || o is Break),
        r matches Ok(RunEnd::Done(ExecuteOutcome::Break { step_id })) ==> exists|k: int|
            0 <= k < steps@.len() && (#[trigger] steps@[k]).id.0@ == step_id@ && declares_break(steps@[k]),
        r matches Ok(RunEnd::Reload(_)) ==> old(session).reload_count < final(session).reload_count,
        (forall|k: int| 0 <= k < steps@.len() ==> plain_step(#[trigger] steps@[k])) ==> {
            &&& final(session).reload_count == old(session).reload_count
            &&& logged_in_order(old(session).turn_log@, final(session).turn_log@, steps@)
            &&& logged_with_answers(*runner, old(session).turn_log@, final(session).turn_log@, steps@)
            &&& r is Ok ==> (r matches Ok(RunEnd::Done(ExecuteOutcome::Completed)))
        },
        start >= steps@.len() ==> (r matches Ok(RunEnd::Done(ExecuteOutcome::Completed))
            && final(session).turn_log@ == old(session).turn_log@),
        start < steps@.len() && steps@[start as int].condition is None && old(observer).stops_every_step() ==> (r matches Ok(
            RunEnd::Done(ExecuteOutcome::Completed),
        ) && *final(session) == *old(session)),
        O::runs_unskipped_steps() && start < steps@.len() && first_prompt_unresolved(steps@[start as int], *old(session))
            ==> (r matches Err(e) && e.kind() == ErrorKind::TemplateUnresolved && final(session).turn_log@ == old(
            session,
        ).turn_log@),
        (forall|k: int| 0 <= k < steps@.len() ==> plain_step(#[trigger] steps@[k])) && O::runs_unskipped_steps()
            && start == 0 && r is Ok ==> {
            &&& r matches Ok(RunEnd::Done(ExecuteOutcome::Completed))
            &&& logs_each_step(old(session).turn_log@, final(session).turn_log@, steps@)
        },
    decreases MAX_SUB_PIPELINE_DEPTH - depth, 3int, vstd::pervasive::arbitrary::<Step>(), 0int,
{
    let total = steps.len();
    let ghost plain = forall|k: int| 0 <= k < steps@.len() ==> plain_step(#[trigger] steps@[k]);
    let ghost log0 = session.turn_log@;
    let ghost mut idx: Seq<int> = Seq::empty();
    assert(log0.take(log0.len() as int) =~= log0);
    let mut i: usize = start;
    while i < steps.len()
        invariant
            depth <= MAX_SUB_PIPELINE_DEPTH,
            total == steps.len(),
            session.run_id == old(session).run_id,
            old(session).reload_count <= session.reload_count,
            within_reload_cap(old(session).reload_count, session.reload_count),
            session.pipeline == old(session).pipeline,
            log0 == old(session).turn_log@,
            plain == (forall|k: int| 0 <= k < steps@.len() ==> plain_step(#[trigger] steps@[k])),
            plain ==> session.reload_count == old(session).reload_count,
            plain ==> log0.len() <= session.turn_log@.len(),
            plain ==> session.turn_log@.take(log0.len() as int) == log0,
            plain ==> picks_in_order(idx, log0, session.turn_log@, steps@),
            plain ==> picked_prompts_answered(*runner, idx, log0, session.turn_log@, steps@),
            plain ==> forall|j: int| 0 <= j < idx.len() ==> #[trigger] idx[j] < i,
            plain && O::runs_unskipped_steps() ==> idx.len() == i - start && forall|j: int|
                0 <= j < idx.len() ==> #[trigger] idx[j] == start + j,
            start <= i,
            i <= steps.len() || i == start,
            i == start ==> *session == *old(session),
            i == start ==> *observer == *old(observer),
            start < steps@.len() && steps@[start as int].condition is None && old(observer).stops_every_step() ==> i == start,
            O::runs_unskipped_steps() && start < steps@.len() && first_prompt_unresolved(steps@[start as int], *old(session))
                ==> i == start,
        decreases steps.len() - i,
    {
        let ghost log_before = session.turn_log@;
        let reloads_before = session.reload_count;
        let r = dispatch_top_level_step(root, &steps[i], i, session, runner, observer, effects, depth, total);
        match r {
            Ok(LoopControl::Continue) => {
                proof {
                    if plain {
                        assert(plain_step(steps@[i as int]));
                        let e = choose|e: TurnEntry|
                            #![trigger log_before.push(e)]
                            e.step_id@ == steps@[i as int].id.0@ && session.turn_log@ == log_before.push(e)
                                && (steps@[i as int].body is Prompt ==> answered_entry(*runner, e));
                        let idx2 = idx.push(i as int);
                        assert(session.turn_log@.take(log0.len() as int) =~= log0);
                        assert(session.turn_log@[(log0.len() + idx.len()) as int] == e);
                        assert(picks_in_order(idx2, log0, session.turn_log@, steps@));
                        assert forall|j: int|
                            #![trigger idx2[j]]
                            0 <= j < idx2.len() && steps@[idx2[j]].body is Prompt implies answered_entry(
                                *runner,
                                session.turn_log@[log0.len() + j],
                            ) by {
                            if j < idx.len() {
                                assert(idx2[j] == idx[j]);
                                assert(session.turn_log@[log0.len() + j] == log_before[log0.len() + j]);
                            }
                        }
                        idx = idx2;
                    }
                }
                if session.reload_count != reloads_before {
                    return Ok(RunEnd::Reload(steps[i].id.0.clone()));
                }
            },
            Ok(LoopControl::Skip) => {
                proof {
                    if plain {
                        assert(plain_step(steps@[i as int]));
                    }
                }
            },
            Ok(LoopControl::Break) => {
                proof {
                    if plain {
                        assert(plain_step(steps@[i as int]));
                    }
                }
                let outcome = ExecuteOutcome::Completed;
                observer.on_pipeline_done(&outcome);
                return Ok(RunEnd::Done(outcome));
            },
            Ok(LoopControl::Return(outcome)) => {
                proof {
                    if plain {
                        assert(plain_step(steps@[i as int]));
                    }
                }
                assert(steps@[i as int].id.0@ == steps[i as int].id.0@);
                return Ok(RunEnd::Done(outcome));
            },
            Err(e) => {
                proof {
                    if plain {
                        assert(plain_step(steps@[i as int]));
                    }
                }
                return Err(e);
            },
        }
        i += 1;
    }
    proof {
        if plain && O::runs_unskipped_steps() && start == 0 {
            assert forall|j: int| 0 <= j < steps@.len() implies session.turn_log@[log0.len() + j].step_id@
                == (#[trigger] steps@[j]).id.0@ by {
                assert(idx[j] == j);
            }
        }
    }
    let outcome = ExecuteOutcome::Completed;
    observer.on_pipeline_done(&outcome);
    Ok(RunEnd::Done(outcome))
}

/// The position of the step with id `id`.
fn position_of(steps: &Vec<Step>, id: &str) -> (r: Option<usize>)
    ensures
        r matches Some(k) ==> k < steps.len() && steps@[k as int].id.0@ == id@ && forall|j: int|
            0 <= j < k ==> (#[trigger] steps@[j]).id.0@ != id@,
        r is None ==> forall|j: int| 0 <= j < steps@.len() ==> (#[trigger] steps@[j]).id.0@ != id@,
{
    let mut k: usize = 0;
    while k < steps.len()
        invariant
            k <= steps.len(),
            forall|j: int| 0 <= j < k ==> (#[trigger] steps@[j]).id.0@ != id@,
        decreases steps.len() - k,
    {
        if str_eq(steps[k].id.0.as_str(), id) {
            return Some(k);
        }
        k += 1;
    }
    None
}

/// No step has the id `anchor`.
pub open spec fn anchor_missing(steps: Seq<Step>, anchor: Seq<char>) -> bool {
    forall|j: int| 0 <= j < steps.len() ==> (#[trigger] steps[j]).id.0@ != anchor
}

/// The last step, and only it, has the id `anchor`.
pub open spec fn anchor_is_last(steps: Seq<Step>, anchor: Seq<char>) -> bool {
    &&& steps.len() > 0
    &&& steps.last().id.0@ == anchor
    &&& forall|j: int| 0 <= j < steps.len() - 1 ==> (#[trigger] steps[j]).id.0@ != anchor
}

/// Go on with a run after its pipeline was reloaded at step `anchor`: switch
/// to the reloaded pipeline and resume after that step, as often as the
/// run reloads.
fn resume_after_reloads<R: Runner, O: StepObserver, E: StepEffects>(
    pipeline: &mut Pipeline,
    anchor: String,
    session: &mut Session,
    runner: &R,
    observer: &mut O,
    effects: &mut E,
    depth: usize,
) -> (r: Result<ExecuteOutcome, AilError>)
    requires
        depth <= MAX_SUB_PIPELINE_DEPTH,
    ensures
        final(session).run_id == old(session).run_id,
        final(session).pipeline == old(session).pipeline,
        old(session).reload_count <= final(session).reload_count,
        within_reload_cap(old(session).reload_count, final(session).reload_count),
        r matches Ok(o) ==> (o is Completed || o is Break),
        old(session).pending_reload is None && anchor_missing(old(pipeline).steps@, anchor@) ==> (r matches Err(e)
            && e.kind() == ErrorKind::PipelineAborted),
        old(session).pending_reload is None && anchor_is_last(old(pipeline).steps@, anchor@) ==> (r matches Ok(
            ExecuteOutcome::Completed,
        )),
    decreases MAX_SUB_PIPELINE_DEPTH - depth, 4int, vstd::pervasive::arbitrary::<Step>(), 0int,
{
    let ghost anchor0 = anchor@;
    let mut current = anchor.clone();
    let mut round: usize = 0;
    while round <= MAX_RELOADS_PER_RUN
        invariant
            depth <= MAX_SUB_PIPELINE_DEPTH,
            anchor0 == anchor@,
            round == 0 ==> *session == *old(session) && *pipeline == *old(pipeline) && current@ == anchor0,
            round > 0 ==> !(old(session).pending_reload is None && anchor_missing(old(pipeline).steps@, anchor0)),
            round > 0 ==> !(old(session).pending_reload is None && anchor_is_last(old(pipeline).steps@, anchor0)),
            session.run_id == old(session).run_id,
            session.pipeline == old(session).pipeline,
            old(session).reload_count <= session.reload_count,
            within_reload_cap(old(session).reload_count, session.reload_count),
        decreases MAX_RELOADS_PER_RUN + 1 - round,
    {
        let ghost first = round == 0 && old(session).pending_reload is None;
        match session.pending_reload.take() {
            Some(p) => {
                *pipeline = p;
            },
            None => {},
        }
        proof {
            if first {
                assert(pipeline.steps@ == old(pipeline).steps@);
            }
        }
        let start = match position_of(&pipeline.steps, current.as_str()) {
            Some(k) => {
                proof {
                    if first && anchor_is_last(old(pipeline).steps@, anchor0) {
                        if k + 1 < pipeline.steps@.len() {
                            assert(pipeline.steps@[k as int].id.0@ != anchor0);
                        }
                        assert(k + 1 == pipeline.steps@.len());
                    }
                    if first && anchor_missing(old(pipeline).steps@, anchor0) {
                        assert(pipeline.steps@[k as int].id.0@ != anchor0);
                    }
                }
                k + 1
            },
            None => {
                proof {
                    if first && anchor_is_last(old(pipeline).steps@, anchor0) {
                        assert(pipeline.steps@[pipeline.steps@.len() - 1].id.0@ != anchor0);
                    }
                }
                let mut d = String::from_str("After reload, the executor could not find the anchor step '");
                d.append(current.as_str());
                d.append("' in the reloaded pipeline — unable to resume");
                return Err(step_error(true, d, session.run_id.as_str(), current.as_str()));
            },
        };
        match run_steps(pipeline, &pipeline.steps, start, session, runner, observer, effects, depth) {
            Ok(RunEnd::Done(o)) => {
                return Ok(o);
            },
            Ok(RunEnd::Reload(a)) => {
                current = a;
            },
            Err(e) => {
                return Err(e);
            },
        }
        round += 1;
    }
    let d = step_text(current.as_str(), "' exceeded the per-run reload cap (16)");
    Err(step_error(true, d, session.run_id.as_str(), current.as_str()))
}

/// A copy of the session for an async branch: the same run, log and loop
/// context, without the pipeline.
fn fork_for_branch(session: &Session) -> (b: Session)
    ensures
        b.run_id == session.run_id,
        b.turn_log@.len() == session.turn_log@.len(),
{
    Session {
        run_id: session.run_id.clone(),
        pipeline: empty_pipeline(),
        invocation_prompt: session.invocation_prompt.clone(),
        turn_log: session.turn_log.snapshot(),
        do_while_context: session.do_while_context.clone(),
        for_each_context: session.for_each_context.clone(),
        loop_depth: session.loop_depth,
        reload_count: session.reload_count,
        pending_reload: None,
        named_chain: session.named_chain.clone(),
    }
}

/// Run an async step on a copy of the session, as a branch of `group`: its
/// entry, and the entries it produced before that.
fn run_branch<R: Runner, E: StepEffects>(
    root: &Pipeline,
    step: &Step,
    group: &str,
    session: &Session,
    runner: &R,
    effects: &mut E,
    depth: usize,
) -> (b: BranchResult)
    requires
        depth <= MAX_SUB_PIPELINE_DEPTH,
    ensures
        b.step_id@ == step.id.0@,
    decreases MAX_SUB_PIPELINE_DEPTH - depth, 3int, vstd::pervasive::arbitrary::<Step>(), 0int,
{
    let launched_at = iso8601(current_time());
    let mut branch = fork_for_branch(session);
    let parent_count = branch.turn_log.entries().len();
    let mut headless = NullObserver;
    let res = execute_single_step(root, step, step.id.0.as_str(), &mut branch, runner, &mut headless, effects, depth, 1, 0);
    let completed_at = iso8601(current_time());
    let all = branch.turn_log.into_entries();
    let mut produced: Vec<TurnEntry> = Vec::new();
    let mut i = parent_count;
    while i < all.len()
        decreases all.len() - i,
    {
        produced.push(all[i].clone());
        i += 1;
    }
    let outcome = match res {
        Ok(_) => {
            let mut entry = match produced.pop() {
                Some(e) => e,
                None => TurnEntry::with_response(step.id.0.clone(), String::new(), Some(String::new())),
            };
            entry.concurrent_group = Some(String::from_str(group));
            entry.launched_at = Some(launched_at.clone());
            entry.completed_at = Some(completed_at.clone());
            Ok(entry)
        },
        Err(e) => Err(e),
    };
    BranchResult { step_id: step.id.0.clone(), outcome, launched_at, completed_at, extra_entries: produced }
}

/// `id` is the id of a step that `step` depends on.
pub open spec fn is_dependency(step: Step, id: Seq<char>) -> bool {
    exists|d: int| 0 <= d < step.depends_on@.len() && (#[trigger] step.depends_on@[d]).0@ == id
}

/// Some branch of `bs` has the step id `id`.
pub open spec fn has_branch(bs: Seq<BranchResult>, id: Seq<char>) -> bool {
    exists|j: int| 0 <= j < bs.len() && (#[trigger] bs[j]).step_id@ == id
}

/// Take the results of the async branches `step` depends on out of
/// `in_flight`, in the order of `depends_on`.
fn collect_dependencies(step: &Step, in_flight: &mut Vec<BranchResult>) -> (r: Vec<BranchResult>)
    ensures
        final(in_flight)@.len() + r@.len() == old(in_flight)@.len(),
        forall|k: int| 0 <= k < r@.len() ==> is_dependency(*step, (#[trigger] r@[k]).step_id@),
        forall|d: int|
            0 <= d < step.depends_on@.len() && has_branch(old(in_flight)@, (#[trigger] step.depends_on@[d]).0@)
                ==> has_branch(r@, step.depends_on@[d].0@),
{
    let mut results: Vec<BranchResult> = Vec::new();
    let mut k: usize = 0;
    while k < step.depends_on.len()
        invariant
            k <= step.depends_on.len(),
            in_flight@.len() + results@.len() == old(in_flight)@.len(),
            forall|q: int| 0 <= q < results@.len() ==> is_dependency(*step, (#[trigger] results@[q]).step_id@),
            forall|d: int|
                0 <= d < k && has_branch(old(in_flight)@, (#[trigger] step.depends_on@[d]).0@) ==> has_branch(
                    results@,
                    step.depends_on@[d].0@,
                ),
            forall|i: int|
                0 <= i < old(in_flight)@.len() ==> has_branch(in_flight@, (#[trigger] old(in_flight)@[i]).step_id@)
                    || has_branch(results@, old(in_flight)@[i].step_id@),
        decreases step.depends_on.len() - k,
    {
        let dep = step.depends_on[k].0.as_str();
        let mut found: Option<usize> = None;
        let mut j: usize = 0;
        while j < in_flight.len() && found.is_none()
            invariant
                j <= in_flight.len(),
                found matches Some(x) ==> x < in_flight.len() && in_flight@[x as int].step_id@ == dep@,
                found is None ==> forall|y: int| 0 <= y < j ==> (#[trigger] in_flight@[y]).step_id@ != dep@,
            decreases in_flight.len() - j,
        {
            if str_eq(in_flight[j].step_id.as_str(), dep) {
                found = Some(j);
            }
            j += 1;
        }
        let ghost fl = in_flight@;
        let ghost rs = results@;
        if let Some(x) = found {
            let br = in_flight.remove(x);
            results.push(br);
            proof {
                assert(results@.last().step_id@ == dep@);
                assert(has_branch(results@, dep@));
                assert forall|q: int| 0 <= q < results@.len() implies is_dependency(*step, (#[trigger] results@[q]).step_id@) by {
                    if q < rs.len() {
                        assert(results@[q] == rs[q]);
                    } else {
                        assert(results@[q].step_id@ == step.depends_on@[k as int].0@);
                    }
                }
                assert forall|d: int|
                    0 <= d < k + 1 && has_branch(old(in_flight)@, (#[trigger] step.depends_on@[d]).0@) implies has_branch(
                    results@,
                    step.depends_on@[d].0@,
                ) by {
                    if d < k {
                        let q = choose|q: int| 0 <= q < rs.len() && (#[trigger] rs[q]).step_id@ == step.depends_on@[d].0@;
                        assert(results@[q] == rs[q]);
                    }
                }
                assert forall|i: int|
                    0 <= i < old(in_flight)@.len() implies has_branch(in_flight@, (#[trigger] old(in_flight)@[i]).step_id@)
                    || has_branch(results@, old(in_flight)@[i].step_id@) by {
                    let id = old(in_flight)@[i].step_id@;
                    if has_branch(rs, id) {
                        let q = choose|q: int| 0 <= q < rs.len() && (#[trigger] rs[q]).step_id@ == id;
                        assert(results@[q] == rs[q]);
                    } else {
                        let y = choose|y: int| 0 <= y < fl.len() && (#[trigger] fl[y]).step_id@ == id;
                        if y == x {
                            assert(results@[rs.len() as int] == fl[y]);
                        } else if y < x {
                            assert(in_flight@[y] == fl[y]);
                        } else {
                            assert(in_flight@[y - 1] == fl[y]);
                        }
                    }
                }
            }
        } else {
            proof {
                assert forall|d: int|
                    0 <= d < k + 1 && has_branch(old(in_flight)@, (#[trigger] step.depends_on@[d]).0@) implies has_branch(
                    results@,
                    step.depends_on@[d].0@,
                ) by {
                    if d == k {
                        let i = choose|i: int|
                            0 <= i < old(in_flight)@.len() && (#[trigger] old(in_flight)@[i]).step_id@ == dep@;
                        assert(has_branch(in_flight@, old(in_flight)@[i].step_id@) || has_branch(
                            results@,
                            old(in_flight)@[i].step_id@,
                        ));
                    }
                }
            }
        }
        k += 1;
    }
    results
}

/// The entries that successful branches add to the log: each branch's
/// entry, then its extra entries, in the order of `results`.
pub open spec fn branch_entries(results: Seq<BranchResult>) -> Seq<TurnEntry>
    decreases results.len(),
{
    if results.len() == 0 {
        Seq::empty()
    } else {
        branch_entries(results.drop_last()) + match results.last().outcome {
            Ok(e) => seq![e] + results.last().extra_entries@,
            Err(_) => Seq::empty(),
        }
    }
}

/// Append the entries of the successful branches to the log.
fn append_branch_entries(log: &mut TurnLog, results: &Vec<BranchResult>)
    ensures
        final(log)@ == old(log)@ + branch_entries(results@),
{
    let mut k: usize = 0;
    assert(results@.take(0) =~= Seq::<BranchResult>::empty());
    assert(old(log)@ + branch_entries(Seq::<BranchResult>::empty()) =~= old(log)@);
    while k < results.len()
        invariant
            k <= results.len(),
            log@ == old(log)@ + branch_entries(results@.take(k as int)),
        decreases results.len() - k,
    {
        let ghost base = log@;
        assert(results@.take(k + 1).drop_last() =~= results@.take(k as int));
        assert(results@.take(k + 1).last() == results@[k as int]);
        if let Ok(entry) = &results[k].outcome {
            log.append(entry.copy());
            let extras = &results[k].extra_entries;
            let mut x: usize = 0;
            while x < extras.len()
                invariant
                    x <= extras.len(),
                    log@ == base + seq![*entry] + extras@.take(x as int),
                decreases extras.len() - x,
            {
                assert(extras@.take(x + 1) =~= extras@.take(x as int).push(extras@[x as int]));
                log.append(extras[x].copy());
                x += 1;
            }
            assert(extras@.take(extras.len() as int) =~= extras@);
            assert(log@ =~= base + (seq![*entry] + extras@));
        } else {
            assert(log@ =~= base + Seq::<TurnEntry>::empty());
        }
        k += 1;
    }
    assert(results@.take(results.len() as int) =~= results@);
}

/// Run `steps` when some of them are async. An async step runs as a branch
/// on a copy of the session as it is at its launch; its entry joins the log
/// when a later step that depends on it runs. A join step merges the
/// results of its dependencies into one entry.
fn run_steps_with_async<R: Runner, O: StepObserver, E: StepEffects>(
    root: &Pipeline,
    steps: &Vec<Step>,
    session: &mut Session,
    runner: &R,
    observer: &mut O,
    effects: &mut E,
    depth: usize,
) -> (r: Result<ExecuteOutcome, AilError>)
    requires
        depth <= MAX_SUB_PIPELINE_DEPTH,
    ensures
        final(session).run_id == old(session).run_id,
        final(session).pipeline == old(session).pipeline,
        old(session).reload_count <= final(session).reload_count,
        within_reload_cap(old(session).reload_count, final(session).reload_count),
        r matches Ok(o) ==> (o is Completed || o is Break),
        r matches Ok(ExecuteOutcome::Break { step_id }) ==> exists|k: int|
            0 <= k < steps@.len() && (#[trigger] steps@[k]).id.0@ == step_id@ && declares_break(steps@[k]),
        steps@.len() == 0 ==> (r matches Ok(ExecuteOutcome::Completed)),
        (forall|k: int| 0 <= k < steps@.len() ==> (#[trigger] steps@[k]).on_result is None) ==> (r is Ok ==> r matches Ok(
            ExecuteOutcome::Completed,
        )),
    decreases MAX_SUB_PIPELINE_DEPTH - depth, 4int, vstd::pervasive::arbitrary::<Step>(), 0int,
{
    let group = new_concurrent_group_id();
    let cancel_token = CancelToken::new();
    let mut in_flight: Vec<BranchResult> = Vec::new();
    let total = steps.len();
    let mut i: usize = 0;
    while i < steps.len()
        invariant
            depth <= MAX_SUB_PIPELINE_DEPTH,
            i <= steps.len(),
            total == steps.len(),
            session.run_id == old(session).run_id,
            old(session).reload_count <= session.reload_count,
            within_reload_cap(old(session).reload_count, session.reload_count),
            session.pipeline == old(session).pipeline,
        decreases steps.len() - i,
    {
        let step = &steps[i];
        let step_id = step.id.0.as_str();
        let condition_skip = match &step.condition {
            Some(c) => match evaluate_condition(c, session, step_id) {
                Ok(b) => !b,
                Err(e) => {
                    return Err(e);
                },
            },
            None => false,
        };
        match observer.before_step(step_id, i, condition_skip) {
            BeforeStepAction::Run => {},
            BeforeStepAction::Skip => {
                i += 1;
                continue;
            },
            BeforeStepAction::Stop => {
                break;
            },
        }
        if step.async_step {
            let br = run_branch(root, step, group.as_str(), session, runner, effects, depth);
            in_flight.push(br);
            i += 1;
            continue;
        }
        let results = collect_dependencies(step, &mut in_flight);
        append_branch_entries(&mut session.turn_log, &results);
        let matched = if is_join_step(step) {
            let mode = match join_error_mode(step) {
                Some(m) => *m,
                None => JoinErrorMode::FailFast,
            };
            let mut had_failure = false;
            let mut k: usize = 0;
            while k < results.len()
                decreases results.len() - k,
            {
                if results[k].outcome.is_err() {
                    had_failure = true;
                }
                k += 1;
            }
            if had_failure && mode == JoinErrorMode::FailFast {
                cancel_token.cancel();
            }
            let mut deps_in_order: Vec<&str> = Vec::new();
            let mut k: usize = 0;
            while k < step.depends_on.len()
                decreases step.depends_on.len() - k,
            {
                deps_in_order.push(step.depends_on[k].0.as_str());
                k += 1;
            }
            let join_entry = match merge_join_results(step, &deps_in_order, &results, &mode) {
                Ok(e) => e,
                Err(e) => {
                    observer.on_step_failed(step_id, e.detail());
                    return Err(e);
                },
            };
            if let Some(schema) = &step.output_schema {
                let response: &str = match &join_entry.response {
                    Some(t) => t.as_str(),
                    None => "",
                };
                if let Err(e) = validate_join_output_schema(response, schema.as_str(), step_id) {
                    observer.on_step_failed(step_id, e.detail());
                    return Err(e);
                }
            }
            session.turn_log.append(join_entry);
            match &step.on_result {
                Some(branches) => {
                    let entries = session.turn_log.entries();
                    let last = &entries[entries.len() - 1];
                    match evaluate_on_result(branches, session, step_id, last, None) {
                        Ok(a) => a,
                        Err(e) => {
                            return Err(e);
                        },
                    }
                },
                None => None,
            }
        } else {
            match execute_single_step(root, step, step_id, session, runner, observer, effects, depth, total, i) {
                Ok(m) => m,
                Err(e) => {
                    return Err(e);
                },
            }
        };
        if let Some(action) = matched {
            let ghost av = action.view_value();
            match handle_on_result_action(root, action, step, session, runner, observer, effects, depth) {
                Ok(LoopControl::Continue) => {},
                Ok(LoopControl::Skip) => {},
                Ok(LoopControl::Break) => {
                    break;
                },
                Ok(LoopControl::Return(outcome)) => {
                    proof {
                        let bs = step.on_result->0;
                        let j = choose|j: int| 0 <= j < bs@.len() && (#[trigger] bs@[j]).action.view_value() == av;
                        assert(bs@[j].action is Break);
                        assert(steps@[i as int].id.0@ == step.id.0@);
                    }
                    return Ok(outcome);
                },
                Err(e) => {
                    return Err(e);
                },
            }
        }
        i += 1;
    }
    let outcome = ExecuteOutcome::Completed;
    observer.on_pipeline_done(&outcome);
    Ok(outcome)
}

/// Run the session's pipeline from its first step. The pipeline is back in
/// the session when the run returns (the reloaded one, if a step reloaded
/// it).
pub fn execute_core<R: Runner, O: StepObserver, E: StepEffects>(
    session: &mut Session,
    runner: &R,
    observer: &mut O,
    effects: &mut E,
    depth: usize,
) -> (r: Result<ExecuteOutcome, AilError>)
    requires
        depth <= MAX_SUB_PIPELINE_DEPTH,
    ensures
        final(session).run_id == old(session).run_id,
        old(session).reload_count <= final(session).reload_count,
        within_reload_cap(old(session).reload_count, final(session).reload_count),
        final(session).reload_count == old(session).reload_count ==> final(session).pipeline == old(session).pipeline,
        r matches Ok(o) ==> (o is Completed || o is Break),
        final(session).reload_count == old(session).reload_count ==> (r matches Ok(ExecuteOutcome::Break { step_id })
            ==> exists|k: int|
            0 <= k < old(session).pipeline.steps@.len() && (#[trigger] old(session).pipeline.steps@[k]).id.0@
                == step_id@ && declares_break(old(session).pipeline.steps@[k])),
        (forall|k: int|
            0 <= k < old(session).pipeline.steps@.len() ==> plain_step(#[trigger] old(session).pipeline.steps@[k]))
            ==> final(session).reload_count == old(session).reload_count && logged_in_order(
            old(session).turn_log@,
            final(session).turn_log@,
            old(session).pipeline.steps@,
        ) && logged_with_answers(*runner, old(session).turn_log@, final(session).turn_log@, old(session).pipeline.steps@)
            && (r is Ok ==> (r matches Ok(ExecuteOutcome::Completed))),
        (forall|k: int|
            0 <= k < old(session).pipeline.steps@.len() ==> plain_step(#[trigger] old(session).pipeline.steps@[k]))
            && O::runs_unskipped_steps() && r is Ok ==> {
            &&& r matches Ok(ExecuteOutcome::Completed)
            &&& logs_each_step(old(session).turn_log@, final(session).turn_log@, old(session).pipeline.steps@)
        },
        old(session).pipeline.steps@.len() == 0 ==> (r matches Ok(ExecuteOutcome::Completed)
            && final(session).turn_log@ == old(session).turn_log@),
        old(session).pipeline.steps@.len() > 0 && no_async(old(session).pipeline.steps@)
            && old(session).pipeline.steps@[0].condition is None && old(observer).stops_every_step() ==> (r matches Ok(
            ExecuteOutcome::Completed,
        ) && final(session).turn_log@ == old(session).turn_log@),
        O::runs_unskipped_steps() && old(session).pipeline.steps@.len() > 0 && no_async(old(session).pipeline.steps@)
            && first_prompt_unresolved(old(session).pipeline.steps@[0], *old(session)) ==> (r matches Err(e) && e.kind() == ErrorKind::TemplateUnresolved && final(session).turn_log@ == old(
            session,
        ).turn_log@),
    decreases MAX_SUB_PIPELINE_DEPTH - depth, 5int, vstd::pervasive::arbitrary::<Step>(), 0int,
{
    let mut pipeline = empty_pipeline();
    std::mem::swap(&mut pipeline, &mut session.pipeline);
    let ghost placeholder = session.pipeline;
    let mut has_async = false;
    let mut k: usize = 0;
    while k < pipeline.steps.len()
        invariant
            k <= pipeline.steps@.len(),
            !has_async ==> forall|j: int| 0 <= j < k ==> !(#[trigger] pipeline.steps@[j]).async_step,
            has_async ==> exists|j: int| 0 <= j < k && (#[trigger] pipeline.steps@[j]).async_step,
        decreases pipeline.steps@.len() - k,
    {
        if pipeline.steps[k].async_step {
            has_async = true;
        }
        k += 1;
    }
    proof {
        if pipeline.steps@.len() > 0 {
            if let StepBody::Prompt(t) = pipeline.steps@[0].body {
                crate::template::lemma_render_same(*session, *old(session), t@, 0);
            }
        }
    }
    let r = if has_async {
        proof {
            let j = choose|j: int| 0 <= j < k && (#[trigger] pipeline.steps@[j]).async_step;
            assert(!plain_step(pipeline.steps@[j]));
        }
        run_steps_with_async(&pipeline, &pipeline.steps, session, runner, observer, effects, depth)
    } else {
        match run_steps(&pipeline, &pipeline.steps, 0, session, runner, observer, effects, depth) {
            Ok(RunEnd::Done(o)) => Ok(o),
            Err(e) => Err(e),
            Ok(RunEnd::Reload(anchor)) => resume_after_reloads(&mut pipeline, anchor, session, runner, observer, effects, depth),
        }
    };
    std::mem::swap(&mut pipeline, &mut session.pipeline);
    r
}

/// Run the session's pipeline headless: conditions skip steps, human gates
/// follow the steps' headless settings, and no events are sent.
pub fn execute<R: Runner, E: StepEffects>(session: &mut Session, runner: &R, effects: &mut E) -> (r: Result<ExecuteOutcome, AilError>)
    ensures
        final(session).run_id == old(session).run_id,
        old(session).reload_count <= final(session).reload_count,
        within_reload_cap(old(session).reload_count, final(session).reload_count),
        final(session).reload_count == old(session).reload_count ==> final(session).pipeline == old(session).pipeline,
        r matches Ok(o) ==> (o is Completed || o is Break),
        final(session).reload_count == old(session).reload_count ==> (r matches Ok(ExecuteOutcome::Break { step_id })
            ==> exists|k: int|
            0 <= k < old(session).pipeline.steps@.len() && (#[trigger] old(session).pipeline.steps@[k]).id.0@
                == step_id@ && declares_break(old(session).pipeline.steps@[k])),
        (forall|k: int|
            0 <= k < old(session).pipeline.steps@.len() ==> plain_step(#[trigger] old(session).pipeline.steps@[k]))
            ==> {
            &&& final(session).reload_count == old(session).reload_count
            &&& logged_in_order(old(session).turn_log@, final(session).turn_log@, old(session).pipeline.steps@)
            &&& logged_with_answers(*runner, old(session).turn_log@, final(session).turn_log@, old(session).pipeline.steps@)
            &&& r is Ok ==> (r matches Ok(ExecuteOutcome::Completed))
            &&& r is Ok ==> logs_each_step(
                old(session).turn_log@,
                final(session).turn_log@,
                old(session).pipeline.steps@,
            )
        },
        old(session).pipeline.steps@.len() == 0 ==> (r matches Ok(ExecuteOutcome::Completed)
            && final(session).turn_log@ == old(session).turn_log@),
        old(session).pipeline.steps@.len() > 0 && no_async(old(session).pipeline.steps@) && first_prompt_unresolved(
            old(session).pipeline.steps@[0],
            *old(session),
        ) ==> (r matches Err(e) && e.kind() == ErrorKind::TemplateUnresolved && final(session).turn_log@ == old(
            session,
        ).turn_log@),
{
    let mut observer = NullObserver;
    execute_core(session, runner, &mut observer, effects, 0)
}

} // verus!
