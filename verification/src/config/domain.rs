//! Validated pipeline model.
use vstd::prelude::*;
use vstd::string::*;

verus! {

/// One entry in an `append_system_prompt:` array.
#[derive(Debug, Clone, PartialEq)]
pub enum SystemPromptEntry {
    /// Inline text, appended verbatim.
    Text(String),
    /// Path to a file whose contents are read at step runtime.
    File(String),
    /// Shell command whose output is injected at step runtime.
    Shell(String),
}

/// Maximum depth for nested sub-pipeline calls.
pub const MAX_SUB_PIPELINE_DEPTH: usize = 16;

/// Maximum nesting depth for loop constructs (`do_while`, `for_each`).
pub const MAX_LOOP_DEPTH: usize = 8;

/// Maximum number of `action: reload_self` invocations per pipeline run.
pub const MAX_RELOADS_PER_RUN: usize = 16;

/// Provider and model configuration. All fields are optional; unset fields
/// fall back to lower-precedence scopes.
#[derive(Debug, Clone, Default)]
pub struct ProviderConfig {
    pub model: Option<String>,
    pub base_url: Option<String>,
    pub auth_token: Option<String>,
    pub connect_timeout_seconds: Option<u64>,
    pub read_timeout_seconds: Option<u64>,
    pub max_history_messages: Option<usize>,
}

/// `b` if present, else `a`.
pub open spec fn or_else<T>(b: Option<T>, a: Option<T>) -> Option<T> {
    match b {
        Some(x) => Some(x),
        None => a,
    }
}

impl ProviderConfig {
    /// The field-wise merge of `other` on top of `self`.
    pub open spec fn merged(self, other: ProviderConfig) -> ProviderConfig {
        ProviderConfig {
            model: or_else(other.model, self.model),
            base_url: or_else(other.base_url, self.base_url),
            auth_token: or_else(other.auth_token, self.auth_token),
            connect_timeout_seconds: or_else(other.connect_timeout_seconds, self.connect_timeout_seconds),
            read_timeout_seconds: or_else(other.read_timeout_seconds, self.read_timeout_seconds),
            max_history_messages: or_else(other.max_history_messages, self.max_history_messages),
        }
    }

    /// Merge another `ProviderConfig` on top of `self`, with `other` taking
    /// precedence field by field.
    pub fn merge(self, other: ProviderConfig) -> (r: ProviderConfig)
        ensures
            r == self.merged(other),
    {
        ProviderConfig {
            model: match other.model { Some(x) => Some(x), None => self.model },
            base_url: match other.base_url { Some(x) => Some(x), None => self.base_url },
            auth_token: match other.auth_token { Some(x) => Some(x), None => self.auth_token },
            connect_timeout_seconds: match other.connect_timeout_seconds {
                Some(x) => Some(x),
                None => self.connect_timeout_seconds,
            },
            read_timeout_seconds: match other.read_timeout_seconds {
                Some(x) => Some(x),
                None => self.read_timeout_seconds,
            },
            max_history_messages: match other.max_history_messages {
                Some(x) => Some(x),
                None => self.max_history_messages,
            },
        }
    }
}

/// Merging is associative: merging `b` then `c` onto `a` equals merging the
/// merge of `c` onto `b` onto `a`.
pub proof fn lemma_provider_merge_associative(a: ProviderConfig, b: ProviderConfig, c: ProviderConfig)
    ensures
        a.merged(b).merged(c) == a.merged(b.merged(c)),
{
}

/// Merging an all-empty config changes nothing, on either side.
pub proof fn lemma_provider_merge_identity(a: ProviderConfig, e: ProviderConfig)
    requires
        e.model is None,
        e.base_url is None,
        e.auth_token is None,
        e.connect_timeout_seconds is None,
        e.read_timeout_seconds is None,
        e.max_history_messages is None,
    ensures
        a.merged(e) == a,
        e.merged(a) == a,
{
}

/// A validated pipeline.
#[derive(Debug, Default)]
pub struct Pipeline {
    pub steps: Vec<Step>,
    /// Absolute path of the file the pipeline was loaded from.
    pub source: Option<String>,
    pub defaults: ProviderConfig,
    pub timeout_seconds: Option<u64>,
    pub default_tools: Option<ToolPolicy>,
    /// Named pipeline definitions, name → steps, in declaration order.
    pub named_pipelines: Vec<(String, Vec<Step>)>,
    pub max_concurrency: Option<u64>,
}

impl Pipeline {
    /// The pipeline used when no pipeline file is found: only the
    /// `invocation` step, whose prompt is the triggering prompt.
    pub fn passthrough() -> (p: Self)
        ensures
            p.steps@.len() == 1,
            p.steps@[0].id.0@ == "invocation"@,
            p.steps@[0].body matches StepBody::Prompt(t) && t@ == "{{ step.invocation.prompt }}"@,
            p.steps@[0].condition is None,
            p.steps@[0].on_result is None,
            p.steps@[0].before@.len() == 0,
            p.steps@[0].then_steps@.len() == 0,
            p.steps@[0].on_error is None,
            !p.steps@[0].async_step,
            p.source is None,
            p.named_pipelines@.len() == 0,
            p.default_tools is None,
            p.timeout_seconds is None,
            p.max_concurrency is None,
    {
        let step = Step {
            id: StepId(String::from_str("invocation")),
            body: StepBody::Prompt(String::from_str("{{ step.invocation.prompt }}")),
            message: None,
            tools: None,
            on_result: None,
            model: None,
            runner: None,
            condition: None,
            append_system_prompt: None,
            system_prompt: None,
            resume: false,
            async_step: false,
            depends_on: Vec::new(),
            on_error: None,
            before: Vec::new(),
            then_steps: Vec::new(),
            output_schema: None,
            input_schema: None,
        };
        let mut steps = Vec::new();
        steps.push(step);
        Pipeline {
            steps,
            source: None,
            defaults: ProviderConfig {
                model: None,
                base_url: None,
                auth_token: None,
                connect_timeout_seconds: None,
                read_timeout_seconds: None,
                max_history_messages: None,
            },
            timeout_seconds: None,
            default_tools: None,
            named_pipelines: Vec::new(),
            max_concurrency: None,
        }
    }
}

/// Controls whether a step executes.
#[derive(Debug, Clone)]
pub enum Condition {
    /// Step always executes.
    Always,
    /// Step is unconditionally skipped.
    Never,
    /// Comparison expression evaluated at runtime.
    Expression(ConditionExpr),
    /// Regex-match expression evaluated at runtime.
    Regex(RegexCondition),
}

/// A parsed condition expression.
#[derive(Debug, Clone, PartialEq)]
pub struct ConditionExpr {
    /// Left-hand side — a template string resolved at evaluation time.
    pub lhs: String,
    pub op: ConditionOp,
    /// Right-hand side — a literal value.
    pub rhs: String,
}

/// A parsed regex-match condition.
#[derive(Debug, Clone)]
pub struct RegexCondition {
    pub lhs: String,
    /// Compiled regex.
    pub regex: regex::Regex,
    /// Original `/PATTERN/FLAGS` literal.
    pub source: String,
    /// The pattern and flags the regex was compiled from; evaluation matches
    /// by them.
    pub pattern: String,
    pub case_insensitive: bool,
    pub multi_line: bool,
    pub dot_all: bool,
}

/// Comparison operators for condition expressions.
#[derive(Debug, Clone, Copy, PartialEq, Eq, Structural)]
pub enum ConditionOp {
    Eq,
    Ne,
    Contains,
    StartsWith,
    EndsWith,
}

/// Error handling strategy for a step.
#[derive(Debug, Clone, Copy, PartialEq, Eq, Structural)]
pub enum OnError {
    Continue,
    Retry { max_retries: u32 },
    AbortPipeline,
}

/// One pipeline step.
#[derive(Debug)]
pub struct Step {
    pub id: StepId,
    pub body: StepBody,
    pub message: Option<String>,
    pub tools: Option<ToolPolicy>,
    pub on_result: Option<Vec<ResultBranch>>,
    pub model: Option<String>,
    pub runner: Option<String>,
    pub condition: Option<Condition>,
    pub append_system_prompt: Option<Vec<SystemPromptEntry>>,
    pub system_prompt: Option<String>,
    pub resume: bool,
    pub async_step: bool,
    pub depends_on: Vec<StepId>,
    pub on_error: Option<OnError>,
    pub before: Vec<Step>,
    pub then_steps: Vec<Step>,
    /// The JSON Schema the step's response must satisfy, as JSON text.
    pub output_schema: Option<String>,
    /// The JSON Schema the preceding response must satisfy, as JSON text.
    pub input_schema: Option<String>,
}

/// Pre-approved and pre-denied tools for a step.
#[derive(Debug, Default, Clone)]
pub struct ToolPolicy {
    /// When `true`, disables all tools. Overrides `allow` and `deny`.
    pub disabled: bool,
    pub allow: Vec<String>,
    pub deny: Vec<String>,
}

/// A step identifier.
#[derive(Debug, Clone)]
pub struct StepId(pub String);

impl StepId {
    /// The identifier text.
    pub fn as_str(&self) -> (s: &str)
        ensures
            s@ == self.0@,
    {
        self.0.as_str()
    }
}

/// What a step does.
#[derive(Debug)]
pub enum StepBody {
    Prompt(String),
    /// A named skill invocation.
    Skill { name: String },
    /// Path to a sub-pipeline file; `prompt` overrides the child invocation prompt.
    SubPipeline { path: String, prompt: Option<String> },
    /// Reference to a named pipeline of the `pipelines:` section.
    NamedPipeline { name: String, prompt: Option<String> },
    Action(ActionKind),
    Context(ContextSource),
    /// Bounded repeat-until loop.
    DoWhile { max_iterations: u64, exit_when: ConditionExpr, steps: Vec<Step> },
    /// Collection iteration.
    ForEach {
        over: String,
        as_name: String,
        max_items: Option<u64>,
        on_max_items: OnMaxItems,
        steps: Vec<Step>,
    },
}

/// Behavior when a `for_each:` array exceeds `max_items`.
#[derive(Debug, Clone, Copy, PartialEq, Eq, Structural)]
pub enum OnMaxItems {
    Continue,
    AbortPipeline,
}

/// Source of a context step.
#[derive(Debug, Clone)]
pub enum ContextSource {
    Shell(String),
}

/// Built-in actions.
#[derive(Debug, Clone)]
pub enum ActionKind {
    PauseForHuman,
    /// HITL modify gate.
    ModifyOutput { headless_behavior: HitlHeadlessBehavior, default_value: Option<String> },
    /// Synchronization barrier over `depends_on` steps.
    Join { on_error_mode: JoinErrorMode },
    /// Hot-reload the active pipeline from its source file.
    ReloadSelf,
}

/// Error handling mode for `action: join` steps.
#[derive(Debug, Clone, Copy, PartialEq, Eq, Structural)]
pub enum JoinErrorMode {
    FailFast,
    WaitForAll,
}

/// Behavior for HITL gates in headless mode.
#[derive(Debug, Clone, Copy, PartialEq, Eq, Structural)]
pub enum HitlHeadlessBehavior {
    Skip,
    Abort,
    UseDefault,
}

/// One branch in an `on_result` array.
#[derive(Debug, Clone)]
pub struct ResultBranch {
    pub matcher: ResultMatcher,
    pub action: ResultAction,
}

/// What an `on_result` branch tests.
#[derive(Debug, Clone)]
pub enum ResultMatcher {
    Contains(String),
    ExitCode(ExitCodeMatch),
    /// Exact equality against a named field of the validated JSON input.
    /// `equals` is the expected value as JSON text.
    Field { name: String, equals: String },
    /// A condition expression matcher; `source` keeps the original text.
    Expression { source: String, condition: Condition },
    Always,
}

/// Matches process exit codes. `Any` matches any non-zero code.
#[derive(Debug, Clone, Copy, PartialEq, Eq, Structural)]
pub enum ExitCodeMatch {
    Exact(i32),
    Any,
}

/// What happens when an `on_result` branch matches.
#[derive(Debug, Clone)]
pub enum ResultAction {
    Continue,
    Break,
    AbortPipeline,
    PauseForHuman,
    /// Conditionally call another pipeline.
    Pipeline { path: String, prompt: Option<String> },
}

} // verus!
