//! Raw pipeline-file shapes, as read from YAML.
use vstd::prelude::*;

verus! {

#[derive(Debug, Default)]
pub struct PipelineFileDto {
    pub version: Option<String>,
    /// `FROM` field for pipeline inheritance.
    pub from: Option<String>,
    pub defaults: Option<DefaultsDto>,
    pub pipeline: Option<Vec<StepDto>>,
    /// Named pipeline definitions, name → steps, in file order.
    pub pipelines: Option<Vec<(String, Vec<StepDto>)>>,
}

#[derive(Debug, Default)]
pub struct DefaultsDto {
    pub model: Option<String>,
    pub provider: Option<ProviderDto>,
    pub timeout_seconds: Option<u64>,
    pub tools: Option<ToolsDto>,
    pub max_concurrency: Option<u64>,
}

#[derive(Debug, Default)]
pub struct ProviderDto {
    pub model: Option<String>,
    pub base_url: Option<String>,
    pub auth_token: Option<String>,
    pub connect_timeout_seconds: Option<u64>,
    pub read_timeout_seconds: Option<u64>,
    pub max_history_messages: Option<usize>,
}

#[derive(Debug, Default)]
pub struct StepDto {
    pub id: Option<String>,
    pub prompt: Option<String>,
    pub skill: Option<String>,
    pub pipeline: Option<String>,
    pub action: Option<String>,
    pub message: Option<String>,
    pub on_headless: Option<String>,
    pub default_value: Option<String>,
    pub context: Option<ContextDto>,
    pub tools: Option<ToolsDto>,
    pub on_result: Option<OnResultDto>,
    pub model: Option<String>,
    pub runner: Option<String>,
    pub condition: Option<String>,
    pub append_system_prompt: Option<Vec<AppendSystemPromptEntryDto>>,
    pub system_prompt: Option<String>,
    pub resume: Option<bool>,
    /// Hook operation: insert this step immediately before the named step.
    pub run_before: Option<String>,
    /// Hook operation: insert this step immediately after the named step.
    pub run_after: Option<String>,
    /// Hook operation: replace the named step.
    pub override_step: Option<String>,
    /// Hook operation: remove the named step.
    pub disable: Option<String>,
    pub on_error: Option<String>,
    pub max_retries: Option<u32>,
    pub before: Option<Vec<ChainStepDto>>,
    pub then_steps: Option<Vec<ChainStepDto>>,
    pub async_step: Option<bool>,
    pub depends_on: Option<Vec<String>>,
    pub do_while: Option<DoWhileDto>,
    pub for_each: Option<ForEachDto>,
    /// The output schema as JSON text.
    pub output_schema: Option<String>,
    /// The input schema as JSON text.
    pub input_schema: Option<String>,
}

/// A step entry in a `before:` or `then:` chain.
#[derive(Debug)]
pub enum ChainStepDto {
    /// Bare string form.
    Short(String),
    /// Full step block.
    Full(Box<StepDto>),
}

#[derive(Debug, Default)]
pub struct ContextDto {
    pub shell: Option<String>,
}

#[derive(Debug, Default)]
pub struct DoWhileDto {
    pub max_iterations: Option<u64>,
    pub exit_when: Option<String>,
    pub steps: Option<Vec<StepDto>>,
    pub pipeline: Option<String>,
}

#[derive(Debug, Default)]
pub struct ForEachDto {
    pub over: Option<String>,
    pub as_name: Option<String>,
    pub max_items: Option<u64>,
    pub on_max_items: Option<String>,
    pub steps: Option<Vec<StepDto>>,
    pub pipeline: Option<String>,
}

/// The two shapes of `on_result:`.
#[derive(Debug)]
pub enum OnResultDto {
    Branches(Vec<OnResultBranchDto>),
    FieldEquals(Box<FieldEqualsDto>),
}

#[derive(Debug, Default)]
pub struct OnResultBranchDto {
    pub contains: Option<String>,
    pub exit_code: Option<ExitCodeDto>,
    pub matches: Option<String>,
    pub expression: Option<String>,
    pub always: Option<bool>,
    pub action: Option<String>,
    pub prompt: Option<String>,
}

#[derive(Debug)]
pub struct FieldEqualsDto {
    pub field: String,
    /// The expected value as JSON text.
    pub equals: String,
    pub if_true: FieldEqualsActionDto,
    pub if_false: Option<FieldEqualsActionDto>,
}

#[derive(Debug)]
pub struct FieldEqualsActionDto {
    pub action: String,
    pub message: Option<String>,
    pub prompt: Option<String>,
}

/// `exit_code: 0` (integer) or `exit_code: any` (keyword).
#[derive(Debug)]
pub enum ExitCodeDto {
    Integer(i32),
    Keyword(String),
}

#[derive(Debug)]
pub struct ToolsDto {
    pub disabled: bool,
    pub allow: Vec<String>,
    pub deny: Vec<String>,
}

#[derive(Debug)]
pub enum AppendSystemPromptEntryDto {
    Text(String),
    Structured(AppendSystemPromptStructuredDto),
}

#[derive(Debug)]
pub struct AppendSystemPromptStructuredDto {
    pub text: Option<String>,
    pub file: Option<String>,
    pub shell: Option<String>,
}

} // verus!
