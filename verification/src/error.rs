//! RFC 9457-inspired error type used throughout the library.
//!
//! Each variant carries a stable `error_type` string (see [`error_types`]), a
//! human-readable `detail`, and an optional step-scoped [`ErrorContext`].
use vstd::prelude::*;
use vstd::string::*;

pub mod error_types;

verus! {

/// Hint returned by [`AilError::recovery_strategy`] telling callers how to react.
#[derive(Debug, Clone, Copy, PartialEq, Eq, Structural)]
pub enum RecoveryStrategy {
    /// Fatal — stop the pipeline immediately.
    Abort,
    /// Skip this step and continue the pipeline.
    Skip,
    /// Transient failure — retry up to `max_attempts` times.
    Retry { max_attempts: u32 },
    /// Transient failure — retry with exponential backoff.
    RetryWithBackoff { max_attempts: u32, base_ms: u64 },
    /// Unrecoverable without user input.
    HumanIntervention,
}

/// Step-scoped context attached to an error.
#[derive(Debug, Clone)]
pub struct ErrorContext {
    pub pipeline_run_id: Option<String>,
    pub step_id: Option<String>,
    pub source: Option<String>,
}

/// The view of an optional string: its characters, when present.
pub open spec fn opt_view(o: Option<String>) -> Option<Seq<char>> {
    match o {
        Some(s) => Some(s@),
        None => None,
    }
}

impl ErrorContext {
    /// The context as plain values: run id, step id, source.
    pub open spec fn view_triple(self) -> (Option<Seq<char>>, Option<Seq<char>>, Option<Seq<char>>) {
        (opt_view(self.pipeline_run_id), opt_view(self.step_id), opt_view(self.source))
    }

    /// Construct a step-scoped context with `pipeline_run_id` and `step_id` set.
    pub fn for_step(run_id: &str, step_id: &str) -> (ctx: Self)
        ensures
            ctx.view_triple() == (Some(run_id@), Some(step_id@), None::<Seq<char>>),
    {
        ErrorContext {
            pipeline_run_id: Some(String::from_str(run_id)),
            step_id: Some(String::from_str(step_id)),
            source: None,
        }
    }
}

/// The kind of an [`AilError`], one per variant.
#[derive(PartialEq, Eq, Structural)]
pub enum ErrorKind {
    ConfigInvalidYaml,
    ConfigFileNotFound,
    ConfigValidationFailed,
    TemplateUnresolved,
    RunnerInvocationFailed,
    RunnerCancelled,
    RunnerNotFound,
    PipelineAborted,
    StorageQueryFailed,
    RunNotFound,
    StorageDeleteFailed,
    PluginManifestInvalid,
    PluginSpawnFailed,
    PluginProtocolError,
    PluginTimeout,
    ConditionInvalid,
    PipelineCircularReference,
    CircularInheritance,
    SkillUnknown,
}

/// The stable `error_type` string of each kind.
pub open spec fn kind_type_name(k: ErrorKind) -> Seq<char> {
    match k {
        ErrorKind::ConfigInvalidYaml => error_types::CONFIG_INVALID_YAML@,
        ErrorKind::ConfigFileNotFound => error_types::CONFIG_FILE_NOT_FOUND@,
        ErrorKind::ConfigValidationFailed => error_types::CONFIG_VALIDATION_FAILED@,
        ErrorKind::TemplateUnresolved => error_types::TEMPLATE_UNRESOLVED@,
        ErrorKind::RunnerInvocationFailed => error_types::RUNNER_INVOCATION_FAILED@,
        ErrorKind::RunnerCancelled => error_types::RUNNER_CANCELLED@,
        ErrorKind::RunnerNotFound => error_types::RUNNER_NOT_FOUND@,
        ErrorKind::PipelineAborted => error_types::PIPELINE_ABORTED@,
        ErrorKind::StorageQueryFailed => error_types::STORAGE_QUERY_FAILED@,
        ErrorKind::RunNotFound => error_types::RUN_NOT_FOUND@,
        ErrorKind::StorageDeleteFailed => error_types::STORAGE_DELETE_FAILED@,
        ErrorKind::PluginManifestInvalid => error_types::PLUGIN_MANIFEST_INVALID@,
        ErrorKind::PluginSpawnFailed => error_types::PLUGIN_SPAWN_FAILED@,
        ErrorKind::PluginProtocolError => error_types::PLUGIN_PROTOCOL_ERROR@,
        ErrorKind::PluginTimeout => error_types::PLUGIN_TIMEOUT@,
        ErrorKind::ConditionInvalid => error_types::CONDITION_INVALID@,
        ErrorKind::PipelineCircularReference => error_types::PIPELINE_CIRCULAR_REFERENCE@,
        ErrorKind::CircularInheritance => error_types::CIRCULAR_INHERITANCE@,
        ErrorKind::SkillUnknown => error_types::SKILL_UNKNOWN@,
    }
}

/// Each kind of error has its own `error_type` string: no two kinds share
/// one, so downstream tooling can tell every kind apart by it.
#[verifier::rlimit(50)]
pub proof fn lemma_error_type_names_distinct(a: ErrorKind, b: ErrorKind)
    requires
        a != b,
    ensures
        kind_type_name(a) != kind_type_name(b),
{
    reveal_strlit("ail:config/invalid-yaml");
    reveal_strlit("ail:config/file-not-found");
    reveal_strlit("ail:config/validation-failed");
    reveal_strlit("ail:template/unresolved-variable");
    reveal_strlit("ail:runner/invocation-failed");
    reveal_strlit("ail:runner/cancelled");
    reveal_strlit("ail:runner/not-found");
    reveal_strlit("ail:pipeline/aborted");
    reveal_strlit("ail:storage/query-failed");
    reveal_strlit("ail:storage/run-not-found");
    reveal_strlit("ail:storage/delete-failed");
    reveal_strlit("ail:plugin/manifest-invalid");
    reveal_strlit("ail:plugin/spawn-failed");
    reveal_strlit("ail:plugin/protocol-error");
    reveal_strlit("ail:plugin/timeout");
    reveal_strlit("ail:condition/invalid");
    reveal_strlit("ail:pipeline/circular-reference");
    reveal_strlit("ail:config/circular-inheritance");
    reveal_strlit("ail:skill/unknown");
    let x = kind_type_name(a);
    let y = kind_type_name(b);
    if x == y {
        assert(x[4] == y[4] && x[5] == y[5] && x[6] == y[6] && x[7] == y[7] && x[8] == y[8]);
        assert(x[9] == y[9] && x[10] == y[10] && x[11] == y[11] && x[12] == y[12] && x[13] == y[13]);
    }
}

/// Error type of the library. Each variant holds the human-readable `detail`
/// and an optional step-scoped context.
#[derive(Debug)]
pub enum AilError {
    ConfigInvalidYaml { detail: String, context: Option<ErrorContext> },
    ConfigFileNotFound { detail: String, context: Option<ErrorContext> },
    ConfigValidationFailed { detail: String, context: Option<ErrorContext> },
    TemplateUnresolved { detail: String, context: Option<ErrorContext> },
    RunnerInvocationFailed { detail: String, context: Option<ErrorContext> },
    RunnerCancelled { detail: String, context: Option<ErrorContext> },
    RunnerNotFound { detail: String, context: Option<ErrorContext> },
    PipelineAborted { detail: String, context: Option<ErrorContext> },
    StorageQueryFailed { detail: String, context: Option<ErrorContext> },
    RunNotFound { detail: String, context: Option<ErrorContext> },
    StorageDeleteFailed { detail: String, context: Option<ErrorContext> },
    PluginManifestInvalid { detail: String, context: Option<ErrorContext> },
    PluginSpawnFailed { detail: String, context: Option<ErrorContext> },
    PluginProtocolError { detail: String, context: Option<ErrorContext> },
    PluginTimeout { detail: String, context: Option<ErrorContext> },
    ConditionInvalid { detail: String, context: Option<ErrorContext> },
    PipelineCircularReference { detail: String, context: Option<ErrorContext> },
    CircularInheritance { detail: String, context: Option<ErrorContext> },
    SkillUnknown { detail: String, context: Option<ErrorContext> },
}

/// Build the error of kind `k` from its parts (spec-level constructor).
pub open spec fn make_error(k: ErrorKind, detail: String, context: Option<ErrorContext>) -> AilError {
    match k {
        ErrorKind::ConfigInvalidYaml => AilError::ConfigInvalidYaml { detail, context },
        ErrorKind::ConfigFileNotFound => AilError::ConfigFileNotFound { detail, context },
        ErrorKind::ConfigValidationFailed => AilError::ConfigValidationFailed { detail, context },
        ErrorKind::TemplateUnresolved => AilError::TemplateUnresolved { detail, context },
        ErrorKind::RunnerInvocationFailed => AilError::RunnerInvocationFailed { detail, context },
        ErrorKind::RunnerCancelled => AilError::RunnerCancelled { detail, context },
        ErrorKind::RunnerNotFound => AilError::RunnerNotFound { detail, context },
        ErrorKind::PipelineAborted => AilError::PipelineAborted { detail, context },
        ErrorKind::StorageQueryFailed => AilError::StorageQueryFailed { detail, context },
        ErrorKind::RunNotFound => AilError::RunNotFound { detail, context },
        ErrorKind::StorageDeleteFailed => AilError::StorageDeleteFailed { detail, context },
        ErrorKind::PluginManifestInvalid => AilError::PluginManifestInvalid { detail, context },
        ErrorKind::PluginSpawnFailed => AilError::PluginSpawnFailed { detail, context },
        ErrorKind::PluginProtocolError => AilError::PluginProtocolError { detail, context },
        ErrorKind::PluginTimeout => AilError::PluginTimeout { detail, context },
        ErrorKind::ConditionInvalid => AilError::ConditionInvalid { detail, context },
        ErrorKind::PipelineCircularReference => AilError::PipelineCircularReference { detail, context },
        ErrorKind::CircularInheritance => AilError::CircularInheritance { detail, context },
        ErrorKind::SkillUnknown => AilError::SkillUnknown { detail, context },
    }
}

impl AilError {
    /// The kind (variant) of this error.
    pub open spec fn kind(self) -> ErrorKind {
        match self {
            AilError::ConfigInvalidYaml { .. } => ErrorKind::ConfigInvalidYaml,
            AilError::ConfigFileNotFound { .. } => ErrorKind::ConfigFileNotFound,
            AilError::ConfigValidationFailed { .. } => ErrorKind::ConfigValidationFailed,
            AilError::TemplateUnresolved { .. } => ErrorKind::TemplateUnresolved,
            AilError::RunnerInvocationFailed { .. } => ErrorKind::RunnerInvocationFailed,
            AilError::RunnerCancelled { .. } => ErrorKind::RunnerCancelled,
            AilError::RunnerNotFound { .. } => ErrorKind::RunnerNotFound,
            AilError::PipelineAborted { .. } => ErrorKind::PipelineAborted,
            AilError::StorageQueryFailed { .. } => ErrorKind::StorageQueryFailed,
            AilError::RunNotFound { .. } => ErrorKind::RunNotFound,
            AilError::StorageDeleteFailed { .. } => ErrorKind::StorageDeleteFailed,
            AilError::PluginManifestInvalid { .. } => ErrorKind::PluginManifestInvalid,
            AilError::PluginSpawnFailed { .. } => ErrorKind::PluginSpawnFailed,
            AilError::PluginProtocolError { .. } => ErrorKind::PluginProtocolError,
            AilError::PluginTimeout { .. } => ErrorKind::PluginTimeout,
            AilError::ConditionInvalid { .. } => ErrorKind::ConditionInvalid,
            AilError::PipelineCircularReference { .. } => ErrorKind::PipelineCircularReference,
            AilError::CircularInheritance { .. } => ErrorKind::CircularInheritance,
            AilError::SkillUnknown { .. } => ErrorKind::SkillUnknown,
        }
    }

    /// The detail message of this error, as a string value.
    pub open spec fn detail_string(self) -> String {
        match self {
            AilError::ConfigInvalidYaml { detail, .. } => detail,
            AilError::ConfigFileNotFound { detail, .. } => detail,
            AilError::ConfigValidationFailed { detail, .. } => detail,
            AilError::TemplateUnresolved { detail, .. } => detail,
            AilError::RunnerInvocationFailed { detail, .. } => detail,
            AilError::RunnerCancelled { detail, .. } => detail,
            AilError::RunnerNotFound { detail, .. } => detail,
            AilError::PipelineAborted { detail, .. } => detail,
            AilError::StorageQueryFailed { detail, .. } => detail,
            AilError::RunNotFound { detail, .. } => detail,
            AilError::StorageDeleteFailed { detail, .. } => detail,
            AilError::PluginManifestInvalid { detail, .. } => detail,
            AilError::PluginSpawnFailed { detail, .. } => detail,
            AilError::PluginProtocolError { detail, .. } => detail,
            AilError::PluginTimeout { detail, .. } => detail,
            AilError::ConditionInvalid { detail, .. } => detail,
            AilError::PipelineCircularReference { detail, .. } => detail,
            AilError::CircularInheritance { detail, .. } => detail,
            AilError::SkillUnknown { detail, .. } => detail,
        }
    }

    /// The detail message, as characters.
    pub open spec fn detail_view(self) -> Seq<char> {
        self.detail_string()@
    }

    /// The optional context of this error.
    pub open spec fn context_value(self) -> Option<ErrorContext> {
        match self {
            AilError::ConfigInvalidYaml { context, .. } => context,
            AilError::ConfigFileNotFound { context, .. } => context,
            AilError::ConfigValidationFailed { context, .. } => context,
            AilError::TemplateUnresolved { context, .. } => context,
            AilError::RunnerInvocationFailed { context, .. } => context,
            AilError::RunnerCancelled { context, .. } => context,
            AilError::RunnerNotFound { context, .. } => context,
            AilError::PipelineAborted { context, .. } => context,
            AilError::StorageQueryFailed { context, .. } => context,
            AilError::RunNotFound { context, .. } => context,
            AilError::StorageDeleteFailed { context, .. } => context,
            AilError::PluginManifestInvalid { context, .. } => context,
            AilError::PluginSpawnFailed { context, .. } => context,
            AilError::PluginProtocolError { context, .. } => context,
            AilError::PluginTimeout { context, .. } => context,
            AilError::ConditionInvalid { context, .. } => context,
            AilError::PipelineCircularReference { context, .. } => context,
            AilError::CircularInheritance { context, .. } => context,
            AilError::SkillUnknown { context, .. } => context,
        }
    }

    /// The stable `error_type` string of this error.
    pub open spec fn error_type_view(self) -> Seq<char> {
        kind_type_name(self.kind())
    }

    /// The display form: `[<error_type>] <detail>`.
    pub open spec fn display_view(self) -> Seq<char> {
        "["@ + self.error_type_view() + "] "@ + self.detail_view()
    }

    /// The recovery hint of this error.
    pub open spec fn recovery_view(self) -> RecoveryStrategy {
        match self.kind() {
            ErrorKind::RunnerInvocationFailed => RecoveryStrategy::Retry { max_attempts: 2 },
            ErrorKind::PluginSpawnFailed => RecoveryStrategy::Retry { max_attempts: 2 },
            ErrorKind::PluginTimeout => RecoveryStrategy::Retry { max_attempts: 2 },
            _ => RecoveryStrategy::Abort,
        }
    }

    /// Whether this error is of kind `k`, has detail `d` and no context.
    pub open spec fn is_fresh(self, k: ErrorKind, d: Seq<char>) -> bool {
        &&& self.kind() == k
        &&& self.detail_view() == d
        &&& self.context_value() is None
    }

    /// Return the stable `error_type` string for this error variant.
    pub fn error_type(&self) -> (t: &'static str)
        ensures
            t@ == self.error_type_view(),
    {
        match self {
            AilError::ConfigInvalidYaml { .. } => error_types::CONFIG_INVALID_YAML,
            AilError::ConfigFileNotFound { .. } => error_types::CONFIG_FILE_NOT_FOUND,
            AilError::ConfigValidationFailed { .. } => error_types::CONFIG_VALIDATION_FAILED,
            AilError::TemplateUnresolved { .. } => error_types::TEMPLATE_UNRESOLVED,
            AilError::RunnerInvocationFailed { .. } => error_types::RUNNER_INVOCATION_FAILED,
            AilError::RunnerCancelled { .. } => error_types::RUNNER_CANCELLED,
            AilError::RunnerNotFound { .. } => error_types::RUNNER_NOT_FOUND,
            AilError::PipelineAborted { .. } => error_types::PIPELINE_ABORTED,
            AilError::StorageQueryFailed { .. } => error_types::STORAGE_QUERY_FAILED,
            AilError::RunNotFound { .. } => error_types::RUN_NOT_FOUND,
            AilError::StorageDeleteFailed { .. } => error_types::STORAGE_DELETE_FAILED,
            AilError::PluginManifestInvalid { .. } => error_types::PLUGIN_MANIFEST_INVALID,
            AilError::PluginSpawnFailed { .. } => error_types::PLUGIN_SPAWN_FAILED,
            AilError::PluginProtocolError { .. } => error_types::PLUGIN_PROTOCOL_ERROR,
            AilError::PluginTimeout { .. } => error_types::PLUGIN_TIMEOUT,
            AilError::ConditionInvalid { .. } => error_types::CONDITION_INVALID,
            AilError::PipelineCircularReference { .. } => error_types::PIPELINE_CIRCULAR_REFERENCE,
            AilError::CircularInheritance { .. } => error_types::CIRCULAR_INHERITANCE,
            AilError::SkillUnknown { .. } => error_types::SKILL_UNKNOWN,
        }
    }

    /// Borrow the human-readable detail message.
    pub fn detail(&self) -> (d: &str)
        ensures
            d@ == self.detail_view(),
    {
        match self {
            AilError::ConfigInvalidYaml { detail, .. } => detail.as_str(),
            AilError::ConfigFileNotFound { detail, .. } => detail.as_str(),
            AilError::ConfigValidationFailed { detail, .. } => detail.as_str(),
            AilError::TemplateUnresolved { detail, .. } => detail.as_str(),
            AilError::RunnerInvocationFailed { detail, .. } => detail.as_str(),
            AilError::RunnerCancelled { detail, .. } => detail.as_str(),
            AilError::RunnerNotFound { detail, .. } => detail.as_str(),
            AilError::PipelineAborted { detail, .. } => detail.as_str(),
            AilError::StorageQueryFailed { detail, .. } => detail.as_str(),
            AilError::RunNotFound { detail, .. } => detail.as_str(),
            AilError::StorageDeleteFailed { detail, .. } => detail.as_str(),
            AilError::PluginManifestInvalid { detail, .. } => detail.as_str(),
            AilError::PluginSpawnFailed { detail, .. } => detail.as_str(),
            AilError::PluginProtocolError { detail, .. } => detail.as_str(),
            AilError::PluginTimeout { detail, .. } => detail.as_str(),
            AilError::ConditionInvalid { detail, .. } => detail.as_str(),
            AilError::PipelineCircularReference { detail, .. } => detail.as_str(),
            AilError::CircularInheritance { detail, .. } => detail.as_str(),
            AilError::SkillUnknown { detail, .. } => detail.as_str(),
        }
    }

    /// Consume this error and return the detail string by value.
    pub fn into_detail(self) -> (d: String)
        ensures
            d == self.detail_string(),
    {
        match self {
            AilError::ConfigInvalidYaml { detail, .. } => detail,
            AilError::ConfigFileNotFound { detail, .. } => detail,
            AilError::ConfigValidationFailed { detail, .. } => detail,
            AilError::TemplateUnresolved { detail, .. } => detail,
            AilError::RunnerInvocationFailed { detail, .. } => detail,
            AilError::RunnerCancelled { detail, .. } => detail,
            AilError::RunnerNotFound { detail, .. } => detail,
            AilError::PipelineAborted { detail, .. } => detail,
            AilError::StorageQueryFailed { detail, .. } => detail,
            AilError::RunNotFound { detail, .. } => detail,
            AilError::StorageDeleteFailed { detail, .. } => detail,
            AilError::PluginManifestInvalid { detail, .. } => detail,
            AilError::PluginSpawnFailed { detail, .. } => detail,
            AilError::PluginProtocolError { detail, .. } => detail,
            AilError::PluginTimeout { detail, .. } => detail,
            AilError::ConditionInvalid { detail, .. } => detail,
            AilError::PipelineCircularReference { detail, .. } => detail,
            AilError::CircularInheritance { detail, .. } => detail,
            AilError::SkillUnknown { detail, .. } => detail,
        }
    }

    /// Borrow the optional step-scoped context attached to this error.
    pub fn context(&self) -> (c: Option<&ErrorContext>)
        ensures
            match c {
                Some(r) => self.context_value() == Some(*r),
                None => self.context_value() is None,
            },
    {
        match self {
            AilError::ConfigInvalidYaml { context, .. } => context.as_ref(),
            AilError::ConfigFileNotFound { context, .. } => context.as_ref(),
            AilError::ConfigValidationFailed { context, .. } => context.as_ref(),
            AilError::TemplateUnresolved { context, .. } => context.as_ref(),
            AilError::RunnerInvocationFailed { context, .. } => context.as_ref(),
            AilError::RunnerCancelled { context, .. } => context.as_ref(),
            AilError::RunnerNotFound { context, .. } => context.as_ref(),
            AilError::PipelineAborted { context, .. } => context.as_ref(),
            AilError::StorageQueryFailed { context, .. } => context.as_ref(),
            AilError::RunNotFound { context, .. } => context.as_ref(),
            AilError::StorageDeleteFailed { context, .. } => context.as_ref(),
            AilError::PluginManifestInvalid { context, .. } => context.as_ref(),
            AilError::PluginSpawnFailed { context, .. } => context.as_ref(),
            AilError::PluginProtocolError { context, .. } => context.as_ref(),
            AilError::PluginTimeout { context, .. } => context.as_ref(),
            AilError::ConditionInvalid { context, .. } => context.as_ref(),
            AilError::PipelineCircularReference { context, .. } => context.as_ref(),
            AilError::CircularInheritance { context, .. } => context.as_ref(),
            AilError::SkillUnknown { context, .. } => context.as_ref(),
        }
    }

    /// Attach step-scoped context to this error, returning it. Kind and detail
    /// are kept; any earlier context is replaced.
    pub fn with_step_context(self, run_id: &str, step_id: &str) -> (e: Self)
        ensures
            e.kind() == self.kind(),
            e.detail_string() == self.detail_string(),
            e.context_value() matches Some(c)
                && c.view_triple() == (Some(run_id@), Some(step_id@), None::<Seq<char>>),
    {
        let ctx = Some(ErrorContext::for_step(run_id, step_id));
        match self {
            AilError::ConfigInvalidYaml { detail, .. } => AilError::ConfigInvalidYaml { detail, context: ctx },
            AilError::ConfigFileNotFound { detail, .. } => AilError::ConfigFileNotFound { detail, context: ctx },
            AilError::ConfigValidationFailed { detail, .. } => AilError::ConfigValidationFailed { detail, context: ctx },
            AilError::TemplateUnresolved { detail, .. } => AilError::TemplateUnresolved { detail, context: ctx },
            AilError::RunnerInvocationFailed { detail, .. } => AilError::RunnerInvocationFailed { detail, context: ctx },
            AilError::RunnerCancelled { detail, .. } => AilError::RunnerCancelled { detail, context: ctx },
            AilError::RunnerNotFound { detail, .. } => AilError::RunnerNotFound { detail, context: ctx },
            AilError::PipelineAborted { detail, .. } => AilError::PipelineAborted { detail, context: ctx },
            AilError::StorageQueryFailed { detail, .. } => AilError::StorageQueryFailed { detail, context: ctx },
            AilError::RunNotFound { detail, .. } => AilError::RunNotFound { detail, context: ctx },
            AilError::StorageDeleteFailed { detail, .. } => AilError::StorageDeleteFailed { detail, context: ctx },
            AilError::PluginManifestInvalid { detail, .. } => AilError::PluginManifestInvalid { detail, context: ctx },
            AilError::PluginSpawnFailed { detail, .. } => AilError::PluginSpawnFailed { detail, context: ctx },
            AilError::PluginProtocolError { detail, .. } => AilError::PluginProtocolError { detail, context: ctx },
            AilError::PluginTimeout { detail, .. } => AilError::PluginTimeout { detail, context: ctx },
            AilError::ConditionInvalid { detail, .. } => AilError::ConditionInvalid { detail, context: ctx },
            AilError::PipelineCircularReference { detail, .. } => AilError::PipelineCircularReference { detail, context: ctx },
            AilError::CircularInheritance { detail, .. } => AilError::CircularInheritance { detail, context: ctx },
            AilError::SkillUnknown { detail, .. } => AilError::SkillUnknown { detail, context: ctx },
        }
    }

    /// Return a [`RecoveryStrategy`] describing how the caller should react.
    /// The hint is advisory.
    pub fn recovery_strategy(&self) -> (r: RecoveryStrategy)
        ensures
            r == self.recovery_view(),
    {
        match self {
            AilError::RunnerInvocationFailed { .. } => RecoveryStrategy::Retry { max_attempts: 2 },
            AilError::PluginSpawnFailed { .. } => RecoveryStrategy::Retry { max_attempts: 2 },
            AilError::PluginTimeout { .. } => RecoveryStrategy::Retry { max_attempts: 2 },
            _ => RecoveryStrategy::Abort,
        }
    }

    /// Render the error as `[<error_type>] <detail>`; the context is not shown.
    pub fn to_string(&self) -> (s: String)
        ensures
            s@ == self.display_view(),
    {
        let mut s = String::from_str("[");
        s.append(self.error_type());
        s.append("] ");
        s.append(self.detail());
        s
    }

    /// Build a `ConfigInvalidYaml` error with no context.
    pub fn config_invalid_yaml(detail: &str) -> (e: Self)
        ensures
            e.is_fresh(ErrorKind::ConfigInvalidYaml, detail@),
    {
        AilError::ConfigInvalidYaml { detail: String::from_str(detail), context: None }
    }

    /// Build a `ConfigFileNotFound` error with no context.
    pub fn config_not_found(detail: &str) -> (e: Self)
        ensures
            e.is_fresh(ErrorKind::ConfigFileNotFound, detail@),
    {
        AilError::ConfigFileNotFound { detail: String::from_str(detail), context: None }
    }

    /// Build a `ConfigValidationFailed` error with no context.
    pub fn config_validation(detail: &str) -> (e: Self)
        ensures
            e.is_fresh(ErrorKind::ConfigValidationFailed, detail@),
    {
        AilError::ConfigValidationFailed { detail: String::from_str(detail), context: None }
    }

    /// Build a `TemplateUnresolved` error with no context.
    pub fn template_unresolved(detail: &str) -> (e: Self)
        ensures
            e.is_fresh(ErrorKind::TemplateUnresolved, detail@),
    {
        AilError::TemplateUnresolved { detail: String::from_str(detail), context: None }
    }

    /// Build a `RunnerInvocationFailed` error with no context.
    pub fn runner_failed(detail: &str) -> (e: Self)
        ensures
            e.is_fresh(ErrorKind::RunnerInvocationFailed, detail@),
    {
        AilError::RunnerInvocationFailed { detail: String::from_str(detail), context: None }
    }

    /// Build a `RunnerCancelled` error with no context.
    pub fn runner_cancelled(detail: &str) -> (e: Self)
        ensures
            e.is_fresh(ErrorKind::RunnerCancelled, detail@),
    {
        AilError::RunnerCancelled { detail: String::from_str(detail), context: None }
    }

    /// Build a `RunnerNotFound` error with no context.
    pub fn runner_not_found(detail: &str) -> (e: Self)
        ensures
            e.is_fresh(ErrorKind::RunnerNotFound, detail@),
    {
        AilError::RunnerNotFound { detail: String::from_str(detail), context: None }
    }

    /// Build a `PipelineAborted` error with no context.
    pub fn pipeline_aborted(detail: &str) -> (e: Self)
        ensures
            e.is_fresh(ErrorKind::PipelineAborted, detail@),
    {
        AilError::PipelineAborted { detail: String::from_str(detail), context: None }
    }

    /// Build a `StorageQueryFailed` error with no context.
    pub fn storage_query_failed(detail: &str) -> (e: Self)
        ensures
            e.is_fresh(ErrorKind::StorageQueryFailed, detail@),
    {
        AilError::StorageQueryFailed { detail: String::from_str(detail), context: None }
    }

    /// Build a `RunNotFound` error with no context.
    pub fn run_not_found(detail: &str) -> (e: Self)
        ensures
            e.is_fresh(ErrorKind::RunNotFound, detail@),
    {
        AilError::RunNotFound { detail: String::from_str(detail), context: None }
    }

    /// Build a `StorageDeleteFailed` error with no context.
    pub fn storage_delete_failed(detail: &str) -> (e: Self)
        ensures
            e.is_fresh(ErrorKind::StorageDeleteFailed, detail@),
    {
        AilError::StorageDeleteFailed { detail: String::from_str(detail), context: None }
    }

    /// Build a `PluginManifestInvalid` error with no context.
    pub fn plugin_manifest_invalid(detail: &str) -> (e: Self)
        ensures
            e.is_fresh(ErrorKind::PluginManifestInvalid, detail@),
    {
        AilError::PluginManifestInvalid { detail: String::from_str(detail), context: None }
    }

    /// Build a `PluginSpawnFailed` error with no context.
    pub fn plugin_spawn_failed(detail: &str) -> (e: Self)
        ensures
            e.is_fresh(ErrorKind::PluginSpawnFailed, detail@),
    {
        AilError::PluginSpawnFailed { detail: String::from_str(detail), context: None }
    }

    /// Build a `PluginProtocolError` error with no context.
    pub fn plugin_protocol_error(detail: &str) -> (e: Self)
        ensures
            e.is_fresh(ErrorKind::PluginProtocolError, detail@),
    {
        AilError::PluginProtocolError { detail: String::from_str(detail), context: None }
    }

    /// Build a `PluginTimeout` error with no context.
    pub fn plugin_timeout(detail: &str) -> (e: Self)
        ensures
            e.is_fresh(ErrorKind::PluginTimeout, detail@),
    {
        AilError::PluginTimeout { detail: String::from_str(detail), context: None }
    }

    /// Build a `ConditionInvalid` error with no context.
    pub fn condition_invalid(detail: &str) -> (e: Self)
        ensures
            e.is_fresh(ErrorKind::ConditionInvalid, detail@),
    {
        AilError::ConditionInvalid { detail: String::from_str(detail), context: None }
    }

    /// Build a `PipelineCircularReference` error with no context.
    pub fn pipeline_circular_reference(detail: &str) -> (e: Self)
        ensures
            e.is_fresh(ErrorKind::PipelineCircularReference, detail@),
    {
        AilError::PipelineCircularReference { detail: String::from_str(detail), context: None }
    }

    /// Build a `CircularInheritance` error with no context.
    pub fn circular_inheritance(detail: &str) -> (e: Self)
        ensures
            e.is_fresh(ErrorKind::CircularInheritance, detail@),
    {
        AilError::CircularInheritance { detail: String::from_str(detail), context: None }
    }

    /// Build a `SkillUnknown` error with no context.
    pub fn skill_unknown(detail: &str) -> (e: Self)
        ensures
            e.is_fresh(ErrorKind::SkillUnknown, detail@),
    {
        AilError::SkillUnknown { detail: String::from_str(detail), context: None }
    }
}

/// The display form of an error depends only on its kind and detail, never on
/// its context.
pub proof fn lemma_display_ignores_context(a: AilError, b: AilError)
    requires
        a.kind() == b.kind(),
        a.detail_view() == b.detail_view(),
    ensures
        a.display_view() == b.display_view(),
{
}

/// Attaching step context never changes what an error displays, nor its
/// recovery hint.
pub proof fn lemma_step_context_keeps_display(e: AilError, run_id: Seq<char>, step_id: Seq<char>, c: ErrorContext)
    ensures
        make_error(e.kind(), e.detail_string(), Some(c)).display_view() == e.display_view(),
        make_error(e.kind(), e.detail_string(), Some(c)).recovery_view() == e.recovery_view(),
        make_error(e.kind(), e.detail_string(), Some(c)).kind() == e.kind(),
{
}

} // verus!
