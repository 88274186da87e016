//! The interface to the agent that answers prompt steps.
use vstd::prelude::*;

use crate::error::AilError;
use crate::executor::cancel::CancelToken;
use crate::executor::turn::ToolPermissionPolicy;

verus! {

/// Per-invocation settings handed to a runner.
#[derive(Debug, Clone)]
pub struct InvokeOptions {
    pub model: Option<String>,
    pub tool_policy: ToolPermissionPolicy,
    /// Replaces the runner's system prompt when set.
    pub system_prompt: Option<String>,
    /// Appended to the system prompt, in order.
    pub append_system_prompt: Vec<String>,
    /// The runner session to resume, for `resume: true` steps.
    pub resume_session_id: Option<String>,
    pub cancel_token: Option<CancelToken>,
}

/// What a runner returns for a prompt.
#[derive(Debug, Clone, Default)]
pub struct RunResult {
    pub response: String,
    /// The runner's own session id, when it keeps one.
    pub session_id: Option<String>,
    pub input_tokens: u64,
    pub output_tokens: u64,
    pub model: Option<String>,
}

/// A tool call or tool result recorded during a step.
#[derive(Debug, Clone)]
pub struct ToolEvent {
    /// `tool_call` or `tool_result`.
    pub event_type: String,
    pub tool_name: String,
    /// The call's input or the result's output, as JSON text.
    pub content_json: String,
}

/// A decision on a tool-permission request.
#[derive(Debug, Clone, PartialEq)]
pub enum PermissionResponse {
    Allow,
    /// Denied, with the reason given.
    Deny(String),
}

/// An agent runner: sends a prompt and returns the answer. Implemented by
/// the concrete runners (CLI agents, HTTP providers, stubs in tests).
pub trait Runner {
    /// Whether `r` is an answer this runner may give to `prompt` sent with
    /// `options`. Each runner decides what it answers; the library speaks of
    /// a runner's answers only through this relation, which holds of every
    /// answer `invoke` gives.
    open spec fn answers(&self, prompt: Seq<char>, options: InvokeOptions, r: Result<RunResult, AilError>) -> bool {
        true
    }

    fn invoke(&self, prompt: &str, options: InvokeOptions) -> (r: Result<RunResult, AilError>)
        ensures
            self.answers(prompt@, options, r),
    ;
}

/// `e` records an answer of `runner` to the entry's prompt: its response and
/// runner session id are those of a successful answer.
pub open spec fn answered_entry<R: Runner>(runner: R, e: crate::executor::turn::TurnEntry) -> bool {
    exists|o: InvokeOptions, rr: RunResult|
        #[trigger] runner.answers(e.prompt@, o, Ok::<RunResult, AilError>(rr)) && e.response == Some(rr.response)
            && e.runner_session_id == rr.session_id
}

} // verus!
