//! Turn-log entries and runner-facing values.
use vstd::prelude::*;

verus! {

/// One entry in the turn log: what a step sent and what came back.
#[derive(Debug, Clone, Default)]
pub struct TurnEntry {
    pub step_id: String,
    pub prompt: String,
    pub response: Option<String>,
    pub stdout: Option<String>,
    pub stderr: Option<String>,
    pub exit_code: Option<i32>,
    pub launched_at: Option<String>,
    pub completed_at: Option<String>,
    /// The runner's session id, for steps that resume it.
    pub runner_session_id: Option<String>,
    /// The group of async branches the entry was produced in.
    pub concurrent_group: Option<String>,
}

impl TurnEntry {
    /// An entry with the given step id, prompt and response, nothing else.
    pub fn with_response(step_id: String, prompt: String, response: Option<String>) -> (e: Self)
        ensures
            e.step_id == step_id,
            e.prompt == prompt,
            e.response == response,
            e.stdout is None,
            e.stderr is None,
            e.exit_code is None,
            e.runner_session_id is None,
    {
        TurnEntry {
            step_id,
            prompt,
            response,
            stdout: None,
            stderr: None,
            exit_code: None,
            launched_at: None,
            completed_at: None,
            runner_session_id: None,
            concurrent_group: None,
        }
    }

    /// The entry of a context step: what the command printed and its exit code.
    pub fn from_context(step_id: String, cmd: String, stdout: String, stderr: String, exit_code: i32) -> (e: Self)
        ensures
            e.step_id == step_id,
            e.prompt == cmd,
            e.response is None,
            e.stdout == Some(stdout),
            e.stderr == Some(stderr),
            e.exit_code == Some(exit_code),
    {
        TurnEntry {
            step_id,
            prompt: cmd,
            response: None,
            stdout: Some(stdout),
            stderr: Some(stderr),
            exit_code: Some(exit_code),
            launched_at: None,
            completed_at: None,
            runner_session_id: None,
            concurrent_group: None,
        }
    }
}

/// A copy of an optional text.
fn copy_opt_text(o: &Option<String>) -> (r: Option<String>)
    ensures
        r == *o,
{
    match o {
        Some(t) => Some(t.clone()),
        None => None,
    }
}

impl TurnEntry {
    /// A copy of the entry, field by field.
    pub fn copy(&self) -> (r: Self)
        ensures
            r == *self,
    {
        TurnEntry {
            step_id: self.step_id.clone(),
            prompt: self.prompt.clone(),
            response: copy_opt_text(&self.response),
            stdout: copy_opt_text(&self.stdout),
            stderr: copy_opt_text(&self.stderr),
            exit_code: self.exit_code,
            launched_at: copy_opt_text(&self.launched_at),
            completed_at: copy_opt_text(&self.completed_at),
            runner_session_id: copy_opt_text(&self.runner_session_id),
            concurrent_group: copy_opt_text(&self.concurrent_group),
        }
    }
}

/// Tool permissions handed to a runner.
#[derive(Debug, Clone)]
pub enum ToolPermissionPolicy {
    /// Let the runner apply its own defaults.
    RunnerDefault,
    /// Disable all tools.
    NoTools,
    Allowlist(Vec<String>),
    Denylist(Vec<String>),
    Mixed { allow: Vec<String>, deny: Vec<String> },
}

} // verus!
