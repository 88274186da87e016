//! Stable `error_type` identifiers consumed by downstream tooling.
use vstd::prelude::*;

verus! {

pub const CONFIG_INVALID_YAML: &'static str = "ail:config/invalid-yaml";
pub const CONFIG_FILE_NOT_FOUND: &'static str = "ail:config/file-not-found";
pub const CONFIG_VALIDATION_FAILED: &'static str = "ail:config/validation-failed";
pub const TEMPLATE_UNRESOLVED: &'static str = "ail:template/unresolved-variable";
pub const RUNNER_INVOCATION_FAILED: &'static str = "ail:runner/invocation-failed";
pub const RUNNER_CANCELLED: &'static str = "ail:runner/cancelled";
pub const RUNNER_NOT_FOUND: &'static str = "ail:runner/not-found";
pub const PIPELINE_ABORTED: &'static str = "ail:pipeline/aborted";
pub const STORAGE_QUERY_FAILED: &'static str = "ail:storage/query-failed";
pub const RUN_NOT_FOUND: &'static str = "ail:storage/run-not-found";
pub const STORAGE_DELETE_FAILED: &'static str = "ail:storage/delete-failed";
pub const PLUGIN_MANIFEST_INVALID: &'static str = "ail:plugin/manifest-invalid";
pub const PLUGIN_SPAWN_FAILED: &'static str = "ail:plugin/spawn-failed";
pub const PLUGIN_PROTOCOL_ERROR: &'static str = "ail:plugin/protocol-error";
pub const PLUGIN_TIMEOUT: &'static str = "ail:plugin/timeout";
pub const CONDITION_INVALID: &'static str = "ail:condition/invalid";
pub const PIPELINE_CIRCULAR_REFERENCE: &'static str = "ail:pipeline/circular-reference";
pub const CIRCULAR_INHERITANCE: &'static str = "ail:config/circular-inheritance";
pub const SKILL_UNKNOWN: &'static str = "ail:skill/unknown";

} // verus!
