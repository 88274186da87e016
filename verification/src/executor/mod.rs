//! Pipeline execution: the step-dispatch decisions, result branching, tool
//! policies and parallel-join helpers.
pub mod cancel;
pub mod events;
pub mod helpers;
pub mod turn;
pub mod parallel;
pub mod condition;
pub mod schema;
pub mod timestamp_order;
pub mod engine;
