//! Pipeline configuration: domain model, file DTOs, validation and inheritance.
pub mod domain;
pub mod dto;
pub mod condition;
pub mod discovery;
pub mod on_result;
pub mod validation;
pub mod inheritance;
