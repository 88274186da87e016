//! Verified core of the `ail` pipeline runtime: error model, configuration
//! validation and inheritance, and the execution decisions.
use vstd::prelude::*;

pub mod error;
pub mod text;
pub mod ext;
pub mod config;
pub mod executor;
pub mod session;
pub mod runner;
pub mod template;
pub mod logs;
pub mod delete;
pub mod protocol;
pub mod materialize;
pub mod formatter;
pub mod project;

verus! {

/// The library's version, as released.
pub fn version() -> (v: &'static str)
    ensures
        v@ == "0.1.0"@,
{
    proof {
        reveal_strlit("0.1.0");
    }
    "0.1.0"
}

} // verus!
