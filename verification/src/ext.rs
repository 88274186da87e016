//! Outside types that values of the library carry through unchanged.
use vstd::prelude::*;

verus! {

/// A JSON document (`serde_json::Value`), carried as an opaque value.
#[verifier::external_type_specification]
#[verifier::external_body]
pub struct ExJsonValue(serde_json::Value);

/// A compiled regular expression (`regex::Regex`), carried as an opaque value.
#[verifier::external_type_specification]
#[verifier::external_body]
pub struct ExRegex(regex::Regex);

/// A point in time (`std::time::SystemTime`), carried as an opaque value.
#[verifier::external_type_specification]
#[verifier::external_body]
pub struct ExSystemTime(std::time::SystemTime);

/// `Clone for serde_json::Value`: serde_json derives it, so the copy is the
/// same JSON document.
pub assume_specification[ <serde_json::Value as Clone>::clone ](v: &serde_json::Value) -> (r: serde_json::Value)
    ensures
        r == *v,
;

/// `Clone for regex::Regex`: the copy shares the same compiled program.
pub assume_specification[ <regex::Regex as Clone>::clone ](v: &regex::Regex) -> (r: regex::Regex)
    ensures
        r == *v,
;

} // verus!
