//! Error type for filter rule construction and validation.
use vstd::prelude::*;

verus! {

/// Errors produced when constructing or validating filter rules.
#[derive(Debug)]
pub enum FilterError {
    /// A `Condition` with `Operator::Regex` carries a pattern that does not
    /// compile.
    InvalidRegex {
        /// The offending pattern.
        pattern: String,
        /// The underlying regex parse error.
        source: regex::Error,
    },
    /// The rule's `id` field is empty.
    EmptyRuleId,
    /// The rule's `name` field is empty.
    EmptyRuleName,
    /// A vacation action is misconfigured (empty message or zero-day period).
    InvalidVacation {
        /// Why the configuration was rejected.
        reason: String,
    },
}

} // verus!
