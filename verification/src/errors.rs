//! Error taxonomy of the construction pipeline. Every variant is fatal to
//! building the service; dispatch itself never errors.

use vstd::prelude::*;

verus! {

/// What can go wrong while building the engine, one variant per stage.
///
/// Causes coming from outside collaborators (the file-pattern library, the
/// filesystem, the structured-text parser) are carried as plain message
/// strings.
#[derive(Debug)]
pub enum PulsarEngineError {
    /// The file-discovery pattern itself was invalid.
    RuleListing { error: String },
    /// A discovered rule file could not be read; `name` is its path.
    RuleLoading { name: String, error: String },
    /// A rule file's content does not conform to the rule-list format;
    /// `filename` identifies the offending file.
    RuleParsing { filename: String, error: String },
    /// The full rule set failed compilation into a matcher.
    RuleCompile { error: String },
}

} // verus!
