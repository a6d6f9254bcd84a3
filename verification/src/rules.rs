//! Data model of the rule-loading pipeline: raw rule files as read from disk,
//! parsed rule definitions, and the payload attached to derived threat events.

use vstd::prelude::*;

verus! {

/// A rule file as discovered on disk: its path and its full textual body.
/// Ephemeral: produced by the scanner, consumed by the parser.
pub struct RuleFile {
    pub path: String,
    pub body: String,
}

/// Mathematical model of a [`RuleFile`]: both fields as character sequences.
pub ghost struct RuleFileView {
    pub path: Seq<char>,
    pub body: Seq<char>,
}

impl View for RuleFile {
    type V = RuleFileView;

    open spec fn view(&self) -> RuleFileView {
        RuleFileView { path: self.path@, body: self.body@ }
    }
}

impl RuleFile {
    /// Builds the record handed to the parser from a path and the body read
    /// at that path.
    pub fn from(path: String, body: String) -> (r: RuleFile)
        ensures
            r@.path == path@,
            r@.body == body@,
    {
        RuleFile { path, body }
    }
}

/// One user-authored detection rule: a unique, non-empty name and the
/// condition atom an event must carry for the rule to match.
pub struct RuleDefinition {
    pub name: String,
    pub condition: String,
}

/// Mathematical model of a [`RuleDefinition`].
pub ghost struct RuleDefinitionView {
    pub name: Seq<char>,
    pub condition: Seq<char>,
}

impl View for RuleDefinition {
    type V = RuleDefinitionView;

    open spec fn view(&self) -> RuleDefinitionView {
        RuleDefinitionView { name: self.name@, condition: self.condition@ }
    }
}

impl RuleDefinitionView {
    /// A rule definition is well formed when its name is non-empty: the name
    /// is attached verbatim to every derived event the rule produces.
    pub open spec fn wf(self) -> bool {
        self.name.len() > 0
    }
}

/// The payload attached to a derived threat event: the name of the rule that
/// matched.
pub struct RuleEngineData {
    pub rule_name: String,
}

/// The names carried by a sequence of derived payloads, in order.
pub open spec fn payload_names(s: Seq<RuleEngineData>) -> Seq<Seq<char>> {
    s.map_values(|d: RuleEngineData| d.rule_name@)
}

/// The models of a sequence of rule definitions, in order.
pub open spec fn defs_view(s: Seq<RuleDefinition>) -> Seq<RuleDefinitionView> {
    s.map_values(|d: RuleDefinition| d@)
}

} // verus!
