//! Rule-driven event classifier: loads user-authored detection rules from
//! rule-file bodies, compiles them into an immutable matcher, and dispatches
//! incoming events against the compiled rule set, emitting one derived threat
//! payload per matching rule while never re-processing threat-derived events.

pub mod engine;
pub mod errors;
pub mod parse;
pub mod events;
pub mod rules;

pub use engine::rule_glob_pattern;
pub use engine::CompiledEngine;
pub use engine::PulsarEngine;
pub use errors::PulsarEngineError;
pub use events::Event;
pub use events::EventHeader;
pub use rules::RuleDefinition;
pub use rules::RuleEngineData;
pub use rules::RuleFile;
