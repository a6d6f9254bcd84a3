//! Model of the structured runtime events this core classifies.
//!
//! The transport layer that produces events is an external collaborator; the
//! dispatch layer reads only what this model holds as plain values: the
//! optional threat marker in the header, and the telemetry facts the matcher
//! consults. A rule's condition matches an event exactly when the event
//! carries that condition atom among its facts.

use vstd::prelude::*;

verus! {

/// The header of an event. `threat` is `Some` exactly when the event is
/// itself a detection product (a derived threat event), carrying the name of
/// the rule that produced it; raw telemetry has `threat == None`.
pub struct EventHeader {
    pub threat: Option<String>,
}

/// Mathematical model of an [`EventHeader`].
pub ghost struct EventHeaderView {
    pub threat: Option<Seq<char>>,
}

impl View for EventHeader {
    type V = EventHeaderView;

    open spec fn view(&self) -> EventHeaderView {
        EventHeaderView {
            threat: match self.threat {
                Option::Some(ref t) => Option::Some(t@),
                Option::None => Option::None,
            },
        }
    }
}

/// A structured runtime event: a header and the telemetry facts describing
/// what happened, each fact a plain atom a rule condition can name.
pub struct Event {
    pub header: EventHeader,
    pub facts: Vec<String>,
}

/// Mathematical model of an [`Event`].
pub ghost struct EventView {
    pub threat: Option<Seq<char>>,
    pub facts: Seq<Seq<char>>,
}

impl View for Event {
    type V = EventView;

    open spec fn view(&self) -> EventView {
        EventView { threat: self.header@.threat, facts: self.facts.deep_view() }
    }
}

impl Event {
    /// Read access to the event's header, as the dispatch layer uses it.
    pub fn header(&self) -> (r: &EventHeader)
        ensures
            r@ == self.header@,
    {
        &self.header
    }
}

} // verus!
