//! Rule compiler boundary and dispatcher.
//!
//! `CompiledEngine` is the immutable matcher built once from the complete
//! flat rule list; compilation is all-or-nothing. `PulsarEngine` is the
//! shared, clonable service handle holding the compiled matcher; its
//! `process` evaluates one incoming event against every rule and yields one
//! derived threat payload per matching rule — unless the event is itself
//! threat-derived, in which case it is skipped entirely (loop avoidance).

use std::sync::Arc;
use vstd::prelude::*;
use vstd::string::StringExecFns;

use crate::errors::PulsarEngineError;
use crate::events::Event;
use crate::events::EventView;
use crate::parse::files_defs;
use crate::parse::files_view;
use crate::parse::first_failing_file;
use crate::parse::load_rules_from_files;
use crate::parse::defs_of_records;
use crate::parse::lookup;
use crate::rules::defs_view;
use crate::rules::payload_names;
use crate::rules::RuleDefinition;
use crate::rules::RuleDefinitionView;
use crate::rules::RuleEngineData;
use crate::rules::RuleFile;
use crate::rules::RuleFileView;

verus! {

/// A rule matches an event exactly when the event carries the rule's
/// condition atom among its facts.
pub open spec fn rule_matches(r: RuleDefinitionView, e: EventView) -> bool {
    e.facts.contains(r.condition)
}

/// The names of the rules that match `e`, in rule order — what the compiled
/// matcher answers for one event.
pub open spec fn matched_names(rules: Seq<RuleDefinitionView>, e: EventView) -> Seq<Seq<char>>
    decreases rules.len(),
{
    if rules.len() == 0 {
        Seq::empty()
    } else {
        let rest = matched_names(rules.drop_last(), e);
        if rule_matches(rules.last(), e) {
            rest.push(rules.last().name)
        } else {
            rest
        }
    }
}

/// What one dispatch call emits, as the names carried by the derived
/// payloads: nothing for a threat-derived event, else one payload per
/// matching rule.
pub open spec fn spec_process(rules: Seq<RuleDefinitionView>, e: EventView) -> Seq<Seq<char>> {
    if e.threat is Some {
        Seq::empty()
    } else {
        matched_names(rules, e)
    }
}

/// No two rules of the set share a name.
pub open spec fn unique_names(defs: Seq<RuleDefinitionView>) -> bool {
    forall|p: int, q: int|
        #![trigger defs[p], defs[q]]
        0 <= p < q < defs.len() ==> defs[p].name != defs[q].name
}

/// The immutable, executable matcher compiled from the full rule set.
/// Never mutated after construction.
pub struct CompiledEngine {
    rules: Vec<RuleDefinition>,
}

impl View for CompiledEngine {
    type V = Seq<RuleDefinitionView>;

    closed spec fn view(&self) -> Seq<RuleDefinitionView> {
        defs_view(self.rules@)
    }
}

proof fn lemma_matched_names_push(rules: Seq<RuleDefinitionView>, r: RuleDefinitionView, e: EventView)
    ensures
        matched_names(rules.push(r), e) == (if rule_matches(r, e) {
            matched_names(rules, e).push(r.name)
        } else {
            matched_names(rules, e)
        }),
{
    assert(rules.push(r).drop_last() =~= rules);
    assert(rules.push(r).last() == r);
}

/// Whether `facts` carries the atom `atom`.
fn has_fact(facts: &Vec<String>, atom: &String) -> (r: bool)
    ensures
        r == facts.deep_view().contains(atom@),
{
    let ghost dv = facts.deep_view();
    let mut j: usize = 0;
    while j < facts.len()
        invariant
            0 <= j <= facts.len(),
            dv == facts.deep_view(),
            dv.len() == facts.len(),
            forall|t: int| 0 <= t < j ==> dv[t] != atom@,
        decreases facts.len() - j,
    {
        assert(dv[j as int] == facts@[j as int]@);
        if facts[j] == *atom {
            assert(dv.contains(atom@));
            return true;
        }
        j = j + 1;
    }
    assert(!dv.contains(atom@));
    false
}

impl CompiledEngine {
    /// Compiles the complete flat rule list into the executable matcher.
    ///
    /// All-or-nothing: succeeds exactly when no two rules share a name, and
    /// then the matcher holds every rule, in order; one duplicated name
    /// fails the whole build with a compile error and no engine exists.
    pub fn compile(rules: Vec<RuleDefinition>) -> (r: Result<CompiledEngine, PulsarEngineError>)
        ensures
            r is Ok <==> unique_names(defs_view(rules@)),
            r matches Ok(en) ==> en@ == defs_view(rules@),
            r matches Err(e) ==> e matches PulsarEngineError::RuleCompile { .. },
    {
        match find_duplicate_name(&rules) {
            Some(dup) => Err(
                PulsarEngineError::RuleCompile {
                    error: "duplicate rule name: ".to_owned().concat(dup.as_str()),
                },
            ),
            None => Ok(CompiledEngine { rules }),
        }
    }

    /// Evaluates one event against every rule of the set: the names of the
    /// matching rules, in rule order, not short-circuited at the first match.
    pub fn evaluate(&self, event: &Event) -> (r: Vec<String>)
        ensures
            r.deep_view() == matched_names(self@, event@),
    {
        let ghost rv = self@;
        let ghost ev = event@;
        let mut out: Vec<String> = Vec::new();
        let mut i: usize = 0;
        assert(rv.take(0) =~= Seq::empty());
        assert(out.deep_view() =~= Seq::<Seq<char>>::empty());
        while i < self.rules.len()
            invariant
                0 <= i <= self.rules.len(),
                rv == self@,
                ev == event@,
                rv.len() == self.rules.len(),
                out.deep_view() == matched_names(rv.take(i as int), ev),
            decreases self.rules.len() - i,
        {
            assert(rv[i as int] == self.rules@[i as int]@);
            let ghost before = out.deep_view();
            if has_fact(&event.facts, &self.rules[i].condition) {
                out.push(self.rules[i].name.clone());
                assert(out.deep_view() =~= before.push(rv[i as int].name));
            }
            proof {
                assert(rv.take(i + 1) =~= rv.take(i as int).push(rv[i as int]));
                lemma_matched_names_push(rv.take(i as int), rv[i as int], ev);
            }
            i = i + 1;
        }
        assert(rv.take(self.rules.len() as int) =~= rv);
        out
    }
}

/// The first rule name that appears twice in the list, if any.
fn find_duplicate_name(rules: &Vec<RuleDefinition>) -> (r: Option<String>)
    ensures
        r is None <==> unique_names(defs_view(rules@)),
{
    let ghost dv = defs_view(rules@);
    let mut i: usize = 0;
    while i < rules.len()
        invariant
            0 <= i <= rules.len(),
            dv == defs_view(rules@),
            dv.len() == rules.len(),
            forall|p: int, q: int|
                #![trigger dv[p], dv[q]]
                0 <= p < q < i ==> dv[p].name != dv[q].name,
        decreases rules.len() - i,
    {
        let mut j: usize = 0;
        while j < i
            invariant
                0 <= j <= i < rules.len(),
                dv == defs_view(rules@),
                dv.len() == rules.len(),
                forall|t: int| 0 <= t < j ==> dv[t].name != dv[i as int].name,
            decreases i - j,
        {
            assert(dv[j as int].name == rules@[j as int].name@);
            assert(dv[i as int].name == rules@[i as int].name@);
            if rules[j].name == rules[i].name {
                return Some(rules[i].name.clone());
            }
            j = j + 1;
        }
        i = i + 1;
    }
    None
}

/// Relies on `Arc::clone`: the returned handle refers to the same compiled
/// engine, unchanged.
#[verifier::external_body]
fn share_engine(engine: &Arc<CompiledEngine>) -> (r: Arc<CompiledEngine>)
    ensures
        r == *engine,
{
    Arc::clone(engine)
}

/// The shared service handle: the compiled matcher behind a reference-counted
/// pointer, safe for concurrent read-only dispatch. Its model is the compiled
/// rule set.
pub struct PulsarEngine {
    inner: Arc<CompiledEngine>,
}

impl View for PulsarEngine {
    type V = Seq<RuleDefinitionView>;

    closed spec fn view(&self) -> Seq<RuleDefinitionView> {
        self.inner@
    }
}

impl Clone for PulsarEngine {
    /// A cloned handle dispatches against the very same rule set.
    fn clone(&self) -> (r: Self)
        ensures
            r@ == self@,
    {
        PulsarEngine { inner: share_engine(&self.inner) }
    }
}

impl PulsarEngine {
    /// Builds the service from the ordered set of discovered rule files:
    /// parse every file, concatenate all definitions in scan order, compile
    /// them into the matcher.
    ///
    /// Fail-fast and all-or-nothing: the first file that does not parse
    /// aborts construction with a parsing error naming that file, and a
    /// duplicated rule name anywhere in the flat list aborts it with a
    /// compile error; no partial engine is ever produced.
    pub fn new(files: Vec<RuleFile>) -> (r: Result<PulsarEngine, PulsarEngineError>)
        ensures
            r is Ok <==> (files_defs(files_view(files@)) matches Some(ds) && unique_names(ds)),
            r matches Ok(h) ==> files_defs(files_view(files@)) == Some(h@),
            r matches Err(e) ==> (match files_defs(files_view(files@)) {
                Some(ds) => e matches PulsarEngineError::RuleCompile { .. } && !unique_names(ds),
                None => e matches PulsarEngineError::RuleParsing { filename, .. }
                    && first_failing_file(files_view(files@)) matches Some(f)
                    && filename@ == f.path,
            }),
    {
        let rules = match load_rules_from_files(&files) {
            Ok(rules) => rules,
            Err(e) => {
                return Err(e);
            },
        };
        let engine = match CompiledEngine::compile(rules) {
            Ok(engine) => engine,
            Err(e) => {
                return Err(e);
            },
        };
        Ok(PulsarEngine { inner: Arc::new(engine) })
    }

    /// Dispatches one incoming event.
    ///
    /// Loop avoidance first: an event whose header already marks it as
    /// threat-derived is skipped entirely and yields nothing. Otherwise every
    /// rule is evaluated and each matching rule yields one derived payload
    /// carrying that rule's name, in rule order.
    pub fn process(&self, event: &Event) -> (r: Vec<RuleEngineData>)
        ensures
            payload_names(r@) == spec_process(self@, event@),
            event@.threat is Some ==> r@.len() == 0,
    {
        if event.header().threat.is_some() {
            let out: Vec<RuleEngineData> = Vec::new();
            assert(payload_names(out@) =~= Seq::<Seq<char>>::empty());
            return out;
        }
        let names = self.inner.evaluate(event);
        let ghost nv = names.deep_view();
        let mut out: Vec<RuleEngineData> = Vec::new();
        let mut i: usize = 0;
        assert(payload_names(out@) =~= Seq::<Seq<char>>::empty());
        assert(nv.take(0) =~= Seq::<Seq<char>>::empty());
        let nlen = names.len();
        while i < nlen
            invariant
                0 <= i <= nlen,
                nlen == names.len(),
                nv == names.deep_view(),
                nv.len() == names.len(),
                payload_names(out@) == nv.take(i as int),
            decreases nlen - i,
        {
            assert(nv[i as int] == names@[i as int]@);
            let ghost before = payload_names(out@);
            out.push(RuleEngineData { rule_name: names[i].clone() });
            proof {
                assert(payload_names(out@) =~= before.push(nv[i as int]));
                assert(nv.take(i + 1) =~= nv.take(i as int).push(nv[i as int]));
            }
            i = i + 1;
        }
        assert(nv.take(nlen as int) =~= nv);
        out
    }
}

/// A directory with zero rule files: construction succeeds, produces a
/// service with no rules, and dispatch on any event emits nothing.
pub proof fn lemma_empty_rule_set(files: Seq<RuleFileView>, e: EventView)
    requires
        files.len() == 0,
    ensures
        files_defs(files) == Some(Seq::<RuleDefinitionView>::empty()),
        unique_names(Seq::<RuleDefinitionView>::empty()),
        spec_process(Seq::<RuleDefinitionView>::empty(), e) == Seq::<Seq<char>>::empty(),
{
}

/// Loop avoidance: an event already marked as threat-derived yields no
/// derived payloads, whatever the rule set holds.
pub proof fn lemma_threat_derived_skipped(rules: Seq<RuleDefinitionView>, e: EventView)
    requires
        e.threat is Some,
    ensures
        spec_process(rules, e) == Seq::<Seq<char>>::empty(),
{
}

/// Two independent rules that each match one event: dispatching that event
/// emits exactly two derived payloads, one per rule, carrying the two
/// distinct names in rule order.
pub proof fn lemma_independent_matches(r1: RuleDefinitionView, r2: RuleDefinitionView, e: EventView)
    requires
        e.threat is None,
        rule_matches(r1, e),
        rule_matches(r2, e),
    ensures
        spec_process(seq![r1, r2], e) == seq![r1.name, r2.name],
{
    let s0 = Seq::<RuleDefinitionView>::empty();
    let s1 = seq![r1];
    let s2 = seq![r1, r2];
    assert(s1.drop_last() =~= s0);
    assert(s2.drop_last() =~= s1);
    assert(s1.last() == r1);
    assert(s2.last() == r2);
    assert(matched_names(s0, e) == Seq::<Seq<char>>::empty());
    assert(matched_names(s1, e) == matched_names(s1.drop_last(), e).push(r1.name));
    assert(matched_names(s2, e) == matched_names(s2.drop_last(), e).push(r2.name));
    assert(spec_process(s2, e) =~= seq![r1.name, r2.name]);
}

/// A well-shaped record list parses into exactly as many definitions as it
/// has records, each definition carrying its record's name, in order.
pub proof fn lemma_parse_preserves_records(recs: Seq<Seq<(Seq<char>, Seq<char>)>>)
    requires
        defs_of_records(recs) is Some,
    ensures
        defs_of_records(recs)->Some_0.len() == recs.len(),
        forall|i: int|
            0 <= i < recs.len() ==> Some(
                (#[trigger] defs_of_records(recs)->Some_0[i]).name,
            ) == lookup(recs[i], "name"@),
    decreases recs.len(),
{
    if recs.len() > 0 {
        lemma_parse_preserves_records(recs.drop_last());
    }
}

/// The recursive search pattern for rule files under `dir`: every file with
/// the rule extension, at any depth below the directory.
pub fn rule_glob_pattern(dir: &String) -> (r: String)
    ensures
        r@ == dir@ + "/**/*.yaml"@,
{
    dir.clone().concat("/**/*.yaml")
}

} // verus!
