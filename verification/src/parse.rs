//! Rule parser: turns the textual body of one rule file into the ordered
//! list of rule definitions it declares.
//!
//! The structured text format itself is handled by the external `serde_yaml`
//! parser behind one trusted wrapper; everything after that call — reading
//! each parsed record's fields, checking its shape, and assembling the
//! definitions in order — is verified.

use vstd::prelude::*;

use crate::errors::PulsarEngineError;
use crate::rules::defs_view;
use crate::rules::RuleDefinition;
use crate::rules::RuleDefinitionView;
use crate::rules::RuleFile;

verus! {

/// What the external structured-text parser yields for a given body:
/// `None` when the body is not a well-formed list of key/value records,
/// otherwise the records in document order, each record its key/value pairs
/// in key order. The result is a function of the text alone.
pub uninterp spec fn yaml_records_of(body: Seq<char>) -> Option<Seq<Seq<(Seq<char>, Seq<char>)>>>;

/// Relies on `serde_yaml::from_str`: deserializing a document as a list of
/// string-to-string maps is deterministic in the document text, and yields
/// the records in document order with each record's keys unique.
#[verifier::external_body]
fn parse_yaml_records(body: &String) -> (r: Result<Vec<Vec<(String, String)>>, String>)
    ensures
        r is Ok <==> yaml_records_of(body@) is Some,
        r matches Ok(recs) ==> yaml_records_of(body@) == Some(recs.deep_view()),
{
    match serde_yaml::from_str::<Vec<std::collections::BTreeMap<String, String>>>(body) {
        Ok(v) => Ok(v.into_iter().map(|m| m.into_iter().collect()).collect()),
        Err(e) => Err(e.to_string()),
    }
}

/// The value under the first pair of `rec` whose key is `key`, if any.
pub open spec fn lookup(rec: Seq<(Seq<char>, Seq<char>)>, key: Seq<char>) -> Option<Seq<char>>
    decreases rec.len(),
{
    if rec.len() == 0 {
        None
    } else if rec[0].0 == key {
        Some(rec[0].1)
    } else {
        lookup(rec.drop_first(), key)
    }
}

/// The rule definition a parsed record describes: it must carry a non-empty
/// `name` and a `condition`; other keys are ignored.
pub open spec fn def_of_record(rec: Seq<(Seq<char>, Seq<char>)>) -> Option<RuleDefinitionView> {
    match (lookup(rec, "name"@), lookup(rec, "condition"@)) {
        (Some(n), Some(c)) => if n.len() > 0 {
            Some(RuleDefinitionView { name: n, condition: c })
        } else {
            None
        },
        _ => None,
    }
}

/// The definitions of a whole record list, in order; `None` as soon as one
/// record is ill-shaped.
pub open spec fn defs_of_records(recs: Seq<Seq<(Seq<char>, Seq<char>)>>) -> Option<
    Seq<RuleDefinitionView>,
>
    decreases recs.len(),
{
    if recs.len() == 0 {
        Some(Seq::empty())
    } else {
        match (defs_of_records(recs.drop_last()), def_of_record(recs.last())) {
            (Some(ds), Some(d)) => Some(ds.push(d)),
            _ => None,
        }
    }
}

/// What parsing one file body yields: `None` when the body is not a
/// well-formed record list or some record is ill-shaped.
pub open spec fn file_defs(body: Seq<char>) -> Option<Seq<RuleDefinitionView>> {
    match yaml_records_of(body) {
        Some(recs) => defs_of_records(recs),
        None => None,
    }
}

proof fn lemma_lookup_found(rec: Seq<(Seq<char>, Seq<char>)>, key: Seq<char>, i: int)
    requires
        0 <= i < rec.len(),
        rec[i].0 == key,
        forall|j: int| 0 <= j < i ==> rec[j].0 != key,
    ensures
        lookup(rec, key) == Some(rec[i].1),
    decreases i,
{
    if i > 0 {
        lemma_lookup_found(rec.drop_first(), key, i - 1);
    }
}

proof fn lemma_lookup_none(rec: Seq<(Seq<char>, Seq<char>)>, key: Seq<char>)
    requires
        forall|j: int| 0 <= j < rec.len() ==> rec[j].0 != key,
    ensures
        lookup(rec, key) is None,
    decreases rec.len(),
{
    if rec.len() > 0 {
        lemma_lookup_none(rec.drop_first(), key);
    }
}

/// Every definition a well-shaped record list yields is well formed.
pub proof fn lemma_defs_of_records_wf(recs: Seq<Seq<(Seq<char>, Seq<char>)>>)
    requires
        defs_of_records(recs) is Some,
    ensures
        forall|i: int|
            0 <= i < defs_of_records(recs)->Some_0.len()
                ==> (#[trigger] defs_of_records(recs)->Some_0[i]).wf(),
    decreases recs.len(),
{
    if recs.len() > 0 {
        lemma_defs_of_records_wf(recs.drop_last());
    }
}

/// The value found by a linear scan of `rec` for `key`, as the record's
/// first pair carrying that key.
fn lookup_value(rec: &Vec<(String, String)>, key: &String) -> (r: Option<String>)
    ensures
        match r {
            Some(v) => lookup(rec.deep_view(), key@) == Some(v@),
            None => lookup(rec.deep_view(), key@) is None,
        },
{
    let ghost dv = rec.deep_view();
    let mut j: usize = 0;
    while j < rec.len()
        invariant
            0 <= j <= rec.len(),
            dv == rec.deep_view(),
            dv.len() == rec.len(),
            forall|t: int| 0 <= t < j ==> dv[t].0 != key@,
        decreases rec.len() - j,
    {
        let p = &rec[j];
        assert(dv[j as int] == rec@[j as int].deep_view());
        assert(dv[j as int].0 == rec@[j as int].0@);
        if p.0 == *key {
            let v = p.1.clone();
            proof {
                lemma_lookup_found(dv, key@, j as int);
            }
            return Some(v);
        }
        j = j + 1;
    }
    proof {
        lemma_lookup_none(dv, key@);
    }
    None
}

/// Reads one parsed record into a rule definition, or `None` when the record
/// lacks a non-empty name or a condition.
fn rule_of_record(rec: &Vec<(String, String)>) -> (r: Option<RuleDefinition>)
    ensures
        match r {
            Some(d) => def_of_record(rec.deep_view()) == Some(d@) && d@.wf(),
            None => def_of_record(rec.deep_view()) is None,
        },
{
    let name_key: String = "name".to_owned();
    let condition_key: String = "condition".to_owned();
    let name = lookup_value(rec, &name_key);
    let condition = lookup_value(rec, &condition_key);
    match (name, condition) {
        (Some(n), Some(c)) => {
            if n.as_str().is_empty() {
                None
            } else {
                Some(RuleDefinition { name: n, condition: c })
            }
        },
        _ => None,
    }
}

proof fn lemma_defs_of_records_push(
    recs: Seq<Seq<(Seq<char>, Seq<char>)>>,
    rec: Seq<(Seq<char>, Seq<char>)>,
)
    ensures
        defs_of_records(recs.push(rec)) == (match (defs_of_records(recs), def_of_record(rec)) {
            (Some(ds), Some(d)) => Some(ds.push(d)),
            _ => None,
        }),
{
    assert(recs.push(rec).drop_last() =~= recs);
    assert(recs.push(rec).last() == rec);
}

proof fn lemma_defs_of_records_none_at(recs: Seq<Seq<(Seq<char>, Seq<char>)>>, i: int)
    requires
        0 <= i < recs.len(),
        def_of_record(recs[i]) is None,
    ensures
        defs_of_records(recs) is None,
    decreases recs.len(),
{
    if i < recs.len() - 1 {
        lemma_defs_of_records_none_at(recs.drop_last(), i);
    }
}

/// Assembles the definitions of a full record list, in order, failing as
/// soon as one record is ill-shaped.
fn rules_of_records(recs: &Vec<Vec<(String, String)>>) -> (r: Option<Vec<RuleDefinition>>)
    ensures
        match r {
            Some(ds) => defs_of_records(recs.deep_view()) == Some(defs_view(ds@)),
            None => defs_of_records(recs.deep_view()) is None,
        },
{
    let ghost dv = recs.deep_view();
    let mut out: Vec<RuleDefinition> = Vec::new();
    let mut i: usize = 0;
    assert(dv.take(0) =~= Seq::empty());
    assert(defs_view(out@) =~= Seq::empty());
    while i < recs.len()
        invariant
            0 <= i <= recs.len(),
            dv == recs.deep_view(),
            dv.len() == recs.len(),
            defs_of_records(dv.take(i as int)) == Some(defs_view(out@)),
        decreases recs.len() - i,
    {
        assert(dv[i as int] == recs@[i as int].deep_view());
        match rule_of_record(&recs[i]) {
            Some(d) => {
                let ghost before = out@;
                out.push(d);
                proof {
                    assert(dv.take(i + 1) =~= dv.take(i as int).push(dv[i as int]));
                    lemma_defs_of_records_push(dv.take(i as int), dv[i as int]);
                    assert(defs_view(out@) =~= defs_view(before).push(d@));
                }
            },
            None => {
                proof {
                    lemma_defs_of_records_none_at(dv, i as int);
                }
                return None;
            },
        }
        i = i + 1;
    }
    assert(dv.take(recs.len() as int) =~= dv);
    Some(out)
}

/// Parses one rule file body into the ordered rule definitions it declares.
///
/// Succeeds exactly when the body is a well-formed record list whose every
/// record carries a non-empty `name` and a `condition`; any other body is
/// rejected with a parsing error identifying the file by its path.
pub fn parse_rule_file(file: &RuleFile) -> (r: Result<Vec<RuleDefinition>, PulsarEngineError>)
    ensures
        r is Ok <==> file_defs(file@.body) is Some,
        r matches Ok(ds) ==> file_defs(file@.body) == Some(defs_view(ds@)),
        r matches Err(e) ==> (e matches PulsarEngineError::RuleParsing { filename, .. }
            && filename@ == file@.path),
{
    match parse_yaml_records(&file.body) {
        Err(msg) => Err(
            PulsarEngineError::RuleParsing { filename: file.path.clone(), error: msg },
        ),
        Ok(recs) => match rules_of_records(&recs) {
            Some(defs) => Ok(defs),
            None => Err(
                PulsarEngineError::RuleParsing {
                    filename: file.path.clone(),
                    error: "a rule must carry a non-empty name and a condition".to_owned(),
                },
            ),
        },
    }
}

} // verus!

use crate::rules::RuleFileView;

verus! {

/// The models of a sequence of rule files, in order.
pub open spec fn files_view(s: Seq<RuleFile>) -> Seq<RuleFileView> {
    s.map_values(|f: RuleFile| f@)
}

/// What loading a whole ordered set of rule files yields: all files'
/// definitions concatenated in scan order, or `None` as soon as one file
/// fails to parse.
pub open spec fn files_defs(files: Seq<RuleFileView>) -> Option<Seq<RuleDefinitionView>>
    decreases files.len(),
{
    if files.len() == 0 {
        Some(Seq::empty())
    } else {
        match (files_defs(files.drop_last()), file_defs(files.last().body)) {
            (Some(acc), Some(ds)) => Some(acc + ds),
            _ => None,
        }
    }
}

/// The first file of the set whose body fails to parse, if any: the file the
/// load aborts on.
pub open spec fn first_failing_file(files: Seq<RuleFileView>) -> Option<RuleFileView>
    decreases files.len(),
{
    if files.len() == 0 {
        None
    } else if file_defs(files[0].body) is None {
        Some(files[0])
    } else {
        first_failing_file(files.drop_first())
    }
}

proof fn lemma_files_defs_push(files: Seq<RuleFileView>, f: RuleFileView)
    ensures
        files_defs(files.push(f)) == (match (files_defs(files), file_defs(f.body)) {
            (Some(acc), Some(ds)) => Some(acc + ds),
            _ => None,
        }),
{
    assert(files.push(f).drop_last() =~= files);
    assert(files.push(f).last() == f);
}

proof fn lemma_files_defs_none_at(files: Seq<RuleFileView>, i: int)
    requires
        0 <= i < files.len(),
        file_defs(files[i].body) is None,
    ensures
        files_defs(files) is None,
    decreases files.len(),
{
    if i < files.len() - 1 {
        lemma_files_defs_none_at(files.drop_last(), i);
    }
}

proof fn lemma_first_failing_file_at(files: Seq<RuleFileView>, i: int)
    requires
        0 <= i < files.len(),
        file_defs(files[i].body) is None,
        forall|j: int| 0 <= j < i ==> file_defs(files[j].body) is Some,
    ensures
        first_failing_file(files) == Some(files[i]),
    decreases i,
{
    if i > 0 {
        lemma_first_failing_file_at(files.drop_first(), i - 1);
    }
}

/// Loads the complete flat rule list from the ordered set of discovered rule
/// files: every file's definitions, concatenated in scan order.
///
/// Fail-fast: the first file whose body does not parse aborts the whole load
/// with a parsing error naming that file's path, and no definitions are
/// produced.
pub fn load_rules_from_files(files: &Vec<RuleFile>) -> (r: Result<
    Vec<RuleDefinition>,
    PulsarEngineError,
>)
    ensures
        r is Ok <==> files_defs(files_view(files@)) is Some,
        r matches Ok(ds) ==> files_defs(files_view(files@)) == Some(defs_view(ds@)),
        r matches Err(e) ==> (e matches PulsarEngineError::RuleParsing { filename, .. }
            && first_failing_file(files_view(files@)) matches Some(f)
            && filename@ == f.path),
{
    let ghost fv = files_view(files@);
    let mut out: Vec<RuleDefinition> = Vec::new();
    let mut i: usize = 0;
    assert(fv.take(0) =~= Seq::empty());
    assert(defs_view(out@) =~= Seq::empty());
    while i < files.len()
        invariant
            0 <= i <= files.len(),
            fv == files_view(files@),
            fv.len() == files.len(),
            files_defs(fv.take(i as int)) == Some(defs_view(out@)),
            forall|j: int| 0 <= j < i ==> file_defs(fv[j].body) is Some,
        decreases files.len() - i,
    {
        assert(fv[i as int] == files@[i as int]@);
        match parse_rule_file(&files[i]) {
            Ok(mut ds) => {
                let ghost before_out = out@;
                let ghost before_ds = ds@;
                out.append(&mut ds);
                proof {
                    assert(fv.take(i + 1) =~= fv.take(i as int).push(fv[i as int]));
                    lemma_files_defs_push(fv.take(i as int), fv[i as int]);
                    assert(defs_view(before_out + before_ds) =~= defs_view(before_out)
                        + defs_view(before_ds));
                }
            },
            Err(e) => {
                proof {
                    lemma_files_defs_none_at(fv, i as int);
                    lemma_first_failing_file_at(fv, i as int);
                }
                return Err(e);
            },
        }
        i = i + 1;
    }
    assert(fv.take(files.len() as int) =~= fv);
    Ok(out)
}

} // verus!
