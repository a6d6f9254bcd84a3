use rules_engine::Event;
use rules_engine::EventHeader;
use rules_engine::PulsarEngine;
use rules_engine::PulsarEngineError;
use rules_engine::RuleFile;

fn event(facts: Vec<&str>) -> Event {
    Event {
        header: EventHeader { threat: None },
        facts: facts.into_iter().map(|f| f.to_string()).collect(),
    }
}

fn threat_event(origin: &str, facts: Vec<&str>) -> Event {
    Event {
        header: EventHeader { threat: Some(origin.to_string()) },
        facts: facts.into_iter().map(|f| f.to_string()).collect(),
    }
}

#[test]
fn glob_pattern_appends_recursive_extension_filter() {
    let dir = "/etc/pulsar/rules".to_string();
    let pattern = rules_engine::rule_glob_pattern(&dir);
    assert_eq!(pattern, "/etc/pulsar/rules/**/*.yaml");
}

#[test]
fn parse_round_trip_preserves_count_name_and_order() {
    let body = "- name: first-rule\n  type: FileOpened\n  condition: open-shadow\n\
                - name: second-rule\n  condition: exec-sudo\n\
                - name: third-rule\n  condition: netlink-raw\n";
    let file = RuleFile::from("rules/many.yaml".to_string(), body.to_string());
    let defs = rules_engine::parse::parse_rule_file(&file).unwrap();
    assert_eq!(defs.len(), 3);
    assert_eq!(defs[0].name, "first-rule");
    assert_eq!(defs[0].condition, "open-shadow");
    assert_eq!(defs[1].name, "second-rule");
    assert_eq!(defs[1].condition, "exec-sudo");
    assert_eq!(defs[2].name, "third-rule");
    assert_eq!(defs[2].condition, "netlink-raw");
}

#[test]
fn parse_file_with_zero_rules_is_valid() {
    let file = RuleFile::from("rules/none.yaml".to_string(), "[]".to_string());
    let defs = rules_engine::parse::parse_rule_file(&file).unwrap();
    assert_eq!(defs.len(), 0);
}

#[test]
fn invalid_structured_content_fails_naming_the_file() {
    let good = RuleFile::from(
        "rules/good.yaml".to_string(),
        "- name: ok\n  condition: fine\n".to_string(),
    );
    let bad = RuleFile::from("rules/bad.yaml".to_string(), "- name: [broken".to_string());
    let result = PulsarEngine::new(vec![good, bad]);
    match result {
        Err(PulsarEngineError::RuleParsing { filename, .. }) => {
            assert_eq!(filename, "rules/bad.yaml");
        },
        _ => panic!("expected a parsing error naming the bad file"),
    }
}

#[test]
fn record_without_a_name_is_a_parse_failure() {
    let file = RuleFile::from(
        "rules/anon.yaml".to_string(),
        "- condition: whatever\n".to_string(),
    );
    match rules_engine::parse::parse_rule_file(&file) {
        Err(PulsarEngineError::RuleParsing { filename, .. }) => {
            assert_eq!(filename, "rules/anon.yaml");
        },
        _ => panic!("expected a parsing error for the unnamed rule"),
    }
}

#[test]
fn record_with_an_empty_name_is_a_parse_failure() {
    let file = RuleFile::from(
        "rules/empty_name.yaml".to_string(),
        "- name: \"\"\n  condition: whatever\n".to_string(),
    );
    assert!(matches!(
        rules_engine::parse::parse_rule_file(&file),
        Err(PulsarEngineError::RuleParsing { .. })
    ));
}

#[test]
fn record_without_a_condition_is_a_parse_failure() {
    let file = RuleFile::from(
        "rules/bare.yaml".to_string(),
        "- name: lonely\n".to_string(),
    );
    assert!(matches!(
        rules_engine::parse::parse_rule_file(&file),
        Err(PulsarEngineError::RuleParsing { .. })
    ));
}

#[test]
fn empty_rule_set_constructs_and_never_emits() {
    let engine = PulsarEngine::new(vec![]).unwrap();
    let payloads = engine.process(&event(vec!["process-exec", "open-shadow"]));
    assert_eq!(payloads.len(), 0);
    let payloads = engine.process(&threat_event("earlier-rule", vec!["process-exec"]));
    assert_eq!(payloads.len(), 0);
}

#[test]
fn threat_derived_events_are_never_evaluated() {
    let file = RuleFile::from(
        "rules/a.yaml".to_string(),
        "- name: catches-everything-here\n  condition: process-exec\n".to_string(),
    );
    let engine = PulsarEngine::new(vec![file]).unwrap();
    let matching_but_derived = threat_event("earlier-rule", vec!["process-exec"]);
    assert_eq!(engine.process(&matching_but_derived).len(), 0);
}

#[test]
fn two_independent_matches_emit_two_payloads() {
    let file = RuleFile::from(
        "rules/two.yaml".to_string(),
        "- name: watch-exec\n  condition: process-exec\n\
         - name: watch-shadow\n  condition: open-shadow\n"
            .to_string(),
    );
    let engine = PulsarEngine::new(vec![file]).unwrap();
    let payloads = engine.process(&event(vec!["open-shadow", "process-exec"]));
    assert_eq!(payloads.len(), 2);
    assert_eq!(payloads[0].rule_name, "watch-exec");
    assert_eq!(payloads[1].rule_name, "watch-shadow");
}

#[test]
fn duplicate_rule_names_fail_compilation() {
    let a = RuleFile::from(
        "rules/a.yaml".to_string(),
        "- name: twin\n  condition: process-exec\n".to_string(),
    );
    let b = RuleFile::from(
        "rules/sub/b.yaml".to_string(),
        "- name: twin\n  condition: open-shadow\n".to_string(),
    );
    assert!(matches!(
        PulsarEngine::new(vec![a, b]),
        Err(PulsarEngineError::RuleCompile { .. })
    ));
}

#[test]
fn end_to_end_single_match_emits_one_named_payload() {
    let a = RuleFile::from(
        "rules/a.yaml".to_string(),
        "- name: suspicious-exec\n  condition: process-exec\n".to_string(),
    );
    let b = RuleFile::from("rules/sub/b.yaml".to_string(), "[]".to_string());
    let engine = PulsarEngine::new(vec![a, b]).unwrap();

    let payloads = engine.process(&event(vec!["process-exec"]));
    assert_eq!(payloads.len(), 1);
    assert_eq!(payloads[0].rule_name, "suspicious-exec");

    let payloads = engine.process(&event(vec!["file-open"]));
    assert_eq!(payloads.len(), 0);

    let payloads = engine.process(&threat_event("suspicious-exec", vec!["process-exec"]));
    assert_eq!(payloads.len(), 0);
}

#[test]
fn cloned_handle_dispatches_identically() {
    let file = RuleFile::from(
        "rules/a.yaml".to_string(),
        "- name: suspicious-exec\n  condition: process-exec\n".to_string(),
    );
    let engine = PulsarEngine::new(vec![file]).unwrap();
    let shared = engine.clone();
    let e = event(vec!["process-exec"]);
    let from_original = engine.process(&e);
    let from_clone = shared.process(&e);
    assert_eq!(from_original.len(), 1);
    assert_eq!(from_clone.len(), 1);
    assert_eq!(from_original[0].rule_name, from_clone[0].rule_name);
}

#[test]
fn definitions_concatenate_across_files_in_scan_order() {
    let a = RuleFile::from(
        "rules/a.yaml".to_string(),
        "- name: one\n  condition: fact-one\n".to_string(),
    );
    let b = RuleFile::from(
        "rules/sub/b.yaml".to_string(),
        "- name: two\n  condition: fact-two\n- name: three\n  condition: fact-three\n".to_string(),
    );
    let defs = rules_engine::parse::load_rules_from_files(&vec![a, b]).unwrap();
    assert_eq!(defs.len(), 3);
    assert_eq!(defs[0].name, "one");
    assert_eq!(defs[1].name, "two");
    assert_eq!(defs[2].name, "three");
}
