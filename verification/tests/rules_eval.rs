//! Rule-evaluator behavior: defaults, last-match-wins ordering, and the
//! features short-circuit.
use launchcore::model::Rule;
use launchcore::platform::Os;
use launchcore::rules::check_rules;

fn allow_on(os: &str) -> Rule {
    Rule { allow: true, os_name: Some(os.to_string()), has_features: false }
}

fn disallow_on(os: &str) -> Rule {
    Rule { allow: false, os_name: Some(os.to_string()), has_features: false }
}

#[test]
fn absent_rules_allow() {
    assert!(check_rules(&None, Os::Linux));
}

#[test]
fn empty_rules_allow() {
    assert!(check_rules(&Some(vec![]), Os::Linux));
}

#[test]
fn disallow_a_then_allow_b_on_b() {
    let rules = vec![disallow_on("osx"), allow_on("windows")];
    assert!(check_rules(&Some(rules), Os::Windows));
}

#[test]
fn allow_b_then_disallow_a_on_b() {
    let rules = vec![allow_on("windows"), disallow_on("osx")];
    assert!(check_rules(&Some(rules), Os::Windows));
}

#[test]
fn disallow_a_then_allow_b_on_a() {
    let rules = vec![disallow_on("osx"), allow_on("windows")];
    assert!(!check_rules(&Some(rules), Os::Macos));
}

#[test]
fn allow_b_then_disallow_a_on_a() {
    let rules = vec![allow_on("windows"), disallow_on("osx")];
    assert!(!check_rules(&Some(rules), Os::Macos));
}

#[test]
fn last_matching_rule_wins() {
    let rules = vec![allow_on("linux"), disallow_on("linux")];
    assert!(!check_rules(&Some(rules), Os::Linux));
    let rules = vec![disallow_on("linux"), allow_on("linux")];
    assert!(check_rules(&Some(rules), Os::Linux));
}

#[test]
fn osless_rule_matches_everywhere() {
    let rules = Some(vec![Rule { allow: true, os_name: None, has_features: false }]);
    assert!(check_rules(&rules, Os::Linux));
    assert!(check_rules(&rules, Os::Windows));
}

#[test]
fn features_rule_never_matches() {
    // a matching OS does not help: the features key short-circuits the rule
    let rules = vec![Rule { allow: true, os_name: Some("linux".to_string()), has_features: true }];
    assert!(!check_rules(&Some(rules), Os::Linux));
}

#[test]
fn nonempty_list_without_match_disallows() {
    let rules = vec![allow_on("windows")];
    assert!(!check_rules(&Some(rules), Os::Linux));
}
