use rift_workspaces::common::config::{AppWorkspaceRule, WorkspaceSelector};
use rift_workspaces::model::app_rules::{
    find_matching_app_rule, rule_is_met, rule_specificity, select_rule, WindowIdentity,
};

fn any() -> AppWorkspaceRule {
    AppWorkspaceRule {
        app_id: None,
        workspace: None,
        floating: false,
        app_name: None,
        title_regex: None,
        title_substring: None,
        ax_role: None,
        ax_subrole: None,
    }
}

fn window<'a>(id: &'a str, title: &'a str) -> WindowIdentity<'a> {
    WindowIdentity {
        app_bundle_id: Some(id),
        app_name: Some("Safari"),
        window_title: Some(title),
        ax_role: Some("AXWindow"),
        ax_subrole: Some("AXDialog"),
    }
}

#[test]
fn title_is_matched_by_a_regular_expression() {
    let mut rule = any();
    rule.title_regex = Some("^Inbox [0-9]+$".to_string());
    let rules = vec![rule];
    assert_eq!(find_matching_app_rule(&rules, &window("a", "Inbox 12")), Some(0));
    assert_eq!(find_matching_app_rule(&rules, &window("a", "Inbox")), None);
    let mut untitled = window("a", "");
    untitled.window_title = None;
    assert_eq!(find_matching_app_rule(&rules, &untitled), None);
}

#[test]
fn rule_with_an_invalid_expression_is_not_met() {
    let mut rule = any();
    rule.title_regex = Some("(".to_string());
    assert_eq!(find_matching_app_rule(&vec![rule], &window("a", "(")), None);
}

#[test]
fn empty_conditions_are_not_met() {
    for i in 0..4 {
        let mut rule = any();
        match i {
            0 => rule.title_regex = Some(String::new()),
            1 => rule.title_substring = Some(String::new()),
            2 => rule.ax_role = Some(String::new()),
            _ => rule.ax_subrole = Some(String::new()),
        }
        assert_eq!(find_matching_app_rule(&vec![rule], &window("a", "t")), None);
    }
    assert_eq!(find_matching_app_rule(&vec![any()], &window("a", "t")), Some(0));
}

#[test]
fn names_match_when_one_occurs_in_the_other() {
    let mut rule = any();
    rule.app_name = Some("Safari Technology Preview".to_string());
    assert!(rule_is_met(&rule, &window("a", "t"), None));
    rule.app_name = Some("afar".to_string());
    assert!(rule_is_met(&rule, &window("a", "t"), None));
    rule.app_name = Some("Chrome".to_string());
    assert!(!rule_is_met(&rule, &window("a", "t"), None));
}

#[test]
fn other_conditions_have_to_be_met_too() {
    let mut rule = any();
    rule.app_id = Some("a".to_string());
    rule.title_substring = Some("box".to_string());
    rule.ax_role = Some("AXWindow".to_string());
    rule.ax_subrole = Some("AXDialog".to_string());
    assert!(rule_is_met(&rule, &window("a", "Inbox"), None));
    assert!(!rule_is_met(&rule, &window("b", "Inbox"), None));
    assert!(!rule_is_met(&rule, &window("a", "Outlook"), None));
    rule.ax_role = Some("AXSheet".to_string());
    assert!(!rule_is_met(&rule, &window("a", "Inbox"), None));
}

#[test]
fn specificity_counts_the_conditions_and_the_workspace() {
    let mut rule = any();
    assert_eq!(rule_specificity(&rule), 0);
    rule.app_id = Some("a".to_string());
    rule.app_name = Some(String::new());
    rule.workspace = Some(WorkspaceSelector::Index(0));
    assert_eq!(rule_specificity(&rule), 2);
    rule.app_name = Some("n".to_string());
    rule.title_regex = Some("r".to_string());
    rule.title_substring = Some("s".to_string());
    rule.ax_role = Some("x".to_string());
    rule.ax_subrole = Some("y".to_string());
    assert_eq!(rule_specificity(&rule), 7);
}

#[test]
fn the_most_specific_rule_wins_and_the_first_of_equals() {
    let mut plain = any();
    plain.app_name = Some("Safari".to_string());
    let mut titled = any();
    titled.app_name = Some("Safari".to_string());
    titled.title_substring = Some("Inbox".to_string());
    let rules = vec![plain.clone(), titled.clone(), titled];
    assert_eq!(find_matching_app_rule(&rules, &window("a", "Inbox")), Some(1));
    assert_eq!(find_matching_app_rule(&rules, &window("a", "News")), Some(0));
    assert_eq!(find_matching_app_rule(&vec![plain.clone(), plain], &window("a", "t")), Some(0));
}

#[test]
fn rules_for_one_application_go_before_more_specific_ones() {
    let mut specific = any();
    specific.app_name = Some("Safari".to_string());
    specific.ax_role = Some("AXWindow".to_string());
    specific.ax_subrole = Some("AXDialog".to_string());
    let mut own = any();
    own.app_id = Some("a".to_string());
    let mut own_titled = own.clone();
    own_titled.title_substring = Some("t".to_string());
    let rules = vec![specific.clone(), own.clone(), own_titled];
    assert_eq!(find_matching_app_rule(&rules, &window("a", "t")), Some(2));
    let rules = vec![specific, own];
    assert_eq!(find_matching_app_rule(&rules, &window("a", "t")), Some(0));
}

#[test]
fn selection_goes_by_the_verdicts_that_are_handed_in() {
    let mut rule = any();
    rule.title_regex = Some("x".to_string());
    let rules = vec![rule];
    let seen = window("a", "t");
    assert_eq!(select_rule(&rules, &seen, &vec![Some(true)]), Some(0));
    assert_eq!(select_rule(&rules, &seen, &vec![Some(false)]), None);
    assert_eq!(select_rule(&rules, &seen, &vec![None]), None);
}

#[test]
fn expression_decides_only_for_the_application_of_its_rule() {
    let mut other = any();
    other.app_id = Some("com.example.other".to_string());
    other.title_regex = Some("^In".to_string());
    let mut own = any();
    own.app_id = Some("com.example.mail".to_string());
    own.title_regex = Some("box$".to_string());
    let rules = vec![other, own];
    assert_eq!(find_matching_app_rule(&rules, &window("com.example.mail", "Inbox")), Some(1));
    assert_eq!(find_matching_app_rule(&rules, &window("com.example.other", "Inbox")), Some(0));
    assert_eq!(find_matching_app_rule(&rules, &window("com.example.mail", "Sent")), None);
}
