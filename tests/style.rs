use pinhole::style::{compute_style, find_class, ClassRules, RuleSource};

fn sheet() -> Vec<ClassRules> {
    vec![
        ClassRules { name: "base".to_string(), kinds: vec![0, 1, 0] },
        ClassRules { name: "accent".to_string(), kinds: vec![1, 2] },
        ClassRules { name: "base".to_string(), kinds: vec![5] },
    ]
}

fn src(kind: u8, class: usize, rule: usize) -> RuleSource {
    RuleSource { kind, class, rule }
}

#[test]
fn later_rule_of_same_kind_wins_within_class() {
    let rules = compute_style(&sheet(), &vec!["base".to_string()]);
    assert_eq!(rules, vec![src(1, 0, 1), src(0, 0, 2)]);
}

#[test]
fn later_class_overrides_earlier() {
    let rules = compute_style(&sheet(), &vec!["base".to_string(), "accent".to_string()]);
    assert_eq!(rules, vec![src(0, 0, 2), src(1, 1, 0), src(2, 1, 1)]);
    let rules = compute_style(&sheet(), &vec!["accent".to_string(), "base".to_string()]);
    assert_eq!(rules, vec![src(2, 1, 1), src(1, 0, 1), src(0, 0, 2)]);
}

#[test]
fn unknown_class_is_ignored_and_first_named_class_is_used() {
    let rules = compute_style(&sheet(), &vec!["missing".to_string()]);
    assert!(rules.is_empty());
    assert_eq!(find_class(&sheet(), &"base".to_string()), Some(0));
    assert_eq!(find_class(&sheet(), &"nope".to_string()), None);
    assert!(compute_style(&sheet(), &Vec::new()).is_empty());
}
