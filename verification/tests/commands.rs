use kubesess::app_config::{AppConfig, ColorRule, PriorityRule};
use kubesess::commands::{
    RuleKind,
    adjusted_rank, parse_namespaces, pick_selection, prepare_selection, saturating_mul,
    set_default_context_args, set_default_namespace_args,
};

fn names(v: &[&str]) -> Vec<String> {
    v.iter().map(|s| s.to_string()).collect()
}

fn priority(pattern: &str, priority: u32) -> PriorityRule {
    PriorityRule { pattern: pattern.to_string(), priority }
}

#[test]
fn without_rules_items_are_reversed_and_plain() {
    let cfg = AppConfig::default();
    let s = prepare_selection(names(&["a", "b", "c"]), &cfg);
    let got: Vec<&str> = s.items.iter().map(|i| i.name.as_str()).collect();
    assert_eq!(got, vec!["c", "b", "a"]);
    assert!(s.items.iter().all(|i| i.display == i.name));
    assert!(s.penalties.is_none());
    assert_eq!(s.height, "100%");
    assert_eq!(s.prompt, "> ");
    assert!(!s.no_sort);
    assert!(!s.reverse);
}

#[test]
fn priority_rules_keep_order_and_set_penalties() {
    let mut cfg = AppConfig::default();
    cfg.selector.priority_rules = vec![priority("^prod", 1), priority("^dev", 7)];
    let s = prepare_selection(names(&["prod-eu", "dev-1", "other"]), &cfg);
    let got: Vec<&str> = s.items.iter().map(|i| i.name.as_str()).collect();
    assert_eq!(got, vec!["prod-eu", "dev-1", "other"]);
    let p = s.penalties.unwrap();
    assert_eq!(p, vec![("prod-eu".to_string(), 10), ("dev-1".to_string(), 70), ("other".to_string(), 100000)]);
}

#[test]
fn first_matching_priority_rule_wins() {
    let mut cfg = AppConfig::default();
    cfg.selector.priority_rules = vec![priority("prod", 3), priority("^prod", 1)];
    cfg.selector.score_offset = 2;
    let s = prepare_selection(names(&["prod"]), &cfg);
    assert_eq!(s.penalties.unwrap()[0].1, 6);
}

#[test]
fn invalid_priority_patterns_are_skipped() {
    let mut cfg = AppConfig::default();
    cfg.selector.priority_rules = vec![priority("(", 1)];
    let s = prepare_selection(names(&["x", "y"]), &cfg);
    assert!(s.penalties.is_none());
    assert_eq!(s.items[0].name, "y");
    cfg.selector.priority_rules = vec![priority("(", 1), priority("x", 4)];
    let s = prepare_selection(names(&["x", "y"]), &cfg);
    assert_eq!(s.penalties.unwrap(), vec![("x".to_string(), 40), ("y".to_string(), 100000)]);
}

#[test]
fn penalty_saturates() {
    let mut cfg = AppConfig::default();
    cfg.selector.priority_rules = vec![priority("a", 5)];
    cfg.selector.score_offset = i32::MAX;
    let s = prepare_selection(names(&["a"]), &cfg);
    assert_eq!(s.penalties.unwrap()[0].1, i32::MAX);
    cfg.selector.score_offset = i32::MIN;
    let s = prepare_selection(names(&["a"]), &cfg);
    assert_eq!(s.penalties.unwrap()[0].1, i32::MIN);
}

#[test]
fn color_rules_wrap_display() {
    let mut cfg = AppConfig::default();
    cfg.selector.color_rules = vec![
        ColorRule { pattern: "[".to_string(), ansi: "\u{1b}[31m".to_string() },
        ColorRule { pattern: "^prod".to_string(), ansi: "\u{1b}[32m".to_string() },
    ];
    let s = prepare_selection(names(&["prod", "dev"]), &cfg);
    assert_eq!(s.items[0].name, "dev");
    assert_eq!(s.items[0].display, "dev");
    assert_eq!(s.items[1].name, "prod");
    assert_eq!(s.items[1].display, "\u{1b}[32mprod\u{1b}[0m");
}

#[test]
fn layout_and_sorting_settings() {
    let mut cfg = AppConfig::default();
    cfg.selector.layout = "reverse-list".to_string();
    cfg.selector.no_sort = true;
    cfg.selector.height = "60%".to_string();
    let s = prepare_selection(Vec::new(), &cfg);
    assert!(s.items.is_empty());
    assert!(s.reverse);
    assert!(s.no_sort);
    assert_eq!(s.height, "60%");
    cfg.selector.layout = "reverse".to_string();
    assert!(prepare_selection(Vec::new(), &cfg).reverse);
    cfg.selector.layout = "Reverse".to_string();
    assert!(!prepare_selection(Vec::new(), &cfg).reverse);
}

#[test]
fn rank_adjustment() {
    assert_eq!(adjusted_rank(-50, Some(10)), -40);
    assert_eq!(adjusted_rank(-50, None), -50);
    assert_eq!(adjusted_rank(i32::MAX, Some(1)), i32::MAX);
    assert_eq!(adjusted_rank(i32::MIN, Some(-1)), i32::MIN);
    assert_eq!(saturating_mul(10_000, 10), 100_000);
    assert_eq!(saturating_mul(-70_000, 70_000), i32::MIN);
}

#[test]
fn picking_the_selection() {
    assert_eq!(pick_selection(true, names(&["a", "b"])), Some("a".to_string()));
    assert_eq!(pick_selection(false, names(&["a"])), None);
    assert_eq!(pick_selection(true, Vec::new()), None);
}

#[test]
fn namespaces_skip_the_header() {
    let out = "NAME\ndefault\nkube-system\r\n";
    assert_eq!(parse_namespaces(out), names(&["default", "kube-system"]));
    assert!(parse_namespaces("").is_empty());
    assert!(parse_namespaces("NAME\n").is_empty());
}

#[test]
fn kubectl_arguments() {
    assert_eq!(
        set_default_namespace_args("team", "ctx", "/k/config"),
        names(&["config", "--kubeconfig=/k/config", "set-context", "ctx", "--namespace=team"])
    );
    assert_eq!(
        set_default_context_args("ctx", "/k/config"),
        names(&["config", "--kubeconfig=/k/config", "use-context", "ctx"])
    );
}

#[test]
fn rejected_rules_are_reported_with_the_regex_error() {
    let mut cfg = AppConfig::default();
    cfg.selector.priority_rules = vec![priority("(", 1), priority("ok", 2), priority("[z-a]", 3)];
    cfg.selector.color_rules = vec![
        ColorRule { pattern: "a{".to_string(), ansi: "x".to_string() },
        ColorRule { pattern: "^o".to_string(), ansi: "z".to_string() },
        ColorRule { pattern: ")".to_string(), ansi: "y".to_string() },
    ];
    let s = prepare_selection(names(&["ok"]), &cfg);
    let got: Vec<(RuleKind, String, String)> =
        s.rejected.into_iter().map(|r| (r.kind, r.pattern, r.error)).collect();
    let err = |p: &str| regex::Regex::new(p).unwrap_err().to_string();
    assert_eq!(
        got,
        vec![
            (RuleKind::Priority, "(".to_string(), err("(")),
            (RuleKind::Priority, "[z-a]".to_string(), err("[z-a]")),
            (RuleKind::Color, "a{".to_string(), err("a{")),
            (RuleKind::Color, ")".to_string(), err(")")),
        ]
    );
}

#[test]
fn valid_rules_reject_nothing() {
    let mut cfg = AppConfig::default();
    cfg.selector.priority_rules = vec![priority("^prod", 1)];
    assert!(prepare_selection(names(&["prod"]), &cfg).rejected.is_empty());
    assert!(prepare_selection(names(&["prod"]), &AppConfig::default()).rejected.is_empty());
}
