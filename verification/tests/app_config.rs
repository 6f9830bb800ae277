use kubesess::app_config::{
    config_path_from, default_height, default_layout, default_prompt, default_score_offset,
    AppConfig, SelectorConfig,
};

#[test]
fn test_default_config_is_no_op() {
    let cfg = AppConfig::default();
    assert!(cfg.selector.priority_rules.is_empty());
    assert!(cfg.selector.color_rules.is_empty());
    assert!(!cfg.selector.no_sort);
    assert_eq!(cfg.selector.layout, "default");
    assert_eq!(cfg.selector.height, "100%");
}

#[test]
fn default_selector_values() {
    let s = SelectorConfig::default();
    assert_eq!(s.prompt, "> ");
    assert_eq!(s.score_offset, 10);
    assert_eq!(default_height(), "100%");
    assert_eq!(default_layout(), "default");
    assert_eq!(default_prompt(), "> ");
    assert_eq!(default_score_offset(), 10);
}

#[test]
fn config_path_prefers_xdg() {
    let p = config_path_from(Some("/xdg".to_string()), Some("/home/u".to_string()));
    assert_eq!(p, "/xdg/kubesess/config.toml");
}

#[test]
fn config_path_falls_back_to_home() {
    let p = config_path_from(None, Some("/home/u/".to_string()));
    assert_eq!(p, "/home/u/.config/kubesess/config.toml");
}

#[test]
fn config_path_without_home() {
    assert_eq!(config_path_from(None, None), ".config/kubesess/config.toml");
}

#[test]
fn config_path_with_empty_xdg() {
    assert_eq!(config_path_from(Some(String::new()), None), "kubesess/config.toml");
}
