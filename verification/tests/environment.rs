use uv_pspf::commands::{default_output_name, PspConfig};
use uv_pspf::env::{parse_env_vars, EnvVars};

fn strings(texts: &[&str]) -> Vec<String> {
    texts.iter().map(|s| s.to_string()).collect()
}

fn pairs(vars: EnvVars) -> Vec<(String, String)> {
    let mut entries = vars.into_entries();
    entries.sort();
    entries
}

#[test]
fn assignments_split_at_the_first_equals_sign() {
    let (vars, malformed) = parse_env_vars(&strings(&["A=1", "B=x=y", "C=", "=v", "Ä=ö"]));
    assert_eq!(
        pairs(vars),
        vec![
            ("".to_string(), "v".to_string()),
            ("A".to_string(), "1".to_string()),
            ("B".to_string(), "x=y".to_string()),
            ("C".to_string(), "".to_string()),
            ("Ä".to_string(), "ö".to_string()),
        ]
    );
    assert!(malformed.is_empty());
}

#[test]
fn the_last_assignment_counts() {
    let (vars, _) = parse_env_vars(&strings(&["A=1", "B=2", "A=3"]));
    assert_eq!(
        pairs(vars),
        vec![("A".to_string(), "3".to_string()), ("B".to_string(), "2".to_string())]
    );
}

#[test]
fn what_is_no_assignment_is_reported_in_order() {
    let (vars, malformed) = parse_env_vars(&strings(&["one", "A=1", "", "two"]));
    assert_eq!(pairs(vars), vec![("A".to_string(), "1".to_string())]);
    assert_eq!(malformed, strings(&["one", "", "two"]));
}

#[test]
fn configuration_without_variables_has_none() {
    let (vars, _) = parse_env_vars(&strings(&["bad"]));
    assert!(vars.is_empty());
    let config = PspConfig::new("app:main".to_string(), None, vars);
    assert_eq!(config.entry_point, "app:main");
    assert!(config.python_version.is_none());
    assert!(config.env_vars.is_none());
}

#[test]
fn configuration_keeps_variables() {
    let (vars, _) = parse_env_vars(&strings(&["K=V"]));
    let config = PspConfig::new("app:main".to_string(), Some("3.10".to_string()), vars);
    assert_eq!(config.python_version, Some("3.10".to_string()));
    assert_eq!(pairs(config.env_vars.unwrap()), vec![("K".to_string(), "V".to_string())]);
}

#[test]
fn setting_replaces_a_value() {
    let mut vars = EnvVars::new();
    vars.set("A".to_string(), "1".to_string());
    vars.set("A".to_string(), "2".to_string());
    assert_eq!(pairs(vars), vec![("A".to_string(), "2".to_string())]);
}

#[test]
fn output_is_named_after_the_project() {
    assert_eq!(default_output_name("my_app"), "my_app.pspf");
    assert_eq!(default_output_name(""), ".pspf");
}
