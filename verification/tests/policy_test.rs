//! Tests for the policy engine.

use mcp_guard::json::JsonValue;
use mcp_guard::policy::{Action, Evaluation, Policy, PolicyFormat, ToolRule, ToolRules};

fn text(s: &str) -> JsonValue {
    JsonValue::Str(s.to_string())
}

fn object(pairs: Vec<(&str, JsonValue)>) -> JsonValue {
    JsonValue::Object(pairs.into_iter().map(|(k, v)| (k.to_string(), v)).collect())
}

#[test]
fn test_policy_evaluation() {
    let mut policy = Policy::default();
    policy.tools.insert(
        "read_file".to_string(),
        ToolRule {
            action: Action::Allow,
            deny_patterns: vec!["^/etc/.*".to_string(), ".*\\.env$".to_string()],
        },
    );
    policy.tools.insert(
        "drop_table".to_string(),
        ToolRule {
            action: Action::Deny,
            deny_patterns: vec![],
        },
    );
    policy.tools.insert(
        "commit".to_string(),
        ToolRule {
            action: Action::Prompt,
            deny_patterns: vec![],
        },
    );

    // Allowed rule
    let args1 = object(vec![("path", text("/home/user/document.txt"))]);
    assert_eq!(policy.evaluate("read_file", Some(&args1)), Evaluation::Allowed);

    // Denied by regex
    let args2 = object(vec![("path", text("/etc/passwd"))]);
    match policy.evaluate("read_file", Some(&args2)) {
        Evaluation::Denied(msg) => assert!(msg.contains("deny pattern")),
        _ => panic!("Should be denied by regex"),
    }

    // Explicit Deny
    let args3 = object(vec![]);
    match policy.evaluate("drop_table", Some(&args3)) {
        Evaluation::Denied(msg) => assert!(msg.contains("explicit deny action")),
        _ => panic!("Should be explicitly denied"),
    }

    // Prompt
    let args4 = object(vec![("message", text("update"))]);
    assert_eq!(policy.evaluate("commit", Some(&args4)), Evaluation::PromptRequired);

    // Unknown - defaults to Prompt
    let args5 = object(vec![]);
    assert_eq!(policy.evaluate("unknown_tool", Some(&args5)), Evaluation::PromptRequired);

    // Regex fallthrough - pattern doesn't match
    let args6 = object(vec![("path", text("/home/user/safe.txt"))]);
    assert_eq!(policy.evaluate("read_file", Some(&args6)), Evaluation::Allowed);

    // Regex fallthrough - invalid regex pattern
    let mut bad_regex_policy = Policy::default();
    bad_regex_policy.tools.insert(
        "read_file".to_string(),
        ToolRule {
            action: Action::Allow,
            deny_patterns: vec!["[unterminated".to_string()],
        },
    );
    assert_eq!(bad_regex_policy.evaluate("read_file", Some(&args6)), Evaluation::Allowed);

    // Regex match on second property to exhaust map iterations
    let mut multi_regex_policy = Policy::default();
    multi_regex_policy.tools.insert(
        "test_tool".to_string(),
        ToolRule {
            action: Action::Allow,
            deny_patterns: vec!["fail".to_string(), "drop".to_string()],
        },
    );
    let args_multi = object(vec![("a", text("safe")), ("b", JsonValue::Int(123)), ("c", text("drop"))]);
    match multi_regex_policy.evaluate("test_tool", Some(&args_multi)) {
        Evaluation::Denied(msg) => assert!(msg.contains("deny pattern")),
        _ => panic!("Should deny"),
    }

    // Argument is not an object (Array instead of Map)
    let args_array = JsonValue::Array(vec![text("array_val")]);
    assert_eq!(multi_regex_policy.evaluate("test_tool", Some(&args_array)), Evaluation::Allowed);
}

#[test]
fn test_deny_reason_names_first_matching_pattern() {
    let mut policy = Policy::default();
    policy.tools.insert(
        "sql_query".to_string(),
        ToolRule {
            action: Action::Prompt,
            deny_patterns: vec!["(?i).*DROP\\s+(TABLE|DATABASE).*".to_string(), "(?i).*DELETE\\s+FROM.*".to_string()],
        },
    );
    let args = object(vec![("query", text("delete from users; drop table users"))]);
    assert_eq!(
        policy.evaluate("sql_query", Some(&args)),
        Evaluation::Denied("Argument matched deny pattern: (?i).*DROP\\s+(TABLE|DATABASE).*".to_string())
    );
    let safe = object(vec![("query", text("select 1"))]);
    assert_eq!(policy.evaluate("sql_query", Some(&safe)), Evaluation::PromptRequired);
}

#[test]
fn test_explicit_deny_reason_text() {
    let mut policy = Policy::default();
    policy.tools.insert(
        "danger_tool".to_string(),
        ToolRule { action: Action::Deny, deny_patterns: vec![] },
    );
    assert_eq!(
        policy.evaluate("danger_tool", None),
        Evaluation::Denied("Blocked by explicit deny action in policy.".to_string())
    );
}

#[test]
fn test_deny_pattern_overrides_allow_and_non_string_values_ignored() {
    let mut policy = Policy::default();
    policy.tools.insert(
        "tool".to_string(),
        ToolRule { action: Action::Allow, deny_patterns: vec!["1".to_string()] },
    );
    // A number is not a string argument, so the pattern cannot match it.
    let numbers = object(vec![("n", JsonValue::Int(1))]);
    assert_eq!(policy.evaluate("tool", Some(&numbers)), Evaluation::Allowed);
    let strings = object(vec![("n", text("1"))]);
    assert!(matches!(policy.evaluate("tool", Some(&strings)), Evaluation::Denied(_)));
    assert_eq!(policy.evaluate("tool", None), Evaluation::Allowed);
}

#[test]
fn test_tool_rules_insert_get_len() {
    let mut rules = ToolRules::new();
    assert_eq!(rules.len(), 0);
    let previous = rules.insert("a".to_string(), ToolRule { action: Action::Allow, deny_patterns: vec![] });
    assert!(previous.is_none());
    rules.insert("b".to_string(), ToolRule { action: Action::Deny, deny_patterns: vec![] });
    assert_eq!(rules.len(), 2);
    let replaced = rules.insert("a".to_string(), ToolRule { action: Action::Prompt, deny_patterns: vec!["x".to_string()] });
    assert_eq!(replaced.unwrap().action, Action::Allow);
    assert_eq!(rules.len(), 2);
    let a = rules.get("a").unwrap();
    assert_eq!(a.action, Action::Prompt);
    assert_eq!(a.deny_patterns.len(), 1);
    assert_eq!(rules.get("b").unwrap().action, Action::Deny);
    assert!(rules.get("c").is_none());
}

#[test]
fn test_policy_format_for_extension() {
    assert_eq!(PolicyFormat::for_extension("yaml"), Some(PolicyFormat::Yaml));
    assert_eq!(PolicyFormat::for_extension("YML"), Some(PolicyFormat::Yaml));
    assert_eq!(PolicyFormat::for_extension("Yaml"), Some(PolicyFormat::Yaml));
    assert_eq!(PolicyFormat::for_extension("toml"), Some(PolicyFormat::Toml));
    assert_eq!(PolicyFormat::for_extension("TOML"), Some(PolicyFormat::Toml));
    assert_eq!(PolicyFormat::for_extension(""), Some(PolicyFormat::Toml));
}

#[test]
fn test_policy_load_unrecognised_extension() {
    // A file such as `policy.json` has no policy format: loading it is an error.
    assert_eq!(PolicyFormat::for_extension("json"), None);
    assert_eq!(PolicyFormat::for_extension("txt"), None);
    assert_eq!(PolicyFormat::for_extension("yamlx"), None);
}

#[test]
fn test_default_policy_is_empty() {
    let policy = Policy::default();
    assert_eq!(policy.tools.len(), 0);
    assert!(policy.audit.log_file.is_none());
    assert!(policy.audit.log_level.is_none());
}

#[test]
fn test_cloned_policy_decides_alike() {
    let mut policy = Policy::default();
    policy.tools.insert(
        "read_file".to_string(),
        ToolRule { action: Action::Allow, deny_patterns: vec!["^/etc/.*".to_string()] },
    );
    let copy = policy.clone();
    let args = object(vec![("path", text("/etc/passwd"))]);
    assert_eq!(copy.evaluate("read_file", Some(&args)), policy.evaluate("read_file", Some(&args)));
    assert_eq!(copy.tools.len(), 1);
    assert_eq!(copy.tools.get("read_file").unwrap().deny_patterns, vec!["^/etc/.*".to_string()]);
}
