use toolshed::env::{interpolate, interpolate_map};
use toolshed::error::ToolshedError;
use toolshed::namemap::NameMap;

fn env_of(pairs: &[(&str, &str)]) -> NameMap<String> {
    let mut m = NameMap::new();
    for (k, v) in pairs {
        m.insert(k.to_string(), v.to_string());
    }
    m
}

#[test]
fn plain_string() {
    assert_eq!(interpolate("hello world", &env_of(&[])).unwrap(), "hello world");
}

#[test]
fn env_var() {
    let env = env_of(&[("TOOLSHED_TEST_VAR", "value123")]);
    assert_eq!(interpolate("key=${TOOLSHED_TEST_VAR}", &env).unwrap(), "key=value123");
}

#[test]
fn env_var_missing() {
    let err = interpolate("${TOOLSHED_MISSING_VAR}", &env_of(&[])).unwrap_err();
    assert!(err.message().contains("TOOLSHED_MISSING_VAR"));
}

#[test]
fn env_var_with_default() {
    assert_eq!(interpolate("${TOOLSHED_DEF_VAR:-fallback}", &env_of(&[])).unwrap(), "fallback");
}

#[test]
fn env_var_set_overrides_default() {
    let env = env_of(&[("TOOLSHED_DEF_VAR2", "real")]);
    assert_eq!(interpolate("${TOOLSHED_DEF_VAR2:-fallback}", &env).unwrap(), "real");
}

#[test]
fn multiple_vars() {
    let env = env_of(&[("TOOLSHED_A", "one"), ("TOOLSHED_B", "two")]);
    assert_eq!(interpolate("${TOOLSHED_A}-${TOOLSHED_B}", &env).unwrap(), "one-two");
}

#[test]
fn unclosed_brace() {
    assert_eq!(interpolate("${UNCLOSED", &env_of(&[])).unwrap(), "${UNCLOSED");
}

#[test]
fn empty_value_takes_default() {
    let env = env_of(&[("EMPTY", "")]);
    assert_eq!(interpolate("${EMPTY:-d}", &env).unwrap(), "d");
    assert_eq!(interpolate("${EMPTY}", &env).unwrap(), "");
}

#[test]
fn lone_dollar_is_kept() {
    assert_eq!(interpolate("$HOME and $", &env_of(&[])).unwrap(), "$HOME and $");
}

#[test]
fn missing_variable_error_kind() {
    let err = interpolate("a ${X} b", &env_of(&[])).unwrap_err();
    assert!(matches!(err, ToolshedError::EnvVarNotSet { ref var } if var == "X"));
}

#[test]
fn map_values_are_filled() {
    let env = env_of(&[("K", "secret")]);
    let map = env_of(&[("API_KEY", "${K}"), ("PLAIN", "x")]);
    let out = interpolate_map(&map, &env).unwrap();
    assert_eq!(*out.get("API_KEY").unwrap(), "secret");
    assert_eq!(*out.get("PLAIN").unwrap(), "x");
}

#[test]
fn map_first_missing_variable_in_name_order() {
    let map = env_of(&[("B", "${SECOND}"), ("A", "${FIRST}")]);
    let err = interpolate_map(&map, &env_of(&[])).unwrap_err();
    assert!(matches!(err, ToolshedError::EnvVarNotSet { ref var } if var == "FIRST"));
}

#[test]
fn substituted_value_is_not_expanded_again() {
    let env = env_of(&[("A", "${B}"), ("B", "x"), ("E", "")]);
    assert_eq!(interpolate("${A}", &env).unwrap(), "${B}");
    assert_eq!(interpolate("${E}", &env).unwrap(), "");
    assert_eq!(interpolate("${E:-d}", &env).unwrap(), "d");
    assert_eq!(interpolate("cost $5", &env).unwrap(), "cost $5");
}
