use container_utils::env::parse_env;

#[test]
fn test_parse_env() {
    let key = "key".to_string();
    let value = "value".to_string();
    let env_input = vec![format!("{}={}", key, value)];
    let env_output = parse_env(&env_input);
    assert_eq!(
        env_output.len(),
        1,
        "There should be exactly one entry inside"
    );
    assert_eq!(env_output.get_key_value(&key), Some((&key, &value)));
}

#[test]
fn test_parse_env_value_keeps_later_separators() {
    let env_input = vec![String::from("PATH=/usr/bin:/bin=extra")];
    let env_output = parse_env(&env_input);
    let key = String::from("PATH");
    let value = String::from("/usr/bin:/bin=extra");
    assert_eq!(env_output.get_key_value(&key), Some((&key, &value)));
}

#[test]
fn test_parse_env_entry_without_separator() {
    let env_input = vec![String::from("TERM")];
    let env_output = parse_env(&env_input);
    let key = String::from("TERM");
    let value = String::new();
    assert_eq!(env_output.len(), 1);
    assert_eq!(env_output.get_key_value(&key), Some((&key, &value)));
}

#[test]
fn test_parse_env_later_entry_overrides() {
    let env_input = vec![String::from("A=1"), String::from("B=2"), String::from("A=3")];
    let env_output = parse_env(&env_input);
    let a = String::from("A");
    let b = String::from("B");
    assert_eq!(env_output.len(), 2);
    assert_eq!(
        env_output.get_key_value(&a),
        Some((&a, &String::from("3")))
    );
    assert_eq!(
        env_output.get_key_value(&b),
        Some((&b, &String::from("2")))
    );
}

#[test]
fn test_parse_env_empty_input() {
    let env_output = parse_env(&[]);
    assert_eq!(env_output.len(), 0);
    assert_eq!(env_output.get_key_value(&String::from("A")), None);
}
