use envman::config::{Environment, EnvironmentVariable, StringList, StringListMode};
use envman::merge::{apply_env, apply_rule, apply_string_list, MergeError};
use envman::var_map::VarMap;

fn s(x: &str) -> String {
    x.to_string()
}

fn map_of(pairs: &[(&str, &str)]) -> VarMap {
    let mut m = VarMap::new();
    for (k, v) in pairs {
        m.insert(s(k), s(v));
    }
    m
}

fn list(items: &[&str], delimiter: &str, mode: StringListMode) -> StringList {
    StringList {
        items: items.iter().map(|x| s(x)).collect(),
        delimiter: s(delimiter),
        mode,
    }
}

fn env_of(rules: Vec<(&str, EnvironmentVariable)>) -> Environment {
    let mut e = Environment::new();
    for (k, r) in rules {
        e.insert(s(k), r);
    }
    e
}

fn value(m: &VarMap, k: &str) -> Option<String> {
    m.get(&s(k)).cloned()
}

#[test]
fn no_environments_keeps_ambient() {
    let ambient = map_of(&[("A", "1"), ("B", "2")]);
    let out = apply_env(Vec::new(), ambient).unwrap();
    assert_eq!(out.len(), 2);
    assert_eq!(value(&out, "A"), Some(s("1")));
    assert_eq!(value(&out, "B"), Some(s("2")));
}

#[test]
fn set_string_twice_keeps_last() {
    let e1 = env_of(vec![("FOO", EnvironmentVariable::SetString(s("one")))]);
    let e2 = env_of(vec![("FOO", EnvironmentVariable::SetString(s("two")))]);
    let out = apply_env(vec![&e1, &e2], map_of(&[("FOO", "zero")])).unwrap();
    assert_eq!(value(&out, "FOO"), Some(s("two")));
    assert_eq!(out.len(), 1);
}

#[test]
fn clear_absent_is_no_op() {
    let e = env_of(vec![("MISSING", EnvironmentVariable::Clear)]);
    let out = apply_env(vec![&e], map_of(&[("A", "1")])).unwrap();
    assert_eq!(out.len(), 1);
    assert_eq!(value(&out, "A"), Some(s("1")));
    assert_eq!(value(&out, "MISSING"), None);
}

#[test]
fn clear_present_removes() {
    let e = env_of(vec![("A", EnvironmentVariable::Clear)]);
    let out = apply_env(vec![&e], map_of(&[("A", "1"), ("B", "2")])).unwrap();
    assert_eq!(value(&out, "A"), None);
    assert_eq!(out.len(), 1);
}

#[test]
fn string_list_append() {
    let l = list(&["c"], ":", StringListMode::Append);
    assert_eq!(apply_string_list("a:b", &l), "a:b:c");
}

#[test]
fn string_list_prepend_on_empty() {
    let l = list(&["x", "y"], ":", StringListMode::Prepend);
    assert_eq!(apply_string_list("", &l), "x:y");
}

#[test]
fn string_list_prepend_on_existing() {
    let l = list(&["x", "y"], ":", StringListMode::Prepend);
    assert_eq!(apply_string_list("a:b", &l), "x:y:a:b");
}

#[test]
fn string_list_replace_ignores_existing() {
    let l = list(&["z"], ":", StringListMode::Replace);
    assert_eq!(apply_string_list("a:b", &l), "z");
}

#[test]
fn string_list_drops_empty_segments() {
    let l = list(&["c"], ":", StringListMode::Append);
    assert_eq!(apply_string_list("::a:::b:", &l), "a:b:c");
}

#[test]
fn string_list_multi_char_delimiter() {
    let l = list(&["/opt"], ", ", StringListMode::Append);
    assert_eq!(apply_string_list("/usr, /bin", &l), "/usr, /bin, /opt");
}

#[test]
fn string_list_replace_with_no_items_is_empty() {
    let l = list(&[], ":", StringListMode::Replace);
    assert_eq!(apply_string_list("a:b", &l), "");
}

#[test]
fn string_list_through_merge_on_absent_variable() {
    let e = env_of(vec![(
        "PATH_LIKE",
        EnvironmentVariable::StringList(list(&["p", "q"], ";", StringListMode::Append)),
    )]);
    let out = apply_env(vec![&e], VarMap::new()).unwrap();
    assert_eq!(value(&out, "PATH_LIKE"), Some(s("p;q")));
}

#[test]
fn string_list_through_merge_on_ambient_value() {
    let e = env_of(vec![(
        "PATH",
        EnvironmentVariable::StringList(list(&["/opt/bin"], ":", StringListMode::Prepend)),
    )]);
    let out = apply_env(vec![&e], map_of(&[("PATH", "/usr/bin:/bin")])).unwrap();
    assert_eq!(value(&out, "PATH"), Some(s("/opt/bin:/usr/bin:/bin")));
}

#[test]
fn required_missing_fails_naming_variable() {
    let e = env_of(vec![("NEEDED", EnvironmentVariable::Required)]);
    match apply_env(vec![&e], map_of(&[("OTHER", "x")])) {
        Err(MergeError::MissingRequiredVariable(n)) => assert_eq!(n, "NEEDED"),
        Ok(_) => panic!("merge should fail"),
    }
}

#[test]
fn required_satisfied_by_ambient() {
    let e = env_of(vec![("NEEDED", EnvironmentVariable::Required)]);
    let out = apply_env(vec![&e], map_of(&[("NEEDED", "x")])).unwrap();
    assert_eq!(value(&out, "NEEDED"), Some(s("x")));
}

#[test]
fn required_satisfied_by_earlier_environment() {
    let e1 = env_of(vec![("NEEDED", EnvironmentVariable::Default(s("d")))]);
    let e2 = env_of(vec![("NEEDED", EnvironmentVariable::Required)]);
    let out = apply_env(vec![&e1, &e2], VarMap::new()).unwrap();
    assert_eq!(value(&out, "NEEDED"), Some(s("d")));
}

#[test]
fn required_fails_after_earlier_clear() {
    let e1 = env_of(vec![("NEEDED", EnvironmentVariable::Clear)]);
    let e2 = env_of(vec![("NEEDED", EnvironmentVariable::Required)]);
    let e3 = env_of(vec![("NEEDED", EnvironmentVariable::SetString(s("late")))]);
    match apply_env(vec![&e1, &e2, &e3], map_of(&[("NEEDED", "x")])) {
        Err(MergeError::MissingRequiredVariable(n)) => assert_eq!(n, "NEEDED"),
        Ok(_) => panic!("merge should fail"),
    }
}

#[test]
fn default_keeps_ambient_value() {
    let e = env_of(vec![("FOO", EnvironmentVariable::Default(s("baz")))]);
    let out = apply_env(vec![&e], map_of(&[("FOO", "bar")])).unwrap();
    assert_eq!(value(&out, "FOO"), Some(s("bar")));
}

#[test]
fn default_fills_absent_value() {
    let e = env_of(vec![("FOO", EnvironmentVariable::Default(s("baz")))]);
    let out = apply_env(vec![&e], VarMap::new()).unwrap();
    assert_eq!(value(&out, "FOO"), Some(s("baz")));
}

#[test]
fn later_clear_wins() {
    let e1 = env_of(vec![
        ("FOO", EnvironmentVariable::SetString(s("set"))),
        ("BAR", EnvironmentVariable::SetString(s("kept"))),
    ]);
    let e2 = env_of(vec![
        ("FOO", EnvironmentVariable::Clear),
        ("BAZ", EnvironmentVariable::Default(s("d"))),
    ]);
    let out = apply_env(vec![&e1, &e2], VarMap::new()).unwrap();
    assert_eq!(value(&out, "FOO"), None);
    assert_eq!(value(&out, "BAR"), Some(s("kept")));
    assert_eq!(value(&out, "BAZ"), Some(s("d")));
}

#[test]
fn apply_rule_reports_missing_required() {
    let mut m = VarMap::new();
    let r = apply_rule(&mut m, &s("X"), &EnvironmentVariable::Required);
    assert!(matches!(r, Err(MergeError::MissingRequiredVariable(ref n)) if n == "X"));
    assert_eq!(m.len(), 0);
}

#[test]
fn apply_rule_set_string() {
    let mut m = map_of(&[("X", "old")]);
    apply_rule(&mut m, &s("X"), &EnvironmentVariable::SetString(s("new"))).unwrap();
    assert_eq!(value(&m, "X"), Some(s("new")));
}

#[test]
fn ambient_is_not_mutated_outside_copy() {
    let ambient = map_of(&[("A", "1")]);
    let e = env_of(vec![("A", EnvironmentVariable::SetString(s("2")))]);
    let out = apply_env(vec![&e], ambient).unwrap();
    assert_eq!(value(&out, "A"), Some(s("2")));
}

#[test]
fn merge_error_message_names_variable() {
    let e = MergeError::MissingRequiredVariable(s("HOME"));
    assert_eq!(e.message(), "Required environment variable 'HOME' is not set.");
}
