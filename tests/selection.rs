use envman::cli::{check_arguments, get_command_line_info, ArgumentCheck};
use envman::config::{ConfigurationFile, Environment, EnvironmentVariable};
use envman::select::{select_environments, SelectError, UnknownEnvironmentPolicy};

fn strs(v: &[&str]) -> Vec<String> {
    v.iter().map(|x| x.to_string()).collect()
}

fn config() -> ConfigurationFile {
    let mut c = ConfigurationFile::new();
    let mut dev = Environment::new();
    dev.insert("MODE".to_string(), EnvironmentVariable::SetString("dev".to_string()));
    let mut test = Environment::new();
    test.insert("MODE".to_string(), EnvironmentVariable::SetString("test".to_string()));
    test.insert("DEBUG".to_string(), EnvironmentVariable::Default("1".to_string()));
    c.insert("dev".to_string(), dev);
    c.insert("test".to_string(), test);
    c
}

#[test]
fn strict_selection_keeps_order() {
    let c = config();
    let (envs, skipped) =
        select_environments(&c, &strs(&["test", "dev"]), UnknownEnvironmentPolicy::Strict).unwrap();
    assert_eq!(envs.len(), 2);
    assert_eq!(envs[0].variables.len(), 2);
    assert_eq!(envs[1].variables.len(), 1);
    assert!(skipped.is_empty());
}

#[test]
fn strict_selection_fails_on_first_unknown() {
    let c = config();
    let r = select_environments(&c, &strs(&["dev", "nope", "gone"]), UnknownEnvironmentPolicy::Strict);
    match r {
        Err(SelectError::UnknownEnvironmentReference(n)) => assert_eq!(n, "nope"),
        Ok(_) => panic!("selection should fail"),
    }
}

#[test]
fn lenient_selection_skips_unknown() {
    let c = config();
    let (envs, skipped) = select_environments(
        &c,
        &strs(&["nope", "dev", "gone"]),
        UnknownEnvironmentPolicy::Lenient,
    )
    .unwrap();
    assert_eq!(envs.len(), 1);
    assert_eq!(envs[0].variables.len(), 1);
    assert_eq!(skipped, strs(&["nope", "gone"]));
}

#[test]
fn config_insert_replaces_same_name() {
    let mut c = config();
    c.insert("dev".to_string(), Environment::new());
    assert_eq!(c.environments.len(), 2);
    assert_eq!(c.get(&"dev".to_string()).unwrap().variables.len(), 0);
    assert!(c.get(&"other".to_string()).is_none());
}

#[test]
fn command_line_with_separator() {
    let info = get_command_line_info(&strs(&["envman", "dev", "test", "--", "python", "app.py", "-v"]));
    assert_eq!(info.target_environments, strs(&["dev", "test"]));
    assert_eq!(info.executable, "python");
    assert_eq!(info.arguments, strs(&["app.py", "-v"]));
}

#[test]
fn command_line_without_environments() {
    let info = get_command_line_info(&strs(&["envman", "--", "ls", "-la"]));
    assert!(info.target_environments.is_empty());
    assert_eq!(info.executable, "ls");
    assert_eq!(info.arguments, strs(&["-la"]));
}

#[test]
fn command_line_without_separator_uses_default_program() {
    let info = get_command_line_info(&strs(&["envman", "dev", "test"]));
    assert_eq!(info.target_environments, strs(&["dev", "test"]));
    assert_eq!(info.executable, "envman");
    assert!(info.arguments.is_empty());
}

#[test]
fn command_line_empty() {
    let info = get_command_line_info(&strs(&[]));
    assert!(info.target_environments.is_empty());
    assert_eq!(info.executable, "envman");
}

#[test]
fn argument_check_cases() {
    assert_eq!(check_arguments(&strs(&["envman", "--help"])), ArgumentCheck::ShowHelp);
    assert_eq!(check_arguments(&strs(&["envman", "--"])), ArgumentCheck::TooFew);
    assert_eq!(check_arguments(&strs(&["envman"])), ArgumentCheck::TooFew);
    assert_eq!(check_arguments(&strs(&["envman", "--", "ls"])), ArgumentCheck::Proceed);
}

#[test]
fn select_error_message_names_environment() {
    let e = SelectError::UnknownEnvironmentReference("dev".to_string());
    assert_eq!(e.message(), "Environment 'dev' not found in configuration.");
}
