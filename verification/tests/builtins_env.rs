use net_utils::builtins::run_builtin;
use net_utils::environ::Environment;
use net_utils::pipeline::CommandSpec;

fn stage(argv: &[&str]) -> CommandSpec {
    CommandSpec {
        argv: argv.iter().map(|s| s.to_string()).collect(),
        redirect_in: None,
        redirect_out: None,
        redirect_out_append: None,
        redirect_err: None,
        redirect_err_append: None,
    }
}

#[test]
fn environment_set_get_unset() {
    let mut env = Environment::new();
    assert_eq!(env.lookup(&"A".to_string()), None);
    env.set_var("A".to_string(), "1".to_string());
    env.set_var("B".to_string(), "2".to_string());
    assert_eq!(env.lookup(&"A".to_string()).map(|s| s.as_str()), Some("1"));
    env.set_var("A".to_string(), "3".to_string());
    assert_eq!(env.lookup(&"A".to_string()).map(|s| s.as_str()), Some("3"));
    assert_eq!(env.len(), 2);
    env.unset_var(&"A".to_string());
    assert_eq!(env.lookup(&"A".to_string()), None);
    assert_eq!(env.lookup(&"B".to_string()).map(|s| s.as_str()), Some("2"));
}

#[test]
fn cd_without_argument_prints_usage() {
    let mut env = Environment::new();
    let out = run_builtin(&stage(&["cd"]), &mut env, &"/home".to_string());
    assert_eq!(out.text, "Usage: cd <dir>\n");
    assert_eq!(out.chdir, None);
}

#[test]
fn cd_requests_the_directory_change() {
    let mut env = Environment::new();
    let out = run_builtin(&stage(&["cd", "/tmp"]), &mut env, &"/home".to_string());
    assert_eq!(out.text, "");
    assert_eq!(out.chdir.as_deref(), Some("/tmp"));
}

#[test]
fn pwd_prints_the_working_directory() {
    let mut env = Environment::new();
    let out = run_builtin(&stage(&["pwd"]), &mut env, &"/var/log".to_string());
    assert_eq!(out.text, "/var/log\n");
    assert_eq!(out.chdir, None);
}

#[test]
fn set_binds_variables() {
    let mut env = Environment::new();
    let out = run_builtin(&stage(&["set", "A=1", "B=x=y"]), &mut env, &"/".to_string());
    assert_eq!(out.text, "");
    assert_eq!(env.lookup(&"A".to_string()).map(|s| s.as_str()), Some("1"));
    assert_eq!(env.lookup(&"B".to_string()).map(|s| s.as_str()), Some("x=y"));
}

#[test]
fn set_complains_without_equals() {
    let mut env = Environment::new();
    let out = run_builtin(&stage(&["set", "oops"]), &mut env, &"/".to_string());
    assert_eq!(out.text, "Invalid format: oops\n");
}

#[test]
fn unset_removes_variables() {
    let mut env = Environment::new();
    env.set_var("A".to_string(), "1".to_string());
    env.set_var("B".to_string(), "2".to_string());
    let out = run_builtin(&stage(&["unset", "A", "C"]), &mut env, &"/".to_string());
    assert_eq!(out.text, "");
    assert_eq!(env.lookup(&"A".to_string()), None);
    assert!(env.lookup(&"B".to_string()).is_some());
}

#[test]
fn env_lists_bindings_in_order() {
    let mut env = Environment::new();
    env.set_var("A".to_string(), "1".to_string());
    env.set_var("B".to_string(), "2".to_string());
    let out = run_builtin(&stage(&["env"]), &mut env, &"/".to_string());
    assert_eq!(out.text, "A=1\nB=2\n");
}

#[test]
fn help_describes_the_builtins() {
    let mut env = Environment::new();
    let out = run_builtin(&stage(&["help"]), &mut env, &"/".to_string());
    assert!(out.text.starts_with("Built-ins: cd, pwd, set, unset, env, help\n"));
    assert!(out.text.ends_with("Type 'exit' to quit.\n"));
}
