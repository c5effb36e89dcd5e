use net_utils::builtins::is_builtin;
use net_utils::pipeline::CommandSpec;
use net_utils::platform::{candidate_shells, path_list_separator, prompt_text, Platform};
use net_utils::registry::{process_signal_command, signal_decision, ForegroundRegistry, SignalAction, SignalKind};
use net_utils::spawn::{resolve_in_path, stderr_plan, stdin_plan, stdout_plan, OutputSink, StdinSource};

fn stage(argv: &[&str]) -> CommandSpec {
    CommandSpec {
        argv: argv.iter().map(|s| s.to_string()).collect(),
        redirect_in: None,
        redirect_out: None,
        redirect_out_append: None,
        redirect_err: None,
        redirect_err_append: None,
    }
}

#[test]
fn signal_with_no_process_reports() {
    // Delivering a signal with no foreground process only writes a report;
    // nothing is killed and the session is free to go on.
    let reg = ForegroundRegistry::new();
    let msg = process_signal_command("INTERRUPT", &reg);
    assert_eq!(msg.as_deref(), Some("No running process to signal\n"));
}

#[test]
fn unknown_signal_name_reports() {
    let mut reg = ForegroundRegistry::new();
    reg.set_foreground(12345);
    let msg = process_signal_command("SIGKILL", &reg);
    assert_eq!(msg.as_deref(), Some("Unknown signal\n"));
}

#[test]
fn registry_tracks_one_process() {
    let mut reg = ForegroundRegistry::new();
    assert_eq!(reg.current_pid(), None);
    reg.set_foreground(11);
    assert_eq!(reg.current_pid(), Some(11));
    reg.set_foreground(22);
    assert_eq!(reg.current_pid(), Some(22));
    reg.clear();
    assert_eq!(reg.current_pid(), None);
}

#[test]
fn decision_maps_names_to_kinds() {
    let mut reg = ForegroundRegistry::new();
    reg.set_foreground(7);
    match signal_decision(&reg, "INTERRUPT", Platform::Posix) {
        SignalAction::Deliver(7, SignalKind::Interrupt) => {},
        _ => panic!("expected interrupt delivery"),
    }
    match signal_decision(&reg, "SUSPEND", Platform::Posix) {
        SignalAction::Deliver(7, SignalKind::Suspend) => {},
        _ => panic!("expected suspend delivery"),
    }
}

#[test]
fn windows_collapses_to_forced_kill() {
    let mut reg = ForegroundRegistry::new();
    reg.set_foreground(7);
    match signal_decision(&reg, "SUSPEND", Platform::Windows) {
        SignalAction::ForceKill(7) => {},
        _ => panic!("expected forced kill"),
    }
}

#[test]
fn builtin_names_are_recognised() {
    for name in ["cd", "pwd", "set", "unset", "env", "help"] {
        assert!(is_builtin(name));
    }
    assert!(!is_builtin("ls"));
    assert!(!is_builtin("CD"));
}

#[test]
fn stdin_prefers_the_pipe() {
    let mut c = stage(&["cat"]);
    c.redirect_in = Some("in.txt".to_string());
    assert!(matches!(stdin_plan(&c, true), StdinSource::Piped));
    match stdin_plan(&c, false) {
        StdinSource::FromFile(f) => assert_eq!(f, "in.txt"),
        _ => panic!("expected the file"),
    }
    let plain = stage(&["cat"]);
    assert!(matches!(stdin_plan(&plain, false), StdinSource::Inherit));
}

#[test]
fn truncate_wins_over_append() {
    // With both redirect variants set, the truncating one decides.
    let mut c = stage(&["cmd"]);
    c.redirect_out = Some("a".to_string());
    c.redirect_out_append = Some("b".to_string());
    match stdout_plan(&c) {
        OutputSink::CreateTruncate(f) => assert_eq!(f, "a"),
        _ => panic!("expected truncation"),
    }
    c.redirect_err = Some("ea".to_string());
    c.redirect_err_append = Some("eb".to_string());
    match stderr_plan(&c) {
        OutputSink::CreateTruncate(f) => assert_eq!(f, "ea"),
        _ => panic!("expected truncation"),
    }
}

#[test]
fn append_used_when_alone() {
    let mut c = stage(&["cmd"]);
    c.redirect_out_append = Some("b".to_string());
    match stdout_plan(&c) {
        OutputSink::CreateAppend(f) => assert_eq!(f, "b"),
        _ => panic!("expected append"),
    }
    let plain = stage(&["cmd"]);
    assert!(matches!(stdout_plan(&plain), OutputSink::Piped));
    assert!(matches!(stderr_plan(&plain), OutputSink::Piped));
}

#[test]
fn missing_command_does_not_resolve() {
    let r = resolve_in_path(
        &"zz_no_such_cmd_zz".to_string(),
        &"/bin:/usr/bin".to_string(),
        Platform::Posix,
    );
    assert_eq!(r, None);
    let r = resolve_in_path(&"/no/such/path/zzz".to_string(), &String::new(), Platform::Posix);
    assert_eq!(r, None);
}

#[test]
fn shell_resolves_from_search_path() {
    let r = resolve_in_path(&"sh".to_string(), &"/bin:/usr/bin".to_string(), Platform::Posix);
    let p = r.expect("sh should exist on the search path");
    assert!(p == "/bin/sh" || p == "/usr/bin/sh");
    let direct = resolve_in_path(&"/bin/sh".to_string(), &String::new(), Platform::Posix);
    assert_eq!(direct.as_deref(), Some("/bin/sh"));
}

#[test]
fn platform_constants() {
    assert_eq!(path_list_separator(Platform::Posix), ':');
    assert_eq!(path_list_separator(Platform::Windows), ';');
    assert_eq!(prompt_text(Platform::Posix), "bash> ");
    assert_eq!(prompt_text(Platform::Windows), "PS> ");
    assert_eq!(
        candidate_shells(Platform::Posix),
        vec!["/bin/zsh", "/bin/bash", "/bin/sh", "/bin/ksh"]
    );
    assert_eq!(candidate_shells(Platform::Windows), vec!["powershell.exe", "cmd.exe"]);
}
