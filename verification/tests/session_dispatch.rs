use net_utils::environ::Environment;
use net_utils::lexer::ParseFault;
use net_utils::platform::Platform;
use net_utils::session::{
    default_interactive_commands, dispatch_line, greeting_lines, msg_command_not_found,
    msg_download_error, msg_invalid_file_size, msg_parse_error, msg_process_exited,
    msg_ready_for_upload, msg_upload_complete, next_state, pty_dimensions, DispatchAction,
    SessionState,
};

fn dispatch(line: &str) -> DispatchAction {
    let env = Environment::new();
    let interactive = default_interactive_commands();
    dispatch_line(line, &env, &interactive, Platform::Posix)
}

#[test]
fn exit_closes_in_any_case() {
    assert!(matches!(dispatch("exit"), DispatchAction::CloseSession));
    assert!(matches!(dispatch("EXIT"), DispatchAction::CloseSession));
    assert!(matches!(dispatch("  exit  "), DispatchAction::CloseSession));
}

#[test]
fn blank_line_prompts_again() {
    assert!(matches!(dispatch(""), DispatchAction::Prompt));
    assert!(matches!(dispatch("   \t "), DispatchAction::Prompt));
}

#[test]
fn upload_takes_the_name() {
    match dispatch("upload notes.txt") {
        DispatchAction::Upload(name) => assert_eq!(name, "notes.txt"),
        other => panic!("unexpected: {:?}", describe(&other)),
    }
}

#[test]
fn download_takes_the_name() {
    match dispatch("download data.bin") {
        DispatchAction::Download(name) => assert_eq!(name, "data.bin"),
        other => panic!("unexpected: {:?}", describe(&other)),
    }
}

#[test]
fn exec_is_detached_with_args() {
    match dispatch("exec /tmp/tool -v fast") {
        DispatchAction::ExecDetached(path, args) => {
            assert_eq!(path, "/tmp/tool");
            assert_eq!(args, vec!["-v", "fast"]);
        },
        other => panic!("unexpected: {:?}", describe(&other)),
    }
}

#[test]
fn exec_upload_line_is_parsed() {
    match dispatch("EXEC_UPLOAD tool 64 --x") {
        DispatchAction::ExecUpload(req) => {
            assert_eq!(req.name, "tool");
            assert_eq!(req.size, 64);
            assert_eq!(req.args, vec!["--x"]);
        },
        other => panic!("unexpected: {:?}", describe(&other)),
    }
}

#[test]
fn exec_upload_bad_size_is_flagged() {
    assert!(matches!(dispatch("EXEC_UPLOAD tool big"), DispatchAction::BadExecUpload));
}

#[test]
fn signal_takes_the_name() {
    match dispatch("SIGNAL INTERRUPT") {
        DispatchAction::Signal(name) => assert_eq!(name, "INTERRUPT"),
        other => panic!("unexpected: {:?}", describe(&other)),
    }
}

#[test]
fn session_builtin_is_recognised() {
    match dispatch("sysinfo") {
        DispatchAction::SessionBuiltin(name, args) => {
            assert_eq!(name, "sysinfo");
            assert!(args.is_empty());
        },
        other => panic!("unexpected: {:?}", describe(&other)),
    }
}

#[test]
fn interactive_command_goes_to_the_terminal() {
    match dispatch("vim notes.txt") {
        DispatchAction::Pty(c) => assert_eq!(c.argv, vec!["vim", "notes.txt"]),
        other => panic!("unexpected: {:?}", describe(&other)),
    }
    match dispatch("VIM notes.txt") {
        DispatchAction::Pty(c) => assert_eq!(c.argv, vec!["VIM", "notes.txt"]),
        other => panic!("unexpected: {:?}", describe(&other)),
    }
}

#[test]
fn sudo_goes_to_the_terminal_on_posix() {
    match dispatch("sudo id") {
        DispatchAction::Pty(c) => assert_eq!(c.argv, vec!["sudo", "id"]),
        other => panic!("unexpected: {:?}", describe(&other)),
    }
    let env = Environment::new();
    let interactive = default_interactive_commands();
    match dispatch_line("su -", &env, &interactive, Platform::Windows) {
        DispatchAction::RunPipeline(p) => assert_eq!(p[0].argv, vec!["su", "-"]),
        other => panic!("unexpected: {:?}", describe(&other)),
    }
}

#[test]
fn interactive_in_a_pipeline_is_not_bridged() {
    match dispatch("echo x | vim -") {
        DispatchAction::RunPipeline(p) => assert_eq!(p.len(), 2),
        other => panic!("unexpected: {:?}", describe(&other)),
    }
}

#[test]
fn ordinary_command_runs_as_pipeline() {
    match dispatch("echo hi | wc -c") {
        DispatchAction::RunPipeline(p) => {
            assert_eq!(p.len(), 2);
            assert_eq!(p[0].argv, vec!["echo", "hi"]);
            assert_eq!(p[1].argv, vec!["wc", "-c"]);
        },
        other => panic!("unexpected: {:?}", describe(&other)),
    }
}

#[test]
fn line_endings_do_not_reach_the_parser() {
    match dispatch("echo hi | wc -c\r\n") {
        DispatchAction::RunPipeline(p) => {
            assert_eq!(p[0].argv, vec!["echo", "hi"]);
            assert_eq!(p[1].argv, vec!["wc", "-c"]);
        },
        other => panic!("unexpected: {:?}", describe(&other)),
    }
    match dispatch("vim x\n") {
        DispatchAction::Pty(c) => assert_eq!(c.argv, vec!["vim", "x"]),
        other => panic!("unexpected: {:?}", describe(&other)),
    }
}

#[test]
fn bad_line_reports_a_parse_failure() {
    assert!(matches!(
        dispatch("echo 'oops"),
        DispatchAction::ParseFailure(ParseFault::UnterminatedQuote)
    ));
    assert!(matches!(dispatch("|"), DispatchAction::ParseFailure(ParseFault::EmptyCommand)));
}

#[test]
fn only_exit_closes_the_session() {
    // An unresolved command, a failed parse or a signal with no target all
    // leave the session prompting.
    assert_eq!(next_state(&dispatch("exit")), SessionState::Closed);
    assert_eq!(next_state(&dispatch("no_such_cmd_zzz")), SessionState::Prompting);
    assert_eq!(next_state(&dispatch("echo 'oops")), SessionState::Prompting);
    assert_eq!(next_state(&dispatch("SIGNAL INTERRUPT")), SessionState::Prompting);
}

#[test]
fn protocol_messages_are_exact() {
    assert_eq!(msg_command_not_found("frobnicate"), "Command not found: frobnicate\n");
    assert_eq!(msg_ready_for_upload(), "READY_FOR_UPLOAD\n");
    assert_eq!(msg_upload_complete(), "Upload complete\n");
    assert_eq!(msg_invalid_file_size(), "Invalid file size\n");
    assert_eq!(msg_download_error("no such file"), "download error: no such file\n");
    assert_eq!(msg_process_exited(0), "Process exited with: 0\n");
    assert_eq!(msg_process_exited(-9), "Process exited with: -9\n");
}

#[test]
fn parse_error_messages_are_exact() {
    assert_eq!(msg_parse_error(&ParseFault::EmptyCommand), "Parse error: Empty command\n");
    assert_eq!(
        msg_parse_error(&ParseFault::UnterminatedQuote),
        "Parse error: Unterminated quote\n"
    );
    match dispatch("cmd 2>") {
        DispatchAction::ParseFailure(f) => {
            assert_eq!(msg_parse_error(&f), "Parse error: Missing filename after '2>'\n");
        },
        other => panic!("unexpected: {:?}", describe(&other)),
    }
}

#[test]
fn greeting_names_the_platform() {
    let (os_line, banner_line) = greeting_lines(Platform::Posix, "welcome");
    assert_eq!(os_line, "SERVER_OS: linux\n");
    assert_eq!(banner_line, "BANNER: welcome\n");
    let (os_line, _) = greeting_lines(Platform::Windows, "hi");
    assert_eq!(os_line, "SERVER_OS: windows\n");
}

#[test]
fn terminal_size_is_fixed() {
    assert_eq!(pty_dimensions(), (80, 24));
}

fn describe(a: &DispatchAction) -> &'static str {
    match a {
        DispatchAction::CloseSession => "CloseSession",
        DispatchAction::Prompt => "Prompt",
        DispatchAction::Upload(_) => "Upload",
        DispatchAction::Download(_) => "Download",
        DispatchAction::ExecDetached(_, _) => "ExecDetached",
        DispatchAction::ExecUpload(_) => "ExecUpload",
        DispatchAction::BadExecUpload => "BadExecUpload",
        DispatchAction::Signal(_) => "Signal",
        DispatchAction::SessionBuiltin(_, _) => "SessionBuiltin",
        DispatchAction::Pty(_) => "Pty",
        DispatchAction::RunPipeline(_) => "RunPipeline",
        DispatchAction::ParseFailure(_) => "ParseFailure",
    }
}
