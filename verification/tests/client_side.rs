use net_utils::client::{
    build_exec_upload_line, capture_until_prompt, classify_client_line, parse_redirect,
    signal_message, ClientAction,
};
use net_utils::registry::SignalKind;

#[test]
fn finds_an_output_redirection() {
    let (cmd, op, file) = parse_redirect("ls -l > out.txt").unwrap();
    assert_eq!(cmd, "ls -l");
    assert_eq!(op, ">");
    assert_eq!(file, "out.txt");
}

#[test]
fn finds_an_append_redirection() {
    let (cmd, op, file) = parse_redirect("cat a b >> log").unwrap();
    assert_eq!(cmd, "cat a b");
    assert_eq!(op, ">>");
    assert_eq!(file, "log");
}

#[test]
fn leading_or_trailing_operator_is_no_split() {
    assert!(parse_redirect("> out.txt").is_none());
    assert!(parse_redirect("ls >").is_none());
    assert!(parse_redirect("plain command").is_none());
}

#[test]
fn capture_waits_for_a_prompt() {
    assert_eq!(capture_until_prompt("partial output"), None);
    assert_eq!(capture_until_prompt("hello\nbash> "), Some("hello\n".to_string()));
    assert_eq!(capture_until_prompt("one\nPS> "), Some("one\n".to_string()));
}

#[test]
fn capture_cuts_at_the_last_prompt() {
    assert_eq!(
        capture_until_prompt("bash> first\nsecond\nbash> "),
        Some("bash> first\nsecond\n".to_string())
    );
}

#[test]
fn redirected_line_is_written_to_a_file() {
    match classify_client_line("ls -l > out.txt") {
        ClientAction::WriteToFile { command, file, append } => {
            assert_eq!(command, "ls -l");
            assert_eq!(file, "out.txt");
            assert!(!append);
        },
        _ => panic!("expected a file write"),
    }
    match classify_client_line("ls >> log") {
        ClientAction::WriteToFile { append, .. } => assert!(append),
        _ => panic!("expected a file write"),
    }
}

#[test]
fn exec_line_uploads_a_binary() {
    match classify_client_line("exec /bin/true -q") {
        ClientAction::ExecUpload { path, args } => {
            assert_eq!(path, "/bin/true");
            assert_eq!(args, vec!["-q"]);
        },
        _ => panic!("expected an exec upload"),
    }
    assert!(matches!(classify_client_line("exec"), ClientAction::ExecUsage));
    assert!(matches!(classify_client_line("echo hi"), ClientAction::Plain));
}

#[test]
fn exec_upload_line_is_built_exactly() {
    let args = vec!["-a".to_string(), "x".to_string()];
    assert_eq!(build_exec_upload_line("tool", 4096, &args), "EXEC_UPLOAD tool 4096 -a x");
    assert_eq!(build_exec_upload_line("t", 0, &Vec::new()), "EXEC_UPLOAD t 0");
}

#[test]
fn signals_are_encoded_as_control_lines() {
    assert_eq!(signal_message(SignalKind::Interrupt), "SIGNAL INTERRUPT\n");
    assert_eq!(signal_message(SignalKind::Suspend), "SIGNAL SUSPEND\n");
}
