use net_utils::environ::Environment;
use net_utils::lexer::{ParseFault, RedirectKind};
use net_utils::pipeline::handle_line;

#[test]
fn plain_line_is_one_stage() {
    let env = Environment::new();
    let p = handle_line("echo hello world", &env).unwrap();
    assert_eq!(p.len(), 1);
    assert_eq!(p[0].argv, vec!["echo", "hello", "world"]);
    assert!(p[0].redirect_in.is_none());
    assert!(p[0].redirect_out.is_none());
    assert!(p[0].redirect_out_append.is_none());
    assert!(p[0].redirect_err.is_none());
    assert!(p[0].redirect_err_append.is_none());
}

#[test]
fn pipeline_with_quotes_and_redirect() {
    let env = Environment::new();
    let p = handle_line("ls -la | grep 'foo bar' > out.txt", &env).unwrap();
    assert_eq!(p.len(), 2);
    assert_eq!(p[0].argv, vec!["ls", "-la"]);
    assert_eq!(p[1].argv, vec!["grep", "foo bar"]);
    assert_eq!(p[1].redirect_out.as_deref(), Some("out.txt"));
    assert!(p[1].redirect_out_append.is_none());
    assert!(p[0].redirect_out.is_none());
}

#[test]
fn stderr_redirect_is_extracted() {
    let env = Environment::new();
    let p = handle_line("cmd 2> err.log", &env).unwrap();
    assert_eq!(p.len(), 1);
    assert_eq!(p[0].argv, vec!["cmd"]);
    assert_eq!(p[0].redirect_err.as_deref(), Some("err.log"));
    assert!(p[0].redirect_err_append.is_none());
}

#[test]
fn all_redirects_in_one_stage() {
    let env = Environment::new();
    let p = handle_line("prog < in.txt >> out.log 2>> err.log", &env).unwrap();
    assert_eq!(p.len(), 1);
    assert_eq!(p[0].argv, vec!["prog"]);
    assert_eq!(p[0].redirect_in.as_deref(), Some("in.txt"));
    assert_eq!(p[0].redirect_out_append.as_deref(), Some("out.log"));
    assert_eq!(p[0].redirect_err_append.as_deref(), Some("err.log"));
}

#[test]
fn empty_group_between_pipes_is_dropped() {
    let env = Environment::new();
    let p = handle_line("echo a | | wc", &env).unwrap();
    assert_eq!(p.len(), 2);
    assert_eq!(p[0].argv, vec!["echo", "a"]);
    assert_eq!(p[1].argv, vec!["wc"]);
}

#[test]
fn trailing_pipe_is_dropped() {
    let env = Environment::new();
    let p = handle_line("echo a |", &env).unwrap();
    assert_eq!(p.len(), 1);
    assert_eq!(p[0].argv, vec!["echo", "a"]);
}

#[test]
fn missing_redirect_target_fails() {
    let env = Environment::new();
    match handle_line("echo >", &env) {
        Err(ParseFault::MissingRedirectTarget(RedirectKind::Output)) => {},
        other => panic!("unexpected: {:?}", other),
    }
}

#[test]
fn missing_stderr_target_fails() {
    let env = Environment::new();
    match handle_line("echo 2>>", &env) {
        Err(ParseFault::MissingRedirectTarget(RedirectKind::ErrOutputAppend)) => {},
        other => panic!("unexpected: {:?}", other),
    }
}

#[test]
fn redirect_only_group_is_empty_command() {
    let env = Environment::new();
    match handle_line("< in.txt", &env) {
        Err(ParseFault::EmptyCommand) => {},
        other => panic!("unexpected: {:?}", other),
    }
}

#[test]
fn pipes_alone_are_an_empty_command() {
    let env = Environment::new();
    match handle_line("|", &env) {
        Err(ParseFault::EmptyCommand) => {},
        other => panic!("unexpected: {:?}", other),
    }
}

#[test]
fn later_redirect_of_same_kind_wins() {
    let env = Environment::new();
    let p = handle_line("cmd > a > b", &env).unwrap();
    assert_eq!(p[0].redirect_out.as_deref(), Some("b"));
}

#[test]
fn operator_following_redirect_is_its_target() {
    let env = Environment::new();
    let p = handle_line("cmd > <", &env).unwrap();
    assert_eq!(p[0].argv, vec!["cmd"]);
    assert_eq!(p[0].redirect_out.as_deref(), Some("<"));
}
