use net_utils::environ::Environment;
use net_utils::expand::{expand_env, expand_token, select_expansion, shell_tokenize};
use net_utils::lexer::{RedirectKind, Token};

fn word(t: &Token) -> String {
    match t {
        Token::Word(w) => w.iter().collect(),
        other => panic!("expected a word, got {:?}", other),
    }
}

#[test]
fn splits_on_whitespace() {
    let env = Environment::new();
    let toks = shell_tokenize("echo hello   world", &env).unwrap();
    assert_eq!(toks.len(), 3);
    assert_eq!(word(&toks[0]), "echo");
    assert_eq!(word(&toks[1]), "hello");
    assert_eq!(word(&toks[2]), "world");
}

#[test]
fn single_quotes_are_literal() {
    let env = Environment::new();
    let toks = shell_tokenize("grep 'foo bar'", &env).unwrap();
    assert_eq!(toks.len(), 2);
    assert_eq!(word(&toks[1]), "foo bar");
}

#[test]
fn double_quote_backslash_escapes() {
    let env = Environment::new();
    let toks = shell_tokenize("echo \"a\\\"b\"", &env).unwrap();
    assert_eq!(toks.len(), 2);
    assert_eq!(word(&toks[1]), "a\"b");
}

#[test]
fn quoted_pipe_is_not_an_operator() {
    let env = Environment::new();
    let toks = shell_tokenize("echo '|'", &env).unwrap();
    assert_eq!(toks.len(), 2);
    assert_eq!(word(&toks[1]), "|");
}

#[test]
fn operators_are_recognised() {
    let env = Environment::new();
    let toks = shell_tokenize("a | b < c > d >> e 2> f 2>> g", &env).unwrap();
    let kinds: Vec<String> = toks
        .iter()
        .map(|t| match t {
            Token::Word(w) => w.iter().collect(),
            Token::Pipe => "|".to_string(),
            Token::Redirect(RedirectKind::Input) => "<".to_string(),
            Token::Redirect(RedirectKind::Output) => ">".to_string(),
            Token::Redirect(RedirectKind::OutputAppend) => ">>".to_string(),
            Token::Redirect(RedirectKind::ErrOutput) => "2>".to_string(),
            Token::Redirect(RedirectKind::ErrOutputAppend) => "2>>".to_string(),
        })
        .collect();
    assert_eq!(kinds, vec!["a", "|", "b", "<", "c", ">", "d", ">>", "e", "2>", "f", "2>>", "g"]);
}

#[test]
fn digit_two_cuts_a_word() {
    // A `2` outside quotes always ends the pending word; without `>` after
    // it, it starts a new word.
    let env = Environment::new();
    let toks = shell_tokenize("foo2bar", &env).unwrap();
    assert_eq!(toks.len(), 2);
    assert_eq!(word(&toks[0]), "foo");
    assert_eq!(word(&toks[1]), "2bar");
}

#[test]
fn unterminated_quote_is_rejected() {
    let env = Environment::new();
    assert!(shell_tokenize("echo 'oops", &env).is_err());
    assert!(shell_tokenize("echo \"oops", &env).is_err());
}

#[test]
fn expands_known_variable() {
    let mut env = Environment::new();
    env.set_var("NAME".to_string(), "world".to_string());
    assert_eq!(expand_env("hello $NAME!", &env), "hello world!");
}

#[test]
fn unset_variable_becomes_empty() {
    let env = Environment::new();
    assert_eq!(expand_env("a$MISSING-b", &env), "a-b");
}

#[test]
fn lone_dollar_stays_literal() {
    let env = Environment::new();
    assert_eq!(expand_env("a$%b", &env), "a$%b");
    assert_eq!(expand_env("cost$", &env), "cost$");
}

#[test]
fn expansion_applies_inside_quotes() {
    let mut env = Environment::new();
    env.set_var("HOME_DIR".to_string(), "/root".to_string());
    let toks = shell_tokenize("echo '$HOME_DIR'", &env).unwrap();
    assert_eq!(word(&toks[1]), "/root");
}

#[test]
fn glob_with_no_match_stays_literal() {
    let env = Environment::new();
    let out = expand_token("zz_no_such_file_*_zz", &env);
    assert_eq!(out, vec!["zz_no_such_file_*_zz".to_string()]);
}

#[test]
fn select_expansion_keeps_literal_on_zero_matches() {
    let out = select_expansion("*.zzz".to_string(), Vec::new());
    assert_eq!(out, vec!["*.zzz".to_string()]);
}

#[test]
fn select_expansion_prefers_matches() {
    let out = select_expansion("*.rs".to_string(), vec!["a.rs".to_string(), "b.rs".to_string()]);
    assert_eq!(out, vec!["a.rs".to_string(), "b.rs".to_string()]);
}
