//! Lexing of a raw command line into words and operator tokens.
//!
//! The lexer recognises the operators `| < > >> 2> 2>>` outside quotes,
//! single quotes (fully literal), and double quotes (backslash escapes the
//! next character).  A `2` outside quotes always terminates the pending word
//! and is an operator only when `>` follows; otherwise it starts a new word.
//! Unterminated quotes are rejected.
//!
//! Expansion of the produced words (environment variables, glob patterns)
//! happens afterwards; see the `expand` module.

use vstd::prelude::*;

verus! {

/// The redirection operators.
#[derive(Clone, Copy, PartialEq, Eq, Structural, Debug)]
pub enum RedirectKind {
    Input,
    Output,
    OutputAppend,
    ErrOutput,
    ErrOutputAppend,
}

/// One lexed token: a word still awaiting expansion, or an operator.
#[derive(Debug)]
pub enum Token {
    Word(Vec<char>),
    Pipe,
    Redirect(RedirectKind),
}

/// Mathematical form of a token.
pub enum TokenModel {
    Word(Seq<char>),
    Pipe,
    Redirect(RedirectKind),
}

impl View for Token {
    type V = TokenModel;

    open spec fn view(&self) -> TokenModel {
        match self {
            Token::Word(w) => TokenModel::Word(w@),
            Token::Pipe => TokenModel::Pipe,
            Token::Redirect(k) => TokenModel::Redirect(*k),
        }
    }
}

/// The views of a token sequence.
pub open spec fn views_of(toks: Seq<Token>) -> Seq<TokenModel> {
    toks.map_values(|t: Token| t@)
}

/// A failure while turning a line into a pipeline.
#[derive(Clone, Copy, PartialEq, Eq, Structural, Debug)]
pub enum ParseFault {
    UnterminatedQuote,
    MissingRedirectTarget(RedirectKind),
    EmptyCommand,
}

/// Quoting state of the lexer.
#[derive(Clone, Copy, PartialEq, Eq, Structural, Debug)]
pub enum LexMode {
    Normal,
    Single,
    Double,
}

/// Append the pending word to the accumulator, if it is non-empty.
pub open spec fn spec_flush(cur: Seq<char>, acc: Seq<TokenModel>) -> Seq<TokenModel> {
    if cur.len() == 0 {
        acc
    } else {
        acc.push(TokenModel::Word(cur))
    }
}

/// The lexer as a transition function: consume `s` from position `i` in
/// quoting state `mode`, with pending word `cur` and output so far `acc`.
/// `None` means the line ended inside a quote.
pub open spec fn spec_lex_from(
    s: Seq<char>,
    i: int,
    mode: LexMode,
    cur: Seq<char>,
    acc: Seq<TokenModel>,
) -> Option<Seq<TokenModel>>
    decreases s.len() - i,
{
    if i < 0 || i >= s.len() {
        match mode {
            LexMode::Normal => Some(spec_flush(cur, acc)),
            _ => None,
        }
    } else {
        let c = s[i];
        match mode {
            LexMode::Normal => {
                if c == ' ' || c == '\t' {
                    spec_lex_from(s, i + 1, LexMode::Normal, Seq::empty(), spec_flush(cur, acc))
                } else if c == '|' {
                    spec_lex_from(
                        s,
                        i + 1,
                        LexMode::Normal,
                        Seq::empty(),
                        spec_flush(cur, acc).push(TokenModel::Pipe),
                    )
                } else if c == '<' {
                    spec_lex_from(
                        s,
                        i + 1,
                        LexMode::Normal,
                        Seq::empty(),
                        spec_flush(cur, acc).push(TokenModel::Redirect(RedirectKind::Input)),
                    )
                } else if c == '>' {
                    if i + 1 < s.len() && s[i + 1] == '>' {
                        spec_lex_from(
                            s,
                            i + 2,
                            LexMode::Normal,
                            Seq::empty(),
                            spec_flush(cur, acc).push(
                                TokenModel::Redirect(RedirectKind::OutputAppend),
                            ),
                        )
                    } else {
                        spec_lex_from(
                            s,
                            i + 1,
                            LexMode::Normal,
                            Seq::empty(),
                            spec_flush(cur, acc).push(TokenModel::Redirect(RedirectKind::Output)),
                        )
                    }
                } else if c == '2' {
                    if i + 1 < s.len() && s[i + 1] == '>' {
                        if i + 2 < s.len() && s[i + 2] == '>' {
                            spec_lex_from(
                                s,
                                i + 3,
                                LexMode::Normal,
                                Seq::empty(),
                                spec_flush(cur, acc).push(
                                    TokenModel::Redirect(RedirectKind::ErrOutputAppend),
                                ),
                            )
                        } else {
                            spec_lex_from(
                                s,
                                i + 2,
                                LexMode::Normal,
                                Seq::empty(),
                                spec_flush(cur, acc).push(
                                    TokenModel::Redirect(RedirectKind::ErrOutput),
                                ),
                            )
                        }
                    } else {
                        spec_lex_from(s, i + 1, LexMode::Normal, seq!['2'], spec_flush(cur, acc))
                    }
                } else if c == '\'' {
                    spec_lex_from(s, i + 1, LexMode::Single, cur, acc)
                } else if c == '"' {
                    spec_lex_from(s, i + 1, LexMode::Double, cur, acc)
                } else {
                    spec_lex_from(s, i + 1, LexMode::Normal, cur.push(c), acc)
                }
            },
            LexMode::Single => {
                if c == '\'' {
                    spec_lex_from(s, i + 1, LexMode::Normal, cur, acc)
                } else {
                    spec_lex_from(s, i + 1, LexMode::Single, cur.push(c), acc)
                }
            },
            LexMode::Double => {
                if c == '"' {
                    spec_lex_from(s, i + 1, LexMode::Normal, cur, acc)
                } else if c == '\\' {
                    if i + 1 < s.len() {
                        spec_lex_from(s, i + 2, LexMode::Double, cur.push(s[i + 1]), acc)
                    } else {
                        spec_lex_from(s, i + 1, LexMode::Double, cur, acc)
                    }
                } else {
                    spec_lex_from(s, i + 1, LexMode::Double, cur.push(c), acc)
                }
            },
        }
    }
}

/// What lexing a whole line yields.
pub open spec fn spec_lex(s: Seq<char>) -> Option<Seq<TokenModel>> {
    spec_lex_from(s, 0, LexMode::Normal, Seq::empty(), Seq::empty())
}

/// Lex a line into words and operators.  Fails exactly when a quote is left
/// unterminated.
pub fn lex_line(line: &Vec<char>) -> (r: Result<Vec<Token>, ParseFault>)
    ensures
        match r {
            Ok(toks) => spec_lex(line@) == Some(views_of(toks@)),
            Err(f) => spec_lex(line@) is None && f == ParseFault::UnterminatedQuote,
        },
{
    let n: usize = line.len();
    let mut i: usize = 0;
    let mut mode: LexMode = LexMode::Normal;
    let mut cur: Vec<char> = Vec::new();
    let mut toks: Vec<Token> = Vec::new();

    proof {
        assert(cur@ =~= Seq::<char>::empty());
        assert(views_of(toks@) =~= Seq::<TokenModel>::empty());
    }
    while i < n
        invariant
            n == line@.len(),
            i <= n,
            spec_lex(line@) == spec_lex_from(line@, i as int, mode, cur@, views_of(toks@)),
        decreases n - i,
    {
        let c = line[i];
        match mode {
            LexMode::Normal => {
                if c == ' ' || c == '\t' {
                    flush_word(&mut cur, &mut toks);
                    i = i + 1;
                } else if c == '|' {
                    flush_word(&mut cur, &mut toks);
                    push_token(&mut toks, Token::Pipe);
                    i = i + 1;
                } else if c == '<' {
                    flush_word(&mut cur, &mut toks);
                    push_token(&mut toks, Token::Redirect(RedirectKind::Input));
                    i = i + 1;
                } else if c == '>' {
                    flush_word(&mut cur, &mut toks);
                    if i + 1 < n && line[i + 1] == '>' {
                        push_token(&mut toks, Token::Redirect(RedirectKind::OutputAppend));
                        i = i + 2;
                    } else {
                        push_token(&mut toks, Token::Redirect(RedirectKind::Output));
                        i = i + 1;
                    }
                } else if c == '2' {
                    flush_word(&mut cur, &mut toks);
                    if i + 1 < n && line[i + 1] == '>' {
                        if i + 2 < n && line[i + 2] == '>' {
                            push_token(&mut toks, Token::Redirect(RedirectKind::ErrOutputAppend));
                            i = i + 3;
                        } else {
                            push_token(&mut toks, Token::Redirect(RedirectKind::ErrOutput));
                            i = i + 2;
                        }
                    } else {
                        cur.push('2');
                        proof {
                            assert(cur@ =~= seq!['2']);
                        }
                        i = i + 1;
                    }
                } else if c == '\'' {
                    mode = LexMode::Single;
                    i = i + 1;
                } else if c == '"' {
                    mode = LexMode::Double;
                    i = i + 1;
                } else {
                    cur.push(c);
                    i = i + 1;
                }
            },
            LexMode::Single => {
                if c == '\'' {
                    mode = LexMode::Normal;
                } else {
                    cur.push(c);
                }
                i = i + 1;
            },
            LexMode::Double => {
                if c == '"' {
                    mode = LexMode::Normal;
                    i = i + 1;
                } else if c == '\\' {
                    if i + 1 < n {
                        cur.push(line[i + 1]);
                        i = i + 2;
                    } else {
                        i = i + 1;
                    }
                } else {
                    cur.push(c);
                    i = i + 1;
                }
            },
        }
    }

    match mode {
        LexMode::Normal => {
            flush_word(&mut cur, &mut toks);
            Ok(toks)
        },
        _ => Err(ParseFault::UnterminatedQuote),
    }
}

/// Move the pending word, if non-empty, onto the token list.
fn flush_word(cur: &mut Vec<char>, toks: &mut Vec<Token>)
    ensures
        final(cur)@ == Seq::<char>::empty(),
        views_of(final(toks)@) == spec_flush(old(cur)@, views_of(old(toks)@)),
{
    if cur.len() > 0 {
        let mut w: Vec<char> = Vec::new();
        core::mem::swap(cur, &mut w);
        toks.push(Token::Word(w));
        proof {
            assert(views_of(toks@) =~= spec_flush(old(cur)@, views_of(old(toks)@)));
        }
    } else {
        proof {
            assert(cur@ =~= Seq::<char>::empty());
            assert(views_of(toks@) =~= spec_flush(old(cur)@, views_of(old(toks)@)));
        }
    }
}

/// Push one token, tracking the sequence of views.
fn push_token(toks: &mut Vec<Token>, t: Token)
    ensures
        views_of(final(toks)@) == views_of(old(toks)@).push(t@),
{
    toks.push(t);
    proof {
        assert(views_of(toks@) =~= views_of(old(toks)@).push(t@));
    }
}

} // verus!
