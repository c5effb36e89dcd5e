//! Expansion of lexed words: `$NAME` substitution against the explicit
//! environment, then glob expansion for words holding `*`, `?` or `[`.
//!
//! A glob pattern that matches nothing stays in the argument list as the
//! literal expanded text; glob failure never removes an argument.

use vstd::prelude::*;

use crate::environ::Environment;
use crate::lexer::{lex_line, spec_lex, views_of, ParseFault, Token, TokenModel};
use crate::text::{chars_to_string, contains_char, push_all, str_to_chars, subvec};

verus! {

/// Whether a character counts as a Unicode letter or digit.
pub uninterp spec fn unicode_alphanumeric(c: char) -> bool;

/// Relies on `char::is_alphanumeric`: whether the character is a Unicode
/// letter or digit, a property of the character alone.
#[verifier::external_body]
fn char_is_alphanumeric(c: char) -> (r: bool)
    ensures
        r == unicode_alphanumeric(c),
{
    c.is_alphanumeric()
}

/// A character that may appear in a variable name after `$`.
pub open spec fn is_name_char(c: char) -> bool {
    unicode_alphanumeric(c) || c == '_'
}

fn name_char(c: char) -> (r: bool)
    ensures
        r == is_name_char(c),
{
    char_is_alphanumeric(c) || c == '_'
}

/// Length of the longest name prefix of `s`.
pub open spec fn name_prefix_len(s: Seq<char>) -> nat
    decreases s.len(),
{
    if s.len() > 0 && is_name_char(s[0]) {
        1 + name_prefix_len(s.drop_first())
    } else {
        0
    }
}

/// The name prefix never runs past the end.
pub proof fn lemma_name_prefix_len_le(s: Seq<char>)
    ensures
        name_prefix_len(s) <= s.len(),
    decreases s.len(),
{
    if s.len() > 0 && is_name_char(s[0]) {
        lemma_name_prefix_len_le(s.drop_first());
    }
}

/// Environment substitution.  `$` followed by a non-empty run of name
/// characters is replaced by the variable's value (empty if unset); a `$`
/// followed by none stays literal; everything else is copied.
pub open spec fn env_expand(s: Seq<char>, env: Map<Seq<char>, Seq<char>>) -> Seq<char>
    decreases s.len(),
    via env_expand_decreases
{
    if s.len() == 0 {
        Seq::empty()
    } else if s[0] == '$' {
        let rest = s.drop_first();
        let nl = name_prefix_len(rest);
        if nl == 0 {
            seq!['$'] + env_expand(rest, env)
        } else {
            let nm = rest.take(nl as int);
            let val = if env.contains_key(nm) {
                env[nm]
            } else {
                Seq::<char>::empty()
            };
            val + env_expand(rest.skip(nl as int), env)
        }
    } else {
        seq![s[0]] + env_expand(s.drop_first(), env)
    }
}

#[via_fn]
proof fn env_expand_decreases(s: Seq<char>, env: Map<Seq<char>, Seq<char>>) {
    if s.len() > 0 {
        lemma_name_prefix_len_le(s.drop_first());
    }
}

/// Substitute environment variables in `text` (character form).
fn expand_env_chars(text: &Vec<char>, env: &Environment) -> (r: Vec<char>)
    requires
        env.wf(),
    ensures
        r@ == env_expand(text@, env@),
{
    let n: usize = text.len();
    let mut out: Vec<char> = Vec::new();
    let mut i: usize = 0;
    proof {
        assert(out@ =~= Seq::<char>::empty());
        assert(text@.skip(0) =~= text@);
        assert(out@ + env_expand(text@.skip(0), env@) =~= env_expand(text@, env@));
    }
    while i < n
        invariant
            env.wf(),
            n == text@.len(),
            i <= n,
            env_expand(text@, env@) == out@ + env_expand(text@.skip(i as int), env@),
        decreases n - i,
    {
        let ghost pending = text@.skip(i as int);
        let c = text[i];
        proof {
            assert(pending[0] == text@[i as int]);
            assert(pending.drop_first() =~= text@.skip(i + 1));
        }
        if c == '$' {
            let ghost rest = text@.skip(i + 1);
            let mut j: usize = i + 1;
            while j < n && name_char(text[j])
                invariant
                    n == text@.len(),
                    i + 1 <= j <= n,
                    rest == text@.skip(i + 1),
                    name_prefix_len(rest) == (j - i - 1) + name_prefix_len(text@.skip(j as int)),
                decreases n - j,
            {
                proof {
                    let tail = text@.skip(j as int);
                    assert(tail[0] == text@[j as int]);
                    assert(tail.drop_first() =~= text@.skip(j + 1));
                }
                j = j + 1;
            }
            proof {
                let tail = text@.skip(j as int);
                if j < n {
                    assert(tail[0] == text@[j as int]);
                }
                assert(name_prefix_len(tail) == 0);
                assert(name_prefix_len(rest) == j - i - 1);
            }
            if j == i + 1 {
                out.push('$');
                proof {
                    assert(env_expand(pending, env@) =~= seq!['$'] + env_expand(rest, env@));
                    assert(out@ + env_expand(text@.skip(i + 1), env@) =~= env_expand(
                        text@,
                        env@,
                    ));
                }
                i = i + 1;
            } else {
                let nm_chars = subvec(text, i + 1, j);
                let nm = chars_to_string(&nm_chars);
                proof {
                    assert(rest.take((j - i - 1) as int) =~= text@.subrange(i + 1, j as int));
                    assert(rest.skip((j - i - 1) as int) =~= text@.skip(j as int));
                }
                let looked = env.lookup(&nm);
                let ghost before = out@;
                match looked {
                    Some(v) => {
                        let vc = str_to_chars(v.as_str());
                        push_all(&mut out, &vc);
                    },
                    None => {},
                }
                proof {
                    assert(env_expand(pending, env@) == (if env@.contains_key(nm@) {
                        env@[nm@]
                    } else {
                        Seq::<char>::empty()
                    }) + env_expand(text@.skip(j as int), env@));
                    assert(out@ =~= before + (if env@.contains_key(nm@) {
                        env@[nm@]
                    } else {
                        Seq::<char>::empty()
                    }));
                    assert(out@ + env_expand(text@.skip(j as int), env@) =~= env_expand(
                        text@,
                        env@,
                    ));
                }
                i = j;
            }
        } else {
            out.push(c);
            proof {
                assert(env_expand(pending, env@) =~= seq![pending[0]] + env_expand(
                    pending.drop_first(),
                    env@,
                ));
                assert(out@ + env_expand(text@.skip(i + 1), env@) =~= env_expand(text@, env@));
            }
            i = i + 1;
        }
    }
    proof {
        assert(text@.skip(n as int) =~= Seq::<char>::empty());
        assert(out@ =~= env_expand(text@, env@));
    }
    out
}

/// Substitute environment variables in `text`.
pub fn expand_env(text: &str, env: &Environment) -> (r: String)
    requires
        env.wf(),
    ensures
        r@ == env_expand(text@, env@),
{
    let chars = str_to_chars(text);
    let out = expand_env_chars(&chars, env);
    chars_to_string(&out)
}

/// Whether the word holds a glob metacharacter.
pub open spec fn has_glob_meta(s: Seq<char>) -> bool {
    s.contains('*') || s.contains('?') || s.contains('[')
}

/// Relies on `glob::glob`: the paths currently matching the pattern, in the
/// order the walk yields them.  The result depends on the filesystem, so
/// nothing is promised of it.
#[verifier::external_body]
fn glob_candidates(pattern: &String) -> (r: Vec<String>)
{
    match glob::glob(pattern.as_str()) {
        Ok(paths) => paths
            .filter_map(|p| p.ok())
            .filter_map(|p| p.to_str().map(String::from))
            .collect(),
        Err(_) => Vec::new(),
    }
}

/// The views of a string list.
pub open spec fn string_views(s: Seq<String>) -> Seq<Seq<char>> {
    s.map_values(|x: String| x@)
}

/// Choose between a glob's matches and the literal pattern: a pattern that
/// matched nothing stays as a single unchanged argument, never an empty
/// argument list; otherwise the matches replace it.
pub fn select_expansion(literal: String, matches: Vec<String>) -> (r: Vec<String>)
    ensures
        matches@.len() == 0 ==> string_views(r@) == seq![literal@],
        matches@.len() > 0 ==> r@ == matches@,
        r@.len() >= 1,
{
    if matches.len() == 0 {
        let mut r: Vec<String> = Vec::new();
        r.push(literal);
        proof {
            assert(string_views(r@) =~= seq![literal@]);
        }
        r
    } else {
        matches
    }
}

/// What expansion may turn one word into: at least one argument, and exactly
/// the substituted word where no glob metacharacter occurs.
pub open spec fn word_expansion_ok(
    w: Seq<char>,
    env: Map<Seq<char>, Seq<char>>,
    out: Seq<Seq<char>>,
) -> bool {
    &&& out.len() >= 1
    &&& !has_glob_meta(env_expand(w, env)) ==> out == seq![env_expand(w, env)]
}

/// Expand one word (character form).
fn expand_word(w: &Vec<char>, env: &Environment) -> (r: Vec<String>)
    requires
        env.wf(),
    ensures
        word_expansion_ok(w@, env@, string_views(r@)),
{
    let expanded = expand_env_chars(w, env);
    let has_meta = contains_char(&expanded, '*') || contains_char(&expanded, '?')
        || contains_char(&expanded, '[');
    let literal = chars_to_string(&expanded);
    if has_meta {
        let matches = glob_candidates(&literal);
        let r = select_expansion(literal, matches);
        proof {
            assert(string_views(r@).len() == r@.len());
        }
        r
    } else {
        let mut r: Vec<String> = Vec::new();
        r.push(literal);
        proof {
            assert(string_views(r@) =~= seq![env_expand(w@, env@)]);
        }
        r
    }
}

/// Expand one word: environment substitution, then glob expansion.
pub fn expand_token(token: &str, env: &Environment) -> (r: Vec<String>)
    requires
        env.wf(),
    ensures
        word_expansion_ok(token@, env@, string_views(r@)),
{
    let chars = str_to_chars(token);
    expand_word(&chars, env)
}

/// The words of an expansion group, as tokens.
pub open spec fn words_of(g: Seq<Seq<char>>) -> Seq<TokenModel> {
    g.map_values(|w: Seq<char>| TokenModel::Word(w))
}

/// What one token contributes to the expanded stream.
pub open spec fn expand_one(t: TokenModel, g: Seq<Seq<char>>) -> Seq<TokenModel> {
    match t {
        TokenModel::Word(_) => words_of(g),
        _ => seq![t],
    }
}

/// A token's expansion group is admissible.
pub open spec fn group_ok(t: TokenModel, env: Map<Seq<char>, Seq<char>>, g: Seq<Seq<char>>) -> bool {
    match t {
        TokenModel::Word(w) => word_expansion_ok(w, env, g),
        _ => g.len() == 0,
    }
}

/// Splice the expansion groups into the token stream.
pub open spec fn splice_expansions(
    pre: Seq<TokenModel>,
    groups: Seq<Seq<Seq<char>>>,
) -> Seq<TokenModel>
    decreases pre.len(),
{
    if pre.len() == 0 {
        Seq::empty()
    } else {
        splice_expansions(pre.drop_last(), groups.drop_last()) + expand_one(
            pre.last(),
            groups.last(),
        )
    }
}

/// `groups` carries an admissible expansion for every token of `pre`, and
/// splicing it in yields `post`.
pub open spec fn expansion_witness(
    pre: Seq<TokenModel>,
    env: Map<Seq<char>, Seq<char>>,
    groups: Seq<Seq<Seq<char>>>,
    post: Seq<TokenModel>,
) -> bool {
    &&& groups.len() == pre.len()
    &&& splice_expansions(pre, groups) == post
    &&& forall|i: int| 0 <= i < pre.len() ==> group_ok(pre[i], env, groups[i])
}

/// `post` arises from `pre` by expanding every word with some admissible
/// expansion group, operators kept in place.
pub open spec fn expansion_of(
    pre: Seq<TokenModel>,
    env: Map<Seq<char>, Seq<char>>,
    post: Seq<TokenModel>,
) -> bool {
    exists|groups: Seq<Seq<Seq<char>>>| #[trigger] expansion_witness(pre, env, groups, post)
}

/// Expanding a stream of words alone yields a non-empty stream of words
/// alone: every word contributes at least one argument and no operator can
/// appear.
pub proof fn lemma_splice_of_words_is_words(
    pre: Seq<TokenModel>,
    env: Map<Seq<char>, Seq<char>>,
    groups: Seq<Seq<Seq<char>>>,
)
    requires
        expansion_witness(pre, env, groups, splice_expansions(pre, groups)),
        forall|i: int| 0 <= i < pre.len() ==> pre[i] is Word,
    ensures
        splice_expansions(pre, groups).len() >= pre.len(),
        forall|i: int|
            0 <= i < splice_expansions(pre, groups).len() ==> splice_expansions(pre, groups)[i]
                is Word,
    decreases pre.len(),
{
    if pre.len() > 0 {
        let pre2 = pre.drop_last();
        let groups2 = groups.drop_last();
        assert(forall|i: int|
            0 <= i < pre2.len() ==> #[trigger] group_ok(pre2[i], env, groups2[i]) && pre2[i]
                is Word) by {
            assert(forall|i: int| 0 <= i < pre2.len() ==> pre2[i] == pre[i] && groups2[i]
                == groups[i]);
        }
        lemma_splice_of_words_is_words(pre2, env, groups2);
        let tail = expand_one(pre.last(), groups.last());
        assert(pre.last() is Word);
        assert(group_ok(pre.last(), env, groups.last()));
        assert(tail == words_of(groups.last()));
        assert(tail.len() == groups.last().len());
        assert(tail.len() >= 1);
        assert(forall|i: int| 0 <= i < tail.len() ==> tail[i] is Word);
    }
}

/// Tokenize a command line: lex it, then expand every word.  Fails exactly
/// when a quote is left unterminated.
pub fn shell_tokenize(line: &str, env: &Environment) -> (r: Result<Vec<Token>, ParseFault>)
    requires
        env.wf(),
    ensures
        match r {
            Ok(toks) => spec_lex(line@) is Some && expansion_of(
                spec_lex(line@)->0,
                env@,
                views_of(toks@),
            ),
            Err(f) => spec_lex(line@) is None && f == ParseFault::UnterminatedQuote,
        },
{
    let chars = str_to_chars(line);
    let lexed = match lex_line(&chars) {
        Ok(t) => t,
        Err(f) => {
            return Err(f);
        },
    };
    let ghost pre = views_of(lexed@);
    let n: usize = lexed.len();
    let mut out: Vec<Token> = Vec::new();
    let ghost mut groups: Seq<Seq<Seq<char>>> = Seq::empty();
    let mut idx: usize = 0;
    proof {
        assert(views_of(out@) =~= splice_expansions(pre.take(0), groups));
    }
    while idx < n
        invariant
            env.wf(),
            n == lexed@.len(),
            idx <= n,
            pre == views_of(lexed@),
            groups.len() == idx,
            forall|i: int| 0 <= i < idx ==> group_ok(pre[i], env@, #[trigger] groups[i]),
            views_of(out@) == splice_expansions(pre.take(idx as int), groups),
        decreases n - idx,
    {
        let ghost out_pre = views_of(out@);
        let ghost mut g: Seq<Seq<char>> = Seq::empty();
        let t = &lexed[idx];
        match t {
            Token::Word(w) => {
                let ws = expand_word(w, env);
                let m: usize = ws.len();
                let mut k: usize = 0;
                proof {
                    assert(views_of(out@) =~= out_pre + words_of(string_views(ws@).take(0)));
                }
                while k < m
                    invariant
                        m == ws@.len(),
                        k <= m,
                        views_of(out@) == out_pre + words_of(string_views(ws@).take(k as int)),
                    decreases m - k,
                {
                    let wc = str_to_chars(ws[k].as_str());
                    let ghost out_snap = views_of(out@);
                    out.push(Token::Word(wc));
                    proof {
                        let sv = string_views(ws@);
                        assert(sv[k as int] == ws@[k as int]@);
                        assert(views_of(out@) =~= out_snap.push(TokenModel::Word(wc@)));
                        assert(sv.take(k + 1) =~= sv.take(k as int).push(sv[k as int]));
                        assert(words_of(sv.take(k + 1)) =~= words_of(sv.take(k as int)).push(
                            TokenModel::Word(sv[k as int]),
                        ));
                        assert((out_pre + words_of(sv.take(k as int))).push(
                            TokenModel::Word(sv[k as int]),
                        ) =~= out_pre + words_of(sv.take(k as int)).push(
                            TokenModel::Word(sv[k as int]),
                        ));
                        assert(views_of(out@) =~= out_pre + words_of(sv.take(k + 1)));
                    }
                    k = k + 1;
                }
                proof {
                    g = string_views(ws@);
                    assert(g.take(m as int) =~= g);
                    assert(pre[idx as int] == TokenModel::Word(w@));
                    assert(views_of(out@) =~= out_pre + expand_one(pre[idx as int], g));
                }
            },
            Token::Pipe => {
                out.push(Token::Pipe);
                proof {
                    assert(views_of(out@) =~= out_pre + expand_one(pre[idx as int], g));
                }
            },
            Token::Redirect(rk) => {
                let rkv = *rk;
                out.push(Token::Redirect(rkv));
                proof {
                    assert(views_of(out@) =~= out_pre + expand_one(pre[idx as int], g));
                }
            },
        }
        proof {
            assert(group_ok(pre[idx as int], env@, g));
            let groups_old = groups;
            groups = groups.push(g);
            assert(groups.drop_last() =~= groups_old);
            assert(groups.last() == g);
            assert(pre.take(idx + 1).drop_last() =~= pre.take(idx as int));
            assert(pre.take(idx + 1).last() == pre[idx as int]);
            assert(splice_expansions(pre.take(idx + 1), groups) == splice_expansions(
                pre.take(idx as int),
                groups_old,
            ) + expand_one(pre[idx as int], g));
            assert(forall|i: int| 0 <= i < idx ==> #[trigger] groups[i] == groups_old[i]);
        }
        idx = idx + 1;
    }
    proof {
        assert(pre.take(n as int) =~= pre);
        assert(expansion_witness(pre, env@, groups, views_of(out@)));
    }
    Ok(out)
}

} // verus!
