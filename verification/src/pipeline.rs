//! Grouping expanded tokens into a pipeline of command specifications.
//!
//! Tokens are split on `|`; an empty group between consecutive pipes is
//! dropped.  Within a group, words build `argv` in order and each redirection
//! operator consumes the following token as its target.  A group left with an
//! empty `argv`, or a line with no group at all, is rejected.

use vstd::prelude::*;

use crate::environ::Environment;
use crate::expand::{
    expansion_of, expansion_witness, lemma_splice_of_words_is_words, shell_tokenize,
    splice_expansions,
};
use crate::lexer::{spec_lex, views_of, ParseFault, RedirectKind, Token, TokenModel};
use crate::text::{chars_to_string, subvec};

verus! {

/// One parsed pipeline stage: the command's arguments and its redirection
/// targets.  Redirection targets are never part of `argv`.
#[derive(Debug)]
pub struct CommandSpec {
    pub argv: Vec<String>,
    pub redirect_in: Option<String>,
    pub redirect_out: Option<String>,
    pub redirect_out_append: Option<String>,
    pub redirect_err: Option<String>,
    pub redirect_err_append: Option<String>,
}

/// Mathematical form of a pipeline stage.
#[verifier::ext_equal]
pub struct CommandModel {
    pub argv: Seq<Seq<char>>,
    pub redirect_in: Option<Seq<char>>,
    pub redirect_out: Option<Seq<char>>,
    pub redirect_out_append: Option<Seq<char>>,
    pub redirect_err: Option<Seq<char>>,
    pub redirect_err_append: Option<Seq<char>>,
}

/// View of an optional string.
pub open spec fn opt_view(o: Option<String>) -> Option<Seq<char>> {
    match o {
        Some(s) => Some(s@),
        None => None,
    }
}

impl View for CommandSpec {
    type V = CommandModel;

    open spec fn view(&self) -> CommandModel {
        CommandModel {
            argv: self.argv@.map_values(|s: String| s@),
            redirect_in: opt_view(self.redirect_in),
            redirect_out: opt_view(self.redirect_out),
            redirect_out_append: opt_view(self.redirect_out_append),
            redirect_err: opt_view(self.redirect_err),
            redirect_err_append: opt_view(self.redirect_err_append),
        }
    }
}

/// The views of a stage sequence.
pub open spec fn pipeline_views(p: Seq<CommandSpec>) -> Seq<CommandModel> {
    p.map_values(|c: CommandSpec| c@)
}

/// A stage with no arguments and no redirections.
pub open spec fn empty_command_model() -> CommandModel {
    CommandModel {
        argv: Seq::empty(),
        redirect_in: None,
        redirect_out: None,
        redirect_out_append: None,
        redirect_err: None,
        redirect_err_append: None,
    }
}

/// The text of each redirection operator.
pub open spec fn redirect_text(k: RedirectKind) -> Seq<char> {
    match k {
        RedirectKind::Input => "<"@,
        RedirectKind::Output => ">"@,
        RedirectKind::OutputAppend => ">>"@,
        RedirectKind::ErrOutput => "2>"@,
        RedirectKind::ErrOutputAppend => "2>>"@,
    }
}

/// The text a token contributes when consumed as a redirection target.
pub open spec fn target_text(t: TokenModel) -> Seq<char> {
    match t {
        TokenModel::Word(w) => w,
        TokenModel::Pipe => "|"@,
        TokenModel::Redirect(k) => redirect_text(k),
    }
}

/// Store a redirection target in the stage under its operator.
pub open spec fn with_redirect(acc: CommandModel, k: RedirectKind, t: Seq<char>) -> CommandModel {
    match k {
        RedirectKind::Input => CommandModel { redirect_in: Some(t), ..acc },
        RedirectKind::Output => CommandModel { redirect_out: Some(t), ..acc },
        RedirectKind::OutputAppend => CommandModel { redirect_out_append: Some(t), ..acc },
        RedirectKind::ErrOutput => CommandModel { redirect_err: Some(t), ..acc },
        RedirectKind::ErrOutputAppend => CommandModel { redirect_err_append: Some(t), ..acc },
    }
}

/// Parse one pipe-free group from position `i`, stage built so far in `acc`.
pub open spec fn parse_group_from(ts: Seq<TokenModel>, i: int, acc: CommandModel) -> Result<
    CommandModel,
    ParseFault,
>
    decreases ts.len() - i,
{
    if i < 0 || i >= ts.len() {
        if acc.argv.len() == 0 {
            Err(ParseFault::EmptyCommand)
        } else {
            Ok(acc)
        }
    } else {
        match ts[i] {
            TokenModel::Redirect(k) => {
                if i + 1 < ts.len() {
                    parse_group_from(ts, i + 2, with_redirect(acc, k, target_text(ts[i + 1])))
                } else {
                    Err(ParseFault::MissingRedirectTarget(k))
                }
            },
            t => parse_group_from(
                ts,
                i + 1,
                CommandModel { argv: acc.argv.push(target_text(t)), ..acc },
            ),
        }
    }
}

/// Parse one pipe-free group.
pub open spec fn parse_group(ts: Seq<TokenModel>) -> Result<CommandModel, ParseFault> {
    parse_group_from(ts, 0, empty_command_model())
}

/// Split a token stream on `|`, dropping empty groups.
pub open spec fn split_from(
    ts: Seq<TokenModel>,
    i: int,
    cur: Seq<TokenModel>,
    acc: Seq<Seq<TokenModel>>,
) -> Seq<Seq<TokenModel>>
    decreases ts.len() - i,
{
    if i < 0 || i >= ts.len() {
        if cur.len() > 0 {
            acc.push(cur)
        } else {
            acc
        }
    } else {
        match ts[i] {
            TokenModel::Pipe => split_from(
                ts,
                i + 1,
                Seq::empty(),
                if cur.len() > 0 {
                    acc.push(cur)
                } else {
                    acc
                },
            ),
            t => split_from(ts, i + 1, cur.push(t), acc),
        }
    }
}

/// The pipe-separated groups of a token stream.
pub open spec fn split_groups(ts: Seq<TokenModel>) -> Seq<Seq<TokenModel>> {
    split_from(ts, 0, Seq::empty(), Seq::empty())
}

/// Parse every group, stopping at the first failure.
pub open spec fn parse_groups(gs: Seq<Seq<TokenModel>>) -> Result<Seq<CommandModel>, ParseFault>
    decreases gs.len(),
{
    if gs.len() == 0 {
        Ok(Seq::empty())
    } else {
        match parse_groups(gs.drop_last()) {
            Err(f) => Err(f),
            Ok(ms) => match parse_group(gs.last()) {
                Err(f) => Err(f),
                Ok(m) => Ok(ms.push(m)),
            },
        }
    }
}

/// Parse a whole token stream into a pipeline: split on `|`, parse each
/// group.  A stream with no group at all is an empty command.
pub open spec fn spec_parse_pipeline(ts: Seq<TokenModel>) -> Result<Seq<CommandModel>, ParseFault> {
    let gs = split_groups(ts);
    if gs.len() == 0 {
        Err(ParseFault::EmptyCommand)
    } else {
        parse_groups(gs)
    }
}

/// Copy a character vector.
fn copy_chars(v: &Vec<char>) -> (r: Vec<char>)
    ensures
        r@ == v@,
{
    subvec(v, 0, v.len())
}

/// The text a token contributes when consumed as a redirection target.
fn token_text(t: &Token) -> (r: String)
    ensures
        r@ == target_text(t@),
{
    match t {
        Token::Word(w) => chars_to_string(w),
        Token::Pipe => {
            let s = String::from_str("|");
            s
        },
        Token::Redirect(k) => match k {
            RedirectKind::Input => String::from_str("<"),
            RedirectKind::Output => String::from_str(">"),
            RedirectKind::OutputAppend => String::from_str(">>"),
            RedirectKind::ErrOutput => String::from_str("2>"),
            RedirectKind::ErrOutputAppend => String::from_str("2>>"),
        },
    }
}

/// Parse one pipe-free token group into a stage.
pub fn parse_one_command(tokens: &Vec<Token>) -> (r: Result<CommandSpec, ParseFault>)
    ensures
        match r {
            Ok(c) => parse_group(views_of(tokens@)) == Ok::<CommandModel, ParseFault>(c@),
            Err(f) => parse_group(views_of(tokens@)) == Err::<CommandModel, ParseFault>(f),
        },
{
    let ghost ts = views_of(tokens@);
    let n: usize = tokens.len();
    let mut cs = CommandSpec {
        argv: Vec::new(),
        redirect_in: None,
        redirect_out: None,
        redirect_out_append: None,
        redirect_err: None,
        redirect_err_append: None,
    };
    let mut i: usize = 0;
    proof {
        assert(cs@.argv =~= empty_command_model().argv);
        assert(cs@ == empty_command_model());
    }
    while i < n
        invariant
            n == tokens@.len(),
            ts == views_of(tokens@),
            i <= n,
            parse_group(ts) == parse_group_from(ts, i as int, cs@),
        decreases n - i,
    {
        let t = &tokens[i];
        match t {
            Token::Redirect(k) => {
                let kv = *k;
                if i + 1 >= n {
                    return Err(ParseFault::MissingRedirectTarget(kv));
                }
                let target = token_text(&tokens[i + 1]);
                let ghost before = cs@;
                match kv {
                    RedirectKind::Input => {
                        cs.redirect_in = Some(target);
                    },
                    RedirectKind::Output => {
                        cs.redirect_out = Some(target);
                    },
                    RedirectKind::OutputAppend => {
                        cs.redirect_out_append = Some(target);
                    },
                    RedirectKind::ErrOutput => {
                        cs.redirect_err = Some(target);
                    },
                    RedirectKind::ErrOutputAppend => {
                        cs.redirect_err_append = Some(target);
                    },
                }
                proof {
                    assert(cs@.argv =~= before.argv);
                    assert(cs@ == with_redirect(before, kv, target_text(ts[i as int + 1])));
                }
                i = i + 2;
            },
            other => {
                let word = token_text(other);
                let ghost before = cs@;
                cs.argv.push(word);
                proof {
                    assert(cs@.argv =~= before.argv.push(target_text(ts[i as int])));
                    assert(cs@ == (CommandModel {
                        argv: before.argv.push(target_text(ts[i as int])),
                        ..before
                    }));
                }
                i = i + 1;
            },
        }
    }
    if cs.argv.len() == 0 {
        Err(ParseFault::EmptyCommand)
    } else {
        Ok(cs)
    }
}

/// The views of a token group list.
pub open spec fn group_views(gs: Seq<Vec<Token>>) -> Seq<Seq<TokenModel>> {
    gs.map_values(|g: Vec<Token>| views_of(g@))
}

/// Copy one token.
fn copy_token(t: &Token) -> (r: Token)
    ensures
        r@ == t@,
{
    match t {
        Token::Word(w) => Token::Word(copy_chars(w)),
        Token::Pipe => Token::Pipe,
        Token::Redirect(k) => Token::Redirect(*k),
    }
}

/// Split expanded tokens on `|` and parse every group into a stage.
pub fn parse_pipeline(tokens: &Vec<Token>) -> (r: Result<Vec<CommandSpec>, ParseFault>)
    ensures
        match r {
            Ok(p) => spec_parse_pipeline(views_of(tokens@)) == Ok::<Seq<CommandModel>, ParseFault>(pipeline_views(p@)),
            Err(f) => spec_parse_pipeline(views_of(tokens@)) == Err::<Seq<CommandModel>, ParseFault>(f),
        },
{
    let ghost ts = views_of(tokens@);
    let n: usize = tokens.len();
    let mut groups: Vec<Vec<Token>> = Vec::new();
    let mut cur: Vec<Token> = Vec::new();
    let mut i: usize = 0;
    proof {
        assert(views_of(cur@) =~= Seq::<TokenModel>::empty());
        assert(group_views(groups@) =~= Seq::<Seq<TokenModel>>::empty());
    }
    while i < n
        invariant
            n == tokens@.len(),
            ts == views_of(tokens@),
            i <= n,
            split_groups(ts) == split_from(ts, i as int, views_of(cur@), group_views(groups@)),
        decreases n - i,
    {
        let t = &tokens[i];
        match t {
            Token::Pipe => {
                if cur.len() > 0 {
                    let ghost gv = group_views(groups@);
                    let mut done: Vec<Token> = Vec::new();
                    core::mem::swap(&mut cur, &mut done);
                    let ghost dv = views_of(done@);
                    groups.push(done);
                    proof {
                        assert(group_views(groups@) =~= gv.push(dv));
                        assert(views_of(cur@) =~= Seq::<TokenModel>::empty());
                    }
                } else {
                    proof {
                        assert(views_of(cur@) =~= Seq::<TokenModel>::empty());
                    }
                }
            },
            other => {
                let ghost cv = views_of(cur@);
                let copied = copy_token(other);
                cur.push(copied);
                proof {
                    assert(views_of(cur@) =~= cv.push(ts[i as int]));
                }
            },
        }
        i = i + 1;
    }
    if cur.len() > 0 {
        let ghost gv = group_views(groups@);
        let ghost cv = views_of(cur@);
        groups.push(cur);
        proof {
            assert(group_views(groups@) =~= gv.push(cv));
        }
    } else {
        proof {
            assert(views_of(cur@) =~= Seq::<TokenModel>::empty());
        }
    }
    proof {
        assert(split_groups(ts) == group_views(groups@));
    }

    let m: usize = groups.len();
    if m == 0 {
        return Err(ParseFault::EmptyCommand);
    }
    let mut stages: Vec<CommandSpec> = Vec::new();
    let mut j: usize = 0;
    proof {
        assert(group_views(groups@).take(0) =~= Seq::<Seq<TokenModel>>::empty());
        assert(pipeline_views(stages@) =~= Seq::<CommandModel>::empty());
    }
    while j < m
        invariant
            m == groups@.len(),
            j <= m,
            ts == views_of(tokens@),
            split_groups(ts) == group_views(groups@),
            parse_groups(group_views(groups@).take(j as int)) == Ok::<Seq<CommandModel>, ParseFault>(pipeline_views(stages@)),
        decreases m - j,
    {
        let stage = match parse_one_command(&groups[j]) {
            Ok(c) => c,
            Err(f) => {
                proof {
                    assert(group_views(groups@)[j as int] == views_of(groups@[j as int]@));
                    lemma_parse_groups_error(group_views(groups@), j as int, f);
                    assert(group_views(groups@).len() == groups@.len());
                    assert(split_groups(ts).len() > 0);
                    assert(spec_parse_pipeline(ts) == parse_groups(group_views(groups@)));
                    assert(spec_parse_pipeline(views_of(tokens@)) == Err::<
                        Seq<CommandModel>,
                        ParseFault,
                    >(f));
                }
                return Err(f);
            },
        };
        let ghost sv = pipeline_views(stages@);
        stages.push(stage);
        proof {
            let gv = group_views(groups@);
            assert(gv.take(j + 1).drop_last() =~= gv.take(j as int));
            assert(gv.take(j + 1).last() == gv[j as int]);
            assert(pipeline_views(stages@) =~= sv.push(stages@.last()@));
            assert(parse_groups(gv.take(j + 1)) == Ok::<Seq<CommandModel>, ParseFault>(pipeline_views(stages@)));
        }
        j = j + 1;
    }
    proof {
        assert(group_views(groups@).take(m as int) =~= group_views(groups@));
    }
    Ok(stages)
}

/// If every group before `j` parses and group `j` fails with `f`, the whole
/// list fails with `f`.
proof fn lemma_parse_groups_error(gs: Seq<Seq<TokenModel>>, j: int, f: ParseFault)
    requires
        0 <= j < gs.len(),
        parse_groups(gs.take(j)) is Ok,
        parse_group(gs[j]) == Err::<CommandModel, ParseFault>(f),
    ensures
        parse_groups(gs) == Err::<Seq<CommandModel>, ParseFault>(f),
    decreases gs.len(),
{
    if gs.len() - 1 == j {
        assert(gs.drop_last() =~= gs.take(j));
        assert(gs.last() == gs[j]);
    } else {
        assert(gs.drop_last().take(j) =~= gs.take(j));
        assert(gs.drop_last()[j] == gs[j]);
        lemma_parse_groups_error(gs.drop_last(), j, f);
    }
}

/// Tokenize a line against the environment and parse it into a pipeline.
pub fn handle_line(line: &str, env: &Environment) -> (r: Result<Vec<CommandSpec>, ParseFault>)
    requires
        env.wf(),
    ensures
        match r {
            Ok(p) => exists|ts: Seq<TokenModel>|
                {
                    &&& spec_lex(line@) is Some
                    &&& #[trigger] expansion_of(spec_lex(line@)->0, env@, ts)
                    &&& spec_parse_pipeline(ts) == Ok::<Seq<CommandModel>, ParseFault>(pipeline_views(p@))
                },
            Err(f) => (f == ParseFault::UnterminatedQuote && spec_lex(line@) is None)
                || exists|ts: Seq<TokenModel>|
                {
                    &&& spec_lex(line@) is Some
                    &&& #[trigger] expansion_of(spec_lex(line@)->0, env@, ts)
                    &&& spec_parse_pipeline(ts) == Err::<Seq<CommandModel>, ParseFault>(f)
                },
        },
{
    let tokens = match shell_tokenize(line, env) {
        Ok(t) => t,
        Err(f) => {
            return Err(f);
        },
    };
    match parse_pipeline(&tokens) {
        Ok(p) => Ok(p),
        Err(f) => Err(f),
    }
}

/// The words of a token stream that holds words alone.
pub open spec fn words_only(ts: Seq<TokenModel>) -> Seq<Seq<char>> {
    ts.map_values(|t: TokenModel| target_text(t))
}

/// A token stream of words alone (no operators) parses to a single stage
/// whose `argv` is exactly those words in order, with no redirections.
pub proof fn lemma_words_only_single_stage(ts: Seq<TokenModel>)
    requires
        ts.len() > 0,
        forall|i: int| 0 <= i < ts.len() ==> ts[i] is Word,
    ensures
        spec_parse_pipeline(ts) == Ok::<Seq<CommandModel>, ParseFault>(
            seq![CommandModel { argv: words_only(ts), ..empty_command_model() }],
        ),
{
    lemma_split_words(ts, 0, Seq::empty(), Seq::empty());
    assert(Seq::<TokenModel>::empty() + ts.skip(0) =~= ts);
    assert(split_groups(ts) == seq![ts]);
    lemma_parse_words(ts, 0, empty_command_model());
    assert(empty_command_model().argv + words_only(ts.skip(0)) =~= words_only(ts));
    assert(words_only(ts.skip(0)) =~= words_only(ts));
    let gs = seq![ts];
    assert(gs.drop_last() =~= Seq::<Seq<TokenModel>>::empty());
    assert(gs.last() == ts);
    let m = CommandModel { argv: words_only(ts), ..empty_command_model() };
    assert(parse_group(ts) == Ok::<CommandModel, ParseFault>(m));
    assert(parse_groups(Seq::<Seq<TokenModel>>::empty()) == Ok::<Seq<CommandModel>, ParseFault>(
        Seq::<CommandModel>::empty(),
    ));
    assert(parse_groups(gs) == Ok::<Seq<CommandModel>, ParseFault>(Seq::<CommandModel>::empty().push(m)));
    assert(Seq::<CommandModel>::empty().push(m) =~= seq![m]);
}

/// A line with no operators produces a single stage whose `argv` is exactly
/// its expanded words: expansion turns a stream of words into a non-empty
/// stream of words, and such a stream parses to one stage with no
/// redirections.
pub proof fn lemma_no_operator_line(
    pre: Seq<TokenModel>,
    env: Map<Seq<char>, Seq<char>>,
    post: Seq<TokenModel>,
)
    requires
        pre.len() > 0,
        forall|i: int| 0 <= i < pre.len() ==> pre[i] is Word,
        expansion_of(pre, env, post),
    ensures
        post.len() > 0,
        forall|i: int| 0 <= i < post.len() ==> post[i] is Word,
        spec_parse_pipeline(post) == Ok::<Seq<CommandModel>, ParseFault>(
            seq![CommandModel { argv: words_only(post), ..empty_command_model() }],
        ),
{
    let groups = choose|g: Seq<Seq<Seq<char>>>| expansion_witness(pre, env, g, post);
    assert(expansion_witness(pre, env, groups, post));
    assert(splice_expansions(pre, groups) == post);
    lemma_splice_of_words_is_words(pre, env, groups);
    lemma_words_only_single_stage(post);
}

/// Splitting a stream whose remainder holds no pipe keeps it as one group.
proof fn lemma_split_words(
    ts: Seq<TokenModel>,
    i: int,
    cur: Seq<TokenModel>,
    acc: Seq<Seq<TokenModel>>,
)
    requires
        0 <= i <= ts.len(),
        forall|j: int| i <= j < ts.len() ==> ts[j] is Word,
    ensures
        split_from(ts, i, cur, acc) == (if cur.len() + ts.len() - i > 0 {
            acc.push(cur + ts.skip(i))
        } else {
            acc
        }),
    decreases ts.len() - i,
{
    if i >= ts.len() {
        assert(cur + ts.skip(i) =~= cur);
    } else {
        lemma_split_words(ts, i + 1, cur.push(ts[i]), acc);
        assert(cur.push(ts[i]) + ts.skip(i + 1) =~= cur + ts.skip(i));
    }
}

/// Parsing a remainder of words alone appends their texts to `argv`.
proof fn lemma_parse_words(ts: Seq<TokenModel>, i: int, acc: CommandModel)
    requires
        0 <= i <= ts.len(),
        forall|j: int| i <= j < ts.len() ==> ts[j] is Word,
    ensures
        parse_group_from(ts, i, acc) == (if acc.argv.len() + ts.len() - i == 0 {
            Err::<CommandModel, ParseFault>(ParseFault::EmptyCommand)
        } else {
            Ok(CommandModel { argv: acc.argv + words_only(ts.skip(i)), ..acc })
        }),
    decreases ts.len() - i,
{
    if i >= ts.len() {
        assert(acc.argv + words_only(ts.skip(i)) =~= acc.argv);
        if acc.argv.len() > 0 {
            assert(CommandModel { argv: acc.argv + words_only(ts.skip(i)), ..acc } == acc);
        }
    } else {
        let acc2 = CommandModel { argv: acc.argv.push(target_text(ts[i])), ..acc };
        lemma_parse_words(ts, i + 1, acc2);
        assert(acc2.argv + words_only(ts.skip(i + 1)) =~= acc.argv + words_only(ts.skip(i)));
    }
}

} // verus!
