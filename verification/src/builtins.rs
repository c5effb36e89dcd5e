//! The builtin commands of the pipeline executor: `cd`, `pwd`, `set`,
//! `unset`, `env`, `help`.  They run against the explicit environment and
//! working directory; a directory change is handed back as a request for the
//! surrounding shell to carry out.

use vstd::prelude::*;

use crate::environ::Environment;
use crate::pipeline::{opt_view, CommandModel, CommandSpec};
use crate::text::{chars_to_string, find_char, first_index_of, str_eq, str_to_chars, subvec};

verus! {

/// The commands the executor runs in-process.
pub open spec fn is_builtin_name(s: Seq<char>) -> bool {
    ||| s == "cd"@
    ||| s == "pwd"@
    ||| s == "set"@
    ||| s == "unset"@
    ||| s == "env"@
    ||| s == "help"@
}

/// Whether `cmd` names a builtin.
pub fn is_builtin(cmd: &str) -> (r: bool)
    ensures
        r == is_builtin_name(cmd@),
{
    str_eq(cmd, "cd") || str_eq(cmd, "pwd") || str_eq(cmd, "set") || str_eq(cmd, "unset")
        || str_eq(cmd, "env") || str_eq(cmd, "help")
}

/// What running a builtin produced: output text, and possibly a request to
/// change the working directory.
pub struct BuiltinOutput {
    pub text: String,
    pub chdir: Option<String>,
}

/// The environment after `set` ran over `args`: each `NAME=value` argument
/// binds, arguments without `=` bind nothing.
pub open spec fn apply_set_env(
    args: Seq<Seq<char>>,
    env: Map<Seq<char>, Seq<char>>,
) -> Map<Seq<char>, Seq<char>>
    decreases args.len(),
{
    if args.len() == 0 {
        env
    } else {
        let e = apply_set_env(args.drop_last(), env);
        let a = args.last();
        let p = first_index_of(a, '=');
        if p >= 0 {
            e.insert(a.take(p), a.skip(p + 1))
        } else {
            e
        }
    }
}

/// What `set` writes: one complaint per argument without `=`.
pub open spec fn set_output(args: Seq<Seq<char>>) -> Seq<char>
    decreases args.len(),
{
    if args.len() == 0 {
        Seq::empty()
    } else {
        set_output(args.drop_last()) + (if first_index_of(args.last(), '=') >= 0 {
            Seq::<char>::empty()
        } else {
            "Invalid format: "@ + args.last() + "\n"@
        })
    }
}

/// The environment after `unset` ran over `args`.
pub open spec fn apply_unset_env(
    args: Seq<Seq<char>>,
    env: Map<Seq<char>, Seq<char>>,
) -> Map<Seq<char>, Seq<char>>
    decreases args.len(),
{
    if args.len() == 0 {
        env
    } else {
        apply_unset_env(args.drop_last(), env).remove(args.last())
    }
}

/// What `env` writes: one `NAME=value` line per binding, in stored order.
pub open spec fn env_listing(l: Seq<(Seq<char>, Seq<char>)>) -> Seq<char>
    decreases l.len(),
{
    if l.len() == 0 {
        Seq::empty()
    } else {
        env_listing(l.drop_last()) + l.last().0 + "="@ + l.last().1 + "\n"@
    }
}

/// What `help` writes.
pub open spec fn help_text() -> Seq<char> {
    "Built-ins: cd, pwd, set, unset, env, help\n"@
        + "Use '|' for pipelines, e.g. `ls | grep foo`.\n"@
        + "Use redirections < > >> 2> 2>>.\n"@ + "Supports quotes and environment expansion.\n"@
        + "Type 'exit' to quit.\n"@
}

/// What running the builtin named by `c.argv[0]` does: how the environment
/// changes, what text comes out, and whether a directory change is asked for.
pub open spec fn builtin_effect(
    c: CommandModel,
    cwd: Seq<char>,
    env0: Map<Seq<char>, Seq<char>>,
    env1: Map<Seq<char>, Seq<char>>,
    env_list: Seq<(Seq<char>, Seq<char>)>,
    text: Seq<char>,
    chd: Option<Seq<char>>,
) -> bool {
    let name = c.argv[0];
    let args = c.argv.drop_first();
    if name == "cd"@ {
        &&& env1 == env0
        &&& if args.len() == 0 {
            text == "Usage: cd <dir>\n"@ && chd is None
        } else {
            text == Seq::<char>::empty() && chd == Some(args[0])
        }
    } else if name == "pwd"@ {
        &&& env1 == env0
        &&& text == cwd + "\n"@
        &&& chd is None
    } else if name == "set"@ {
        &&& env1 == apply_set_env(args, env0)
        &&& text == set_output(args)
        &&& chd is None
    } else if name == "unset"@ {
        &&& env1 == apply_unset_env(args, env0)
        &&& text == Seq::<char>::empty()
        &&& chd is None
    } else if name == "env"@ {
        &&& env1 == env0
        &&& text == env_listing(env_list)
        &&& chd is None
    } else if name == "help"@ {
        &&& env1 == env0
        &&& text == help_text()
        &&& chd is None
    } else {
        &&& env1 == env0
        &&& text == "[builtin] not implemented?\n"@
        &&& chd is None
    }
}

/// Run one builtin stage against the environment and working directory.
pub fn run_builtin(c: &CommandSpec, env: &mut Environment, cwd: &String) -> (r: BuiltinOutput)
    requires
        c@.argv.len() >= 1,
        old(env).wf(),
    ensures
        final(env).wf(),
        builtin_effect(
            c@,
            cwd@,
            old(env)@,
            final(env)@,
            old(env).list(),
            r.text@,
            opt_view(r.chdir),
        ),
{
    let name = &c.argv[0];
    let ghost args = c@.argv.drop_first();
    proof {
        assert(args.len() == c@.argv.len() - 1);
        assert(forall|j: int| 0 <= j < args.len() ==> args[j] == c@.argv[j + 1]);
        assert(c@.argv[0] == c.argv@[0]@);
    }
    if str_eq(name.as_str(), "cd") {
        if c.argv.len() == 1 {
            BuiltinOutput { text: String::from_str("Usage: cd <dir>\n"), chdir: None }
        } else {
            BuiltinOutput { text: String::new(), chdir: Some(c.argv[1].clone()) }
        }
    } else if str_eq(name.as_str(), "pwd") {
        let mut text = String::new();
        text.append(cwd.as_str());
        text.append("\n");
        proof {
            assert(text@ =~= cwd@ + "\n"@);
        }
        BuiltinOutput { text, chdir: None }
    } else if str_eq(name.as_str(), "set") {
        let n: usize = c.argv.len();
        let mut text = String::new();
        let mut k: usize = 1;
        proof {
            assert(args.take(0) =~= Seq::<Seq<char>>::empty());
        }
        while k < n
            invariant
                old(env).wf(),
                env.wf(),
                n == c@.argv.len(),
                1 <= k <= n,
                args == c@.argv.drop_first(),
                env@ == apply_set_env(args.take(k - 1), old(env)@),
                text@ == set_output(args.take(k - 1)),
            decreases n - k,
        {
            let a = str_to_chars(c.argv[k].as_str());
            proof {
                assert(a@ == args[k - 1]);
                assert(args.take(k as int).drop_last() =~= args.take(k - 1));
                assert(args.take(k as int).last() == args[k - 1]);
            }
            match find_char(&a, '=') {
                Some(p) => {
                    let alen: usize = a.len();
                    let var_chars = subvec(&a, 0, p);
                    let val_chars = subvec(&a, p + 1, alen);
                    let var = chars_to_string(&var_chars);
                    let val = chars_to_string(&val_chars);
                    proof {
                        assert(var@ =~= a@.take(p as int));
                        assert(val@ =~= a@.skip(p + 1));
                    }
                    env.set_var(var, val);
                },
                None => {
                    text.append("Invalid format: ");
                    text.append(c.argv[k].as_str());
                    text.append("\n");
                    proof {
                        assert(text@ =~= set_output(args.take(k - 1)) + ("Invalid format: "@ + args[
                            k - 1] + "\n"@));
                    }
                },
            }
            k = k + 1;
        }
        proof {
            assert(args.take(n - 1) =~= args);
        }
        BuiltinOutput { text, chdir: None }
    } else if str_eq(name.as_str(), "unset") {
        let n: usize = c.argv.len();
        let mut k: usize = 1;
        proof {
            assert(args.take(0) =~= Seq::<Seq<char>>::empty());
        }
        while k < n
            invariant
                old(env).wf(),
                env.wf(),
                n == c@.argv.len(),
                1 <= k <= n,
                args == c@.argv.drop_first(),
                env@ == apply_unset_env(args.take(k - 1), old(env)@),
            decreases n - k,
        {
            proof {
                assert(c.argv@[k as int]@ == args[k - 1]);
                assert(args.take(k as int).drop_last() =~= args.take(k - 1));
                assert(args.take(k as int).last() == args[k - 1]);
            }
            env.unset_var(&c.argv[k]);
            k = k + 1;
        }
        proof {
            assert(args.take(n - 1) =~= args);
        }
        BuiltinOutput { text: String::new(), chdir: None }
    } else if str_eq(name.as_str(), "env") {
        let n: usize = env.len();
        let mut text = String::new();
        let mut k: usize = 0;
        proof {
            assert(env.list().take(0) =~= Seq::<(Seq<char>, Seq<char>)>::empty());
        }
        while k < n
            invariant
                n == env.list().len(),
                k <= n,
                env.wf(),
                env@ == old(env)@,
                env.list() == old(env).list(),
                text@ == env_listing(env.list().take(k as int)),
            decreases n - k,
        {
            let entry = env.entry_at(k);
            text.append(entry.0.as_str());
            text.append("=");
            text.append(entry.1.as_str());
            text.append("\n");
            proof {
                assert(env.list().take(k + 1).drop_last() =~= env.list().take(k as int));
                assert(env.list().take(k + 1).last() == env.list()[k as int]);
                assert(text@ =~= env_listing(env.list().take(k as int)) + env.list()[k as int].0
                    + "="@ + env.list()[k as int].1 + "\n"@);
            }
            k = k + 1;
        }
        proof {
            assert(env.list().take(n as int) =~= env.list());
        }
        BuiltinOutput { text, chdir: None }
    } else if str_eq(name.as_str(), "help") {
        let mut text = String::new();
        text.append("Built-ins: cd, pwd, set, unset, env, help\n");
        text.append("Use '|' for pipelines, e.g. `ls | grep foo`.\n");
        text.append("Use redirections < > >> 2> 2>>.\n");
        text.append("Supports quotes and environment expansion.\n");
        text.append("Type 'exit' to quit.\n");
        BuiltinOutput { text, chdir: None }
    } else {
        BuiltinOutput { text: String::from_str("[builtin] not implemented?\n"), chdir: None }
    }
}

} // verus!
