//! Planning how one pipeline stage is spawned: where each standard stream is
//! wired, and how the command name resolves to a program path.
//!
//! The plan is computed here and carried out by the unverified shell around
//! the crate; only the filesystem probe for a candidate path is an outside
//! call.

use vstd::prelude::*;

use crate::pipeline::CommandSpec;
use crate::platform::{
    path_component_separator, path_list_separator, spec_path_component_separator,
    spec_path_list_separator, Platform,
};
use crate::text::{chars_to_string, chars_views, contains_char, push_all, split_chars,
    split_on_char, str_to_chars, subvec};

verus! {

/// Where a stage's standard input comes from.
pub enum StdinSource {
    Piped,
    FromFile(String),
    Inherit,
}

/// Where a stage's standard output or standard error goes.
pub enum OutputSink {
    CreateTruncate(String),
    CreateAppend(String),
    Piped,
}

/// Standard input: the previous stage's output if there is one, else the
/// stage's input redirection, else the caller's own standard input.
pub fn stdin_plan(c: &CommandSpec, has_prev: bool) -> (r: StdinSource)
    ensures
        match r {
            StdinSource::Piped => has_prev,
            StdinSource::FromFile(f) => !has_prev && c@.redirect_in == Some(f@),
            StdinSource::Inherit => !has_prev && c@.redirect_in is None,
        },
{
    if has_prev {
        StdinSource::Piped
    } else {
        match &c.redirect_in {
            Some(f) => StdinSource::FromFile(f.clone()),
            None => StdinSource::Inherit,
        }
    }
}

/// Standard output: a truncating redirection wins over an appending one set
/// at the same time; with neither, the output is piped.
pub fn stdout_plan(c: &CommandSpec) -> (r: OutputSink)
    ensures
        c@.redirect_out is Some ==> r == OutputSink::CreateTruncate(c.redirect_out->0),
        match r {
            OutputSink::CreateTruncate(f) => c@.redirect_out == Some(f@),
            OutputSink::CreateAppend(f) => c@.redirect_out is None && c@.redirect_out_append
                == Some(f@),
            OutputSink::Piped => c@.redirect_out is None && c@.redirect_out_append is None,
        },
{
    match &c.redirect_out {
        Some(f) => OutputSink::CreateTruncate(f.clone()),
        None => match &c.redirect_out_append {
            Some(f) => OutputSink::CreateAppend(f.clone()),
            None => OutputSink::Piped,
        },
    }
}

/// Standard error, with the same truncate-over-append tie-break.
pub fn stderr_plan(c: &CommandSpec) -> (r: OutputSink)
    ensures
        c@.redirect_err is Some ==> r == OutputSink::CreateTruncate(c.redirect_err->0),
        match r {
            OutputSink::CreateTruncate(f) => c@.redirect_err == Some(f@),
            OutputSink::CreateAppend(f) => c@.redirect_err is None && c@.redirect_err_append
                == Some(f@),
            OutputSink::Piped => c@.redirect_err is None && c@.redirect_err_append is None,
        },
{
    match &c.redirect_err {
        Some(f) => OutputSink::CreateTruncate(f.clone()),
        None => match &c.redirect_err_append {
            Some(f) => OutputSink::CreateAppend(f.clone()),
            None => OutputSink::Piped,
        },
    }
}

/// A command name holding a path separator is used as a path directly.
pub open spec fn has_path_separator(s: Seq<char>) -> bool {
    s.contains('/') || s.contains('\\')
}

/// Joining a directory and a file name, as pushing onto a path does.
pub open spec fn path_join(dir: Seq<char>, name: Seq<char>, sep: char) -> Seq<char> {
    if dir.len() == 0 {
        name
    } else if dir.last() == sep {
        dir + name
    } else {
        dir + seq![sep] + name
    }
}

/// `p` is a path that resolving `cmd` against `path_value` may produce: the
/// command itself when it holds a path separator, else some search-path
/// entry joined with the command name.
pub open spec fn resolved_candidate(
    cmd: Seq<char>,
    path_value: Seq<char>,
    plat: Platform,
    p: Seq<char>,
) -> bool {
    if has_path_separator(cmd) {
        p == cmd
    } else {
        exists|i: int|
            #![auto]
            0 <= i < split_on_char(path_value, spec_path_list_separator(plat)).len() && p
                == path_join(
                split_on_char(path_value, spec_path_list_separator(plat))[i],
                cmd,
                spec_path_component_separator(plat),
            )
    }
}

/// Relies on `nix::unistd::access` with `F_OK`: whether the path names an
/// existing filesystem entry.  The answer depends on the filesystem, so
/// nothing is promised of it.
#[verifier::external_body]
fn path_exists(p: &String) -> bool {
    nix::unistd::access(p.as_str(), nix::unistd::AccessFlags::F_OK).is_ok()
}

/// Join a directory and a file name.
fn join_path(dir: &Vec<char>, name: &Vec<char>, sep: char) -> (r: Vec<char>)
    ensures
        r@ == path_join(dir@, name@, sep),
{
    if dir.len() == 0 {
        subvec(name, 0, name.len())
    } else if dir[dir.len() - 1] == sep {
        let mut r = subvec(dir, 0, dir.len());
        push_all(&mut r, name);
        proof {
            assert(name@.subrange(0, name@.len() as int) =~= name@);
            assert(dir@.subrange(0, dir@.len() as int) =~= dir@);
        }
        r
    } else {
        let mut r = subvec(dir, 0, dir.len());
        r.push(sep);
        push_all(&mut r, name);
        proof {
            assert(name@.subrange(0, name@.len() as int) =~= name@);
            assert(dir@.subrange(0, dir@.len() as int) =~= dir@);
            assert(dir@.push(sep) =~= dir@ + seq![sep]);
            assert(r@ =~= dir@ + seq![sep] + name@);
        }
        r
    }
}

/// Resolve a command name to a program path: a name holding a path separator
/// must exist as given; any other name is searched for along the entries of
/// `path_value`, first hit wins.  `None` when no candidate exists.
pub fn resolve_in_path(cmd: &String, path_value: &String, plat: Platform) -> (r: Option<String>)
    ensures
        match r {
            Some(p) => resolved_candidate(cmd@, path_value@, plat, p@),
            None => true,
        },
{
    let cmd_chars = str_to_chars(cmd.as_str());
    if contains_char(&cmd_chars, '/') || contains_char(&cmd_chars, '\\') {
        if path_exists(cmd) {
            return Some(cmd.clone());
        }
        return None;
    }
    let sep = path_list_separator(plat);
    let comp = path_component_separator(plat);
    let path_chars = str_to_chars(path_value.as_str());
    let dirs = split_chars(&path_chars, sep);
    let n: usize = dirs.len();
    let mut i: usize = 0;
    while i < n
        invariant
            n == dirs@.len(),
            i <= n,
            chars_views(dirs@) == split_on_char(path_value@, spec_path_list_separator(plat)),
            cmd_chars@ == cmd@,
            !has_path_separator(cmd@),
            comp == spec_path_component_separator(plat),
        decreases n - i,
    {
        let candidate_chars = join_path(&dirs[i], &cmd_chars, comp);
        let candidate = chars_to_string(&candidate_chars);
        if path_exists(&candidate) {
            proof {
                assert(chars_views(dirs@)[i as int] == dirs@[i as int]@);
            }
            return Some(candidate);
        }
        i = i + 1;
    }
    None
}

} // verus!
