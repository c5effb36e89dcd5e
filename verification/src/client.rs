//! The peer-side helpers: spotting an output redirection in a typed line,
//! capturing server output up to the prompt, building `EXEC_UPLOAD` command
//! lines, and encoding relayed signals.

use vstd::prelude::*;

use crate::expand::string_views;
use crate::registry::SignalKind;
use crate::text::{
    chars_eq, chars_to_string, chars_views, has_match, match_at, rfind, split_ws, str_to_chars,
    subvec, ws_tokens,
};
use crate::transfer::{dec_digits, format_u64};

verus! {

/// Index of the first `>` or `>>` word at or after `i`, or -1.
pub open spec fn first_redirect_index(parts: Seq<Seq<char>>, i: int) -> int
    decreases parts.len() - i,
{
    if i < 0 || i >= parts.len() {
        -1
    } else if parts[i] == ">"@ || parts[i] == ">>"@ {
        i
    } else {
        first_redirect_index(parts, i + 1)
    }
}

/// The words joined back with single spaces.
pub open spec fn join_spaces(parts: Seq<Seq<char>>) -> Seq<char>
    decreases parts.len(),
{
    if parts.len() == 0 {
        Seq::empty()
    } else if parts.len() == 1 {
        parts[0]
    } else {
        join_spaces(parts.drop_last()) + seq![' '] + parts.last()
    }
}

/// What a redirected line splits into: the command before the first `>` or
/// `>>` word, that operator, and the file name after it.  A line whose
/// first redirection word leads it, ends it, or is missing has no split.
pub open spec fn spec_parse_redirect(line: Seq<char>) -> Option<
    (Seq<char>, Seq<char>, Seq<char>),
> {
    let parts = ws_tokens(line);
    let i = first_redirect_index(parts, 0);
    if i <= 0 || i + 1 >= parts.len() {
        None
    } else {
        Some((join_spaces(parts.take(i)), parts[i], parts[i + 1]))
    }
}

/// Find an output redirection (`>` or `>>`) among the whitespace-separated
/// words of a line; give back the command before it, the operator, and the
/// target file name.
pub fn parse_redirect(line: &str) -> (r: Option<(String, String, String)>)
    ensures
        match r {
            Some(t) => spec_parse_redirect(line@) == Some((t.0@, t.1@, t.2@)),
            None => spec_parse_redirect(line@) is None,
        },
{
    let chars = str_to_chars(line);
    let parts = split_ws(&chars);
    let out_word = str_to_chars(">");
    let append_word = str_to_chars(">>");
    let n: usize = parts.len();
    let mut i: usize = 0;
    proof {
        assert(chars_views(parts@) == ws_tokens(line@));
    }
    while i < n
        invariant
            n == parts@.len(),
            i <= n,
            chars_views(parts@) == ws_tokens(line@),
            out_word@ == ">"@,
            append_word@ == ">>"@,
            first_redirect_index(chars_views(parts@), 0) == first_redirect_index(
                chars_views(parts@),
                i as int,
            ),
        decreases n - i,
    {
        proof {
            assert(chars_views(parts@)[i as int] == parts@[i as int]@);
        }
        if chars_eq(&parts[i], &out_word) || chars_eq(&parts[i], &append_word) {
            if i == 0 || i + 1 >= n {
                return None;
            }
            proof {
                assert(chars_views(parts@)[i + 1] == parts@[i + 1]@);
            }
            let op = chars_to_string(&parts[i]);
            let file = chars_to_string(&parts[i + 1]);
            let command = join_words(&parts, i);
            return Some((command, op, file));
        }
        i = i + 1;
    }
    None
}

/// Join the first `upto` words with single spaces.
fn join_words(parts: &Vec<Vec<char>>, upto: usize) -> (r: String)
    requires
        upto <= parts@.len(),
    ensures
        r@ == join_spaces(chars_views(parts@).take(upto as int)),
{
    let mut out: Vec<char> = Vec::new();
    let mut k: usize = 0;
    proof {
        assert(out@ =~= join_spaces(chars_views(parts@).take(0)));
    }
    while k < upto
        invariant
            upto <= parts@.len(),
            k <= upto,
            out@ == join_spaces(chars_views(parts@).take(k as int)),
        decreases upto - k,
    {
        if k > 0 {
            out.push(' ');
        }
        crate::text::push_all(&mut out, &parts[k]);
        proof {
            let cv = chars_views(parts@);
            assert(cv[k as int] == parts@[k as int]@);
            assert(cv.take(k + 1).drop_last() =~= cv.take(k as int));
            assert(cv.take(k + 1).last() == cv[k as int]);
            if k == 0 {
                assert(out@ =~= join_spaces(cv.take(1)));
            } else {
                assert(out@ =~= join_spaces(cv.take(k as int)) + seq![' '] + cv[k as int]);
            }
        }
        k = k + 1;
    }
    chars_to_string(&out)
}

/// `out` is `buf` cut at the last occurrence of `marker`.
pub open spec fn cut_at_last(buf: Seq<char>, marker: Seq<char>, out: Seq<char>) -> bool {
    exists|i: int|
        #![auto]
        match_at(buf, marker, i) && out == buf.take(i) && (forall|j: int|
            j > i ==> !match_at(buf, marker, j))
}

/// Once the received text holds a prompt marker (`bash> ` or `PS> `), give
/// back everything before the last marker; until then, more must be read.
pub fn capture_until_prompt(buffer: &str) -> (r: Option<String>)
    ensures
        (r is Some) == (has_match(buffer@, "bash> "@) || has_match(buffer@, "PS> "@)),
        r is Some && has_match(buffer@, "bash> "@) ==> cut_at_last(buffer@, "bash> "@, r->0@),
        r is Some && !has_match(buffer@, "bash> "@) ==> cut_at_last(buffer@, "PS> "@, r->0@),
{
    let chars = str_to_chars(buffer);
    let bash = str_to_chars("bash> ");
    let ps = str_to_chars("PS> ");
    match rfind(&chars, &bash) {
        Some(i) => {
            let head = subvec(&chars, 0, i);
            proof {
                assert(head@ =~= buffer@.take(i as int));
            }
            Some(chars_to_string(&head))
        },
        None => match rfind(&chars, &ps) {
            Some(i) => {
                let head = subvec(&chars, 0, i);
                proof {
                    assert(head@ =~= buffer@.take(i as int));
                }
                Some(chars_to_string(&head))
            },
            None => None,
        },
    }
}

/// What the peer does with one typed line.
pub enum ClientAction {
    WriteToFile { command: String, file: String, append: bool },
    ExecUpload { path: String, args: Vec<String> },
    ExecUsage,
    Plain,
}

/// Classify a typed line: a line with an output redirection has its output
/// captured to a file; `exec <path> [args...]` uploads and runs a local
/// binary; anything else goes to the server as it stands.
pub fn classify_client_line(line: &str) -> (r: ClientAction)
    ensures
        match r {
            ClientAction::WriteToFile { command, file, append } => spec_parse_redirect(line@)
                matches Some(t) && t.0 == command@ && t.2 == file@ && append == (t.1 == ">>"@),
            ClientAction::ExecUpload { path, args } => {
                let ws = ws_tokens(line@);
                &&& spec_parse_redirect(line@) is None
                &&& ws.len() >= 2
                &&& ws[0] == "exec"@
                &&& path@ == ws[1]
                &&& string_views(args@) == ws.skip(2)
            },
            ClientAction::ExecUsage => {
                let ws = ws_tokens(line@);
                &&& spec_parse_redirect(line@) is None
                &&& ws.len() == 1
                &&& ws[0] == "exec"@
            },
            ClientAction::Plain => {
                let ws = ws_tokens(line@);
                &&& spec_parse_redirect(line@) is None
                &&& !(ws.len() >= 1 && ws[0] == "exec"@)
            },
        },
{
    match parse_redirect(line) {
        Some(t) => {
            let append = crate::text::str_eq(t.1.as_str(), ">>");
            ClientAction::WriteToFile { command: t.0, file: t.2, append }
        },
        None => {
            let chars = str_to_chars(line);
            let parts = split_ws(&chars);
            proof {
                assert(chars_views(parts@) == ws_tokens(line@));
            }
            if parts.len() == 0 {
                return ClientAction::Plain;
            }
            proof {
                assert(chars_views(parts@)[0] == parts@[0]@);
            }
            let exec_word = str_to_chars("exec");
            if chars_eq(&parts[0], &exec_word) {
                if parts.len() == 1 {
                    ClientAction::ExecUsage
                } else {
                    proof {
                        assert(chars_views(parts@)[1] == parts@[1]@);
                    }
                    let path = chars_to_string(&parts[1]);
                    let mut args: Vec<String> = Vec::new();
                    let m: usize = parts.len();
                    let mut k: usize = 2;
                    proof {
                        assert(string_views(args@) =~= chars_views(parts@).skip(2).take(0));
                    }
                    while k < m
                        invariant
                            m == parts@.len(),
                            2 <= k <= m,
                            string_views(args@) == chars_views(parts@).skip(2).take(k - 2),
                        decreases m - k,
                    {
                        let a = chars_to_string(&parts[k]);
                        let ghost before = string_views(args@);
                        args.push(a);
                        proof {
                            assert(chars_views(parts@)[k as int] == parts@[k as int]@);
                            assert(string_views(args@) =~= before.push(parts@[k as int]@));
                            assert(chars_views(parts@).skip(2).take(k + 1 - 2) =~= before.push(
                                chars_views(parts@).skip(2)[k - 2],
                            ));
                        }
                        k = k + 1;
                    }
                    proof {
                        assert(chars_views(parts@).skip(2).take(m - 2) =~= chars_views(
                            parts@,
                        ).skip(2));
                    }
                    ClientAction::ExecUpload { path, args }
                }
            } else {
                ClientAction::Plain
            }
        },
    }
}

/// The words appended after the size on an `EXEC_UPLOAD` line.
pub open spec fn args_with_spaces(args: Seq<Seq<char>>) -> Seq<char>
    decreases args.len(),
{
    if args.len() == 0 {
        Seq::empty()
    } else {
        args_with_spaces(args.drop_last()) + seq![' '] + args.last()
    }
}

/// The `EXEC_UPLOAD` command line announcing a binary of `size` bytes.
pub open spec fn exec_upload_line(name: Seq<char>, size: nat, args: Seq<Seq<char>>) -> Seq<char> {
    "EXEC_UPLOAD "@ + name + seq![' '] + dec_digits(size) + args_with_spaces(args)
}

/// Build the `EXEC_UPLOAD` command line for a binary and its arguments.
pub fn build_exec_upload_line(name: &str, size: u64, args: &Vec<String>) -> (r: String)
    ensures
        r@ == exec_upload_line(name@, size as nat, string_views(args@)),
{
    let mut out = String::from_str("EXEC_UPLOAD ");
    out.append(name);
    out.append(" ");
    let digits = format_u64(size);
    out.append(digits.as_str());
    let n: usize = args.len();
    let mut k: usize = 0;
    proof {
        assert(" "@ =~= seq![' ']) by {
            reveal_strlit(" ");
        }
        assert(args_with_spaces(string_views(args@).take(0)) =~= Seq::<char>::empty());
        assert(out@ =~= "EXEC_UPLOAD "@ + name@ + seq![' '] + dec_digits(size as nat)
            + args_with_spaces(string_views(args@).take(0)));
    }
    while k < n
        invariant
            n == args@.len(),
            k <= n,
            out@ == "EXEC_UPLOAD "@ + name@ + seq![' '] + dec_digits(size as nat)
                + args_with_spaces(string_views(args@).take(k as int)),
        decreases n - k,
    {
        out.append(" ");
        out.append(args[k].as_str());
        proof {
            let sv = string_views(args@);
            assert(" "@ =~= seq![' ']) by {
                reveal_strlit(" ");
            }
            assert(sv.take(k + 1).drop_last() =~= sv.take(k as int));
            assert(sv.take(k + 1).last() == sv[k as int]);
            assert(sv[k as int] == args@[k as int]@);
            assert(out@ =~= "EXEC_UPLOAD "@ + name@ + seq![' '] + dec_digits(size as nat)
                + args_with_spaces(sv.take(k + 1)));
        }
        k = k + 1;
    }
    proof {
        assert(string_views(args@).take(n as int) =~= string_views(args@));
    }
    out
}

/// The control line relaying a captured local signal upstream.
pub fn signal_message(k: SignalKind) -> (r: String)
    ensures
        k == SignalKind::Interrupt ==> r@ == "SIGNAL INTERRUPT\n"@,
        k == SignalKind::Suspend ==> r@ == "SIGNAL SUSPEND\n"@,
{
    match k {
        SignalKind::Interrupt => String::from_str("SIGNAL INTERRUPT\n"),
        SignalKind::Suspend => String::from_str("SIGNAL SUSPEND\n"),
    }
}

} // verus!
