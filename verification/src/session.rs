//! The per-connection session protocol: greeting, prompting, and the
//! dispatch of each received line to a builtin, a transfer handshake, the
//! signal relay, the terminal bridge or the pipeline executor.
//!
//! The session's decisions are all here; the surrounding shell performs the
//! reads, writes and spawns they call for.  Only `exit` (or the peer going
//! away) closes a session: a failed parse, a failed resolution or a signal
//! with no target only writes a report and prompts again.

use vstd::prelude::*;

use crate::environ::Environment;
use crate::expand::{expansion_of, string_views};
use crate::lexer::{spec_lex, ParseFault, TokenModel};
use crate::pipeline::{
    handle_line, pipeline_views, spec_parse_pipeline, CommandModel, CommandSpec,
};
use crate::platform::{os_name, Platform};
use crate::text::{
    chars_eq, chars_to_string, chars_views, nocase_eq, spec_trim, split_ws, str_to_chars,
    trim_spaces, ws_tokens,
};
use crate::transfer::{parse_exec_upload, spec_parse_exec_upload, ExecUploadRequest};

verus! {

/// The states of one session.
#[derive(Clone, Copy, PartialEq, Eq, Structural, Debug)]
pub enum SessionState {
    Greeting,
    Prompting,
    AwaitingLine,
    Dispatching,
    Closed,
}

/// What kind of line was received, before any pipeline parsing.
pub enum LineClass {
    Exit,
    Empty,
    Upload(Seq<char>),
    Download(Seq<char>),
    ExecDetached(Seq<char>, Seq<Seq<char>>),
    ExecUpload(Seq<char>, u64, Seq<Seq<char>>),
    BadExecUpload,
    Signal(Seq<char>),
    SessionBuiltin(Seq<char>, Seq<Seq<char>>),
    Command,
}

/// The builtins the session answers without spawning anything.
pub open spec fn is_session_builtin(s: Seq<char>) -> bool {
    ||| s == "help"@
    ||| s == "pwd"@
    ||| s == "ls"@
    ||| s == "cd"@
    ||| s == "sysinfo"@
    ||| s == "clear"@
    ||| s == "version"@
}

/// Classify a received line by its first word.
pub open spec fn spec_classify(line: Seq<char>) -> LineClass {
    let t = spec_trim(line);
    let ws = ws_tokens(t);
    if t.len() == 0 {
        LineClass::Empty
    } else if nocase_eq(t, "exit"@) {
        LineClass::Exit
    } else if ws.len() >= 2 && ws[0] == "upload"@ {
        LineClass::Upload(ws[1])
    } else if ws.len() >= 2 && ws[0] == "download"@ {
        LineClass::Download(ws[1])
    } else if ws.len() >= 2 && ws[0] == "exec"@ {
        LineClass::ExecDetached(ws[1], ws.skip(2))
    } else if ws.len() >= 1 && ws[0] == "EXEC_UPLOAD"@ {
        match spec_parse_exec_upload(t) {
            Some((nm, sz, args)) => LineClass::ExecUpload(nm, sz, args),
            None => LineClass::BadExecUpload,
        }
    } else if ws.len() >= 1 && ws[0] == "SIGNAL"@ {
        LineClass::Signal(
            if ws.len() >= 2 {
                ws[1]
            } else {
                Seq::empty()
            },
        )
    } else if ws.len() >= 1 && is_session_builtin(ws[0]) {
        LineClass::SessionBuiltin(ws[0], ws.skip(1))
    } else {
        LineClass::Command
    }
}

/// A command asks for the terminal bridge: a lone stage whose program is on
/// the interactive list (compared without regard to ASCII case), or, on the
/// POSIX target, `sudo` or `su`, whose password prompt must reach the peer.
pub open spec fn wants_pty(
    c: CommandModel,
    interactive: Seq<Seq<char>>,
    plat: Platform,
) -> bool {
    c.argv.len() > 0 && ((exists|i: int|
        0 <= i < interactive.len() && nocase_eq(c.argv[0], interactive[i])) || (plat
        == Platform::Posix && (nocase_eq(c.argv[0], "sudo"@) || nocase_eq(c.argv[0], "su"@))))
}

/// The interactive programs bridged through a terminal by default.
pub fn default_interactive_commands() -> (r: Vec<String>)
    ensures
        string_views(r@) == seq!["vim"@, "nano"@, "less"@, "more"@, "sudo"@, "vi"@],
{
    let mut r: Vec<String> = Vec::new();
    r.push(String::from_str("vim"));
    r.push(String::from_str("nano"));
    r.push(String::from_str("less"));
    r.push(String::from_str("more"));
    r.push(String::from_str("sudo"));
    r.push(String::from_str("vi"));
    proof {
        assert(string_views(r@) =~= seq!["vim"@, "nano"@, "less"@, "more"@, "sudo"@, "vi"@]);
    }
    r
}

/// Whether the stage's program is on the interactive list, or is `sudo` or
/// `su` on the POSIX target.
pub fn is_interactive_command(c: &CommandSpec, interactive: &Vec<String>, plat: Platform) -> (r:
    bool)
    ensures
        r == wants_pty(c@, string_views(interactive@), plat),
{
    if c.argv.len() == 0 {
        return false;
    }
    let name = str_to_chars(c.argv[0].as_str());
    let n: usize = interactive.len();
    let mut i: usize = 0;
    proof {
        assert(c@.argv[0] == name@);
    }
    while i < n
        invariant
            n == interactive@.len(),
            i <= n,
            name@ == c@.argv[0],
            c@.argv.len() > 0,
            forall|j: int|
                0 <= j < i ==> !nocase_eq(c@.argv[0], string_views(interactive@)[j]),
        decreases n - i,
    {
        let entry = str_to_chars(interactive[i].as_str());
        if crate::text::chars_eq_nocase(&name, &entry) {
            proof {
                assert(string_views(interactive@)[i as int] == interactive@[i as int]@);
                assert(nocase_eq(c@.argv[0], string_views(interactive@)[i as int]));
            }
            return true;
        }
        proof {
            assert(string_views(interactive@)[i as int] == interactive@[i as int]@);
        }
        i = i + 1;
    }
    match plat {
        Platform::Posix => {
            let sudo = str_to_chars("sudo");
            let su = str_to_chars("su");
            let r1 = crate::text::chars_eq_nocase(&name, &sudo);
            let r2 = crate::text::chars_eq_nocase(&name, &su);
            r1 || r2
        },
        Platform::Windows => false,
    }
}

/// What the dispatcher decided for one received line.
pub enum DispatchAction {
    CloseSession,
    Prompt,
    Upload(String),
    Download(String),
    ExecDetached(String, Vec<String>),
    ExecUpload(ExecUploadRequest),
    BadExecUpload,
    Signal(String),
    SessionBuiltin(String, Vec<String>),
    Pty(CommandSpec),
    RunPipeline(Vec<CommandSpec>),
    ParseFailure(ParseFault),
}

/// Turn a list of character vectors into strings.
fn strings_of(vs: &Vec<Vec<char>>, from: usize) -> (r: Vec<String>)
    requires
        from <= vs@.len(),
    ensures
        string_views(r@) == chars_views(vs@).skip(from as int),
{
    let n: usize = vs.len();
    let mut r: Vec<String> = Vec::new();
    let mut k: usize = from;
    proof {
        assert(string_views(r@) =~= chars_views(vs@).skip(from as int).take(0));
    }
    while k < n
        invariant
            n == vs@.len(),
            from <= k <= n,
            string_views(r@) == chars_views(vs@).skip(from as int).take(k - from),
        decreases n - k,
    {
        let s = chars_to_string(&vs[k]);
        let ghost before = string_views(r@);
        r.push(s);
        proof {
            assert(chars_views(vs@)[k as int] == vs@[k as int]@);
            assert(string_views(r@) =~= before.push(vs@[k as int]@));
            assert(chars_views(vs@).skip(from as int).take(k + 1 - from) =~= before.push(
                chars_views(vs@).skip(from as int)[k - from],
            ));
        }
        k = k + 1;
    }
    proof {
        assert(chars_views(vs@).skip(from as int).take(n - from) =~= chars_views(vs@).skip(
            from as int,
        ));
    }
    r
}

/// Dispatch one received line: recognise `exit`, empty lines, the transfer
/// and signal keywords and the session builtins; anything else is tokenized
/// and parsed, and a lone interactive stage is sent to the terminal bridge.
pub fn dispatch_line(
    line: &str,
    env: &Environment,
    interactive: &Vec<String>,
    plat: Platform,
) -> (r: DispatchAction)
    requires
        env.wf(),
    ensures
        match r {
            DispatchAction::CloseSession => spec_classify(line@) is Exit,
            DispatchAction::Prompt => spec_classify(line@) is Empty,
            DispatchAction::Upload(name) => spec_classify(line@) == LineClass::Upload(name@),
            DispatchAction::Download(name) => spec_classify(line@) == LineClass::Download(name@),
            DispatchAction::ExecDetached(path, args) => spec_classify(line@)
                == LineClass::ExecDetached(path@, string_views(args@)),
            DispatchAction::ExecUpload(req) => spec_classify(line@) == LineClass::ExecUpload(
                req.name@,
                req.size,
                string_views(req.args@),
            ),
            DispatchAction::BadExecUpload => spec_classify(line@) is BadExecUpload,
            DispatchAction::Signal(name) => spec_classify(line@) == LineClass::Signal(name@),
            DispatchAction::SessionBuiltin(name, args) => spec_classify(line@)
                == LineClass::SessionBuiltin(name@, string_views(args@)),
            DispatchAction::Pty(c) => spec_classify(line@) is Command && wants_pty(
                c@,
                string_views(interactive@),
                plat,
            ) && exists|ts: Seq<TokenModel>|
                {
                    &&& spec_lex(spec_trim(line@)) is Some
                    &&& #[trigger] expansion_of(spec_lex(spec_trim(line@))->0, env@, ts)
                    &&& spec_parse_pipeline(ts) == Ok::<Seq<CommandModel>, ParseFault>(seq![c@])
                },
            DispatchAction::RunPipeline(p) => spec_classify(line@) is Command && !(p@.len() == 1
                && wants_pty(p@[0]@, string_views(interactive@), plat)) && exists|
                ts: Seq<TokenModel>,
            |
                {
                    &&& spec_lex(spec_trim(line@)) is Some
                    &&& #[trigger] expansion_of(spec_lex(spec_trim(line@))->0, env@, ts)
                    &&& spec_parse_pipeline(ts) == Ok::<Seq<CommandModel>, ParseFault>(
                        pipeline_views(p@),
                    )
                },
            DispatchAction::ParseFailure(f) => spec_classify(line@) is Command && ((f
                == ParseFault::UnterminatedQuote && spec_lex(spec_trim(line@)) is None) || exists|
                ts: Seq<TokenModel>,
            |
                {
                    &&& spec_lex(spec_trim(line@)) is Some
                    &&& #[trigger] expansion_of(spec_lex(spec_trim(line@))->0, env@, ts)
                    &&& spec_parse_pipeline(ts) == Err::<Seq<CommandModel>, ParseFault>(f)
                }),
        },
{
    let chars = str_to_chars(line);
    let trimmed = trim_spaces(&chars);
    let ws = split_ws(&trimmed);
    let exit_word = str_to_chars("exit");
    if trimmed.len() == 0 {
        return DispatchAction::Prompt;
    }
    if crate::text::chars_eq_nocase(&trimmed, &exit_word) {
        return DispatchAction::CloseSession;
    }
    proof {
        assert(chars_views(ws@) == ws_tokens(spec_trim(line@)));
        crate::text::lemma_trim_starts_non_space(line@);
        crate::text::lemma_ws_tokens_nonempty(spec_trim(line@));
        assert(ws@.len() >= 1);
    }
    if ws.len() >= 2 {
        let first = &ws[0];
        proof {
            assert(chars_views(ws@)[0] == ws@[0]@);
            assert(chars_views(ws@)[1] == ws@[1]@);
        }
        let upload_word = str_to_chars("upload");
        if chars_eq(first, &upload_word) {
            return DispatchAction::Upload(chars_to_string(&ws[1]));
        }
        let download_word = str_to_chars("download");
        if chars_eq(first, &download_word) {
            return DispatchAction::Download(chars_to_string(&ws[1]));
        }
        let exec_word = str_to_chars("exec");
        if chars_eq(first, &exec_word) {
            let path = chars_to_string(&ws[1]);
            let args = strings_of(&ws, 2);
            return DispatchAction::ExecDetached(path, args);
        }
    }
    {
        let first = &ws[0];
        proof {
            assert(chars_views(ws@)[0] == ws@[0]@);
        }
        let tag = str_to_chars("EXEC_UPLOAD");
        if chars_eq(first, &tag) {
            let t = chars_to_string(&trimmed);
            match parse_exec_upload(t.as_str()) {
                Some(req) => {
                    return DispatchAction::ExecUpload(req);
                },
                None => {
                    return DispatchAction::BadExecUpload;
                },
            }
        }
        let sig = str_to_chars("SIGNAL");
        if chars_eq(first, &sig) {
            if ws.len() >= 2 {
                proof {
                    assert(chars_views(ws@)[1] == ws@[1]@);
                }
                return DispatchAction::Signal(chars_to_string(&ws[1]));
            }
            return DispatchAction::Signal(String::new());
        }
        if session_builtin_word(first) {
            let name = chars_to_string(first);
            let args = strings_of(&ws, 1);
            return DispatchAction::SessionBuiltin(name, args);
        }
    }
    let trimmed_text = chars_to_string(&trimmed);
    match handle_line(trimmed_text.as_str(), env) {
        Err(f) => DispatchAction::ParseFailure(f),
        Ok(p) => {
            if p.len() == 1 && is_interactive_command(&p[0], interactive, plat) {
                let ghost pv = pipeline_views(p@);
                let mut p2 = p;
                let c = p2.pop().unwrap();
                proof {
                    assert(c == p@.last());
                    assert(pv[0] == p@[0]@);
                    assert(pv =~= seq![c@]);
                }
                DispatchAction::Pty(c)
            } else {
                DispatchAction::RunPipeline(p)
            }
        },
    }
}

/// Whether the word names a session builtin.
fn session_builtin_word(w: &Vec<char>) -> (r: bool)
    ensures
        r == is_session_builtin(w@),
{
    let a = str_to_chars("help");
    let b = str_to_chars("pwd");
    let c = str_to_chars("ls");
    let d = str_to_chars("cd");
    let e = str_to_chars("sysinfo");
    let f = str_to_chars("clear");
    let g = str_to_chars("version");
    chars_eq(w, &a) || chars_eq(w, &b) || chars_eq(w, &c) || chars_eq(w, &d) || chars_eq(w, &e)
        || chars_eq(w, &f) || chars_eq(w, &g)
}

/// The state the session enters after carrying out a dispatch decision:
/// only `exit` closes it; every other line, however it fared, prompts again.
pub fn next_state(a: &DispatchAction) -> (s: SessionState)
    ensures
        s == SessionState::Closed <==> a is CloseSession,
        a is CloseSession || s == SessionState::Prompting,
{
    match a {
        DispatchAction::CloseSession => SessionState::Closed,
        _ => SessionState::Prompting,
    }
}

/// The two greeting lines: the platform identifier, then the banner.
pub fn greeting_lines(plat: Platform, banner: &str) -> (r: (String, String))
    ensures
        r.0@ == "SERVER_OS: "@ + crate::platform::spec_os_name(plat) + "\n"@,
        r.1@ == "BANNER: "@ + banner@ + "\n"@,
{
    let mut first = String::from_str("SERVER_OS: ");
    first.append(os_name(plat));
    first.append("\n");
    let mut second = String::from_str("BANNER: ");
    second.append(banner);
    second.append("\n");
    proof {
        assert(first@ =~= "SERVER_OS: "@ + crate::platform::spec_os_name(plat) + "\n"@);
        assert(second@ =~= "BANNER: "@ + banner@ + "\n"@);
    }
    (first, second)
}

/// The report for a pipeline stage whose command could not be resolved.
/// The pipeline, and the session, go on without the stage.
pub fn msg_command_not_found(cmd: &str) -> (r: String)
    ensures
        r@ == "Command not found: "@ + cmd@ + "\n"@,
{
    let mut s = String::from_str("Command not found: ");
    s.append(cmd);
    s.append("\n");
    proof {
        assert(s@ =~= "Command not found: "@ + cmd@ + "\n"@);
    }
    s
}

/// The acknowledgement opening an upload handshake.
pub fn msg_ready_for_upload() -> (r: String)
    ensures
        r@ == "READY_FOR_UPLOAD\n"@,
{
    String::from_str("READY_FOR_UPLOAD\n")
}

/// The acknowledgement closing a finished upload.
pub fn msg_upload_complete() -> (r: String)
    ensures
        r@ == "Upload complete\n"@,
{
    String::from_str("Upload complete\n")
}

/// The report for a size line that is not a number; only the transfer is
/// abandoned, not the session.
pub fn msg_invalid_file_size() -> (r: String)
    ensures
        r@ == "Invalid file size\n"@,
{
    String::from_str("Invalid file size\n")
}

/// The report for a download whose file could not be opened.
pub fn msg_download_error(reason: &str) -> (r: String)
    ensures
        r@ == "download error: "@ + reason@ + "\n"@,
{
    let mut s = String::from_str("download error: ");
    s.append(reason);
    s.append("\n");
    proof {
        assert(s@ =~= "download error: "@ + reason@ + "\n"@);
    }
    s
}

/// The line written when a synchronously dispatched command finishes.
pub fn msg_process_exited(code: i64) -> (r: String)
    ensures
        r@ == "Process exited with: "@ + crate::transfer::signed_dec_digits(code as int) + "\n"@,
{
    let mut s = String::from_str("Process exited with: ");
    let digits = crate::transfer::format_i64(code);
    s.append(digits.as_str());
    s.append("\n");
    proof {
        assert(s@ =~= "Process exited with: "@ + crate::transfer::signed_dec_digits(code as int)
            + "\n"@);
    }
    s
}

/// The description of a parse fault.
pub open spec fn spec_fault_text(f: ParseFault) -> Seq<char> {
    match f {
        ParseFault::UnterminatedQuote => "Unterminated quote"@,
        ParseFault::MissingRedirectTarget(k) => "Missing filename after '"@
            + crate::pipeline::redirect_text(k) + "'"@,
        ParseFault::EmptyCommand => "Empty command"@,
    }
}

/// The report for a line that would not parse; the session prompts again.
pub fn msg_parse_error(f: &ParseFault) -> (r: String)
    ensures
        r@ == "Parse error: "@ + spec_fault_text(*f) + "\n"@,
{
    let mut s = String::from_str("Parse error: ");
    match f {
        ParseFault::UnterminatedQuote => {
            s.append("Unterminated quote");
        },
        ParseFault::MissingRedirectTarget(k) => {
            s.append("Missing filename after '");
            match k {
                crate::lexer::RedirectKind::Input => s.append("<"),
                crate::lexer::RedirectKind::Output => s.append(">"),
                crate::lexer::RedirectKind::OutputAppend => s.append(">>"),
                crate::lexer::RedirectKind::ErrOutput => s.append("2>"),
                crate::lexer::RedirectKind::ErrOutputAppend => s.append("2>>"),
            }
            s.append("'");
        },
        ParseFault::EmptyCommand => {
            s.append("Empty command");
        },
    }
    s.append("\n");
    proof {
        assert(s@ =~= "Parse error: "@ + spec_fault_text(*f) + "\n"@);
    }
    s
}

/// The fixed terminal size of the bridge: 80 columns by 24 rows.
pub fn pty_dimensions() -> (r: (u16, u16))
    ensures
        r.0 == 80,
        r.1 == 24,
{
    (80, 24)
}

} // verus!
