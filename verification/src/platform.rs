//! The two target platforms and the constants that differ between them.

use vstd::prelude::*;

use crate::expand::string_views;

verus! {

/// The platform the engine serves.
#[derive(Clone, Copy, PartialEq, Eq, Structural, Debug)]
pub enum Platform {
    Posix,
    Windows,
}

/// The separator between entries of the search-path variable.
pub open spec fn spec_path_list_separator(p: Platform) -> char {
    match p {
        Platform::Posix => ':',
        Platform::Windows => ';',
    }
}

pub fn path_list_separator(p: Platform) -> (c: char)
    ensures
        c == spec_path_list_separator(p),
{
    match p {
        Platform::Posix => ':',
        Platform::Windows => ';',
    }
}

/// The separator between path components.
pub open spec fn spec_path_component_separator(p: Platform) -> char {
    match p {
        Platform::Posix => '/',
        Platform::Windows => '\\',
    }
}

pub fn path_component_separator(p: Platform) -> (c: char)
    ensures
        c == spec_path_component_separator(p),
{
    match p {
        Platform::Posix => '/',
        Platform::Windows => '\\',
    }
}

/// The prompt written before each line is read.
pub open spec fn spec_prompt_text(p: Platform) -> Seq<char> {
    match p {
        Platform::Posix => "bash> "@,
        Platform::Windows => "PS> "@,
    }
}

pub fn prompt_text(p: Platform) -> (r: &'static str)
    ensures
        r@ == spec_prompt_text(p),
{
    match p {
        Platform::Posix => "bash> ",
        Platform::Windows => "PS> ",
    }
}

/// The operating-system identifier sent in the greeting.
pub open spec fn spec_os_name(p: Platform) -> Seq<char> {
    match p {
        Platform::Posix => "linux"@,
        Platform::Windows => "windows"@,
    }
}

pub fn os_name(p: Platform) -> (r: &'static str)
    ensures
        r@ == spec_os_name(p),
{
    match p {
        Platform::Posix => "linux",
        Platform::Windows => "windows",
    }
}

/// The system shells tried in order when a full shell is requested.
pub open spec fn spec_candidate_shells(p: Platform) -> Seq<Seq<char>> {
    match p {
        Platform::Posix => seq!["/bin/zsh"@, "/bin/bash"@, "/bin/sh"@, "/bin/ksh"@],
        Platform::Windows => seq!["powershell.exe"@, "cmd.exe"@],
    }
}

pub fn candidate_shells(p: Platform) -> (r: Vec<String>)
    ensures
        string_views(r@) == spec_candidate_shells(p),
{
    let mut r: Vec<String> = Vec::new();
    match p {
        Platform::Posix => {
            r.push(String::from_str("/bin/zsh"));
            r.push(String::from_str("/bin/bash"));
            r.push(String::from_str("/bin/sh"));
            r.push(String::from_str("/bin/ksh"));
        },
        Platform::Windows => {
            r.push(String::from_str("powershell.exe"));
            r.push(String::from_str("cmd.exe"));
        },
    }
    proof {
        assert(string_views(r@) =~= spec_candidate_shells(p));
    }
    r
}

} // verus!
