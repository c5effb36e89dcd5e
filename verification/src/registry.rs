//! The single foreground-process slot and signal delivery.
//!
//! One process at a time is eligible for relayed signals.  The slot holds
//! its process id; the surrounding shell keeps the process handle and wraps
//! the registry in its lock.

use vstd::prelude::*;

use crate::platform::Platform;
use crate::text::str_eq;

verus! {

/// The symbolic signals the protocol can relay.
#[derive(Clone, Copy, PartialEq, Eq, Structural, Debug)]
pub enum SignalKind {
    Interrupt,
    Suspend,
}

/// The one process currently eligible for signal delivery, if any.
pub struct ForegroundRegistry {
    slot: Option<u32>,
}

impl ForegroundRegistry {
    /// The tracked process id.
    pub closed spec fn current(&self) -> Option<u32> {
        self.slot
    }

    /// An empty registry.
    pub fn new() -> (r: ForegroundRegistry)
        ensures
            r.current() is None,
    {
        ForegroundRegistry { slot: None }
    }

    /// Track `pid` as the foreground process, superseding any previous one.
    pub fn set_foreground(&mut self, pid: u32)
        ensures
            final(self).current() == Some(pid),
    {
        self.slot = Some(pid);
    }

    /// Forget the foreground process.
    pub fn clear(&mut self)
        ensures
            final(self).current() is None,
    {
        self.slot = None;
    }

    /// The tracked process id, if any.
    pub fn current_pid(&self) -> (r: Option<u32>)
        ensures
            r == self.current(),
    {
        self.slot
    }
}

/// What a `SIGNAL <name>` line asks for, given the registry's state.
pub enum SignalAction {
    Deliver(u32, SignalKind),
    ForceKill(u32),
    ReportNoProcess,
    ReportUnknownSignal,
}

/// The signal kind a relayed name denotes.
pub open spec fn spec_signal_kind(name: Seq<char>) -> Option<SignalKind> {
    if name == "INTERRUPT"@ {
        Some(SignalKind::Interrupt)
    } else if name == "SUSPEND"@ {
        Some(SignalKind::Suspend)
    } else {
        None
    }
}

/// Decide what a `SIGNAL <name>` line does: with no foreground process it
/// only reports; with one, the named signal is delivered, except that the
/// non-POSIX target can only terminate the process outright, whatever the
/// name.
pub fn signal_decision(reg: &ForegroundRegistry, name: &str, plat: Platform) -> (r: SignalAction)
    ensures
        match r {
            SignalAction::ReportNoProcess => reg.current() is None,
            SignalAction::ForceKill(pid) => reg.current() == Some(pid) && plat
                == Platform::Windows,
            SignalAction::Deliver(pid, k) => reg.current() == Some(pid) && plat
                == Platform::Posix && spec_signal_kind(name@) == Some(k),
            SignalAction::ReportUnknownSignal => reg.current() is Some && plat == Platform::Posix
                && spec_signal_kind(name@) is None,
        },
        reg.current() is None <==> r == SignalAction::ReportNoProcess,
{
    match reg.current_pid() {
        None => SignalAction::ReportNoProcess,
        Some(pid) => match plat {
            Platform::Windows => SignalAction::ForceKill(pid),
            Platform::Posix => {
                if str_eq(name, "INTERRUPT") {
                    SignalAction::Deliver(pid, SignalKind::Interrupt)
                } else if str_eq(name, "SUSPEND") {
                    SignalAction::Deliver(pid, SignalKind::Suspend)
                } else {
                    SignalAction::ReportUnknownSignal
                }
            },
        },
    }
}

/// Relies on `nix::sys::signal::kill` with `Signal::SIGINT`: asks the kernel
/// to interrupt the process; a failure (for one already gone) is ignored, as
/// delivery is best-effort.
#[verifier::external_body]
fn send_interrupt(pid: u32) {
    let _ = nix::sys::signal::kill(
        nix::unistd::Pid::from_raw(pid as i32),
        nix::sys::signal::Signal::SIGINT,
    );
}

/// Relies on `nix::sys::signal::kill` with `Signal::SIGTSTP`: asks the
/// kernel to suspend the process; a failure is ignored, as delivery is
/// best-effort.
#[verifier::external_body]
fn send_suspend(pid: u32) {
    let _ = nix::sys::signal::kill(
        nix::unistd::Pid::from_raw(pid as i32),
        nix::sys::signal::Signal::SIGTSTP,
    );
}

/// Handle a `SIGNAL <name>` line on the POSIX target: deliver the named
/// signal to the foreground process, and return the report to write, if
/// any.  With no foreground process the report is exactly
/// "No running process to signal"; the session goes on either way.
pub fn process_signal_command(name: &str, reg: &ForegroundRegistry) -> (r: Option<String>)
    ensures
        reg.current() is None ==> r is Some && r->0@ == "No running process to signal\n"@,
        reg.current() is Some && spec_signal_kind(name@) is None ==> r is Some && r->0@
            == "Unknown signal\n"@,
        reg.current() is Some && spec_signal_kind(name@) is Some ==> r is None,
{
    let action = signal_decision(reg, name, Platform::Posix);
    match action {
        SignalAction::ReportNoProcess => Some(String::from_str("No running process to signal\n")),
        SignalAction::ReportUnknownSignal => Some(String::from_str("Unknown signal\n")),
        SignalAction::Deliver(pid, k) => {
            match k {
                SignalKind::Interrupt => send_interrupt(pid),
                SignalKind::Suspend => send_suspend(pid),
            }
            None
        },
        SignalAction::ForceKill(_) => None,
    }
}

} // verus!
