//! The session controller: the debugger's authoritative state.
//!
//! The controller owns the symbol store, the breakpoint table and the single
//! optional live inferior, and decides what each user command does to them.
//! The caller runs the read-dispatch cycle and the actual process control;
//! every decision — whether a breakpoint is accepted, whether a command
//! needs an inferior, what a resume must do, what a wait-event leaves behind
//! — is made here. At most one inferior is ever live: the slot must be
//! emptied, and the old child killed and reaped, before a new one is
//! installed.

use crate::breakpoints::{contains_addr, Breakpoint, BreakpointTable};
use crate::inferior::{Inferior, ResumeAction, Status};
use crate::parse::{parse_address, spec_parse_address};
use crate::symbols::SymbolStore;
use vstd::prelude::*;

verus! {

/// A recoverable command-loop error: reported to the user, after which the
/// loop re-prompts; the debugger itself never exits on one of these.
#[derive(Clone, Copy, PartialEq, Eq, Debug)]
pub enum SessionError {
    /// The breakpoint specification did not parse to an address.
    AddressParse,
    /// A breakpoint at that address already exists.
    DuplicateAddress,
    /// The command needs a live inferior and none exists.
    NoInferior,
}

/// True when `action` is the correct resume decision for breakpoints `s`
/// and stop address `pc`: step over the saved byte when the child sits
/// exactly on an installed breakpoint, plain continuation otherwise.
pub open spec fn resume_plan_ok(s: Seq<Breakpoint>, pc: usize, action: ResumeAction) -> bool {
    match action {
        ResumeAction::StepOver { addr, orig_byte } => addr == pc && exists|i: int|
            0 <= i < s.len() && (#[trigger] s[i]).addr == pc && s[i].orig_byte == Some(orig_byte),
        ResumeAction::ContinueOnly => !contains_addr(s, pc),
    }
}

/// Resume-from-breakpoint progress: a correct resume plan for a child
/// stopped exactly at an installed breakpoint is never a plain continuation.
/// It always restores the saved byte and steps over it first, so the trap
/// cannot re-fire at the same address before the instruction has run.
pub proof fn lemma_resume_at_breakpoint_steps_over(
    s: Seq<Breakpoint>,
    pc: usize,
    action: ResumeAction,
)
    requires
        resume_plan_ok(s, pc, action),
        contains_addr(s, pc),
    ensures
        action matches ResumeAction::StepOver { addr, orig_byte } && addr == pc && exists|i: int|
            0 <= i < s.len() && (#[trigger] s[i]).addr == pc && s[i].orig_byte == Some(orig_byte),
{
}

/// The debugger session: symbol store, breakpoint table, and at most one
/// live inferior.
pub struct Session {
    symbols: SymbolStore,
    breakpoints: BreakpointTable,
    inferior: Option<Inferior>,
}

impl Session {
    /// The symbol store the session was opened with.
    pub closed spec fn spec_symbols(&self) -> SymbolStore {
        self.symbols
    }

    /// The breakpoint table's entries.
    pub closed spec fn spec_breakpoints(&self) -> Seq<Breakpoint> {
        self.breakpoints@
    }

    /// The live inferior, if one exists.
    pub closed spec fn spec_inferior(&self) -> Option<Inferior> {
        self.inferior
    }

    /// Opens a session over a loaded symbol store: no breakpoints, no
    /// inferior.
    pub fn new(symbols: SymbolStore) -> (s: Session)
        ensures
            s.spec_symbols() == symbols,
            s.spec_breakpoints() =~= Seq::<Breakpoint>::empty(),
            s.spec_inferior() is None,
    {
        Session { symbols: symbols, breakpoints: BreakpointTable::new(), inferior: None }
    }

    /// The symbol store, for rendering addresses as source locations.
    pub fn symbols(&self) -> (r: &SymbolStore)
        ensures
            *r == self.spec_symbols(),
    {
        &self.symbols
    }

    /// The breakpoint table, for display and for installation at launch.
    pub fn breakpoints(&self) -> (r: &BreakpointTable)
        ensures
            r@ == self.spec_breakpoints(),
    {
        &self.breakpoints
    }

    /// The live inferior, if any.
    pub fn inferior(&self) -> (r: Option<&Inferior>)
        ensures
            match r {
                Some(inf) => self.spec_inferior() == Some(*inf),
                None => self.spec_inferior() is None,
            },
    {
        self.inferior.as_ref()
    }

    /// Whether an inferior is currently live.
    pub fn has_inferior(&self) -> (r: bool)
        ensures
            r == (self.spec_inferior() is Some),
    {
        self.inferior.is_some()
    }

    /// Handles a breakpoint command: parses the raw specification and, when
    /// it denotes a fresh address, appends a pending breakpoint, returning
    /// its display index. A malformed specification or a duplicate address
    /// is rejected with the table left unchanged. A breakpoint set while an
    /// inferior is live takes effect at the next launch, not immediately.
    pub fn handle_breakpoint(&mut self, text: &str) -> (r: Result<usize, SessionError>)
        ensures
            final(self).spec_symbols() == old(self).spec_symbols(),
            final(self).spec_inferior() == old(self).spec_inferior(),
            match r {
                Ok(idx) => spec_parse_address(text@) matches Some(a) && !contains_addr(
                    old(self).spec_breakpoints(),
                    a,
                ) && idx == old(self).spec_breakpoints().len() && final(self).spec_breakpoints()
                    =~= old(self).spec_breakpoints().push(
                    (Breakpoint { addr: a, orig_byte: None }),
                ),
                Err(SessionError::AddressParse) => spec_parse_address(text@) is None && final(self).spec_breakpoints() == old(self).spec_breakpoints(),
                Err(SessionError::DuplicateAddress) => spec_parse_address(text@) matches Some(a)
                    && contains_addr(old(self).spec_breakpoints(), a) && final(self).spec_breakpoints() == old(self).spec_breakpoints(),
                Err(SessionError::NoInferior) => false,
            },
    {
        match parse_address(text) {
            None => Err(SessionError::AddressParse),
            Some(addr) => match self.breakpoints.add(addr) {
                Some(idx) => Ok(idx),
                None => Err(SessionError::DuplicateAddress),
            },
        }
    }

    /// Takes the live inferior out of its slot, leaving none. The caller
    /// must kill and reap the returned child before launching another or
    /// before quitting; emptying the slot first is what keeps a single
    /// tracer over a single tracee.
    pub fn take_inferior(&mut self) -> (r: Option<Inferior>)
        ensures
            final(self).spec_inferior() is None,
            r == old(self).spec_inferior(),
            final(self).spec_symbols() == old(self).spec_symbols(),
            final(self).spec_breakpoints() == old(self).spec_breakpoints(),
    {
        self.inferior.take()
    }

    /// Installs a freshly launched inferior. The slot must be empty: a
    /// prior inferior has to be taken out and fully reaped first, so that
    /// exactly one is ever live.
    pub fn install_inferior(&mut self, inf: Inferior)
        requires
            old(self).spec_inferior() is None,
        ensures
            final(self).spec_inferior() == Some(inf),
            final(self).spec_symbols() == old(self).spec_symbols(),
            final(self).spec_breakpoints() == old(self).spec_breakpoints(),
    {
        self.inferior = Some(inf);
    }

    /// Applies an observed wait-event: a terminal event — exit or fatal
    /// signal — clears the inferior slot; a stop leaves the inferior live.
    pub fn handle_status(&mut self, status: &Status)
        ensures
            final(self).spec_symbols() == old(self).spec_symbols(),
            final(self).spec_breakpoints() == old(self).spec_breakpoints(),
            match *status {
                Status::Exited(_) => final(self).spec_inferior() is None,
                Status::Signaled(_) => final(self).spec_inferior() is None,
                Status::Stopped(_, _) => final(self).spec_inferior() == old(self).spec_inferior(),
            },
    {
        match status {
            Status::Exited(_) => {
                self.inferior = None;
            },
            Status::Signaled(_) => {
                self.inferior = None;
            },
            Status::Stopped(_, _) => {},
        }
    }

    /// Decides what a continue command must do for a child stopped at `pc`:
    /// without a live inferior the command is rejected; otherwise the
    /// resume plan of the live inferior is returned.
    pub fn plan_continue(&self, pc: usize) -> (r: Result<ResumeAction, SessionError>)
        ensures
            match r {
                Ok(action) => self.spec_inferior() matches Some(inf) && resume_plan_ok(
                    inf@,
                    pc,
                    action,
                ),
                Err(e) => e == SessionError::NoInferior && self.spec_inferior() is None,
            },
    {
        match &self.inferior {
            None => Err(SessionError::NoInferior),
            Some(inf) => Ok(inf.plan_resume(pc)),
        }
    }
}

} // verus!
