//! The controller's model of one live traced child process.
//!
//! The library does not trace processes itself; the caller owns the child
//! and performs the actual control calls. What the library owns is the
//! record of which breakpoints are patched into the child's memory with
//! which saved original bytes, and the decisions that drive execution
//! control: what a resume must do first when the child sits on a
//! breakpoint, and where a trap stop really happened.

use crate::breakpoints::{contains_addr, unique_addrs, Breakpoint, BreakpointTable};
use vstd::prelude::*;

verus! {

/// Signal number delivered when the traced child executes the trap opcode.
pub const TRAP_SIGNAL: i32 = 5;

/// The last observed wait-event of the traced child. A resume always
/// resolves to one of these before returning control.
pub enum Status {
    /// Stopped by a signal, with the program counter of the stop.
    Stopped(i32, usize),
    /// Exited normally with an exit code.
    Exited(i32),
    /// Terminated by a fatal signal.
    Signaled(i32),
}

/// What a resume must do before letting the child run free.
pub enum ResumeAction {
    /// The child sits exactly at an installed breakpoint: restore the saved
    /// original byte at `addr`, single-step one instruction, re-install the
    /// trap byte, and only then continue — otherwise the child would re-trap
    /// at the same address without making progress.
    StepOver { addr: usize, orig_byte: u8 },
    /// The child is not at an installed breakpoint: continue directly.
    ContinueOnly,
}

/// The breakpoints currently patched into one live inferior's memory,
/// derived from the breakpoint table at launch; every entry carries the
/// saved original byte, and no two entries share an address.
pub struct Inferior {
    installed: Vec<Breakpoint>,
}

impl View for Inferior {
    type V = Seq<Breakpoint>;

    closed spec fn view(&self) -> Seq<Breakpoint> {
        self.installed@
    }
}

/// The stop address a trap report denotes: trap delivery reports the address
/// just past the trap opcode, so when the byte before the reported program
/// counter is an installed breakpoint, the stop belongs to that breakpoint's
/// own address; any other stop is taken as reported.
pub open spec fn spec_adjusted_stop_pc(s: Seq<Breakpoint>, signal: i32, reported_pc: usize) -> usize {
    if signal == TRAP_SIGNAL && reported_pc >= 1 && contains_addr(s, (reported_pc - 1) as usize) {
        (reported_pc - 1) as usize
    } else {
        reported_pc
    }
}

impl Inferior {
    #[verifier::type_invariant]
    spec fn wf(&self) -> bool {
        unique_addrs(self.installed@) && forall|i: int|
            0 <= i < self.installed@.len() ==> (#[trigger] self.installed@[i]).orig_byte is Some
    }

    /// Records a freshly launched inferior into whose memory every
    /// breakpoint of the table was just installed: entry `k` of the table
    /// was patched and `origs[k]` is the original byte that was read there.
    pub fn attach(table: &BreakpointTable, origs: &Vec<u8>) -> (inf: Inferior)
        requires
            origs@.len() == table@.len(),
        ensures
            inf@.len() == table@.len(),
            forall|i: int|
                0 <= i < table@.len() ==> (#[trigger] inf@[i]).addr == table@[i].addr
                    && inf@[i].orig_byte == Some(origs@[i]),
    {
        proof {
            use_type_invariant(table);
        }
        let n = table.len();
        let mut v: Vec<Breakpoint> = Vec::new();
        let mut k: usize = 0;
        while k < n
            invariant
                k <= n,
                n == table@.len(),
                origs@.len() == table@.len(),
                v@.len() == k,
                forall|m: int|
                    0 <= m < k ==> (#[trigger] v@[m]).addr == table@[m].addr && v@[m].orig_byte
                        == Some(origs@[m]),
            decreases n - k,
        {
            let b = table.get(k);
            v.push(Breakpoint { addr: b.addr, orig_byte: Some(origs[k]) });
            k = k + 1;
        }
        proof {
            use_type_invariant(table);
            assert(unique_addrs(v@)) by {
                assert(forall|i: int, j: int|
                    0 <= i < j < v@.len() ==> (#[trigger] v@[i]).addr != (#[trigger] v@[j]).addr)
                    by {
                    assert(forall|i: int, j: int|
                        0 <= i < j < table@.len() ==> (#[trigger] table@[i]).addr != (
                        #[trigger] table@[j]).addr);
                }
            }
        }
        Inferior { installed: v }
    }

    /// The saved original byte of the breakpoint installed at `pc`, if one
    /// is installed there.
    pub fn installed_at(&self, pc: usize) -> (r: Option<u8>)
        ensures
            match r {
                Some(b) => exists|i: int|
                    0 <= i < self@.len() && (#[trigger] self@[i]).addr == pc && self@[i].orig_byte
                        == Some(b),
                None => !contains_addr(self@, pc),
            },
    {
        proof {
            use_type_invariant(&*self);
        }
        let n = self.installed.len();
        let mut k: usize = 0;
        while k < n
            invariant
                k <= n,
                n == self.installed@.len(),
                forall|i: int|
                    0 <= i < self.installed@.len() ==> (
                    #[trigger] self.installed@[i]).orig_byte is Some,
                forall|m: int| 0 <= m < k ==> (#[trigger] self.installed@[m]).addr != pc,
            decreases n - k,
        {
            let b = &self.installed[k];
            if b.addr == pc {
                proof {
                    assert(self@[k as int].addr == pc);
                    assert(self@[k as int].orig_byte is Some);
                }
                return b.orig_byte;
            }
            k = k + 1;
        }
        assert(forall|m: int| 0 <= m < self@.len() ==> (#[trigger] self@[m]).addr != pc);
        None
    }

    /// Decides what a resume must do: if the child is stopped exactly at an
    /// installed breakpoint's address, the trap byte there must be stepped
    /// over first; otherwise the child may simply continue.
    pub fn plan_resume(&self, pc: usize) -> (r: ResumeAction)
        ensures
            match r {
                ResumeAction::StepOver { addr, orig_byte } => addr == pc && exists|i: int|
                    0 <= i < self@.len() && (#[trigger] self@[i]).addr == pc && self@[i].orig_byte
                        == Some(orig_byte),
                ResumeAction::ContinueOnly => !contains_addr(self@, pc),
            },
    {
        match self.installed_at(pc) {
            Some(b) => ResumeAction::StepOver { addr: pc, orig_byte: b },
            None => ResumeAction::ContinueOnly,
        }
    }

    /// Resolves a stop report to the address the stop belongs to, adjusting
    /// a breakpoint trap's program counter backward over the trap opcode.
    pub fn interpret_stop(&self, signal: i32, reported_pc: usize) -> (pc: usize)
        ensures
            pc == spec_adjusted_stop_pc(self@, signal, reported_pc),
    {
        if signal == TRAP_SIGNAL && reported_pc >= 1 {
            match self.installed_at(reported_pc - 1) {
                Some(_) => reported_pc - 1,
                None => reported_pc,
            }
        } else {
            reported_pc
        }
    }
}

} // verus!
