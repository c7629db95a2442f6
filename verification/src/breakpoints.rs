//! The user-facing breakpoint table.
//!
//! Breakpoints are referenced by insertion-order index for display; the
//! address is the actual key, and no two entries ever share an address. An
//! entry is pending (no saved byte) until it is installed into a live
//! inferior.

use vstd::prelude::*;

verus! {

/// One breakpoint: the absolute virtual address where execution should trap,
/// and — only while installed in a live inferior — the original instruction
/// byte that the trap opcode replaced.
#[derive(Clone, Copy)]
pub struct Breakpoint {
    pub addr: usize,
    pub orig_byte: Option<u8>,
}

/// True when some entry of `s` has address `addr`.
pub open spec fn contains_addr(s: Seq<Breakpoint>, addr: usize) -> bool {
    exists|i: int| 0 <= i < s.len() && (#[trigger] s[i]).addr == addr
}

/// True when no two entries of `s` share an address.
pub open spec fn unique_addrs(s: Seq<Breakpoint>) -> bool {
    forall|i: int, j: int|
        0 <= i < j < s.len() ==> (#[trigger] s[i]).addr != (#[trigger] s[j]).addr
}

/// The ordered collection of breakpoints a user has set, pending until the
/// next launch installs them.
pub struct BreakpointTable {
    entries: Vec<Breakpoint>,
}

impl View for BreakpointTable {
    type V = Seq<Breakpoint>;

    closed spec fn view(&self) -> Seq<Breakpoint> {
        self.entries@
    }
}

impl BreakpointTable {
    /// The table's invariant: no two entries share an address.
    #[verifier::type_invariant]
    pub open spec fn wf(&self) -> bool {
        unique_addrs(self@)
    }

    /// Creates an empty table.
    pub fn new() -> (t: BreakpointTable)
        ensures
            t@ =~= Seq::<Breakpoint>::empty(),
    {
        BreakpointTable { entries: Vec::new() }
    }

    /// Number of breakpoints in the table.
    pub fn len(&self) -> (n: usize)
        ensures
            n == self@.len(),
    {
        self.entries.len()
    }

    /// The entry at display index `i`.
    pub fn get(&self, i: usize) -> (b: &Breakpoint)
        requires
            i < self@.len(),
        ensures
            *b == self@[i as int],
    {
        &self.entries[i]
    }

    /// Whether some breakpoint in the table has address `addr`.
    pub fn contains(&self, addr: usize) -> (r: bool)
        ensures
            r == contains_addr(self@, addr),
    {
        let n = self.entries.len();
        let mut k: usize = 0;
        while k < n
            invariant
                k <= n,
                n == self.entries@.len(),
                forall|m: int| 0 <= m < k ==> (#[trigger] self.entries@[m]).addr != addr,
            decreases n - k,
        {
            if self.entries[k].addr == addr {
                assert(self.entries@[k as int].addr == addr);
                return true;
            }
            k = k + 1;
        }
        false
    }

    /// Appends a new pending breakpoint at `addr` and returns its display
    /// index; rejects a duplicate address, leaving the table unchanged.
    pub fn add(&mut self, addr: usize) -> (r: Option<usize>)
        ensures
            match r {
                Some(idx) => !contains_addr(old(self)@, addr) && idx == old(self)@.len()
                    && final(self)@ =~= old(self)@.push(
                    (Breakpoint { addr: addr, orig_byte: None }),
                ),
                None => contains_addr(old(self)@, addr) && final(self)@ == old(self)@,
            },
    {
        proof {
            use_type_invariant(&*self);
        }
        if self.contains(addr) {
            return None;
        }
        let idx = self.entries.len();
        let mut entries: Vec<Breakpoint> = Vec::new();
        std::mem::swap(&mut entries, &mut self.entries);
        entries.push(Breakpoint { addr: addr, orig_byte: None });
        proof {
            assert(unique_addrs(entries@));
        }
        std::mem::swap(&mut entries, &mut self.entries);
        Some(idx)
    }

    /// The addresses of all breakpoints, in display order, for installation
    /// into a freshly launched inferior.
    pub fn addresses(&self) -> (v: Vec<usize>)
        ensures
            v@ =~= self@.map_values(|b: Breakpoint| b.addr),
    {
        let n = self.entries.len();
        let mut v: Vec<usize> = Vec::new();
        let mut k: usize = 0;
        while k < n
            invariant
                k <= n,
                n == self.entries@.len(),
                v@ =~= self.entries@.take(k as int).map_values(|b: Breakpoint| b.addr),
            decreases n - k,
        {
            v.push(self.entries[k].addr);
            assert(self.entries@.take(k + 1).map_values(|b: Breakpoint| b.addr) =~= self.entries@
                .take(k as int).map_values(|b: Breakpoint| b.addr).push(
                self.entries@[k as int].addr,
            ));
            k = k + 1;
        }
        assert(self.entries@.take(n as int) =~= self.entries@);
        v
    }
}

} // verus!
