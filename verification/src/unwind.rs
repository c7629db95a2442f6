//! Stack unwinding over the frame-pointer chain.
//!
//! Unwinding starts at the stopped frame's program counter and frame
//! pointer. Each frame pointer gives the address of the saved previous frame
//! pointer and, one word above it, the return address of the calling frame.
//! A frame is resolved through the symbol store to a function name and, when
//! the line table covers it, a source location. Unwinding ends at the
//! designated entry function's frame; a chain that leaves the recorded
//! memory, or whose frame pointers fail to move strictly toward higher stack
//! addresses, stops with an error instead of looping.
//!
//! The caller reads the traced process's stack into a [`StackSnapshot`]
//! word by word; unwinding itself is pure and total.

use crate::symbols::{
    entry_contains, in_known_range, lemma_function_containing_some, spec_function_containing,
    spec_line_index, str_eq, FunctionEntry, LineEntry, SymbolStore,
};
use vstd::prelude::*;

verus! {

/// Machine words read out of the inferior's memory: pairs of address and
/// the word found there. A lookup takes the first pair with its address.
pub struct StackSnapshot {
    words: Vec<(usize, usize)>,
}

/// The word recorded at `addr`, if any: the first pair carrying `addr`.
pub open spec fn spec_read_word(s: Seq<(usize, usize)>, addr: usize) -> Option<usize>
    decreases s.len(),
{
    if s.len() == 0 {
        None
    } else if s[0].0 == addr {
        Some(s[0].1)
    } else {
        spec_read_word(s.drop_first(), addr)
    }
}

impl View for StackSnapshot {
    type V = Seq<(usize, usize)>;

    closed spec fn view(&self) -> Seq<(usize, usize)> {
        self.words@
    }
}

impl StackSnapshot {
    /// An empty snapshot.
    pub fn new() -> (s: StackSnapshot)
        ensures
            s@ =~= Seq::<(usize, usize)>::empty(),
    {
        StackSnapshot { words: Vec::new() }
    }

    /// Records the word read at `addr`.
    pub fn record(&mut self, addr: usize, word: usize)
        ensures
            final(self)@ =~= old(self)@.push((addr, word)),
    {
        self.words.push((addr, word));
    }

    /// The word recorded at `addr`; fails explicitly when the snapshot does
    /// not cover `addr`.
    pub fn read_word(&self, addr: usize) -> (r: Option<usize>)
        ensures
            r == spec_read_word(self@, addr),
    {
        let n = self.words.len();
        let mut k: usize = 0;
        proof {
            assert(self@.skip(0) =~= self@);
        }
        while k < n
            invariant
                k <= n,
                n == self@.len(),
                spec_read_word(self@, addr) == spec_read_word(self@.skip(k as int), addr),
            decreases n - k,
        {
            proof {
                assert(self@.skip(k as int)[0] == self@[k as int]);
                assert(self@.skip(k as int).drop_first() =~= self@.skip(k + 1));
            }
            let p = self.words[k];
            if p.0 == addr {
                return Some(p.1);
            }
            k = k + 1;
        }
        proof {
            assert(self@.skip(n as int) =~= Seq::<(usize, usize)>::empty());
        }
        None
    }
}

/// Why unwinding stopped early.
#[derive(Clone, Copy, PartialEq, Eq, Debug)]
pub enum UnwindError {
    /// The program counter lies outside every known function range.
    UnknownAddress,
    /// A saved frame pointer or return address was not covered by the
    /// snapshot of the inferior's memory.
    MemoryReadFailed,
    /// The frame-pointer chain left the address space or failed to move
    /// strictly toward higher stack addresses.
    BadFrameChain,
}

/// One resolved stack frame: the enclosing function's name, the program
/// counter inside it, and the source file and line when the line table
/// covers the address.
pub struct Frame {
    pub func: String,
    pub addr: usize,
    pub source: Option<(String, usize)>,
}

/// The mathematical value of a [`Frame`].
pub struct FrameSpec {
    pub func: Seq<char>,
    pub addr: usize,
    pub source: Option<(Seq<char>, usize)>,
}

impl View for Frame {
    type V = FrameSpec;

    open spec fn view(&self) -> FrameSpec {
        FrameSpec {
            func: self.func@,
            addr: self.addr,
            source: match self.source {
                Some(s) => Some((s.0@, s.1)),
                None => None,
            },
        }
    }
}

/// The values of a sequence of frames.
pub open spec fn frames_view(v: Seq<Frame>) -> Seq<FrameSpec> {
    v.map_values(|f: Frame| f@)
}

/// The frame that `pc` resolves to when function entry `fi` encloses it.
pub open spec fn spec_frame(
    funcs: Seq<FunctionEntry>,
    lines: Seq<LineEntry>,
    pc: usize,
    fi: int,
) -> FrameSpec {
    FrameSpec {
        func: funcs[fi].name@,
        addr: pc,
        source: match spec_line_index(lines, pc) {
            Some(li) => Some((lines[li].file@, lines[li].line)),
            None => None,
        },
    }
}

/// The backtrace from the stopped state `(pc, fp)`: resolve `pc` to its
/// frame, stop at the entry function, otherwise follow the return address at
/// `fp + 8` and the saved frame pointer at `fp`. The chain must move
/// strictly toward higher stack addresses; a violation, an unreadable word,
/// or an unresolvable program counter ends unwinding with an error.
pub open spec fn spec_unwind(
    funcs: Seq<FunctionEntry>,
    lines: Seq<LineEntry>,
    entry: Seq<char>,
    pc: usize,
    fp: usize,
    mem: Seq<(usize, usize)>,
) -> Result<Seq<FrameSpec>, UnwindError>
    decreases usize::MAX - fp,
{
    match spec_function_containing(funcs, pc) {
        None => Err(UnwindError::UnknownAddress),
        Some(fi) => {
            let frame = spec_frame(funcs, lines, pc, fi);
            if funcs[fi].name@ == entry {
                Ok(seq![frame])
            } else if fp > usize::MAX - 8 {
                Err(UnwindError::BadFrameChain)
            } else {
                match (spec_read_word(mem, (fp + 8) as usize), spec_read_word(mem, fp)) {
                    (Some(ret), Some(saved)) => if saved <= fp {
                        Err(UnwindError::BadFrameChain)
                    } else {
                        match spec_unwind(funcs, lines, entry, ret, saved, mem) {
                            Ok(rest) => Ok(seq![frame] + rest),
                            Err(e) => Err(e),
                        }
                    },
                    _ => Err(UnwindError::MemoryReadFailed),
                }
            }
        },
    }
}

/// Backtrace termination: whenever unwinding succeeds it yields a finite,
/// non-empty frame sequence that starts at the stopped program counter and
/// ends at the entry function's frame.
pub proof fn lemma_unwind_ends_at_entry(
    funcs: Seq<FunctionEntry>,
    lines: Seq<LineEntry>,
    entry: Seq<char>,
    pc: usize,
    fp: usize,
    mem: Seq<(usize, usize)>,
)
    ensures
        spec_unwind(funcs, lines, entry, pc, fp, mem) matches Ok(frames) ==> frames.len() >= 1
            && frames.last().func == entry && frames.first().addr == pc,
    decreases usize::MAX - fp,
{
    if spec_unwind(funcs, lines, entry, pc, fp, mem) is Ok {
        let fi = spec_function_containing(funcs, pc).unwrap();
        if funcs[fi].name@ != entry {
            let ret = spec_read_word(mem, (fp + 8) as usize).unwrap();
            let saved = spec_read_word(mem, fp).unwrap();
            lemma_unwind_ends_at_entry(funcs, lines, entry, ret, saved, mem);
        }
    }
}

/// Produces the backtrace of the stopped state `(pc0, fp0)` against the
/// symbol store and the recorded stack memory. On success the frames are
/// exactly those of [`spec_unwind`]: at least the stopped frame, the last
/// one belonging to the `entry` function.
pub fn backtrace(
    symbols: &SymbolStore,
    entry: &str,
    pc0: usize,
    fp0: usize,
    mem: &StackSnapshot,
) -> (r: Result<Vec<Frame>, UnwindError>)
    ensures
        match r {
            Ok(frames) => spec_unwind(symbols.funcs(), symbols.line_rows(), entry@, pc0, fp0, mem@)
                == Ok::<Seq<FrameSpec>, UnwindError>(frames_view(frames@)) && frames@.len() >= 1
                && frames@.last()@.func == entry@
                && frames@[0]@.addr == pc0,
            Err(e) => spec_unwind(symbols.funcs(), symbols.line_rows(), entry@, pc0, fp0, mem@)
                == Err::<Seq<FrameSpec>, UnwindError>(e),
        },
{
    let ghost funcs = symbols.funcs();
    let ghost lines = symbols.line_rows();
    let mut frames: Vec<Frame> = Vec::new();
    let mut pc = pc0;
    let mut fp = fp0;
    loop
        invariant
            funcs == symbols.funcs(),
            lines == symbols.line_rows(),
            frames@.len() == 0 ==> pc == pc0,
            frames@.len() > 0 ==> frames@[0]@.addr == pc0,
            (match spec_unwind(funcs, lines, entry@, pc, fp, mem@) {
                Ok(rest) => spec_unwind(funcs, lines, entry@, pc0, fp0, mem@) == Ok::<
                    Seq<FrameSpec>,
                    UnwindError,
                >(frames_view(frames@) + rest),
                Err(e) => spec_unwind(funcs, lines, entry@, pc0, fp0, mem@) == Err::<
                    Seq<FrameSpec>,
                    UnwindError,
                >(e),
            }),
        decreases usize::MAX - fp,
    {
        let fi = match symbols.function_containing(pc) {
            None => {
                return Err(UnwindError::UnknownAddress);
            },
            Some(fi) => fi,
        };
        proof {
            lemma_function_containing_some(funcs, pc);
            assert(entry_contains(funcs[fi as int], pc));
            assert(in_known_range(funcs, pc));
        }
        let fentry = symbols.function(fi);
        let source: Option<(String, usize)> = match symbols.line_for_address(pc) {
            Some(li) => {
                let l = symbols.line_entry(li);
                Some((l.file.clone(), l.line))
            },
            None => None,
        };
        let frame = Frame { func: fentry.name.clone(), addr: pc, source: source };
        let at_entry = str_eq(fentry.name.as_str(), entry);
        let ghost frame_spec = spec_frame(funcs, lines, pc, fi as int);
        let ghost pre = frames@;
        proof {
            assert(frame@ == frame_spec);
            assert(frames_view(pre.push(frame)) =~= frames_view(pre).push(frame_spec));
            assert(frames_view(pre).push(frame_spec) =~= frames_view(pre) + seq![frame_spec]);
        }
        frames.push(frame);
        proof {
            assert(frames@ == pre.push(frame));
            assert(frames_view(frames@) =~= frames_view(pre) + seq![frame_spec]);
            assert(frames@[0]@.addr == pc0) by {
                if pre.len() == 0 {
                    assert(frames@[0] == frame);
                } else {
                    assert(frames@[0] == pre[0]);
                }
            }
        }
        if at_entry {
            proof {
                assert(spec_unwind(funcs, lines, entry@, pc, fp, mem@) == Ok::<
                    Seq<FrameSpec>,
                    UnwindError,
                >(seq![frame_spec]));
                assert(frames_view(pre) + seq![frame_spec] =~= frames_view(frames@));
                assert(frames@.last() == frame);
            }
            return Ok(frames);
        }
        if fp > usize::MAX - 8 {
            return Err(UnwindError::BadFrameChain);
        }
        let ret = match mem.read_word(fp + 8) {
            None => {
                return Err(UnwindError::MemoryReadFailed);
            },
            Some(w) => w,
        };
        let saved = match mem.read_word(fp) {
            None => {
                return Err(UnwindError::MemoryReadFailed);
            },
            Some(w) => w,
        };
        if saved <= fp {
            return Err(UnwindError::BadFrameChain);
        }
        proof {
            assert(match spec_unwind(funcs, lines, entry@, ret, saved, mem@) {
                Ok(rest2) => spec_unwind(funcs, lines, entry@, pc, fp, mem@) == Ok::<
                    Seq<FrameSpec>,
                    UnwindError,
                >(seq![frame_spec] + rest2),
                Err(e) => spec_unwind(funcs, lines, entry@, pc, fp, mem@) == Err::<
                    Seq<FrameSpec>,
                    UnwindError,
                >(e),
            });
            if spec_unwind(funcs, lines, entry@, ret, saved, mem@) is Ok {
                let rest2 = spec_unwind(funcs, lines, entry@, ret, saved, mem@).unwrap();
                assert(frames_view(pre) + (seq![frame_spec] + rest2) =~= frames_view(frames@)
                    + rest2);
            }
        }
        pc = ret;
        fp = saved;
    }
}

} // verus!
