//! The symbol store: the debug-symbol tables of one target binary.
//!
//! The tables are built once, when the target's debug information is parsed
//! at startup, and never mutated afterward. They answer three questions:
//! which source line governs an address, which function's range encloses an
//! address, and at which address a named function begins. An address outside
//! every known function range resolves to no symbol rather than failing.

use vstd::prelude::*;

verus! {

/// One function of the target: its human name and the half-open address
/// range `[low, high)` of its machine code.
pub struct FunctionEntry {
    pub name: String,
    pub low: usize,
    pub high: usize,
}

/// One row of the line table: from `addr` up to the next row's address,
/// execution stands on `file:line`.
pub struct LineEntry {
    pub addr: usize,
    pub file: String,
    pub line: usize,
}

/// True when `pc` falls in the function's address range.
pub open spec fn entry_contains(f: FunctionEntry, pc: usize) -> bool {
    f.low <= pc < f.high
}

/// True when some known function's range contains `pc`.
pub open spec fn in_known_range(funcs: Seq<FunctionEntry>, pc: usize) -> bool {
    exists|i: int| 0 <= i < funcs.len() && entry_contains(#[trigger] funcs[i], pc)
}

/// Well-formed function table: every range is non-empty.
pub open spec fn wf_functions(funcs: Seq<FunctionEntry>) -> bool {
    forall|i: int| 0 <= i < funcs.len() ==> (#[trigger] funcs[i]).low < funcs[i].high
}

/// Well-formed line table: row addresses strictly increase.
pub open spec fn wf_lines(lines: Seq<LineEntry>) -> bool {
    forall|i: int, j: int|
        0 <= i < j < lines.len() ==> (#[trigger] lines[i]).addr < (#[trigger] lines[j]).addr
}

/// Index of the first function whose range contains `pc`.
pub open spec fn spec_function_containing(funcs: Seq<FunctionEntry>, pc: usize) -> Option<int>
    decreases funcs.len(),
{
    if funcs.len() == 0 {
        None
    } else if entry_contains(funcs[0], pc) {
        Some(0)
    } else {
        match spec_function_containing(funcs.drop_first(), pc) {
            Some(i) => Some(i + 1),
            None => None,
        }
    }
}

/// Index of the line-table row governing `pc`: the last row whose address
/// does not exceed `pc`.
pub open spec fn spec_line_index(lines: Seq<LineEntry>, pc: usize) -> Option<int>
    decreases lines.len(),
{
    if lines.len() == 0 {
        None
    } else if lines.last().addr <= pc {
        Some(lines.len() - 1)
    } else {
        spec_line_index(lines.drop_last(), pc)
    }
}

/// Entry address of the first function named `name`.
pub open spec fn spec_function_address(funcs: Seq<FunctionEntry>, name: Seq<char>) -> Option<usize>
    decreases funcs.len(),
{
    if funcs.len() == 0 {
        None
    } else if funcs[0].name@ == name {
        Some(funcs[0].low)
    } else {
        spec_function_address(funcs.drop_first(), name)
    }
}

/// Compares two strings character by character.
pub fn str_eq(a: &str, b: &str) -> (r: bool)
    ensures
        r == (a@ == b@),
{
    let na: usize = a.unicode_len();
    let nb: usize = b.unicode_len();
    if na != nb {
        return false;
    }
    let mut k: usize = 0;
    while k < na
        invariant
            k <= na,
            na == a@.len(),
            na == b@.len(),
            forall|m: int| 0 <= m < k ==> a@[m] == b@[m],
        decreases na - k,
    {
        if a.get_char(k) != b.get_char(k) {
            assert(a@[k as int] != b@[k as int]);
            return false;
        }
        k = k + 1;
    }
    assert(a@ =~= b@);
    true
}

/// The queryable symbol tables, immutable once built.
pub struct SymbolStore {
    functions: Vec<FunctionEntry>,
    lines: Vec<LineEntry>,
}

impl SymbolStore {
    /// The function table, in load order.
    pub closed spec fn funcs(&self) -> Seq<FunctionEntry> {
        self.functions@
    }

    /// The line table, sorted by address.
    pub closed spec fn line_rows(&self) -> Seq<LineEntry> {
        self.lines@
    }

    /// The store's invariant: non-empty function ranges, strictly sorted
    /// line rows.
    #[verifier::type_invariant]
    pub open spec fn wf(&self) -> bool {
        wf_functions(self.funcs()) && wf_lines(self.line_rows())
    }

    /// Builds the store from parsed debug information; malformed tables —
    /// an empty function range or line rows out of order — are rejected
    /// whole, never loaded partially.
    pub fn new(functions: Vec<FunctionEntry>, lines: Vec<LineEntry>) -> (r: Option<SymbolStore>)
        ensures
            match r {
                Some(s) => s.funcs() == functions@ && s.line_rows() == lines@ && wf_functions(
                    functions@,
                ) && wf_lines(lines@),
                None => !(wf_functions(functions@) && wf_lines(lines@)),
            },
    {
        let nf = functions.len();
        let mut i: usize = 0;
        while i < nf
            invariant
                i <= nf,
                nf == functions@.len(),
                forall|m: int| 0 <= m < i ==> (#[trigger] functions@[m]).low < functions@[m].high,
            decreases nf - i,
        {
            if functions[i].low >= functions[i].high {
                assert(!wf_functions(functions@));
                return None;
            }
            i = i + 1;
        }
        let nl = lines.len();
        let mut j: usize = 1;
        while j < nl
            invariant
                1 <= j || nl == 0,
                j <= nl || nl == 0,
                nl == lines@.len(),
                forall|m: int| 0 < m < j ==> (#[trigger] lines@[m - 1]).addr < lines@[m].addr,
            decreases nl - j,
        {
            if lines[j - 1].addr >= lines[j].addr {
                assert(!wf_lines(lines@));
                return None;
            }
            j = j + 1;
        }
        proof {
            assert forall|p: int, q: int| 0 <= p < q < lines@.len() implies (
            #[trigger] lines@[p]).addr < (#[trigger] lines@[q]).addr by {
                lemma_adjacent_sorted(lines@, p, q);
            }
        }
        Some(SymbolStore { functions: functions, lines: lines })
    }

    /// Index of the first function whose range contains `pc`, if any.
    pub fn function_containing(&self, pc: usize) -> (r: Option<usize>)
        ensures
            match r {
                Some(i) => spec_function_containing(self.funcs(), pc) == Some(i as int),
                None => spec_function_containing(self.funcs(), pc) is None,
            },
    {
        let n = self.functions.len();
        let mut k: usize = 0;
        proof {
            assert(self.funcs().skip(0) =~= self.funcs());
        }
        while k < n
            invariant
                k <= n,
                n == self.funcs().len(),
                spec_function_containing(self.funcs(), pc) == match spec_function_containing(
                    self.funcs().skip(k as int),
                    pc,
                ) {
                    Some(i) => Some(i + k),
                    None => None::<int>,
                },
            decreases n - k,
        {
            let f = &self.functions[k];
            proof {
                assert(self.funcs().skip(k as int)[0] == self.funcs()[k as int]);
                assert(self.funcs().skip(k as int).drop_first() =~= self.funcs().skip(k + 1));
            }
            if f.low <= pc && pc < f.high {
                return Some(k);
            }
            k = k + 1;
        }
        proof {
            assert(self.funcs().skip(n as int) =~= Seq::<FunctionEntry>::empty());
        }
        None
    }

    /// The function entry at index `i`.
    pub fn function(&self, i: usize) -> (f: &FunctionEntry)
        requires
            i < self.funcs().len(),
        ensures
            *f == self.funcs()[i as int],
    {
        &self.functions[i]
    }

    /// The line-table row at index `i`.
    pub fn line_entry(&self, i: usize) -> (l: &LineEntry)
        requires
            i < self.line_rows().len(),
        ensures
            *l == self.line_rows()[i as int],
    {
        &self.lines[i]
    }

    /// The source line governing `pc`: the last line-table row at or below
    /// `pc`, provided `pc` lies inside some known function's range; an
    /// address outside every range resolves to no symbol.
    pub fn line_for_address(&self, pc: usize) -> (r: Option<usize>)
        ensures
            match r {
                Some(i) => in_known_range(self.funcs(), pc) && i < self.line_rows().len()
                    && spec_line_index(self.line_rows(), pc) == Some(i as int),
                None => !in_known_range(self.funcs(), pc) || spec_line_index(
                    self.line_rows(),
                    pc,
                ) is None,
            },
    {
        match self.function_containing(pc) {
            None => {
                proof {
                    lemma_function_containing_none(self.funcs(), pc);
                }
                None
            },
            Some(fi) => {
                proof {
                    lemma_function_containing_some(self.funcs(), pc);
                }
                let mut k = self.lines.len();
                proof {
                    assert(self.line_rows().take(k as int) =~= self.line_rows());
                }
                while k > 0
                    invariant
                        k <= self.line_rows().len(),
                        in_known_range(self.funcs(), pc),
                        spec_line_index(self.line_rows(), pc) == spec_line_index(
                            self.line_rows().take(k as int),
                            pc,
                        ),
                    decreases k,
                {
                    proof {
                        assert(self.line_rows().take(k as int).last() == self.line_rows()[k - 1]);
                        assert(self.line_rows().take(k as int).drop_last() =~= self.line_rows()
                            .take(k - 1));
                    }
                    if self.lines[k - 1].addr <= pc {
                        return Some(k - 1);
                    }
                    k = k - 1;
                }
                proof {
                    assert(self.line_rows().take(0) =~= Seq::<LineEntry>::empty());
                }
                None
            },
        }
    }

    /// Entry address of the first function with the given name, if any.
    pub fn function_address(&self, name: &str) -> (r: Option<usize>)
        ensures
            r == spec_function_address(self.funcs(), name@),
    {
        let n = self.functions.len();
        let mut k: usize = 0;
        proof {
            assert(self.funcs().skip(0) =~= self.funcs());
        }
        while k < n
            invariant
                k <= n,
                n == self.funcs().len(),
                spec_function_address(self.funcs(), name@) == spec_function_address(
                    self.funcs().skip(k as int),
                    name@,
                ),
            decreases n - k,
        {
            proof {
                assert(self.funcs().skip(k as int)[0] == self.funcs()[k as int]);
                assert(self.funcs().skip(k as int).drop_first() =~= self.funcs().skip(k + 1));
            }
            let f = &self.functions[k];
            if str_eq(f.name.as_str(), name) {
                return Some(f.low);
            }
            k = k + 1;
        }
        proof {
            assert(self.funcs().skip(n as int) =~= Seq::<FunctionEntry>::empty());
        }
        None
    }
}

/// In a table whose adjacent rows are ordered, any earlier row's address is
/// below any later row's.
proof fn lemma_adjacent_sorted(lines: Seq<LineEntry>, p: int, q: int)
    requires
        forall|m: int| 0 < m < lines.len() ==> (#[trigger] lines[m - 1]).addr < lines[m].addr,
        0 <= p < q < lines.len(),
    ensures
        lines[p].addr < lines[q].addr,
    decreases q - p,
{
    if p + 1 == q {
        assert(lines[q - 1].addr < lines[q].addr);
    } else {
        lemma_adjacent_sorted(lines, p, q - 1);
        assert(lines[q - 1].addr < lines[q].addr);
    }
}

/// When the first-containing-function search fails, no range contains `pc`.
proof fn lemma_function_containing_none(funcs: Seq<FunctionEntry>, pc: usize)
    requires
        spec_function_containing(funcs, pc) is None,
    ensures
        !in_known_range(funcs, pc),
    decreases funcs.len(),
{
    if funcs.len() > 0 {
        lemma_function_containing_none(funcs.drop_first(), pc);
        assert forall|i: int| 0 <= i < funcs.len() implies !entry_contains(
            #[trigger] funcs[i],
            pc,
        ) by {
            if i > 0 {
                assert(funcs.drop_first()[i - 1] == funcs[i]);
                assert(!in_known_range(funcs.drop_first(), pc));
            }
        }
    }
}

/// When the first-containing-function search succeeds, its index is in
/// range, the range contains `pc`, and no earlier range does.
pub proof fn lemma_function_containing_some(funcs: Seq<FunctionEntry>, pc: usize)
    requires
        spec_function_containing(funcs, pc) is Some,
    ensures
        0 <= spec_function_containing(funcs, pc).unwrap() < funcs.len(),
        entry_contains(funcs[spec_function_containing(funcs, pc).unwrap()], pc),
        in_known_range(funcs, pc),
    decreases funcs.len(),
{
    let i = spec_function_containing(funcs, pc).unwrap();
    if funcs.len() > 0 && !entry_contains(funcs[0], pc) {
        lemma_function_containing_some(funcs.drop_first(), pc);
        assert(funcs.drop_first()[i - 1] == funcs[i]);
    }
}

} // verus!
