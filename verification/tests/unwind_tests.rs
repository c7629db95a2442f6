use deet::symbols::{FunctionEntry, LineEntry, SymbolStore};
use deet::unwind::{backtrace, StackSnapshot, UnwindError};

fn f(name: &str, low: usize, high: usize) -> FunctionEntry {
    FunctionEntry { name: name.to_string(), low, high }
}

fn l(addr: usize, file: &str, line: usize) -> LineEntry {
    LineEntry { addr, file: file.to_string(), line }
}

fn sample_store() -> SymbolStore {
    let functions = vec![f("foo", 0x401000, 0x401040), f("main", 0x401130, 0x401160)];
    let lines = vec![
        l(0x401000, "foo.c", 3),
        l(0x401010, "foo.c", 4),
        l(0x401130, "main.c", 10),
        l(0x401140, "main.c", 11),
    ];
    SymbolStore::new(functions, lines).expect("well-formed tables")
}

#[test]
fn snapshot_reads_recorded_words() {
    let mut mem = StackSnapshot::new();
    mem.record(0x7ff0, 0x8000);
    mem.record(0x7ff8, 0x401140);
    assert_eq!(mem.read_word(0x7ff0), Some(0x8000));
    assert_eq!(mem.read_word(0x7ff8), Some(0x401140));
    assert_eq!(mem.read_word(0x7fe8), None);
}

#[test]
fn backtrace_walks_to_the_entry_frame() {
    let s = sample_store();
    let mut mem = StackSnapshot::new();
    // Frame of foo: saved frame pointer at 0x7ff0, return address above it.
    mem.record(0x7ff0, 0x8000);
    mem.record(0x7ff8, 0x401140);
    let frames = backtrace(&s, "main", 0x401010, 0x7ff0, &mem).expect("chain is valid");
    assert_eq!(frames.len(), 2);
    assert_eq!(frames[0].func, "foo");
    assert_eq!(frames[0].addr, 0x401010);
    assert_eq!(frames[0].source, Some(("foo.c".to_string(), 4)));
    assert_eq!(frames[1].func, "main");
    assert_eq!(frames[1].addr, 0x401140);
    assert_eq!(frames[1].source, Some(("main.c".to_string(), 11)));
}

#[test]
fn backtrace_of_the_entry_frame_is_a_single_frame() {
    let s = sample_store();
    let mem = StackSnapshot::new();
    let frames = backtrace(&s, "main", 0x401130, 0x7ff0, &mem).expect("already at entry");
    assert_eq!(frames.len(), 1);
    assert_eq!(frames[0].func, "main");
}

#[test]
fn unknown_program_counter_is_an_error() {
    let s = sample_store();
    let mem = StackSnapshot::new();
    assert!(matches!(
        backtrace(&s, "main", 0x500000, 0x7ff0, &mem),
        Err(UnwindError::UnknownAddress)
    ));
}

#[test]
fn unreadable_stack_memory_is_an_error() {
    let s = sample_store();
    let mem = StackSnapshot::new();
    assert!(matches!(
        backtrace(&s, "main", 0x401010, 0x7ff0, &mem),
        Err(UnwindError::MemoryReadFailed)
    ));
}

#[test]
fn frame_chain_must_move_toward_higher_addresses() {
    let s = sample_store();
    let mut mem = StackSnapshot::new();
    // The saved frame pointer points back at the same frame: a loop.
    mem.record(0x7ff0, 0x7ff0);
    mem.record(0x7ff8, 0x401010);
    assert!(matches!(
        backtrace(&s, "main", 0x401010, 0x7ff0, &mem),
        Err(UnwindError::BadFrameChain)
    ));
}

#[test]
fn frame_pointer_near_the_top_of_memory_is_an_error() {
    let s = sample_store();
    let mem = StackSnapshot::new();
    assert!(matches!(
        backtrace(&s, "main", 0x401010, usize::MAX - 4, &mem),
        Err(UnwindError::BadFrameChain)
    ));
}
