use deet::symbols::{str_eq, FunctionEntry, LineEntry, SymbolStore};

fn f(name: &str, low: usize, high: usize) -> FunctionEntry {
    FunctionEntry { name: name.to_string(), low, high }
}

fn l(addr: usize, file: &str, line: usize) -> LineEntry {
    LineEntry { addr, file: file.to_string(), line }
}

fn sample_store() -> SymbolStore {
    let functions = vec![f("foo", 0x401000, 0x401040), f("main", 0x401130, 0x401160)];
    let lines = vec![
        l(0x401000, "foo.c", 3),
        l(0x401010, "foo.c", 4),
        l(0x401130, "main.c", 10),
        l(0x401136, "main.c", 11),
        l(0x401150, "main.c", 12),
    ];
    SymbolStore::new(functions, lines).expect("well-formed tables")
}

#[test]
fn rejects_empty_function_range() {
    let functions = vec![f("bad", 0x401000, 0x401000)];
    assert!(SymbolStore::new(functions, vec![]).is_none());
}

#[test]
fn rejects_unsorted_line_table() {
    let lines = vec![l(0x401010, "a.c", 1), l(0x401000, "a.c", 2)];
    assert!(SymbolStore::new(vec![f("a", 0x401000, 0x401020)], lines).is_none());
}

#[test]
fn function_containing_finds_enclosing_range() {
    let s = sample_store();
    assert_eq!(s.function_containing(0x401136), Some(1));
    assert_eq!(s.function_containing(0x401000), Some(0));
    assert_eq!(s.function_containing(0x40103f), Some(0));
    assert_eq!(s.function_containing(0x401040), None);
    assert_eq!(s.function_containing(0x500000), None);
    assert_eq!(s.function(1).name, "main");
}

#[test]
fn function_containing_takes_first_of_overlapping_ranges() {
    let functions = vec![f("outer", 0x1000, 0x2000), f("inner", 0x1100, 0x1200)];
    let s = SymbolStore::new(functions, vec![]).unwrap();
    assert_eq!(s.function_containing(0x1150), Some(0));
}

#[test]
fn line_for_address_takes_last_row_at_or_below() {
    let s = sample_store();
    let i = s.line_for_address(0x401136).unwrap();
    assert_eq!(s.line_entry(i).file, "main.c");
    assert_eq!(s.line_entry(i).line, 11);
    let j = s.line_for_address(0x40114f).unwrap();
    assert_eq!(s.line_entry(j).line, 11);
    let k = s.line_for_address(0x401150).unwrap();
    assert_eq!(s.line_entry(k).line, 12);
}

#[test]
fn addresses_outside_known_ranges_have_no_symbol() {
    let s = sample_store();
    assert_eq!(s.line_for_address(0x401050), None);
    assert_eq!(s.line_for_address(0), None);
}

#[test]
fn function_address_resolves_names() {
    let s = sample_store();
    assert_eq!(s.function_address("main"), Some(0x401130));
    assert_eq!(s.function_address("foo"), Some(0x401000));
    assert_eq!(s.function_address("bar"), None);
}

#[test]
fn str_eq_compares_by_characters() {
    assert!(str_eq("main", "main"));
    assert!(!str_eq("main", "mai"));
    assert!(!str_eq("main", "Main"));
    assert!(str_eq("", ""));
}
