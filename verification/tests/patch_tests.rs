use deet::patch::{extract_byte, plan_install, plan_restore, split_addr, splice_byte, TRAP_BYTE};

#[test]
fn trap_opcode_is_int3() {
    assert_eq!(TRAP_BYTE, 0xcc);
}

#[test]
fn split_addr_gives_alignment_and_offset() {
    assert_eq!(split_addr(0x401136), (0x401130, 6));
    assert_eq!(split_addr(0x401130), (0x401130, 0));
    assert_eq!(split_addr(7), (0, 7));
    assert_eq!(split_addr(0), (0, 0));
}

#[test]
fn extract_byte_reads_little_endian() {
    let word: u64 = 0x1122334455667788;
    assert_eq!(extract_byte(word, 0), 0x88);
    assert_eq!(extract_byte(word, 2), 0x66);
    assert_eq!(extract_byte(word, 7), 0x11);
}

#[test]
fn splice_byte_replaces_only_the_chosen_byte() {
    let word: u64 = 0x1122334455667788;
    assert_eq!(splice_byte(word, 2, 0xcc), 0x11223344_55cc7788);
    assert_eq!(splice_byte(word, 7, 0x00), 0x0022334455667788);
}

#[test]
fn install_saves_original_and_writes_trap() {
    let word: u64 = 0x1122334455667788;
    let (orig, patched) = plan_install(word, 6);
    assert_eq!(orig, 0x22);
    assert_eq!(patched, 0x11cc334455667788);
}

#[test]
fn breakpoint_round_trip_restores_memory_exactly() {
    let word: u64 = 0xdeadbeef01234567;
    for k in 0..8u64 {
        let (orig, patched) = plan_install(word, k);
        let restored = plan_restore(patched, k, orig);
        assert_eq!(restored, word);
    }
}
