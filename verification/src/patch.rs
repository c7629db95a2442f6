//! Byte-level breakpoint patching.
//!
//! A breakpoint is installed by overwriting one instruction byte with the
//! single-byte trap opcode and remembering the original byte; it is removed
//! by writing the original byte back. The traced process's memory is read
//! and written one aligned machine word at a time, so installing or removing
//! a breakpoint means splicing one byte into a word. This module holds that
//! splicing logic and its proofs; the actual reads and writes of the traced
//! process are performed by the caller.

use vstd::prelude::*;

verus! {

/// The single-byte trap opcode written over the breakpointed instruction.
pub const TRAP_BYTE: u8 = 0xcc;

/// Byte `k` (little-endian, `k < 8`) of a machine word.
pub open spec fn word_byte(word: u64, k: u64) -> u8
    recommends
        k < 8,
{
    ((word >> ((8 * k) as u64)) & 0xff) as u8
}

/// `word` with byte `k` (little-endian, `k < 8`) replaced by `b`.
pub open spec fn with_byte(word: u64, k: u64, b: u8) -> u64
    recommends
        k < 8,
{
    (word & !(0xffu64 << ((8 * k) as u64))) | ((b as u64) << ((8 * k) as u64))
}

/// Splits an arbitrary address into the containing word-aligned address and
/// the byte offset within that word.
pub fn split_addr(addr: usize) -> (r: (usize, u64))
    ensures
        r.0 == addr - (addr % 8),
        r.1 == addr % 8,
        r.0 % 8 == 0,
        r.0 + r.1 == addr,
{
    let off: usize = addr % 8;
    (addr - off, off as u64)
}

/// Reads byte `k` out of a machine word.
pub fn extract_byte(word: u64, k: u64) -> (r: u8)
    requires
        k < 8,
    ensures
        r == word_byte(word, k),
{
    let shift: u64 = 8 * k;
    ((word >> shift) & 0xff) as u8
}

/// Replaces byte `k` of a machine word by `b`.
pub fn splice_byte(word: u64, k: u64, b: u8) -> (r: u64)
    requires
        k < 8,
    ensures
        r == with_byte(word, k, b),
{
    let shift: u64 = 8 * k;
    (word & !(0xffu64 << shift)) | ((b as u64) << shift)
}

/// Plans the installation of a breakpoint whose address falls at byte `k`
/// of a word that currently reads `word`: returns the original instruction
/// byte to save and the patched word to write back.
pub fn plan_install(word: u64, k: u64) -> (r: (u8, u64))
    requires
        k < 8,
    ensures
        r.0 == word_byte(word, k),
        r.1 == with_byte(word, k, TRAP_BYTE),
{
    let orig = extract_byte(word, k);
    let patched = splice_byte(word, k, TRAP_BYTE);
    (orig, patched)
}

/// Plans the removal of a breakpoint: returns the word to write back so
/// that the saved original byte stands at offset `k` again.
pub fn plan_restore(word: u64, k: u64, orig: u8) -> (r: u64)
    requires
        k < 8,
    ensures
        r == with_byte(word, k, orig),
{
    splice_byte(word, k, orig)
}

/// After splicing, the chosen byte reads back as the spliced value.
pub proof fn lemma_with_byte_same(word: u64, k: u64, b: u8)
    requires
        k < 8,
    ensures
        word_byte(with_byte(word, k, b), k) == b,
{
    assert(word_byte(with_byte(word, k, b), k) == b) by (bit_vector)
        requires
            k < 8,
    ;
}

/// Splicing one byte leaves every other byte of the word unchanged.
pub proof fn lemma_with_byte_other(word: u64, k: u64, j: u64, b: u8)
    requires
        k < 8,
        j < 8,
        j != k,
    ensures
        word_byte(with_byte(word, k, b), j) == word_byte(word, j),
{
    assert(word_byte(with_byte(word, k, b), j) == word_byte(word, j)) by (bit_vector)
        requires
            k < 8,
            j < 8,
            j != k,
    ;
}

/// Breakpoint round trip: installing a trap byte and then restoring the
/// saved original byte leaves the word — and so the target's memory —
/// byte-for-byte identical to its state before installation.
pub proof fn lemma_patch_round_trip(word: u64, k: u64)
    requires
        k < 8,
    ensures
        with_byte(with_byte(word, k, TRAP_BYTE), k, word_byte(word, k)) == word,
{
    assert(with_byte(with_byte(word, k, 0xccu8), k, word_byte(word, k)) == word) by (bit_vector)
        requires
            k < 8,
    ;
}

} // verus!
