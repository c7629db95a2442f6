//! Verified core of a small interactive debugger.
//!
//! The library holds the logic that a debugger's command loop drives: hex
//! address parsing for breakpoint commands, the byte-level plans for
//! installing and removing trap opcodes, a queryable symbol store, stack
//! unwinding over frame-pointer chains, the breakpoint table, and the
//! session controller's state machine. Process tracing and terminal I/O
//! live outside the library and hand it plain values.

pub mod breakpoints;
pub mod inferior;
pub mod parse;
pub mod patch;
pub mod session;
pub mod symbols;
pub mod unwind;
