use deet::breakpoints::BreakpointTable;
use deet::inferior::{Inferior, ResumeAction, Status, TRAP_SIGNAL};
use deet::symbols::{FunctionEntry, LineEntry, SymbolStore};
use deet::session::{Session, SessionError};

fn sample_store() -> SymbolStore {
    let functions = vec![FunctionEntry {
        name: "main".to_string(),
        low: 0x401130,
        high: 0x401160,
    }];
    let lines = vec![
        LineEntry { addr: 0x401130, file: "main.c".to_string(), line: 10 },
        LineEntry { addr: 0x401136, file: "main.c".to_string(), line: 11 },
    ];
    SymbolStore::new(functions, lines).expect("well-formed tables")
}

/// Launches an inferior for the session's breakpoints as the command loop
/// would, handing back the bytes the debugger read before patching.
fn launch(session: &mut Session, origs: Vec<u8>) {
    assert_eq!(origs.len(), session.breakpoints().len());
    let inf = Inferior::attach(session.breakpoints(), &origs);
    session.install_inferior(inf);
}

#[test]
fn breakpoint_table_rejects_duplicates() {
    let mut t = BreakpointTable::new();
    assert_eq!(t.add(0x401136), Some(0));
    assert_eq!(t.add(0x401140), Some(1));
    assert_eq!(t.add(0x401136), None);
    assert_eq!(t.len(), 2);
    assert_eq!(t.get(0).addr, 0x401136);
    assert!(t.get(0).orig_byte.is_none());
    assert_eq!(t.addresses(), vec![0x401136, 0x401140]);
}

#[test]
fn break_run_stop_continue_to_exit() {
    // break *0x401136; run; the program halts at the breakpoint with a
    // resolvable source line; continue; the program runs to completion.
    let mut session = Session::new(sample_store());
    assert_eq!(session.handle_breakpoint("*0x401136"), Ok(0));
    launch(&mut session, vec![0x55]);
    assert!(session.has_inferior());

    // The child traps: the stop is reported one byte past the trap opcode.
    let inf = session.inferior().expect("inferior is live");
    let pc = inf.interpret_stop(TRAP_SIGNAL, 0x401137);
    assert_eq!(pc, 0x401136);
    let row = session.symbols().line_for_address(pc).expect("line is resolvable");
    assert_eq!(session.symbols().line_entry(row).file, "main.c");
    assert_eq!(session.symbols().line_entry(row).line, 11);

    // continue: the plan steps over the installed breakpoint first.
    match session.plan_continue(pc) {
        Ok(ResumeAction::StepOver { addr, orig_byte }) => {
            assert_eq!(addr, 0x401136);
            assert_eq!(orig_byte, 0x55);
        }
        _ => panic!("expected a step-over plan at the breakpoint"),
    }

    // The child then runs to completion.
    session.handle_status(&Status::Exited(0));
    assert!(!session.has_inferior());
}

#[test]
fn rejected_breakpoint_leaves_the_table_unchanged() {
    // break zz: rejected with a parse error; the loop keeps accepting.
    let mut session = Session::new(sample_store());
    assert_eq!(session.handle_breakpoint("*0x401136"), Ok(0));
    assert_eq!(session.handle_breakpoint("zz"), Err(SessionError::AddressParse));
    assert_eq!(session.breakpoints().len(), 1);
    assert_eq!(session.handle_breakpoint("0x401140"), Ok(1));
    assert_eq!(session.breakpoints().len(), 2);
}

#[test]
fn duplicate_breakpoint_is_rejected() {
    let mut session = Session::new(sample_store());
    assert_eq!(session.handle_breakpoint("0x401136"), Ok(0));
    assert_eq!(
        session.handle_breakpoint("*0x401136"),
        Err(SessionError::DuplicateAddress)
    );
    assert_eq!(session.breakpoints().len(), 1);
}

#[test]
fn run_replaces_the_live_inferior_exclusively() {
    // run while an inferior is alive: the old child is taken out — and
    // killed by the loop — before the new one is installed, so exactly one
    // is ever live.
    let mut session = Session::new(sample_store());
    launch(&mut session, vec![]);
    assert!(session.has_inferior());

    let old = session.take_inferior();
    assert!(old.is_some());
    assert!(!session.has_inferior());
    launch(&mut session, vec![]);
    assert!(session.has_inferior());
    assert!(session.inferior().is_some());
}

#[test]
fn quit_takes_the_running_inferior_out_for_killing() {
    // quit while an inferior is running: the child is handed to the loop to
    // be terminated and reaped before the loop exits.
    let mut session = Session::new(sample_store());
    launch(&mut session, vec![]);
    assert!(session.has_inferior());
    let doomed = session.take_inferior();
    assert!(doomed.is_some());
    assert!(!session.has_inferior());
}

#[test]
fn continue_without_inferior_is_rejected() {
    let session = Session::new(sample_store());
    assert!(matches!(
        session.plan_continue(0x401136),
        Err(SessionError::NoInferior)
    ));
}

#[test]
fn terminal_signal_clears_the_inferior_slot() {
    let mut session = Session::new(sample_store());
    launch(&mut session, vec![]);
    session.handle_status(&Status::Signaled(9));
    assert!(!session.has_inferior());
}

#[test]
fn stop_keeps_the_inferior_live() {
    let mut session = Session::new(sample_store());
    launch(&mut session, vec![]);
    session.handle_status(&Status::Stopped(TRAP_SIGNAL, 0x401137));
    assert!(session.has_inferior());
}

#[test]
fn continue_away_from_breakpoints_needs_no_step_over() {
    let mut session = Session::new(sample_store());
    assert_eq!(session.handle_breakpoint("0x401136"), Ok(0));
    launch(&mut session, vec![0x55]);
    assert!(matches!(
        session.plan_continue(0x401150),
        Ok(ResumeAction::ContinueOnly)
    ));
}

#[test]
fn backtrace_at_a_breakpoint_stop_ends_at_the_entry_frame() {
    let mut session = Session::new(sample_store());
    assert_eq!(session.handle_breakpoint("*0x401136"), Ok(0));
    launch(&mut session, vec![0x55]);
    let inf = session.inferior().expect("inferior is live");
    let pc = inf.interpret_stop(TRAP_SIGNAL, 0x401137);
    // Stopped inside the entry function itself: one frame, no unwinding.
    let mem = deet::unwind::StackSnapshot::new();
    let frames = deet::unwind::backtrace(session.symbols(), "main", pc, 0x7ff0, &mem)
        .expect("stop is resolvable");
    assert_eq!(frames.len(), 1);
    assert_eq!(frames[0].func, "main");
    assert_eq!(frames[0].addr, 0x401136);
    assert_eq!(frames[0].source, Some(("main.c".to_string(), 11)));
}

#[test]
fn non_trap_stops_are_not_adjusted() {
    let mut session = Session::new(sample_store());
    assert_eq!(session.handle_breakpoint("0x401136"), Ok(0));
    launch(&mut session, vec![0x55]);
    let inf = session.inferior().unwrap();
    // A stop that is not a breakpoint trap keeps its reported address.
    assert_eq!(inf.interpret_stop(11, 0x401137), 0x401137);
    // A trap whose preceding byte is no breakpoint keeps its address too.
    assert_eq!(inf.interpret_stop(TRAP_SIGNAL, 0x401150), 0x401150);
    assert_eq!(inf.interpret_stop(TRAP_SIGNAL, 0), 0);
}
