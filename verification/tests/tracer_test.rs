use debugger_core::address::{Address, RelocatedAddress};
use debugger_core::breakpoint::Breakpoint;
use debugger_core::tracee::{Pid, Signal, StopType, TraceeStatus, SIGSTOP, SIGTRAP};
use debugger_core::tracer::model::TrapVerdict;
use debugger_core::tracer::protocol::{
    Command, Reply, Step, StopReason, TraceError, WaitStatus, ESRCH, PTRACE_EVENT_CLONE,
    PTRACE_EVENT_EXEC, PTRACE_EVENT_EXIT, PTRACE_EVENT_STOP, SI_KERNEL, TRAP_BRKPT, TRAP_TRACE,
};
use debugger_core::tracer::{TraceContext, Tracer};

const LEADER: Pid = Pid(100);
const SECOND: Pid = Pid(101);
const SIGUSR1: Signal = Signal(10);
const SIGUSR2: Signal = Signal(12);

fn trap() -> Signal {
    Signal(SIGTRAP)
}

fn event(pid: Pid, code: i32) -> Reply {
    Reply::Status(WaitStatus::PtraceEvent(pid, Signal(SIGTRAP), code))
}

fn interrupt_stop(pid: Pid) -> Reply {
    Reply::Status(WaitStatus::PtraceEvent(pid, Signal(SIGSTOP), PTRACE_EVENT_STOP))
}

fn stopped(pid: Pid, signal: Signal) -> Reply {
    Reply::Status(WaitStatus::Stopped(pid, signal))
}

fn breakpoint_at(pc: usize, owner: Pid) -> Breakpoint {
    Breakpoint {
        addr: Address::Relocated(RelocatedAddress(pc)),
        pid: owner,
        enabled: true,
        temporary: false,
        saved_byte: 0x55,
    }
}

/// Starts the debuggee: the first resume ends with the report of its start.
fn started(ctx: TraceContext) -> Tracer {
    let mut tracer = Tracer::new(LEADER);
    assert_eq!(
        tracer.resume(ctx),
        Step::Perform(Command::Continue { pid: LEADER, signal: None })
    );
    assert_eq!(tracer.advance(ctx, Reply::Done), Step::Perform(Command::WaitAny));
    assert_eq!(
        tracer.advance(ctx, event(LEADER, PTRACE_EVENT_EXEC)),
        Step::Stop(StopReason::DebugeeStart)
    );
    tracer
}

/// Resumes a debuggee whose threads are all stopped, up to the wait.
fn resumed(tracer: &mut Tracer, ctx: TraceContext, threads: &[Pid]) {
    let mut step = tracer.resume(ctx);
    for pid in threads {
        assert_eq!(step, Step::Perform(Command::Continue { pid: *pid, signal: None }));
        step = tracer.advance(ctx, Reply::Done);
    }
    assert_eq!(step, Step::Perform(Command::WaitAny));
}

/// Lets the leader clone a second thread and leaves both running, at the wait.
fn with_second_thread(tracer: &mut Tracer, ctx: TraceContext) {
    resumed(tracer, ctx, &[LEADER]);
    assert_eq!(
        tracer.advance(ctx, event(LEADER, PTRACE_EVENT_CLONE)),
        Step::Perform(Command::GetEventMessage { pid: LEADER })
    );
    assert_eq!(
        tracer.advance(ctx, Reply::EventMessage(101)),
        Step::Perform(Command::WaitFor { pid: SECOND })
    );
    assert_eq!(
        tracer.advance(ctx, interrupt_stop(SECOND)),
        Step::Perform(Command::Continue { pid: LEADER, signal: None })
    );
    assert_eq!(
        tracer.advance(ctx, Reply::Done),
        Step::Perform(Command::Continue { pid: SECOND, signal: None })
    );
    assert_eq!(tracer.advance(ctx, Reply::Done), Step::Perform(Command::WaitAny));
}

/// Feeds a breakpoint trap of `pid` that leaves the program counter at `pc + 1`.
fn trapped_at(tracer: &mut Tracer, ctx: TraceContext, pid: Pid, pc: usize) -> Step {
    assert_eq!(
        tracer.advance(ctx, stopped(pid, trap())),
        Step::Perform(Command::GetSignalInfo { pid })
    );
    assert_eq!(
        tracer.advance(ctx, Reply::SignalCode(TRAP_BRKPT)),
        Step::Perform(Command::GetPc { pid })
    );
    assert_eq!(
        tracer.advance(ctx, Reply::Pc(pc + 1)),
        Step::Perform(Command::SetPc { pid, pc })
    );
    tracer.advance(ctx, Reply::Done)
}

#[test]
fn a_new_tracer_is_idle_with_the_leader_stopped() {
    let tracer = Tracer::new(LEADER);
    assert!(tracer.is_idle());
    assert!(tracer.all_stopped());
    assert_eq!(tracer.proc_pid(), LEADER);
    assert_eq!(tracer.focus(), LEADER);
    assert_eq!(tracer.snapshot().len(), 1);
    assert_eq!(tracer.pending_signals(), 0);
}

#[test]
fn the_first_event_is_the_start_of_the_debuggee() {
    let none: Vec<&Breakpoint> = vec![];
    let ctx = TraceContext::new(&none);
    let tracer = started(ctx);
    assert!(tracer.is_idle());
    assert!(tracer.all_stopped());
    assert_eq!(tracer.snapshot().len(), 1);
}

#[test]
fn hit_then_continue() {
    let bp = breakpoint_at(0x401136, LEADER);
    let bps = vec![&bp];
    let ctx = TraceContext::new(&bps);
    let mut tracer = started(ctx);

    resumed(&mut tracer, ctx, &[LEADER]);
    let step = trapped_at(&mut tracer, ctx, LEADER, 0x401136);
    assert_eq!(
        step,
        Step::Stop(StopReason::Breakpoint(LEADER, RelocatedAddress(0x401136)))
    );
    assert!(tracer.all_stopped());
    assert_eq!(tracer.focus(), LEADER);
    assert!(tracer.is_idle());

    resumed(&mut tracer, ctx, &[LEADER]);
    assert_eq!(
        tracer.advance(ctx, Reply::Status(WaitStatus::Exited(LEADER, 0))),
        Step::Stop(StopReason::DebugeeExit(0))
    );
    assert_eq!(tracer.snapshot().len(), 0);
}

#[test]
fn a_kernel_trap_counts_as_a_breakpoint() {
    let bp = breakpoint_at(0x2000, LEADER);
    let bps = vec![&bp];
    let ctx = TraceContext::new(&bps);
    let mut tracer = started(ctx);
    resumed(&mut tracer, ctx, &[LEADER]);
    tracer.advance(ctx, stopped(LEADER, trap()));
    assert_eq!(
        tracer.advance(ctx, Reply::SignalCode(SI_KERNEL)),
        Step::Perform(Command::GetPc { pid: LEADER })
    );
}

#[test]
fn clone_event_registers_the_new_thread() {
    let none: Vec<&Breakpoint> = vec![];
    let ctx = TraceContext::new(&none);
    let mut tracer = started(ctx);
    let before = tracer.snapshot().len();
    with_second_thread(&mut tracer, ctx);
    let snapshot = tracer.snapshot();
    assert_eq!(snapshot.len(), before + 1);
    assert_eq!(snapshot[1].pid, SECOND);
    // both run; a signal for one of them brings both to a stop
    assert_eq!(
        tracer.advance(ctx, stopped(LEADER, SIGUSR1)),
        Step::Perform(Command::GetSignalInfo { pid: LEADER })
    );
    assert_eq!(
        tracer.advance(ctx, Reply::SignalCode(0)),
        Step::Perform(Command::Interrupt { pid: SECOND })
    );
    assert_eq!(
        tracer.advance(ctx, Reply::Done),
        Step::Perform(Command::WaitFor { pid: SECOND })
    );
    assert_eq!(
        tracer.advance(ctx, interrupt_stop(SECOND)),
        Step::Stop(StopReason::SignalStop(LEADER, SIGUSR1))
    );
    assert!(tracer.all_stopped());
    assert_eq!(tracer.snapshot().len(), 2);
}

#[test]
fn a_clone_of_a_known_thread_waits_for_nothing() {
    let none: Vec<&Breakpoint> = vec![];
    let ctx = TraceContext::new(&none);
    let mut tracer = started(ctx);
    with_second_thread(&mut tracer, ctx);
    // the stop of a third thread arrives before the clone event of its parent
    assert_eq!(
        tracer.advance(ctx, interrupt_stop(Pid(102))),
        Step::Perform(Command::Continue { pid: Pid(102), signal: None })
    );
    assert_eq!(tracer.advance(ctx, Reply::Done), Step::Perform(Command::WaitAny));
    assert_eq!(
        tracer.advance(ctx, event(LEADER, PTRACE_EVENT_CLONE)),
        Step::Perform(Command::GetEventMessage { pid: LEADER })
    );
    assert_eq!(
        tracer.advance(ctx, Reply::EventMessage(102)),
        Step::Perform(Command::Continue { pid: LEADER, signal: None })
    );
    assert_eq!(tracer.snapshot().len(), 3);
}

#[test]
fn step_over_breakpoint_on_foreign_thread() {
    let bp = breakpoint_at(0x401136, LEADER);
    let bps = vec![&bp];
    let ctx = TraceContext::new(&bps);
    let mut tracer = started(ctx);
    with_second_thread(&mut tracer, ctx);

    let step = trapped_at(&mut tracer, ctx, SECOND, 0x401136);
    assert_eq!(step, Step::Perform(Command::DisableBreakpoint { index: 0 }));
    assert_eq!(
        tracer.advance(ctx, Reply::Done),
        Step::Perform(Command::SingleStep { pid: SECOND })
    );
    assert_eq!(
        tracer.advance(ctx, Reply::Done),
        Step::Perform(Command::WaitFor { pid: SECOND })
    );
    assert_eq!(
        tracer.advance(ctx, stopped(SECOND, trap())),
        Step::Perform(Command::GetSignalInfo { pid: SECOND })
    );
    assert_eq!(
        tracer.advance(ctx, Reply::SignalCode(TRAP_TRACE)),
        Step::Perform(Command::EnableBreakpoint { index: 0 })
    );
    // no breakpoint is reported: the stepped thread is continued and the wait goes on
    assert_eq!(
        tracer.advance(ctx, Reply::Done),
        Step::Perform(Command::Continue { pid: SECOND, signal: None })
    );
    assert_eq!(tracer.advance(ctx, Reply::Done), Step::Perform(Command::WaitAny));
    assert_eq!(tracer.focus(), LEADER);
}

#[test]
fn the_owner_of_a_breakpoint_hits_it() {
    let bp = breakpoint_at(0x401136, SECOND);
    let bps = vec![&bp];
    let ctx = TraceContext::new(&bps);
    let mut tracer = started(ctx);
    with_second_thread(&mut tracer, ctx);
    let step = trapped_at(&mut tracer, ctx, SECOND, 0x401136);
    assert_eq!(step, Step::Perform(Command::Interrupt { pid: LEADER }));
    assert_eq!(
        tracer.advance(ctx, Reply::Done),
        Step::Perform(Command::WaitFor { pid: LEADER })
    );
    assert_eq!(
        tracer.advance(ctx, interrupt_stop(LEADER)),
        Step::Stop(StopReason::Breakpoint(SECOND, RelocatedAddress(0x401136)))
    );
    assert!(tracer.all_stopped());
    assert_eq!(tracer.focus(), SECOND);
}

#[test]
fn classify_tells_hits_from_steps_over() {
    let own_temporary = Breakpoint {
        addr: Address::Relocated(RelocatedAddress(0x10)),
        pid: LEADER,
        enabled: true,
        temporary: true,
        saved_byte: 0,
    };
    let foreign = breakpoint_at(0x10, SECOND);
    let disabled_foreign = Breakpoint { enabled: false, ..breakpoint_at(0x20, SECOND) };
    let elsewhere = breakpoint_at(0x30, SECOND);

    let list = vec![&foreign, &own_temporary];
    let ctx = TraceContext::new(&list);
    // a temporary breakpoint of the thread itself wins over a foreign one
    assert_eq!(ctx.classify(LEADER, 0x10), TrapVerdict::Hit);
    // the other thread runs into the temporary breakpoint, which is not its own
    assert_eq!(ctx.classify(SECOND, 0x10), TrapVerdict::StepOver { index: 1 });
    // a third thread steps over the first breakpoint that is not its own
    assert_eq!(ctx.classify(Pid(102), 0x10), TrapVerdict::StepOver { index: 0 });

    let list = vec![&elsewhere, &disabled_foreign, &foreign];
    let ctx = TraceContext::new(&list);
    assert_eq!(ctx.classify(LEADER, 0x10), TrapVerdict::StepOver { index: 2 });
    // a breakpoint that is not armed is not stepped over
    assert_eq!(ctx.classify(LEADER, 0x20), TrapVerdict::Hit);
    // a trap where no breakpoint stands is a hit
    assert_eq!(ctx.classify(LEADER, 0x40), TrapVerdict::Hit);

    let none: Vec<&Breakpoint> = vec![];
    assert_eq!(TraceContext::new(&none).classify(LEADER, 0x10), TrapVerdict::Hit);
}

#[test]
fn signal_stop_brings_every_thread_to_a_stop() {
    let none: Vec<&Breakpoint> = vec![];
    let ctx = TraceContext::new(&none);
    let mut tracer = started(ctx);
    with_second_thread(&mut tracer, ctx);

    tracer.advance(ctx, stopped(SECOND, SIGUSR1));
    assert_eq!(
        tracer.advance(ctx, Reply::SignalCode(0)),
        Step::Perform(Command::Interrupt { pid: LEADER })
    );
    tracer.advance(ctx, Reply::Done);
    assert_eq!(
        tracer.advance(ctx, interrupt_stop(LEADER)),
        Step::Stop(StopReason::SignalStop(SECOND, SIGUSR1))
    );
    assert!(tracer.all_stopped());
    assert_eq!(tracer.focus(), SECOND);
    assert_eq!(tracer.pending_signals(), 1);
    let second = tracer.tracee(SECOND).unwrap();
    assert_eq!(second.status, TraceeStatus::Stopped(StopType::SignalStop(SIGUSR1)));
    assert_eq!(second.pending_signal, Some(SIGUSR1));

    // the next resume delivers the signal to its thread and to no other
    assert_eq!(
        tracer.resume(ctx),
        Step::Perform(Command::Continue { pid: LEADER, signal: None })
    );
    assert_eq!(
        tracer.advance(ctx, Reply::Done),
        Step::Perform(Command::Continue { pid: SECOND, signal: Some(SIGUSR1) })
    );
    assert_eq!(tracer.advance(ctx, Reply::Done), Step::Perform(Command::WaitAny));
    assert_eq!(tracer.pending_signals(), 0);
    assert!(!tracer.all_stopped());
}

#[test]
fn a_signal_of_the_only_thread_is_reported_at_once() {
    let none: Vec<&Breakpoint> = vec![];
    let ctx = TraceContext::new(&none);
    let mut tracer = started(ctx);
    resumed(&mut tracer, ctx, &[LEADER]);
    tracer.advance(ctx, stopped(LEADER, SIGUSR1));
    assert_eq!(
        tracer.advance(ctx, Reply::SignalCode(0)),
        Step::Stop(StopReason::SignalStop(LEADER, SIGUSR1))
    );
    assert!(tracer.all_stopped());
}

#[test]
fn a_thread_that_is_gone_at_the_interrupt_counts_as_stopped() {
    let none: Vec<&Breakpoint> = vec![];
    let ctx = TraceContext::new(&none);
    let mut tracer = started(ctx);
    with_second_thread(&mut tracer, ctx);
    tracer.advance(ctx, stopped(LEADER, SIGUSR1));
    assert_eq!(
        tracer.advance(ctx, Reply::SignalCode(0)),
        Step::Perform(Command::Interrupt { pid: SECOND })
    );
    assert_eq!(
        tracer.advance(ctx, Reply::Failed(ESRCH)),
        Step::Stop(StopReason::SignalStop(LEADER, SIGUSR1))
    );
    assert!(tracer.all_stopped());
    assert!(tracer.tracee(SECOND).unwrap().is_interrupted());
}

#[test]
fn a_signal_that_arrives_during_the_group_stop_is_kept_for_later() {
    let none: Vec<&Breakpoint> = vec![];
    let ctx = TraceContext::new(&none);
    let mut tracer = started(ctx);
    with_second_thread(&mut tracer, ctx);
    tracer.advance(ctx, stopped(LEADER, SIGUSR1));
    tracer.advance(ctx, Reply::SignalCode(0));
    assert_eq!(
        tracer.advance(ctx, Reply::Done),
        Step::Perform(Command::WaitFor { pid: SECOND })
    );
    // the second thread stops on a signal of its own before the interrupt lands
    assert_eq!(
        tracer.advance(ctx, stopped(SECOND, SIGUSR2)),
        Step::Perform(Command::GetSignalInfo { pid: SECOND })
    );
    assert_eq!(
        tracer.advance(ctx, Reply::SignalCode(0)),
        Step::Stop(StopReason::SignalStop(LEADER, SIGUSR1))
    );
    assert!(tracer.all_stopped());
    assert_eq!(tracer.pending_signals(), 2);
    assert_eq!(tracer.focus(), LEADER);
    assert_eq!(
        tracer.tracee(SECOND).unwrap().status,
        TraceeStatus::Stopped(StopType::SignalStop(SIGUSR2))
    );
}

#[test]
fn the_group_stop_waits_again_after_an_event_that_stops_nothing() {
    let none: Vec<&Breakpoint> = vec![];
    let ctx = TraceContext::new(&none);
    let mut tracer = started(ctx);
    with_second_thread(&mut tracer, ctx);
    tracer.advance(ctx, stopped(LEADER, SIGUSR1));
    tracer.advance(ctx, Reply::SignalCode(0));
    tracer.advance(ctx, Reply::Done);
    // a status that says nothing of a stop: the wait for the thread goes on
    assert_eq!(
        tracer.advance(ctx, Reply::Status(WaitStatus::Continued(SECOND))),
        Step::Perform(Command::WaitFor { pid: SECOND })
    );
    assert_eq!(
        tracer.advance(ctx, interrupt_stop(SECOND)),
        Step::Stop(StopReason::SignalStop(LEADER, SIGUSR1))
    );
}

#[test]
fn a_thread_that_exits_during_the_group_stop_is_let_go() {
    let none: Vec<&Breakpoint> = vec![];
    let ctx = TraceContext::new(&none);
    let mut tracer = started(ctx);
    with_second_thread(&mut tracer, ctx);
    tracer.advance(ctx, stopped(LEADER, SIGUSR1));
    tracer.advance(ctx, Reply::SignalCode(0));
    tracer.advance(ctx, Reply::Done);
    assert_eq!(
        tracer.advance(ctx, event(SECOND, PTRACE_EVENT_EXIT)),
        Step::Perform(Command::Continue { pid: SECOND, signal: None })
    );
    assert_eq!(
        tracer.advance(ctx, Reply::Done),
        Step::Stop(StopReason::SignalStop(LEADER, SIGUSR1))
    );
    assert_eq!(tracer.snapshot().len(), 1);
    assert!(tracer.all_stopped());
}

#[test]
fn exit_of_another_thread_is_not_the_end() {
    let none: Vec<&Breakpoint> = vec![];
    let ctx = TraceContext::new(&none);
    let mut tracer = started(ctx);
    with_second_thread(&mut tracer, ctx);
    // nothing is stopped, so nothing is continued before the next wait
    assert_eq!(
        tracer.advance(ctx, Reply::Status(WaitStatus::Exited(SECOND, 0))),
        Step::Perform(Command::WaitAny)
    );
    assert_eq!(tracer.snapshot().len(), 1);
    assert_eq!(
        tracer.advance(ctx, Reply::Status(WaitStatus::Exited(LEADER, 7))),
        Step::Stop(StopReason::DebugeeExit(7))
    );
}

#[test]
fn a_killed_thread_and_unknown_events_are_passed_over() {
    let none: Vec<&Breakpoint> = vec![];
    let ctx = TraceContext::new(&none);
    let mut tracer = started(ctx);
    resumed(&mut tracer, ctx, &[LEADER]);
    assert_eq!(
        tracer.advance(ctx, Reply::Status(WaitStatus::Signaled(LEADER, Signal(9), false))),
        Step::Perform(Command::WaitAny)
    );
    assert_eq!(tracer.advance(ctx, event(LEADER, 77)), Step::Perform(Command::WaitAny));
    assert_eq!(
        tracer.advance(ctx, Reply::Status(WaitStatus::StillAlive)),
        Step::Perform(Command::WaitAny)
    );
    assert_eq!(
        tracer.advance(ctx, Reply::Status(WaitStatus::PtraceSyscall(LEADER))),
        Step::Perform(Command::WaitAny)
    );
}

#[test]
fn a_stop_event_of_an_unknown_thread_creates_its_record() {
    let none: Vec<&Breakpoint> = vec![];
    let ctx = TraceContext::new(&none);
    let mut tracer = started(ctx);
    resumed(&mut tracer, ctx, &[LEADER]);
    assert_eq!(
        tracer.advance(ctx, interrupt_stop(Pid(555))),
        Step::Perform(Command::Continue { pid: Pid(555), signal: None })
    );
    assert_eq!(tracer.snapshot().len(), 2);
}

#[test]
fn a_stopped_thread_that_is_gone_is_reported_as_such() {
    let none: Vec<&Breakpoint> = vec![];
    let ctx = TraceContext::new(&none);
    let mut tracer = started(ctx);
    with_second_thread(&mut tracer, ctx);
    tracer.advance(ctx, stopped(SECOND, SIGUSR1));
    assert_eq!(
        tracer.advance(ctx, Reply::Failed(ESRCH)),
        Step::Stop(StopReason::NoSuchProcess(SECOND))
    );
    // nothing was stopped for this report, and the focus stays where it was
    assert!(!tracer.all_stopped());
    assert!(tracer.is_idle());
    assert_eq!(tracer.focus(), LEADER);
}

#[test]
fn a_stray_step_trap_resumes_silently() {
    let none: Vec<&Breakpoint> = vec![];
    let ctx = TraceContext::new(&none);
    let mut tracer = started(ctx);
    resumed(&mut tracer, ctx, &[LEADER]);
    tracer.advance(ctx, stopped(LEADER, trap()));
    assert_eq!(
        tracer.advance(ctx, Reply::SignalCode(TRAP_TRACE)),
        Step::Perform(Command::Continue { pid: LEADER, signal: None })
    );
    assert_eq!(tracer.advance(ctx, Reply::Done), Step::Perform(Command::WaitAny));
}

#[test]
fn single_step_ends_with_the_step_trap() {
    let none: Vec<&Breakpoint> = vec![];
    let ctx = TraceContext::new(&none);
    let mut tracer = started(ctx);
    assert_eq!(
        tracer.single_step(ctx, LEADER),
        Step::Perform(Command::SingleStep { pid: LEADER })
    );
    assert!(!tracer.is_idle());
    assert_eq!(
        tracer.advance(ctx, Reply::Done),
        Step::Perform(Command::WaitFor { pid: LEADER })
    );
    assert_eq!(
        tracer.advance(ctx, stopped(LEADER, trap())),
        Step::Perform(Command::GetSignalInfo { pid: LEADER })
    );
    assert_eq!(tracer.advance(ctx, Reply::SignalCode(TRAP_TRACE)), Step::Stepped);
    assert!(tracer.is_idle());
}

#[test]
fn single_step_ends_with_an_interrupt_stop() {
    let none: Vec<&Breakpoint> = vec![];
    let ctx = TraceContext::new(&none);
    let mut tracer = started(ctx);
    tracer.single_step(ctx, LEADER);
    tracer.advance(ctx, Reply::Done);
    assert_eq!(tracer.advance(ctx, interrupt_stop(LEADER)), Step::Stepped);
}

#[test]
fn single_step_ends_at_a_breakpoint_of_the_thread() {
    let bp = breakpoint_at(0x3000, LEADER);
    let bps = vec![&bp];
    let ctx = TraceContext::new(&bps);
    let mut tracer = started(ctx);
    tracer.single_step(ctx, LEADER);
    tracer.advance(ctx, Reply::Done);
    tracer.advance(ctx, stopped(LEADER, trap()));
    assert_eq!(
        tracer.advance(ctx, Reply::SignalCode(TRAP_BRKPT)),
        Step::Perform(Command::GetPc { pid: LEADER })
    );
    tracer.advance(ctx, Reply::Pc(0x3001));
    assert_eq!(tracer.advance(ctx, Reply::Done), Step::Stepped);
    assert_eq!(tracer.focus(), LEADER);
}

#[test]
fn single_step_goes_on_after_a_breakpoint_of_another_thread() {
    let bp = breakpoint_at(0x3000, SECOND);
    let bps = vec![&bp];
    let ctx = TraceContext::new(&bps);
    let mut tracer = started(ctx);
    tracer.single_step(ctx, LEADER);
    tracer.advance(ctx, Reply::Done);
    // the status that comes in speaks of another thread, at its own breakpoint
    assert_eq!(
        tracer.advance(ctx, stopped(SECOND, trap())),
        Step::Perform(Command::GetSignalInfo { pid: LEADER })
    );
    assert_eq!(
        tracer.advance(ctx, Reply::SignalCode(TRAP_BRKPT)),
        Step::Perform(Command::GetPc { pid: SECOND })
    );
    tracer.advance(ctx, Reply::Pc(0x3001));
    // that hit does not end the step of this thread
    assert_eq!(
        tracer.advance(ctx, Reply::Done),
        Step::Perform(Command::WaitFor { pid: LEADER })
    );
    tracer.advance(ctx, stopped(LEADER, trap()));
    assert_eq!(tracer.advance(ctx, Reply::SignalCode(TRAP_TRACE)), Step::Stepped);
}

#[test]
fn single_step_goes_on_after_an_event_that_stops_nothing() {
    let none: Vec<&Breakpoint> = vec![];
    let ctx = TraceContext::new(&none);
    let mut tracer = started(ctx);
    tracer.single_step(ctx, LEADER);
    tracer.advance(ctx, Reply::Done);
    assert_eq!(
        tracer.advance(ctx, Reply::Status(WaitStatus::Continued(LEADER))),
        Step::Perform(Command::WaitFor { pid: LEADER })
    );
    tracer.advance(ctx, stopped(LEADER, trap()));
    assert_eq!(tracer.advance(ctx, Reply::SignalCode(TRAP_TRACE)), Step::Stepped);
}

#[test]
fn single_step_fails_when_the_process_exits() {
    let none: Vec<&Breakpoint> = vec![];
    let ctx = TraceContext::new(&none);
    let mut tracer = started(ctx);
    tracer.single_step(ctx, LEADER);
    tracer.advance(ctx, Reply::Done);
    assert_eq!(
        tracer.advance(ctx, Reply::Status(WaitStatus::Exited(LEADER, 3))),
        Step::Fail(TraceError::DebugeeExited(3))
    );
    assert!(tracer.is_idle());
}

#[test]
fn the_process_must_not_exit_during_the_group_stop() {
    let none: Vec<&Breakpoint> = vec![];
    let ctx = TraceContext::new(&none);
    let mut tracer = started(ctx);
    with_second_thread(&mut tracer, ctx);
    tracer.advance(ctx, stopped(SECOND, SIGUSR1));
    tracer.advance(ctx, Reply::SignalCode(0));
    tracer.advance(ctx, Reply::Done);
    assert_eq!(
        tracer.advance(ctx, Reply::Status(WaitStatus::Exited(LEADER, 9))),
        Step::Fail(TraceError::DebugeeExited(9))
    );
    assert!(tracer.is_idle());
}

#[test]
fn the_debuggee_must_not_start_twice() {
    let none: Vec<&Breakpoint> = vec![];
    let ctx = TraceContext::new(&none);
    let mut tracer = started(ctx);
    with_second_thread(&mut tracer, ctx);
    tracer.advance(ctx, stopped(SECOND, SIGUSR1));
    tracer.advance(ctx, Reply::SignalCode(0));
    tracer.advance(ctx, Reply::Done);
    assert_eq!(
        tracer.advance(ctx, event(LEADER, PTRACE_EVENT_EXEC)),
        Step::Fail(TraceError::UnexpectedStart)
    );
}

#[test]
fn a_trap_with_a_strange_code_fails() {
    let none: Vec<&Breakpoint> = vec![];
    let ctx = TraceContext::new(&none);
    let mut tracer = started(ctx);
    resumed(&mut tracer, ctx, &[LEADER]);
    tracer.advance(ctx, stopped(LEADER, trap()));
    assert_eq!(
        tracer.advance(ctx, Reply::SignalCode(5)),
        Step::Fail(TraceError::UnexpectedTrapCode(5))
    );
}

#[test]
fn a_trap_at_the_lowest_address_fails() {
    let none: Vec<&Breakpoint> = vec![];
    let ctx = TraceContext::new(&none);
    let mut tracer = started(ctx);
    resumed(&mut tracer, ctx, &[LEADER]);
    tracer.advance(ctx, stopped(LEADER, trap()));
    tracer.advance(ctx, Reply::SignalCode(TRAP_BRKPT));
    assert_eq!(
        tracer.advance(ctx, Reply::Pc(0)),
        Step::Fail(TraceError::BadProgramCounter)
    );
}

#[test]
fn a_failed_command_ends_the_session() {
    let none: Vec<&Breakpoint> = vec![];
    let ctx = TraceContext::new(&none);
    let mut tracer = started(ctx);
    tracer.resume(ctx);
    assert_eq!(tracer.advance(ctx, Reply::Failed(1)), Step::Fail(TraceError::Ptrace(1)));
    assert!(tracer.is_idle());
}

#[test]
fn a_thread_that_is_gone_at_the_continue_is_passed_over() {
    let none: Vec<&Breakpoint> = vec![];
    let ctx = TraceContext::new(&none);
    let mut tracer = started(ctx);
    tracer.resume(ctx);
    assert_eq!(tracer.advance(ctx, Reply::Failed(ESRCH)), Step::Perform(Command::WaitAny));
    // it was not continued, so it still counts as stopped
    assert!(tracer.all_stopped());
}

#[test]
fn a_reply_without_a_command_is_a_protocol_error() {
    let none: Vec<&Breakpoint> = vec![];
    let ctx = TraceContext::new(&none);
    let mut tracer = Tracer::new(LEADER);
    assert_eq!(tracer.advance(ctx, Reply::Done), Step::Fail(TraceError::Protocol));
}

#[test]
fn a_request_during_a_request_is_a_protocol_error() {
    let none: Vec<&Breakpoint> = vec![];
    let ctx = TraceContext::new(&none);
    let mut tracer = Tracer::new(LEADER);
    tracer.resume(ctx);
    assert_eq!(tracer.resume(ctx), Step::Fail(TraceError::Protocol));
    assert!(tracer.is_idle());
    tracer.resume(ctx);
    assert_eq!(tracer.single_step(ctx, LEADER), Step::Fail(TraceError::Protocol));
}

#[test]
fn a_reply_of_the_wrong_kind_is_a_protocol_error() {
    let none: Vec<&Breakpoint> = vec![];
    let ctx = TraceContext::new(&none);
    let mut tracer = Tracer::new(LEADER);
    tracer.resume(ctx);
    assert_eq!(tracer.advance(ctx, Reply::Pc(1)), Step::Fail(TraceError::Protocol));
    let mut tracer = started(ctx);
    resumed(&mut tracer, ctx, &[LEADER]);
    assert_eq!(tracer.advance(ctx, Reply::Done), Step::Fail(TraceError::Protocol));
}

#[test]
fn an_event_message_that_is_no_thread_id_is_a_protocol_error() {
    let none: Vec<&Breakpoint> = vec![];
    let ctx = TraceContext::new(&none);
    let mut tracer = started(ctx);
    resumed(&mut tracer, ctx, &[LEADER]);
    tracer.advance(ctx, event(LEADER, PTRACE_EVENT_CLONE));
    assert_eq!(
        tracer.advance(ctx, Reply::EventMessage(1 << 40)),
        Step::Fail(TraceError::Protocol)
    );
}

#[test]
fn every_reported_breakpoint_or_signal_finds_all_threads_stopped() {
    // three threads, stops reported from each of them in turn
    let bp = breakpoint_at(0x5000, Pid(102));
    let bps = vec![&bp];
    let ctx = TraceContext::new(&bps);
    let mut tracer = started(ctx);
    with_second_thread(&mut tracer, ctx);
    tracer.advance(ctx, interrupt_stop(Pid(102)));
    tracer.advance(ctx, Reply::Done);

    let step = trapped_at(&mut tracer, ctx, Pid(102), 0x5000);
    assert_eq!(step, Step::Perform(Command::Interrupt { pid: LEADER }));
    tracer.advance(ctx, Reply::Done);
    assert_eq!(
        tracer.advance(ctx, interrupt_stop(LEADER)),
        Step::Perform(Command::Interrupt { pid: SECOND })
    );
    tracer.advance(ctx, Reply::Done);
    let step = tracer.advance(ctx, interrupt_stop(SECOND));
    assert_eq!(step, Step::Stop(StopReason::Breakpoint(Pid(102), RelocatedAddress(0x5000))));
    assert!(tracer.all_stopped());
    assert_eq!(tracer.focus(), Pid(102));
    for tracee in tracer.snapshot() {
        assert!(tracee.is_stopped());
    }
}

/// A driver that keeps the breakpoints and eight bytes of memory at each of
/// them, and performs what the tracer hands out.
struct World {
    breakpoints: Vec<Breakpoint>,
    memory: Vec<(usize, [u8; 8])>,
}

impl World {
    fn word_at(&mut self, address: usize) -> &mut [u8; 8] {
        &mut self.memory.iter_mut().find(|(at, _)| *at == address).unwrap().1
    }

    fn perform(&mut self, step: Step) {
        let (index, arm) = match step {
            Step::Perform(Command::EnableBreakpoint { index }) => (index, true),
            Step::Perform(Command::DisableBreakpoint { index }) => (index, false),
            _ => return,
        };
        let address = match self.breakpoints[index].addr {
            Address::Relocated(address) => address.0,
            Address::Global(_) => panic!("a breakpoint without a runtime address"),
        };
        let word = u64::from_le_bytes(*self.word_at(address));
        let written = if arm {
            self.breakpoints[index].enable(word)
        } else {
            self.breakpoints[index].disable(word)
        };
        *self.word_at(address) = written.to_le_bytes();
    }

    fn resume(&mut self, tracer: &mut Tracer) -> Step {
        let held: Vec<&Breakpoint> = self.breakpoints.iter().collect();
        let step = tracer.resume(TraceContext::new(&held));
        self.perform(step);
        step
    }

    fn reply(&mut self, tracer: &mut Tracer, reply: Reply) -> Step {
        let held: Vec<&Breakpoint> = self.breakpoints.iter().collect();
        let step = tracer.advance(TraceContext::new(&held), reply);
        self.perform(step);
        step
    }

    fn shape(&self) -> Vec<(bool, u8, [u8; 8])> {
        self.breakpoints
            .iter()
            .zip(self.memory.iter())
            .map(|(breakpoint, (_, word))| (breakpoint.enabled, breakpoint.saved_byte, *word))
            .collect()
    }
}

#[test]
fn a_resume_leaves_the_breakpoints_and_the_memory_under_them_as_they_were() {
    let mut world = World {
        breakpoints: vec![breakpoint_at(0x401136, LEADER), breakpoint_at(0x402000, LEADER)],
        memory: vec![
            (0x401136, [0xCC, 0x48, 0x89, 0xe5, 0x90, 0x90, 0x5d, 0xc3]),
            (0x402000, [0xCC, 0x31, 0xc0, 0xc3, 0, 0, 0, 0]),
        ],
    };
    let before = world.shape();
    let mut tracer = Tracer::new(LEADER);
    world.resume(&mut tracer);
    world.reply(&mut tracer, Reply::Done);
    assert_eq!(
        world.reply(&mut tracer, event(LEADER, PTRACE_EVENT_EXEC)),
        Step::Stop(StopReason::DebugeeStart)
    );
    assert_eq!(world.shape(), before);

    // the second thread comes up, runs into the leader's breakpoints one
    // after the other and is stepped over each
    world.resume(&mut tracer);
    world.reply(&mut tracer, Reply::Done);
    world.reply(&mut tracer, event(LEADER, PTRACE_EVENT_CLONE));
    world.reply(&mut tracer, Reply::EventMessage(101));
    world.reply(&mut tracer, interrupt_stop(SECOND));
    world.reply(&mut tracer, Reply::Done);
    assert_eq!(world.reply(&mut tracer, Reply::Done), Step::Perform(Command::WaitAny));
    for (index, pc) in [(0usize, 0x401136usize), (1, 0x402000)] {
        world.reply(&mut tracer, stopped(SECOND, trap()));
        world.reply(&mut tracer, Reply::SignalCode(TRAP_BRKPT));
        world.reply(&mut tracer, Reply::Pc(pc + 1));
        assert_eq!(
            world.reply(&mut tracer, Reply::Done),
            Step::Perform(Command::DisableBreakpoint { index })
        );
        // while the thread steps, the saved byte is back in memory
        assert!(!world.breakpoints[index].enabled);
        assert_eq!(world.word_at(pc)[0], 0x55);
        assert_eq!(world.word_at(pc)[1..], before[index].2[1..]);
        assert_eq!(
            world.reply(&mut tracer, Reply::Done),
            Step::Perform(Command::SingleStep { pid: SECOND })
        );
        world.reply(&mut tracer, Reply::Done);
        world.reply(&mut tracer, stopped(SECOND, trap()));
        assert_eq!(
            world.reply(&mut tracer, Reply::SignalCode(TRAP_TRACE)),
            Step::Perform(Command::EnableBreakpoint { index })
        );
        assert_eq!(world.shape(), before);
        world.reply(&mut tracer, Reply::Done);
        assert_eq!(world.reply(&mut tracer, Reply::Done), Step::Perform(Command::WaitAny));
    }

    // the leader hits its own breakpoint: the resume ends
    world.reply(&mut tracer, stopped(LEADER, trap()));
    world.reply(&mut tracer, Reply::SignalCode(TRAP_BRKPT));
    world.reply(&mut tracer, Reply::Pc(0x401137));
    assert_eq!(
        world.reply(&mut tracer, Reply::Done),
        Step::Perform(Command::Interrupt { pid: SECOND })
    );
    world.reply(&mut tracer, Reply::Done);
    assert_eq!(
        world.reply(&mut tracer, interrupt_stop(SECOND)),
        Step::Stop(StopReason::Breakpoint(LEADER, RelocatedAddress(0x401136)))
    );
    assert!(tracer.all_stopped());
    assert_eq!(world.shape(), before);
    for (enabled, saved, word) in world.shape() {
        assert!(enabled);
        assert_eq!(saved, 0x55);
        assert_eq!(word[0], 0xCC);
    }
}

#[test]
fn the_start_of_the_debuggee_finds_every_thread_stopped() {
    let ctx_bps: Vec<&Breakpoint> = vec![];
    let ctx = TraceContext::new(&ctx_bps);
    let tracer = started(ctx);
    assert!(tracer.all_stopped());
    assert_eq!(tracer.snapshot().len(), 1);
    assert_eq!(tracer.focus(), LEADER);
}
