//! What the tracer and its driver say to each other.
//!
//! The tracer decides; it never touches the debuggee itself. It hands out one
//! [`Command`] at a time, the driver performs it on the operating system and
//! hands back a [`Reply`].

use crate::address::RelocatedAddress;
use crate::tracee::{Pid, Signal};
use vstd::prelude::*;

verus! {

/// A thread is about to return from `clone`.
pub const PTRACE_EVENT_CLONE: i32 = 3;

/// A thread is about to return from `exec`.
pub const PTRACE_EVENT_EXEC: i32 = 4;

/// A thread is about to exit.
pub const PTRACE_EVENT_EXIT: i32 = 6;

/// A thread stopped on an interrupt, or a new thread reports in.
pub const PTRACE_EVENT_STOP: i32 = 128;

/// `si_code` of a trap raised by a breakpoint instruction.
pub const TRAP_BRKPT: i32 = 1;

/// `si_code` of a trap raised by a finished single step.
pub const TRAP_TRACE: i32 = 2;

/// `si_code` of a trap that the kernel sent; a breakpoint reports so as well.
pub const SI_KERNEL: i32 = 0x80;

/// The error number of "no such process".
pub const ESRCH: i32 = 3;

/// Why the debuggee stopped.
#[derive(Clone, Copy, Debug, PartialEq, Eq, Structural)]
pub enum StopReason {
    /// The whole process exited with this code.
    DebugeeExit(i32),
    /// The debuggee is loaded and about to run its first instruction.
    DebugeeStart,
    /// A thread arrived at a breakpoint.
    Breakpoint(Pid, RelocatedAddress),
    /// A thread stopped on a signal.
    SignalStop(Pid, Signal),
    /// A thread was reported stopped and was gone when asked about.
    NoSuchProcess(Pid),
}

/// What a wait on the debuggee's threads returned.
#[derive(Clone, Copy, Debug, PartialEq, Eq, Structural)]
pub enum WaitStatus {
    Exited(Pid, i32),
    Signaled(Pid, Signal, bool),
    Stopped(Pid, Signal),
    PtraceEvent(Pid, Signal, i32),
    PtraceSyscall(Pid),
    Continued(Pid),
    StillAlive,
}

/// One operation on the debuggee, for the driver to perform.
#[derive(Clone, Copy, Debug, PartialEq, Eq, Structural)]
pub enum Command {
    /// Let a stopped thread run, delivering `signal` to it if there is one.
    Continue { pid: Pid, signal: Option<Signal> },
    /// Stop a running thread.
    Interrupt { pid: Pid },
    /// Let a stopped thread run one instruction.
    SingleStep { pid: Pid },
    /// Ask for the message of the thread's last event: after a clone, the new thread's id.
    GetEventMessage { pid: Pid },
    /// Ask for the `si_code` of the signal that stopped the thread.
    GetSignalInfo { pid: Pid },
    /// Ask for the thread's program counter.
    GetPc { pid: Pid },
    /// Set the thread's program counter.
    SetPc { pid: Pid, pc: usize },
    /// Arm the breakpoint at this index of the trace context.
    EnableBreakpoint { index: usize },
    /// Disarm the breakpoint at this index of the trace context.
    DisableBreakpoint { index: usize },
    /// Wait for the next status of any thread.
    WaitAny,
    /// Wait for the next status of one thread.
    WaitFor { pid: Pid },
}

/// What came of a command.
#[derive(Clone, Copy, Debug, PartialEq, Eq, Structural)]
pub enum Reply {
    /// The command was carried out; it has nothing to report.
    Done,
    /// The command failed with this error number.
    Failed(i32),
    /// The status that a wait returned.
    Status(WaitStatus),
    EventMessage(i64),
    SignalCode(i32),
    Pc(usize),
}

/// An error that ends the session.
#[derive(Clone, Copy, Debug, PartialEq, Eq, Structural)]
pub enum TraceError {
    /// A command failed with this error number.
    Ptrace(i32),
    /// The reply does not answer the command that was handed out, or a new
    /// request came while one was running.
    Protocol,
    /// A trap with a code that neither a breakpoint nor a single step gives.
    UnexpectedTrapCode(i32),
    /// The process exited while its threads were being brought to a stop or stepped.
    DebugeeExited(i32),
    /// The debuggee reported its start a second time.
    UnexpectedStart,
    /// A breakpoint trap at the lowest address.
    BadProgramCounter,
}

/// What the tracer wants next.
#[derive(Clone, Copy, Debug, PartialEq, Eq, Structural)]
pub enum Step {
    /// Perform this command and come back with its reply.
    Perform(Command),
    /// The resume is over: the debuggee stopped.
    Stop(StopReason),
    /// The single step is over.
    Stepped,
    /// The session is broken.
    Fail(TraceError),
}

/// A point at which the tracer waits: for the reply to a command, or for the
/// end of work it started.
#[derive(Clone, Copy, Debug, PartialEq, Eq, Structural)]
pub enum Frame {
    /// A resume waits for the thread at `index` of the table to be continued.
    ResumeContinue { index: usize },
    /// A resume waits for the next status of any thread.
    ResumeWait,
    /// A resume waits for that status to be applied.
    Resume,
    /// A single step, asked for from outside, waits for its end.
    StepRoot,
    /// After a clone: waits for the id of the new thread.
    CloneMessage { parent: Pid },
    /// After a clone: waits for the new thread to report in.
    CloneChildWait { child: Pid },
    /// At a thread's exit: waits for the thread to be let go.
    ExitContinue { pid: Pid },
    /// At a signal stop: waits for the signal's code.
    SignalInfo { pid: Pid, signal: Signal },
    /// At a breakpoint trap: waits for the program counter.
    TrapPc { pid: Pid },
    /// At a breakpoint trap: waits for the program counter to be set back.
    TrapRewind { pid: Pid, pc: usize },
    /// Stepping over a breakpoint: waits for it to be disarmed.
    StepOverDisable { pid: Pid, index: usize },
    /// Stepping over a breakpoint: waits for the single step to end.
    StepOverStep { pid: Pid, index: usize },
    /// Stepping over a breakpoint: waits for it to be armed again.
    StepOverEnable { pid: Pid },
    /// A stop that is to be reported waits for the other threads to be stopped.
    Report { reason: StopReason },
    /// The group stop waits for its current target to be interrupted.
    GroupInterrupt,
    /// The group stop waits for the next status of its current target.
    GroupWait,
    /// The group stop waits for that status to be applied.
    GroupApply,
    /// A single step waits for the step to be issued.
    StepIssue { pid: Pid },
    /// A single step waits for the next status of its thread.
    StepWait { pid: Pid },
    /// A single step waits for the code of the signal that `subject` stopped on.
    StepSignalInfo { pid: Pid, subject: Pid, signal: Signal },
    /// A single step waits for a status to be applied.
    StepApply { pid: Pid },
}

impl Frame {
    /// Frames that only the outermost request can leave.
    pub open spec fn is_root(self) -> bool {
        self is ResumeContinue || self is ResumeWait || self is Resume || self is StepRoot
    }
}

} // verus!
