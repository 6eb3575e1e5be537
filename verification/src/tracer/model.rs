//! The tracer as a state machine over plain mathematical values.
//!
//! A [`Machine`] is the whole state of a tracer. Every function here takes a
//! state and gives the state that follows together with what the tracer
//! wants next. The executable tracer is specified as computing exactly these
//! functions.

use crate::address::RelocatedAddress;
use crate::breakpoint::Breakpoint;
use crate::tracee::{
    halted, lookup, next_stopped, pids, registered, dropped, has_pid, Pid, Signal, StopType,
    Tracee, TraceeStatus,
};
use crate::tracer::protocol::{
    Command, Frame, Reply, Step, StopReason, TraceError, WaitStatus, ESRCH, PTRACE_EVENT_CLONE,
    PTRACE_EVENT_EXEC, PTRACE_EVENT_EXIT, PTRACE_EVENT_STOP, SI_KERNEL, TRAP_BRKPT, TRAP_TRACE,
};
use vstd::prelude::*;

verus! {

/// What to do about a breakpoint trap.
#[derive(Clone, Copy, Debug, PartialEq, Eq, Structural)]
pub enum TrapVerdict {
    /// Report it.
    Hit,
    /// The breakpoint at `index` is not meant for the thread that ran into
    /// it: step the thread over it and say nothing.
    StepOver { index: usize },
}

/// A temporary breakpoint of `pid` itself stands at `pc`.
pub open spec fn own_temporary_at(bps: Seq<Breakpoint>, pid: Pid, pc: usize) -> bool {
    exists|i: int| 0 <= i < bps.len() && #[trigger] bps[i].at(pc) && bps[i].temporary && bps[i].pid == pid
}

/// `b` is armed at `pc` for another thread than `pid`.
pub open spec fn foreign_at(b: Breakpoint, pid: Pid, pc: usize) -> bool {
    b.at(pc) && b.enabled && b.pid != pid
}

/// The first breakpoint at or after `from` that is armed at `pc` for another
/// thread than `pid`; the number of breakpoints if there is none.
pub open spec fn first_foreign(bps: Seq<Breakpoint>, pid: Pid, pc: usize, from: int) -> int
    decreases bps.len() - from,
{
    if from < 0 || from >= bps.len() {
        bps.len() as int
    } else if foreign_at(bps[from], pid, pc) {
        from
    } else {
        first_foreign(bps, pid, pc, from + 1)
    }
}

/// What a breakpoint trap of `pid` at `pc` means, given the breakpoints in force.
pub open spec fn trap_verdict(bps: Seq<Breakpoint>, pid: Pid, pc: usize) -> TrapVerdict {
    if own_temporary_at(bps, pid, pc) {
        TrapVerdict::Hit
    } else if first_foreign(bps, pid, pc, 0) < bps.len() {
        TrapVerdict::StepOver { index: first_foreign(bps, pid, pc, 0) as usize }
    } else {
        TrapVerdict::Hit
    }
}

/// `pid` is attached and running.
pub open spec fn is_running(tracees: Seq<Tracee>, pid: Pid) -> bool {
    lookup(tracees, pid) matches Some(t) && !t.stopped()
}

/// A thread other than `initiator` is running.
pub open spec fn others_running(tracees: Seq<Tracee>, initiator: Pid) -> bool {
    exists|i: int|
        0 <= i < tracees.len() && (#[trigger] tracees[i]).pid != initiator && !tracees[i].stopped()
}

/// The first target at or after `from` that is attached and running; the
/// number of targets if there is none.
pub open spec fn next_target(targets: Seq<Pid>, tracees: Seq<Tracee>, from: int) -> int
    decreases targets.len() - from,
{
    if from < 0 || from >= targets.len() {
        targets.len() as int
    } else if is_running(tracees, targets[from]) {
        from
    } else {
        next_target(targets, tracees, from + 1)
    }
}

/// The thread that comes into focus when a stop is reported: the thread of
/// a breakpoint or a signal stop. No other report moves the focus.
pub open spec fn subject(reason: StopReason) -> Option<Pid> {
    match reason {
        StopReason::Breakpoint(pid, _) => Some(pid),
        StopReason::SignalStop(pid, _) => Some(pid),
        _ => None,
    }
}

/// A stop that is reported only with every thread stopped.
pub open spec fn needs_group_stop(reason: StopReason) -> bool {
    reason is Breakpoint || reason is SignalStop
}

/// The state of a tracer.
#[verifier::ext_equal]
pub struct Machine {
    /// The group leader.
    pub process: Pid,
    /// The thread in focus.
    pub focus: Pid,
    /// The table of attached threads.
    pub tracees: Seq<Tracee>,
    /// Signals that stopped a thread and were not delivered yet, oldest first.
    pub queue: Seq<(Pid, Signal)>,
    /// The signal that the running round of continues delivers.
    pub inject: Option<(Pid, Signal)>,
    /// A group stop is under way.
    pub guard: bool,
    /// The group stop is in its second round.
    pub second_round: bool,
    /// The threads that the current round of the group stop goes through.
    pub targets: Seq<Pid>,
    /// Where in `targets` the group stop stands.
    pub cursor: int,
    /// The points at which the tracer waits, outermost first.
    pub stack: Seq<Frame>,
}

impl Machine {
    /// The state of a tracer for a process that was just spawned.
    pub open spec fn init(process: Pid) -> Machine {
        Machine {
            process,
            focus: process,
            tracees: seq![Tracee::fresh(process)],
            queue: Seq::empty(),
            inject: None,
            guard: false,
            second_round: false,
            targets: Seq::empty(),
            cursor: 0,
            stack: Seq::empty(),
        }
    }

    pub open spec fn push(self, frame: Frame) -> Machine {
        Machine { stack: self.stack.push(frame), ..self }
    }

    pub open spec fn pop(self) -> Machine {
        Machine { stack: self.stack.drop_last(), ..self }
    }

    pub open spec fn with_tracees(self, tracees: Seq<Tracee>) -> Machine {
        Machine { tracees, ..self }
    }

    /// Hands out `command` and waits for its reply at `frame`.
    pub open spec fn emit(self, frame: Frame, command: Command) -> (Machine, Step) {
        (self.push(frame), Step::Perform(command))
    }

    /// Gives up: nothing is waited for any more.
    pub open spec fn fail(self, error: TraceError) -> (Machine, Step) {
        (Machine { stack: Seq::empty(), guard: false, ..self }, Step::Fail(error))
    }

    /// The signal that the running round delivers to `pid`.
    pub open spec fn signal_for(self, pid: Pid) -> Option<Signal> {
        match self.inject {
            Some((target, signal)) => if target == pid {
                Some(signal)
            } else {
                None
            },
            None => None,
        }
    }

    // ------------------------------------------------------------------
    // Resume
    // ------------------------------------------------------------------
    /// A resume is asked for.
    pub open spec fn resume(self) -> (Machine, Step) {
        if self.stack.len() != 0 {
            self.fail(TraceError::Protocol)
        } else {
            self.round()
        }
    }

    /// One round of a resume: takes the oldest undelivered signal, then
    /// continues the stopped threads one by one.
    pub open spec fn round(self) -> (Machine, Step) {
        if self.queue.len() > 0 {
            Machine {
                inject: Some(self.queue[0]),
                queue: self.queue.drop_first(),
                ..self
            }.continue_from(0)
        } else {
            Machine { inject: None, ..self }.continue_from(0)
        }
    }

    /// Continues the first stopped thread at or after `from`; with none left, waits.
    pub open spec fn continue_from(self, from: int) -> (Machine, Step) {
        let i = next_stopped(self.tracees, from);
        if 0 <= i < self.tracees.len() {
            self.emit(
                Frame::ResumeContinue { index: i as usize },
                Command::Continue {
                    pid: self.tracees[i].pid,
                    signal: self.signal_for(self.tracees[i].pid),
                },
            )
        } else {
            self.emit(Frame::ResumeWait, Command::WaitAny)
        }
    }

    pub open spec fn on_resume_continue(self, index: usize, reply: Reply) -> (Machine, Step) {
        match reply {
            Reply::Done => if index < self.tracees.len() {
                self.with_tracees(
                    self.tracees.update(index as int, self.tracees[index as int].resumed()),
                ).continue_from(index + 1)
            } else {
                self.fail(TraceError::Protocol)
            },
            Reply::Failed(errno) => if errno == ESRCH {
                self.continue_from(index + 1)
            } else {
                self.fail(TraceError::Ptrace(errno))
            },
            _ => self.fail(TraceError::Protocol),
        }
    }

    pub open spec fn on_resume_wait(self, bps: Seq<Breakpoint>, reply: Reply) -> (Machine, Step) {
        match reply {
            Reply::Status(status) => self.push(Frame::Resume).apply(bps, status),
            Reply::Failed(errno) => self.fail(TraceError::Ptrace(errno)),
            _ => self.fail(TraceError::Protocol),
        }
    }

    // ------------------------------------------------------------------
    // Applying a status
    // ------------------------------------------------------------------
    /// Takes in a status that a wait returned. Whoever asked waits on top of the stack.
    pub open spec fn apply(self, bps: Seq<Breakpoint>, status: WaitStatus) -> (Machine, Step) {
        match status {
            WaitStatus::Exited(pid, code) => {
                let m = self.with_tracees(dropped(self.tracees, pid));
                if pid == self.process {
                    m.ret_apply(bps, Some(StopReason::DebugeeExit(code)))
                } else {
                    m.ret_apply(bps, None)
                }
            },
            WaitStatus::PtraceEvent(pid, _, event) => {
                if event == PTRACE_EVENT_EXEC {
                    self.with_tracees(registered(self.tracees, pid)).ret_apply(
                        bps,
                        Some(StopReason::DebugeeStart),
                    )
                } else if event == PTRACE_EVENT_CLONE {
                    self.with_tracees(halted(self.tracees, pid, StopType::Interrupt)).emit(
                        Frame::CloneMessage { parent: pid },
                        Command::GetEventMessage { pid },
                    )
                } else if event == PTRACE_EVENT_STOP {
                    self.with_tracees(halted(self.tracees, pid, StopType::Interrupt)).ret_apply(
                        bps,
                        None,
                    )
                } else if event == PTRACE_EVENT_EXIT {
                    if has_pid(self.tracees, pid) {
                        self.with_tracees(dropped(self.tracees, pid)).emit(
                            Frame::ExitContinue { pid },
                            Command::Continue { pid, signal: None },
                        )
                    } else {
                        self.ret_apply(bps, None)
                    }
                } else {
                    self.ret_apply(bps, None)
                }
            },
            WaitStatus::Stopped(pid, signal) => self.emit(
                Frame::SignalInfo { pid, signal },
                Command::GetSignalInfo { pid },
            ),
            _ => self.ret_apply(bps, None),
        }
    }

    pub open spec fn on_clone_message(self, bps: Seq<Breakpoint>, reply: Reply) -> (Machine, Step) {
        match reply {
            Reply::EventMessage(message) => if i32::MIN <= message <= i32::MAX {
                let child = Pid(message as i32);
                if has_pid(self.tracees, child) {
                    self.ret_apply(bps, None)
                } else {
                    self.with_tracees(registered(self.tracees, child)).emit(
                        Frame::CloneChildWait { child },
                        Command::WaitFor { pid: child },
                    )
                }
            } else {
                self.fail(TraceError::Protocol)
            },
            Reply::Failed(errno) => self.fail(TraceError::Ptrace(errno)),
            _ => self.fail(TraceError::Protocol),
        }
    }

    pub open spec fn on_clone_child_wait(self, bps: Seq<Breakpoint>, reply: Reply) -> (
        Machine,
        Step,
    ) {
        match reply {
            Reply::Status(_) => self.ret_apply(bps, None),
            Reply::Failed(errno) => self.fail(TraceError::Ptrace(errno)),
            _ => self.fail(TraceError::Protocol),
        }
    }

    pub open spec fn on_exit_continue(self, bps: Seq<Breakpoint>, reply: Reply) -> (Machine, Step) {
        match reply {
            Reply::Done => self.ret_apply(bps, None),
            Reply::Failed(errno) => self.fail(TraceError::Ptrace(errno)),
            _ => self.fail(TraceError::Protocol),
        }
    }

    pub open spec fn on_signal_info(
        self,
        bps: Seq<Breakpoint>,
        pid: Pid,
        signal: Signal,
        reply: Reply,
    ) -> (Machine, Step) {
        match reply {
            Reply::SignalCode(code) => self.stopped_with(bps, pid, signal, code),
            Reply::Failed(errno) => if errno == ESRCH {
                self.ret_apply(bps, Some(StopReason::NoSuchProcess(pid)))
            } else {
                self.fail(TraceError::Ptrace(errno))
            },
            _ => self.fail(TraceError::Protocol),
        }
    }

    /// `pid` stopped on `signal`, and the signal's code is `code`.
    pub open spec fn stopped_with(self, bps: Seq<Breakpoint>, pid: Pid, signal: Signal, code: i32) -> (
        Machine,
        Step,
    ) {
        if signal.is_trap() {
            if code == TRAP_TRACE {
                self.with_tracees(halted(self.tracees, pid, StopType::Interrupt)).ret_apply(
                    bps,
                    None,
                )
            } else if code == TRAP_BRKPT || code == SI_KERNEL {
                self.emit(Frame::TrapPc { pid }, Command::GetPc { pid })
            } else {
                self.fail(TraceError::UnexpectedTrapCode(code))
            }
        } else {
            Machine {
                queue: self.queue.push((pid, signal)),
                tracees: halted(self.tracees, pid, StopType::SignalStop(signal)),
                ..self
            }.report(bps, pid, StopReason::SignalStop(pid, signal))
        }
    }

    pub open spec fn on_trap_pc(self, bps: Seq<Breakpoint>, pid: Pid, reply: Reply) -> (
        Machine,
        Step,
    ) {
        match reply {
            Reply::Pc(pc) => if pc == 0 {
                self.fail(TraceError::BadProgramCounter)
            } else {
                self.emit(
                    Frame::TrapRewind { pid, pc: (pc - 1) as usize },
                    Command::SetPc { pid, pc: (pc - 1) as usize },
                )
            },
            Reply::Failed(errno) => self.fail(TraceError::Ptrace(errno)),
            _ => self.fail(TraceError::Protocol),
        }
    }

    pub open spec fn on_trap_rewind(
        self,
        bps: Seq<Breakpoint>,
        pid: Pid,
        pc: usize,
        reply: Reply,
    ) -> (Machine, Step) {
        match reply {
            Reply::Done => match trap_verdict(bps, pid, pc) {
                TrapVerdict::StepOver { index } => self.emit(
                    Frame::StepOverDisable { pid, index },
                    Command::DisableBreakpoint { index },
                ),
                TrapVerdict::Hit => Machine {
                    focus: pid,
                    tracees: halted(self.tracees, pid, StopType::Interrupt),
                    ..self
                }.report(bps, pid, StopReason::Breakpoint(pid, RelocatedAddress(pc))),
            },
            Reply::Failed(errno) => self.fail(TraceError::Ptrace(errno)),
            _ => self.fail(TraceError::Protocol),
        }
    }

    pub open spec fn on_step_over_disable(self, pid: Pid, index: usize, reply: Reply) -> (
        Machine,
        Step,
    ) {
        match reply {
            Reply::Done => self.push(Frame::StepOverStep { pid, index }).emit(
                Frame::StepIssue { pid },
                Command::SingleStep { pid },
            ),
            Reply::Failed(errno) => self.fail(TraceError::Ptrace(errno)),
            _ => self.fail(TraceError::Protocol),
        }
    }

    pub open spec fn on_step_over_enable(self, bps: Seq<Breakpoint>, pid: Pid, reply: Reply) -> (
        Machine,
        Step,
    ) {
        match reply {
            Reply::Done => self.with_tracees(
                halted(self.tracees, pid, StopType::Interrupt),
            ).ret_apply(bps, None),
            Reply::Failed(errno) => self.fail(TraceError::Ptrace(errno)),
            _ => self.fail(TraceError::Protocol),
        }
    }

    /// A stop of `initiator` is to be reported as `reason`: first every
    /// other thread is brought to a stop, unless that is under way already.
    pub open spec fn report(self, bps: Seq<Breakpoint>, initiator: Pid, reason: StopReason) -> (
        Machine,
        Step,
    ) {
        if self.guard || !others_running(self.tracees, initiator) {
            self.ret_apply(bps, Some(reason))
        } else {
            Machine {
                guard: true,
                second_round: false,
                targets: pids(self.tracees),
                cursor: 0,
                ..self
            }.push(Frame::Report { reason }).group_next(bps)
        }
    }

    /// The status has been dealt with and gave `result`: whoever asked goes on.
    pub open spec fn ret_apply(self, bps: Seq<Breakpoint>, result: Option<StopReason>) -> (
        Machine,
        Step,
    )
        decreases self.stack.len(), 3int,
    {
        if self.stack.len() == 0 {
            self.fail(TraceError::Protocol)
        } else {
            let m = self.pop();
            match self.stack.last() {
                Frame::Resume => match result {
                    Some(reason) => (
                        match subject(reason) {
                            Some(pid) => Machine { focus: pid, ..m },
                            None => m,
                        },
                        Step::Stop(reason),
                    ),
                    None => m.round(),
                },
                Frame::GroupApply => if 0 <= m.cursor < m.targets.len() {
                    let pid = m.targets[m.cursor];
                    match result {
                        Some(StopReason::DebugeeExit(code)) => m.fail(
                            TraceError::DebugeeExited(code),
                        ),
                        Some(StopReason::DebugeeStart) => m.fail(TraceError::UnexpectedStart),
                        Some(StopReason::SignalStop(_, _)) => m.settle(bps),
                        Some(StopReason::NoSuchProcess(_)) => m.settle(bps),
                        _ => if result matches Some(StopReason::Breakpoint(hit, _)) && hit == pid {
                            m.settle(bps)
                        } else {
                            match lookup(m.tracees, pid) {
                                None => m.settle(bps),
                                Some(tracee) => if tracee.status == TraceeStatus::Stopped(
                                    StopType::Interrupt,
                                ) {
                                    m.settle(bps)
                                } else {
                                    m.emit(Frame::GroupWait, Command::WaitFor { pid })
                                },
                            }
                        },
                    }
                } else {
                    m.fail(TraceError::Protocol)
                },
                Frame::StepApply { pid } => match result {
                    None => m.emit(Frame::StepWait { pid }, Command::WaitFor { pid }),
                    Some(StopReason::DebugeeExit(code)) => m.fail(TraceError::DebugeeExited(code)),
                    Some(StopReason::DebugeeStart) => m.fail(TraceError::UnexpectedStart),
                    Some(StopReason::Breakpoint(hit, _)) => if hit == pid {
                        m.ret_step()
                    } else {
                        m.emit(Frame::StepWait { pid }, Command::WaitFor { pid })
                    },
                    Some(_) => m.ret_step(),
                },
                _ => self.fail(TraceError::Protocol),
            }
        }
    }

    // ------------------------------------------------------------------
    // Group stop
    // ------------------------------------------------------------------
    /// The current target is done with: it counts as stopped from now on.
    pub open spec fn settle(self, bps: Seq<Breakpoint>) -> (Machine, Step)
        decreases self.stack.len(), 2int,
    {
        if 0 <= self.cursor < self.targets.len() {
            let pid = self.targets[self.cursor];
            Machine {
                tracees: if is_running(self.tracees, pid) {
                    halted(self.tracees, pid, StopType::Interrupt)
                } else {
                    self.tracees
                },
                cursor: self.cursor + 1,
                ..self
            }.group_next(bps)
        } else {
            self.fail(TraceError::Protocol)
        }
    }

    /// Interrupts the next running target. When a round has none left, the
    /// second round starts over on the threads attached by then; after it
    /// the group stop is complete.
    pub open spec fn group_next(self, bps: Seq<Breakpoint>) -> (Machine, Step)
        decreases self.stack.len(), 1int,
    {
        let i = next_target(self.targets, self.tracees, self.cursor);
        if 0 <= i < self.targets.len() {
            Machine { cursor: i, ..self }.emit(
                Frame::GroupInterrupt,
                Command::Interrupt { pid: self.targets[i] },
            )
        } else if !self.second_round {
            let again = pids(self.tracees);
            let j = next_target(again, self.tracees, 0);
            let m = Machine { second_round: true, targets: again, cursor: j, ..self };
            if 0 <= j < again.len() {
                m.emit(Frame::GroupInterrupt, Command::Interrupt { pid: again[j] })
            } else {
                m.group_done(bps)
            }
        } else {
            Machine { cursor: i, ..self }.group_done(bps)
        }
    }

    /// The group stop is complete: the stop that waited for it is reported.
    pub open spec fn group_done(self, bps: Seq<Breakpoint>) -> (Machine, Step)
        decreases self.stack.len(), 0int,
    {
        if self.stack.len() == 0 {
            self.fail(TraceError::Protocol)
        } else {
            match self.stack.last() {
                Frame::Report { reason } => Machine { guard: false, ..self }.pop().ret_apply(
                    bps,
                    Some(reason),
                ),
                _ => self.fail(TraceError::Protocol),
            }
        }
    }

    pub open spec fn on_group_interrupt(self, bps: Seq<Breakpoint>, reply: Reply) -> (
        Machine,
        Step,
    ) {
        if 0 <= self.cursor < self.targets.len() {
            match reply {
                Reply::Done => self.emit(
                    Frame::GroupWait,
                    Command::WaitFor { pid: self.targets[self.cursor] },
                ),
                Reply::Failed(errno) => if errno == ESRCH {
                    self.settle(bps)
                } else {
                    self.fail(TraceError::Ptrace(errno))
                },
                _ => self.fail(TraceError::Protocol),
            }
        } else {
            self.fail(TraceError::Protocol)
        }
    }

    pub open spec fn on_group_wait(self, bps: Seq<Breakpoint>, reply: Reply) -> (Machine, Step) {
        match reply {
            Reply::Status(status) => if status matches WaitStatus::PtraceEvent(_, _, event)
                && event == PTRACE_EVENT_STOP {
                self.settle(bps)
            } else {
                self.push(Frame::GroupApply).apply(bps, status)
            },
            Reply::Failed(errno) => self.fail(TraceError::Ptrace(errno)),
            _ => self.fail(TraceError::Protocol),
        }
    }

    // ------------------------------------------------------------------
    // Single step
    // ------------------------------------------------------------------
    /// A single step of `pid` is asked for.
    pub open spec fn single_step(self, pid: Pid) -> (Machine, Step) {
        if self.stack.len() != 0 {
            self.fail(TraceError::Protocol)
        } else {
            self.push(Frame::StepRoot).emit(Frame::StepIssue { pid }, Command::SingleStep { pid })
        }
    }

    pub open spec fn on_step_issue(self, pid: Pid, reply: Reply) -> (Machine, Step) {
        match reply {
            Reply::Done => self.emit(Frame::StepWait { pid }, Command::WaitFor { pid }),
            Reply::Failed(errno) => self.fail(TraceError::Ptrace(errno)),
            _ => self.fail(TraceError::Protocol),
        }
    }

    pub open spec fn on_step_wait(self, bps: Seq<Breakpoint>, pid: Pid, reply: Reply) -> (
        Machine,
        Step,
    ) {
        match reply {
            Reply::Status(status) => match status {
                WaitStatus::Stopped(subject, signal) => self.emit(
                    Frame::StepSignalInfo { pid, subject, signal },
                    Command::GetSignalInfo { pid },
                ),
                WaitStatus::PtraceEvent(_, _, event) => if event == PTRACE_EVENT_STOP {
                    self.ret_step()
                } else {
                    self.push(Frame::StepApply { pid }).apply(bps, status)
                },
                _ => self.push(Frame::StepApply { pid }).apply(bps, status),
            },
            Reply::Failed(errno) => self.fail(TraceError::Ptrace(errno)),
            _ => self.fail(TraceError::Protocol),
        }
    }

    pub open spec fn on_step_signal_info(
        self,
        bps: Seq<Breakpoint>,
        pid: Pid,
        subject: Pid,
        signal: Signal,
        reply: Reply,
    ) -> (Machine, Step) {
        match reply {
            Reply::SignalCode(code) => if signal.is_trap() && code == TRAP_TRACE {
                self.ret_step()
            } else {
                self.push(Frame::StepApply { pid }).stopped_with(bps, subject, signal, code)
            },
            Reply::Failed(errno) => if errno == ESRCH {
                self.ret_step()
            } else {
                self.fail(TraceError::Ptrace(errno))
            },
            _ => self.fail(TraceError::Protocol),
        }
    }

    /// The single step is over: whoever asked for it goes on.
    pub open spec fn ret_step(self) -> (Machine, Step) {
        if self.stack.len() == 0 {
            self.fail(TraceError::Protocol)
        } else {
            let m = self.pop();
            match self.stack.last() {
                Frame::StepRoot => (m, Step::Stepped),
                Frame::StepOverStep { pid, index } => m.emit(
                    Frame::StepOverEnable { pid },
                    Command::EnableBreakpoint { index },
                ),
                _ => self.fail(TraceError::Protocol),
            }
        }
    }

    // ------------------------------------------------------------------
    // The driver's reply
    // ------------------------------------------------------------------
    /// The reply to the command that was handed out last has come.
    pub open spec fn advance(self, bps: Seq<Breakpoint>, reply: Reply) -> (Machine, Step) {
        if self.stack.len() == 0 {
            self.fail(TraceError::Protocol)
        } else {
            let m = self.pop();
            match self.stack.last() {
                Frame::ResumeContinue { index } => m.on_resume_continue(index, reply),
                Frame::ResumeWait => m.on_resume_wait(bps, reply),
                Frame::CloneMessage { parent } => m.on_clone_message(bps, reply),
                Frame::CloneChildWait { child } => m.on_clone_child_wait(bps, reply),
                Frame::ExitContinue { pid } => m.on_exit_continue(bps, reply),
                Frame::SignalInfo { pid, signal } => m.on_signal_info(bps, pid, signal, reply),
                Frame::TrapPc { pid } => m.on_trap_pc(bps, pid, reply),
                Frame::TrapRewind { pid, pc } => m.on_trap_rewind(bps, pid, pc, reply),
                Frame::StepOverDisable { pid, index } => m.on_step_over_disable(pid, index, reply),
                Frame::StepOverEnable { pid } => m.on_step_over_enable(bps, pid, reply),
                Frame::GroupInterrupt => m.on_group_interrupt(bps, reply),
                Frame::GroupWait => m.on_group_wait(bps, reply),
                Frame::StepIssue { pid } => m.on_step_issue(pid, reply),
                Frame::StepWait { pid } => m.on_step_wait(bps, pid, reply),
                Frame::StepSignalInfo { pid, subject, signal } => m.on_step_signal_info(
                    bps,
                    pid,
                    subject,
                    signal,
                    reply,
                ),
                _ => self.fail(TraceError::Protocol),
            }
        }
    }
}

} // verus!
