//! The tracer: resumes the debuggee and brings it to a stop that can be reported.
//!
//! The tracer owns the table of threads and decides what happens next; its
//! driver performs the operations on the operating system. A request starts
//! with [`Tracer::resume`] or [`Tracer::single_step`]. Each call gives a
//! [`Step`]: either a command, whose reply goes to [`Tracer::advance`], or
//! the end of the request.

pub mod balance;
pub mod model;
pub mod protocol;
pub mod soundness;

use crate::address::RelocatedAddress;
use crate::breakpoint::Breakpoint;
use crate::tracee::{
    all_stopped, unique_pids, Pid, Signal, StopType, Tracee, TraceeCtl,
};
use crate::tracer::model::{
    first_foreign, foreign_at, is_running, next_target, others_running, own_temporary_at,
    trap_verdict, Machine, TrapVerdict,
};
use crate::tracer::protocol::{
    Command, Frame, Reply, Step, StopReason, TraceError, WaitStatus, ESRCH, PTRACE_EVENT_CLONE,
    PTRACE_EVENT_EXEC, PTRACE_EVENT_EXIT, PTRACE_EVENT_STOP, SI_KERNEL, TRAP_BRKPT, TRAP_TRACE,
};
use crate::tracer::soundness::sound;
use std::collections::VecDeque;
use vstd::prelude::*;

verus! {

/// The breakpoints in force while the tracer works on a request.
#[derive(Clone, Copy)]
pub struct TraceContext<'a> {
    pub breakpoints: &'a Vec<&'a Breakpoint>,
}

impl<'a> View for TraceContext<'a> {
    type V = Seq<Breakpoint>;

    open spec fn view(&self) -> Seq<Breakpoint> {
        Seq::new(self.breakpoints@.len(), |i: int| *self.breakpoints@[i])
    }
}

impl<'a> TraceContext<'a> {
    pub fn new(breakpoints: &'a Vec<&'a Breakpoint>) -> (r: Self)
        ensures
            r.breakpoints == breakpoints,
    {
        Self { breakpoints }
    }

    /// What a breakpoint trap of `pid` at `pc` means: a temporary breakpoint
    /// of the thread itself is a hit; failing that, a breakpoint armed for
    /// another thread is stepped over; anything else is a hit.
    pub fn classify(&self, pid: Pid, pc: usize) -> (r: TrapVerdict)
        ensures
            r == trap_verdict(self@, pid, pc),
    {
        let n = self.breakpoints.len();
        let mut i: usize = 0;
        while i < n
            invariant
                n == self.breakpoints@.len(),
                i <= n,
                forall|k: int|
                    0 <= k < i ==> !((#[trigger] self@[k].at(pc)) && self@[k].temporary
                        && self@[k].pid == pid),
            decreases n - i,
        {
            let b = self.breakpoints[i];
            if b.is_at(pc) && b.temporary && b.pid == pid {
                assert(self@[i as int].at(pc));
                return TrapVerdict::Hit;
            }
            i += 1;
        }
        assert(!own_temporary_at(self@, pid, pc));
        let mut j: usize = 0;
        while j < n
            invariant
                n == self.breakpoints@.len(),
                j <= n,
                !own_temporary_at(self@, pid, pc),
                first_foreign(self@, pid, pc, 0) == first_foreign(self@, pid, pc, j as int),
            decreases n - j,
        {
            let b = self.breakpoints[j];
            if b.is_at(pc) && b.enabled && b.pid != pid {
                assert(foreign_at(self@[j as int], pid, pc));
                return TrapVerdict::StepOver { index: j };
            }
            assert(!foreign_at(self@[j as int], pid, pc));
            j += 1;
        }
        TrapVerdict::Hit
    }
}

/// The tracer of one debuggee.
pub struct Tracer {
    tracee_ctl: TraceeCtl,
    signal_queue: VecDeque<(Pid, Signal)>,
    group_stop_guard: bool,
    inject: Option<(Pid, Signal)>,
    second_round: bool,
    targets: Vec<Pid>,
    cursor: usize,
    stack: Vec<Frame>,
}

impl View for Tracer {
    type V = Machine;

    closed spec fn view(&self) -> Machine {
        Machine {
            process: self.tracee_ctl.process(),
            focus: self.tracee_ctl.focus(),
            tracees: self.tracee_ctl.tracees(),
            queue: self.signal_queue@,
            inject: self.inject,
            guard: self.group_stop_guard,
            second_round: self.second_round,
            targets: self.targets@,
            cursor: self.cursor as int,
            stack: self.stack@,
        }
    }
}

impl Tracer {
    /// The tracer's invariant holds.
    pub open spec fn wf(&self) -> bool {
        self@.inv()
    }

    /// A tracer for the process `proc_pid`, which was just spawned and is stopped.
    pub fn new(proc_pid: Pid) -> (r: Tracer)
        ensures
            r@ == Machine::init(proc_pid),
            r.wf(),
    {
        let r = Tracer {
            tracee_ctl: TraceeCtl::new(proc_pid),
            signal_queue: VecDeque::new(),
            group_stop_guard: false,
            inject: None,
            second_round: false,
            targets: Vec::new(),
            cursor: 0,
            stack: Vec::new(),
        };
        proof {
            Machine::lemma_init(proc_pid);
            assert(r@ =~= Machine::init(proc_pid));
        }
        r
    }

    /// Lets the debuggee run until it stops for a reason to report.
    ///
    /// Every round delivers the oldest signal that is still owed to its
    /// thread, continues all stopped threads, waits for a status and applies
    /// it. A breakpoint or a signal is reported only once every thread is
    /// stopped, and with the thread it names in focus.
    pub fn resume(&mut self, ctx: TraceContext) -> (step: Step)
        requires
            old(self).wf(),
        ensures
            final(self).wf(),
            final(self)@ == old(self)@.resume().0,
            step == old(self)@.resume().1,
            sound((final(self)@, step)),
    {
        proof {
            self@.lemma_resume();
        }
        if self.stack.len() != 0 {
            self.fail(TraceError::Protocol)
        } else {
            self.round()
        }
    }

    /// Lets `pid` run one instruction.
    pub fn single_step(&mut self, ctx: TraceContext, pid: Pid) -> (step: Step)
        requires
            old(self).wf(),
        ensures
            final(self).wf(),
            final(self)@ == old(self)@.single_step(pid).0,
            step == old(self)@.single_step(pid).1,
            sound((final(self)@, step)),
    {
        proof {
            self@.lemma_single_step(pid);
        }
        if self.stack.len() != 0 {
            self.fail(TraceError::Protocol)
        } else {
            self.stack.push(Frame::StepRoot);
            self.emit(Frame::StepIssue { pid }, Command::SingleStep { pid })
        }
    }

    /// Takes the reply to the command that was handed out last.
    pub fn advance(&mut self, ctx: TraceContext, reply: Reply) -> (step: Step)
        requires
            old(self).wf(),
        ensures
            final(self).wf(),
            final(self)@ == old(self)@.advance(ctx@, reply).0,
            step == old(self)@.advance(ctx@, reply).1,
            sound((final(self)@, step)),
    {
        proof {
            self@.lemma_advance(ctx@, reply);
        }
        if self.stack.len() == 0 {
            return self.fail(TraceError::Protocol);
        }
        let top = self.stack[self.stack.len() - 1];
        match top {
            Frame::Resume | Frame::StepRoot | Frame::StepOverStep { .. } | Frame::Report { .. }
            | Frame::GroupApply | Frame::StepApply { .. } => {
                return self.fail(TraceError::Protocol);
            },
            _ => {},
        }
        self.stack.pop();
        assert(self@ =~= old(self)@.pop());
        match top {
            Frame::ResumeContinue { index } => self.on_resume_continue(index, reply),
            Frame::ResumeWait => self.on_resume_wait(ctx, reply),
            Frame::CloneMessage { parent } => self.on_clone_message(ctx, reply),
            Frame::CloneChildWait { child } => match reply {
                Reply::Status(_) => self.ret_apply(ctx, None),
                Reply::Failed(errno) => self.fail(TraceError::Ptrace(errno)),
                _ => self.fail(TraceError::Protocol),
            },
            Frame::ExitContinue { pid } => match reply {
                Reply::Done => self.ret_apply(ctx, None),
                Reply::Failed(errno) => self.fail(TraceError::Ptrace(errno)),
                _ => self.fail(TraceError::Protocol),
            },
            Frame::SignalInfo { pid, signal } => match reply {
                Reply::SignalCode(code) => self.stopped_with(ctx, pid, signal, code),
                Reply::Failed(errno) => if errno == ESRCH {
                    self.ret_apply(ctx, Some(StopReason::NoSuchProcess(pid)))
                } else {
                    self.fail(TraceError::Ptrace(errno))
                },
                _ => self.fail(TraceError::Protocol),
            },
            Frame::TrapPc { pid } => match reply {
                Reply::Pc(pc) => if pc == 0 {
                    self.fail(TraceError::BadProgramCounter)
                } else {
                    self.emit(
                        Frame::TrapRewind { pid, pc: pc - 1 },
                        Command::SetPc { pid, pc: pc - 1 },
                    )
                },
                Reply::Failed(errno) => self.fail(TraceError::Ptrace(errno)),
                _ => self.fail(TraceError::Protocol),
            },
            Frame::TrapRewind { pid, pc } => self.on_trap_rewind(ctx, pid, pc, reply),
            Frame::StepOverDisable { pid, index } => match reply {
                Reply::Done => {
                    self.stack.push(Frame::StepOverStep { pid, index });
                    self.emit(Frame::StepIssue { pid }, Command::SingleStep { pid })
                },
                Reply::Failed(errno) => self.fail(TraceError::Ptrace(errno)),
                _ => self.fail(TraceError::Protocol),
            },
            Frame::StepOverEnable { pid } => match reply {
                Reply::Done => {
                    self.tracee_ctl.set_stop(pid, StopType::Interrupt);
                    self.ret_apply(ctx, None)
                },
                Reply::Failed(errno) => self.fail(TraceError::Ptrace(errno)),
                _ => self.fail(TraceError::Protocol),
            },
            Frame::GroupInterrupt => self.on_group_interrupt(ctx, reply),
            Frame::GroupWait => self.on_group_wait(ctx, reply),
            Frame::StepIssue { pid } => match reply {
                Reply::Done => self.emit(Frame::StepWait { pid }, Command::WaitFor { pid }),
                Reply::Failed(errno) => self.fail(TraceError::Ptrace(errno)),
                _ => self.fail(TraceError::Protocol),
            },
            Frame::StepWait { pid } => self.on_step_wait(ctx, pid, reply),
            Frame::StepSignalInfo { pid, subject, signal } => match reply {
                Reply::SignalCode(code) => if signal.trap() && code == TRAP_TRACE {
                    self.ret_step()
                } else {
                    self.stack.push(Frame::StepApply { pid });
                    self.stopped_with(ctx, subject, signal, code)
                },
                Reply::Failed(errno) => if errno == ESRCH {
                    self.ret_step()
                } else {
                    self.fail(TraceError::Ptrace(errno))
                },
                _ => self.fail(TraceError::Protocol),
            },
            _ => self.fail(TraceError::Protocol),
        }
    }

    /// Whether no request is running.
    pub fn is_idle(&self) -> (r: bool)
        ensures
            r == self@.idle(),
    {
        self.stack.len() == 0
    }

    /// A copy of the table of threads.
    pub fn snapshot(&self) -> (r: Vec<Tracee>)
        ensures
            r@ == self@.tracees,
    {
        self.tracee_ctl.snapshot()
    }

    /// The record of `pid`, if it is attached.
    pub fn tracee(&self, pid: Pid) -> (r: Option<Tracee>)
        requires
            self.wf(),
        ensures
            r == crate::tracee::lookup(self@.tracees, pid),
    {
        self.tracee_ctl.tracee(pid)
    }

    /// The thread in focus.
    pub fn focus(&self) -> (r: Pid)
        ensures
            r == self@.focus,
    {
        self.tracee_ctl.focus_pid()
    }

    /// The group leader.
    pub fn proc_pid(&self) -> (r: Pid)
        ensures
            r == self@.process,
    {
        self.tracee_ctl.proc_pid()
    }

    /// Whether every attached thread is stopped.
    pub fn all_stopped(&self) -> (r: bool)
        ensures
            r == all_stopped(self@.tracees),
    {
        self.tracee_ctl.all_stopped()
    }

    /// How many signals are still owed to their threads.
    pub fn pending_signals(&self) -> (r: usize)
        ensures
            r == self@.queue.len(),
    {
        self.signal_queue.len()
    }

    // ------------------------------------------------------------------
    fn emit(&mut self, frame: Frame, command: Command) -> (step: Step)
        ensures
            final(self)@ == old(self)@.emit(frame, command).0,
            step == old(self)@.emit(frame, command).1,
    {
        self.stack.push(frame);
        assert(self@ =~= old(self)@.emit(frame, command).0);
        Step::Perform(command)
    }

    fn fail(&mut self, error: TraceError) -> (step: Step)
        ensures
            final(self)@ == old(self)@.fail(error).0,
            step == old(self)@.fail(error).1,
    {
        self.stack.clear();
        self.group_stop_guard = false;
        assert(self@ =~= old(self)@.fail(error).0);
        Step::Fail(error)
    }

    fn signal_for(&self, pid: Pid) -> (r: Option<Signal>)
        ensures
            r == self@.signal_for(pid),
    {
        match self.inject {
            Some((target, signal)) => if target == pid {
                Some(signal)
            } else {
                None
            },
            None => None,
        }
    }

    fn round(&mut self) -> (step: Step)
        ensures
            final(self)@ == old(self)@.round().0,
            step == old(self)@.round().1,
    {
        let head = self.signal_queue.pop_front();
        self.inject = head;
        proof {
            if old(self)@.queue.len() > 0 {
                assert(self@ =~= Machine {
                    inject: Some(old(self)@.queue[0]),
                    queue: old(self)@.queue.drop_first(),
                    ..old(self)@
                });
            } else {
                assert(self@ =~= Machine { inject: None, ..old(self)@ });
            }
        }
        self.continue_from(0)
    }

    fn continue_from(&mut self, from: usize) -> (step: Step)
        ensures
            final(self)@ == old(self)@.continue_from(from as int).0,
            step == old(self)@.continue_from(from as int).1,
    {
        let i = self.tracee_ctl.next_stopped(from);
        if i < self.tracee_ctl.len() {
            let tracee = self.tracee_ctl.at(i);
            let signal = self.signal_for(tracee.pid);
            self.emit(
                Frame::ResumeContinue { index: i },
                Command::Continue { pid: tracee.pid, signal },
            )
        } else {
            self.emit(Frame::ResumeWait, Command::WaitAny)
        }
    }

    fn on_resume_continue(&mut self, index: usize, reply: Reply) -> (step: Step)
        requires
            unique_pids(old(self)@.tracees),
        ensures
            final(self)@ == old(self)@.on_resume_continue(index, reply).0,
            step == old(self)@.on_resume_continue(index, reply).1,
    {
        match reply {
            Reply::Done => if index < self.tracee_ctl.len() {
                self.tracee_ctl.set_running(index);
                assert(self@ =~= old(self)@.with_tracees(
                    old(self)@.tracees.update(
                        index as int,
                        old(self)@.tracees[index as int].resumed(),
                    ),
                ));
                self.continue_from(index + 1)
            } else {
                self.fail(TraceError::Protocol)
            },
            Reply::Failed(errno) => if errno == ESRCH {
                if index < self.tracee_ctl.len() {
                    self.continue_from(index + 1)
                } else {
                    let end = self.tracee_ctl.len();
                    assert(crate::tracee::next_stopped(self@.tracees, index + 1)
                        == crate::tracee::next_stopped(self@.tracees, end as int));
                    self.continue_from(end)
                }
            } else {
                self.fail(TraceError::Ptrace(errno))
            },
            _ => self.fail(TraceError::Protocol),
        }
    }

    fn on_resume_wait(&mut self, ctx: TraceContext, reply: Reply) -> (step: Step)
        requires
            unique_pids(old(self)@.tracees),
        ensures
            final(self)@ == old(self)@.on_resume_wait(ctx@, reply).0,
            step == old(self)@.on_resume_wait(ctx@, reply).1,
    {
        match reply {
            Reply::Status(status) => {
                self.stack.push(Frame::Resume);
                assert(self@ =~= old(self)@.push(Frame::Resume));
                self.apply(ctx, status)
            },
            Reply::Failed(errno) => self.fail(TraceError::Ptrace(errno)),
            _ => self.fail(TraceError::Protocol),
        }
    }

    fn apply(&mut self, ctx: TraceContext, status: WaitStatus) -> (step: Step)
        requires
            unique_pids(old(self)@.tracees),
        ensures
            final(self)@ == old(self)@.apply(ctx@, status).0,
            step == old(self)@.apply(ctx@, status).1,
    {
        match status {
            WaitStatus::Exited(pid, code) => {
                self.tracee_ctl.remove(pid);
                assert(self@ =~= old(self)@.with_tracees(
                    crate::tracee::dropped(old(self)@.tracees, pid),
                ));
                if pid == self.tracee_ctl.proc_pid() {
                    self.ret_apply(ctx, Some(StopReason::DebugeeExit(code)))
                } else {
                    self.ret_apply(ctx, None)
                }
            },
            WaitStatus::PtraceEvent(pid, _, event) => {
                if event == PTRACE_EVENT_EXEC {
                    self.tracee_ctl.add(pid);
                    assert(self@ =~= old(self)@.with_tracees(
                        crate::tracee::registered(old(self)@.tracees, pid),
                    ));
                    self.ret_apply(ctx, Some(StopReason::DebugeeStart))
                } else if event == PTRACE_EVENT_CLONE {
                    self.tracee_ctl.set_stop(pid, StopType::Interrupt);
                    assert(self@ =~= old(self)@.with_tracees(
                        crate::tracee::halted(old(self)@.tracees, pid, StopType::Interrupt),
                    ));
                    self.emit(Frame::CloneMessage { parent: pid }, Command::GetEventMessage { pid })
                } else if event == PTRACE_EVENT_STOP {
                    self.tracee_ctl.set_stop(pid, StopType::Interrupt);
                    assert(self@ =~= old(self)@.with_tracees(
                        crate::tracee::halted(old(self)@.tracees, pid, StopType::Interrupt),
                    ));
                    self.ret_apply(ctx, None)
                } else if event == PTRACE_EVENT_EXIT {
                    match self.tracee_ctl.remove(pid) {
                        Some(_) => {
                            assert(self@ =~= old(self)@.with_tracees(
                                crate::tracee::dropped(old(self)@.tracees, pid),
                            ));
                            self.emit(
                                Frame::ExitContinue { pid },
                                Command::Continue { pid, signal: None },
                            )
                        },
                        None => {
                            assert(self@ =~= old(self)@);
                            self.ret_apply(ctx, None)
                        },
                    }
                } else {
                    self.ret_apply(ctx, None)
                }
            },
            WaitStatus::Stopped(pid, signal) => self.emit(
                Frame::SignalInfo { pid, signal },
                Command::GetSignalInfo { pid },
            ),
            _ => self.ret_apply(ctx, None),
        }
    }

    fn on_clone_message(&mut self, ctx: TraceContext, reply: Reply) -> (step: Step)
        requires
            unique_pids(old(self)@.tracees),
        ensures
            final(self)@ == old(self)@.on_clone_message(ctx@, reply).0,
            step == old(self)@.on_clone_message(ctx@, reply).1,
    {
        match reply {
            Reply::EventMessage(message) => if -0x8000_0000 <= message && message <= 0x7fff_ffff {
                let child = Pid(message as i32);
                if self.tracee_ctl.slot(child).is_some() {
                    self.ret_apply(ctx, None)
                } else {
                    self.tracee_ctl.add(child);
                    assert(self@ =~= old(self)@.with_tracees(
                        crate::tracee::registered(old(self)@.tracees, child),
                    ));
                    self.emit(Frame::CloneChildWait { child }, Command::WaitFor { pid: child })
                }
            } else {
                self.fail(TraceError::Protocol)
            },
            Reply::Failed(errno) => self.fail(TraceError::Ptrace(errno)),
            _ => self.fail(TraceError::Protocol),
        }
    }

    fn stopped_with(&mut self, ctx: TraceContext, pid: Pid, signal: Signal, code: i32) -> (step:
        Step)
        requires
            unique_pids(old(self)@.tracees),
        ensures
            final(self)@ == old(self)@.stopped_with(ctx@, pid, signal, code).0,
            step == old(self)@.stopped_with(ctx@, pid, signal, code).1,
    {
        if signal.trap() {
            if code == TRAP_TRACE {
                self.tracee_ctl.set_stop(pid, StopType::Interrupt);
                assert(self@ =~= old(self)@.with_tracees(
                    crate::tracee::halted(old(self)@.tracees, pid, StopType::Interrupt),
                ));
                self.ret_apply(ctx, None)
            } else if code == TRAP_BRKPT || code == SI_KERNEL {
                self.emit(Frame::TrapPc { pid }, Command::GetPc { pid })
            } else {
                self.fail(TraceError::UnexpectedTrapCode(code))
            }
        } else {
            self.signal_queue.push_back((pid, signal));
            self.tracee_ctl.set_stop(pid, StopType::SignalStop(signal));
            assert(self@ =~= Machine {
                queue: old(self)@.queue.push((pid, signal)),
                tracees: crate::tracee::halted(
                    old(self)@.tracees,
                    pid,
                    StopType::SignalStop(signal),
                ),
                ..old(self)@
            });
            self.report(ctx, pid, StopReason::SignalStop(pid, signal))
        }
    }

    fn on_trap_rewind(&mut self, ctx: TraceContext, pid: Pid, pc: usize, reply: Reply) -> (step:
        Step)
        requires
            unique_pids(old(self)@.tracees),
        ensures
            final(self)@ == old(self)@.on_trap_rewind(ctx@, pid, pc, reply).0,
            step == old(self)@.on_trap_rewind(ctx@, pid, pc, reply).1,
    {
        match reply {
            Reply::Done => match ctx.classify(pid, pc) {
                TrapVerdict::StepOver { index } => self.emit(
                    Frame::StepOverDisable { pid, index },
                    Command::DisableBreakpoint { index },
                ),
                TrapVerdict::Hit => {
                    self.tracee_ctl.set_tracee_to_focus(pid);
                    self.tracee_ctl.set_stop(pid, StopType::Interrupt);
                    assert(self@ =~= Machine {
                        focus: pid,
                        tracees: crate::tracee::halted(
                            old(self)@.tracees,
                            pid,
                            StopType::Interrupt,
                        ),
                        ..old(self)@
                    });
                    self.report(ctx, pid, StopReason::Breakpoint(pid, RelocatedAddress(pc)))
                },
            },
            Reply::Failed(errno) => self.fail(TraceError::Ptrace(errno)),
            _ => self.fail(TraceError::Protocol),
        }
    }

    fn is_running(&self, pid: Pid) -> (r: bool)
        requires
            unique_pids(self@.tracees),
        ensures
            r == is_running(self@.tracees, pid),
    {
        match self.tracee_ctl.tracee(pid) {
            Some(tracee) => !tracee.is_stopped(),
            None => false,
        }
    }

    fn others_running(&self, initiator: Pid) -> (r: bool)
        ensures
            r == others_running(self@.tracees, initiator),
    {
        let n = self.tracee_ctl.len();
        let mut i: usize = 0;
        while i < n
            invariant
                n == self@.tracees.len(),
                i <= n,
                forall|k: int|
                    0 <= k < i ==> !((#[trigger] self@.tracees[k]).pid != initiator
                        && !self@.tracees[k].stopped()),
            decreases n - i,
        {
            let tracee = self.tracee_ctl.at(i);
            if tracee.pid != initiator && !tracee.is_stopped() {
                return true;
            }
            i += 1;
        }
        false
    }

    fn next_target(&self, from: usize) -> (r: usize)
        requires
            unique_pids(self@.tracees),
        ensures
            r == next_target(self@.targets, self@.tracees, from as int),
            r <= self@.targets.len(),
    {
        let n = self.targets.len();
        let mut i: usize = from;
        while i < n
            invariant
                n == self@.targets.len(),
                from <= i,
                unique_pids(self@.tracees),
                next_target(self@.targets, self@.tracees, from as int) == next_target(
                    self@.targets,
                    self@.tracees,
                    i as int,
                ),
            decreases n - i,
        {
            if self.is_running(self.targets[i]) {
                return i;
            }
            i += 1;
        }
        n
    }

    fn report(&mut self, ctx: TraceContext, initiator: Pid, reason: StopReason) -> (step: Step)
        requires
            unique_pids(old(self)@.tracees),
        ensures
            final(self)@ == old(self)@.report(ctx@, initiator, reason).0,
            step == old(self)@.report(ctx@, initiator, reason).1,
    {
        if self.group_stop_guard || !self.others_running(initiator) {
            self.ret_apply(ctx, Some(reason))
        } else {
            self.group_stop_guard = true;
            self.second_round = false;
            self.targets = self.tracee_ctl.pids();
            self.cursor = 0;
            self.stack.push(Frame::Report { reason });
            assert(self@ =~= Machine {
                guard: true,
                second_round: false,
                targets: crate::tracee::pids(old(self)@.tracees),
                cursor: 0,
                ..old(self)@
            }.push(Frame::Report { reason }));
            self.group_next(ctx)
        }
    }

    fn ret_apply(&mut self, ctx: TraceContext, result: Option<StopReason>) -> (step: Step)
        requires
            unique_pids(old(self)@.tracees),
        ensures
            final(self)@ == old(self)@.ret_apply(ctx@, result).0,
            step == old(self)@.ret_apply(ctx@, result).1,
        decreases old(self)@.stack.len(), 3int,
    {
        if self.stack.len() == 0 {
            return self.fail(TraceError::Protocol);
        }
        let top = self.stack[self.stack.len() - 1];
        match top {
            Frame::Resume => {
                self.stack.pop();
                assert(self@ =~= old(self)@.pop());
                match result {
                    Some(reason) => {
                        match reason {
                            StopReason::Breakpoint(pid, _) => {
                                self.tracee_ctl.set_tracee_to_focus(pid);
                            },
                            StopReason::SignalStop(pid, _) => {
                                self.tracee_ctl.set_tracee_to_focus(pid);
                            },
                            _ => {},
                        }
                        assert(self@ =~= old(self)@.ret_apply(ctx@, result).0);
                        Step::Stop(reason)
                    },
                    None => self.round(),
                }
            },
            Frame::GroupApply => {
                self.stack.pop();
                assert(self@ =~= old(self)@.pop());
                if self.cursor >= self.targets.len() {
                    return self.fail(TraceError::Protocol);
                }
                let pid = self.targets[self.cursor];
                match result {
                    Some(StopReason::DebugeeExit(code)) => self.fail(
                        TraceError::DebugeeExited(code),
                    ),
                    Some(StopReason::DebugeeStart) => self.fail(TraceError::UnexpectedStart),
                    Some(StopReason::SignalStop(_, _)) => self.settle(ctx),
                    Some(StopReason::NoSuchProcess(_)) => self.settle(ctx),
                    Some(StopReason::Breakpoint(hit, _)) => if hit == pid {
                        self.settle(ctx)
                    } else {
                        self.look_again(ctx, pid)
                    },
                    None => self.look_again(ctx, pid),
                }
            },
            Frame::StepApply { pid } => {
                self.stack.pop();
                assert(self@ =~= old(self)@.pop());
                match result {
                    None => self.emit(Frame::StepWait { pid }, Command::WaitFor { pid }),
                    Some(StopReason::DebugeeExit(code)) => self.fail(
                        TraceError::DebugeeExited(code),
                    ),
                    Some(StopReason::DebugeeStart) => self.fail(TraceError::UnexpectedStart),
                    Some(StopReason::Breakpoint(hit, _)) => if hit == pid {
                        self.ret_step()
                    } else {
                        self.emit(Frame::StepWait { pid }, Command::WaitFor { pid })
                    },
                    Some(_) => self.ret_step(),
                }
            },
            _ => self.fail(TraceError::Protocol),
        }
    }

    /// The current target of the group stop may have stopped meanwhile:
    /// settles it if so, and else waits for its next status.
    fn look_again(&mut self, ctx: TraceContext, pid: Pid) -> (step: Step)
        requires
            unique_pids(old(self)@.tracees),
            0 <= old(self)@.cursor < old(self)@.targets.len(),
            pid == old(self)@.targets[old(self)@.cursor],
        ensures
            final(self)@ == (match crate::tracee::lookup(old(self)@.tracees, pid) {
                None => old(self)@.settle(ctx@),
                Some(tracee) => if tracee.status == crate::tracee::TraceeStatus::Stopped(
                    StopType::Interrupt,
                ) {
                    old(self)@.settle(ctx@)
                } else {
                    old(self)@.emit(Frame::GroupWait, Command::WaitFor { pid })
                },
            }).0,
            step == (match crate::tracee::lookup(old(self)@.tracees, pid) {
                None => old(self)@.settle(ctx@),
                Some(tracee) => if tracee.status == crate::tracee::TraceeStatus::Stopped(
                    StopType::Interrupt,
                ) {
                    old(self)@.settle(ctx@)
                } else {
                    old(self)@.emit(Frame::GroupWait, Command::WaitFor { pid })
                },
            }).1,
        decreases old(self)@.stack.len(), 2int, 1int,
    {
        match self.tracee_ctl.tracee(pid) {
            None => self.settle(ctx),
            Some(tracee) => if tracee.is_interrupted() {
                self.settle(ctx)
            } else {
                self.emit(Frame::GroupWait, Command::WaitFor { pid })
            },
        }
    }

    fn settle(&mut self, ctx: TraceContext) -> (step: Step)
        requires
            unique_pids(old(self)@.tracees),
        ensures
            final(self)@ == old(self)@.settle(ctx@).0,
            step == old(self)@.settle(ctx@).1,
        decreases old(self)@.stack.len(), 2int, 0int,
    {
        if self.cursor >= self.targets.len() {
            return self.fail(TraceError::Protocol);
        }
        let pid = self.targets[self.cursor];
        if self.is_running(pid) {
            self.tracee_ctl.set_stop(pid, StopType::Interrupt);
        }
        self.cursor = self.cursor + 1;
        assert(self@ =~= Machine {
            tracees: if is_running(old(self)@.tracees, pid) {
                crate::tracee::halted(old(self)@.tracees, pid, StopType::Interrupt)
            } else {
                old(self)@.tracees
            },
            cursor: old(self)@.cursor + 1,
            ..old(self)@
        });
        self.group_next(ctx)
    }

    fn group_next(&mut self, ctx: TraceContext) -> (step: Step)
        requires
            unique_pids(old(self)@.tracees),
        ensures
            final(self)@ == old(self)@.group_next(ctx@).0,
            step == old(self)@.group_next(ctx@).1,
        decreases old(self)@.stack.len(), 1int, 0int,
    {
        let i = self.next_target(self.cursor);
        if i < self.targets.len() {
            self.cursor = i;
            assert(self@ =~= Machine { cursor: i as int, ..old(self)@ });
            let pid = self.targets[i];
            self.emit(Frame::GroupInterrupt, Command::Interrupt { pid })
        } else if !self.second_round {
            self.second_round = true;
            self.targets = self.tracee_ctl.pids();
            let j = self.next_target(0);
            self.cursor = j;
            assert(self@ =~= Machine {
                second_round: true,
                targets: crate::tracee::pids(old(self)@.tracees),
                cursor: j as int,
                ..old(self)@
            });
            if j < self.targets.len() {
                let pid = self.targets[j];
                self.emit(Frame::GroupInterrupt, Command::Interrupt { pid })
            } else {
                self.group_done(ctx)
            }
        } else {
            self.cursor = i;
            assert(self@ =~= Machine { cursor: i as int, ..old(self)@ });
            self.group_done(ctx)
        }
    }

    fn group_done(&mut self, ctx: TraceContext) -> (step: Step)
        requires
            unique_pids(old(self)@.tracees),
        ensures
            final(self)@ == old(self)@.group_done(ctx@).0,
            step == old(self)@.group_done(ctx@).1,
        decreases old(self)@.stack.len(), 0int, 0int,
    {
        if self.stack.len() == 0 {
            return self.fail(TraceError::Protocol);
        }
        let top = self.stack[self.stack.len() - 1];
        match top {
            Frame::Report { reason } => {
                self.group_stop_guard = false;
                self.stack.pop();
                assert(self@ =~= Machine { guard: false, ..old(self)@ }.pop());
                self.ret_apply(ctx, Some(reason))
            },
            _ => self.fail(TraceError::Protocol),
        }
    }

    fn on_group_interrupt(&mut self, ctx: TraceContext, reply: Reply) -> (step: Step)
        requires
            unique_pids(old(self)@.tracees),
        ensures
            final(self)@ == old(self)@.on_group_interrupt(ctx@, reply).0,
            step == old(self)@.on_group_interrupt(ctx@, reply).1,
    {
        if self.cursor >= self.targets.len() {
            return self.fail(TraceError::Protocol);
        }
        match reply {
            Reply::Done => {
                let pid = self.targets[self.cursor];
                self.emit(Frame::GroupWait, Command::WaitFor { pid })
            },
            Reply::Failed(errno) => if errno == ESRCH {
                self.settle(ctx)
            } else {
                self.fail(TraceError::Ptrace(errno))
            },
            _ => self.fail(TraceError::Protocol),
        }
    }

    fn on_group_wait(&mut self, ctx: TraceContext, reply: Reply) -> (step: Step)
        requires
            unique_pids(old(self)@.tracees),
        ensures
            final(self)@ == old(self)@.on_group_wait(ctx@, reply).0,
            step == old(self)@.on_group_wait(ctx@, reply).1,
    {
        match reply {
            Reply::Status(status) => {
                let stop_event = match status {
                    WaitStatus::PtraceEvent(_, _, event) => event == PTRACE_EVENT_STOP,
                    _ => false,
                };
                if stop_event {
                    self.settle(ctx)
                } else {
                    self.stack.push(Frame::GroupApply);
                    assert(self@ =~= old(self)@.push(Frame::GroupApply));
                    self.apply(ctx, status)
                }
            },
            Reply::Failed(errno) => self.fail(TraceError::Ptrace(errno)),
            _ => self.fail(TraceError::Protocol),
        }
    }

    fn on_step_wait(&mut self, ctx: TraceContext, pid: Pid, reply: Reply) -> (step: Step)
        requires
            unique_pids(old(self)@.tracees),
        ensures
            final(self)@ == old(self)@.on_step_wait(ctx@, pid, reply).0,
            step == old(self)@.on_step_wait(ctx@, pid, reply).1,
    {
        match reply {
            Reply::Status(status) => match status {
                WaitStatus::Stopped(subject, signal) => self.emit(
                    Frame::StepSignalInfo { pid, subject, signal },
                    Command::GetSignalInfo { pid },
                ),
                WaitStatus::PtraceEvent(_, _, event) => if event == PTRACE_EVENT_STOP {
                    self.ret_step()
                } else {
                    self.stack.push(Frame::StepApply { pid });
                    assert(self@ =~= old(self)@.push(Frame::StepApply { pid }));
                    self.apply(ctx, status)
                },
                _ => {
                    self.stack.push(Frame::StepApply { pid });
                    assert(self@ =~= old(self)@.push(Frame::StepApply { pid }));
                    self.apply(ctx, status)
                },
            },
            Reply::Failed(errno) => self.fail(TraceError::Ptrace(errno)),
            _ => self.fail(TraceError::Protocol),
        }
    }

    fn ret_step(&mut self) -> (step: Step)
        ensures
            final(self)@ == old(self)@.ret_step().0,
            step == old(self)@.ret_step().1,
    {
        if self.stack.len() == 0 {
            return self.fail(TraceError::Protocol);
        }
        let top = self.stack[self.stack.len() - 1];
        match top {
            Frame::StepRoot => {
                self.stack.pop();
                assert(self@ =~= old(self)@.pop());
                Step::Stepped
            },
            Frame::StepOverStep { pid, index } => {
                self.stack.pop();
                assert(self@ =~= old(self)@.pop());
                self.emit(Frame::StepOverEnable { pid }, Command::EnableBreakpoint { index })
            },
            _ => self.fail(TraceError::Protocol),
        }
    }
}

} // verus!
