//! Stepping over breakpoints is balanced: what a tracer disarms on the way
//! it arms again before it reports, so a request that ends well leaves the
//! breakpoints and the memory under them as it found them.

use crate::breakpoint::{
    all_agree, apart, lemma_step_over_cycle, lemma_toggle_keeps_agreement, place_of, readable,
    toggled, Breakpoint,
};
use crate::tracee::{dropped, halted, pids, registered, Pid, Signal, StopType};
use crate::tracer::model::{
    first_foreign, foreign_at, is_running, next_target, trap_verdict, Machine, TrapVerdict,
};
use crate::tracer::protocol::{Command, Frame, Reply, Step, StopReason, WaitStatus};
use crate::tracer::soundness::performed;
use vstd::prelude::*;

verus! {

/// The breakpoint that a frame holds disarmed, if it holds one.
pub open spec fn held(frame: Frame) -> Option<usize> {
    match frame {
        Frame::StepOverDisable { index, .. } => Some(index),
        Frame::StepOverStep { index, .. } => Some(index),
        _ => None,
    }
}

/// The breakpoints that the tracer has asked to disarm and not yet asked to
/// arm again, oldest first.
pub open spec fn owed(stack: Seq<Frame>) -> Seq<usize>
    decreases stack.len(),
{
    if stack.len() == 0 {
        Seq::empty()
    } else {
        match held(stack.last()) {
            Some(index) => owed(stack.drop_last()).push(index),
            None => owed(stack.drop_last()),
        }
    }
}

/// A move of the tracer is balanced against what it owed before: it
/// disarms only an armed breakpoint, which it owes from then on; it arms
/// only the breakpoint it disarmed last, which it owes no longer; and
/// nothing else changes what it owes.
pub open spec fn balanced(before: Seq<usize>, bps: Seq<Breakpoint>, out: (Machine, Step)) -> bool {
    match out.1 {
        Step::Fail(_) => true,
        Step::Perform(Command::DisableBreakpoint { index }) => owed(out.0.stack) == before.push(
            index,
        ) && index < bps.len() && bps[index as int].enabled,
        Step::Perform(Command::EnableBreakpoint { index }) => before == owed(out.0.stack).push(
            index,
        ),
        _ => owed(out.0.stack) == before,
    }
}

/// The command arms or disarms a breakpoint.
pub open spec fn toggles(command: Command) -> bool {
    command is EnableBreakpoint || command is DisableBreakpoint
}

proof fn lemma_owed_push(stack: Seq<Frame>, frame: Frame)
    ensures
        owed(stack.push(frame)) == match held(frame) {
            Some(index) => owed(stack).push(index),
            None => owed(stack),
        },
{
    assert(stack.push(frame).drop_last() =~= stack);
}

/// Where the scan for a foreign breakpoint stops.
proof fn lemma_first_foreign(bps: Seq<Breakpoint>, pid: Pid, pc: usize, from: int)
    requires
        0 <= from,
    ensures
        first_foreign(bps, pid, pc, from) <= bps.len(),
        first_foreign(bps, pid, pc, from) < bps.len() ==> 0 <= first_foreign(bps, pid, pc, from)
            && foreign_at(bps[first_foreign(bps, pid, pc, from)], pid, pc),
    decreases bps.len() - from,
{
    if from < bps.len() && !foreign_at(bps[from], pid, pc) {
        lemma_first_foreign(bps, pid, pc, from + 1);
    }
}

impl Machine {
    proof fn lemma_emit_balanced(self, bps: Seq<Breakpoint>, frame: Frame, command: Command)
        requires
            held(frame) is None,
            !toggles(command),
        ensures
            balanced(owed(self.stack), bps, self.emit(frame, command)),
    {
        lemma_owed_push(self.stack, frame);
    }

    proof fn lemma_continue_balanced(self, bps: Seq<Breakpoint>, from: int)
        ensures
            balanced(owed(self.stack), bps, self.continue_from(from)),
    {
        let i = crate::tracee::next_stopped(self.tracees, from);
        if 0 <= i < self.tracees.len() {
            self.lemma_emit_balanced(
                bps,
                Frame::ResumeContinue { index: i as usize },
                Command::Continue {
                    pid: self.tracees[i].pid,
                    signal: self.signal_for(self.tracees[i].pid),
                },
            );
        } else {
            self.lemma_emit_balanced(bps, Frame::ResumeWait, Command::WaitAny);
        }
    }

    proof fn lemma_round_balanced(self, bps: Seq<Breakpoint>)
        ensures
            balanced(owed(self.stack), bps, self.round()),
    {
        if self.queue.len() > 0 {
            Machine {
                inject: Some(self.queue[0]),
                queue: self.queue.drop_first(),
                ..self
            }.lemma_continue_balanced(bps, 0);
        } else {
            Machine { inject: None, ..self }.lemma_continue_balanced(bps, 0);
        }
    }

    proof fn lemma_ret_step_balanced(self, bps: Seq<Breakpoint>)
        ensures
            balanced(owed(self.stack), bps, self.ret_step()),
    {
        if self.stack.len() > 0 {
            if let Frame::StepOverStep { pid, index } = self.stack.last() {
                lemma_owed_push(self.pop().stack, Frame::StepOverEnable { pid });
            }
        }
    }

    proof fn lemma_ret_apply_balanced(self, bps: Seq<Breakpoint>, result: Option<StopReason>)
        ensures
            balanced(owed(self.stack), bps, self.ret_apply(bps, result)),
        decreases self.stack.len(), 3int,
    {
        if self.stack.len() > 0 {
            let m = self.pop();
            match self.stack.last() {
                Frame::Resume => {
                    m.lemma_round_balanced(bps);
                },
                Frame::GroupApply => {
                    if 0 <= m.cursor < m.targets.len() {
                        let pid = m.targets[m.cursor];
                        m.lemma_settle_balanced(bps);
                        m.lemma_emit_balanced(bps, Frame::GroupWait, Command::WaitFor { pid });
                    }
                },
                Frame::StepApply { pid } => {
                    m.lemma_emit_balanced(bps, Frame::StepWait { pid }, Command::WaitFor { pid });
                    m.lemma_ret_step_balanced(bps);
                },
                _ => {},
            }
        }
    }

    proof fn lemma_settle_balanced(self, bps: Seq<Breakpoint>)
        ensures
            balanced(owed(self.stack), bps, self.settle(bps)),
        decreases self.stack.len(), 2int,
    {
        if 0 <= self.cursor < self.targets.len() {
            let pid = self.targets[self.cursor];
            Machine {
                tracees: if is_running(self.tracees, pid) {
                    halted(self.tracees, pid, StopType::Interrupt)
                } else {
                    self.tracees
                },
                cursor: self.cursor + 1,
                ..self
            }.lemma_group_next_balanced(bps);
        }
    }

    proof fn lemma_group_next_balanced(self, bps: Seq<Breakpoint>)
        ensures
            balanced(owed(self.stack), bps, self.group_next(bps)),
        decreases self.stack.len(), 1int,
    {
        let i = next_target(self.targets, self.tracees, self.cursor);
        if 0 <= i < self.targets.len() {
            Machine { cursor: i, ..self }.lemma_emit_balanced(
                bps,
                Frame::GroupInterrupt,
                Command::Interrupt { pid: self.targets[i] },
            );
        } else if !self.second_round {
            let again = pids(self.tracees);
            let j = next_target(again, self.tracees, 0);
            let m = Machine { second_round: true, targets: again, cursor: j, ..self };
            if 0 <= j < again.len() {
                m.lemma_emit_balanced(
                    bps,
                    Frame::GroupInterrupt,
                    Command::Interrupt { pid: again[j] },
                );
            } else {
                m.lemma_group_done_balanced(bps);
            }
        } else {
            Machine { cursor: i, ..self }.lemma_group_done_balanced(bps);
        }
    }

    proof fn lemma_group_done_balanced(self, bps: Seq<Breakpoint>)
        ensures
            balanced(owed(self.stack), bps, self.group_done(bps)),
        decreases self.stack.len(), 0int,
    {
        if self.stack.len() > 0 {
            if let Frame::Report { reason } = self.stack.last() {
                Machine { guard: false, ..self }.pop().lemma_ret_apply_balanced(bps, Some(reason));
            }
        }
    }

    proof fn lemma_report_balanced(self, bps: Seq<Breakpoint>, initiator: Pid, reason: StopReason)
        ensures
            balanced(owed(self.stack), bps, self.report(bps, initiator, reason)),
    {
        self.lemma_ret_apply_balanced(bps, Some(reason));
        let locked = Machine {
            guard: true,
            second_round: false,
            targets: pids(self.tracees),
            cursor: 0,
            ..self
        };
        lemma_owed_push(locked.stack, Frame::Report { reason });
        locked.push(Frame::Report { reason }).lemma_group_next_balanced(bps);
    }

    proof fn lemma_stopped_with_balanced(
        self,
        bps: Seq<Breakpoint>,
        pid: Pid,
        signal: Signal,
        code: i32,
    )
        ensures
            balanced(owed(self.stack), bps, self.stopped_with(bps, pid, signal, code)),
    {
        self.with_tracees(halted(self.tracees, pid, StopType::Interrupt)).lemma_ret_apply_balanced(
            bps,
            None,
        );
        self.lemma_emit_balanced(bps, Frame::TrapPc { pid }, Command::GetPc { pid });
        Machine {
            queue: self.queue.push((pid, signal)),
            tracees: halted(self.tracees, pid, StopType::SignalStop(signal)),
            ..self
        }.lemma_report_balanced(bps, pid, StopReason::SignalStop(pid, signal));
    }

    proof fn lemma_apply_balanced(self, bps: Seq<Breakpoint>, status: WaitStatus)
        ensures
            balanced(owed(self.stack), bps, self.apply(bps, status)),
    {
        match status {
            WaitStatus::Exited(pid, code) => {
                let m = self.with_tracees(dropped(self.tracees, pid));
                m.lemma_ret_apply_balanced(bps, Some(StopReason::DebugeeExit(code)));
                m.lemma_ret_apply_balanced(bps, None);
            },
            WaitStatus::PtraceEvent(pid, _, event) => {
                self.with_tracees(registered(self.tracees, pid)).lemma_ret_apply_balanced(
                    bps,
                    Some(StopReason::DebugeeStart),
                );
                let h = self.with_tracees(halted(self.tracees, pid, StopType::Interrupt));
                h.lemma_emit_balanced(
                    bps,
                    Frame::CloneMessage { parent: pid },
                    Command::GetEventMessage { pid },
                );
                h.lemma_ret_apply_balanced(bps, None);
                self.with_tracees(dropped(self.tracees, pid)).lemma_emit_balanced(
                    bps,
                    Frame::ExitContinue { pid },
                    Command::Continue { pid, signal: None },
                );
                self.lemma_ret_apply_balanced(bps, None);
            },
            WaitStatus::Stopped(pid, signal) => {
                self.lemma_emit_balanced(
                    bps,
                    Frame::SignalInfo { pid, signal },
                    Command::GetSignalInfo { pid },
                );
            },
            _ => {
                self.lemma_ret_apply_balanced(bps, None);
            },
        }
    }

    /// Asking for a resume is balanced.
    pub proof fn lemma_resume_balanced(self, bps: Seq<Breakpoint>)
        ensures
            balanced(owed(self.stack), bps, self.resume()),
    {
        self.lemma_round_balanced(bps);
    }

    /// Asking for a single step is balanced.
    pub proof fn lemma_single_step_balanced(self, bps: Seq<Breakpoint>, pid: Pid)
        ensures
            balanced(owed(self.stack), bps, self.single_step(pid)),
    {
        lemma_owed_push(self.stack, Frame::StepRoot);
        self.push(Frame::StepRoot).lemma_emit_balanced(
            bps,
            Frame::StepIssue { pid },
            Command::SingleStep { pid },
        );
    }

    /// Whatever the driver replies, the tracer's next move is balanced.
    pub proof fn lemma_advance_balanced(self, bps: Seq<Breakpoint>, reply: Reply)
        requires
            bps.len() <= usize::MAX,
        ensures
            balanced(owed(self.stack), bps, self.advance(bps, reply)),
    {
        if self.stack.len() > 0 {
            let m = self.pop();
            match self.stack.last() {
                Frame::ResumeContinue { index } => {
                    if index < m.tracees.len() {
                        m.with_tracees(
                            m.tracees.update(index as int, m.tracees[index as int].resumed()),
                        ).lemma_continue_balanced(bps, index + 1);
                    }
                    m.lemma_continue_balanced(bps, index + 1);
                },
                Frame::ResumeWait => {
                    if let Reply::Status(status) = reply {
                        lemma_owed_push(m.stack, Frame::Resume);
                        m.push(Frame::Resume).lemma_apply_balanced(bps, status);
                    }
                },
                Frame::CloneMessage { parent } => {
                    if let Reply::EventMessage(message) = reply {
                        if i32::MIN <= message <= i32::MAX {
                            let child = Pid(message as i32);
                            m.lemma_ret_apply_balanced(bps, None);
                            m.with_tracees(registered(m.tracees, child)).lemma_emit_balanced(
                                bps,
                                Frame::CloneChildWait { child },
                                Command::WaitFor { pid: child },
                            );
                        }
                    }
                },
                Frame::CloneChildWait { child } => {
                    m.lemma_ret_apply_balanced(bps, None);
                },
                Frame::ExitContinue { pid } => {
                    m.lemma_ret_apply_balanced(bps, None);
                },
                Frame::SignalInfo { pid, signal } => {
                    if let Reply::SignalCode(code) = reply {
                        m.lemma_stopped_with_balanced(bps, pid, signal, code);
                    }
                    m.lemma_ret_apply_balanced(bps, Some(StopReason::NoSuchProcess(pid)));
                },
                Frame::TrapPc { pid } => {
                    if let Reply::Pc(pc) = reply {
                        if pc != 0 {
                            m.lemma_emit_balanced(
                                bps,
                                Frame::TrapRewind { pid, pc: (pc - 1) as usize },
                                Command::SetPc { pid, pc: (pc - 1) as usize },
                            );
                        }
                    }
                },
                Frame::TrapRewind { pid, pc } => {
                    if let Reply::Done = reply {
                        match trap_verdict(bps, pid, pc) {
                            TrapVerdict::StepOver { index } => {
                                lemma_first_foreign(bps, pid, pc, 0);
                                lemma_owed_push(m.stack, Frame::StepOverDisable { pid, index });
                            },
                            TrapVerdict::Hit => {
                                Machine {
                                    focus: pid,
                                    tracees: halted(m.tracees, pid, StopType::Interrupt),
                                    ..m
                                }.lemma_report_balanced(
                                    bps,
                                    pid,
                                    StopReason::Breakpoint(
                                        pid,
                                        crate::address::RelocatedAddress(pc),
                                    ),
                                );
                            },
                        }
                    }
                },
                Frame::StepOverDisable { pid, index } => {
                    if let Reply::Done = reply {
                        lemma_owed_push(m.stack, Frame::StepOverStep { pid, index });
                        m.push(Frame::StepOverStep { pid, index }).lemma_emit_balanced(
                            bps,
                            Frame::StepIssue { pid },
                            Command::SingleStep { pid },
                        );
                    }
                },
                Frame::StepOverEnable { pid } => {
                    m.with_tracees(
                        halted(m.tracees, pid, StopType::Interrupt),
                    ).lemma_ret_apply_balanced(bps, None);
                },
                Frame::GroupInterrupt => {
                    if 0 <= m.cursor < m.targets.len() {
                        m.lemma_emit_balanced(
                            bps,
                            Frame::GroupWait,
                            Command::WaitFor { pid: m.targets[m.cursor] },
                        );
                        m.lemma_settle_balanced(bps);
                    }
                },
                Frame::GroupWait => {
                    if let Reply::Status(status) = reply {
                        m.lemma_settle_balanced(bps);
                        lemma_owed_push(m.stack, Frame::GroupApply);
                        m.push(Frame::GroupApply).lemma_apply_balanced(bps, status);
                    }
                },
                Frame::StepIssue { pid } => {
                    m.lemma_emit_balanced(bps, Frame::StepWait { pid }, Command::WaitFor { pid });
                },
                Frame::StepWait { pid } => {
                    if let Reply::Status(status) = reply {
                        m.lemma_ret_step_balanced(bps);
                        lemma_owed_push(m.stack, Frame::StepApply { pid });
                        m.push(Frame::StepApply { pid }).lemma_apply_balanced(bps, status);
                        if let WaitStatus::Stopped(subject, signal) = status {
                            m.lemma_emit_balanced(
                                bps,
                                Frame::StepSignalInfo { pid, subject, signal },
                                Command::GetSignalInfo { pid },
                            );
                        }
                    }
                },
                Frame::StepSignalInfo { pid, subject, signal } => {
                    m.lemma_ret_step_balanced(bps);
                    if let Reply::SignalCode(code) = reply {
                        lemma_owed_push(m.stack, Frame::StepApply { pid });
                        m.push(Frame::StepApply { pid }).lemma_stopped_with_balanced(
                            bps,
                            subject,
                            signal,
                            code,
                        );
                    }
                },
                _ => {},
            }
        }
    }
}

/// Every breakpoint stands at a runtime address whose word can be read.
pub open spec fn placed(bps: Seq<Breakpoint>, mem: Map<int, u8>) -> bool {
    forall|i: int|
        0 <= i < bps.len() ==> place_of(#[trigger] bps[i]) is Some && readable(
            mem,
            place_of(bps[i])->0,
        )
}

/// The breakpoints and the memory once every breakpoint of `owed` was
/// disarmed, oldest first.
pub open spec fn stepping(bps: Seq<Breakpoint>, mem: Map<int, u8>, owed: Seq<usize>) -> (
    Seq<Breakpoint>,
    Map<int, u8>,
)
    decreases owed.len(),
{
    if owed.len() == 0 {
        (bps, mem)
    } else {
        let below = stepping(bps, mem, owed.drop_last());
        performed(below.0, below.1, Command::DisableBreakpoint { index: owed.last() })
    }
}

/// Each breakpoint of `owed` was armed when it was disarmed.
pub open spec fn armed_when_owed(bps: Seq<Breakpoint>, mem: Map<int, u8>, owed: Seq<usize>) -> bool
    decreases owed.len(),
{
    owed.len() > 0 ==> armed_when_owed(bps, mem, owed.drop_last()) && owed.last() < stepping(
        bps,
        mem,
        owed.drop_last(),
    ).0.len() && stepping(bps, mem, owed.drop_last()).0[owed.last() as int].enabled
}

/// The breakpoints and the memory after the driver performed what the
/// tracer handed out.
pub open spec fn carried(step: Step, bps: Seq<Breakpoint>, mem: Map<int, u8>) -> (
    Seq<Breakpoint>,
    Map<int, u8>,
) {
    match step {
        Step::Perform(command) => performed(bps, mem, command),
        _ => (bps, mem),
    }
}

/// A request under way: the tracer, what it handed out last, and the
/// breakpoints and the memory after the driver performed that.
pub ghost struct Course {
    pub machine: Machine,
    pub step: Step,
    pub bps: Seq<Breakpoint>,
    pub mem: Map<int, u8>,
}

/// The course that a move of the tracer begins or goes on with.
pub open spec fn begun(out: (Machine, Step), bps: Seq<Breakpoint>, mem: Map<int, u8>) -> Course {
    Course {
        machine: out.0,
        step: out.1,
        bps: carried(out.1, bps, mem).0,
        mem: carried(out.1, bps, mem).1,
    }
}

/// The course after the driver's replies, one after another. A course is
/// over once the tracer reports or fails.
pub open spec fn followed(course: Course, replies: Seq<Reply>) -> Course
    decreases replies.len(),
{
    if replies.len() == 0 || !(course.step is Perform) {
        course
    } else {
        followed(
            begun(course.machine.advance(course.bps, replies[0]), course.bps, course.mem),
            replies.drop_first(),
        )
    }
}

/// The request is over and did not fail.
pub open spec fn ended_well(course: Course) -> bool {
    course.step is Stop || course.step is Stepped
}

/// Disarming the owed breakpoints keeps memory in agreement with every
/// breakpoint and moves none.
proof fn lemma_stepping_agrees(bps: Seq<Breakpoint>, mem: Map<int, u8>, owed: Seq<usize>)
    requires
        all_agree(bps, mem),
        apart(bps),
        placed(bps, mem),
        armed_when_owed(bps, mem, owed),
    ensures
        all_agree(stepping(bps, mem, owed).0, stepping(bps, mem, owed).1),
        apart(stepping(bps, mem, owed).0),
        placed(stepping(bps, mem, owed).0, stepping(bps, mem, owed).1),
        stepping(bps, mem, owed).0.len() == bps.len(),
    decreases owed.len(),
{
    if owed.len() > 0 {
        lemma_stepping_agrees(bps, mem, owed.drop_last());
        let below = stepping(bps, mem, owed.drop_last());
        let index = owed.last() as int;
        lemma_toggle_keeps_agreement(below.0, below.1, index, false);
        let after = toggled(below.0, below.1, index, false);
        assert(stepping(bps, mem, owed) == after);
        assert forall|i: int| 0 <= i < after.0.len() implies place_of(#[trigger] after.0[i])
            is Some && readable(after.1, place_of(after.0[i])->0) by {
            assert(place_of(after.0[i]) == place_of(below.0[i]));
            let at = place_of(below.0[i])->0;
            assert(readable(below.1, at));
            assert forall|a: int| at <= a < at + 8 implies after.1.dom().contains(a) by {
                assert(below.1.dom().contains(a));
            }
        }
    }
}

/// Disarming an armed breakpoint and arming it again gives back the
/// breakpoints and the memory as they were.
proof fn lemma_rearm(bps: Seq<Breakpoint>, mem: Map<int, u8>, index: usize)
    requires
        index < bps.len(),
        bps[index as int].enabled,
        all_agree(bps, mem),
        placed(bps, mem),
    ensures
        ({
            let off = performed(bps, mem, Command::DisableBreakpoint { index });
            performed(off.0, off.1, Command::EnableBreakpoint { index }) == (bps, mem)
        }),
{
    let b = bps[index as int];
    let addr = place_of(b)->0;
    lemma_step_over_cycle(b, mem, addr);
    let off = toggled(bps, mem, index as int, false);
    assert(off.0[index as int] == crate::breakpoint::disarmed(b));
    let on = toggled(off.0, off.1, index as int, true);
    assert(on.0 =~= bps);
    assert(on.1 == mem);
}

/// One balanced move takes a course that stands as it should to one that
/// does.
proof fn lemma_move(
    bps: Seq<Breakpoint>,
    mem: Map<int, u8>,
    before: Seq<usize>,
    out: (Machine, Step),
)
    requires
        all_agree(bps, mem),
        apart(bps),
        placed(bps, mem),
        armed_when_owed(bps, mem, before),
        balanced(before, stepping(bps, mem, before).0, out),
    ensures
        out.1 is Fail || (armed_when_owed(bps, mem, owed(out.0.stack)) && carried(
            out.1,
            stepping(bps, mem, before).0,
            stepping(bps, mem, before).1,
        ) == stepping(bps, mem, owed(out.0.stack))),
{
    let after = owed(out.0.stack);
    match out.1 {
        Step::Fail(_) => {},
        Step::Perform(Command::DisableBreakpoint { index }) => {
            assert(after.drop_last() =~= before);
            assert(after.last() == index);
        },
        Step::Perform(Command::EnableBreakpoint { index }) => {
            assert(before.drop_last() =~= after);
            assert(before.last() == index);
            lemma_stepping_agrees(bps, mem, after);
            let below = stepping(bps, mem, after);
            lemma_rearm(below.0, below.1, index);
        },
        _ => {},
    }
}

/// However the driver replies: if the request ends in a report, the
/// breakpoints and the memory are those from which the owed breakpoints
/// were disarmed.
proof fn lemma_course(course: Course, bps: Seq<Breakpoint>, mem: Map<int, u8>, replies: Seq<Reply>)
    requires
        course.machine.inv(),
        !(course.step is Perform) ==> course.machine.idle(),
        bps.len() <= usize::MAX,
        all_agree(bps, mem),
        apart(bps),
        placed(bps, mem),
        course.step is Fail || (armed_when_owed(bps, mem, owed(course.machine.stack)) && (
            course.bps,
            course.mem,
        ) == stepping(bps, mem, owed(course.machine.stack))),
    ensures
        ended_well(followed(course, replies)) ==> followed(course, replies).bps == bps && followed(
            course,
            replies,
        ).mem == mem,
    decreases replies.len(),
{
    if replies.len() == 0 || !(course.step is Perform) {
        if ended_well(course) {
            assert(owed(course.machine.stack) =~= Seq::<usize>::empty());
        }
    } else {
        let before = owed(course.machine.stack);
        lemma_stepping_agrees(bps, mem, before);
        let out = course.machine.advance(course.bps, replies[0]);
        course.machine.lemma_advance(course.bps, replies[0]);
        course.machine.lemma_advance_balanced(course.bps, replies[0]);
        lemma_move(bps, mem, before, out);
        lemma_course(begun(out, course.bps, course.mem), bps, mem, replies.drop_first());
    }
}

/// A resume that ends in a report leaves every breakpoint and the memory
/// under the breakpoints as it found them, whatever the driver replied on
/// the way: what the tracer disarmed to step a thread over it, it armed
/// again. Only what the tracer itself asks for is counted as a write.
pub proof fn lemma_resume_restores_breakpoints(
    machine: Machine,
    bps: Seq<Breakpoint>,
    mem: Map<int, u8>,
    replies: Seq<Reply>,
)
    requires
        machine.inv(),
        machine.idle(),
        bps.len() <= usize::MAX,
        all_agree(bps, mem),
        apart(bps),
        placed(bps, mem),
    ensures
        ({
            let end = followed(begun(machine.resume(), bps, mem), replies);
            ended_well(end) ==> end.bps == bps && end.mem == mem && all_agree(end.bps, end.mem)
        }),
{
    let out = machine.resume();
    machine.lemma_resume();
    machine.lemma_resume_balanced(bps);
    assert(owed(machine.stack) =~= Seq::<usize>::empty());
    lemma_move(bps, mem, owed(machine.stack), out);
    lemma_course(begun(out, bps, mem), bps, mem, replies);
}

/// A single step that ends well leaves every breakpoint and the memory
/// under the breakpoints as it found them.
pub proof fn lemma_single_step_restores_breakpoints(
    machine: Machine,
    pid: Pid,
    bps: Seq<Breakpoint>,
    mem: Map<int, u8>,
    replies: Seq<Reply>,
)
    requires
        machine.inv(),
        machine.idle(),
        bps.len() <= usize::MAX,
        all_agree(bps, mem),
        apart(bps),
        placed(bps, mem),
    ensures
        ({
            let end = followed(begun(machine.single_step(pid), bps, mem), replies);
            ended_well(end) ==> end.bps == bps && end.mem == mem && all_agree(end.bps, end.mem)
        }),
{
    let out = machine.single_step(pid);
    machine.lemma_single_step(pid);
    machine.lemma_single_step_balanced(bps, pid);
    assert(owed(machine.stack) =~= Seq::<usize>::empty());
    lemma_move(bps, mem, owed(machine.stack), out);
    lemma_course(begun(out, bps, mem), bps, mem, replies);
}

} // verus!
