//! What holds of every state that a tracer reaches, and what follows for
//! the stops it reports.

use crate::breakpoint::Breakpoint;
use crate::tracee::{all_stopped, dropped, halted, has_pid, lemma_slot, lemma_table_stays_unique, pids, registered, slot_of, unique_pids, Pid, Signal, StopType, Tracee};
use crate::tracer::model::{
    is_running, needs_group_stop, next_target, others_running, subject, trap_verdict, Machine,
    TrapVerdict,
};
use crate::tracer::protocol::{Frame, Reply, Step, StopReason, WaitStatus};
use vstd::prelude::*;

verus! {

/// How many stops wait on the stack to be reported.
pub open spec fn reports(stack: Seq<Frame>) -> int
    decreases stack.len(),
{
    if stack.len() == 0 {
        0
    } else {
        reports(stack.drop_last()) + if stack.last() is Report {
            1int
        } else {
            0int
        }
    }
}

impl Machine {
    /// Every running thread is still ahead of the group stop.
    pub open spec fn covered(self) -> bool {
        forall|i: int|
            0 <= i < self.tracees.len() && !(#[trigger] self.tracees[i]).stopped() ==> exists|
                j: int,
            |
                self.cursor <= j < self.targets.len() && #[trigger] self.targets[j]
                    == self.tracees[i].pid
    }

    /// The invariant of the tracer.
    pub open spec fn inv(self) -> bool {
        &&& unique_pids(self.tracees)
        &&& 0 <= self.cursor
        &&& forall|i: int| 0 < i < self.stack.len() ==> !(#[trigger] self.stack[i]).is_root()
        &&& reports(self.stack) == if self.guard {
            1int
        } else {
            0int
        }
        &&& self.guard ==> self.covered()
    }

    /// Nothing is waited for: a resume or a single step can be asked for.
    pub open spec fn idle(self) -> bool {
        self.stack.len() == 0
    }
}

/// The breakpoints and the memory of the debuggee after a command of the
/// tracer was performed. Only arming and disarming a breakpoint write
/// memory; what the debuggee itself writes while it runs is not the
/// tracer's.
pub open spec fn performed(
    bps: Seq<Breakpoint>,
    mem: Map<int, u8>,
    command: crate::tracer::protocol::Command,
) -> (Seq<Breakpoint>, Map<int, u8>) {
    match command {
        crate::tracer::protocol::Command::EnableBreakpoint { index } => if index < bps.len() {
            crate::breakpoint::toggled(bps, mem, index as int, true)
        } else {
            (bps, mem)
        },
        crate::tracer::protocol::Command::DisableBreakpoint { index } => if index < bps.len() {
            crate::breakpoint::toggled(bps, mem, index as int, false)
        } else {
            (bps, mem)
        },
        _ => (bps, mem),
    }
}

/// Whatever command the tracer hands out, performing it leaves memory in
/// agreement with every breakpoint: one byte read at an armed breakpoint is
/// the trap opcode, at a disarmed one the saved byte. This holds command by
/// command, and so from the beginning of a resume to its end.
pub proof fn lemma_commands_keep_agreement(
    bps: Seq<Breakpoint>,
    mem: Map<int, u8>,
    command: crate::tracer::protocol::Command,
)
    requires
        crate::breakpoint::all_agree(bps, mem),
        crate::breakpoint::apart(bps),
        forall|i: int|
            0 <= i < bps.len() ==> crate::breakpoint::place_of(#[trigger] bps[i]) is Some
                && crate::breakpoint::readable(mem, crate::breakpoint::place_of(bps[i])->0),
    ensures
        crate::breakpoint::all_agree(performed(bps, mem, command).0, performed(bps, mem, command).1),
        crate::breakpoint::apart(performed(bps, mem, command).0),
{
    match command {
        crate::tracer::protocol::Command::EnableBreakpoint { index } => {
            if index < bps.len() {
                crate::breakpoint::lemma_toggle_keeps_agreement(bps, mem, index as int, true);
            }
        },
        crate::tracer::protocol::Command::DisableBreakpoint { index } => {
            if index < bps.len() {
                crate::breakpoint::lemma_toggle_keeps_agreement(bps, mem, index as int, false);
            }
        },
        _ => {},
    }
}

/// What holds after every move of the tracer: the invariant; that a
/// breakpoint or a signal is reported only with every thread stopped and the
/// reported thread in focus; and that the tracer is idle once a request is over.
pub open spec fn sound(out: (Machine, Step)) -> bool {
    &&& out.0.inv()
    &&& out.1 matches Step::Stop(reason) ==> (needs_group_stop(reason) ==> all_stopped(
        out.0.tracees,
    )) && (subject(reason) matches Some(pid) ==> out.0.focus == pid)
    &&& !(out.1 is Perform) ==> out.0.idle()
}

proof fn lemma_reports_bounds(stack: Seq<Frame>)
    ensures
        0 <= reports(stack),
        stack.len() > 0 && stack.last() is Report ==> reports(stack) >= 1,
    decreases stack.len(),
{
    if stack.len() > 0 {
        lemma_reports_bounds(stack.drop_last());
    }
}

proof fn lemma_reports_push(stack: Seq<Frame>, frame: Frame)
    ensures
        reports(stack.push(frame)) == reports(stack) + if frame is Report {
            1int
        } else {
            0int
        },
{
    assert(stack.push(frame).drop_last() =~= stack);
}

/// Where the scan for the next target stops.
proof fn lemma_next_target(targets: Seq<Pid>, tracees: Seq<Tracee>, from: int)
    requires
        0 <= from,
    ensures
        from <= next_target(targets, tracees, from) || next_target(targets, tracees, from)
            == targets.len(),
        next_target(targets, tracees, from) <= targets.len(),
        next_target(targets, tracees, from) < targets.len() ==> is_running(
            tracees,
            targets[next_target(targets, tracees, from)],
        ),
        forall|k: int|
            from <= k < next_target(targets, tracees, from) ==> !is_running(
                tracees,
                #[trigger] targets[k],
            ),
    decreases targets.len() - from,
{
    if from < targets.len() && !is_running(tracees, targets[from]) {
        lemma_next_target(targets, tracees, from + 1);
    }
}

impl Machine {
    proof fn lemma_fail(self, error: crate::tracer::protocol::TraceError)
        requires
            unique_pids(self.tracees),
            0 <= self.cursor,
        ensures
            sound(self.fail(error)),
    {
    }

    /// The invariant speaks of the table, the stack and the group stop only.
    proof fn lemma_same_shape(self, other: Machine)
        requires
            self.inv(),
            other.tracees == self.tracees,
            other.targets == self.targets,
            other.cursor == self.cursor,
            other.guard == self.guard,
            other.stack == self.stack,
        ensures
            other.inv(),
    {
        if self.guard {
            assert forall|i: int|
                0 <= i < other.tracees.len() && !(#[trigger] other.tracees[i]).stopped() implies exists|
                j: int,
            |
                other.cursor <= j < other.targets.len() && #[trigger] other.targets[j]
                    == other.tracees[i].pid by {
                assert(!self.tracees[i].stopped());
                let j = choose|j: int|
                    self.cursor <= j < self.targets.len() && #[trigger] self.targets[j]
                        == self.tracees[i].pid;
                assert(other.targets[j] == other.tracees[i].pid);
            }
        }
    }

    /// The invariant with another stack that holds as many reports and keeps
    /// the outermost frames at the bottom.
    proof fn lemma_restack(self, other: Machine)
        requires
            self.inv(),
            other.tracees == self.tracees,
            other.targets == self.targets,
            other.cursor == self.cursor,
            other.guard == self.guard,
            reports(other.stack) == reports(self.stack),
            forall|i: int| 0 < i < other.stack.len() ==> !(#[trigger] other.stack[i]).is_root(),
        ensures
            other.inv(),
    {
        let same = Machine { stack: self.stack, ..other };
        self.lemma_same_shape(same);
        if other.guard {
            assert forall|i: int|
                0 <= i < other.tracees.len() && !(#[trigger] other.tracees[i]).stopped() implies exists|
                j: int,
            |
                other.cursor <= j < other.targets.len() && #[trigger] other.targets[j]
                    == other.tracees[i].pid by {
                assert(!same.tracees[i].stopped());
                let j = choose|j: int|
                    same.cursor <= j < same.targets.len() && #[trigger] same.targets[j]
                        == same.tracees[i].pid;
                assert(other.targets[j] == other.tracees[i].pid);
            }
        }
    }

    proof fn lemma_pop(self)
        requires
            self.inv(),
            self.stack.len() > 0,
            !(self.stack.last() is Report),
        ensures
            self.pop().inv(),
            self.stack.last().is_root() ==> self.pop().idle() && !self.guard,
    {
        let m = self.pop();
        assert forall|i: int| 0 < i < m.stack.len() implies !(#[trigger] m.stack[i]).is_root() by {
            assert(m.stack[i] == self.stack[i]);
        }
        assert(reports(self.stack) == reports(self.stack.drop_last()));
        self.lemma_restack(m);
        if self.stack.last().is_root() {
            if self.stack.len() > 1 {
                assert(!self.stack[self.stack.len() - 1].is_root());
            }
            assert(m.stack.len() == 0);
            assert(reports(m.stack) == 0);
        }
    }

    proof fn lemma_push(self, frame: Frame)
        requires
            self.inv(),
            !(frame is Report),
            frame.is_root() ==> self.idle(),
        ensures
            self.push(frame).inv(),
    {
        lemma_reports_push(self.stack, frame);
        let m = self.push(frame);
        assert forall|i: int| 0 < i < m.stack.len() implies !(#[trigger] m.stack[i]).is_root() by {
            if i < self.stack.len() {
                assert(m.stack[i] == self.stack[i]);
            }
        }
        self.lemma_restack(m);
    }

    proof fn lemma_emit(self, frame: Frame, command: crate::tracer::protocol::Command)
        requires
            self.inv(),
            !(frame is Report),
            frame.is_root() ==> self.idle(),
        ensures
            sound(self.emit(frame, command)),
    {
        self.lemma_push(frame);
    }

    /// Changes to the table that leave no new thread running keep the invariant.
    proof fn lemma_calmer(self, tracees: Seq<Tracee>)
        requires
            self.inv(),
            unique_pids(tracees),
            forall|i: int|
                0 <= i < tracees.len() && !(#[trigger] tracees[i]).stopped() ==> exists|k: int|
                    0 <= k < self.tracees.len() && #[trigger] self.tracees[k] == tracees[i],
        ensures
            self.with_tracees(tracees).inv(),
    {
        let m = self.with_tracees(tracees);
        if self.guard {
            assert forall|i: int|
                0 <= i < m.tracees.len() && !(#[trigger] m.tracees[i]).stopped() implies exists|
                j: int,
            |
                m.cursor <= j < m.targets.len() && #[trigger] m.targets[j]
                    == m.tracees[i].pid by {
                assert(!tracees[i].stopped());
                let k = choose|k: int|
                    0 <= k < self.tracees.len() && #[trigger] self.tracees[k] == tracees[i];
                assert(!self.tracees[k].stopped());
                let j = choose|j: int|
                    self.cursor <= j < self.targets.len() && #[trigger] self.targets[j]
                        == self.tracees[k].pid;
                assert(m.targets[j] == m.tracees[i].pid);
            }
        }
    }

    proof fn lemma_registered(self, pid: Pid)
        requires
            self.inv(),
        ensures
            self.with_tracees(registered(self.tracees, pid)).inv(),
    {
        lemma_table_stays_unique(self.tracees, pid, StopType::Interrupt);
        let t = registered(self.tracees, pid);
        assert forall|i: int| 0 <= i < t.len() && !(#[trigger] t[i]).stopped() implies exists|
            k: int,
        | 0 <= k < self.tracees.len() && #[trigger] self.tracees[k] == t[i] by {
            if has_pid(self.tracees, pid) {
                assert(i != slot_of(self.tracees, pid));
                assert(self.tracees[i] == t[i]);
            } else {
                assert(i != self.tracees.len());
                assert(self.tracees[i] == t[i]);
            }
        }
        self.lemma_calmer(t);
    }

    proof fn lemma_halted(self, pid: Pid, stop: StopType)
        requires
            self.inv(),
        ensures
            self.with_tracees(halted(self.tracees, pid, stop)).inv(),
            forall|i: int|
                0 <= i < halted(self.tracees, pid, stop).len() && (#[trigger] halted(
                    self.tracees,
                    pid,
                    stop,
                )[i]).pid == pid ==> halted(self.tracees, pid, stop)[i].stopped(),
            all_stopped(self.tracees) ==> all_stopped(halted(self.tracees, pid, stop)),
    {
        lemma_table_stays_unique(self.tracees, pid, stop);
        let t = halted(self.tracees, pid, stop);
        assert forall|i: int| 0 <= i < t.len() && !(#[trigger] t[i]).stopped() implies exists|
            k: int,
        | 0 <= k < self.tracees.len() && #[trigger] self.tracees[k] == t[i] by {
            if has_pid(self.tracees, pid) {
                assert(i != slot_of(self.tracees, pid));
                assert(self.tracees[i] == t[i]);
            } else {
                assert(i != self.tracees.len());
                assert(self.tracees[i] == t[i]);
            }
        }
        self.lemma_calmer(t);
        assert forall|i: int| 0 <= i < t.len() && (#[trigger] t[i]).pid == pid implies t[i].stopped() by {
            if has_pid(self.tracees, pid) {
                let k = slot_of(self.tracees, pid);
                assert(0 <= k < self.tracees.len() && self.tracees[k].pid == pid);
                if i != k {
                    assert(t[i] == self.tracees[i]);
                    lemma_slot(self.tracees, pid, i);
                }
            } else {
                if i < self.tracees.len() {
                    assert(self.tracees[i].pid == pid);
                }
            }
        }
        if all_stopped(self.tracees) {
            assert forall|i: int| 0 <= i < t.len() implies (#[trigger] t[i]).stopped() by {
                if t[i].pid != pid {
                    if has_pid(self.tracees, pid) {
                        assert(i != slot_of(self.tracees, pid));
                    }
                    assert(t[i] == self.tracees[i]);
                }
            }
        }
    }

    proof fn lemma_dropped(self, pid: Pid)
        requires
            self.inv(),
        ensures
            self.with_tracees(dropped(self.tracees, pid)).inv(),
    {
        lemma_table_stays_unique(self.tracees, pid, StopType::Interrupt);
        let t = dropped(self.tracees, pid);
        assert forall|i: int| 0 <= i < t.len() && !(#[trigger] t[i]).stopped() implies exists|
            k: int,
        | 0 <= k < self.tracees.len() && #[trigger] self.tracees[k] == t[i] by {
            if has_pid(self.tracees, pid) {
                let s = slot_of(self.tracees, pid);
                let k = if i < s {
                    i
                } else {
                    i + 1
                };
                assert(self.tracees[k] == t[i]);
            } else {
                assert(self.tracees[i] == t[i]);
            }
        }
        self.lemma_calmer(t);
    }

    // ------------------------------------------------------------------
    // Resume
    // ------------------------------------------------------------------
    proof fn lemma_continue_from(self, from: int)
        requires
            self.inv(),
            self.idle(),
        ensures
            sound(self.continue_from(from)),
    {
        let i = crate::tracee::next_stopped(self.tracees, from);
        if 0 <= i < self.tracees.len() {
            self.lemma_emit(
                Frame::ResumeContinue { index: i as usize },
                crate::tracer::protocol::Command::Continue {
                    pid: self.tracees[i].pid,
                    signal: self.signal_for(self.tracees[i].pid),
                },
            );
        } else {
            self.lemma_emit(Frame::ResumeWait, crate::tracer::protocol::Command::WaitAny);
        }
    }

    proof fn lemma_round(self)
        requires
            self.inv(),
            self.idle(),
        ensures
            sound(self.round()),
    {
        if self.queue.len() > 0 {
            Machine {
                inject: Some(self.queue[0]),
                queue: self.queue.drop_first(),
                ..self
            }.lemma_continue_from(0);
        } else {
            Machine { inject: None, ..self }.lemma_continue_from(0);
        }
    }

    /// Asking for a resume keeps the tracer sound.
    pub proof fn lemma_resume(self)
        requires
            self.inv(),
        ensures
            sound(self.resume()),
    {
        if self.stack.len() != 0 {
            self.lemma_fail(crate::tracer::protocol::TraceError::Protocol);
        } else {
            self.lemma_round();
        }
    }

    proof fn lemma_on_resume_continue(self, index: usize, reply: Reply)
        requires
            self.inv(),
            self.idle(),
        ensures
            sound(self.on_resume_continue(index, reply)),
    {
        match reply {
            Reply::Done => {
                if index < self.tracees.len() {
                    let t = self.tracees.update(index as int, self.tracees[index as int].resumed());
                    let m = self.with_tracees(t);
                    assert forall|i: int, j: int| 0 <= i < j < t.len() implies t[i].pid
                        != t[j].pid by {
                        assert(t[i].pid == self.tracees[i].pid && t[j].pid == self.tracees[j].pid);
                    }
                    assert(m.inv());
                    m.lemma_continue_from(index + 1);
                } else {
                    self.lemma_fail(crate::tracer::protocol::TraceError::Protocol);
                }
            },
            Reply::Failed(errno) => {
                self.lemma_continue_from(index + 1);
            },
            _ => {},
        }
    }

    // ------------------------------------------------------------------
    // Group stop and the return from applying a status
    // ------------------------------------------------------------------
    proof fn lemma_ret_step(self)
        requires
            self.inv(),
        ensures
            sound(self.ret_step()),
    {
        if self.stack.len() > 0 {
            match self.stack.last() {
                Frame::StepRoot => {
                    self.lemma_pop();
                },
                Frame::StepOverStep { pid, index } => {
                    self.lemma_pop();
                    self.pop().lemma_emit(
                        Frame::StepOverEnable { pid },
                        crate::tracer::protocol::Command::EnableBreakpoint { index },
                    );
                },
                _ => {},
            }
        }
    }

    proof fn lemma_ret_apply(self, bps: Seq<Breakpoint>, result: Option<StopReason>)
        requires
            self.inv(),
            result matches Some(reason) && needs_group_stop(reason) && !self.guard ==> all_stopped(
                self.tracees,
            ),
        ensures
            sound(self.ret_apply(bps, result)),
        decreases self.stack.len(), 3int,
    {
        if self.stack.len() > 0 {
            let m = self.pop();
            match self.stack.last() {
                Frame::Resume => {
                    self.lemma_pop();
                    match result {
                        Some(reason) => {},
                        None => {
                            m.lemma_round();
                        },
                    }
                },
                Frame::GroupApply => {
                    self.lemma_pop();
                    if 0 <= m.cursor < m.targets.len() {
                        let pid = m.targets[m.cursor];
                        match result {
                            Some(StopReason::DebugeeExit(code)) => {},
                            Some(StopReason::DebugeeStart) => {},
                            Some(StopReason::SignalStop(_, _)) => {
                                m.lemma_settle(bps);
                            },
                            Some(StopReason::NoSuchProcess(_)) => {
                                m.lemma_settle(bps);
                            },
                            _ => {
                                m.lemma_settle(bps);
                                m.lemma_emit(
                                    Frame::GroupWait,
                                    crate::tracer::protocol::Command::WaitFor { pid },
                                );
                            },
                        }
                    }
                },
                Frame::StepApply { pid } => {
                    self.lemma_pop();
                    m.lemma_emit(
                        Frame::StepWait { pid },
                        crate::tracer::protocol::Command::WaitFor { pid },
                    );
                    m.lemma_ret_step();
                },
                _ => {},
            }
        }
    }

    proof fn lemma_settle(self, bps: Seq<Breakpoint>)
        requires
            self.inv(),
        ensures
            sound(self.settle(bps)),
        decreases self.stack.len(), 2int,
    {
        if 0 <= self.cursor < self.targets.len() {
            let pid = self.targets[self.cursor];
            let t = if is_running(self.tracees, pid) {
                halted(self.tracees, pid, StopType::Interrupt)
            } else {
                self.tracees
            };
            let m = Machine { tracees: t, cursor: self.cursor + 1, ..self };
            self.lemma_halted(pid, StopType::Interrupt);
            assert(unique_pids(t));
            if self.guard {
                let h = self.with_tracees(t);
                assert(h.inv());
                assert forall|i: int|
                    0 <= i < m.tracees.len() && !(#[trigger] m.tracees[i]).stopped() implies exists|
                    j: int,
                |
                    m.cursor <= j < m.targets.len() && #[trigger] m.targets[j]
                        == m.tracees[i].pid by {
                    let j = choose|j: int|
                        h.cursor <= j < h.targets.len() && #[trigger] h.targets[j]
                            == h.tracees[i].pid;
                    if j == self.cursor {
                        assert(t[i].pid == pid);
                        if is_running(self.tracees, pid) {
                            assert(t[i].stopped());
                        } else {
                            lemma_slot(self.tracees, pid, i);
                        }
                    }
                    assert(m.targets[j] == m.tracees[i].pid);
                }
            }
            assert(m.inv());
            m.lemma_group_next(bps);
        }
    }

    proof fn lemma_group_next(self, bps: Seq<Breakpoint>)
        requires
            self.inv(),
        ensures
            sound(self.group_next(bps)),
        decreases self.stack.len(), 1int,
    {
        let i = next_target(self.targets, self.tracees, self.cursor);
        lemma_next_target(self.targets, self.tracees, self.cursor);
        let at = Machine { cursor: i, ..self };
        if self.guard {
            assert forall|k: int|
                0 <= k < at.tracees.len() && !(#[trigger] at.tracees[k]).stopped() implies exists|
                j: int,
            |
                at.cursor <= j < at.targets.len() && #[trigger] at.targets[j]
                    == at.tracees[k].pid by {
                let j = choose|j: int|
                    self.cursor <= j < self.targets.len() && #[trigger] self.targets[j]
                        == self.tracees[k].pid;
                if j < i {
                    lemma_slot(self.tracees, self.targets[j], k);
                    assert(!is_running(self.tracees, self.targets[j]));
                }
                assert(at.targets[j] == at.tracees[k].pid);
            }
        }
        assert(at.inv());
        if 0 <= i < self.targets.len() {
            at.lemma_emit(
                Frame::GroupInterrupt,
                crate::tracer::protocol::Command::Interrupt { pid: self.targets[i] },
            );
        } else if !self.second_round {
            let again = pids(self.tracees);
            let j = next_target(again, self.tracees, 0);
            lemma_next_target(again, self.tracees, 0);
            let m = Machine { second_round: true, targets: again, cursor: j, ..self };
            if self.guard {
                assert forall|k: int|
                    0 <= k < m.tracees.len() && !(#[trigger] m.tracees[k]).stopped() implies exists|
                    x: int,
                |
                    m.cursor <= x < m.targets.len() && #[trigger] m.targets[x]
                        == m.tracees[k].pid by {
                    if k < j {
                        lemma_slot(self.tracees, again[k], k);
                        assert(!is_running(self.tracees, again[k]));
                    }
                    assert(m.targets[k] == m.tracees[k].pid);
                }
            }
            assert(m.inv());
            if 0 <= j < again.len() {
                m.lemma_emit(
                    Frame::GroupInterrupt,
                    crate::tracer::protocol::Command::Interrupt { pid: again[j] },
                );
            } else {
                m.lemma_group_done(bps);
            }
        } else {
            at.lemma_group_done(bps);
        }
    }

    proof fn lemma_group_done(self, bps: Seq<Breakpoint>)
        requires
            self.inv(),
            self.cursor >= self.targets.len(),
        ensures
            sound(self.group_done(bps)),
        decreases self.stack.len(), 0int,
    {
        if self.stack.len() > 0 {
            match self.stack.last() {
                Frame::Report { reason } => {
                    lemma_reports_bounds(self.stack);
                    lemma_reports_bounds(self.stack.drop_last());
                    assert(self.guard);
                    let m = Machine { guard: false, ..self }.pop();
                    assert forall|i: int| 0 < i < m.stack.len() implies !(
                    #[trigger] m.stack[i]).is_root() by {
                        assert(m.stack[i] == self.stack[i]);
                    }
                    assert(m.inv());
                    assert(all_stopped(self.tracees)) by {
                        assert forall|i: int| 0 <= i < self.tracees.len() implies (
                        #[trigger] self.tracees[i]).stopped() by {
                            if !self.tracees[i].stopped() {
                                let j = choose|j: int|
                                    self.cursor <= j < self.targets.len()
                                        && #[trigger] self.targets[j] == self.tracees[i].pid;
                            }
                        }
                    }
                    m.lemma_ret_apply(bps, Some(reason));
                },
                _ => {},
            }
        }
    }

    proof fn lemma_report(self, bps: Seq<Breakpoint>, initiator: Pid, reason: StopReason)
        requires
            self.inv(),
            forall|i: int|
                0 <= i < self.tracees.len() && (#[trigger] self.tracees[i]).pid == initiator
                    ==> self.tracees[i].stopped(),
        ensures
            sound(self.report(bps, initiator, reason)),
    {
        if self.guard || !others_running(self.tracees, initiator) {
            if !self.guard {
                assert forall|i: int| 0 <= i < self.tracees.len() implies (
                #[trigger] self.tracees[i]).stopped() by {
                    if self.tracees[i].pid != initiator && !self.tracees[i].stopped() {
                        assert(others_running(self.tracees, initiator));
                    }
                }
            }
            self.lemma_ret_apply(bps, Some(reason));
        } else {
            let locked = Machine {
                guard: true,
                second_round: false,
                targets: pids(self.tracees),
                cursor: 0,
                ..self
            };
            let m = locked.push(Frame::Report { reason });
            lemma_reports_push(locked.stack, Frame::Report { reason });
            assert forall|i: int| 0 < i < m.stack.len() implies !(#[trigger] m.stack[i]).is_root() by {
                if i < self.stack.len() {
                    assert(m.stack[i] == self.stack[i]);
                }
            }
            assert forall|k: int|
                0 <= k < m.tracees.len() && !(#[trigger] m.tracees[k]).stopped() implies exists|
                j: int,
            |
                m.cursor <= j < m.targets.len() && #[trigger] m.targets[j]
                    == m.tracees[k].pid by {
                assert(m.targets[k] == m.tracees[k].pid);
            }
            assert(m.inv());
            m.lemma_group_next(bps);
        }
    }

    // ------------------------------------------------------------------
    // Applying a status
    // ------------------------------------------------------------------
    proof fn lemma_stopped_with(self, bps: Seq<Breakpoint>, pid: Pid, signal: Signal, code: i32)
        requires
            self.inv(),
        ensures
            sound(self.stopped_with(bps, pid, signal, code)),
    {
        self.lemma_halted(pid, StopType::Interrupt);
        self.lemma_halted(pid, StopType::SignalStop(signal));
        self.with_tracees(halted(self.tracees, pid, StopType::Interrupt)).lemma_ret_apply(bps, None);
        self.lemma_emit(Frame::TrapPc { pid }, crate::tracer::protocol::Command::GetPc { pid });
        let m = Machine {
            queue: self.queue.push((pid, signal)),
            tracees: halted(self.tracees, pid, StopType::SignalStop(signal)),
            ..self
        };
        self.with_tracees(halted(self.tracees, pid, StopType::SignalStop(signal))).lemma_same_shape(
            m,
        );
        m.lemma_report(bps, pid, StopReason::SignalStop(pid, signal));
    }

    proof fn lemma_apply(self, bps: Seq<Breakpoint>, status: WaitStatus)
        requires
            self.inv(),
        ensures
            sound(self.apply(bps, status)),
    {
        match status {
            WaitStatus::Exited(pid, code) => {
                self.lemma_dropped(pid);
                let m = self.with_tracees(dropped(self.tracees, pid));
                m.lemma_ret_apply(bps, Some(StopReason::DebugeeExit(code)));
                m.lemma_ret_apply(bps, None);
            },
            WaitStatus::PtraceEvent(pid, _, event) => {
                self.lemma_registered(pid);
                self.lemma_halted(pid, StopType::Interrupt);
                self.lemma_dropped(pid);
                self.with_tracees(registered(self.tracees, pid)).lemma_ret_apply(
                    bps,
                    Some(StopReason::DebugeeStart),
                );
                self.with_tracees(halted(self.tracees, pid, StopType::Interrupt)).lemma_emit(
                    Frame::CloneMessage { parent: pid },
                    crate::tracer::protocol::Command::GetEventMessage { pid },
                );
                self.with_tracees(halted(self.tracees, pid, StopType::Interrupt)).lemma_ret_apply(
                    bps,
                    None,
                );
                self.with_tracees(dropped(self.tracees, pid)).lemma_emit(
                    Frame::ExitContinue { pid },
                    crate::tracer::protocol::Command::Continue { pid, signal: None },
                );
                self.lemma_ret_apply(bps, None);
            },
            WaitStatus::Stopped(pid, signal) => {
                self.lemma_emit(
                    Frame::SignalInfo { pid, signal },
                    crate::tracer::protocol::Command::GetSignalInfo { pid },
                );
            },
            _ => {
                self.lemma_ret_apply(bps, None);
            },
        }
    }

    /// Whatever the driver replies, the tracer stays sound.
    pub proof fn lemma_advance(self, bps: Seq<Breakpoint>, reply: Reply)
        requires
            self.inv(),
        ensures
            sound(self.advance(bps, reply)),
    {
        if self.stack.len() > 0 {
            let m = self.pop();
            let top = self.stack.last();
            if !(top is Report) {
                self.lemma_pop();
            }
            match top {
                Frame::ResumeContinue { index } => {
                    m.lemma_on_resume_continue(index, reply);
                },
                Frame::ResumeWait => {
                    if let Reply::Status(status) = reply {
                        m.lemma_push(Frame::Resume);
                        m.push(Frame::Resume).lemma_apply(bps, status);
                    }
                },
                Frame::CloneMessage { parent } => {
                    if let Reply::EventMessage(message) = reply {
                        if i32::MIN <= message <= i32::MAX {
                            let child = Pid(message as i32);
                            m.lemma_ret_apply(bps, None);
                            m.lemma_registered(child);
                            m.with_tracees(registered(m.tracees, child)).lemma_emit(
                                Frame::CloneChildWait { child },
                                crate::tracer::protocol::Command::WaitFor { pid: child },
                            );
                        }
                    }
                },
                Frame::CloneChildWait { child } => {
                    m.lemma_ret_apply(bps, None);
                },
                Frame::ExitContinue { pid } => {
                    m.lemma_ret_apply(bps, None);
                },
                Frame::SignalInfo { pid, signal } => {
                    if let Reply::SignalCode(code) = reply {
                        m.lemma_stopped_with(bps, pid, signal, code);
                    }
                    m.lemma_ret_apply(bps, Some(StopReason::NoSuchProcess(pid)));
                },
                Frame::TrapPc { pid } => {
                    if let Reply::Pc(pc) = reply {
                        if pc != 0 {
                            m.lemma_emit(
                                Frame::TrapRewind { pid, pc: (pc - 1) as usize },
                                crate::tracer::protocol::Command::SetPc {
                                    pid,
                                    pc: (pc - 1) as usize,
                                },
                            );
                        }
                    }
                },
                Frame::TrapRewind { pid, pc } => {
                    if let Reply::Done = reply {
                        match trap_verdict(bps, pid, pc) {
                            TrapVerdict::StepOver { index } => {
                                m.lemma_emit(
                                    Frame::StepOverDisable { pid, index },
                                    crate::tracer::protocol::Command::DisableBreakpoint { index },
                                );
                            },
                            TrapVerdict::Hit => {
                                m.lemma_halted(pid, StopType::Interrupt);
                                let h = Machine {
                                    focus: pid,
                                    tracees: halted(m.tracees, pid, StopType::Interrupt),
                                    ..m
                                };
                                m.with_tracees(
                                    halted(m.tracees, pid, StopType::Interrupt),
                                ).lemma_same_shape(h);
                                h.lemma_report(
                                    bps,
                                    pid,
                                    StopReason::Breakpoint(
                                        pid,
                                        crate::address::RelocatedAddress(pc),
                                    ),
                                );
                            },
                        }
                    }
                },
                Frame::StepOverDisable { pid, index } => {
                    if let Reply::Done = reply {
                        m.lemma_push(Frame::StepOverStep { pid, index });
                        m.push(Frame::StepOverStep { pid, index }).lemma_emit(
                            Frame::StepIssue { pid },
                            crate::tracer::protocol::Command::SingleStep { pid },
                        );
                    }
                },
                Frame::StepOverEnable { pid } => {
                    m.lemma_halted(pid, StopType::Interrupt);
                    m.with_tracees(halted(m.tracees, pid, StopType::Interrupt)).lemma_ret_apply(
                        bps,
                        None,
                    );
                },
                Frame::GroupInterrupt => {
                    if 0 <= m.cursor < m.targets.len() {
                        m.lemma_emit(
                            Frame::GroupWait,
                            crate::tracer::protocol::Command::WaitFor {
                                pid: m.targets[m.cursor],
                            },
                        );
                        m.lemma_settle(bps);
                    }
                },
                Frame::GroupWait => {
                    if let Reply::Status(status) = reply {
                        m.lemma_settle(bps);
                        m.lemma_push(Frame::GroupApply);
                        m.push(Frame::GroupApply).lemma_apply(bps, status);
                    }
                },
                Frame::StepIssue { pid } => {
                    m.lemma_emit(
                        Frame::StepWait { pid },
                        crate::tracer::protocol::Command::WaitFor { pid },
                    );
                },
                Frame::StepWait { pid } => {
                    if let Reply::Status(status) = reply {
                        m.lemma_ret_step();
                        m.lemma_push(Frame::StepApply { pid });
                        m.push(Frame::StepApply { pid }).lemma_apply(bps, status);
                        if let WaitStatus::Stopped(subject, signal) = status {
                            m.lemma_emit(
                                Frame::StepSignalInfo { pid, subject, signal },
                                crate::tracer::protocol::Command::GetSignalInfo { pid },
                            );
                        }
                    }
                },
                Frame::StepSignalInfo { pid, subject, signal } => {
                    m.lemma_ret_step();
                    if let Reply::SignalCode(code) = reply {
                        m.lemma_push(Frame::StepApply { pid });
                        m.push(Frame::StepApply { pid }).lemma_stopped_with(
                            bps,
                            subject,
                            signal,
                            code,
                        );
                    }
                },
                _ => {},
            }
        }
    }

    /// Asking for a single step keeps the tracer sound.
    pub proof fn lemma_single_step(self, pid: Pid)
        requires
            self.inv(),
        ensures
            sound(self.single_step(pid)),
    {
        if self.stack.len() == 0 {
            self.lemma_push(Frame::StepRoot);
            self.push(Frame::StepRoot).lemma_emit(
                Frame::StepIssue { pid },
                crate::tracer::protocol::Command::SingleStep { pid },
            );
        }
    }

    /// A tracer starts out sound.
    pub proof fn lemma_init(process: Pid)
        ensures
            Machine::init(process).inv(),
            Machine::init(process).idle(),
    {
    }

    /// The start of the debuggee is reported with every thread stopped,
    /// where no thread but the one that started was running when the resume
    /// waited.
    pub proof fn lemma_start_finds_every_thread_stopped(
        self,
        bps: Seq<Breakpoint>,
        pid: Pid,
        signal: Signal,
    )
        requires
            self.inv(),
            self.stack == seq![Frame::ResumeWait],
            forall|i: int|
                0 <= i < self.tracees.len() && (#[trigger] self.tracees[i]).pid != pid
                    ==> self.tracees[i].stopped(),
        ensures
            ({
                let out = self.advance(
                    bps,
                    Reply::Status(
                        WaitStatus::PtraceEvent(
                            pid,
                            signal,
                            crate::tracer::protocol::PTRACE_EVENT_EXEC,
                        ),
                    ),
                );
                out.1 == Step::Stop(StopReason::DebugeeStart) && all_stopped(out.0.tracees)
            }),
    {
        let m = self.pop();
        assert(m.stack =~= Seq::<Frame>::empty());
        let pushed = m.push(Frame::Resume);
        assert(pushed.stack.last() == Frame::Resume);
        let table = registered(self.tracees, pid);
        assert forall|i: int| 0 <= i < table.len() implies (#[trigger] table[i]).stopped() by {
            if has_pid(self.tracees, pid) {
                let k = slot_of(self.tracees, pid);
                assert(0 <= k < self.tracees.len() && self.tracees[k].pid == pid);
                if i != k {
                    lemma_slot(self.tracees, pid, k);
                    assert(table[i] == self.tracees[i]);
                    if self.tracees[i].pid == pid {
                        lemma_slot(self.tracees, pid, i);
                    }
                }
            } else if i < self.tracees.len() {
                assert(table[i] == self.tracees[i]);
                assert(self.tracees[i].pid != pid);
            }
        }
    }

    /// The first resume of a tracer: the process is continued and waited
    /// for, and when it reports its start every thread is stopped.
    pub proof fn lemma_launch(process: Pid, bps: Seq<Breakpoint>, signal: Signal)
        ensures
            ({
                let first = Machine::init(process).resume();
                let second = first.0.advance(bps, Reply::Done);
                let third = second.0.advance(
                    bps,
                    Reply::Status(
                        WaitStatus::PtraceEvent(
                            process,
                            signal,
                            crate::tracer::protocol::PTRACE_EVENT_EXEC,
                        ),
                    ),
                );
                &&& first.1 == Step::Perform(
                    crate::tracer::protocol::Command::Continue { pid: process, signal: None },
                )
                &&& second.1 == Step::Perform(crate::tracer::protocol::Command::WaitAny)
                &&& third.1 == Step::Stop(StopReason::DebugeeStart)
                &&& all_stopped(third.0.tracees)
            }),
    {
        let start = Machine::init(process);
        let table = start.tracees;
        assert(crate::tracee::next_stopped(table, 0) == 0);
        let first = start.resume();
        assert(Seq::<Frame>::empty().push(Frame::ResumeContinue { index: 0 }).drop_last()
            =~= Seq::<Frame>::empty());
        start.lemma_resume();
        let second = first.0.advance(bps, Reply::Done);
        let running = table.update(0, table[0].resumed());
        assert(crate::tracee::next_stopped(running, 1) == 1);
        assert(crate::tracee::next_stopped(running, 1) == running.len());
        first.0.lemma_advance(bps, Reply::Done);
        assert(second.1 == Step::Perform(crate::tracer::protocol::Command::WaitAny));
        assert(second.0.stack =~= seq![Frame::ResumeWait]);
        assert(second.0.tracees == running);
        second.0.lemma_start_finds_every_thread_stopped(bps, process, signal);
    }
}

} // verus!
