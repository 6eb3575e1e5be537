//! Threads of the debuggee as the tracer knows them.
//!
//! The table holds one record for each thread that is attached. It keeps the
//! records in the order in which the threads were first seen, and no thread
//! id occurs twice. All questions about the table are stated over its
//! sequence of records.

use vstd::prelude::*;

verus! {

/// The signal that a breakpoint or a single step raises.
pub const SIGTRAP: i32 = 5;

/// The signal under which an interrupted thread reports its stop.
pub const SIGSTOP: i32 = 19;

/// Id of a thread (or, for the group leader, of the whole process).
#[derive(Clone, Copy, Debug, PartialEq, Eq, Structural, Hash)]
pub struct Pid(pub i32);

impl Pid {
    pub fn from_raw(raw: i32) -> (r: Pid)
        ensures
            r == Pid(raw),
    {
        Pid(raw)
    }

    pub fn as_raw(self) -> (r: i32)
        ensures
            r == self.0,
    {
        self.0
    }
}

/// A signal, by its number.
#[derive(Clone, Copy, Debug, PartialEq, Eq, Structural, Hash)]
pub struct Signal(pub i32);

impl Signal {
    pub open spec fn is_trap(self) -> bool {
        self.0 == SIGTRAP
    }

    /// Whether this is the signal of breakpoints and single steps.
    #[verifier::when_used_as_spec(is_trap)]
    pub fn trap(self) -> (r: bool)
        ensures
            r == self.is_trap(),
    {
        self.0 == SIGTRAP
    }
}

/// Why a stopped thread is stopped.
#[derive(Clone, Copy, Debug, PartialEq, Eq, Structural)]
pub enum StopType {
    /// Stopped by the tracer, or seen in a stop that carries no signal.
    Interrupt,
    /// Stopped on delivery of a signal.
    SignalStop(Signal),
}

#[derive(Clone, Copy, Debug, PartialEq, Eq, Structural)]
pub enum TraceeStatus {
    Stopped(StopType),
    Running,
}

/// One attached thread.
#[derive(Clone, Copy, Debug)]
pub struct Tracee {
    pub pid: Pid,
    pub status: TraceeStatus,
    /// The signal on which the thread stopped and which it has not been
    /// continued past yet.
    pub pending_signal: Option<Signal>,
}

impl Tracee {
    /// The record of a thread that was just seen for the first time: such a
    /// thread is always in a stop.
    pub open spec fn fresh(pid: Pid) -> Tracee {
        Tracee { pid, status: TraceeStatus::Stopped(StopType::Interrupt), pending_signal: None }
    }

    /// `self` after it stopped for `stop`.
    pub open spec fn halted(self, stop: StopType) -> Tracee {
        Tracee {
            pid: self.pid,
            status: TraceeStatus::Stopped(stop),
            pending_signal: match stop {
                StopType::SignalStop(signal) => Some(signal),
                StopType::Interrupt => self.pending_signal,
            },
        }
    }

    /// `self` after it was continued.
    pub open spec fn resumed(self) -> Tracee {
        Tracee { pid: self.pid, status: TraceeStatus::Running, pending_signal: None }
    }

    pub open spec fn stopped(&self) -> bool {
        self.status is Stopped
    }

    pub fn new(pid: Pid) -> (r: Tracee)
        ensures
            r == Tracee::fresh(pid),
    {
        Tracee { pid, status: TraceeStatus::Stopped(StopType::Interrupt), pending_signal: None }
    }

    #[verifier::when_used_as_spec(stopped)]
    pub fn is_stopped(&self) -> (r: bool)
        ensures
            r == self.stopped(),
    {
        match self.status {
            TraceeStatus::Stopped(_) => true,
            TraceeStatus::Running => false,
        }
    }

    /// Whether the thread is stopped by the tracer rather than by a signal.
    pub fn is_interrupted(&self) -> (r: bool)
        ensures
            r == (self.status == TraceeStatus::Stopped(StopType::Interrupt)),
    {
        match self.status {
            TraceeStatus::Stopped(StopType::Interrupt) => true,
            _ => false,
        }
    }

    pub fn set_stop(&mut self, stop: StopType)
        ensures
            *final(self) == old(self).halted(stop),
    {
        self.status = TraceeStatus::Stopped(stop);
        match stop {
            StopType::SignalStop(signal) => {
                self.pending_signal = Some(signal);
            },
            StopType::Interrupt => {},
        }
    }

    pub fn set_running(&mut self)
        ensures
            *final(self) == old(self).resumed(),
    {
        self.status = TraceeStatus::Running;
        self.pending_signal = None;
    }
}

/// No thread id occurs twice.
pub open spec fn unique_pids(s: Seq<Tracee>) -> bool {
    forall|i: int, j: int| 0 <= i < j < s.len() ==> s[i].pid != s[j].pid
}

pub open spec fn has_pid(s: Seq<Tracee>, pid: Pid) -> bool {
    exists|i: int| 0 <= i < s.len() && s[i].pid == pid
}

/// Where the record of `pid` stands, if there is one.
pub open spec fn slot_of(s: Seq<Tracee>, pid: Pid) -> int {
    choose|i: int| 0 <= i < s.len() && s[i].pid == pid
}

pub open spec fn lookup(s: Seq<Tracee>, pid: Pid) -> Option<Tracee> {
    if has_pid(s, pid) {
        Some(s[slot_of(s, pid)])
    } else {
        None
    }
}

/// The table after `pid` was registered: a fresh record, in place of an
/// earlier one if there was one.
pub open spec fn registered(s: Seq<Tracee>, pid: Pid) -> Seq<Tracee> {
    if has_pid(s, pid) {
        s.update(slot_of(s, pid), Tracee::fresh(pid))
    } else {
        s.push(Tracee::fresh(pid))
    }
}

/// The table after `pid` stopped for `stop`; an unknown thread gets a record.
pub open spec fn halted(s: Seq<Tracee>, pid: Pid, stop: StopType) -> Seq<Tracee> {
    if has_pid(s, pid) {
        s.update(slot_of(s, pid), s[slot_of(s, pid)].halted(stop))
    } else {
        s.push(Tracee::fresh(pid).halted(stop))
    }
}

/// The table without the record of `pid`.
pub open spec fn dropped(s: Seq<Tracee>, pid: Pid) -> Seq<Tracee> {
    if has_pid(s, pid) {
        s.remove(slot_of(s, pid))
    } else {
        s
    }
}

pub open spec fn all_stopped(s: Seq<Tracee>) -> bool {
    forall|i: int| 0 <= i < s.len() ==> (#[trigger] s[i]).stopped()
}

/// The first stopped record at or after `from`; the table's length if there is none.
pub open spec fn next_stopped(s: Seq<Tracee>, from: int) -> int
    decreases s.len() - from,
{
    if from < 0 || from >= s.len() {
        s.len() as int
    } else if s[from].stopped() {
        from
    } else {
        next_stopped(s, from + 1)
    }
}

/// The thread ids of the table, in its order.
pub open spec fn pids(s: Seq<Tracee>) -> Seq<Pid> {
    Seq::new(s.len(), |i: int| s[i].pid)
}

/// A record found under `pid` is the record of `pid`.
pub proof fn lemma_slot(s: Seq<Tracee>, pid: Pid, i: int)
    requires
        unique_pids(s),
        0 <= i < s.len(),
        s[i].pid == pid,
    ensures
        has_pid(s, pid),
        slot_of(s, pid) == i,
        lookup(s, pid) == Some(s[i]),
{
    let k = slot_of(s, pid);
    assert(0 <= k < s.len() && s[k].pid == pid);
    if k < i {
        assert(s[k].pid != s[i].pid);
    } else if i < k {
        assert(s[i].pid != s[k].pid);
    }
}

/// Registering, stopping and dropping a thread keep the ids unique.
pub proof fn lemma_table_stays_unique(s: Seq<Tracee>, pid: Pid, stop: StopType)
    requires
        unique_pids(s),
    ensures
        unique_pids(registered(s, pid)),
        unique_pids(halted(s, pid, stop)),
        unique_pids(dropped(s, pid)),
{
    if has_pid(s, pid) {
        let k = slot_of(s, pid);
        assert(0 <= k < s.len() && s[k].pid == pid);
        let r = registered(s, pid);
        assert forall|i: int, j: int| 0 <= i < j < r.len() implies r[i].pid != r[j].pid by {
            assert(r[i].pid == s[i].pid && r[j].pid == s[j].pid);
        }
        let h = halted(s, pid, stop);
        assert forall|i: int, j: int| 0 <= i < j < h.len() implies h[i].pid != h[j].pid by {
            assert(h[i].pid == s[i].pid && h[j].pid == s[j].pid);
        }
        let d = dropped(s, pid);
        assert forall|i: int, j: int| 0 <= i < j < d.len() implies d[i].pid != d[j].pid by {
            let si = if i < k { i } else { i + 1 };
            let sj = if j < k { j } else { j + 1 };
            assert(d[i] == s[si] && d[j] == s[sj]);
        }
    } else {
        let r = registered(s, pid);
        assert forall|i: int, j: int| 0 <= i < j < r.len() implies r[i].pid != r[j].pid by {
            if j == s.len() {
                assert(s[i].pid != pid);
            }
        }
        let h = halted(s, pid, stop);
        assert forall|i: int, j: int| 0 <= i < j < h.len() implies h[i].pid != h[j].pid by {
            if j == s.len() {
                assert(s[i].pid != pid);
            }
        }
    }
}

/// The table of attached threads, with the process they belong to and the
/// thread that commands act on.
pub struct TraceeCtl {
    process_pid: Pid,
    in_focus_tid: Pid,
    threads_state: Vec<Tracee>,
}

impl TraceeCtl {
    /// The records, in the order in which the threads were first seen.
    pub closed spec fn tracees(&self) -> Seq<Tracee> {
        self.threads_state@
    }

    /// The group leader.
    pub closed spec fn process(&self) -> Pid {
        self.process_pid
    }

    /// The thread in focus.
    pub closed spec fn focus(&self) -> Pid {
        self.in_focus_tid
    }

    pub open spec fn wf(&self) -> bool {
        unique_pids(self.tracees())
    }

    /// The table of a process that was just spawned: its leader, stopped.
    pub fn new(proc_pid: Pid) -> (r: TraceeCtl)
        ensures
            r.wf(),
            r.tracees() == seq![Tracee::fresh(proc_pid)],
            r.process() == proc_pid,
            r.focus() == proc_pid,
    {
        let mut threads: Vec<Tracee> = Vec::new();
        threads.push(Tracee::new(proc_pid));
        TraceeCtl { process_pid: proc_pid, in_focus_tid: proc_pid, threads_state: threads }
    }

    pub fn proc_pid(&self) -> (r: Pid)
        ensures
            r == self.process(),
    {
        self.process_pid
    }

    pub fn focus_pid(&self) -> (r: Pid)
        ensures
            r == self.focus(),
    {
        self.in_focus_tid
    }

    pub fn set_tracee_to_focus(&mut self, pid: Pid)
        ensures
            final(self).focus() == pid,
            final(self).tracees() == old(self).tracees(),
            final(self).process() == old(self).process(),
    {
        self.in_focus_tid = pid;
    }

    pub fn len(&self) -> (r: usize)
        ensures
            r == self.tracees().len(),
    {
        self.threads_state.len()
    }

    /// The record at `index` of the table.
    pub fn at(&self, index: usize) -> (r: Tracee)
        requires
            index < self.tracees().len(),
        ensures
            r == self.tracees()[index as int],
    {
        self.threads_state[index]
    }

    /// Where the record of `pid` stands.
    pub fn slot(&self, pid: Pid) -> (r: Option<usize>)
        requires
            self.wf(),
        ensures
            r is Some == has_pid(self.tracees(), pid),
            r is Some ==> r->0 == slot_of(self.tracees(), pid) && r->0 < self.tracees().len(),
    {
        let mut i: usize = 0;
        while i < self.threads_state.len()
            invariant
                i <= self.threads_state.len(),
                unique_pids(self.threads_state@),
                forall|k: int| 0 <= k < i ==> self.threads_state@[k].pid != pid,
            decreases self.threads_state.len() - i,
        {
            if self.threads_state[i].pid.0 == pid.0 {
                proof {
                    lemma_slot(self.tracees(), pid, i as int);
                }
                return Some(i);
            }
            i += 1;
        }
        None
    }

    /// The record of `pid`, if it is attached.
    pub fn tracee(&self, pid: Pid) -> (r: Option<Tracee>)
        requires
            self.wf(),
        ensures
            r == lookup(self.tracees(), pid),
    {
        match self.slot(pid) {
            Some(i) => Some(self.threads_state[i]),
            None => None,
        }
    }

    pub fn tracee_in_focus(&self) -> (r: Option<Tracee>)
        requires
            self.wf(),
        ensures
            r == lookup(self.tracees(), self.focus()),
    {
        self.tracee(self.in_focus_tid)
    }

    /// Registers `pid` as a thread that was just seen in a stop.
    pub fn add(&mut self, pid: Pid) -> (r: Tracee)
        requires
            old(self).wf(),
        ensures
            final(self).wf(),
            final(self).tracees() == registered(old(self).tracees(), pid),
            final(self).process() == old(self).process(),
            final(self).focus() == old(self).focus(),
            r == Tracee::fresh(pid),
    {
        proof {
            lemma_table_stays_unique(self.tracees(), pid, StopType::Interrupt);
        }
        let fresh = Tracee::new(pid);
        match self.slot(pid) {
            Some(i) => {
                self.threads_state[i] = fresh;
            },
            None => {
                self.threads_state.push(fresh);
            },
        }
        fresh
    }

    /// Forgets `pid`; gives its record back if it had one.
    pub fn remove(&mut self, pid: Pid) -> (r: Option<Tracee>)
        requires
            old(self).wf(),
        ensures
            final(self).wf(),
            final(self).tracees() == dropped(old(self).tracees(), pid),
            final(self).process() == old(self).process(),
            final(self).focus() == old(self).focus(),
            r == lookup(old(self).tracees(), pid),
    {
        proof {
            lemma_table_stays_unique(self.tracees(), pid, StopType::Interrupt);
        }
        match self.slot(pid) {
            Some(i) => Some(self.threads_state.remove(i)),
            None => None,
        }
    }

    /// Records that `pid` stopped for `stop`; a thread not seen before gets a record.
    pub fn set_stop(&mut self, pid: Pid, stop: StopType)
        requires
            old(self).wf(),
        ensures
            final(self).wf(),
            final(self).tracees() == halted(old(self).tracees(), pid, stop),
            final(self).process() == old(self).process(),
            final(self).focus() == old(self).focus(),
    {
        proof {
            lemma_table_stays_unique(self.tracees(), pid, stop);
        }
        match self.slot(pid) {
            Some(i) => {
                let mut tracee = self.threads_state[i];
                tracee.set_stop(stop);
                self.threads_state[i] = tracee;
            },
            None => {
                let mut tracee = Tracee::new(pid);
                tracee.set_stop(stop);
                self.threads_state.push(tracee);
            },
        }
    }

    /// Records that the thread at `index` of the table was continued.
    pub fn set_running(&mut self, index: usize)
        requires
            old(self).wf(),
            index < old(self).tracees().len(),
        ensures
            final(self).wf(),
            final(self).tracees() == old(self).tracees().update(
                index as int,
                old(self).tracees()[index as int].resumed(),
            ),
            final(self).process() == old(self).process(),
            final(self).focus() == old(self).focus(),
    {
        let mut tracee = self.threads_state[index];
        tracee.set_running();
        self.threads_state[index] = tracee;
        proof {
            let s = old(self).tracees();
            let t = self.tracees();
            assert forall|i: int, j: int| 0 <= i < j < t.len() implies t[i].pid != t[j].pid by {
                assert(t[i].pid == s[i].pid && t[j].pid == s[j].pid);
            }
        }
    }

    /// The first stopped thread at or after `from`, as an index of the table.
    pub fn next_stopped(&self, from: usize) -> (r: usize)
        ensures
            r == next_stopped(self.tracees(), from as int),
            r <= self.tracees().len(),
            r < self.tracees().len() ==> from <= r && self.tracees()[r as int].stopped(),
    {
        let mut i: usize = from;
        while i < self.threads_state.len()
            invariant
                from <= i,
                next_stopped(self.threads_state@, from as int) == next_stopped(
                    self.threads_state@,
                    i as int,
                ),
            decreases self.threads_state.len() - i,
        {
            if self.threads_state[i].is_stopped() {
                return i;
            }
            i += 1;
        }
        self.threads_state.len()
    }

    /// A copy of all records.
    pub fn snapshot(&self) -> (r: Vec<Tracee>)
        ensures
            r@ == self.tracees(),
    {
        let mut out: Vec<Tracee> = Vec::new();
        let mut i: usize = 0;
        while i < self.threads_state.len()
            invariant
                i <= self.threads_state.len(),
                out@ == self.threads_state@.take(i as int),
            decreases self.threads_state.len() - i,
        {
            out.push(self.threads_state[i]);
            i += 1;
        }
        assert(self.threads_state@.take(self.threads_state@.len() as int) == self.threads_state@);
        out
    }

    /// The thread ids, in the table's order.
    pub fn pids(&self) -> (r: Vec<Pid>)
        ensures
            r@ == pids(self.tracees()),
    {
        let mut out: Vec<Pid> = Vec::new();
        let mut i: usize = 0;
        while i < self.threads_state.len()
            invariant
                i <= self.threads_state.len(),
                out@ == pids(self.threads_state@).take(i as int),
            decreases self.threads_state.len() - i,
        {
            out.push(self.threads_state[i].pid);
            i += 1;
        }
        assert(pids(self.threads_state@).take(self.threads_state@.len() as int) == pids(
            self.threads_state@,
        ));
        out
    }

    /// Whether every attached thread is stopped.
    pub fn all_stopped(&self) -> (r: bool)
        ensures
            r == all_stopped(self.tracees()),
    {
        let mut i: usize = 0;
        while i < self.threads_state.len()
            invariant
                i <= self.threads_state.len(),
                forall|k: int| 0 <= k < i ==> (#[trigger] self.threads_state@[k]).stopped(),
            decreases self.threads_state.len() - i,
        {
            if !self.threads_state[i].is_stopped() {
                return false;
            }
            i += 1;
        }
        true
    }
}

} // verus!
