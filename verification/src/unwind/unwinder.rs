//! The backtrace of a thread, frame by frame, from the unwind table.

use crate::address::{GlobalAddress, RelocatedAddress};
use crate::dwarf::die_ref::{full_name_of, prolog_address};

use crate::dwarf::DebugeeContext;
use crate::register::DwarfRegisterMap;
use crate::unwind::{
    unwound, FrameEvidence, FrameRules, FrameSpan, FrameState, Location, UnwindContext,
    UnwindError,
};
use vstd::prelude::*;

verus! {

/// Where the frame that called the frame of `state` stands, under the
/// mapping `offset`. There is no such place where the return address
/// register has no value or its value lies below the mapping.
pub open spec fn caller_location(state: FrameState, offset: usize) -> Option<Location> {
    match state.return_address() {
        Some(address) => if offset <= address <= usize::MAX {
            Some(
                Location {
                    pc: RelocatedAddress(address as usize),
                    global_pc: GlobalAddress((address - offset) as usize),
                    pid: state.location.pid,
                },
            )
        } else {
            None
        },
        None => None,
    }
}

/// What the unwind table says about the address of `location`.
pub open spec fn rows_at(debugee: &DebugeeContext, location: Location) -> Option<
    Option<crate::unwind::RulesView>,
> {
    crate::unwind::rules_at(debugee, location.global_pc.0 as u64)
}

/// How far a backtrace got.
pub enum Trace {
    /// To its end: these are the places of its frames, innermost first.
    Complete(Seq<Location>),
    /// As far as the evidence reaches. The frame at the given place, entered
    /// with the given registers, is the next one to gather evidence for.
    Pending(Seq<Location>, Location, Seq<Option<u64>>),
    Failed(UnwindError),
}

/// The frames above the frame of `state`, number `k` and up, added to
/// `locations`: the walk goes on while the return address is known and the
/// unwind table has a row for it.
pub open spec fn walk(
    debugee: &DebugeeContext,
    offset: usize,
    state: FrameState,
    current: Seq<Option<u64>>,
    evidence: Seq<FrameEvidence>,
    k: int,
    locations: Seq<Location>,
) -> Trace
    decreases evidence.len() - k,
{
    match caller_location(state, offset) {
        None => Trace::Complete(locations),
        Some(next) => if k < 0 || k >= evidence.len() {
            match rows_at(debugee, next) {
                None => Trace::Failed(UnwindError::Malformed),
                Some(None) => Trace::Complete(locations),
                Some(Some(_)) => Trace::Pending(locations, next, state.caller_registers()),
            }
        } else {
            match unwound(debugee, state.caller_registers(), next, current, evidence[k]) {
                Err(error) => Trace::Failed(error),
                Ok(None) => Trace::Complete(locations),
                Ok(Some(caller)) => walk(
                    debugee,
                    offset,
                    caller,
                    current,
                    evidence,
                    k + 1,
                    locations.push(next),
                ),
            }
        },
    }
}

/// The backtrace of the thread that stands at `location` with the registers
/// `current`, as far as `evidence` reaches: one piece of evidence for every
/// frame, innermost first.
pub open spec fn trace(
    debugee: &DebugeeContext,
    offset: usize,
    location: Location,
    current: Seq<Option<u64>>,
    evidence: Seq<FrameEvidence>,
) -> Trace {
    if evidence.len() == 0 {
        match rows_at(debugee, location) {
            None => Trace::Failed(UnwindError::Malformed),
            Some(None) => Trace::Complete(Seq::empty()),
            Some(Some(_)) => Trace::Pending(Seq::empty(), location, current),
        }
    } else {
        match unwound(debugee, current, location, current, evidence[0]) {
            Err(error) => Trace::Failed(error),
            Ok(None) => Trace::Complete(Seq::empty()),
            Ok(Some(state)) => walk(debugee, offset, state, current, evidence, 1, seq![location]),
        }
    }
}

/// A frame for which evidence is still to be gathered.
pub struct Pending {
    pub location: Location,
    /// The registers on entry to the frame.
    pub registers: DwarfRegisterMap,
}

/// A backtrace as far as the evidence reaches.
pub struct Unwound {
    /// The frames, innermost first.
    pub frames: Vec<FrameSpan>,
    /// The next frame to gather evidence for; none once the backtrace is complete.
    pub pending: Option<Pending>,
}

/// Unwinds the call stack by the unwind table of the debuggee.
pub struct DwarfUnwinder<'a> {
    debugee: &'a DebugeeContext,
    mapping_offset: usize,
}

impl<'a> DwarfUnwinder<'a> {
    pub closed spec fn debugee(&self) -> &'a DebugeeContext {
        self.debugee
    }

    /// How far the debuggee's addresses lie from those of the object file.
    pub closed spec fn offset(&self) -> usize {
        self.mapping_offset
    }

    /// An unwinder for a debuggee that is mapped `mapping_offset` bytes
    /// above the addresses of its object file.
    pub fn new(debugee: &'a DebugeeContext, mapping_offset: usize) -> (r: DwarfUnwinder<'a>)
        ensures
            r.debugee() == debugee,
            r.offset() == mapping_offset,
    {
        DwarfUnwinder { debugee, mapping_offset }
    }

    /// `span` describes the frame at `location`: its address, and the
    /// function that the address lies in with the address at which the
    /// function's code begins, as far as the debug information knows them.
    pub open spec fn describes(&self, span: FrameSpan, location: Location) -> bool {
        &&& span.ip == location.pc
        &&& match self.debugee().function_index_by_pc(location.global_pc.0 as u64) {
            None => span.func_name is None && span.fn_start_ip is None,
            Some((u, e)) => {
                let unit = self.debugee().units()[u as int];
                let function = unit.entries@[e as int].die->Function_0;
                &&& match full_name_of(function) {
                    None => span.func_name is None,
                    Some(name) => span.func_name matches Some(full) && full@ == name,
                }
                &&& span.fn_start_ip == (match prolog_address(unit, function) {
                    Some(address) => if address + self.offset() <= usize::MAX {
                        Some(RelocatedAddress((address + self.offset()) as usize))
                    } else {
                        None
                    },
                    None => None,
                })
            },
        }
    }

    /// The frame at `location`, described by the debug information.
    pub fn frame_span(&self, location: Location) -> (r: FrameSpan)
        requires
            self.debugee().wf(),
        ensures
            self.describes(r, location),
    {
        match self.debugee.find_function_by_pc(location.global_pc.0) {
            None => FrameSpan { func_name: None, fn_start_ip: None, ip: location.pc },
            Some(function) => {
                let start = match function.prolog_start_place() {
                    Ok(place) => place.address.0.checked_add(self.mapping_offset),
                    Err(_) => None,
                };
                let fn_start_ip = match start {
                    Some(address) => Some(RelocatedAddress(address)),
                    None => None,
                };
                FrameSpan { func_name: function.full_name(), fn_start_ip, ip: location.pc }
            },
        }
    }

    /// Where the frame that called the frame of `context` stands.
    pub fn caller_location(&self, context: &UnwindContext<'a>) -> (r: Option<Location>)
        ensures
            r == caller_location(context@, self.offset()),
    {
        match context.return_address() {
            Some(address) => if address.0 >= self.mapping_offset {
                Some(
                    Location {
                        pc: address,
                        global_pc: address.into_global(self.mapping_offset),
                        pid: context.location().pid,
                    },
                )
            } else {
                None
            },
            None => None,
        }
    }

    /// The places of the frames of a backtrace, as far as the evidence reaches.
    pub fn locations(
        &self,
        location: Location,
        current: &DwarfRegisterMap,
        evidence: &Vec<FrameEvidence>,
    ) -> (r: Result<(Vec<Location>, Option<Pending>), UnwindError>)
        ensures
            match trace(self.debugee(), self.offset(), location, current@, evidence@) {
                Trace::Complete(places) => r matches Ok((found, pending)) && found@ == places
                    && pending is None,
                Trace::Pending(places, next, registers) => r matches Ok((found, pending))
                    && found@ == places && (pending matches Some(p) && p.location == next
                    && p.registers@ == registers),
                Trace::Failed(error) => r matches Err(e) && e == error,
            },
    {
        let mut found: Vec<Location> = Vec::new();
        if evidence.len() == 0 {
            return match FrameRules::lookup(self.debugee, location.global_pc) {
                Err(error) => Err(error),
                Ok(None) => Ok((found, None)),
                Ok(Some(_)) => Ok((found, Some(Pending { location, registers: current.clone() }))),
            };
        }
        let mut context = match UnwindContext::new(
            self.debugee,
            current.clone(),
            location,
            current,
            &evidence[0],
        ) {
            Err(error) => {
                return Err(error);
            },
            Ok(None) => {
                return Ok((found, None));
            },
            Ok(Some(context)) => context,
        };
        found.push(location);
        assert(found@ =~= seq![location]);
        let mut k: usize = 1;
        loop
            invariant
                1 <= k <= evidence@.len(),
                context.debugee() == self.debugee(),
                trace(self.debugee(), self.offset(), location, current@, evidence@) == walk(
                    self.debugee(),
                    self.offset(),
                    context@,
                    current@,
                    evidence@,
                    k as int,
                    found@,
                ),
            decreases evidence@.len() - k,
        {
            let next = match self.caller_location(&context) {
                None => {
                    return Ok((found, None));
                },
                Some(next) => next,
            };
            if k >= evidence.len() {
                return match FrameRules::lookup(self.debugee, next.global_pc) {
                    Err(error) => Err(error),
                    Ok(None) => Ok((found, None)),
                    Ok(Some(_)) => {
                        let mut registers = context.registers();
                        registers.update(crate::register::DWARF_RSP, context.cfa().0 as u64);
                        Ok((found, Some(Pending { location: next, registers })))
                    },
                };
            }
            context = match UnwindContext::next(context, next, current, &evidence[k]) {
                Err(error) => {
                    return Err(error);
                },
                Ok(None) => {
                    return Ok((found, None));
                },
                Ok(Some(caller)) => caller,
            };
            found.push(next);
            k += 1;
        }
    }

    /// `frames` describe the frames at `places`, one by one.
    pub open spec fn describes_all(&self, frames: Seq<FrameSpan>, places: Seq<Location>) -> bool {
        frames.len() == places.len() && forall|i: int|
            0 <= i < frames.len() ==> self.describes(#[trigger] frames[i], places[i])
    }

    /// Unwinds the call stack of the thread that stands at `location` with
    /// the registers `current`, as far as `evidence` reaches.
    ///
    /// The first frame is that of `location`. Every further frame stands at
    /// the return address of the one before; its registers on entry are
    /// those recovered by the rules of the frame before, with the stack
    /// pointer at that frame's canonical frame address. The backtrace ends
    /// where the return address is not known or the unwind table has no row
    /// for it.
    pub fn unwind(&self, location: Location, current: &DwarfRegisterMap, evidence: &Vec<FrameEvidence>) -> (r:
        Result<Unwound, UnwindError>)
        requires
            self.debugee().wf(),
        ensures
            match trace(self.debugee(), self.offset(), location, current@, evidence@) {
                Trace::Complete(places) => r matches Ok(unwound) && self.describes_all(
                    unwound.frames@,
                    places,
                ) && unwound.pending is None,
                Trace::Pending(places, next, registers) => r matches Ok(unwound)
                    && self.describes_all(unwound.frames@, places) && (
                unwound.pending matches Some(p) && p.location == next && p.registers@ == registers),
                Trace::Failed(error) => r matches Err(e) && e == error,
            },
    {
        let (places, pending) = match self.locations(location, current, evidence) {
            Err(error) => {
                return Err(error);
            },
            Ok(found) => found,
        };
        let mut frames: Vec<FrameSpan> = Vec::new();
        let mut i: usize = 0;
        while i < places.len()
            invariant
                self.debugee().wf(),
                i <= places@.len(),
                frames@.len() == i,
                forall|j: int| 0 <= j < i ==> self.describes(#[trigger] frames@[j], places@[j]),
            decreases places.len() - i,
        {
            let span = self.frame_span(places[i]);
            frames.push(span);
            i += 1;
        }
        Ok(Unwound { frames, pending })
    }

    /// The state of the frame at `location`, unwound with `evidence`.
    pub fn context_for(&self, location: Location, current: &DwarfRegisterMap, evidence: &FrameEvidence) -> (r:
        Result<Option<UnwindContext<'a>>, UnwindError>)
        ensures
            crate::unwind::state_of(r) == unwound(
                self.debugee(),
                current@,
                location,
                current@,
                *evidence,
            ),
    {
        UnwindContext::new(self.debugee, current.clone(), location, current, evidence)
    }

    /// The address to which the function at `location` returns.
    pub fn return_address(&self, location: Location, current: &DwarfRegisterMap, evidence: &FrameEvidence) -> (r:
        Result<Option<RelocatedAddress>, UnwindError>)
        ensures
            match unwound(self.debugee(), current@, location, current@, *evidence) {
                Err(error) => r matches Err(e) && e == error,
                Ok(None) => r matches Ok(None),
                Ok(Some(state)) => r == Ok::<Option<RelocatedAddress>, UnwindError>(
                    match state.return_address() {
                        Some(address) => if address <= usize::MAX {
                            Some(RelocatedAddress(address as usize))
                        } else {
                            None
                        },
                        None => None,
                    },
                ),
            },
    {
        match self.context_for(location, current, evidence) {
            Err(error) => Err(error),
            Ok(None) => Ok(None),
            Ok(Some(context)) => Ok(context.return_address()),
        }
    }
}

} // verus!
