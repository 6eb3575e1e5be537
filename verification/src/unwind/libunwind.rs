//! Backtraces from the frames that the system unwinder walks.
//!
//! The unwind table does not cover every address: a thread that is blocked
//! in a system call stands where the table has no row. The system unwinder
//! walks such stacks too. Walking is the caller's part; this module turns
//! what the walk reports into frames.

use crate::address::RelocatedAddress;
use crate::unwind::FrameSpan;
use vstd::prelude::*;

verus! {

/// The readable form of a mangled symbol name, without the hash at its end.
pub uninterp spec fn demangled(name: Seq<char>) -> Seq<char>;

/// Calls `rustc_demangle::demangle` and formats the result in its alternate
/// form, which leaves out the hash. The contract claims only that the
/// result is a function of the name.
#[verifier::external_body]
fn demangle(name: &str) -> (r: String)
    ensures
        r@ == demangled(name@),
{
    format!("{:#}", rustc_demangle::demangle(name))
}

/// The name of a procedure and how far into it an address lies.
#[derive(Debug)]
pub struct ProcedureName {
    pub name: String,
    pub offset: usize,
}

/// What the system unwinder reports of one frame.
#[derive(Debug)]
pub struct CursorFrame {
    /// The instruction pointer.
    pub ip: usize,
    /// Where the procedure around `ip` begins, if the unwinder knows.
    pub start_ip: Option<usize>,
    /// The name of that procedure, if the unwinder knows.
    pub name: Option<ProcedureName>,
}

/// A backtrace: its frames, innermost first.
pub type Backtrace = Vec<FrameSpan>;

impl CursorFrame {
    /// The procedure is known, and `ip` lies where start and offset say.
    pub open spec fn is_named(&self) -> bool {
        self.start_ip matches Some(start) && (self.name matches Some(name) && self.ip == start
            + name.offset)
    }

    /// `span` is the frame that this report describes: with name and start
    /// where the procedure is known, with the address alone where it is not.
    pub open spec fn gives(&self, span: FrameSpan) -> bool {
        &&& span.ip == RelocatedAddress(self.ip)
        &&& if self.is_named() {
            &&& span.fn_start_ip == Some(RelocatedAddress(self.start_ip->0))
            &&& span.func_name matches Some(name) && name@ == demangled(self.name->0.name@)
        } else {
            span.fn_start_ip is None && span.func_name is None
        }
    }
}

/// The frame that one report of the system unwinder describes.
pub fn frame_span(frame: &CursorFrame) -> (r: FrameSpan)
    ensures
        frame.gives(r),
{
    let ip = RelocatedAddress(frame.ip);
    match (&frame.start_ip, &frame.name) {
        (Some(start), Some(name)) => {
            match start.checked_add(name.offset) {
                Some(expected) => {
                    if expected == frame.ip {
                        return FrameSpan {
                            func_name: Some(demangle(name.name.as_str())),
                            fn_start_ip: Some(RelocatedAddress(*start)),
                            ip,
                        };
                    }
                },
                None => {},
            }
            FrameSpan { func_name: None, fn_start_ip: None, ip }
        },
        _ => FrameSpan { func_name: None, fn_start_ip: None, ip },
    }
}

/// The backtrace that a walk of the system unwinder describes: one frame
/// for every report, in the order of the walk.
pub fn unwind(frames: &Vec<CursorFrame>) -> (r: Backtrace)
    ensures
        r@.len() == frames@.len(),
        forall|i: int| 0 <= i < frames@.len() ==> (#[trigger] frames@[i]).gives(r@[i]),
{
    let mut backtrace: Vec<FrameSpan> = Vec::new();
    let mut i: usize = 0;
    while i < frames.len()
        invariant
            i <= frames@.len(),
            backtrace@.len() == i,
            forall|j: int| 0 <= j < i ==> (#[trigger] frames@[j]).gives(backtrace@[j]),
        decreases frames.len() - i,
    {
        let span = frame_span(&frames[i]);
        backtrace.push(span);
        i += 1;
    }
    backtrace
}

/// The address to which the innermost frame of a walk returns: the
/// instruction pointer of the second frame, if the walk got that far.
pub fn return_addr(frames: &Vec<CursorFrame>) -> (r: Option<RelocatedAddress>)
    ensures
        r == if frames@.len() >= 2 {
            Some(RelocatedAddress(frames@[1].ip))
        } else {
            None
        },
{
    if frames.len() >= 2 {
        Some(RelocatedAddress(frames[1].ip))
    } else {
        None
    }
}

} // verus!
