//! The core of a source-level debugger for native executables on Linux/x86-64.
//!
//! The library decides; it does not touch the debuggee. Whoever uses it
//! performs the tracing calls, reads memory and registers, and hands the
//! results in as plain values. In return every decision is stated as a
//! contract and proved:
//!
//! - [`address`]: load-time and runtime addresses and the way between them;
//! - [`breakpoint`]: arming and disarming a breakpoint over a word of memory;
//! - [`tracee`] and [`tracer`]: the table of threads, and the state machine
//!   that resumes the debuggee and brings all of its threads to a stop
//!   before it reports one;
//! - [`dwarf`]: the debug information, indexed by address, name and line;
//! - [`register`] and [`unwind`]: register files and the call stack;
//! - [`variable`]: values of variables and how they are shown;
//! - [`console`] and [`cui`]: the commands of the console and their
//!   completion, and the tabs of the full-screen front end.

pub mod address;
pub mod breakpoint;
pub mod console;
pub mod cui;
pub mod dwarf;
pub mod register;
pub mod tracee;
pub mod tracer;
pub mod unwind;
pub mod variable;
