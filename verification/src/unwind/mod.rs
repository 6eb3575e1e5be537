//! Unwinding the call stack by the unwind table of the debuggee.
//!
//! One frame is unwound from three things: the registers on entry to the
//! frame, the row of the unwind table for the frame's address, and the
//! values that the row's rules ask for from the debuggee. The library finds
//! the row and says what to fetch; its caller fetches, and hands the values
//! back as the evidence for that frame.

pub mod cfi;
pub mod libunwind;
pub mod unwinder;

use crate::address::{GlobalAddress, RelocatedAddress};
use crate::dwarf::DebugeeContext;
use crate::register::{peek, updated, DwarfRegisterMap, DWARF_RSP};
use crate::tracee::Pid;
use crate::unwind::cfi::{
    cfi_section_of, entries, fde_initial_address, fde_len, fde_length, fde_return,
    fde_return_register, fde_row, fde_row_at, fde_start, next_entry, open_big_endian,
    open_little_endian, parse_fde, row_cfa, row_cfa_rule, row_len, row_rule, row_rules,
    section_items, walk_items, CfaRule, CfiEntry, CfiRow, CfiSection, Found, RegisterRule,
    ADDRESS_SIZE,
};
use vstd::prelude::*;

verus! {

/// Where a thread stands: the address at run time, the same address as the
/// object file has it, and the thread.
#[derive(Clone, Copy, Debug, PartialEq, Eq, Structural)]
pub struct Location {
    pub pc: RelocatedAddress,
    pub global_pc: GlobalAddress,
    pub pid: Pid,
}

/// One frame of a backtrace.
#[derive(Debug)]
pub struct FrameSpan {
    pub func_name: Option<String>,
    /// Where the function's code begins.
    pub fn_start_ip: Option<RelocatedAddress>,
    pub ip: RelocatedAddress,
}

/// Why unwinding failed.
#[derive(Clone, Copy, Debug, PartialEq, Eq, Structural)]
pub enum UnwindError {
    /// The unwind section cannot be read.
    Malformed,
    /// The evidence does not answer the rules of the frame.
    Evidence,
    /// The canonical frame address is not known.
    NoFrameAddress,
}

/// What the rule of one register asks for from the debuggee.
#[derive(Debug)]
pub enum Fetch<'a> {
    /// Nothing.
    Nothing,
    /// The eight bytes at the canonical frame address plus this offset.
    AtCfa(i64),
    /// The eight bytes at the address that this expression gives.
    Deref(&'a Vec<u8>),
    /// The value that this expression gives.
    Evaluate(&'a Vec<u8>),
}

/// What was fetched from the debuggee for one frame.
#[derive(Debug)]
pub struct FrameEvidence {
    /// What the expression for the canonical frame address gave, where the
    /// frame has one and it could be evaluated.
    pub cfa: Option<u64>,
    /// For every register rule of the frame, in the order of the rules, what
    /// its fetch gave; `None` where it asks for nothing or the fetch failed.
    pub values: Vec<Option<u64>>,
}

/// The address `offset` bytes from the canonical frame address `cfa`. It
/// wraps round at the ends of the address space.
pub open spec fn cfa_plus(cfa: u64, offset: i64) -> u64 {
    cfa.wrapping_add_signed(offset)
}

/// The address at which the rule `Offset(offset)` finds the saved register.
pub fn saved_at(cfa: u64, offset: i64) -> (r: u64)
    ensures
        r == cfa_plus(cfa, offset),
{
    cfa.wrapping_add_signed(offset)
}

/// `base` plus `offset`, if that is an address.
pub open spec fn sum_in_range(base: u64, offset: i64) -> Option<u64> {
    if 0 <= base + offset <= u64::MAX {
        Some((base + offset) as u64)
    } else {
        None
    }
}

/// The canonical frame address under `rule`: a register of the frame plus
/// an offset, or what evaluating the rule's expression gave.
pub open spec fn cfa_of(rule: CfaRule, registers: Seq<Option<u64>>, evaluated: Option<u64>) -> Option<
    u64,
> {
    match rule {
        CfaRule::RegisterAndOffset { register, offset } => match peek(registers, register) {
            Some(base) => sum_in_range(base, offset),
            None => None,
        },
        CfaRule::Expression(_) => evaluated,
    }
}

/// What a rule asks for from the debuggee.
pub open spec fn asks(rule: RegisterRule) -> bool {
    rule is Offset || rule is Expression || rule is ValExpression
}

/// The value that a register had in the calling frame.
///
/// | rule | value |
/// |------|-------|
/// | `Undefined` | none |
/// | `SameValue` | the thread's current register |
/// | `Offset(k)` | what was fetched from memory at the frame address plus `k` |
/// | `ValOffset(k)` | the frame address plus `k` |
/// | `Register(r)` | register `r` on entry to the frame |
/// | `Expression(e)` | what was fetched from memory at the result of `e` |
/// | `ValExpression(e)` | what was fetched as the result of `e` |
/// | `Architectural` | none |
pub open spec fn recovered(
    rule: RegisterRule,
    register: u16,
    cfa: u64,
    snapshot: Seq<Option<u64>>,
    current: Seq<Option<u64>>,
    fetched: Option<u64>,
) -> Option<u64> {
    match rule {
        RegisterRule::Undefined => None,
        RegisterRule::SameValue => peek(current, register),
        RegisterRule::Offset(_) => fetched,
        RegisterRule::ValOffset(offset) => sum_in_range(cfa, offset),
        RegisterRule::Register(other) => peek(snapshot, other),
        RegisterRule::Expression(_) => fetched,
        RegisterRule::ValExpression(_) => fetched,
        RegisterRule::Architectural => None,
    }
}

/// The registers of the calling frame after the first `upto` rules: every
/// rule that gives a value puts it under the number of its register; a rule
/// that gives none leaves the register as it was on entry.
pub open spec fn recover_all(
    rules: Seq<(u16, RegisterRule)>,
    cfa: u64,
    snapshot: Seq<Option<u64>>,
    current: Seq<Option<u64>>,
    fetched: Seq<Option<u64>>,
    upto: int,
) -> Seq<Option<u64>>
    decreases upto,
{
    if upto <= 0 || upto > rules.len() || upto > fetched.len() {
        snapshot
    } else {
        let before = recover_all(rules, cfa, snapshot, current, fetched, upto - 1);
        match recovered(rules[upto - 1].1, rules[upto - 1].0, cfa, snapshot, current, fetched[upto - 1]) {
            Some(value) => updated(before, rules[upto - 1].0, value),
            None => before,
        }
    }
}

/// The rules of the unwind table for one address, as plain values.
pub struct RulesView {
    pub cfa: CfaRule,
    pub rules: Seq<(u16, RegisterRule)>,
    pub return_register: u16,
}

/// The address `pc` lies among the `length` addresses from `start` on.
pub open spec fn in_span(start: u64, length: u64, pc: u64) -> bool {
    start <= pc && pc - start < length
}

/// What the entries `items` of `section` say about the address `pc`: the
/// rules of the first frame description that covers `pc`; no rules
/// (`Some(None)`) where none covers it; nothing (`None`) where an entry on
/// the way, or the row of the covering one, cannot be read.
pub open spec fn rules_among(section: CfiSection, items: Seq<Found>, pc: u64) -> Option<
    Option<RulesView>,
>
    decreases items.len(),
{
    if items.len() == 0 {
        Some(None)
    } else {
        match items[0] {
            Found::Cie => rules_among(section, items.drop_first(), pc),
            Found::Broken => None,
            Found::Fde(None) => None,
            Found::Fde(Some(fde)) => if in_span(fde_start(fde), fde_length(fde), pc) {
                match fde_row_at(section, fde, pc) {
                    Some(row) => Some(
                        Some(
                            RulesView {
                                cfa: row_cfa(row),
                                rules: row_rules(row),
                                return_register: fde_return(fde),
                            },
                        ),
                    ),
                    None => None,
                }
            } else {
                rules_among(section, items.drop_first(), pc)
            },
        }
    }
}

/// What the unwind section of the debuggee says about the address `pc`. The
/// section is read in the byte order of the object file, with addresses of
/// eight bytes.
pub open spec fn rules_at(debugee: &DebugeeContext, pc: u64) -> Option<Option<RulesView>> {
    let section = cfi_section_of(
        debugee.unwind_section(),
        debugee.unwind_section_address(),
        debugee.code_address(),
        ADDRESS_SIZE,
        debugee.byte_order_is_little(),
    );
    rules_among(section, section_items(section), pc)
}

/// The rules of the unwind table for one address.
#[derive(Debug)]
pub struct FrameRules {
    pub cfa: CfaRule,
    /// The rule of every register that has one, with the register's number.
    pub rules: Vec<(u16, RegisterRule)>,
    /// The number of the register that holds the return address.
    pub return_register: u16,
}

impl View for FrameRules {
    type V = RulesView;

    open spec fn view(&self) -> RulesView {
        RulesView { cfa: self.cfa, rules: self.rules@, return_register: self.return_register }
    }
}

impl FrameRules {
    /// Reads the rules out of a row.
    fn of_row(row: &CfiRow, return_register: u16) -> (r: FrameRules)
        ensures
            r@ == (RulesView { cfa: row_cfa(*row), rules: row_rules(*row), return_register }),
    {
        let n = row_len(row);
        let mut rules: Vec<(u16, RegisterRule)> = Vec::new();
        let mut i: usize = 0;
        while i < n
            invariant
                n == row_rules(*row).len(),
                i <= n,
                rules@ == row_rules(*row).take(i as int),
            decreases n - i,
        {
            let rule = row_rule(row, i);
            rules.push(rule);
            assert(row_rules(*row).take(i as int).push(row_rules(*row)[i as int]) =~= row_rules(
                *row,
            ).take(i + 1));
            i += 1;
        }
        assert(row_rules(*row).take(n as int) =~= row_rules(*row));
        FrameRules { cfa: row_cfa_rule(row), rules, return_register }
    }

    /// Looks up the rules for the address `pc` of the object file: the
    /// entries of the unwind section are gone through in their order, and the
    /// first frame description whose addresses hold `pc` gives the rules.
    pub fn lookup(debugee: &DebugeeContext, pc: GlobalAddress) -> (r: Result<
        Option<FrameRules>,
        UnwindError,
    >)
        ensures
            match rules_at(debugee, pc.0 as u64) {
                None => r == Err::<Option<FrameRules>, UnwindError>(UnwindError::Malformed),
                Some(None) => r matches Ok(None),
                Some(Some(rules)) => r matches Ok(Some(found)) && found@ == rules,
            },
    {
        let address = pc.0 as u64;
        let section = if debugee.is_little_endian() {
            open_little_endian(
                debugee.eh_frame().as_slice(),
                debugee.eh_frame_address(),
                debugee.text_address(),
                ADDRESS_SIZE,
            )
        } else {
            open_big_endian(
                debugee.eh_frame().as_slice(),
                debugee.eh_frame_address(),
                debugee.text_address(),
                ADDRESS_SIZE,
            )
        };
        let mut walk = entries(&section);
        loop
            invariant
                address == pc.0 as u64,
                rules_at(debugee, address) == rules_among(section, walk_items(walk), address),
            decreases walk_items(walk).len(),
        {
            match next_entry(&mut walk) {
                Err(_) => {
                    return Err(UnwindError::Malformed);
                },
                Ok(None) => {
                    return Ok(None);
                },
                Ok(Some(CfiEntry::Cie)) => {},
                Ok(Some(CfiEntry::Fde(partial))) => {
                    let fde = match parse_fde(&partial) {
                        Err(_) => {
                            return Err(UnwindError::Malformed);
                        },
                        Ok(fde) => fde,
                    };
                    let start = fde_initial_address(&fde);
                    let length = fde_len(&fde);
                    if start <= address && address - start < length {
                        return match fde_row(&section, &fde, address) {
                            Err(_) => Err(UnwindError::Malformed),
                            Ok(row) => Ok(
                                Some(FrameRules::of_row(&row, fde_return_register(&fde))),
                            ),
                        };
                    }
                },
            }
        }
    }

    /// The canonical frame address of the frame. `evaluated` is what the
    /// rule's expression gave, where the rule is one.
    pub fn cfa_address(&self, registers: &DwarfRegisterMap, evaluated: Option<u64>) -> (r: Option<
        u64,
    >)
        ensures
            r == cfa_of(self.cfa, registers@, evaluated),
    {
        match &self.cfa {
            CfaRule::RegisterAndOffset { register, offset } => match registers.value(*register) {
                Some(base) => base.checked_add_signed(*offset),
                None => None,
            },
            CfaRule::Expression(_) => evaluated,
        }
    }

    /// What the rule at `index` asks for from the debuggee.
    pub fn fetch(&self, index: usize) -> (r: Fetch<'_>)
        requires
            index < self.rules@.len(),
        ensures
            match self.rules@[index as int].1 {
                RegisterRule::Offset(offset) => r matches Fetch::AtCfa(k) && k == offset,
                RegisterRule::Expression(e) => r matches Fetch::Deref(bytes) && *bytes == e,
                RegisterRule::ValExpression(e) => r matches Fetch::Evaluate(bytes) && *bytes == e,
                _ => r is Nothing,
            },
    {
        match &self.rules[index].1 {
            RegisterRule::Offset(offset) => Fetch::AtCfa(*offset),
            RegisterRule::Expression(e) => Fetch::Deref(e),
            RegisterRule::ValExpression(e) => Fetch::Evaluate(e),
            _ => Fetch::Nothing,
        }
    }

    /// The registers of the calling frame: the table of [`recovered`]
    /// applied rule by rule to the registers on entry.
    pub fn recover(
        &self,
        cfa: u64,
        snapshot: &DwarfRegisterMap,
        current: &DwarfRegisterMap,
        fetched: &Vec<Option<u64>>,
    ) -> (r: DwarfRegisterMap)
        requires
            fetched@.len() == self.rules@.len(),
        ensures
            r@ == recover_all(
                self.rules@,
                cfa,
                snapshot@,
                current@,
                fetched@,
                self.rules@.len() as int,
            ),
    {
        let mut next = snapshot.clone();
        let mut i: usize = 0;
        while i < self.rules.len()
            invariant
                i <= self.rules@.len(),
                fetched@.len() == self.rules@.len(),
                next@ == recover_all(self.rules@, cfa, snapshot@, current@, fetched@, i as int),
            decreases self.rules.len() - i,
        {
            let register = self.rules[i].0;
            let value = match &self.rules[i].1 {
                RegisterRule::Undefined => None,
                RegisterRule::SameValue => current.value(register),
                RegisterRule::Offset(_) => fetched[i],
                RegisterRule::ValOffset(offset) => cfa.checked_add_signed(*offset),
                RegisterRule::Register(other) => snapshot.value(*other),
                RegisterRule::Expression(_) => fetched[i],
                RegisterRule::ValExpression(_) => fetched[i],
                RegisterRule::Architectural => None,
            };
            match value {
                Some(v) => {
                    next.update(register, v);
                },
                None => {},
            }
            i += 1;
        }
        next
    }
}

/// What is known of one frame once it is unwound, as plain values.
pub struct FrameState {
    /// The registers of the calling frame.
    pub registers: Seq<Option<u64>>,
    pub location: Location,
    pub return_register: u16,
    /// The canonical frame address.
    pub cfa: usize,
}

impl FrameState {
    /// The address at which the calling frame goes on.
    pub open spec fn return_address(self) -> Option<u64> {
        peek(self.registers, self.return_register)
    }

    /// The registers on entry to the calling frame: those recovered, with
    /// the stack pointer at the canonical frame address.
    pub open spec fn caller_registers(self) -> Seq<Option<u64>> {
        updated(self.registers, DWARF_RSP, self.cfa as u64)
    }
}

/// What unwinding the frame at `location` gives, from the registers on
/// entry, the thread's current registers and the evidence: nothing where the
/// unwind table has no row for the address; else the state of the frame.
pub open spec fn unwound(
    debugee: &DebugeeContext,
    registers: Seq<Option<u64>>,
    location: Location,
    current: Seq<Option<u64>>,
    evidence: FrameEvidence,
) -> Result<Option<FrameState>, UnwindError> {
    match rules_at(debugee, location.global_pc.0 as u64) {
        None => Err(UnwindError::Malformed),
        Some(None) => Ok(None),
        Some(Some(found)) => if evidence.values@.len() != found.rules.len() {
            Err(UnwindError::Evidence)
        } else {
            match cfa_of(found.cfa, registers, evidence.cfa) {
                Some(cfa) => if cfa <= usize::MAX {
                    Ok(
                        Some(
                            FrameState {
                                registers: recover_all(
                                    found.rules,
                                    cfa,
                                    registers,
                                    current,
                                    evidence.values@,
                                    found.rules.len() as int,
                                ),
                                location,
                                return_register: found.return_register,
                                cfa: cfa as usize,
                            },
                        ),
                    )
                } else {
                    Err(UnwindError::NoFrameAddress)
                },
                None => Err(UnwindError::NoFrameAddress),
            }
        },
    }
}

/// All that is needed to unwind one frame further.
pub struct UnwindContext<'a> {
    registers: DwarfRegisterMap,
    location: Location,
    return_register: u16,
    debugee: &'a DebugeeContext,
    cfa: RelocatedAddress,
}

impl<'a> View for UnwindContext<'a> {
    type V = FrameState;

    closed spec fn view(&self) -> FrameState {
        FrameState {
            registers: self.registers@,
            location: self.location,
            return_register: self.return_register,
            cfa: self.cfa.0,
        }
    }
}

/// The states of the frames in a result of unwinding.
pub open spec fn state_of(r: Result<Option<UnwindContext<'_>>, UnwindError>) -> Result<
    Option<FrameState>,
    UnwindError,
> {
    match r {
        Ok(Some(context)) => Ok(Some(context@)),
        Ok(None) => Ok(None),
        Err(error) => Err(error),
    }
}

impl<'a> UnwindContext<'a> {
    /// The debug information that the context unwinds by.
    pub closed spec fn debugee(&self) -> &'a DebugeeContext {
        self.debugee
    }

    /// Unwinds the frame at `location`. `registers` are the registers on
    /// entry to the frame, `current` those of the thread as it stands,
    /// `evidence` what was fetched for the frame.
    pub fn new(
        debugee: &'a DebugeeContext,
        registers: DwarfRegisterMap,
        location: Location,
        current: &DwarfRegisterMap,
        evidence: &FrameEvidence,
    ) -> (r: Result<Option<UnwindContext<'a>>, UnwindError>)
        ensures
            state_of(r) == unwound(debugee, registers@, location, current@, *evidence),
            r matches Ok(Some(context)) ==> context.debugee() == debugee,
    {
        let rules = match FrameRules::lookup(debugee, location.global_pc) {
            Err(error) => {
                return Err(error);
            },
            Ok(None) => {
                return Ok(None);
            },
            Ok(Some(rules)) => rules,
        };
        if evidence.values.len() != rules.rules.len() {
            return Err(UnwindError::Evidence);
        }
        let cfa = match rules.cfa_address(&registers, evidence.cfa) {
            Some(cfa) => cfa,
            None => {
                return Err(UnwindError::NoFrameAddress);
            },
        };
        if cfa > usize::MAX as u64 {
            return Err(UnwindError::NoFrameAddress);
        }
        let next = rules.recover(cfa, &registers, current, &evidence.values);
        Ok(
            Some(
                UnwindContext {
                    registers: next,
                    location,
                    return_register: rules.return_register,
                    debugee,
                    cfa: RelocatedAddress(cfa as usize),
                },
            ),
        )
    }

    /// Unwinds the frame that called the frame of `previous`: its registers
    /// on entry are those that `previous` recovered, with the stack pointer
    /// at the canonical frame address of `previous`.
    pub fn next(
        previous: UnwindContext<'a>,
        location: Location,
        current: &DwarfRegisterMap,
        evidence: &FrameEvidence,
    ) -> (r: Result<Option<UnwindContext<'a>>, UnwindError>)
        ensures
            state_of(r) == unwound(
                previous.debugee(),
                previous@.caller_registers(),
                location,
                current@,
                *evidence,
            ),
            r matches Ok(Some(context)) ==> context.debugee() == previous.debugee(),
    {
        let mut registers = previous.registers;
        registers.update(DWARF_RSP, previous.cfa.0 as u64);
        UnwindContext::new(previous.debugee, registers, location, current, evidence)
    }

    /// The address at which the calling frame goes on: the value of the
    /// return address register, if it has one that is an address.
    pub fn return_address(&self) -> (r: Option<RelocatedAddress>)
        ensures
            r == (match self@.return_address() {
                Some(address) => if address <= usize::MAX {
                    Some(RelocatedAddress(address as usize))
                } else {
                    None
                },
                None => None,
            }),
    {
        match self.registers.value(self.return_register) {
            Some(address) => if address <= usize::MAX as u64 {
                Some(RelocatedAddress(address as usize))
            } else {
                None
            },
            None => None,
        }
    }

    /// The registers of the calling frame.
    pub fn registers(&self) -> (r: DwarfRegisterMap)
        ensures
            r@ == self@.registers,
    {
        self.registers.clone()
    }

    pub fn location(&self) -> (r: Location)
        ensures
            r == self@.location,
    {
        self.location
    }

    /// The canonical frame address.
    pub fn cfa(&self) -> (r: RelocatedAddress)
        ensures
            r.0 == self@.cfa,
    {
        self.cfa
    }
}

} // verus!
