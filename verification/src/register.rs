//! The registers of a thread: by their names, and by the numbers under
//! which the debug information speaks of them.

use vstd::prelude::*;

verus! {

/// The number of the stack pointer in the debug information.
pub const DWARF_RSP: u16 = 7;

/// The number of the return address column in the debug information.
pub const DWARF_RA: u16 = 16;

/// The general registers of a thread, by name.
#[derive(Clone, Copy, Debug, PartialEq, Eq, Structural)]
pub struct RegisterMap {
    pub rax: u64,
    pub rbx: u64,
    pub rcx: u64,
    pub rdx: u64,
    pub rdi: u64,
    pub rsi: u64,
    pub rbp: u64,
    pub rsp: u64,
    pub r8: u64,
    pub r9: u64,
    pub r10: u64,
    pub r11: u64,
    pub r12: u64,
    pub r13: u64,
    pub r14: u64,
    pub r15: u64,
    pub rip: u64,
}

impl RegisterMap {
    /// The registers in the order of their numbers in the debug information.
    pub open spec fn by_number(&self) -> Seq<Option<u64>> {
        seq![
            Some(self.rax),
            Some(self.rdx),
            Some(self.rcx),
            Some(self.rbx),
            Some(self.rsi),
            Some(self.rdi),
            Some(self.rbp),
            Some(self.rsp),
            Some(self.r8),
            Some(self.r9),
            Some(self.r10),
            Some(self.r11),
            Some(self.r12),
            Some(self.r13),
            Some(self.r14),
            Some(self.r15),
            Some(self.rip),
        ]
    }
}

/// The value that `registers` hold under the number `register`.
pub open spec fn peek(registers: Seq<Option<u64>>, register: u16) -> Option<u64> {
    if register < registers.len() {
        registers[register as int]
    } else {
        None
    }
}

/// `registers` with `value` under the number `register`.
pub open spec fn updated(registers: Seq<Option<u64>>, register: u16, value: u64) -> Seq<
    Option<u64>,
> {
    if register < registers.len() {
        registers.update(register as int, Some(value))
    } else {
        (registers + Seq::new((register - registers.len()) as nat, |i: int| None::<u64>)).push(
            Some(value),
        )
    }
}

/// Setting a register changes what is read under its number and nothing else.
pub proof fn lemma_updated(registers: Seq<Option<u64>>, register: u16, value: u64, other: u16)
    ensures
        peek(updated(registers, register, value), other) == if other == register {
            Some(value)
        } else {
            peek(registers, other)
        },
{
}

/// Register values by the numbers of the debug information. A number may
/// have no value.
#[derive(Debug)]
pub struct DwarfRegisterMap {
    values: Vec<Option<u64>>,
}

impl View for DwarfRegisterMap {
    type V = Seq<Option<u64>>;

    closed spec fn view(&self) -> Seq<Option<u64>> {
        self.values@
    }
}

impl Clone for DwarfRegisterMap {
    fn clone(&self) -> (r: Self)
        ensures
            r@ == self@,
    {
        let mut values: Vec<Option<u64>> = Vec::new();
        let mut i: usize = 0;
        while i < self.values.len()
            invariant
                i <= self.values@.len(),
                values@ == self.values@.take(i as int),
            decreases self.values.len() - i,
        {
            values.push(self.values[i]);
            assert(self.values@.take(i as int).push(self.values@[i as int]) =~= self.values@.take(
                i + 1,
            ));
            i += 1;
        }
        assert(self.values@.take(self.values@.len() as int) =~= self.values@);
        DwarfRegisterMap { values }
    }
}

impl DwarfRegisterMap {
    /// A map in which no number has a value.
    pub fn new() -> (r: DwarfRegisterMap)
        ensures
            r@ == Seq::<Option<u64>>::empty(),
    {
        DwarfRegisterMap { values: Vec::new() }
    }

    /// The registers of a thread under their numbers.
    pub fn from_register_map(registers: &RegisterMap) -> (r: DwarfRegisterMap)
        ensures
            r@ == registers.by_number(),
    {
        let mut values: Vec<Option<u64>> = Vec::new();
        values.push(Some(registers.rax));
        values.push(Some(registers.rdx));
        values.push(Some(registers.rcx));
        values.push(Some(registers.rbx));
        values.push(Some(registers.rsi));
        values.push(Some(registers.rdi));
        values.push(Some(registers.rbp));
        values.push(Some(registers.rsp));
        values.push(Some(registers.r8));
        values.push(Some(registers.r9));
        values.push(Some(registers.r10));
        values.push(Some(registers.r11));
        values.push(Some(registers.r12));
        values.push(Some(registers.r13));
        values.push(Some(registers.r14));
        values.push(Some(registers.r15));
        values.push(Some(registers.rip));
        assert(values@ =~= registers.by_number());
        DwarfRegisterMap { values }
    }

    /// The value under the number `register`, if it has one.
    pub fn value(&self, register: u16) -> (r: Option<u64>)
        ensures
            r == peek(self@, register),
    {
        if (register as usize) < self.values.len() {
            self.values[register as usize]
        } else {
            None
        }
    }

    /// Puts `value` under the number `register`.
    pub fn update(&mut self, register: u16, value: u64)
        ensures
            final(self)@ == updated(old(self)@, register, value),
    {
        let index = register as usize;
        if index < self.values.len() {
            self.values[index] = Some(value);
        } else {
            let ghost start = self.values@;
            while self.values.len() < index
                invariant
                    start == old(self).values@,
                    start.len() <= self.values@.len() <= index,
                    self.values@ == start + Seq::new(
                        (self.values@.len() - start.len()) as nat,
                        |i: int| None::<u64>,
                    ),
                decreases index - self.values.len(),
            {
                let ghost before = self.values@;
                self.values.push(None);
                assert(self.values@ =~= start + Seq::new(
                    (self.values@.len() - start.len()) as nat,
                    |i: int| None::<u64>,
                ));
            }
            self.values.push(Some(value));
        }
    }
}

} // verus!
