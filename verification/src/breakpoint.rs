//! Software breakpoints.
//!
//! A breakpoint is armed by putting the trap opcode over the first byte of an
//! instruction, and disarmed by putting the saved byte back. The debuggee's
//! memory is read and written a word at a time, so both steps take the word
//! found at the breakpoint's address and give the word to write there. The
//! caller does the reading and the writing.

use crate::address::Address;
use crate::tracee::Pid;
use vstd::prelude::*;

verus! {

/// The one-byte instruction that traps into the tracer (`int3`).
pub const TRAP_OPCODE: u8 = 0xCC;

/// The byte at the lowest address of a word in memory.
pub open spec fn low_byte(word: u64) -> u8 {
    (word & 0xff) as u8
}

/// `word` with the byte at its lowest address replaced by `byte`.
pub open spec fn with_low_byte(word: u64, byte: u8) -> u64 {
    (word & !0xffu64) | (byte as u64)
}

/// The eight bytes from `addr` on are mapped.
pub open spec fn readable(mem: Map<int, u8>, addr: int) -> bool {
    forall|a: int| addr <= a < addr + 8 ==> mem.dom().contains(a)
}

/// The word that reading memory at `addr` gives.
pub open spec fn peek(mem: Map<int, u8>, addr: int) -> u64 {
    vstd::bytes::spec_u64_from_le_bytes(Seq::new(8, |i: int| mem[addr + i]))
}

/// Memory after `word` was written at `addr`.
pub open spec fn poke(mem: Map<int, u8>, addr: int, word: u64) -> Map<int, u8> {
    Map::new(
        |a: int| mem.dom().contains(a) || addr <= a < addr + 8,
        |a: int|
            if addr <= a < addr + 8 {
                vstd::bytes::spec_u64_to_le_bytes(word)[a - addr]
            } else {
                mem[a]
            },
    )
}

/// A breakpoint at one address of the debuggee.
#[derive(Clone, Copy, Debug)]
pub struct Breakpoint {
    pub addr: Address,
    /// The thread for which the breakpoint was set.
    pub pid: Pid,
    pub enabled: bool,
    /// A temporary breakpoint is dropped once it was hit.
    pub temporary: bool,
    /// The byte that stood at `addr` when the breakpoint was last armed.
    pub saved_byte: u8,
}

impl Breakpoint {
    /// A breakpoint that the user asked for; it is not armed yet.
    pub fn new(addr: Address, pid: Pid) -> (r: Breakpoint)
        ensures
            r == (Breakpoint { addr, pid, enabled: false, temporary: false, saved_byte: 0 }),
    {
        Breakpoint { addr, pid, enabled: false, temporary: false, saved_byte: 0 }
    }

    /// A breakpoint that serves one step of the debugger; it is not armed yet.
    pub fn new_temporary(addr: Address, pid: Pid) -> (r: Breakpoint)
        ensures
            r == (Breakpoint { addr, pid, enabled: false, temporary: true, saved_byte: 0 }),
    {
        Breakpoint { addr, pid, enabled: false, temporary: true, saved_byte: 0 }
    }

    pub fn is_enabled(&self) -> (r: bool)
        ensures
            r == self.enabled,
    {
        self.enabled
    }

    pub fn is_temporary(&self) -> (r: bool)
        ensures
            r == self.temporary,
    {
        self.temporary
    }

    /// Whether the breakpoint stands at the runtime address `pc`.
    pub open spec fn at(&self, pc: usize) -> bool {
        self.addr == Address::Relocated(crate::address::RelocatedAddress(pc))
    }

    #[verifier::when_used_as_spec(at)]
    pub fn is_at(&self, pc: usize) -> (r: bool)
        ensures
            r == self.at(pc),
    {
        match self.addr {
            Address::Relocated(addr) => addr.0 == pc,
            Address::Global(_) => false,
        }
    }

    /// Arms the breakpoint. `word` is what memory holds at the breakpoint's
    /// address; the result is what has to be written there.
    pub fn enable(&mut self, word: u64) -> (patched: u64)
        ensures
            patched == with_low_byte(word, TRAP_OPCODE),
            low_byte(patched) == TRAP_OPCODE,
            *final(self) == armed(*old(self), word),
    {
        let saved: u8 = (word & 0xff) as u8;
        let patched: u64 = (word & !0xffu64) | (TRAP_OPCODE as u64);
        assert(((word & !0xffu64) | 0xCCu64) & 0xff == 0xCCu64) by (bit_vector);
        self.saved_byte = saved;
        self.enabled = true;
        patched
    }

    /// Disarms the breakpoint. `word` is what memory holds at the
    /// breakpoint's address; the result is what has to be written there.
    pub fn disable(&mut self, word: u64) -> (restored: u64)
        ensures
            restored == with_low_byte(word, old(self).saved_byte),
            low_byte(restored) == old(self).saved_byte,
            *final(self) == disarmed(*old(self)),
    {
        let saved: u64 = self.saved_byte as u64;
        let restored: u64 = (word & !0xffu64) | saved;
        assert(saved <= 0xff ==> ((word & !0xffu64) | saved) & 0xff == saved) by (bit_vector);
        self.enabled = false;
        restored
    }
}

/// The runtime address of a breakpoint, if it has one.
pub open spec fn place_of(b: Breakpoint) -> Option<int> {
    match b.addr {
        Address::Relocated(address) => Some(address.0 as int),
        Address::Global(_) => None,
    }
}

/// Memory agrees with the breakpoint: one byte read at its address is the
/// trap opcode while the breakpoint is armed, and the saved byte while it
/// is not.
pub open spec fn agrees(b: Breakpoint, mem: Map<int, u8>) -> bool {
    place_of(b) matches Some(addr) ==> mem[addr] == if b.enabled {
        TRAP_OPCODE
    } else {
        b.saved_byte
    }
}

/// The breakpoint after it was armed over `word`.
pub open spec fn armed(b: Breakpoint, word: u64) -> Breakpoint {
    Breakpoint { enabled: true, saved_byte: low_byte(word), ..b }
}

/// The breakpoint after it was disarmed.
pub open spec fn disarmed(b: Breakpoint) -> Breakpoint {
    Breakpoint { enabled: false, ..b }
}

/// Arming a breakpoint makes memory agree with it, and memory goes on
/// agreeing with every breakpoint at another address.
pub proof fn lemma_enable_keeps_agreement(
    b: Breakpoint,
    other: Breakpoint,
    mem: Map<int, u8>,
    addr: int,
)
    requires
        place_of(b) == Some(addr),
        readable(mem, addr),
        place_of(other) != Some(addr),
        agrees(other, mem),
    ensures
        ({
            let word = peek(mem, addr);
            let after = poke(mem, addr, with_low_byte(word, TRAP_OPCODE));
            agrees(armed(b, word), after) && agrees(other, after) && armed(b, word).saved_byte
                == mem[addr]
        }),
{
    lemma_patch_changes_one_byte(mem, addr, TRAP_OPCODE);
}

/// Disarming a breakpoint makes memory agree with it, and memory goes on
/// agreeing with every breakpoint at another address.
pub proof fn lemma_disable_keeps_agreement(
    b: Breakpoint,
    other: Breakpoint,
    mem: Map<int, u8>,
    addr: int,
)
    requires
        place_of(b) == Some(addr),
        readable(mem, addr),
        place_of(other) != Some(addr),
        agrees(other, mem),
    ensures
        ({
            let word = peek(mem, addr);
            let after = poke(mem, addr, with_low_byte(word, b.saved_byte));
            agrees(disarmed(b), after) && agrees(other, after)
        }),
{
    lemma_patch_changes_one_byte(mem, addr, b.saved_byte);
}

/// Arming a breakpoint and disarming it again leaves memory as it was and
/// in agreement with the breakpoint.
pub proof fn lemma_breakpoint_cycle(b: Breakpoint, mem: Map<int, u8>, addr: int)
    requires
        place_of(b) == Some(addr),
        readable(mem, addr),
    ensures
        ({
            let word = peek(mem, addr);
            let during = poke(mem, addr, with_low_byte(word, TRAP_OPCODE));
            let on = armed(b, word);
            let after = poke(during, addr, with_low_byte(peek(during, addr), on.saved_byte));
            after == mem && agrees(on, during) && agrees(disarmed(on), after)
        }),
{
    lemma_patch_changes_one_byte(mem, addr, TRAP_OPCODE);
    lemma_enable_disable_is_identity(mem, addr);
    assert(mem.dom().contains(addr));
}

/// Memory agrees with every breakpoint of a list.
pub open spec fn all_agree(bps: Seq<Breakpoint>, mem: Map<int, u8>) -> bool {
    forall|i: int| 0 <= i < bps.len() ==> agrees(#[trigger] bps[i], mem)
}

/// No two breakpoints of a list stand at one runtime address.
pub open spec fn apart(bps: Seq<Breakpoint>) -> bool {
    forall|i: int, j: int|
        0 <= i < j < bps.len() && place_of(#[trigger] bps[i]) is Some ==> place_of(bps[i])
            != place_of(#[trigger] bps[j])
}

/// The breakpoints and memory after the breakpoint at `index` was armed or
/// disarmed: the only two things a tracer asks for that write to the
/// debuggee's memory.
pub open spec fn toggled(bps: Seq<Breakpoint>, mem: Map<int, u8>, index: int, arm: bool) -> (
    Seq<Breakpoint>,
    Map<int, u8>,
) {
    let b = bps[index];
    let addr = place_of(b)->0;
    let word = peek(mem, addr);
    if arm {
        (bps.update(index, armed(b, word)), poke(mem, addr, with_low_byte(word, TRAP_OPCODE)))
    } else {
        (bps.update(index, disarmed(b)), poke(mem, addr, with_low_byte(word, b.saved_byte)))
    }
}

/// Arming or disarming one breakpoint of a list keeps memory in agreement
/// with every breakpoint of the list, where no two stand at one address.
/// The breakpoint that is toggled need not agree before: arming it for the
/// first time makes it agree.
pub proof fn lemma_toggle_keeps_agreement(
    bps: Seq<Breakpoint>,
    mem: Map<int, u8>,
    index: int,
    arm: bool,
)
    requires
        0 <= index < bps.len(),
        place_of(bps[index]) is Some,
        readable(mem, place_of(bps[index])->0),
        apart(bps),
        forall|j: int| 0 <= j < bps.len() && j != index ==> agrees(#[trigger] bps[j], mem),
    ensures
        all_agree(toggled(bps, mem, index, arm).0, toggled(bps, mem, index, arm).1),
        apart(toggled(bps, mem, index, arm).0),
{
    let b = bps[index];
    let addr = place_of(b)->0;
    let (after, memory) = toggled(bps, mem, index, arm);
    assert forall|j: int| 0 <= j < after.len() implies agrees(#[trigger] after[j], memory) by {
        if j == index {
            lemma_patch_changes_one_byte(mem, addr, TRAP_OPCODE);
            lemma_patch_changes_one_byte(mem, addr, b.saved_byte);
        } else {
            assert(after[j] == bps[j]);
            if j < index {
                assert(place_of(bps[j]) is Some ==> place_of(bps[j]) != place_of(bps[index]));
            } else {
                assert(place_of(bps[index]) != place_of(bps[j]));
            }
            if arm {
                lemma_enable_keeps_agreement(b, bps[j], mem, addr);
            } else {
                lemma_disable_keeps_agreement(b, bps[j], mem, addr);
            }
        }
    }
    assert forall|i: int, j: int|
        0 <= i < j < after.len() && place_of(#[trigger] after[i]) is Some implies place_of(after[i])
        != place_of(#[trigger] after[j]) by {
        assert(place_of(after[i]) == place_of(bps[i]));
        assert(place_of(after[j]) == place_of(bps[j]));
    }
}

/// Stepping over an armed breakpoint: it is disarmed, the thread steps, and
/// it is armed again. If the step writes no memory, then during the step
/// one byte read at the breakpoint is the saved byte, and afterwards memory
/// and the breakpoint are as they were before.
pub proof fn lemma_step_over_cycle(b: Breakpoint, mem: Map<int, u8>, addr: int)
    requires
        place_of(b) == Some(addr),
        readable(mem, addr),
        b.enabled,
        agrees(b, mem),
    ensures
        ({
            let during = poke(mem, addr, with_low_byte(peek(mem, addr), b.saved_byte));
            let off = disarmed(b);
            let word = peek(during, addr);
            let after = poke(during, addr, with_low_byte(word, TRAP_OPCODE));
            &&& during[addr] == b.saved_byte
            &&& agrees(off, during)
            &&& during == mem.insert(addr, b.saved_byte)
            &&& after == mem
            &&& armed(off, word) == b
            &&& agrees(armed(off, word), after)
        }),
{
    lemma_patch_changes_one_byte(mem, addr, b.saved_byte);
    let during = poke(mem, addr, with_low_byte(peek(mem, addr), b.saved_byte));
    assert(readable(during, addr)) by {
        assert forall|a: int| addr <= a < addr + 8 implies during.dom().contains(a) by {
            assert(mem.dom().contains(a));
        }
    }
    lemma_patch_changes_one_byte(during, addr, TRAP_OPCODE);
    assert(mem.dom().contains(addr));
    assert(mem.insert(addr, b.saved_byte).insert(addr, TRAP_OPCODE) =~= mem);
}

/// Writing back the word that was read, with another lowest byte, changes
/// the byte at that address and nothing else.
pub proof fn lemma_patch_changes_one_byte(mem: Map<int, u8>, addr: int, byte: u8)
    requires
        readable(mem, addr),
    ensures
        poke(mem, addr, with_low_byte(peek(mem, addr), byte)) == mem.insert(addr, byte),
        low_byte(peek(mem, addr)) == mem[addr],
{
    let bytes = Seq::new(8, |i: int| mem[addr + i]);
    let word = peek(mem, addr);
    let patched = with_low_byte(word, byte);
    vstd::bytes::lemma_auto_spec_u64_to_from_le_bytes();
    vstd::bytes::spec_u64_to_le_bytes_to_open(word);
    vstd::bytes::spec_u64_to_le_bytes_to_open(patched);
    assert(vstd::bytes::spec_u64_to_le_bytes(word) == bytes);
    let before = vstd::bytes::spec_u64_to_le_bytes_open(word);
    let after = vstd::bytes::spec_u64_to_le_bytes_open(patched);
    let b = byte as u64;
    assert(b <= 0xff ==> (((word & !0xffu64) | b) & 0xff) == b) by (bit_vector);
    assert(((((word & !0xffu64) | b) >> 8) & 0xff) == ((word >> 8) & 0xff)) by (bit_vector)
        requires
            b <= 0xff,
    ;
    assert(((((word & !0xffu64) | b) >> 16) & 0xff) == ((word >> 16) & 0xff)) by (bit_vector)
        requires
            b <= 0xff,
    ;
    assert(((((word & !0xffu64) | b) >> 24) & 0xff) == ((word >> 24) & 0xff)) by (bit_vector)
        requires
            b <= 0xff,
    ;
    assert(((((word & !0xffu64) | b) >> 32) & 0xff) == ((word >> 32) & 0xff)) by (bit_vector)
        requires
            b <= 0xff,
    ;
    assert(((((word & !0xffu64) | b) >> 40) & 0xff) == ((word >> 40) & 0xff)) by (bit_vector)
        requires
            b <= 0xff,
    ;
    assert(((((word & !0xffu64) | b) >> 48) & 0xff) == ((word >> 48) & 0xff)) by (bit_vector)
        requires
            b <= 0xff,
    ;
    assert(((((word & !0xffu64) | b) >> 56) & 0xff) == ((word >> 56) & 0xff)) by (bit_vector)
        requires
            b <= 0xff,
    ;
    assert(after[0] == byte);
    assert(forall|i: int| 1 <= i < 8 ==> after[i] == before[i]);
    assert(before[0] == bytes[0]);
    let written = poke(mem, addr, patched);
    let expected = mem.insert(addr, byte);
    assert forall|a: int| written.dom().contains(a) == expected.dom().contains(a) by {
    }
    assert forall|a: int| written.dom().contains(a) implies written[a] == expected[a] by {
        if addr < a < addr + 8 {
            assert(after[a - addr] == before[a - addr]);
            assert(bytes[a - addr] == mem[addr + (a - addr)]);
        }
    }
    assert(written =~= expected);
}

/// Once a breakpoint was armed, one byte read at its address is the trap
/// opcode, and the rest of memory is as it was.
pub proof fn lemma_enabled_reads_trap(mem: Map<int, u8>, addr: int)
    requires
        readable(mem, addr),
    ensures
        poke(mem, addr, with_low_byte(peek(mem, addr), TRAP_OPCODE))[addr] == TRAP_OPCODE,
        poke(mem, addr, with_low_byte(peek(mem, addr), TRAP_OPCODE)) == mem.insert(
            addr,
            TRAP_OPCODE,
        ),
{
    lemma_patch_changes_one_byte(mem, addr, TRAP_OPCODE);
}

/// Once a breakpoint was disarmed, one byte read at its address is the byte
/// it had saved, and the rest of memory is as it was.
pub proof fn lemma_disabled_reads_saved_byte(mem: Map<int, u8>, addr: int, saved: u8)
    requires
        readable(mem, addr),
    ensures
        poke(mem, addr, with_low_byte(peek(mem, addr), saved))[addr] == saved,
        poke(mem, addr, with_low_byte(peek(mem, addr), saved)) == mem.insert(addr, saved),
{
    lemma_patch_changes_one_byte(mem, addr, saved);
}

/// Arming a breakpoint and then disarming it leaves the debuggee's memory as
/// it was before.
pub proof fn lemma_enable_disable_is_identity(mem: Map<int, u8>, addr: int)
    requires
        readable(mem, addr),
    ensures
        ({
            let armed = poke(mem, addr, with_low_byte(peek(mem, addr), TRAP_OPCODE));
            let saved = low_byte(peek(mem, addr));
            poke(armed, addr, with_low_byte(peek(armed, addr), saved)) == mem
        }),
{
    lemma_patch_changes_one_byte(mem, addr, TRAP_OPCODE);
    let armed = poke(mem, addr, with_low_byte(peek(mem, addr), TRAP_OPCODE));
    let saved = low_byte(peek(mem, addr));
    assert(readable(armed, addr)) by {
        assert forall|a: int| addr <= a < addr + 8 implies armed.dom().contains(a) by {
            assert(mem.dom().contains(a));
        }
    }
    lemma_patch_changes_one_byte(armed, addr, saved);
    assert(mem.dom().contains(addr));
    assert(mem.insert(addr, TRAP_OPCODE).insert(addr, saved) =~= mem);
}

} // verus!
