//! Load-time and runtime addresses.
//!
//! An address read from the object file is *global*. Once the debuggee is
//! mapped into memory every address moves by one mapping offset and becomes
//! *relocated*. The two kinds are distinct types, so that moving between them
//! always names the offset.

use vstd::prelude::*;

verus! {

/// The runtime address that a load-time address `global` has under the mapping `offset`.
pub open spec fn relocated_of(global: int, offset: int) -> int {
    global + offset
}

/// The load-time address that a runtime address `relocated` has under the mapping `offset`.
pub open spec fn global_of(relocated: int, offset: int) -> int {
    relocated - offset
}

/// An address as it appears in the object file, before the debuggee is mapped.
#[derive(Clone, Copy, Debug, PartialEq, Eq, Structural, Hash)]
pub struct GlobalAddress(pub usize);

/// An address in the running debuggee.
#[derive(Clone, Copy, Debug, PartialEq, Eq, Structural, Hash)]
pub struct RelocatedAddress(pub usize);

/// An address of either kind.
#[derive(Clone, Copy, Debug, PartialEq, Eq, Structural, Hash)]
pub enum Address {
    Relocated(RelocatedAddress),
    Global(GlobalAddress),
}

impl GlobalAddress {
    /// The runtime address of `self` under `offset`.
    pub open spec fn relocated(self, offset: usize) -> RelocatedAddress {
        RelocatedAddress(relocated_of(self.0 as int, offset as int) as usize)
    }

    /// Whether `self` moved by `offset` is still an address.
    pub open spec fn can_relocate(self, offset: usize) -> bool {
        relocated_of(self.0 as int, offset as int) <= usize::MAX
    }

    /// Moves a load-time address to where it lies in the running debuggee.
    pub fn relocate(self, offset: usize) -> (r: RelocatedAddress)
        requires
            self.can_relocate(offset),
        ensures
            r == self.relocated(offset),
            r.0 == relocated_of(self.0 as int, offset as int),
    {
        RelocatedAddress(self.0 + offset)
    }

    pub fn as_usize(self) -> (r: usize)
        ensures
            r == self.0,
    {
        self.0
    }

    pub fn as_u64(self) -> (r: u64)
        ensures
            r == self.0,
    {
        self.0 as u64
    }
}

impl RelocatedAddress {
    /// The load-time address of `self` under `offset`.
    pub open spec fn global(self, offset: usize) -> GlobalAddress {
        GlobalAddress(global_of(self.0 as int, offset as int) as usize)
    }

    /// Whether `self` lies at or above the mapping `offset`.
    pub open spec fn can_globalize(self, offset: usize) -> bool {
        global_of(self.0 as int, offset as int) >= 0
    }

    /// Moves a runtime address back to where the object file has it.
    pub fn into_global(self, offset: usize) -> (g: GlobalAddress)
        requires
            self.can_globalize(offset),
        ensures
            g == self.global(offset),
            g.0 == global_of(self.0 as int, offset as int),
    {
        GlobalAddress(self.0 - offset)
    }

    /// The address `delta` bytes away from `self`, if it is an address at all.
    pub open spec fn displaced(self, delta: int) -> Option<RelocatedAddress> {
        if 0 <= self.0 + delta <= usize::MAX {
            Some(RelocatedAddress((self.0 + delta) as usize))
        } else {
            None
        }
    }

    /// Moves a runtime address by a signed number of bytes.
    pub fn offset(self, delta: isize) -> (r: RelocatedAddress)
        requires
            self.displaced(delta as int) is Some,
        ensures
            Some(r) == self.displaced(delta as int),
    {
        if delta >= 0 {
            RelocatedAddress(self.0 + delta as usize)
        } else {
            // `-delta` overflows for the smallest `isize`: step back in two moves.
            let back: usize = (-(delta + 1)) as usize;
            RelocatedAddress(self.0 - back - 1)
        }
    }

    pub fn as_usize(self) -> (r: usize)
        ensures
            r == self.0,
    {
        self.0
    }

    pub fn as_u64(self) -> (r: u64)
        ensures
            r == self.0,
    {
        self.0 as u64
    }
}

/// Relocating a load-time address and taking the result back gives the
/// address one started from.
pub proof fn lemma_global_round_trip(g: GlobalAddress, offset: usize)
    requires
        g.can_relocate(offset),
    ensures
        g.relocated(offset).can_globalize(offset),
        g.relocated(offset).global(offset) == g,
        global_of(relocated_of(g.0 as int, offset as int), offset as int) == g.0,
{
}

/// Taking a runtime address back to load time and relocating the result
/// gives the address one started from.
pub proof fn lemma_relocated_round_trip(r: RelocatedAddress, offset: usize)
    requires
        r.can_globalize(offset),
    ensures
        r.global(offset).can_relocate(offset),
        r.global(offset).relocated(offset) == r,
        relocated_of(global_of(r.0 as int, offset as int), offset as int) == r.0,
{
}

} // verus!
