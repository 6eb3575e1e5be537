use debugger_core::address::{Address, RelocatedAddress};
use debugger_core::breakpoint::{Breakpoint, TRAP_OPCODE};
use debugger_core::tracee::Pid;

fn at(pc: usize) -> Address {
    Address::Relocated(RelocatedAddress(pc))
}

#[test]
fn a_new_breakpoint_is_not_armed() {
    let b = Breakpoint::new(at(0x401000), Pid(7));
    assert!(!b.is_enabled());
    assert!(!b.is_temporary());
    assert_eq!(b.pid, Pid(7));
    assert_eq!(b.addr, at(0x401000));
    assert_eq!(b.saved_byte, 0);
}

#[test]
fn a_temporary_breakpoint_says_so() {
    let b = Breakpoint::new_temporary(at(0x401000), Pid(7));
    assert!(b.is_temporary());
    assert!(!b.is_enabled());
}

#[test]
fn the_trap_opcode_is_int3() {
    assert_eq!(TRAP_OPCODE, 0xCC);
}

#[test]
fn enable_puts_the_trap_over_the_lowest_byte() {
    let mut b = Breakpoint::new(at(0x401000), Pid(7));
    let patched = b.enable(0x1122_3344_5566_7788);
    assert_eq!(patched, 0x1122_3344_5566_77CC);
    assert_eq!(b.saved_byte, 0x88);
    assert!(b.is_enabled());
}

#[test]
fn after_enable_one_byte_at_the_address_reads_as_the_trap() {
    for word in [0u64, u64::MAX, 0x0102_0304_0506_0708, 0xCC] {
        let mut b = Breakpoint::new(at(0x10), Pid(1));
        let patched = b.enable(word);
        assert_eq!(patched.to_le_bytes()[0], TRAP_OPCODE);
        assert_eq!(&patched.to_le_bytes()[1..], &word.to_le_bytes()[1..]);
    }
}

#[test]
fn disable_puts_the_saved_byte_back() {
    let mut b = Breakpoint::new(at(0x401000), Pid(7));
    b.enable(0x1122_3344_5566_7788);
    let restored = b.disable(0x1122_3344_5566_77CC);
    assert_eq!(restored, 0x1122_3344_5566_7788);
    assert!(!b.is_enabled());
    assert_eq!(b.saved_byte, 0x88);
}

#[test]
fn after_disable_one_byte_at_the_address_reads_as_the_saved_byte() {
    let mut b = Breakpoint::new(at(0x10), Pid(1));
    b.enable(0xAABB_CCDD_EEFF_0011);
    // the rest of the word changed meanwhile: only the lowest byte is put back
    let restored = b.disable(0x0000_0000_0000_00CC);
    assert_eq!(restored.to_le_bytes()[0], 0x11);
    assert_eq!(restored, 0x11);
}

#[test]
fn enable_then_disable_leaves_memory_as_it_was() {
    for word in [0u64, 1, 0xCC, 0xFF, u64::MAX, 0x8000_0000_0000_0000, 0x1234_5678_9ABC_DEF0] {
        let mut b = Breakpoint::new(at(0x2000), Pid(3));
        let patched = b.enable(word);
        let restored = b.disable(patched);
        assert_eq!(restored, word);
    }
}

#[test]
fn a_breakpoint_knows_its_address() {
    let b = Breakpoint::new(at(0x401000), Pid(7));
    assert!(b.is_at(0x401000));
    assert!(!b.is_at(0x401001));
    let g = Breakpoint::new(
        Address::Global(debugger_core::address::GlobalAddress(0x401000)),
        Pid(7),
    );
    assert!(!g.is_at(0x401000));
}
