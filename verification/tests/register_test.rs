use debugger_core::register::{DwarfRegisterMap, RegisterMap, DWARF_RA, DWARF_RSP};

fn sample() -> RegisterMap {
    RegisterMap {
        rax: 100,
        rbx: 103,
        rcx: 102,
        rdx: 101,
        rdi: 105,
        rsi: 104,
        rbp: 106,
        rsp: 107,
        r8: 108,
        r9: 109,
        r10: 110,
        r11: 111,
        r12: 112,
        r13: 113,
        r14: 114,
        r15: 115,
        rip: 116,
    }
}

#[test]
fn an_empty_map_has_no_values() {
    let map = DwarfRegisterMap::new();
    assert_eq!(map.value(0), None);
    assert_eq!(map.value(DWARF_RSP), None);
    assert_eq!(map.value(u16::MAX), None);
}

#[test]
fn registers_stand_under_their_numbers() {
    let map = DwarfRegisterMap::from_register_map(&sample());
    for number in 0u16..=16 {
        assert_eq!(map.value(number), Some(100 + number as u64));
    }
    assert_eq!(map.value(17), None);
    assert_eq!(map.value(DWARF_RSP), Some(107));
    assert_eq!(map.value(DWARF_RA), Some(116));
}

#[test]
fn update_changes_one_register() {
    let mut map = DwarfRegisterMap::from_register_map(&sample());
    map.update(6, 0xdead);
    assert_eq!(map.value(6), Some(0xdead));
    assert_eq!(map.value(5), Some(105));
    assert_eq!(map.value(7), Some(107));
}

#[test]
fn update_reaches_beyond_the_known_registers() {
    let mut map = DwarfRegisterMap::new();
    map.update(3, 33);
    assert_eq!(map.value(0), None);
    assert_eq!(map.value(2), None);
    assert_eq!(map.value(3), Some(33));
    assert_eq!(map.value(4), None);
    map.update(0, 11);
    assert_eq!(map.value(0), Some(11));
    assert_eq!(map.value(3), Some(33));
}

#[test]
fn a_clone_holds_the_same_values() {
    let mut map = DwarfRegisterMap::from_register_map(&sample());
    let copy = map.clone();
    map.update(0, 1);
    assert_eq!(copy.value(0), Some(100));
    assert_eq!(map.value(0), Some(1));
}
