use debugger_core::address::{GlobalAddress, RelocatedAddress};
use debugger_core::dwarf::builder::DebugeeContextBuilder;
use debugger_core::dwarf::unit::{
    DieRange, DieVariant, Entry, FunctionDie, LineRow, Node, Range, Unit,
};
use debugger_core::dwarf::DebugeeContext;
use debugger_core::register::{DwarfRegisterMap, RegisterMap};
use debugger_core::tracee::Pid;
use debugger_core::unwind::cfi::{CfaRule, RegisterRule};
use debugger_core::unwind::libunwind::{frame_span, return_addr, unwind, CursorFrame, ProcedureName};
use debugger_core::unwind::unwinder::DwarfUnwinder;
use debugger_core::unwind::{
    saved_at, Fetch, FrameEvidence, FrameRules, Location, UnwindContext, UnwindError,
};
use gimli::write::{
    Address, CallFrameInstruction, CommonInformationEntry, EhFrame, EndianVec, Expression,
    FrameDescriptionEntry, FrameTable,
};

const OFFSET: usize = 0x5555_0000_0000;
const THREAD: Pid = Pid(42);

/// An unwind section with a frame description for `main` at 0x1000, whose
/// rules change after its first instructions, one for `start` at 0x2000, and
/// one at 0x3000 with a rule of every kind.
fn eh_frame() -> Vec<u8> {
    eh_frame_in(gimli::LittleEndian)
}

fn eh_frame_in<E: gimli::Endianity>(order: E) -> Vec<u8> {
    let encoding = gimli::Encoding { format: gimli::Format::Dwarf32, version: 1, address_size: 8 };
    let mut cie = CommonInformationEntry::new(encoding, 1, -8, gimli::X86_64::RA);
    cie.add_instruction(CallFrameInstruction::Cfa(gimli::X86_64::RSP, 8));
    cie.add_instruction(CallFrameInstruction::Offset(gimli::X86_64::RA, -8));
    let mut table = FrameTable::default();
    let cie = table.add_cie(cie);

    let mut main = FrameDescriptionEntry::new(Address::Constant(0x1000), 0x100);
    main.add_instruction(1, CallFrameInstruction::CfaOffset(16));
    main.add_instruction(1, CallFrameInstruction::Offset(gimli::X86_64::RBP, -16));
    main.add_instruction(4, CallFrameInstruction::CfaRegister(gimli::X86_64::RBP));
    table.add_fde(cie, main);

    let start = FrameDescriptionEntry::new(Address::Constant(0x2000), 0x100);
    table.add_fde(cie, start);

    let mut every = FrameDescriptionEntry::new(Address::Constant(0x3000), 0x10);
    every.add_instruction(0, CallFrameInstruction::SameValue(gimli::X86_64::RBX));
    every.add_instruction(0, CallFrameInstruction::ValOffset(gimli::X86_64::R13, 16));
    every.add_instruction(
        0,
        CallFrameInstruction::Register(gimli::X86_64::R14, gimli::X86_64::R15),
    );
    every.add_instruction(
        0,
        CallFrameInstruction::Expression(gimli::X86_64::R8, Expression::raw(vec![0x77, 0x10])),
    );
    every.add_instruction(
        0,
        CallFrameInstruction::ValExpression(gimli::X86_64::R9, Expression::raw(vec![0x30])),
    );
    every.add_instruction(0, CallFrameInstruction::CfaExpression(Expression::raw(vec![0x77, 0x08])));
    table.add_fde(cie, every);

    let mut section = EhFrame::from(EndianVec::new(order));
    table.write_eh_frame(&mut section).unwrap();
    section.slice().to_vec()
}

/// A 64-bit little-endian ELF file with the given sections: name, address, content.
fn elf(sections: &[(&str, u64, &[u8])]) -> Vec<u8> {
    elf_in(false, sections)
}

/// A 64-bit ELF file in either byte order.
fn elf_in(big: bool, sections: &[(&str, u64, &[u8])]) -> Vec<u8> {
    let b16 = |v: u16| if big { v.to_be_bytes() } else { v.to_le_bytes() };
    let b32 = |v: u32| if big { v.to_be_bytes() } else { v.to_le_bytes() };
    let b64 = |v: u64| if big { v.to_be_bytes() } else { v.to_le_bytes() };
    let mut names = vec![0u8];
    let mut name_at = vec![];
    for (name, _, _) in sections {
        name_at.push(names.len() as u32);
        names.extend_from_slice(name.as_bytes());
        names.push(0);
    }
    let names_name = names.len() as u32;
    names.extend_from_slice(b".shstrtab\0");
    let mut out = vec![0u8; 64];
    let mut data_at = vec![];
    for (_, _, data) in sections {
        data_at.push(out.len() as u64);
        out.extend_from_slice(data);
    }
    let names_at = out.len() as u64;
    out.extend_from_slice(&names);
    while out.len() % 8 != 0 {
        out.push(0);
    }
    let headers_at = out.len() as u64;
    let header = |out: &mut Vec<u8>, name: u32, kind: u32, flags: u64, addr: u64, at: u64, size: u64| {
        out.extend_from_slice(&b32(name));
        out.extend_from_slice(&b32(kind));
        out.extend_from_slice(&b64(flags));
        out.extend_from_slice(&b64(addr));
        out.extend_from_slice(&b64(at));
        out.extend_from_slice(&b64(size));
        out.extend_from_slice(&b32(0));
        out.extend_from_slice(&b32(0));
        out.extend_from_slice(&b64(1));
        out.extend_from_slice(&b64(0));
    };
    header(&mut out, 0, 0, 0, 0, 0, 0);
    for (i, (_, addr, data)) in sections.iter().enumerate() {
        header(&mut out, name_at[i], 1, 2, *addr, data_at[i], data.len() as u64);
    }
    header(&mut out, names_name, 3, 0, 0, names_at, names.len() as u64);
    let count = sections.len() as u16 + 2;
    let order = if big { 2 } else { 1 };
    let mut head = vec![0x7f, b'E', b'L', b'F', 2, order, 1, 0, 0, 0, 0, 0, 0, 0, 0, 0];
    head.extend_from_slice(&b16(2));
    head.extend_from_slice(&b16(0x3e));
    head.extend_from_slice(&b32(1));
    head.extend_from_slice(&b64(0));
    head.extend_from_slice(&b64(0));
    head.extend_from_slice(&b64(headers_at));
    head.extend_from_slice(&b32(0));
    head.extend_from_slice(&b16(64));
    head.extend_from_slice(&b16(0));
    head.extend_from_slice(&b16(0));
    head.extend_from_slice(&b16(64));
    head.extend_from_slice(&b16(count));
    head.extend_from_slice(&b16(count - 1));
    out[..64].copy_from_slice(&head);
    out
}

fn function(name: &str, namespace: &[&str], begin: u64, end: u64) -> DieVariant {
    DieVariant::Function(FunctionDie {
        name: Some(name.to_string()),
        namespace: namespace.iter().map(|s| s.to_string()).collect(),
        ranges: vec![Range { begin, end }],
        fb_addr: None,
    })
}

fn unit() -> Unit {
    Unit {
        offset: Some(0),
        ranges: vec![Range { begin: 0x1000, end: 0x2100 }],
        die_ranges: vec![
            DieRange { range: Range { begin: 0x1000, end: 0x1100 }, die_idx: 1 },
            DieRange { range: Range { begin: 0x2000, end: 0x2100 }, die_idx: 2 },
        ],
        entries: vec![
            Entry {
                die: DieVariant::Default,
                node: Node { parent: None, children: vec![1, 2] },
                offset: 0x0b,
            },
            Entry {
                die: function("main", &["app"], 0x1000, 0x1100),
                node: Node { parent: Some(0), children: vec![] },
                offset: 0x20,
            },
            Entry {
                die: function("start", &[], 0x2000, 0x2100),
                node: Node { parent: Some(0), children: vec![] },
                offset: 0x40,
            },
        ],
        lines: vec![
            LineRow { address: 0x1000, file_index: 0, line: 10, column: 1, is_stmt: true },
            LineRow { address: 0x2000, file_index: 0, line: 3, column: 1, is_stmt: true },
        ],
        files: vec!["hello.c".to_string()],
    }
}

fn context_with(section: &[u8]) -> DebugeeContext {
    let file = elf(&[(".text", 0x1000, &[0x90]), (".eh_frame", 0x8000, section)]);
    DebugeeContextBuilder::default().build(&file, vec![unit()], None).unwrap()
}

fn context() -> DebugeeContext {
    context_with(&eh_frame())
}

fn registers() -> DwarfRegisterMap {
    DwarfRegisterMap::from_register_map(&RegisterMap {
        rax: 100,
        rbx: 103,
        rcx: 102,
        rdx: 101,
        rdi: 105,
        rsi: 104,
        rbp: 0x7fff_0100,
        rsp: 0x7fff_0000,
        r8: 108,
        r9: 109,
        r10: 110,
        r11: 111,
        r12: 112,
        r13: 113,
        r14: 114,
        r15: 115,
        rip: (OFFSET + 0x1002) as u64,
    })
}

fn at(global: usize) -> Location {
    Location {
        pc: RelocatedAddress(OFFSET + global),
        global_pc: GlobalAddress(global),
        pid: THREAD,
    }
}

fn rule_names(rules: &FrameRules) -> Vec<(u16, &'static str)> {
    rules
        .rules
        .iter()
        .map(|(register, rule)| {
            (
                *register,
                match rule {
                    RegisterRule::Undefined => "undefined",
                    RegisterRule::SameValue => "same value",
                    RegisterRule::Offset(_) => "offset",
                    RegisterRule::ValOffset(_) => "val offset",
                    RegisterRule::Register(_) => "register",
                    RegisterRule::Expression(_) => "expression",
                    RegisterRule::ValExpression(_) => "val expression",
                    RegisterRule::Architectural => "architectural",
                },
            )
        })
        .collect()
}

#[test]
fn the_rules_at_the_entry_of_a_function_come_from_the_common_entry() {
    let context = context();
    let rules = FrameRules::lookup(&context, GlobalAddress(0x1000)).unwrap().unwrap();
    match rules.cfa {
        CfaRule::RegisterAndOffset { register, offset } => {
            assert_eq!(register, 7);
            assert_eq!(offset, 8);
        }
        _ => panic!("the frame address is a register and an offset"),
    }
    assert_eq!(rules.return_register, 16);
    assert_eq!(rule_names(&rules), vec![(16, "offset")]);
    match rules.rules[0].1 {
        RegisterRule::Offset(offset) => assert_eq!(offset, -8),
        _ => panic!("the return address is saved below the frame address"),
    }
}

#[test]
fn the_rules_change_along_the_function() {
    let context = context();
    let rules = FrameRules::lookup(&context, GlobalAddress(0x1002)).unwrap().unwrap();
    match rules.cfa {
        CfaRule::RegisterAndOffset { register, offset } => {
            assert_eq!((register, offset), (7, 16));
        }
        _ => panic!("the frame address is a register and an offset"),
    }
    assert_eq!(rule_names(&rules), vec![(16, "offset"), (6, "offset")]);
    match rules.rules[1].1 {
        RegisterRule::Offset(offset) => assert_eq!(offset, -16),
        _ => panic!("the frame pointer is saved"),
    }
    let rules = FrameRules::lookup(&context, GlobalAddress(0x1080)).unwrap().unwrap();
    match rules.cfa {
        CfaRule::RegisterAndOffset { register, offset } => {
            assert_eq!((register, offset), (6, 16));
        }
        _ => panic!("the frame address is a register and an offset"),
    }
}

#[test]
fn rules_of_every_kind_are_read() {
    let context = context();
    let rules = FrameRules::lookup(&context, GlobalAddress(0x3004)).unwrap().unwrap();
    let mut names = rule_names(&rules);
    names.sort();
    assert_eq!(
        names,
        vec![
            (3, "same value"),
            (8, "expression"),
            (9, "val expression"),
            (13, "val offset"),
            (14, "register"),
            (16, "offset"),
        ]
    );
    match &rules.cfa {
        CfaRule::Expression(bytes) => assert_eq!(bytes, &vec![0x77u8, 0x08]),
        _ => panic!("the frame address is an expression"),
    }
    for (index, (register, rule)) in rules.rules.iter().enumerate() {
        match (rule, rules.fetch(index)) {
            (RegisterRule::Offset(k), Fetch::AtCfa(offset)) => assert_eq!(*k, offset),
            (RegisterRule::Expression(e), Fetch::Deref(bytes)) => {
                assert_eq!(*register, 8);
                assert_eq!(e, bytes);
                assert_eq!(bytes, &vec![0x77u8, 0x10]);
            }
            (RegisterRule::ValExpression(e), Fetch::Evaluate(bytes)) => {
                assert_eq!(*register, 9);
                assert_eq!(e, bytes);
                assert_eq!(bytes, &vec![0x30u8]);
            }
            (RegisterRule::ValOffset(k), Fetch::Nothing) => assert_eq!(*k, 16),
            (RegisterRule::Register(other), Fetch::Nothing) => assert_eq!(*other, 15),
            (RegisterRule::SameValue, Fetch::Nothing) => {}
            _ => panic!("a rule asks for what its kind needs"),
        }
    }
}

#[test]
fn an_address_without_a_frame_description_has_no_rules() {
    let context = context();
    assert!(FrameRules::lookup(&context, GlobalAddress(0x0fff)).unwrap().is_none());
    assert!(FrameRules::lookup(&context, GlobalAddress(0x1100)).unwrap().is_none());
    assert!(FrameRules::lookup(&context, GlobalAddress(0x9000)).unwrap().is_none());
    let empty = context_with(&[]);
    assert!(FrameRules::lookup(&empty, GlobalAddress(0x1000)).unwrap().is_none());
}

#[test]
fn a_section_that_cannot_be_read_is_malformed() {
    let broken = context_with(&[0xff, 0xff, 0xff, 0x7f, 1, 2, 3]);
    match FrameRules::lookup(&broken, GlobalAddress(0x1000)) {
        Err(error) => assert_eq!(error, UnwindError::Malformed),
        Ok(_) => panic!("the section is cut off"),
    }
}

#[test]
fn the_section_is_read_in_the_byte_order_of_the_file() {
    let little = context();
    assert!(little.is_little_endian());
    let section = eh_frame_in(gimli::BigEndian);
    let file = elf_in(true, &[(".text", 0x1000, &[0x90]), (".eh_frame", 0x8000, &section)]);
    let big = DebugeeContextBuilder::default().build(&file, vec![unit()], None).unwrap();
    assert!(!big.is_little_endian());
    assert_eq!(big.eh_frame(), &section);
    let rules = FrameRules::lookup(&big, GlobalAddress(0x1002)).unwrap().unwrap();
    assert_eq!(rule_names(&rules), vec![(16, "offset"), (6, "offset")]);
    assert_eq!(rules.return_register, 16);
    // the same bytes read lowest byte first say something else
    let file = elf_in(false, &[(".text", 0x1000, &[0x90]), (".eh_frame", 0x8000, &section)]);
    let mixed = DebugeeContextBuilder::default().build(&file, vec![unit()], None).unwrap();
    assert!(mixed.is_little_endian());
    assert!(!matches!(FrameRules::lookup(&mixed, GlobalAddress(0x1002)), Ok(Some(_))));
}

#[test]
fn a_file_that_cannot_be_read_counts_as_little_endian() {
    let context = DebugeeContextBuilder::default().build(&vec![1, 2, 3], vec![], None).unwrap();
    assert!(context.is_little_endian());
    assert!(DebugeeContextBuilder::byte_order(&vec![]));
}

#[test]
fn a_frame_description_at_the_top_of_the_address_space_is_looked_through() {
    let encoding = gimli::Encoding { format: gimli::Format::Dwarf32, version: 1, address_size: 8 };
    let mut cie = CommonInformationEntry::new(encoding, 1, -8, gimli::X86_64::RA);
    cie.add_instruction(CallFrameInstruction::Cfa(gimli::X86_64::RSP, 8));
    let mut table = FrameTable::default();
    let cie = table.add_cie(cie);
    table.add_fde(cie, FrameDescriptionEntry::new(Address::Constant(u64::MAX), 2));
    table.add_fde(cie, FrameDescriptionEntry::new(Address::Constant(0x1000), 0x10));
    let mut section = EhFrame::from(EndianVec::new(gimli::LittleEndian));
    table.write_eh_frame(&mut section).unwrap();
    let context = context_with(section.slice());
    // the first description does not hold the address, the second does
    let rules = FrameRules::lookup(&context, GlobalAddress(0x1008)).unwrap().unwrap();
    assert_eq!(rules.return_register, 16);
    assert!(FrameRules::lookup(&context, GlobalAddress(0x2000)).unwrap().is_none());
    assert!(FrameRules::lookup(&context, GlobalAddress(0)).unwrap().is_none());
    // the description holds the topmost address, but its table has no row
    // that ends past the top: the address past the top is never made
    assert!(matches!(
        FrameRules::lookup(&context, GlobalAddress(usize::MAX)),
        Err(UnwindError::Malformed)
    ));
    assert!(FrameRules::lookup(&context, GlobalAddress(usize::MAX - 1)).unwrap().is_none());
}

#[test]
fn the_first_frame_description_that_holds_the_address_gives_the_rules() {
    let encoding = gimli::Encoding { format: gimli::Format::Dwarf32, version: 1, address_size: 8 };
    let mut cie = CommonInformationEntry::new(encoding, 1, -8, gimli::X86_64::RA);
    cie.add_instruction(CallFrameInstruction::Cfa(gimli::X86_64::RSP, 8));
    let mut table = FrameTable::default();
    let cie = table.add_cie(cie);
    let mut first = FrameDescriptionEntry::new(Address::Constant(0x1000), 0x20);
    first.add_instruction(0, CallFrameInstruction::CfaOffset(24));
    table.add_fde(cie, first);
    let mut second = FrameDescriptionEntry::new(Address::Constant(0x1010), 0x20);
    second.add_instruction(0, CallFrameInstruction::CfaOffset(40));
    table.add_fde(cie, second);
    let mut section = EhFrame::from(EndianVec::new(gimli::LittleEndian));
    table.write_eh_frame(&mut section).unwrap();
    let context = context_with(section.slice());
    let offset_at = |pc: usize| match FrameRules::lookup(&context, GlobalAddress(pc)).unwrap() {
        Some(FrameRules { cfa: CfaRule::RegisterAndOffset { offset, .. }, .. }) => Some(offset),
        _ => None,
    };
    assert_eq!(offset_at(0x1000), Some(24));
    assert_eq!(offset_at(0x1018), Some(24));
    assert_eq!(offset_at(0x101f), Some(24));
    assert_eq!(offset_at(0x1020), Some(40));
    assert_eq!(offset_at(0x102f), Some(40));
    assert_eq!(offset_at(0x1030), None);
}

#[test]
fn a_saved_register_lies_at_the_frame_address_plus_its_offset() {
    assert_eq!(saved_at(0x7fff_0010, -8), 0x7fff_0008);
    assert_eq!(saved_at(0x7fff_0010, 8), 0x7fff_0018);
    assert_eq!(saved_at(0x7fff_0010, 0), 0x7fff_0010);
    // the address wraps round at the ends of the address space
    assert_eq!(saved_at(8, -16), u64::MAX - 7);
    assert_eq!(saved_at(u64::MAX, 1), 0);
}

#[test]
fn the_frame_address_is_a_register_plus_an_offset() {
    let rules = FrameRules {
        cfa: CfaRule::RegisterAndOffset { register: 7, offset: 16 },
        rules: vec![],
        return_register: 16,
    };
    assert_eq!(rules.cfa_address(&registers(), None), Some(0x7fff_0010));
    assert_eq!(rules.cfa_address(&registers(), Some(5)), Some(0x7fff_0010));
    let back = FrameRules {
        cfa: CfaRule::RegisterAndOffset { register: 7, offset: -16 },
        rules: vec![],
        return_register: 16,
    };
    assert_eq!(back.cfa_address(&registers(), None), Some(0x7ffe_fff0));
    // the register has no value
    assert_eq!(rules.cfa_address(&DwarfRegisterMap::new(), None), None);
    // the sum is no address
    let mut high = DwarfRegisterMap::new();
    high.update(7, u64::MAX - 3);
    assert_eq!(rules.cfa_address(&high, None), None);
    let mut low = DwarfRegisterMap::new();
    low.update(7, 3);
    assert_eq!(back.cfa_address(&low, None), None);
}

#[test]
fn the_frame_address_of_an_expression_is_what_was_evaluated() {
    let rules = FrameRules {
        cfa: CfaRule::Expression(vec![0x77, 0x08]),
        rules: vec![],
        return_register: 16,
    };
    assert_eq!(rules.cfa_address(&registers(), Some(0x1234)), Some(0x1234));
    assert_eq!(rules.cfa_address(&registers(), None), None);
}

fn every_rule() -> FrameRules {
    FrameRules {
        cfa: CfaRule::RegisterAndOffset { register: 7, offset: 16 },
        rules: vec![
            (3, RegisterRule::SameValue),
            (6, RegisterRule::Offset(-16)),
            (13, RegisterRule::ValOffset(16)),
            (14, RegisterRule::Register(15)),
            (8, RegisterRule::Expression(vec![0x77, 0x10])),
            (9, RegisterRule::ValExpression(vec![0x30])),
            (12, RegisterRule::Undefined),
            (11, RegisterRule::Architectural),
            (16, RegisterRule::Offset(-8)),
        ],
        return_register: 16,
    }
}

#[test]
fn every_rule_recovers_its_register() {
    let rules = every_rule();
    let snapshot = registers();
    let mut current = registers();
    current.update(3, 999);
    let fetched = vec![
        Some(1),
        Some(0x6006),
        Some(2),
        Some(3),
        Some(0x8008),
        Some(0x9009),
        Some(4),
        Some(5),
        Some(0x1616),
    ];
    let next = rules.recover(0x7000, &snapshot, &current, &fetched);
    // same value: the thread's current register
    assert_eq!(next.value(3), Some(999));
    // offset: what memory held at the frame address plus the offset
    assert_eq!(next.value(6), Some(0x6006));
    // val offset: the frame address plus the offset
    assert_eq!(next.value(13), Some(0x7010));
    // register: another register on entry to the frame
    assert_eq!(next.value(14), Some(115));
    // expression: what memory held at the result of the expression
    assert_eq!(next.value(8), Some(0x8008));
    // val expression: the result of the expression
    assert_eq!(next.value(9), Some(0x9009));
    // undefined and architectural: left out
    assert_eq!(next.value(12), Some(112));
    assert_eq!(next.value(11), Some(111));
    assert_eq!(next.value(16), Some(0x1616));
    // registers without a rule stay
    assert_eq!(next.value(0), Some(100));
    assert_eq!(next.value(7), Some(0x7fff_0000));
}

#[test]
fn a_register_whose_rule_fails_is_left_out() {
    let rules = every_rule();
    let snapshot = registers();
    let fetched = vec![None; 9];
    let next = rules.recover(u64::MAX - 3, &snapshot, &DwarfRegisterMap::new(), &fetched);
    // nothing was fetched, the current registers are not known, the sum overflows
    assert_eq!(next.value(3), Some(103));
    assert_eq!(next.value(6), Some(0x7fff_0100));
    assert_eq!(next.value(13), Some(113));
    assert_eq!(next.value(8), Some(108));
    assert_eq!(next.value(9), Some(109));
    assert_eq!(next.value(16), Some((OFFSET + 0x1002) as u64));
    // the rule that copies a register needs nothing from outside
    assert_eq!(next.value(14), Some(115));
}

#[test]
fn a_later_rule_reads_the_registers_on_entry() {
    let rules = FrameRules {
        cfa: CfaRule::RegisterAndOffset { register: 7, offset: 0 },
        rules: vec![(15, RegisterRule::ValOffset(8)), (14, RegisterRule::Register(15))],
        return_register: 16,
    };
    let next = rules.recover(0x7000, &registers(), &registers(), &vec![None, None]);
    assert_eq!(next.value(15), Some(0x7008));
    assert_eq!(next.value(14), Some(115));
}

fn main_evidence() -> FrameEvidence {
    // the rules at 0x1002: the return address at CFA-8, the frame pointer at CFA-16
    FrameEvidence { cfa: None, values: vec![Some((OFFSET + 0x2010) as u64), Some(0x7fff_0200)] }
}

#[test]
fn a_frame_is_unwound_from_its_rules_and_the_evidence() {
    let context = context();
    let current = registers();
    let frame = UnwindContext::new(&context, registers(), at(0x1002), &current, &main_evidence())
        .unwrap()
        .unwrap();
    assert_eq!(frame.cfa(), RelocatedAddress(0x7fff_0010));
    assert_eq!(frame.location(), at(0x1002));
    assert_eq!(frame.return_address(), Some(RelocatedAddress(OFFSET + 0x2010)));
    let recovered = frame.registers();
    assert_eq!(recovered.value(16), Some((OFFSET + 0x2010) as u64));
    assert_eq!(recovered.value(6), Some(0x7fff_0200));
    assert_eq!(recovered.value(7), Some(0x7fff_0000));
    assert_eq!(recovered.value(3), Some(103));
}

#[test]
fn the_calling_frame_starts_with_the_stack_pointer_at_the_frame_address() {
    let context = context();
    let current = registers();
    let frame = UnwindContext::new(&context, registers(), at(0x1002), &current, &main_evidence())
        .unwrap()
        .unwrap();
    let evidence = FrameEvidence { cfa: None, values: vec![Some(0x1234)] };
    let caller = UnwindContext::next(frame, at(0x2010), &current, &evidence).unwrap().unwrap();
    // the rules at 0x2010: CFA = rsp + 8, with rsp at the frame address of the frame before
    assert_eq!(caller.cfa(), RelocatedAddress(0x7fff_0018));
    assert_eq!(caller.registers().value(7), Some(0x7fff_0010));
    assert_eq!(caller.registers().value(6), Some(0x7fff_0200));
    assert_eq!(caller.return_address(), Some(RelocatedAddress(0x1234)));
}

#[test]
fn a_frame_without_rules_is_none() {
    let context = context();
    let current = registers();
    let frame = UnwindContext::new(&context, registers(), at(0x9000), &current, &main_evidence());
    assert!(matches!(frame, Ok(None)));
}

#[test]
fn evidence_that_does_not_answer_the_rules_is_refused() {
    let context = context();
    let current = registers();
    let short = FrameEvidence { cfa: None, values: vec![Some(1)] };
    let frame = UnwindContext::new(&context, registers(), at(0x1002), &current, &short);
    assert!(matches!(frame, Err(UnwindError::Evidence)));
}

#[test]
fn a_frame_without_frame_address_fails() {
    let context = context();
    let current = registers();
    let frame =
        UnwindContext::new(&context, DwarfRegisterMap::new(), at(0x1002), &current, &main_evidence());
    assert!(matches!(frame, Err(UnwindError::NoFrameAddress)));
    // the frame address is an expression that was not evaluated
    let evidence = FrameEvidence { cfa: None, values: vec![None; 6] };
    let frame = UnwindContext::new(&context, registers(), at(0x3004), &current, &evidence);
    assert!(matches!(frame, Err(UnwindError::NoFrameAddress)));
    let evidence = FrameEvidence { cfa: Some(0x7fff_0040), values: vec![None; 6] };
    let frame = UnwindContext::new(&context, registers(), at(0x3004), &current, &evidence)
        .unwrap()
        .unwrap();
    assert_eq!(frame.cfa(), RelocatedAddress(0x7fff_0040));
    assert_eq!(frame.registers().value(13), Some(0x7fff_0050));
    assert_eq!(frame.return_address(), Some(RelocatedAddress(OFFSET + 0x1002)));
}

#[test]
fn a_backtrace_grows_with_the_evidence() {
    let context = context();
    let unwinder = DwarfUnwinder::new(&context, OFFSET);
    let current = registers();

    // without evidence: the first frame is the one to gather evidence for
    let unwound = unwinder.unwind(at(0x1002), &current, &vec![]).unwrap();
    assert!(unwound.frames.is_empty());
    let pending = unwound.pending.unwrap();
    assert_eq!(pending.location, at(0x1002));
    assert_eq!(pending.registers.value(7), Some(0x7fff_0000));

    // with the evidence for the first frame: that frame, and the next to ask about
    let mut evidence = vec![main_evidence()];
    let unwound = unwinder.unwind(at(0x1002), &current, &evidence).unwrap();
    assert_eq!(unwound.frames.len(), 1);
    assert_eq!(unwound.frames[0].ip, RelocatedAddress(OFFSET + 0x1002));
    assert_eq!(unwound.frames[0].func_name.as_deref(), Some("app::main"));
    assert_eq!(unwound.frames[0].fn_start_ip, Some(RelocatedAddress(OFFSET + 0x1000)));
    let pending = unwound.pending.unwrap();
    assert_eq!(pending.location, at(0x2010));
    assert_eq!(pending.registers.value(7), Some(0x7fff_0010));
    assert_eq!(pending.registers.value(6), Some(0x7fff_0200));

    // the caller returns to where the unwind table knows nothing: the end
    evidence.push(FrameEvidence { cfa: None, values: vec![Some((OFFSET + 0x9000) as u64)] });
    let unwound = unwinder.unwind(at(0x1002), &current, &evidence).unwrap();
    assert!(unwound.pending.is_none());
    assert_eq!(unwound.frames.len(), 2);
    assert_eq!(unwound.frames[0].func_name.as_deref(), Some("app::main"));
    assert_eq!(unwound.frames[1].ip, RelocatedAddress(OFFSET + 0x2010));
    assert_eq!(unwound.frames[1].func_name.as_deref(), Some("start"));
    assert_eq!(unwound.frames[1].fn_start_ip, Some(RelocatedAddress(OFFSET + 0x2000)));
}

#[test]
fn a_backtrace_ends_where_the_return_address_is_not_known() {
    let context = context();
    let unwinder = DwarfUnwinder::new(&context, OFFSET);
    let current = registers();
    // the fetch of the return address failed, and on entry the register held
    // the address of the frame itself: the walk goes there and then on
    let evidence = vec![FrameEvidence { cfa: None, values: vec![None, Some(0x7fff_0200)] }];
    let unwound = unwinder.unwind(at(0x1002), &current, &evidence).unwrap();
    assert_eq!(unwound.frames.len(), 1);
    assert_eq!(unwound.pending.unwrap().location, at(0x1002));
    // a return address below the mapping is no address of the debuggee
    let evidence = vec![FrameEvidence { cfa: None, values: vec![Some(0x10), Some(0x7fff_0200)] }];
    let unwound = unwinder.unwind(at(0x1002), &current, &evidence).unwrap();
    assert_eq!(unwound.frames.len(), 1);
    assert!(unwound.pending.is_none());
}

#[test]
fn a_backtrace_from_nowhere_is_empty() {
    let context = context();
    let unwinder = DwarfUnwinder::new(&context, OFFSET);
    let current = registers();
    let unwound = unwinder.unwind(at(0x9000), &current, &vec![]).unwrap();
    assert!(unwound.frames.is_empty());
    assert!(unwound.pending.is_none());
    let unwound = unwinder.unwind(at(0x9000), &current, &vec![main_evidence()]).unwrap();
    assert!(unwound.frames.is_empty());
    assert!(unwound.pending.is_none());
}

#[test]
fn a_backtrace_fails_on_wrong_evidence() {
    let context = context();
    let unwinder = DwarfUnwinder::new(&context, OFFSET);
    let current = registers();
    let evidence = vec![FrameEvidence { cfa: None, values: vec![] }];
    assert!(matches!(
        unwinder.unwind(at(0x1002), &current, &evidence),
        Err(UnwindError::Evidence)
    ));
    let evidence = vec![main_evidence(), FrameEvidence { cfa: None, values: vec![] }];
    assert!(matches!(
        unwinder.unwind(at(0x1002), &current, &evidence),
        Err(UnwindError::Evidence)
    ));
}

#[test]
fn a_frame_outside_every_function_has_no_name() {
    let context = context();
    let unwinder = DwarfUnwinder::new(&context, OFFSET);
    let span = unwinder.frame_span(at(0x3004));
    assert_eq!(span.ip, RelocatedAddress(OFFSET + 0x3004));
    assert!(span.func_name.is_none());
    assert!(span.fn_start_ip.is_none());
}

#[test]
fn the_return_address_of_a_location_comes_from_its_frame() {
    let context = context();
    let unwinder = DwarfUnwinder::new(&context, OFFSET);
    let current = registers();
    assert_eq!(
        unwinder.return_address(at(0x1002), &current, &main_evidence()),
        Ok(Some(RelocatedAddress(OFFSET + 0x2010)))
    );
    assert_eq!(unwinder.return_address(at(0x9000), &current, &main_evidence()), Ok(None));
    let frame = unwinder.context_for(at(0x1002), &current, &main_evidence()).unwrap().unwrap();
    assert_eq!(frame.registers().value(6), Some(0x7fff_0200));
    assert!(matches!(
        unwinder.context_for(at(0x1002), &current, &FrameEvidence { cfa: None, values: vec![] }),
        Err(UnwindError::Evidence)
    ));
}

fn named(ip: usize, start: usize, name: &str, offset: usize) -> CursorFrame {
    CursorFrame {
        ip,
        start_ip: Some(start),
        name: Some(ProcedureName { name: name.to_string(), offset }),
    }
}

#[test]
fn a_frame_of_the_system_unwinder_gets_its_readable_name() {
    let span = frame_span(&named(0x1010, 0x1000, "_ZN3foo3bar17h05af221e174051e9E", 0x10));
    assert_eq!(span.func_name.as_deref(), Some("foo::bar"));
    assert_eq!(span.fn_start_ip, Some(RelocatedAddress(0x1000)));
    assert_eq!(span.ip, RelocatedAddress(0x1010));
    let span = frame_span(&named(0x7f00, 0x7f00, "read", 0));
    assert_eq!(span.func_name.as_deref(), Some("read"));
}

#[test]
fn a_frame_whose_name_does_not_fit_its_address_has_none() {
    let span = frame_span(&named(0x1011, 0x1000, "_ZN3foo3barE", 0x10));
    assert!(span.func_name.is_none());
    assert!(span.fn_start_ip.is_none());
    assert_eq!(span.ip, RelocatedAddress(0x1011));
    let span = frame_span(&named(5, usize::MAX, "wrap", 6));
    assert!(span.func_name.is_none());
    let no_name = CursorFrame { ip: 0x1010, start_ip: Some(0x1000), name: None };
    assert!(frame_span(&no_name).func_name.is_none());
    let no_start = CursorFrame {
        ip: 0x1010,
        start_ip: None,
        name: Some(ProcedureName { name: "main".to_string(), offset: 0x10 }),
    };
    let span = frame_span(&no_start);
    assert!(span.func_name.is_none() && span.fn_start_ip.is_none());
}

#[test]
fn a_walk_gives_one_frame_for_every_report() {
    let frames = vec![
        named(0x7f10, 0x7f00, "read", 0x10),
        CursorFrame { ip: 0x1055, start_ip: None, name: None },
        named(0x1010, 0x1000, "_ZN4main4mainE", 0x10),
    ];
    let backtrace = unwind(&frames);
    assert_eq!(backtrace.len(), 3);
    assert_eq!(backtrace[0].func_name.as_deref(), Some("read"));
    assert_eq!(backtrace[1].func_name, None);
    assert_eq!(backtrace[1].ip, RelocatedAddress(0x1055));
    assert_eq!(backtrace[2].func_name.as_deref(), Some("main::main"));
    assert!(unwind(&vec![]).is_empty());
}

#[test]
fn the_return_address_of_a_walk_is_its_second_frame() {
    let frames = vec![
        named(0x7f10, 0x7f00, "read", 0x10),
        CursorFrame { ip: 0x1055, start_ip: None, name: None },
    ];
    assert_eq!(return_addr(&frames), Some(RelocatedAddress(0x1055)));
    assert_eq!(return_addr(&vec![named(0x7f10, 0x7f00, "read", 0x10)]), None);
    assert_eq!(return_addr(&vec![]), None);
}
