use debugger_core::variable::render::{normalize, RenderRepr, ValueRepr};
use debugger_core::variable::{
    ArrayVariable, CEnumVariable, PointerVariable, RustEnumVariable, ScalarVariable,
    StructVariable, SupportedScalar, VariableIR,
};

fn scalar(name: &str, type_ident: &str, value: SupportedScalar) -> VariableIR {
    VariableIR::Scalar(ScalarVariable {
        name: Some(name.to_string()),
        type_ident: Some(type_ident.to_string()),
        value: Some(value),
    })
}

fn rendered(variable: &VariableIR) -> String {
    match variable.value() {
        Some(ValueRepr::PreRendered(text)) => text,
        _ => panic!("no text"),
    }
}

#[test]
fn a_plain_name_is_shown_as_it_is() {
    assert_eq!(normalize("counter"), "counter");
    assert_eq!(normalize(""), "");
    assert_eq!(normalize("_"), "_");
    assert_eq!(normalize("_1"), "_1");
    assert_eq!(normalize("a__1"), "a__1");
}

#[test]
fn the_fields_of_a_tuple_are_shown_as_their_numbers() {
    assert_eq!(normalize("__0"), "0");
    assert_eq!(normalize("__1"), "1");
    assert_eq!(normalize("__12"), "12");
    assert_eq!(normalize("___7"), "7");
    assert_eq!(normalize("__007"), "007");
    assert_eq!(normalize("__4294967295"), "4294967295");
}

#[test]
fn what_is_no_number_stays() {
    assert_eq!(normalize("__"), "__");
    assert_eq!(normalize("__x"), "__x");
    assert_eq!(normalize("__1x"), "__1x");
    assert_eq!(normalize("__+5"), "__+5");
    assert_eq!(normalize("__-5"), "__-5");
    assert_eq!(normalize("__1_2"), "__1_2");
    assert_eq!(normalize("__4294967296"), "__4294967296");
    assert_eq!(normalize("__99999999999999999999999999"), "__99999999999999999999999999");
    assert_eq!(normalize("__٣"), "__٣");
}

#[test]
fn a_variable_without_a_name_is_unknown() {
    let v = VariableIR::Scalar(ScalarVariable { name: None, type_ident: None, value: None });
    assert_eq!(v.name(), "unknown");
    assert_eq!(v.type_ident(), "unknown");
    assert!(v.value().is_none());
}

#[test]
fn name_and_type_come_from_every_kind_of_variable() {
    let some = |s: &str| Some(s.to_string());
    let all = vec![
        scalar("__3", "i32", SupportedScalar::I32(1)),
        VariableIR::Struct(StructVariable {
            name: some("__3"),
            type_ident: some("i32"),
            members: vec![],
        }),
        VariableIR::Array(ArrayVariable { name: some("__3"), type_ident: some("i32"), items: None }),
        VariableIR::CEnum(CEnumVariable { name: some("__3"), type_ident: some("i32"), value: None }),
        VariableIR::RustEnum(RustEnumVariable {
            name: some("__3"),
            type_ident: some("i32"),
            value: None,
        }),
        VariableIR::Pointer(PointerVariable {
            name: some("__3"),
            type_ident: some("i32"),
            value: None,
            deref: None,
        }),
    ];
    for v in &all {
        assert_eq!(v.name(), "3");
        assert_eq!(v.type_ident(), "i32");
    }
}

#[test]
fn scalars_are_written_out() {
    assert_eq!(rendered(&scalar("a", "i8", SupportedScalar::I8(-1))), "-1");
    assert_eq!(rendered(&scalar("a", "i16", SupportedScalar::I16(-300))), "-300");
    assert_eq!(rendered(&scalar("a", "i32", SupportedScalar::I32(42))), "42");
    assert_eq!(rendered(&scalar("a", "i64", SupportedScalar::I64(i64::MIN))), "-9223372036854775808");
    assert_eq!(rendered(&scalar("a", "i128", SupportedScalar::I128(3))), "3");
    assert_eq!(rendered(&scalar("a", "isize", SupportedScalar::Isize(-3))), "-3");
    assert_eq!(rendered(&scalar("a", "u8", SupportedScalar::U8(255))), "255");
    assert_eq!(rendered(&scalar("a", "u16", SupportedScalar::U16(2))), "2");
    assert_eq!(rendered(&scalar("a", "u32", SupportedScalar::U32(3))), "3");
    assert_eq!(rendered(&scalar("a", "u64", SupportedScalar::U64(u64::MAX))), "18446744073709551615");
    assert_eq!(rendered(&scalar("a", "u128", SupportedScalar::U128(5))), "5");
    assert_eq!(rendered(&scalar("a", "usize", SupportedScalar::Usize(6))), "6");
    assert_eq!(rendered(&scalar("a", "bool", SupportedScalar::Bool(true))), "true");
    assert_eq!(rendered(&scalar("a", "bool", SupportedScalar::Bool(false))), "false");
    assert_eq!(rendered(&scalar("a", "char", SupportedScalar::Char('a'))), "a");
    assert_eq!(rendered(&scalar("a", "char", SupportedScalar::Char('😊'))), "😊");
    assert_eq!(rendered(&scalar("a", "f64", SupportedScalar::Float("1.2".to_string()))), "1.2");
    assert_eq!(rendered(&scalar("a", "()", SupportedScalar::Empty)), "()");
}

#[test]
fn variable_read_across_a_nested_struct() {
    let inner = VariableIR::Struct(StructVariable {
        name: Some("i".to_string()),
        type_ident: Some("Inner".to_string()),
        members: vec![scalar("a", "int", SupportedScalar::I32(42))],
    });
    let outer = VariableIR::Struct(StructVariable {
        name: Some("o".to_string()),
        type_ident: Some("Outer".to_string()),
        members: vec![inner, scalar("b", "bool", SupportedScalar::Bool(true))],
    });
    assert_eq!(outer.name(), "o");
    assert_eq!(outer.type_ident(), "Outer");
    let members = match outer.value() {
        Some(ValueRepr::Nested(members)) => members,
        _ => panic!("a structure shows its members"),
    };
    assert_eq!(members.len(), 2);
    assert_eq!(members[0].name(), "i");
    let inner_members = match members[0].value() {
        Some(ValueRepr::Nested(members)) => members,
        _ => panic!("a structure shows its members"),
    };
    assert_eq!(inner_members.len(), 1);
    assert_eq!(inner_members[0].name(), "a");
    assert_eq!(rendered(&inner_members[0]), "42");
    assert_eq!(members[1].name(), "b");
    assert_eq!(rendered(&members[1]), "true");
}

#[test]
fn an_array_shows_its_items() {
    let array = VariableIR::Array(ArrayVariable {
        name: Some("xs".to_string()),
        type_ident: Some("[u8; 2]".to_string()),
        items: Some(vec![
            scalar("0", "u8", SupportedScalar::U8(1)),
            scalar("1", "u8", SupportedScalar::U8(2)),
        ]),
    });
    match array.value() {
        Some(ValueRepr::Nested(items)) => {
            assert_eq!(items.len(), 2);
            assert_eq!(rendered(&items[1]), "2");
        }
        _ => panic!("an array shows its items"),
    }
    let unread = VariableIR::Array(ArrayVariable { name: None, type_ident: None, items: None });
    assert!(unread.value().is_none());
}

#[test]
fn an_enumeration_without_data_shows_its_variant() {
    let color = VariableIR::CEnum(CEnumVariable {
        name: Some("color".to_string()),
        type_ident: Some("Color".to_string()),
        value: Some("Red".to_string()),
    });
    assert_eq!(rendered(&color), "Red");
}

#[test]
fn an_enumeration_with_data_shows_the_variant_in_force() {
    let option = VariableIR::RustEnum(RustEnumVariable {
        name: Some("maybe".to_string()),
        type_ident: Some("Option<u8>".to_string()),
        value: Some(Box::new(scalar("Some", "u8", SupportedScalar::U8(9)))),
    });
    match option.value() {
        Some(ValueRepr::Wrapped(inner)) => {
            assert_eq!(inner.name(), "Some");
            assert_eq!(rendered(inner), "9");
        }
        _ => panic!("the variant in force is shown"),
    }
}

#[test]
fn a_pointer_shows_its_address_and_its_target() {
    let pointer = VariableIR::Pointer(PointerVariable {
        name: Some("p".to_string()),
        type_ident: Some("*const u8".to_string()),
        value: Some(0x7ffd_0000),
        deref: Some(Box::new(scalar("*p", "u8", SupportedScalar::U8(7)))),
    });
    match pointer.value() {
        Some(ValueRepr::Referential { addr, val }) => {
            assert_eq!(addr, 0x7ffd_0000);
            assert_eq!(rendered(val), "7");
        }
        _ => panic!("a pointer shows address and target"),
    }
}

#[test]
fn a_pointer_without_target_or_address_shows_nothing() {
    let no_target = VariableIR::Pointer(PointerVariable {
        name: None,
        type_ident: None,
        value: Some(1),
        deref: None,
    });
    assert!(no_target.value().is_none());
    let no_address = VariableIR::Pointer(PointerVariable {
        name: None,
        type_ident: None,
        value: None,
        deref: Some(Box::new(scalar("x", "u8", SupportedScalar::U8(7)))),
    });
    assert!(no_address.value().is_none());
}
