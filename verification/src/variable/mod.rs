//! The values of the debuggee's variables, typed and named.

pub mod render;

use vstd::prelude::*;

verus! {

/// The value of a scalar, by its type.
#[derive(Clone, Debug)]
pub enum SupportedScalar {
    I8(i8),
    I16(i16),
    I32(i32),
    I64(i64),
    I128(i128),
    Isize(isize),
    U8(u8),
    U16(u16),
    U32(u32),
    U64(u64),
    U128(u128),
    Usize(usize),
    Bool(bool),
    Char(char),
    /// A floating-point number, as the text that shows it.
    Float(String),
    /// The unit value.
    Empty,
}

#[derive(Clone, Debug)]
pub struct ScalarVariable {
    pub name: Option<String>,
    pub type_ident: Option<String>,
    pub value: Option<SupportedScalar>,
}

#[derive(Debug)]
pub struct StructVariable {
    pub name: Option<String>,
    pub type_ident: Option<String>,
    pub members: Vec<VariableIR>,
}

#[derive(Debug)]
pub struct ArrayVariable {
    pub name: Option<String>,
    pub type_ident: Option<String>,
    pub items: Option<Vec<VariableIR>>,
}

/// An enumeration without data: its value is the name of the variant.
#[derive(Clone, Debug)]
pub struct CEnumVariable {
    pub name: Option<String>,
    pub type_ident: Option<String>,
    pub value: Option<String>,
}

/// An enumeration with data: its value is the variant that is in force.
#[derive(Debug)]
pub struct RustEnumVariable {
    pub name: Option<String>,
    pub type_ident: Option<String>,
    pub value: Option<Box<VariableIR>>,
}

#[derive(Debug)]
pub struct PointerVariable {
    pub name: Option<String>,
    pub type_ident: Option<String>,
    /// The address that the pointer holds.
    pub value: Option<usize>,
    /// What the pointer points at, where that was read.
    pub deref: Option<Box<VariableIR>>,
}

/// A variable of the debuggee with its value.
#[derive(Debug)]
pub enum VariableIR {
    Scalar(ScalarVariable),
    Struct(StructVariable),
    Array(ArrayVariable),
    CEnum(CEnumVariable),
    RustEnum(RustEnumVariable),
    Pointer(PointerVariable),
}

impl VariableIR {
    /// The name that the variable was declared with.
    pub open spec fn declared_name(&self) -> Option<String> {
        match self {
            VariableIR::Scalar(v) => v.name,
            VariableIR::Struct(v) => v.name,
            VariableIR::Array(v) => v.name,
            VariableIR::CEnum(v) => v.name,
            VariableIR::RustEnum(v) => v.name,
            VariableIR::Pointer(v) => v.name,
        }
    }

    /// The name of the type that the variable was declared with.
    pub open spec fn declared_type(&self) -> Option<String> {
        match self {
            VariableIR::Scalar(v) => v.type_ident,
            VariableIR::Struct(v) => v.type_ident,
            VariableIR::Array(v) => v.type_ident,
            VariableIR::CEnum(v) => v.type_ident,
            VariableIR::RustEnum(v) => v.type_ident,
            VariableIR::Pointer(v) => v.type_ident,
        }
    }
}

} // verus!
