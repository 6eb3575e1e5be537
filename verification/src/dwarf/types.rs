//! The types of the debuggee's variables, as the debug information declares them.

use crate::dwarf::unit::{ArrayDie, BaseTypeDie, DieVariant, Entry, EnumTypeDie, EnumeratorDie, PointerTypeDie, StructTypeDie, TypeMemberDie};
use vstd::prelude::*;

verus! {

/// The size of a pointer of the debuggee, in bytes.
pub const POINTER_SIZE: u64 = 8;

/// The declaration of a type. It borrows from the unit that holds it, and
/// names other types by reference: a type may refer to itself.
#[derive(Clone, Debug)]
pub enum TypeDeclaration<'a> {
    Scalar { die: &'a BaseTypeDie },
    Structure { die: &'a StructTypeDie, members: Vec<&'a TypeMemberDie> },
    Array { die: &'a ArrayDie },
    CStyleEnum { die: &'a EnumTypeDie, enumerators: Vec<&'a EnumeratorDie> },
    Pointer { die: &'a PointerTypeDie },
}

/// The members among the first `upto` of `children`, in their order.
pub open spec fn members_among(entries: Seq<Entry>, children: Seq<usize>, upto: int) -> Seq<
    TypeMemberDie,
>
    decreases upto,
{
    if upto <= 0 || upto > children.len() {
        Seq::empty()
    } else {
        let rest = members_among(entries, children, upto - 1);
        if children[upto - 1] < entries.len() {
            match entries[children[upto - 1] as int].die {
                DieVariant::TypeMember(member) => rest.push(member),
                _ => rest,
            }
        } else {
            rest
        }
    }
}

/// The enumerators among the first `upto` of `children`, in their order.
pub open spec fn enumerators_among(entries: Seq<Entry>, children: Seq<usize>, upto: int) -> Seq<
    EnumeratorDie,
>
    decreases upto,
{
    if upto <= 0 || upto > children.len() {
        Seq::empty()
    } else {
        let rest = enumerators_among(entries, children, upto - 1);
        if children[upto - 1] < entries.len() {
            match entries[children[upto - 1] as int].die {
                DieVariant::Enumerator(enumerator) => rest.push(enumerator),
                _ => rest,
            }
        } else {
            rest
        }
    }
}

/// What the references of a list point at.
pub open spec fn pointees<T>(refs: Seq<&T>) -> Seq<T> {
    Seq::new(refs.len(), |i: int| *refs[i])
}

impl<'a> TypeDeclaration<'a> {
    /// The size that the declaration states, in bytes. A pointer has the
    /// size of an address.
    pub open spec fn declared_size(&self) -> Option<u64> {
        match self {
            TypeDeclaration::Scalar { die } => die.byte_size,
            TypeDeclaration::Structure { die, .. } => die.byte_size,
            TypeDeclaration::Array { die } => die.byte_size,
            TypeDeclaration::CStyleEnum { die, .. } => die.byte_size,
            TypeDeclaration::Pointer { .. } => Some(POINTER_SIZE),
        }
    }

    pub fn size_in_bytes(&self) -> (r: Option<u64>)
        ensures
            r == self.declared_size(),
    {
        match self {
            TypeDeclaration::Scalar { die } => die.byte_size,
            TypeDeclaration::Structure { die, .. } => die.byte_size,
            TypeDeclaration::Array { die } => die.byte_size,
            TypeDeclaration::CStyleEnum { die, .. } => die.byte_size,
            TypeDeclaration::Pointer { .. } => Some(POINTER_SIZE),
        }
    }

    /// The name that the declaration states; an array type has none.
    pub open spec fn declared_name(&self) -> Option<String> {
        match self {
            TypeDeclaration::Scalar { die } => die.name,
            TypeDeclaration::Structure { die, .. } => die.name,
            TypeDeclaration::Array { .. } => None,
            TypeDeclaration::CStyleEnum { die, .. } => die.name,
            TypeDeclaration::Pointer { die } => die.name,
        }
    }

    pub fn name(&self) -> (r: Option<&'a String>)
        ensures
            match r {
                Some(name) => self.declared_name() == Some(*name),
                None => self.declared_name() is None,
            },
    {
        match self {
            TypeDeclaration::Scalar { die } => die.name.as_ref(),
            TypeDeclaration::Structure { die, .. } => die.name.as_ref(),
            TypeDeclaration::Array { .. } => None,
            TypeDeclaration::CStyleEnum { die, .. } => die.name.as_ref(),
            TypeDeclaration::Pointer { die } => die.name.as_ref(),
        }
    }
}

/// The members among the children of a structure.
pub fn collect_members<'a>(entries: &'a Vec<Entry>, children: &Vec<usize>) -> (r: Vec<
    &'a TypeMemberDie,
>)
    ensures
        pointees(r@) == members_among(entries@, children@, children@.len() as int),
{
    let mut out: Vec<&'a TypeMemberDie> = Vec::new();
    let mut k: usize = 0;
    while k < children.len()
        invariant
            k <= children@.len(),
            pointees(out@) == members_among(entries@, children@, k as int),
        decreases children.len() - k,
    {
        let c = children[k];
        let ghost before = pointees(out@);
        if c < entries.len() {
            match &entries[c].die {
                DieVariant::TypeMember(member) => {
                    out.push(member);
                    assert(pointees(out@) =~= before.push(*member));
                },
                _ => {},
            }
        }
        k += 1;
    }
    out
}

/// The enumerators among the children of an enumeration.
pub fn collect_enumerators<'a>(entries: &'a Vec<Entry>, children: &Vec<usize>) -> (r: Vec<
    &'a EnumeratorDie,
>)
    ensures
        pointees(r@) == enumerators_among(entries@, children@, children@.len() as int),
{
    let mut out: Vec<&'a EnumeratorDie> = Vec::new();
    let mut k: usize = 0;
    while k < children.len()
        invariant
            k <= children@.len(),
            pointees(out@) == enumerators_among(entries@, children@, k as int),
        decreases children.len() - k,
    {
        let c = children[k];
        let ghost before = pointees(out@);
        if c < entries.len() {
            match &entries[c].die {
                DieVariant::Enumerator(enumerator) => {
                    out.push(enumerator);
                    assert(pointees(out@) =~= before.push(*enumerator));
                },
                _ => {},
            }
        }
        k += 1;
    }
    out
}

} // verus!
