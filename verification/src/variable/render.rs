//! How a variable is shown: its name, the name of its type, and its value.

use crate::variable::{SupportedScalar, VariableIR};
use vstd::prelude::*;
use vstd::string::*;

verus! {

/// The name under which a variable without a name is shown.
pub const UNKNOWN: &'static str = "unknown";

/// The value of a variable, in the form in which it is to be shown.
pub enum ValueRepr<'a> {
    /// A text.
    PreRendered(String),
    /// A pointer: its address and what it points at.
    Referential { addr: usize, val: &'a VariableIR },
    /// Another variable in place of this one.
    Wrapped(&'a VariableIR),
    /// The parts of a compound.
    Nested(&'a [VariableIR]),
}

pub open spec fn is_digit(c: char) -> bool {
    '0' <= c <= '9'
}

/// The first place at or after `from` that holds no underscore; the length
/// of the text if there is none.
pub open spec fn leading_underscores(s: Seq<char>, from: int) -> int
    decreases s.len() - from,
{
    if from < 0 || from >= s.len() {
        s.len() as int
    } else if s[from] != '_' {
        from
    } else {
        leading_underscores(s, from + 1)
    }
}

/// The number that the first `upto` characters of a text of digits write.
pub open spec fn number(s: Seq<char>, upto: int) -> int
    decreases upto,
{
    if upto <= 0 || upto > s.len() {
        0
    } else {
        number(s, upto - 1) * 10 + (s[upto - 1] as int - '0' as int)
    }
}

/// The text writes a number of 32 bits: it is made of digits, at least one,
/// and the number fits.
pub open spec fn is_number_text(s: Seq<char>) -> bool {
    &&& s.len() > 0
    &&& forall|i: int| 0 <= i < s.len() ==> is_digit(#[trigger] s[i])
    &&& number(s, s.len() as int) <= u32::MAX
}

/// The name under which a variable called `name` is shown. A name of two
/// or more underscores before a number, as the compiler gives to the fields
/// of a tuple, is shown as the number.
pub open spec fn normalized(name: Seq<char>) -> Seq<char> {
    let k = leading_underscores(name, 0);
    if k >= 2 && is_number_text(name.skip(k)) {
        name.skip(k)
    } else {
        name
    }
}

/// The text or the word for a missing one.
pub open spec fn text_or_unknown(text: Option<String>) -> Seq<char> {
    match text {
        Some(t) => t@,
        None => UNKNOWN@,
    }
}

/// The character of one decimal digit.
pub open spec fn digit(d: int) -> char {
    if d == 0 {
        '0'
    } else if d == 1 {
        '1'
    } else if d == 2 {
        '2'
    } else if d == 3 {
        '3'
    } else if d == 4 {
        '4'
    } else if d == 5 {
        '5'
    } else if d == 6 {
        '6'
    } else if d == 7 {
        '7'
    } else if d == 8 {
        '8'
    } else {
        '9'
    }
}

/// A natural number written in decimal digits.
pub open spec fn decimal(n: nat) -> Seq<char>
    decreases n,
{
    if n < 10 {
        seq![digit(n as int)]
    } else {
        decimal(n / 10).push(digit((n % 10) as int))
    }
}

/// An integer written in decimal digits, with a minus sign where it is negative.
pub open spec fn integer_text(v: int) -> Seq<char> {
    if v < 0 {
        seq!['-'] + decimal((-v) as nat)
    } else {
        decimal(v as nat)
    }
}

/// A scalar written out.
pub open spec fn scalar_text(scalar: SupportedScalar) -> Seq<char> {
    match scalar {
        SupportedScalar::I8(v) => integer_text(v as int),
        SupportedScalar::I16(v) => integer_text(v as int),
        SupportedScalar::I32(v) => integer_text(v as int),
        SupportedScalar::I64(v) => integer_text(v as int),
        SupportedScalar::I128(v) => integer_text(v as int),
        SupportedScalar::Isize(v) => integer_text(v as int),
        SupportedScalar::U8(v) => integer_text(v as int),
        SupportedScalar::U16(v) => integer_text(v as int),
        SupportedScalar::U32(v) => integer_text(v as int),
        SupportedScalar::U64(v) => integer_text(v as int),
        SupportedScalar::U128(v) => integer_text(v as int),
        SupportedScalar::Usize(v) => integer_text(v as int),
        SupportedScalar::Bool(v) => if v {
            "true"@
        } else {
            "false"@
        },
        SupportedScalar::Char(v) => seq![v],
        SupportedScalar::Float(shown) => shown@,
        SupportedScalar::Empty => "()"@,
    }
}

/// Calls `String::from` on a character, which gives the string of that one
/// character. This is what the standard library documents; it is believed,
/// not proved.
#[verifier::external_body]
fn char_text(c: char) -> (r: String)
    ensures
        r@ == seq![c],
{
    String::from(c)
}

/// The text of one decimal digit.
fn digit_text(d: u8) -> (r: &'static str)
    requires
        d < 10,
    ensures
        r@ == seq![digit(d as int)],
{
    proof {
        reveal_strlit("0");
        reveal_strlit("1");
        reveal_strlit("2");
        reveal_strlit("3");
        reveal_strlit("4");
        reveal_strlit("5");
        reveal_strlit("6");
        reveal_strlit("7");
        reveal_strlit("8");
        reveal_strlit("9");
    }
    let text = if d == 0 {
        "0"
    } else if d == 1 {
        "1"
    } else if d == 2 {
        "2"
    } else if d == 3 {
        "3"
    } else if d == 4 {
        "4"
    } else if d == 5 {
        "5"
    } else if d == 6 {
        "6"
    } else if d == 7 {
        "7"
    } else if d == 8 {
        "8"
    } else {
        "9"
    };
    assert(text@ =~= seq![digit(d as int)]);
    text
}

/// Appends a natural number in decimal digits.
fn push_decimal(out: &mut String, n: u128)
    ensures
        final(out)@ == old(out)@ + decimal(n as nat),
    decreases n,
{
    if n >= 10 {
        push_decimal(out, n / 10);
    }
    out.append(digit_text((n % 10) as u8));
    assert(out@ =~= old(out)@ + decimal(n as nat));
}

/// A natural number in decimal digits.
pub fn unsigned_text(n: u128) -> (r: String)
    ensures
        r@ == integer_text(n as int),
{
    let mut out = String::new();
    push_decimal(&mut out, n);
    assert(out@ =~= decimal(n as nat));
    out
}

/// An integer in decimal digits, with a minus sign where it is negative.
pub fn signed_text(v: i128) -> (r: String)
    ensures
        r@ == integer_text(v as int),
{
    if v < 0 {
        // the magnitude of the smallest value does not fit its own type
        let magnitude: u128 = (-(v + 1)) as u128 + 1;
        let mut out = String::from_str("-");
        proof {
            reveal_strlit("-");
        }
        push_decimal(&mut out, magnitude);
        assert(out@ =~= seq!['-'] + decimal((-v) as nat));
        out
    } else {
        unsigned_text(v as u128)
    }
}

impl SupportedScalar {
    /// The scalar written out: integers in decimal digits, a truth value as
    /// `true` or `false`, a character as itself, the unit value as `()`.
    pub fn render(&self) -> (r: String)
        ensures
            r@ == scalar_text(*self),
    {
        match self {
            SupportedScalar::I8(v) => signed_text(*v as i128),
            SupportedScalar::I16(v) => signed_text(*v as i128),
            SupportedScalar::I32(v) => signed_text(*v as i128),
            SupportedScalar::I64(v) => signed_text(*v as i128),
            SupportedScalar::I128(v) => signed_text(*v),
            SupportedScalar::Isize(v) => signed_text(*v as i128),
            SupportedScalar::U8(v) => unsigned_text(*v as u128),
            SupportedScalar::U16(v) => unsigned_text(*v as u128),
            SupportedScalar::U32(v) => unsigned_text(*v as u128),
            SupportedScalar::U64(v) => unsigned_text(*v as u128),
            SupportedScalar::U128(v) => unsigned_text(*v),
            SupportedScalar::Usize(v) => unsigned_text(*v as u128),
            SupportedScalar::Bool(v) => if *v {
                String::from_str("true")
            } else {
                String::from_str("false")
            },
            SupportedScalar::Char(v) => char_text(*v),
            SupportedScalar::Float(shown) => shown.clone(),
            SupportedScalar::Empty => String::from_str("()"),
        }
    }
}

proof fn lemma_number_grows(s: Seq<char>, i: int, j: int)
    requires
        0 <= i <= j <= s.len(),
        forall|k: int| 0 <= k < j ==> is_digit(#[trigger] s[k]),
    ensures
        0 <= number(s, i) <= number(s, j),
    decreases j,
{
    if i < j {
        lemma_number_grows(s, i, j - 1);
    } else if i > 0 {
        lemma_number_grows(s, i - 1, i - 1);
        lemma_number_grows(s, 0, i - 1);
    }
}

/// The name under which a variable called `name` is shown.
pub fn normalize<'a>(name: &'a str) -> (r: &'a str)
    ensures
        r@ == normalized(name@),
{
    let len = name.unicode_len();
    let mut k: usize = 0;
    while k < len && name.get_char(k) == '_'
        invariant
            len == name@.len(),
            k <= len,
            leading_underscores(name@, 0) == leading_underscores(name@, k as int),
        decreases len - k,
    {
        k += 1;
    }
    assert(leading_underscores(name@, 0) == k);
    if k < 2 || k >= len {
        assert(name@.skip(k as int).len() == len - k);
        return name;
    }
    let ghost rest = name@.skip(k as int);
    let mut i: usize = k;
    let mut value: u64 = 0;
    while i < len
        invariant
            len == name@.len(),
            2 <= k <= i <= len,
            k < len,
            rest == name@.skip(k as int),
            forall|j: int| 0 <= j < i - k ==> is_digit(#[trigger] rest[j]),
            value == number(rest, i - k),
            value <= u32::MAX,
            leading_underscores(name@, 0) == k,
        decreases len - i,
    {
        let c = name.get_char(i);
        assert(rest[i - k] == c);
        let code = c as u32;
        if code < 48 || code > 57 {
            assert(!is_digit(rest[i - k]));
            return name;
        }
        value = value * 10 + (code - 48) as u64;
        proof {
            assert(value == number(rest, i - k + 1));
            if value > u32::MAX {
                if forall|j: int| 0 <= j < rest.len() ==> is_digit(#[trigger] rest[j]) {
                    lemma_number_grows(rest, i - k + 1, rest.len() as int);
                }
            }
        }
        if value > 0xffff_ffff {
            return name;
        }
        i += 1;
    }
    assert(is_number_text(rest));
    name.substring_char(k, len)
}

/// What is shown of a variable.
pub trait RenderRepr {
    /// The name to show.
    spec fn shown_name(&self) -> Seq<char>;

    /// The name of the type to show.
    spec fn shown_type(&self) -> Seq<char>;

    /// `repr` is the value to show.
    spec fn shows(&self, repr: Option<ValueRepr<'_>>) -> bool;

    fn name(&self) -> (r: &str)
        ensures
            r@ == self.shown_name(),
    ;

    fn type_ident(&self) -> (r: &str)
        ensures
            r@ == self.shown_type(),
    ;

    fn value(&self) -> (r: Option<ValueRepr<'_>>)
        ensures
            self.shows(r),
    ;
}

impl RenderRepr for VariableIR {
    /// The declared name, or `unknown`; names of tuple fields as their number.
    open spec fn shown_name(&self) -> Seq<char> {
        normalized(text_or_unknown(self.declared_name()))
    }

    /// The declared type name, or `unknown`.
    open spec fn shown_type(&self) -> Seq<char> {
        text_or_unknown(self.declared_type())
    }

    /// A scalar shows as its text, a structure as its members, an array as
    /// its items, an enumeration without data as the name of its variant,
    /// one with data as the variant in force, a pointer as its address with
    /// what it points at. Where the value is missing nothing is shown.
    open spec fn shows(&self, repr: Option<ValueRepr<'_>>) -> bool {
        match self {
            VariableIR::Scalar(scalar) => match scalar.value {
                Some(value) => repr matches Some(ValueRepr::PreRendered(text)) && text@
                    == scalar_text(value),
                None => repr is None,
            },
            VariableIR::Struct(structure) => repr matches Some(ValueRepr::Nested(parts))
                && parts@ == structure.members@,
            VariableIR::Array(array) => match array.items {
                Some(items) => repr matches Some(ValueRepr::Nested(parts)) && parts@ == items@,
                None => repr is None,
            },
            VariableIR::CEnum(c_enum) => match c_enum.value {
                Some(value) => repr matches Some(ValueRepr::PreRendered(text)) && text@ == value@,
                None => repr is None,
            },
            VariableIR::RustEnum(rust_enum) => match rust_enum.value {
                Some(value) => repr matches Some(ValueRepr::Wrapped(inner)) && *inner == *value,
                None => repr is None,
            },
            VariableIR::Pointer(pointer) => match (pointer.value, pointer.deref) {
                (Some(address), Some(target)) => repr matches Some(
                    ValueRepr::Referential { addr, val },
                ) && addr == address && *val == *target,
                _ => repr is None,
            },
        }
    }

    fn name(&self) -> (r: &str) {
        let name = match self {
            VariableIR::Scalar(v) => &v.name,
            VariableIR::Struct(v) => &v.name,
            VariableIR::Array(v) => &v.name,
            VariableIR::CEnum(v) => &v.name,
            VariableIR::RustEnum(v) => &v.name,
            VariableIR::Pointer(v) => &v.name,
        };
        match name {
            Some(name) => normalize(name.as_str()),
            None => normalize(UNKNOWN),
        }
    }

    fn type_ident(&self) -> (r: &str) {
        let type_ident = match self {
            VariableIR::Scalar(v) => &v.type_ident,
            VariableIR::Struct(v) => &v.type_ident,
            VariableIR::Array(v) => &v.type_ident,
            VariableIR::CEnum(v) => &v.type_ident,
            VariableIR::RustEnum(v) => &v.type_ident,
            VariableIR::Pointer(v) => &v.type_ident,
        };
        match type_ident {
            Some(type_ident) => type_ident.as_str(),
            None => UNKNOWN,
        }
    }

    fn value(&self) -> (r: Option<ValueRepr<'_>>) {
        match self {
            VariableIR::Scalar(scalar) => match &scalar.value {
                Some(value) => Some(ValueRepr::PreRendered(value.render())),
                None => None,
            },
            VariableIR::Struct(structure) => Some(ValueRepr::Nested(structure.members.as_slice())),
            VariableIR::Array(array) => match &array.items {
                Some(items) => Some(ValueRepr::Nested(items.as_slice())),
                None => None,
            },
            VariableIR::CEnum(c_enum) => match &c_enum.value {
                Some(value) => Some(ValueRepr::PreRendered(value.clone())),
                None => None,
            },
            VariableIR::RustEnum(rust_enum) => match &rust_enum.value {
                Some(value) => Some(ValueRepr::Wrapped(&**value)),
                None => None,
            },
            VariableIR::Pointer(pointer) => match (pointer.value, &pointer.deref) {
                (Some(address), Some(target)) => Some(
                    ValueRepr::Referential { addr: address, val: &**target },
                ),
                _ => None,
            },
        }
    }
}

} // verus!
