//! The unwind table of the `.eh_frame` section, read through `gimli`.
//!
//! `gimli` parses; the library walks. Every call into `gimli` stands in a
//! function of its own whose contract is taken on trust and says only that
//! the result is a function of what went in: it gives that result a name.
//! Which entry covers an address is decided here, in verified code.

use vstd::prelude::*;

verus! {

/// The size of an address of the debuggee, in bytes.
pub const ADDRESS_SIZE: u8 = 8;

/// How to compute the canonical frame address.
#[derive(Clone, Debug)]
pub enum CfaRule {
    /// The value of a register plus an offset.
    RegisterAndOffset { register: u16, offset: i64 },
    /// The result of an expression, given by its bytes.
    Expression(Vec<u8>),
}

/// How to recover the value that a register had in the calling frame.
#[derive(Clone, Debug)]
pub enum RegisterRule {
    /// The value cannot be recovered.
    Undefined,
    /// The register was not changed.
    SameValue,
    /// The value was saved at the canonical frame address plus this offset.
    Offset(i64),
    /// The value is the canonical frame address plus this offset.
    ValOffset(i64),
    /// The value is in this other register.
    Register(u16),
    /// The value was saved at the address that the expression gives.
    Expression(Vec<u8>),
    /// The value is what the expression gives.
    ValExpression(Vec<u8>),
    /// The rule is defined outside the debug information.
    Architectural,
}

/// `gimli::Error`, carried through as it is: nothing of it is read.
#[verifier::external_type_specification]
#[verifier::external_body]
pub struct ExGimliError(gimli::Error);

/// An unwind section as `gimli` holds it, with the addresses that its
/// entries are relative to. The types of `gimli` are generic over traits
/// that cannot be named here, so the value is kept closed.
#[verifier::external_body]
pub struct CfiSection {
    section: gimli::EhFrame<gimli::EndianRcSlice<gimli::RunTimeEndian>>,
    bases: gimli::BaseAddresses,
}

/// A walk over the entries of an unwind section, as `gimli` makes it.
#[verifier::external_body]
pub struct CfiWalk<'a> {
    entries: gimli::CfiEntriesIter<
        'a,
        gimli::EhFrame<gimli::EndianRcSlice<gimli::RunTimeEndian>>,
        gimli::EndianRcSlice<gimli::RunTimeEndian>,
    >,
}

/// A frame description of which `gimli` has read the header only.
#[verifier::external_body]
pub struct PartialFde<'a> {
    partial: gimli::PartialFrameDescriptionEntry<
        'a,
        gimli::EhFrame<gimli::EndianRcSlice<gimli::RunTimeEndian>>,
        gimli::EndianRcSlice<gimli::RunTimeEndian>,
    >,
}

/// A frame description as `gimli` parsed it.
#[verifier::external_body]
pub struct Fde {
    fde: gimli::FrameDescriptionEntry<gimli::EndianRcSlice<gimli::RunTimeEndian>>,
}

/// One row of the unwind table as `gimli` computed it.
#[verifier::external_body]
pub struct CfiRow {
    row: gimli::UnwindTableRow<gimli::EndianRcSlice<gimli::RunTimeEndian>>,
}

/// What a walk hands out.
pub enum CfiEntry<'a> {
    /// A common information entry.
    Cie,
    /// A frame description, not parsed yet.
    Fde(PartialFde<'a>),
}

/// What a walk meets, with what parsing makes of it.
pub enum Found {
    /// A common information entry.
    Cie,
    /// A frame description, and the parsed description if it can be parsed.
    Fde(Option<Fde>),
    /// Bytes that are no entry. The walk ends here.
    Broken,
}

/// The unwind section made of `bytes`, read with addresses of
/// `address_size` bytes in the given byte order, loaded at
/// `section_address` beside code loaded at `text_address`.
pub uninterp spec fn cfi_section_of(
    bytes: Seq<u8>,
    section_address: u64,
    text_address: u64,
    address_size: u8,
    little_endian: bool,
) -> CfiSection;

/// What a walk over the whole section meets, in its order.
pub uninterp spec fn section_items(section: CfiSection) -> Seq<Found>;

/// What a walk has still ahead of it.
pub uninterp spec fn walk_items(walk: CfiWalk) -> Seq<Found>;

/// The frame description that a header parses to, if it can be parsed.
pub uninterp spec fn partial_fde(partial: PartialFde) -> Option<Fde>;

/// The first address that a frame description speaks of.
pub uninterp spec fn fde_start(fde: Fde) -> u64;

/// How many bytes of code a frame description speaks of.
pub uninterp spec fn fde_length(fde: Fde) -> u64;

/// The number of the register that holds the return address in the frames
/// of a frame description.
pub uninterp spec fn fde_return(fde: Fde) -> u16;

/// The row of a frame description for the address `pc`, if it has one that
/// can be computed.
pub uninterp spec fn fde_row_at(section: CfiSection, fde: Fde, pc: u64) -> Option<CfiRow>;

/// The register rules that a row holds, each with the number of its
/// register, in the row's order.
pub uninterp spec fn row_rules(row: CfiRow) -> Seq<(u16, RegisterRule)>;

/// The rule for the canonical frame address that a row holds.
pub uninterp spec fn row_cfa(row: CfiRow) -> CfaRule;

/// Makes a little-endian section: `gimli::EhFrame::from` on the bytes,
/// `EhFrame::set_address_size`, and `gimli::BaseAddresses` with the two
/// addresses set. Nothing is parsed yet.
#[verifier::external_body]
pub(crate) fn open_little_endian(
    bytes: &[u8],
    section_address: u64,
    text_address: u64,
    address_size: u8,
) -> (r: CfiSection)
    ensures
        r == cfi_section_of(bytes@, section_address, text_address, address_size, true),
{
    let order = gimli::RunTimeEndian::Little;
    let mut section = gimli::EhFrame::from(gimli::EndianRcSlice::new(bytes.into(), order));
    section.set_address_size(address_size);
    let bases = gimli::BaseAddresses::default();
    CfiSection { section, bases: bases.set_eh_frame(section_address).set_text(text_address) }
}

/// Makes a big-endian section, in the same way.
#[verifier::external_body]
pub(crate) fn open_big_endian(
    bytes: &[u8],
    section_address: u64,
    text_address: u64,
    address_size: u8,
) -> (r: CfiSection)
    ensures
        r == cfi_section_of(bytes@, section_address, text_address, address_size, false),
{
    let order = gimli::RunTimeEndian::Big;
    let mut section = gimli::EhFrame::from(gimli::EndianRcSlice::new(bytes.into(), order));
    section.set_address_size(address_size);
    let bases = gimli::BaseAddresses::default();
    CfiSection { section, bases: bases.set_eh_frame(section_address).set_text(text_address) }
}

/// Calls `gimli::UnwindSection::entries`: a walk from the first entry on.
#[verifier::external_body]
pub(crate) fn entries<'a>(section: &'a CfiSection) -> (r: CfiWalk<'a>)
    ensures
        walk_items(r) == section_items(*section),
{
    CfiWalk { entries: gimli::UnwindSection::entries(&section.section, &section.bases) }
}

/// Calls `gimli::CfiEntriesIter::next` and tells the two kinds of entry
/// apart. The walk is finite: every entry takes bytes off the section. After
/// an error `gimli` hands out nothing more.
#[verifier::external_body]
pub(crate) fn next_entry<'a>(walk: &mut CfiWalk<'a>) -> (r: Result<
    Option<CfiEntry<'a>>,
    gimli::Error,
>)
    ensures
        match r {
            Ok(Some(CfiEntry::Cie)) => walk_items(*old(walk)).len() > 0 && walk_items(
                *old(walk),
            )[0] is Cie && walk_items(*final(walk)) == walk_items(*old(walk)).drop_first(),
            Ok(Some(CfiEntry::Fde(partial))) => walk_items(*old(walk)).len() > 0 && walk_items(
                *old(walk),
            )[0] == Found::Fde(partial_fde(partial)) && walk_items(*final(walk)) == walk_items(
                *old(walk),
            ).drop_first(),
            Ok(None) => walk_items(*old(walk)).len() == 0 && walk_items(*final(walk)).len() == 0,
            Err(_) => walk_items(*old(walk)).len() > 0 && walk_items(*old(walk))[0] is Broken
                && walk_items(*final(walk)) == walk_items(*old(walk)).drop_first(),
        },
{
    match walk.entries.next() {
        Ok(Some(gimli::CieOrFde::Cie(_))) => Ok(Some(CfiEntry::Cie)),
        Ok(Some(gimli::CieOrFde::Fde(partial))) => Ok(Some(CfiEntry::Fde(PartialFde { partial }))),
        Ok(None) => Ok(None),
        Err(error) => Err(error),
    }
}

/// Calls `gimli::PartialFrameDescriptionEntry::parse`, which reads the
/// common information entry through `UnwindSection::cie_from_offset`.
#[verifier::external_body]
pub(crate) fn parse_fde(partial: &PartialFde) -> (r: Result<Fde, gimli::Error>)
    ensures
        (match r {
            Ok(fde) => Some(fde),
            Err(_) => None,
        }) == partial_fde(*partial),
{
    partial.partial.parse(gimli::UnwindSection::cie_from_offset).map(|fde| Fde { fde })
}

/// Calls `gimli::FrameDescriptionEntry::initial_address`.
#[verifier::external_body]
pub(crate) fn fde_initial_address(fde: &Fde) -> (r: u64)
    ensures
        r == fde_start(*fde),
{
    fde.fde.initial_address()
}

/// Calls `gimli::FrameDescriptionEntry::len`.
#[verifier::external_body]
pub(crate) fn fde_len(fde: &Fde) -> (r: u64)
    ensures
        r == fde_length(*fde),
{
    fde.fde.len()
}

/// Calls `gimli::CommonInformationEntry::return_address_register` on the
/// common information entry of the frame description.
#[verifier::external_body]
pub(crate) fn fde_return_register(fde: &Fde) -> (r: u16)
    ensures
        r == fde_return(*fde),
{
    fde.fde.cie().return_address_register().0
}

/// Calls `gimli::FrameDescriptionEntry::unwind_info_for_address` with a
/// fresh `gimli::UnwindContext` and keeps a copy of the row.
#[verifier::external_body]
pub(crate) fn fde_row(section: &CfiSection, fde: &Fde, pc: u64) -> (r: Result<
    CfiRow,
    gimli::Error,
>)
    ensures
        (match r {
            Ok(row) => Some(row),
            Err(_) => None,
        }) == fde_row_at(*section, *fde, pc),
{
    let mut context = gimli::UnwindContext::new();
    let row = fde.fde.unwind_info_for_address(&section.section, &section.bases, &mut context, pc)?;
    Ok(CfiRow { row: row.clone() })
}

/// Counts what `gimli::UnwindTableRow::registers` yields: the number of
/// register rules of the row.
#[verifier::external_body]
pub(crate) fn row_len(row: &CfiRow) -> (r: usize)
    ensures
        r == row_rules(*row).len(),
{
    row.row.registers().count()
}

/// Takes the rule at `index` of what `gimli::UnwindTableRow::registers`
/// yields and writes it as a rule of this library, variant by variant.
#[verifier::external_body]
pub(crate) fn row_rule(row: &CfiRow, index: usize) -> (r: (u16, RegisterRule))
    requires
        index < row_rules(*row).len(),
    ensures
        r == row_rules(*row)[index as int],
{
    let (register, rule) = row.row.registers().nth(index).unwrap();
    let rule = match rule {
        gimli::RegisterRule::Undefined => RegisterRule::Undefined,
        gimli::RegisterRule::SameValue => RegisterRule::SameValue,
        gimli::RegisterRule::Offset(offset) => RegisterRule::Offset(*offset),
        gimli::RegisterRule::ValOffset(offset) => RegisterRule::ValOffset(*offset),
        gimli::RegisterRule::Register(other) => RegisterRule::Register(other.0),
        gimli::RegisterRule::Expression(e) => RegisterRule::Expression(e.0.bytes().to_vec()),
        gimli::RegisterRule::ValExpression(e) => RegisterRule::ValExpression(e.0.bytes().to_vec()),
        gimli::RegisterRule::Architectural => RegisterRule::Architectural,
    };
    (register.0, rule)
}

/// Reads `gimli::UnwindTableRow::cfa` and writes it as a rule of this
/// library, variant by variant.
#[verifier::external_body]
pub(crate) fn row_cfa_rule(row: &CfiRow) -> (r: CfaRule)
    ensures
        r == row_cfa(*row),
{
    match row.row.cfa() {
        gimli::CfaRule::RegisterAndOffset { register, offset } => CfaRule::RegisterAndOffset {
            register: register.0,
            offset: *offset,
        },
        gimli::CfaRule::Expression(e) => CfaRule::Expression(e.0.bytes().to_vec()),
    }
}

} // verus!
