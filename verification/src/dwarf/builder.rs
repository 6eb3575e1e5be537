//! Building the debug information context from an object file and its
//! parsed units.

use crate::dwarf::unit::{sorted_by_key, upper_bound, Keyed, Unit};
use crate::dwarf::{DebugeeContext, Symbol};
use vstd::prelude::*;

verus! {

/// The name of the section that holds the unwind information.
pub const EH_FRAME_SECTION: &'static str = ".eh_frame";

/// The name of the section that holds the code.
pub const TEXT_SECTION: &'static str = ".text";

/// The content of the section `name` of the object file `file`,
/// decompressed; none where the file has no such content.
pub uninterp spec fn section_content(file: Seq<u8>, name: Seq<char>) -> Option<Seq<u8>>;

/// The address at which the section `name` of the object file `file` is to
/// be loaded; none where the file has no such section.
pub uninterp spec fn section_start(file: Seq<u8>, name: Seq<char>) -> Option<u64>;

/// Calls `object::File::parse`, `Object::section_by_name` and
/// `ObjectSection::uncompressed_data`. The result is what the `object` crate
/// reads as the decompressed bytes of the named section; it is none where
/// the file does not parse, has no section of that name, or the section
/// cannot be decompressed. This is believed, not proved.
#[verifier::external_body]
fn object_section_data(file: &[u8], name: &str) -> (r: Option<Vec<u8>>)
    ensures
        (match r {
            Some(data) => Some(data@),
            None => None,
        }) == section_content(file@, name@),
{
    let parsed = object::File::parse(file).ok()?;
    let section = object::Object::section_by_name(&parsed, name)?;
    object::ObjectSection::uncompressed_data(&section).ok().map(|data| data.into_owned())
}

/// Whether the object file `file` stores its numbers lowest byte first; none
/// where the file cannot be read.
pub uninterp spec fn file_little_endian(file: Seq<u8>) -> Option<bool>;

/// Calls `object::File::parse` and `Object::is_little_endian`. The result
/// is what the `object` crate reads as the byte order of the file; it is
/// none where the file does not parse. This is believed, not proved.
#[verifier::external_body]
fn object_little_endian(file: &[u8]) -> (r: Option<bool>)
    ensures
        r == file_little_endian(file@),
{
    let parsed = object::File::parse(file).ok()?;
    Some(object::Object::is_little_endian(&parsed))
}

/// Calls `object::File::parse`, `Object::section_by_name` and
/// `ObjectSection::address`. The result is what the `object` crate reads as
/// the address of the named section; it is none where the file does not
/// parse or has no section of that name. This is believed, not proved.
#[verifier::external_body]
fn object_section_address(file: &[u8], name: &str) -> (r: Option<u64>)
    ensures
        r == section_start(file@, name@),
{
    let parsed = object::File::parse(file).ok()?;
    let section = object::Object::section_by_name(&parsed, name)?;
    Some(object::ObjectSection::address(&section))
}

/// Why no context could be built.
#[derive(Clone, Copy, Debug, PartialEq, Eq, Structural)]
pub enum BuildError {
    /// The unit at this place of the input is not well formed.
    MalformedUnit(usize),
}

/// The bytes of a section that may be missing: a missing section is empty.
pub open spec fn content_or_empty(content: Option<Seq<u8>>) -> Seq<u8> {
    match content {
        Some(data) => data,
        None => Seq::empty(),
    }
}

/// The address of a section that may be missing: a missing section lies at zero.
pub open spec fn start_or_zero(start: Option<u64>) -> u64 {
    match start {
        Some(address) => address,
        None => 0,
    }
}

/// The byte order of a file that may be unreadable: the debuggee's machine
/// is little-endian, so that is taken where the file does not say.
pub open spec fn little_unless_told(order: Option<bool>) -> bool {
    match order {
        Some(little) => little,
        None => true,
    }
}

/// The first unit at or after `from` that is not well formed; the number of
/// units if all are.
pub open spec fn first_malformed(units: Seq<Unit>, from: int) -> int
    decreases units.len() - from,
{
    if from < 0 || from >= units.len() {
        units.len() as int
    } else if !units[from].wf() {
        from
    } else {
        first_malformed(units, from + 1)
    }
}

proof fn lemma_all_well_formed(units: Seq<Unit>, from: int)
    requires
        0 <= from,
        first_malformed(units, from) == units.len(),
    ensures
        forall|u: int| from <= u < units.len() ==> (#[trigger] units[u]).wf(),
    decreases units.len() - from,
{
    if from < units.len() {
        lemma_all_well_formed(units, from + 1);
    }
}

/// Sorts the units by their offsets.
pub fn sort_units(units: Vec<Unit>) -> (r: Vec<Unit>)
    ensures
        sorted_by_key(r@),
        r@.to_multiset() == units@.to_multiset(),
{
    let ghost all = units@;
    let mut rest = units;
    let mut out: Vec<Unit> = Vec::new();
    assert(out@.to_multiset().add(rest@.to_multiset()) =~= all.to_multiset()) by {
        broadcast use vstd::seq_lib::group_to_multiset_ensures;
        broadcast use vstd::multiset::group_multiset_axioms;

        assert(out@.to_multiset() =~= vstd::multiset::Multiset::empty());
    }
    while rest.len() > 0
        invariant
            sorted_by_key(out@),
            out@.to_multiset().add(rest@.to_multiset()) == all.to_multiset(),
        decreases rest.len(),
    {
        let ghost before = rest@;
        let ghost sorted = out@;
        let unit = rest.pop().unwrap();
        let key = unit.get_key();
        let pos = if key == 0 {
            0
        } else {
            upper_bound(&out, key - 1)
        };
        out.insert(pos, unit);
        proof {
            broadcast use vstd::seq_lib::group_to_multiset_ensures;
            broadcast use vstd::multiset::group_multiset_axioms;

            assert(before =~= rest@.push(unit));
            vstd::seq_lib::to_multiset_insert(sorted, pos as int, unit);
            assert(out@.to_multiset().add(rest@.to_multiset()) =~= all.to_multiset());
            assert forall|i: int, j: int| 0 <= i <= j < out@.len() implies out@[i].key()
                <= out@[j].key() by {
                let si = if i < pos {
                    i
                } else {
                    i - 1
                };
                let sj = if j < pos {
                    j
                } else {
                    j - 1
                };
                if i != pos && j != pos {
                    assert(out@[i] == sorted[si] && out@[j] == sorted[sj]);
                    assert(sorted[si].key() <= sorted[sj].key());
                } else if i == pos && j != pos {
                    assert(out@[j] == sorted[sj]);
                    assert(sorted[sj].key() >= key);
                } else if j == pos && i != pos {
                    assert(out@[i] == sorted[si]);
                    assert(sorted[si].key() <= key);
                }
            }
        }
    }
    proof {
        broadcast use vstd::seq_lib::group_to_multiset_ensures;
        broadcast use vstd::multiset::group_multiset_axioms;

        assert(rest@ =~= Seq::<Unit>::empty());
        assert(rest@.to_multiset() =~= vstd::multiset::Multiset::empty());
        assert(out@.to_multiset() =~= all.to_multiset());
    }
    out
}

/// Builds the context of a debuggee.
#[derive(Default)]
pub struct DebugeeContextBuilder();

impl DebugeeContextBuilder {
    /// The decompressed bytes of the section `name` of the object file
    /// `file`. A section that is missing or cannot be read is empty.
    pub fn load_section(name: &str, file: &Vec<u8>) -> (r: Vec<u8>)
        ensures
            r@ == content_or_empty(section_content(file@, name@)),
    {
        match object_section_data(file.as_slice(), name) {
            Some(data) => data,
            None => Vec::new(),
        }
    }

    /// The address of the section `name` of the object file `file`; zero if
    /// the section is missing.
    pub fn section_address(name: &str, file: &Vec<u8>) -> (r: u64)
        ensures
            r == start_or_zero(section_start(file@, name@)),
    {
        match object_section_address(file.as_slice(), name) {
            Some(address) => address,
            None => 0,
        }
    }

    /// Whether the object file `file` stores its numbers lowest byte first.
    pub fn byte_order(file: &Vec<u8>) -> (r: bool)
        ensures
            r == little_unless_told(file_little_endian(file@)),
    {
        match object_little_endian(file.as_slice()) {
            Some(little) => little,
            None => true,
        }
    }

    /// Builds the context from the object file, the units parsed from its
    /// debug information and its symbols. The units are checked and put in
    /// the order of their offsets; the unwind section and the byte order
    /// are taken from the file.
    pub fn build(&self, obj_file: &Vec<u8>, units: Vec<Unit>, symbols: Option<Vec<Symbol>>) -> (r:
        Result<DebugeeContext, BuildError>)
        ensures
            match r {
                Ok(context) => {
                    &&& first_malformed(units@, 0) == units@.len()
                    &&& context.wf()
                    &&& context.units().to_multiset() == units@.to_multiset()
                    &&& context.symbols() == (match symbols {
                        Some(table) => Some(table@),
                        None => None,
                    })
                    &&& context.unwind_section() == content_or_empty(
                        section_content(obj_file@, EH_FRAME_SECTION@),
                    )
                    &&& context.unwind_section_address() == start_or_zero(
                        section_start(obj_file@, EH_FRAME_SECTION@),
                    )
                    &&& context.code_address() == start_or_zero(
                        section_start(obj_file@, TEXT_SECTION@),
                    )
                    &&& context.byte_order_is_little() == little_unless_told(
                        file_little_endian(obj_file@),
                    )
                },
                Err(BuildError::MalformedUnit(u)) => u < units@.len() && u == first_malformed(
                    units@,
                    0,
                ),
            },
    {
        let mut u: usize = 0;
        while u < units.len()
            invariant
                u <= units@.len(),
                first_malformed(units@, 0) == first_malformed(units@, u as int),
            decreases units.len() - u,
        {
            if !units[u].is_well_formed() {
                return Err(BuildError::MalformedUnit(u));
            }
            u += 1;
        }
        proof {
            lemma_all_well_formed(units@, 0);
        }
        let ghost given = units@;
        let sorted = sort_units(units);
        proof {
            broadcast use vstd::seq_lib::group_to_multiset_ensures;

            assert forall|k: int| 0 <= k < sorted@.len() implies (#[trigger] sorted@[k]).wf() by {
                assert(sorted@.contains(sorted@[k]));
                assert(sorted@.to_multiset().count(sorted@[k]) > 0);
                assert(given.contains(sorted@[k]));
            }
        }
        let eh_frame = Self::load_section(EH_FRAME_SECTION, obj_file);
        let eh_frame_address = Self::section_address(EH_FRAME_SECTION, obj_file);
        let text_address = Self::section_address(TEXT_SECTION, obj_file);
        let little_endian = Self::byte_order(obj_file);
        Ok(
            DebugeeContext::new(
                sorted,
                symbols,
                eh_frame,
                eh_frame_address,
                text_address,
                little_endian,
            ),
        )
    }
}

} // verus!
