//! The debug information of the debuggee, parsed and indexed.
//!
//! A [`DebugeeContext`] holds the compilation units in the order of their
//! offsets, the symbol table if the object file has one, and the unwind
//! section as it stands in the file, with the file's byte order. It answers by address, by name and by
//! source line.

pub mod builder;
pub mod die_ref;
pub mod types;
pub mod unit;

use crate::dwarf::unit::{sorted_by_key, upper_bound, DieRef, DieVariant, Entry, Keyed, Place, Unit};
use vstd::prelude::*;

verus! {

/// What a symbol of the object file stands for.
#[derive(Clone, Copy, Debug, PartialEq, Eq, Structural)]
pub enum SymbolKind {
    Text,
    Data,
    Other,
}

/// A symbol of the object file.
#[derive(Clone, Debug)]
pub struct Symbol {
    pub name: String,
    pub kind: SymbolKind,
    pub addr: u64,
}

/// The first unit at or after `from` whose code holds `pc`; the number of
/// units if there is none.
pub open spec fn covering_unit(units: Seq<Unit>, pc: u64, from: int) -> int
    decreases units.len() - from,
{
    if from < 0 || from >= units.len() {
        units.len() as int
    } else if units[from].covers(pc) {
        from
    } else {
        covering_unit(units, pc, from + 1)
    }
}

/// Row `k` of the unit's entry ranges belongs to a function and covers `pc`.
pub open spec fn is_function_range(unit: Unit, k: int, pc: u64) -> bool {
    &&& unit.die_ranges@[k].range.covers(pc)
    &&& unit.die_ranges@[k].die_idx < unit.entries@.len()
    &&& unit.entries@[unit.die_ranges@[k].die_idx as int].die is Function
}

/// The last row before `upto` of the unit's entry ranges that belongs to a
/// function and covers `pc`; -1 if there is none.
pub open spec fn innermost_function(unit: Unit, pc: u64, upto: int) -> int
    decreases upto,
{
    if upto <= 0 || upto > unit.die_ranges@.len() {
        -1
    } else if is_function_range(unit, upto - 1, pc) {
        upto - 1
    } else {
        innermost_function(unit, pc, upto - 1)
    }
}

/// Entry `e` of the unit is a function called `name`.
pub open spec fn is_function_named(unit: Unit, e: int, name: Seq<char>) -> bool {
    unit.entries@[e].die matches DieVariant::Function(f) && (f.name matches Some(n) && n@ == name)
}

/// The first entry at or after `from` that is a function called `name`;
/// the number of entries if there is none.
pub open spec fn function_named(unit: Unit, name: Seq<char>, from: int) -> int
    decreases unit.entries@.len() - from,
{
    if from < 0 || from >= unit.entries@.len() {
        unit.entries@.len() as int
    } else if is_function_named(unit, from, name) {
        from
    } else {
        function_named(unit, name, from + 1)
    }
}

/// The first unit at or after `from` that holds a function called `name`;
/// the number of units if there is none.
pub open spec fn unit_with_function(units: Seq<Unit>, name: Seq<char>, from: int) -> int
    decreases units.len() - from,
{
    if from < 0 || from >= units.len() {
        units.len() as int
    } else if function_named(units[from], name, 0) < units[from].entries@.len() {
        from
    } else {
        unit_with_function(units, name, from + 1)
    }
}

/// The last unit before `upto` whose key is at most `key`; -1 if there is none.
pub open spec fn last_unit_up_to(units: Seq<Unit>, key: u64, upto: int) -> int
    decreases upto,
{
    if upto <= 0 || upto > units.len() {
        -1
    } else if units[upto - 1].key() <= key {
        upto - 1
    } else {
        last_unit_up_to(units, key, upto - 1)
    }
}

/// The key under which a unit that begins at `offset` is sorted.
pub open spec fn global_key(offset: usize) -> u64 {
    if offset < u64::MAX {
        (offset + 1) as u64
    } else {
        u64::MAX
    }
}

/// The first symbol at or after `from` called `name`; the number of symbols
/// if there is none.
pub open spec fn symbol_named(symbols: Seq<Symbol>, name: Seq<char>, from: int) -> int
    decreases symbols.len() - from,
{
    if from < 0 || from >= symbols.len() {
        symbols.len() as int
    } else if symbols[from].name@ == name {
        from
    } else {
        symbol_named(symbols, name, from + 1)
    }
}

/// Among the entry ranges of a well-formed unit, the function that
/// `innermost_function` picks for `pc` covers `pc`, and no function that
/// covers `pc` begins after it: it is the innermost one.
pub proof fn lemma_innermost_function(unit: Unit, pc: u64, upto: int)
    requires
        sorted_by_key(unit.die_ranges@),
        0 <= upto <= unit.die_ranges@.len(),
    ensures
        -1 <= innermost_function(unit, pc, upto) < upto,
        innermost_function(unit, pc, upto) >= 0 ==> is_function_range(
            unit,
            innermost_function(unit, pc, upto),
            pc,
        ),
        forall|j: int|
            0 <= j < upto && is_function_range(unit, j, pc) ==> j <= innermost_function(
                unit,
                pc,
                upto,
            ) && unit.die_ranges@[j].range.begin <= unit.die_ranges@[innermost_function(
                unit,
                pc,
                upto,
            )].range.begin,
    decreases upto,
{
    if upto > 0 && !is_function_range(unit, upto - 1, pc) {
        lemma_innermost_function(unit, pc, upto - 1);
    }
    if upto > 0 && is_function_range(unit, upto - 1, pc) {
        assert forall|j: int| 0 <= j < upto && is_function_range(unit, j, pc) implies
            unit.die_ranges@[j].range.begin <= unit.die_ranges@[upto - 1].range.begin by {
            assert(unit.die_ranges@[j].key() <= unit.die_ranges@[upto - 1].key());
        }
    }
}

/// Rows that begin after `pc` cannot cover it, so the search may start at
/// the first of them.
proof fn lemma_innermost_skips(unit: Unit, pc: u64, pos: int, upto: int)
    requires
        0 <= pos <= upto <= unit.die_ranges@.len(),
        forall|i: int| pos <= i < unit.die_ranges@.len() ==> unit.die_ranges@[i].key() > pc,
    ensures
        innermost_function(unit, pc, upto) == innermost_function(unit, pc, pos),
    decreases upto - pos,
{
    if pos < upto {
        assert(unit.die_ranges@[upto - 1].key() > pc);
        lemma_innermost_skips(unit, pc, pos, upto - 1);
    }
}

proof fn lemma_last_unit(units: Seq<Unit>, key: u64, pos: int, upto: int)
    requires
        0 <= pos <= upto <= units.len(),
        forall|i: int| pos <= i < units.len() ==> units[i].key() > key,
        forall|i: int| 0 <= i < pos ==> units[i].key() <= key,
    ensures
        last_unit_up_to(units, key, upto) == pos - 1,
    decreases upto - pos,
{
    if pos < upto {
        assert(units[upto - 1].key() > key);
        lemma_last_unit(units, key, pos, upto - 1);
    } else if pos > 0 {
        assert(units[pos - 1].key() <= key);
    }
}

/// The debug information of one debuggee.
pub struct DebugeeContext {
    units: Vec<Unit>,
    symbol_table: Option<Vec<Symbol>>,
    eh_frame: Vec<u8>,
    eh_frame_address: u64,
    text_address: u64,
    little_endian: bool,
}

impl DebugeeContext {
    /// The compilation units, in the order of their offsets.
    pub closed spec fn units(&self) -> Seq<Unit> {
        self.units@
    }

    /// The symbols of the object file, if it has a symbol table.
    pub closed spec fn symbols(&self) -> Option<Seq<Symbol>> {
        match self.symbol_table {
            Some(table) => Some(table@),
            None => None,
        }
    }

    /// The bytes of the unwind section.
    pub closed spec fn unwind_section(&self) -> Seq<u8> {
        self.eh_frame@
    }

    /// The address at which the unwind section is loaded.
    pub closed spec fn unwind_section_address(&self) -> u64 {
        self.eh_frame_address
    }

    /// The address at which the code section is loaded.
    pub closed spec fn code_address(&self) -> u64 {
        self.text_address
    }

    /// Whether the object file stores its numbers lowest byte first.
    pub closed spec fn byte_order_is_little(&self) -> bool {
        self.little_endian
    }

    /// Every unit is well formed and the units are sorted by their offsets.
    pub open spec fn wf(&self) -> bool {
        &&& sorted_by_key(self.units())
        &&& forall|u: int| 0 <= u < self.units().len() ==> (#[trigger] self.units()[u]).wf()
    }

    /// A context over units that are in order and well formed.
    pub fn new(
        units: Vec<Unit>,
        symbol_table: Option<Vec<Symbol>>,
        eh_frame: Vec<u8>,
        eh_frame_address: u64,
        text_address: u64,
        little_endian: bool,
    ) -> (r: DebugeeContext)
        requires
            sorted_by_key(units@),
            forall|u: int| 0 <= u < units@.len() ==> (#[trigger] units@[u]).wf(),
        ensures
            r.wf(),
            r.units() == units@,
            r.symbols() == (match symbol_table {
                Some(table) => Some(table@),
                None => None,
            }),
            r.unwind_section() == eh_frame@,
            r.unwind_section_address() == eh_frame_address,
            r.code_address() == text_address,
            r.byte_order_is_little() == little_endian,
    {
        DebugeeContext {
            units,
            symbol_table,
            eh_frame,
            eh_frame_address,
            text_address,
            little_endian,
        }
    }

    pub fn unit_count(&self) -> (r: usize)
        ensures
            r == self.units().len(),
    {
        self.units.len()
    }

    pub fn unit(&self, index: usize) -> (r: &Unit)
        requires
            index < self.units().len(),
        ensures
            *r == self.units()[index as int],
    {
        &self.units[index]
    }

    pub fn eh_frame(&self) -> (r: &Vec<u8>)
        ensures
            r@ == self.unwind_section(),
    {
        &self.eh_frame
    }

    pub fn eh_frame_address(&self) -> (r: u64)
        ensures
            r == self.unwind_section_address(),
    {
        self.eh_frame_address
    }

    pub fn text_address(&self) -> (r: u64)
        ensures
            r == self.code_address(),
    {
        self.text_address
    }

    /// Whether the object file stores its numbers lowest byte first.
    pub fn is_little_endian(&self) -> (r: bool)
        ensures
            r == self.byte_order_is_little(),
    {
        self.little_endian
    }

    /// The first unit whose code holds `pc`, as an index of the units.
    pub fn find_unit_by_pc(&self, pc: u64) -> (r: Option<usize>)
        requires
            self.wf(),
        ensures
            match r {
                Some(u) => u == covering_unit(self.units(), pc, 0) && u < self.units().len(),
                None => covering_unit(self.units(), pc, 0) == self.units().len(),
            },
    {
        let mut u: usize = 0;
        while u < self.units.len()
            invariant
                u <= self.units@.len(),
                self.wf(),
                covering_unit(self.units@, pc, 0) == covering_unit(self.units@, pc, u as int),
            decreases self.units.len() - u,
        {
            assert(self.units()[u as int].wf());
            if self.units[u].contains_pc(pc) {
                return Some(u);
            }
            u += 1;
        }
        None
    }

    /// The source place of `pc`: that of the unit whose code holds `pc`.
    pub fn find_place_from_pc(&self, pc: usize) -> (r: Option<Place<'_>>)
        requires
            self.wf(),
        ensures
            covering_unit(self.units(), pc as u64, 0) == self.units().len() ==> r is None,
            covering_unit(self.units(), pc as u64, 0) < self.units().len() ==> ({
                let unit = self.units()[covering_unit(self.units(), pc as u64, 0)];
                match r {
                    Some(place) => unit.is_place(place, place.pos_in_unit as int)
                        && unit.lines@[place.pos_in_unit as int].address <= pc && forall|j: int|
                        place.pos_in_unit < j < unit.lines@.len() ==> (
                        #[trigger] unit.lines@[j]).address > pc,
                    None => forall|j: int|
                        0 <= j < unit.lines@.len() ==> (#[trigger] unit.lines@[j]).address > pc,
                }
            }),
    {
        let pc = pc as u64;
        match self.find_unit_by_pc(pc) {
            Some(u) => {
                assert(self.units()[u as int].wf());
                self.units[u].find_place_by_pc(pc)
            },
            None => None,
        }
    }

    /// The function that `pc` lies in, as the index of its unit and the
    /// index of its entry there: in the first unit whose code holds `pc`,
    /// the innermost function whose range covers `pc`.
    pub fn find_function_index_by_pc(&self, pc: usize) -> (r: Option<(usize, usize)>)
        requires
            self.wf(),
        ensures
            r == self.function_index_by_pc(pc as u64),
            r matches Some((u, e)) ==> u < self.units().len() && e < self.units()[u as int].entries@.len()
                && self.units()[u as int].entries@[e as int].die is Function,
    {
        let addr = pc as u64;
        let u = match self.find_unit_by_pc(addr) {
            Some(u) => u,
            None => {
                return None;
            },
        };
        let unit = &self.units[u];
        assert(self.units()[u as int].wf());
        let find_pos = upper_bound(&unit.die_ranges, addr);
        proof {
            lemma_innermost_skips(*unit, addr, find_pos as int, unit.die_ranges@.len() as int);
        }
        let mut k: usize = find_pos;
        while k > 0
            invariant
                k <= find_pos <= unit.die_ranges@.len(),
                unit.wf(),
                u < self.units().len(),
                addr == pc as u64,
                u == covering_unit(self.units(), addr, 0),
                *unit == self.units()[u as int],
                innermost_function(*unit, addr, unit.die_ranges@.len() as int)
                    == innermost_function(*unit, addr, k as int),
            decreases k,
        {
            k -= 1;
            let dr = unit.die_ranges[k];
            assert(unit.die_ranges@[k as int].die_idx < unit.entries@.len());
            if dr.range.contains(addr) {
                match &unit.entries[dr.die_idx].die {
                    DieVariant::Function(_) => {
                        assert(is_function_range(*unit, k as int, addr));
                        assert(innermost_function(*unit, addr, k + 1) == k);
                        return Some((u, dr.die_idx));
                    },
                    _ => {},
                }
            }
            assert(!is_function_range(*unit, k as int, addr));
        }
        None
    }

    /// The function that `pc` lies in, by the index of its unit and of its entry.
    pub open spec fn function_index_by_pc(&self, pc: u64) -> Option<(usize, usize)> {
        let u = covering_unit(self.units(), pc, 0);
        if u < self.units().len() {
            let unit = self.units()[u];
            let k = innermost_function(unit, pc, unit.die_ranges@.len() as int);
            if k >= 0 {
                Some((u as usize, unit.die_ranges@[k].die_idx))
            } else {
                None
            }
        } else {
            None
        }
    }

    /// The first function called `needle`, by the index of its unit and of
    /// its entry: units and entries are gone through in their order.
    pub open spec fn function_index_by_name(&self, needle: Seq<char>) -> Option<(usize, usize)> {
        let u = unit_with_function(self.units(), needle, 0);
        if u < self.units().len() {
            Some((u as usize, function_named(self.units()[u], needle, 0) as usize))
        } else {
            None
        }
    }

    pub fn find_function_index_by_name(&self, needle: &str) -> (r: Option<(usize, usize)>)
        ensures
            r == self.function_index_by_name(needle@),
            r matches Some((u, e)) ==> u < self.units().len() && e < self.units()[u as int].entries@.len()
                && self.units()[u as int].entries@[e as int].die is Function,
    {
        let wanted = needle.to_owned();
        let mut u: usize = 0;
        while u < self.units.len()
            invariant
                u <= self.units@.len(),
                wanted@ == needle@,
                unit_with_function(self.units@, needle@, 0) == unit_with_function(
                    self.units@,
                    needle@,
                    u as int,
                ),
            decreases self.units.len() - u,
        {
            let unit = &self.units[u];
            let mut e: usize = 0;
            while e < unit.entries.len()
                invariant
                    e <= unit.entries@.len(),
                    wanted@ == needle@,
                    u < self.units@.len(),
                    *unit == self.units@[u as int],
                    unit_with_function(self.units@, needle@, 0) == unit_with_function(
                        self.units@,
                        needle@,
                        u as int,
                    ),
                    function_named(*unit, needle@, 0) == function_named(*unit, needle@, e as int),
                decreases unit.entries.len() - e,
            {
                match &unit.entries[e].die {
                    DieVariant::Function(f) => match &f.name {
                        Some(name) => {
                            if *name == wanted {
                                assert(is_function_named(*unit, e as int, needle@));
                                return Some((u, e));
                            }
                        },
                        None => {},
                    },
                    _ => {},
                }
                assert(!is_function_named(*unit, e as int, needle@));
                e += 1;
            }
            u += 1;
        }
        None
    }

    /// The place at which line `line` of the file `file` begins: the first
    /// unit that has such a place gives it.
    pub fn find_stmt_line(&self, file: &str, line: u64) -> (r: Option<Place<'_>>)
        ensures
            match r {
                Some(place) => exists|u: int|
                    0 <= u < self.units().len() && (#[trigger] self.units()[u]).is_place(
                        place,
                        place.pos_in_unit as int,
                    ) && self.units()[u].is_stmt_row(place.pos_in_unit as int, file@, line)
                        && (forall|j: int|
                        0 <= j < place.pos_in_unit ==> !self.units()[u].is_stmt_row(j, file@, line))
                        && forall|v: int, j: int|
                        0 <= v < u && 0 <= j < self.units()[v].lines@.len()
                            ==> !self.units()[v].is_stmt_row(j, file@, line),
                None => forall|v: int, j: int|
                    0 <= v < self.units().len() && 0 <= j < self.units()[v].lines@.len()
                        ==> !self.units()[v].is_stmt_row(j, file@, line),
            },
    {
        let mut u: usize = 0;
        while u < self.units.len()
            invariant
                u <= self.units@.len(),
                forall|v: int, j: int|
                    0 <= v < u && 0 <= j < self.units()[v].lines@.len()
                        ==> !self.units()[v].is_stmt_row(j, file@, line),
            decreases self.units.len() - u,
        {
            match self.units[u].find_stmt_line(file, line) {
                Some(place) => {
                    assert(self.units()[u as int].is_place(place, place.pos_in_unit as int));
                    return Some(place);
                },
                None => {},
            }
            u += 1;
        }
        None
    }

    /// The symbol called `name`: the first one of the symbol table.
    pub fn find_symbol(&self, name: &str) -> (r: Option<&Symbol>)
        ensures
            match self.symbols() {
                None => r is None,
                Some(table) => match r {
                    Some(symbol) => symbol_named(table, name@, 0) < table.len() && *symbol
                        == table[symbol_named(table, name@, 0)],
                    None => symbol_named(table, name@, 0) == table.len(),
                },
            },
    {
        match &self.symbol_table {
            None => None,
            Some(table) => {
                let wanted = name.to_owned();
                let mut i: usize = 0;
                while i < table.len()
                    invariant
                        i <= table@.len(),
                        wanted@ == name@,
                        self.symbols() == Some(table@),
                        symbol_named(table@, name@, 0) == symbol_named(table@, name@, i as int),
                    decreases table.len() - i,
                {
                    if table[i].name == wanted {
                        assert(table@[i as int].name@ == name@);
                        assert(symbol_named(table@, name@, i as int) == i);
                        return Some(&table[i]);
                    }
                    i += 1;
                }
                None
            },
        }
    }

    /// The unit that holds what `reference` names, and the offset in that
    /// unit. A reference within a unit stays in `default_unit`. A reference
    /// into the whole debug information belongs to the last unit that begins
    /// before it; an offset at which a unit begins names no entry.
    pub open spec fn deref_target(&self, default_unit: Unit, reference: DieRef) -> Option<
        (Unit, usize),
    > {
        match reference {
            DieRef::Unit(offset) => Some((default_unit, offset)),
            DieRef::Global(offset) => {
                let key = global_key(offset);
                let u = last_unit_up_to(self.units(), key, self.units().len() as int);
                if u < 0 || self.units()[u].key() == key {
                    None
                } else {
                    match self.units()[u].offset {
                        Some(base) => if base <= offset {
                            Some((self.units()[u], (offset - base) as usize))
                        } else {
                            None
                        },
                        None => Some((self.units()[u], offset)),
                    }
                }
            },
        }
    }

    /// The entry that `reference` names, as its unit and its index there.
    pub fn deref_die<'this>(&'this self, default_unit: &'this Unit, reference: DieRef) -> (r:
        Option<(&'this Unit, usize)>)
        requires
            self.wf(),
        ensures
            match self.deref_target(*default_unit, reference) {
                Some((unit, offset)) => match r {
                    Some((found, e)) => *found == unit && unit.entry_at(offset) == Some(e as int),
                    None => unit.entry_at(offset) is None,
                },
                None => r is None,
            },
    {
        match reference {
            DieRef::Unit(offset) => match default_unit.find_entry(offset) {
                Some(e) => Some((default_unit, e)),
                None => None,
            },
            DieRef::Global(offset) => {
                let probe: u64 = if (offset as u64) < u64::MAX {
                    offset as u64 + 1
                } else {
                    u64::MAX
                };
                let pos = upper_bound(&self.units, probe);
                proof {
                    lemma_last_unit(self.units@, probe, pos as int, self.units@.len() as int);
                }
                if pos == 0 {
                    return None;
                }
                let unit = &self.units[pos - 1];
                if unit.get_key() == probe {
                    return None;
                }
                let local = match unit.offset {
                    Some(base) => {
                        if base > offset {
                            return None;
                        }
                        offset - base
                    },
                    None => offset,
                };
                match unit.find_entry(local) {
                    Some(e) => Some((unit, e)),
                    None => None,
                }
            },
        }
    }
}

} // verus!
