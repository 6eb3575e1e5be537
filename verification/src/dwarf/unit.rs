//! One compilation unit of the debug information.
//!
//! A unit holds its entries in one array, in the order of the debug
//! information, and a tree over them by index: every entry names its parent
//! and its children. Beside the tree stand three tables sorted by address:
//! the unit's own ranges, the ranges of its entries, and the rows of its line
//! program.

use crate::address::GlobalAddress;
use vstd::prelude::*;

verus! {

/// Something that a table is sorted by.
pub trait Keyed {
    spec fn key(&self) -> u64;

    fn get_key(&self) -> (k: u64)
        ensures
            k == self.key(),
    ;
}

/// The table is in ascending order of its keys.
pub open spec fn sorted_by_key<T: Keyed>(s: Seq<T>) -> bool {
    forall|i: int, j: int| 0 <= i <= j < s.len() ==> s[i].key() <= s[j].key()
}

/// How many rows of a sorted table have a key of at most `k`: the rows
/// before the result do, the rows from it on do not.
pub fn upper_bound<T: Keyed>(table: &Vec<T>, k: u64) -> (r: usize)
    requires
        sorted_by_key(table@),
    ensures
        r <= table@.len(),
        forall|i: int| 0 <= i < r ==> table@[i].key() <= k,
        forall|i: int| r <= i < table@.len() ==> table@[i].key() > k,
{
    let mut lo: usize = 0;
    let mut hi: usize = table.len();
    while lo < hi
        invariant
            lo <= hi <= table@.len(),
            sorted_by_key(table@),
            forall|i: int| 0 <= i < lo ==> table@[i].key() <= k,
            forall|i: int| hi <= i < table@.len() ==> table@[i].key() > k,
        decreases hi - lo,
    {
        let mid = lo + (hi - lo) / 2;
        if table[mid].get_key() <= k {
            lo = mid + 1;
        } else {
            hi = mid;
        }
    }
    lo
}

/// A range of addresses: from `begin` up to, and not including, `end`.
#[derive(Clone, Copy, Debug, PartialEq, Eq, Structural)]
pub struct Range {
    pub begin: u64,
    pub end: u64,
}

impl Range {
    pub open spec fn covers(&self, pc: u64) -> bool {
        self.begin <= pc < self.end
    }

    #[verifier::when_used_as_spec(covers)]
    pub fn contains(&self, pc: u64) -> (r: bool)
        ensures
            r == self.covers(pc),
    {
        self.begin <= pc && pc < self.end
    }
}

impl Keyed for Range {
    open spec fn key(&self) -> u64 {
        self.begin
    }

    fn get_key(&self) -> (k: u64) {
        self.begin
    }
}

/// Some range of `ranges` covers `pc`.
pub open spec fn any_covers(ranges: Seq<Range>, pc: u64) -> bool {
    exists|i: int| 0 <= i < ranges.len() && (#[trigger] ranges[i]).covers(pc)
}

/// Whether some range of a list covers `pc`.
pub fn ranges_cover(ranges: &Vec<Range>, pc: u64) -> (r: bool)
    ensures
        r == any_covers(ranges@, pc),
{
    let mut i: usize = 0;
    while i < ranges.len()
        invariant
            i <= ranges@.len(),
            forall|k: int| 0 <= k < i ==> !(#[trigger] ranges@[k]).covers(pc),
        decreases ranges.len() - i,
    {
        if ranges[i].contains(pc) {
            return true;
        }
        i += 1;
    }
    false
}

/// The range of one entry.
#[derive(Clone, Copy, Debug, PartialEq, Eq, Structural)]
pub struct DieRange {
    pub range: Range,
    /// The entry, as an index of the unit's entries.
    pub die_idx: usize,
}

impl Keyed for DieRange {
    open spec fn key(&self) -> u64 {
        self.range.begin
    }

    fn get_key(&self) -> (k: u64) {
        self.range.begin
    }
}

/// One row of the line program.
#[derive(Clone, Copy, Debug, PartialEq, Eq, Structural)]
pub struct LineRow {
    pub address: u64,
    /// The source file, as an index of the unit's files.
    pub file_index: usize,
    pub line: u64,
    pub column: u64,
    /// Whether a statement begins here.
    pub is_stmt: bool,
}

impl Keyed for LineRow {
    open spec fn key(&self) -> u64 {
        self.address
    }

    fn get_key(&self) -> (k: u64) {
        self.address
    }
}

/// The last row before `upto` of a line program that stands at or before
/// `pc`; -1 if there is none.
pub open spec fn last_row(lines: Seq<LineRow>, pc: u64, upto: int) -> int
    decreases upto,
{
    if upto <= 0 || upto > lines.len() {
        -1
    } else if lines[upto - 1].address <= pc {
        upto - 1
    } else {
        last_row(lines, pc, upto - 1)
    }
}

/// In a sorted line program the rows at or before `pc` come first.
pub proof fn lemma_last_row(lines: Seq<LineRow>, pc: u64, pos: int, upto: int)
    requires
        0 <= pos <= upto <= lines.len(),
        forall|i: int| pos <= i < lines.len() ==> lines[i].key() > pc,
        forall|i: int| 0 <= i < pos ==> lines[i].key() <= pc,
    ensures
        last_row(lines, pc, upto) == pos - 1,
    decreases upto - pos,
{
    if pos < upto {
        assert(lines[upto - 1].key() > pc);
        lemma_last_row(lines, pc, pos, upto - 1);
    } else if pos > 0 {
        assert(lines[pos - 1].key() <= pc);
    }
}

/// A place in the source, with the address that it was found for.
#[derive(Clone, Copy, Debug)]
pub struct Place<'a> {
    pub file: &'a String,
    pub address: GlobalAddress,
    pub line_number: u64,
    pub column_number: u64,
    pub is_stmt: bool,
    /// The row of the line program, as an index of the unit's rows.
    pub pos_in_unit: usize,
}

/// A reference from one entry to another.
#[derive(Clone, Copy, Debug, PartialEq, Eq, Structural)]
pub enum DieRef {
    /// By the offset in the unit that holds the reference.
    Unit(usize),
    /// By the offset in the whole debug information.
    Global(usize),
}

/// The value of an attribute, as far as the debugger reads it.
#[derive(Clone, Debug)]
pub enum Attribute {
    /// A location expression, as its bytes.
    Exprloc(Vec<u8>),
    /// Some other form.
    Other,
}

impl Attribute {
    /// The bytes of the expression, if the attribute is one.
    pub open spec fn expression(&self) -> Option<Seq<u8>> {
        match self {
            Attribute::Exprloc(bytes) => Some(bytes@),
            Attribute::Other => None,
        }
    }

    pub fn exprloc_value(&self) -> (r: Option<&Vec<u8>>)
        ensures
            r is Some == self.expression() is Some,
            r matches Some(bytes) ==> Some(bytes@) == self.expression(),
    {
        match self {
            Attribute::Exprloc(bytes) => Some(bytes),
            Attribute::Other => None,
        }
    }
}

/// Where an entry stands in the tree of its unit.
#[derive(Clone, Debug)]
pub struct Node {
    pub parent: Option<usize>,
    pub children: Vec<usize>,
}

#[derive(Clone, Debug)]
pub struct FunctionDie {
    pub name: Option<String>,
    /// The namespaces that enclose the function, outermost first.
    pub namespace: Vec<String>,
    pub ranges: Vec<Range>,
    /// How to compute the frame base.
    pub fb_addr: Option<Attribute>,
}

#[derive(Clone, Debug)]
pub struct LexicalBlockDie {
    pub ranges: Vec<Range>,
}

#[derive(Clone, Debug)]
pub struct VariableDie {
    pub name: Option<String>,
    pub type_ref: Option<DieRef>,
    pub location: Option<Attribute>,
    /// The innermost lexical block around the variable, as an index of the unit's entries.
    pub lexical_block_idx: Option<usize>,
}

#[derive(Clone, Debug)]
pub struct BaseTypeDie {
    pub name: Option<String>,
    pub byte_size: Option<u64>,
}

#[derive(Clone, Debug)]
pub struct StructTypeDie {
    pub name: Option<String>,
    pub byte_size: Option<u64>,
}

#[derive(Clone, Debug)]
pub struct TypeMemberDie {
    pub name: Option<String>,
    pub type_ref: Option<DieRef>,
    /// Where the member lies in its structure, in bytes.
    pub offset: Option<u64>,
}

#[derive(Clone, Debug)]
pub struct ArrayDie {
    pub type_ref: Option<DieRef>,
    pub byte_size: Option<u64>,
}

#[derive(Clone, Copy, Debug)]
pub struct ArraySubrangeDie {
    pub lower_bound: Option<i64>,
    pub upper_bound: Option<i64>,
}

#[derive(Clone, Debug)]
pub struct EnumTypeDie {
    pub name: Option<String>,
    pub type_ref: Option<DieRef>,
    pub byte_size: Option<u64>,
}

#[derive(Clone, Debug)]
pub struct EnumeratorDie {
    pub name: Option<String>,
    pub const_value: Option<i64>,
}

#[derive(Clone, Debug)]
pub struct PointerTypeDie {
    pub name: Option<String>,
    pub type_ref: Option<DieRef>,
}

/// An entry by its kind.
#[derive(Clone, Debug)]
pub enum DieVariant {
    Function(FunctionDie),
    LexicalBlock(LexicalBlockDie),
    Variable(VariableDie),
    BaseType(BaseTypeDie),
    StructType(StructTypeDie),
    TypeMember(TypeMemberDie),
    ArrayType(ArrayDie),
    ArraySubrange(ArraySubrangeDie),
    EnumType(EnumTypeDie),
    Enumerator(EnumeratorDie),
    PointerType(PointerTypeDie),
    /// An entry of a kind that the debugger does not read.
    Default,
}

#[derive(Clone, Debug)]
pub struct Entry {
    pub die: DieVariant,
    pub node: Node,
    /// Where the entry begins, counted from the beginning of its unit.
    pub offset: usize,
}

#[derive(Clone, Debug)]
pub struct Unit {
    /// Where the unit begins in the debug information.
    pub offset: Option<usize>,
    /// The addresses that the unit's code takes up, sorted by their beginning.
    pub ranges: Vec<Range>,
    /// The addresses of the entries, sorted by their beginning.
    pub die_ranges: Vec<DieRange>,
    pub entries: Vec<Entry>,
    /// The rows of the line program, sorted by address.
    pub lines: Vec<LineRow>,
    /// The names of the source files that the rows speak of.
    pub files: Vec<String>,
}

impl Keyed for Unit {
    /// Units are ordered by where they begin; one that does not say so comes first.
    open spec fn key(&self) -> u64 {
        match self.offset {
            Some(offset) => if offset < u64::MAX {
                (offset + 1) as u64
            } else {
                u64::MAX
            },
            None => 0,
        }
    }

    fn get_key(&self) -> (k: u64) {
        match self.offset {
            Some(offset) => if (offset as u64) < u64::MAX {
                offset as u64 + 1
            } else {
                u64::MAX
            },
            None => 0,
        }
    }
}

/// The children of entry `i` come after it, in ascending order, and name it
/// as their parent.
pub open spec fn children_ok(entries: Seq<Entry>, i: int) -> bool {
    let children = entries[i].node.children@;
    &&& forall|k: int|
        0 <= k < children.len() ==> i < (#[trigger] children[k]) < entries.len()
            && entries[children[k] as int].node.parent == Some(i as usize)
    &&& forall|k: int, l: int| 0 <= k < l < children.len() ==> children[k] < children[l]
}

/// The parent of entry `i` comes before it and lists it as a child.
pub open spec fn parent_ok(entries: Seq<Entry>, i: int) -> bool {
    entries[i].node.parent matches Some(p) ==> p < i && entries[p as int].node.children@.contains(
        i as usize,
    )
}

/// An entry that names a lexical block names an entry that is one.
pub open spec fn block_ok(entries: Seq<Entry>, i: int) -> bool {
    entries[i].die matches DieVariant::Variable(var) ==> (var.lexical_block_idx matches Some(block)
        ==> block < entries.len() && entries[block as int].die is LexicalBlock)
}

/// Entry `i` lies below entry `ancestor` in the tree.
pub open spec fn descends(entries: Seq<Entry>, ancestor: int, i: int) -> bool
    decreases i,
{
    if 0 <= i < entries.len() {
        match entries[i].node.parent {
            Some(p) => p < i && (p == ancestor || descends(entries, ancestor, p as int)),
            None => false,
        }
    } else {
        false
    }
}

/// Entry `i` is one of `roots` or lies below one of them.
pub open spec fn within(entries: Seq<Entry>, roots: Seq<usize>, i: int) -> bool {
    exists|k: int|
        0 <= k < roots.len() && (#[trigger] roots[k] == i || descends(entries, roots[k] as int, i))
}

/// How far the climb from `from` towards the root still has to go.
pub open spec fn height(from: Option<usize>) -> int {
    match from {
        Some(i) => i + 1,
        None => 0,
    }
}

/// The parent of entry `i`, where it comes before `i`.
pub open spec fn step_up(entries: Seq<Entry>, i: usize) -> Option<usize> {
    match entries[i as int].node.parent {
        Some(p) => if p < i {
            Some(p)
        } else {
            None
        },
        None => None,
    }
}

/// The innermost lexical block at or above entry `from`, looked for up to
/// the nearest function. An index that names no entry ends the climb.
pub open spec fn block_above(entries: Seq<Entry>, from: Option<usize>) -> Option<usize>
    decreases height(from),
{
    match from {
        None => None,
        Some(i) => if i < entries.len() {
            match entries[i as int].die {
                DieVariant::LexicalBlock(_) => Some(i),
                DieVariant::Function(_) => None,
                _ => block_above(entries, step_up(entries, i)),
            }
        } else {
            None
        },
    }
}

/// The names of the scopes from entry `from` up to the root, innermost
/// first. `names` holds, for each entry, the name it gives to what lies
/// below it, if it gives one.
pub open spec fn scopes_up(
    entries: Seq<Entry>,
    names: Seq<Option<String>>,
    from: Option<usize>,
) -> Seq<String>
    decreases height(from),
{
    match from {
        None => Seq::empty(),
        Some(i) => if i < entries.len() && i < names.len() {
            let rest = scopes_up(entries, names, step_up(entries, i));
            match names[i as int] {
                Some(name) => seq![name] + rest,
                None => rest,
            }
        } else {
            Seq::empty()
        },
    }
}

/// The lexical block that a variable below entry `parent` belongs to.
pub fn enclosing_block(entries: &Vec<Entry>, parent: Option<usize>) -> (r: Option<usize>)
    ensures
        r == block_above(entries@, parent),
{
    let mut at = parent;
    loop
        invariant
            block_above(entries@, at) == block_above(entries@, parent),
        decreases height(at),
    {
        let i: usize = match at {
            Some(i) => i,
            None => {
                return None;
            },
        };
        if i >= entries.len() {
            return None;
        }
        match &entries[i].die {
            DieVariant::LexicalBlock(_) => {
                return Some(i);
            },
            DieVariant::Function(_) => {
                return None;
            },
            _ => {},
        }
        match entries[i].node.parent {
            Some(p) => {
                if p < i {
                    at = Some(p);
                } else {
                    return None;
                }
            },
            None => {
                return None;
            },
        }
    }
}

/// The namespace of an entry below entry `parent`: the names of the scopes
/// around it, outermost first.
pub fn enclosing_scopes(
    entries: &Vec<Entry>,
    names: &Vec<Option<String>>,
    parent: Option<usize>,
) -> (r: Vec<String>)
    ensures
        r@ == scopes_up(entries@, names@, parent).reverse(),
{
    let mut inner: Vec<String> = Vec::new();
    let mut at = parent;
    loop
        invariant
            inner@ + scopes_up(entries@, names@, at) == scopes_up(entries@, names@, parent),
        ensures
            inner@ == scopes_up(entries@, names@, parent),
        decreases height(at),
    {
        let i: usize = match at {
            Some(i) => i,
            None => {
                assert(inner@ + Seq::<String>::empty() =~= inner@);
                break ;
            },
        };
        if i >= entries.len() || i >= names.len() {
            assert(inner@ + Seq::<String>::empty() =~= inner@);
            break ;
        }
        let ghost before = inner@;
        let ghost rest = scopes_up(entries@, names@, step_up(entries@, i));
        match &names[i] {
            Some(name) => {
                inner.push(name.clone());
                assert(inner@ + rest =~= before + (seq![*name] + rest));
            },
            None => {},
        }
        match entries[i].node.parent {
            Some(p) => {
                if p < i {
                    at = Some(p);
                } else {
                    at = None;
                }
            },
            None => {
                at = None;
            },
        }
    }
    let mut outer: Vec<String> = Vec::new();
    let mut k: usize = inner.len();
    while k > 0
        invariant
            k <= inner@.len(),
            outer@.len() == inner@.len() - k,
            forall|j: int| 0 <= j < outer@.len() ==> outer@[j] == inner@[inner@.len() - 1 - j],
        decreases k,
    {
        k -= 1;
        outer.push(inner[k].clone());
    }
    assert(outer@ =~= inner@.reverse());
    outer
}

impl Unit {
    /// The tables are sorted and every index they hold is in range.
    pub open spec fn tables_ok(&self) -> bool {
        &&& sorted_by_key(self.ranges@)
        &&& sorted_by_key(self.die_ranges@)
        &&& sorted_by_key(self.lines@)
        &&& forall|k: int|
            0 <= k < self.die_ranges@.len() ==> (#[trigger] self.die_ranges@[k]).die_idx
                < self.entries@.len()
        &&& forall|k: int|
            0 <= k < self.lines@.len() ==> (#[trigger] self.lines@[k]).file_index
                < self.files@.len()
    }

    /// The entries form a tree in which parents and children agree.
    pub open spec fn tree_ok(&self) -> bool {
        forall|i: int|
            0 <= i < self.entries@.len() ==> #[trigger] children_ok(self.entries@, i) && parent_ok(
                self.entries@,
                i,
            ) && block_ok(self.entries@, i)
    }

    /// The unit is well formed.
    pub open spec fn wf(&self) -> bool {
        self.tables_ok() && self.tree_ok()
    }

    /// Some range of the unit covers `pc`.
    pub open spec fn covers(&self, pc: u64) -> bool {
        any_covers(self.ranges@, pc)
    }

    /// Whether the unit's code holds `pc`: the ranges that begin at or
    /// before `pc` are looked through from the last one back.
    pub fn contains_pc(&self, pc: u64) -> (r: bool)
        requires
            sorted_by_key(self.ranges@),
        ensures
            r == self.covers(pc),
    {
        let pos = upper_bound(&self.ranges, pc);
        let mut i: usize = pos;
        while i > 0
            invariant
                i <= pos <= self.ranges@.len(),
                forall|k: int| i <= k < pos ==> !(#[trigger] self.ranges@[k]).covers(pc),
                forall|k: int| pos <= k < self.ranges@.len() ==> self.ranges@[k].key() > pc,
            decreases i,
        {
            i -= 1;
            if self.ranges[i].contains(pc) {
                return true;
            }
        }
        assert forall|k: int| 0 <= k < self.ranges@.len() implies !(
        #[trigger] self.ranges@[k]).covers(pc) by {
            if k >= pos {
                assert(self.ranges@[k].key() > pc);
            }
        }
        false
    }

    /// `place` is what row `pos` of the line program says.
    pub open spec fn is_place(&self, place: Place<'_>, pos: int) -> bool {
        &&& 0 <= pos < self.lines@.len()
        &&& self.lines@[pos].file_index < self.files@.len()
        &&& place.pos_in_unit == pos
        &&& place.address.0 == self.lines@[pos].address
        &&& place.line_number == self.lines@[pos].line
        &&& place.column_number == self.lines@[pos].column
        &&& place.is_stmt == self.lines@[pos].is_stmt
        &&& *place.file == self.files@[self.lines@[pos].file_index as int]
    }

    /// Row `pos` of the line program is a statement of line `line` of the file `file`.
    pub open spec fn is_stmt_row(&self, pos: int, file: Seq<char>, line: u64) -> bool {
        &&& self.lines@[pos].is_stmt
        &&& self.lines@[pos].line == line
        &&& self.lines@[pos].file_index < self.files@.len()
        &&& self.files@[self.lines@[pos].file_index as int]@ == file
        &&& self.lines@[pos].address <= usize::MAX
    }

    /// The place of row `pos` of the line program. There is none where the
    /// row names no file, or an address that this machine does not have.
    pub fn find_place_by_idx(&self, pos: usize) -> (r: Option<Place<'_>>)
        ensures
            r is Some == (pos < self.lines@.len() && self.lines@[pos as int].file_index
                < self.files@.len() && self.lines@[pos as int].address <= usize::MAX),
            r matches Some(place) ==> self.is_place(place, pos as int),
    {
        if pos >= self.lines.len() {
            return None;
        }
        let row = self.lines[pos];
        if row.file_index >= self.files.len() {
            return None;
        }
        if row.address > usize::MAX as u64 {
            return None;
        }
        Some(
            Place {
                file: &self.files[row.file_index],
                address: GlobalAddress(row.address as usize),
                line_number: row.line,
                column_number: row.column,
                is_stmt: row.is_stmt,
                pos_in_unit: pos,
            },
        )
    }
}

impl Unit {
    /// The place that `pc` belongs to: that of the last row of the line
    /// program at or before `pc`.
    pub fn find_place_by_pc(&self, pc: u64) -> (r: Option<Place<'_>>)
        requires
            self.tables_ok(),
            pc <= usize::MAX,
        ensures
            match r {
                Some(place) => self.is_place(place, place.pos_in_unit as int)
                    && place.pos_in_unit == last_row(self.lines@, pc, self.lines@.len() as int)
                    && self.lines@[place.pos_in_unit as int].address <= pc && forall|j: int|
                    place.pos_in_unit < j < self.lines@.len() ==> (#[trigger] self.lines@[j]).address
                        > pc,
                None => last_row(self.lines@, pc, self.lines@.len() as int) == -1 && forall|j: int|
                    0 <= j < self.lines@.len() ==> (#[trigger] self.lines@[j]).address > pc,
            },
    {
        let pos = upper_bound(&self.lines, pc);
        proof {
            lemma_last_row(self.lines@, pc, pos as int, self.lines@.len() as int);
        }
        if pos == 0 {
            assert forall|j: int| 0 <= j < self.lines@.len() implies (
            #[trigger] self.lines@[j]).address > pc by {
                assert(self.lines@[j].key() > pc);
            }
            return None;
        }
        assert(self.lines@[pos - 1].key() <= pc);
        assert forall|j: int| pos - 1 < j < self.lines@.len() implies (
        #[trigger] self.lines@[j]).address > pc by {
            assert(self.lines@[j].key() > pc);
        }
        self.find_place_by_idx(pos - 1)
    }

    /// The place at which line `line` of the file `file` begins: that of the
    /// first row of the line program that is a statement of that line.
    pub fn find_stmt_line(&self, file: &str, line: u64) -> (r: Option<Place<'_>>)
        ensures
            match r {
                Some(place) => self.is_place(place, place.pos_in_unit as int) && self.is_stmt_row(
                    place.pos_in_unit as int,
                    file@,
                    line,
                ) && forall|j: int|
                    0 <= j < place.pos_in_unit ==> !self.is_stmt_row(j, file@, line),
                None => forall|j: int|
                    0 <= j < self.lines@.len() ==> !self.is_stmt_row(j, file@, line),
            },
    {
        let wanted = file.to_owned();
        let mut i: usize = 0;
        while i < self.lines.len()
            invariant
                i <= self.lines@.len(),
                wanted@ == file@,
                forall|j: int| 0 <= j < i ==> !self.is_stmt_row(j, file@, line),
            decreases self.lines.len() - i,
        {
            let row = self.lines[i];
            if row.is_stmt && row.line == line && row.file_index < self.files.len()
                && row.address <= usize::MAX as u64 {
                if self.files[row.file_index] == wanted {
                    return self.find_place_by_idx(i);
                }
            }
            i += 1;
        }
        None
    }

    /// The first entry at or after `from` that begins at `offset` of the
    /// unit; the number of entries if there is none.
    pub open spec fn entry_from(&self, offset: usize, from: int) -> int
        decreases self.entries@.len() - from,
    {
        if from < 0 || from >= self.entries@.len() {
            self.entries@.len() as int
        } else if self.entries@[from].offset == offset {
            from
        } else {
            self.entry_from(offset, from + 1)
        }
    }

    /// The first entry that begins at `offset` of the unit.
    pub open spec fn entry_at(&self, offset: usize) -> Option<int> {
        if self.entry_from(offset, 0) < self.entries@.len() {
            Some(self.entry_from(offset, 0))
        } else {
            None
        }
    }

    /// The entry that begins at `offset` of the unit, as an index of the
    /// unit's entries: the first such entry.
    pub fn find_entry(&self, offset: usize) -> (r: Option<usize>)
        ensures
            match r {
                Some(i) => self.entry_at(offset) == Some(i as int) && i < self.entries@.len(),
                None => self.entry_at(offset) is None,
            },
    {
        let mut i: usize = 0;
        while i < self.entries.len()
            invariant
                i <= self.entries@.len(),
                self.entry_from(offset, 0) == self.entry_from(offset, i as int),
            decreases self.entries.len() - i,
        {
            if self.entries[i].offset == offset {
                return Some(i);
            }
            i += 1;
        }
        None
    }
}

/// Whether a table is in ascending order of its keys.
pub fn is_sorted<T: Keyed>(table: &Vec<T>) -> (r: bool)
    ensures
        r == sorted_by_key(table@),
{
    if table.len() < 2 {
        return true;
    }
    let mut i: usize = 1;
    while i < table.len()
        invariant
            1 <= i <= table@.len(),
            forall|a: int, b: int| 0 <= a <= b < i ==> table@[a].key() <= table@[b].key(),
        decreases table.len() - i,
    {
        if table[i - 1].get_key() > table[i].get_key() {
            return false;
        }
        assert forall|a: int, b: int| 0 <= a <= b < i + 1 implies table@[a].key()
            <= table@[b].key() by {
            if b == i && a < i {
                assert(table@[a].key() <= table@[i - 1].key());
            }
        }
        i += 1;
    }
    true
}

impl Unit {
    fn check_tables(&self) -> (r: bool)
        ensures
            r == self.tables_ok(),
    {
        if !is_sorted(&self.ranges) || !is_sorted(&self.die_ranges) || !is_sorted(&self.lines) {
            return false;
        }
        let mut k: usize = 0;
        while k < self.die_ranges.len()
            invariant
                k <= self.die_ranges@.len(),
                forall|j: int|
                    0 <= j < k ==> (#[trigger] self.die_ranges@[j]).die_idx < self.entries@.len(),
            decreases self.die_ranges.len() - k,
        {
            if self.die_ranges[k].die_idx >= self.entries.len() {
                return false;
            }
            k += 1;
        }
        let mut l: usize = 0;
        while l < self.lines.len()
            invariant
                l <= self.lines@.len(),
                forall|j: int|
                    0 <= j < l ==> (#[trigger] self.lines@[j]).file_index < self.files@.len(),
            decreases self.lines.len() - l,
        {
            if self.lines[l].file_index >= self.files.len() {
                return false;
            }
            l += 1;
        }
        true
    }

    fn check_children(&self, i: usize) -> (r: bool)
        requires
            i < self.entries@.len(),
        ensures
            r == children_ok(self.entries@, i as int),
    {
        let children = &self.entries[i].node.children;
        let mut k: usize = 0;
        while k < children.len()
            invariant
                i < self.entries@.len(),
                children@ == self.entries@[i as int].node.children@,
                k <= children@.len(),
                forall|j: int|
                    0 <= j < k ==> i < (#[trigger] children@[j]) < self.entries@.len()
                        && self.entries@[children@[j] as int].node.parent == Some(i),
                forall|a: int, b: int| 0 <= a < b < k ==> children@[a] < children@[b],
            decreases children.len() - k,
        {
            let c = children[k];
            if c <= i || c >= self.entries.len() {
                return false;
            }
            match self.entries[c].node.parent {
                Some(p) => {
                    if p != i {
                        return false;
                    }
                },
                None => {
                    return false;
                },
            }
            if k > 0 {
                if children[k - 1] >= c {
                    return false;
                }
                assert forall|a: int, b: int| 0 <= a < b < k + 1 implies children@[a]
                    < children@[b] by {
                    if b == k && a < k - 1 {
                        assert(children@[a] < children@[k - 1]);
                    }
                }
            }
            k += 1;
        }
        true
    }

    fn check_parent(&self, i: usize) -> (r: bool)
        requires
            i < self.entries@.len(),
        ensures
            r == parent_ok(self.entries@, i as int),
    {
        match self.entries[i].node.parent {
            None => true,
            Some(p) => {
                if p >= i {
                    return false;
                }
                let siblings = &self.entries[p].node.children;
                let mut k: usize = 0;
                while k < siblings.len()
                    invariant
                        p < i < self.entries@.len(),
                        self.entries@[i as int].node.parent == Some(p),
                        siblings@ == self.entries@[p as int].node.children@,
                        k <= siblings@.len(),
                        forall|j: int| 0 <= j < k ==> siblings@[j] != i,
                    decreases siblings.len() - k,
                {
                    if siblings[k] == i {
                        assert(siblings@[k as int] == i);
                        return true;
                    }
                    k += 1;
                }
                assert(!siblings@.contains(i));
                false
            },
        }
    }

    fn check_block(&self, i: usize) -> (r: bool)
        requires
            i < self.entries@.len(),
        ensures
            r == block_ok(self.entries@, i as int),
    {
        match &self.entries[i].die {
            DieVariant::Variable(var) => match var.lexical_block_idx {
                Some(block) => {
                    if block >= self.entries.len() {
                        return false;
                    }
                    match &self.entries[block].die {
                        DieVariant::LexicalBlock(_) => true,
                        _ => false,
                    }
                },
                None => true,
            },
            _ => true,
        }
    }

    /// Whether the unit is well formed.
    pub fn is_well_formed(&self) -> (r: bool)
        ensures
            r == self.wf(),
    {
        if !self.check_tables() {
            return false;
        }
        let mut i: usize = 0;
        while i < self.entries.len()
            invariant
                i <= self.entries@.len(),
                forall|j: int|
                    0 <= j < i ==> #[trigger] children_ok(self.entries@, j) && parent_ok(
                        self.entries@,
                        j,
                    ) && block_ok(self.entries@, j),
            decreases self.entries.len() - i,
        {
            let children = self.check_children(i);
            let parent = self.check_parent(i);
            let block = self.check_block(i);
            if !(children && parent && block) {
                assert(!(children_ok(self.entries@, i as int) && parent_ok(
                    self.entries@,
                    i as int,
                ) && block_ok(self.entries@, i as int)));
                return false;
            }
            assert forall|j: int| 0 <= j < i + 1 implies #[trigger] children_ok(
                self.entries@,
                j,
            ) && parent_ok(self.entries@, j) && block_ok(self.entries@, j) by {
                if j == i {
                    assert(children_ok(self.entries@, i as int));
                    assert(parent_ok(self.entries@, i as int));
                    assert(block_ok(self.entries@, i as int));
                }
            }
            i += 1;
        }
        true
    }
}

} // verus!
