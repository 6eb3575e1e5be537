//! An entry of the debug information together with the unit and the context
//! that it belongs to.

use crate::dwarf::types::{collect_enumerators, collect_members, TypeDeclaration};
use crate::dwarf::unit::{
    any_covers, children_ok, descends, parent_ok, ranges_cover, within, DieVariant, Entry,
    FunctionDie, Node, Place, Unit, VariableDie,
};
use crate::dwarf::DebugeeContext;
use std::collections::VecDeque;
use vstd::prelude::*;

verus! {

/// The variable is live at `pc`: it stands in no lexical block, or in one
/// that covers `pc`.
pub open spec fn variable_valid_at(entries: Seq<Entry>, var: VariableDie, pc: u64) -> bool {
    match var.lexical_block_idx {
        Some(block) => block < entries.len() && (entries[block as int].die matches DieVariant::LexicalBlock(
            b,
        ) && any_covers(b.ranges@, pc)),
        None => true,
    }
}

/// Entry `i` is a variable that is live at `pc`.
pub open spec fn is_live_variable(entries: Seq<Entry>, i: int, pc: u64) -> bool {
    0 <= i < entries.len() && (entries[i].die matches DieVariant::Variable(var)
        && variable_valid_at(entries, var, pc))
}

/// How many entries the subtree of entry `i` holds.
pub open spec fn subtree_size(entries: Seq<Entry>, i: int) -> nat
    decreases entries.len() - i, 0int,
{
    if 0 <= i < entries.len() {
        1 + forest_size(entries, i, entries[i].node.children@.len() as int)
    } else {
        0
    }
}

/// How many entries the subtrees of the first `upto` children of entry
/// `parent` hold; only children that come after their parent count.
pub open spec fn forest_size(entries: Seq<Entry>, parent: int, upto: int) -> nat
    decreases entries.len() - parent - 1, upto + 1,
{
    if 0 <= parent < entries.len() && 0 < upto <= entries[parent].node.children@.len() {
        let child = entries[parent].node.children@[upto - 1];
        forest_size(entries, parent, upto - 1) + if parent < child < entries.len() {
            subtree_size(entries, child as int)
        } else {
            0
        }
    } else {
        0
    }
}

/// How many entries the subtrees of the entries in `queue` hold together.
pub open spec fn queue_weight(entries: Seq<Entry>, queue: Seq<usize>) -> nat
    decreases queue.len(),
{
    if queue.len() == 0 {
        0
    } else {
        queue_weight(entries, queue.drop_last()) + subtree_size(entries, queue.last() as int)
    }
}

/// The children of entry `i`; an index that is no entry has none.
pub open spec fn children_of(entries: Seq<Entry>, i: int) -> Seq<usize> {
    if 0 <= i < entries.len() {
        entries[i].node.children@
    } else {
        Seq::empty()
    }
}

/// The live variables that a walk finds which has `queue` ahead of it and
/// goes on for `steps` entries: the entry at the head of the queue is
/// looked at, and its children join the queue at the end.
pub open spec fn walk_from(entries: Seq<Entry>, queue: Seq<usize>, pc: u64, steps: nat) -> Seq<
    usize,
>
    decreases steps,
{
    if steps == 0 || queue.len() == 0 {
        Seq::empty()
    } else {
        let head = queue[0];
        let ahead = queue.subrange(1, queue.len() as int) + children_of(entries, head as int);
        let rest = walk_from(entries, ahead, pc, (steps - 1) as nat);
        if is_live_variable(entries, head as int, pc) {
            seq![head] + rest
        } else {
            rest
        }
    }
}

/// The live variables among `roots` and the entries below them, in the
/// order in which a walk by levels meets them: first the roots, then their
/// children, and so on.
pub open spec fn breadth_first(entries: Seq<Entry>, roots: Seq<usize>, pc: u64) -> Seq<usize> {
    walk_from(entries, roots, pc, queue_weight(entries, roots))
}

proof fn lemma_weight_push(entries: Seq<Entry>, queue: Seq<usize>, x: usize)
    ensures
        queue_weight(entries, queue.push(x)) == queue_weight(entries, queue) + subtree_size(
            entries,
            x as int,
        ),
{
    assert(queue.push(x).drop_last() =~= queue);
}

proof fn lemma_weight_pop_front(entries: Seq<Entry>, queue: Seq<usize>)
    requires
        queue.len() > 0,
    ensures
        queue_weight(entries, queue.subrange(1, queue.len() as int)) + subtree_size(
            entries,
            queue[0] as int,
        ) == queue_weight(entries, queue),
    decreases queue.len(),
{
    let rest = queue.subrange(1, queue.len() as int);
    if queue.len() == 1 {
        assert(queue.drop_last() =~= Seq::<usize>::empty());
        assert(rest =~= Seq::<usize>::empty());
    } else {
        lemma_weight_pop_front(entries, queue.drop_last());
        assert(queue.drop_last().subrange(1, queue.len() - 1) =~= rest.drop_last());
        assert(rest.last() == queue.last());
        assert(queue.drop_last()[0] == queue[0]);
    }
}

/// An entry below `q` is a child of `q` or lies below one.
proof fn lemma_descends_via_child(entries: Seq<Entry>, q: int, i: int)
    requires
        entries.len() <= usize::MAX,
        forall|x: int| 0 <= x < entries.len() ==> parent_ok(entries, x),
        descends(entries, q, i),
    ensures
        0 <= q < entries.len(),
        exists|m: int|
            0 <= m < entries[q].node.children@.len() && (
            #[trigger] entries[q].node.children@[m] == i || descends(
                entries,
                entries[q].node.children@[m] as int,
                i,
            )),
    decreases i,
{
    let p = entries[i].node.parent->0 as int;
    assert(parent_ok(entries, i));
    if p == q {
        let children = entries[q].node.children@;
        assert(children.contains(i as usize));
        let m = choose|m: int| 0 <= m < children.len() && children[m] == i as usize;
        assert(entries[q].node.children@[m] == i);
    } else {
        lemma_descends_via_child(entries, q, p);
        let m = choose|m: int|
            0 <= m < entries[q].node.children@.len() && (
            #[trigger] entries[q].node.children@[m] == p || descends(
                entries,
                entries[q].node.children@[m] as int,
                p,
            ));
        assert(descends(entries, entries[q].node.children@[m] as int, i));
    }
}

/// Whether a variable is live at `pc`.
pub fn variable_is_valid(unit: &Unit, var: &VariableDie, pc: u64) -> (r: bool)
    ensures
        r == variable_valid_at(unit.entries@, *var, pc),
{
    match var.lexical_block_idx {
        Some(block) => {
            if block < unit.entries.len() {
                match &unit.entries[block].die {
                    DieVariant::LexicalBlock(b) => ranges_cover(&b.ranges, pc),
                    _ => false,
                }
            } else {
                false
            }
        },
        None => true,
    }
}

/// The variables that are live at `pc` among `roots` and the entries below
/// them, as indices of the unit's entries. The tree is gone through breadth
/// first.
pub fn live_variables(unit: &Unit, roots: &Vec<usize>, pc: u64) -> (r: Vec<usize>)
    requires
        unit.wf(),
        forall|k: int| 0 <= k < roots@.len() ==> roots@[k] < unit.entries@.len(),
    ensures
        r@ == breadth_first(unit.entries@, roots@, pc),
        forall|k: int|
            0 <= k < r@.len() ==> within(unit.entries@, roots@, #[trigger] r@[k] as int)
                && is_live_variable(unit.entries@, r@[k] as int, pc),
        forall|i: int|
            within(unit.entries@, roots@, i) && is_live_variable(unit.entries@, i, pc)
                ==> r@.contains(i as usize),
{
    let ghost entries = unit.entries@;
    assert(unit.entries.len() <= usize::MAX);
    let mut queue: VecDeque<usize> = VecDeque::new();
    let mut n: usize = 0;
    while n < roots.len()
        invariant
            n <= roots@.len(),
            queue@ == roots@.take(n as int),
        decreases roots.len() - n,
    {
        queue.push_back(roots[n]);
        assert(roots@.take(n as int).push(roots@[n as int]) =~= roots@.take(n + 1));
        n += 1;
    }
    assert(roots@.take(roots@.len() as int) =~= roots@);
    let mut result: Vec<usize> = Vec::new();
    assert forall|k: int| 0 <= k < queue@.len() implies within(
        entries,
        roots@,
        #[trigger] queue@[k] as int,
    ) by {
        assert(roots@[k] == queue@[k]);
    }
    while queue.len() > 0
        invariant
            entries == unit.entries@,
            entries.len() <= usize::MAX,
            unit.wf(),
            forall|k: int|
                0 <= k < queue@.len() ==> (#[trigger] queue@[k]) < entries.len() && within(
                    entries,
                    roots@,
                    queue@[k] as int,
                ),
            forall|k: int|
                0 <= k < result@.len() ==> within(entries, roots@, #[trigger] result@[k] as int)
                    && is_live_variable(entries, result@[k] as int, pc),
            forall|i: int|
                within(entries, roots@, i) && is_live_variable(entries, i, pc) ==> result@.contains(
                    i as usize,
                ) || within(entries, queue@, i),
            result@ + walk_from(entries, queue@, pc, queue_weight(entries, queue@))
                == breadth_first(entries, roots@, pc),
        decreases queue_weight(entries, queue@),
    {
        let ghost old_queue = queue@;
        let ghost old_result = result@;
        let ghost old_weight = queue_weight(entries, queue@);
        let idx = queue.pop_front().unwrap();
        let ghost rest = queue@;
        proof {
            lemma_weight_pop_front(entries, old_queue);
            assert(old_queue[0] == idx);
            assert(idx < entries.len());
            assert(within(entries, roots@, idx as int));
        }
        match &unit.entries[idx].die {
            DieVariant::Variable(var) => {
                if variable_is_valid(unit, var, pc) {
                    result.push(idx);
                    assert(is_live_variable(entries, idx as int, pc));
                }
            },
            _ => {},
        }
        let children = &unit.entries[idx].node.children;
        assert(children_ok(entries, idx as int));
        let mut k: usize = 0;
        while k < children.len()
            invariant
                entries == unit.entries@,
                idx < entries.len(),
                children@ == entries[idx as int].node.children@,
                children_ok(entries, idx as int),
                k <= children@.len(),
                queue@ == rest + children@.take(k as int),
                queue_weight(entries, queue@) == queue_weight(entries, rest) + forest_size(
                    entries,
                    idx as int,
                    k as int,
                ),
            decreases children.len() - k,
        {
            proof {
                lemma_weight_push(entries, queue@, children@[k as int]);
                assert(idx < children@[k as int] < entries.len());
                assert((rest + children@.take(k as int)).push(children@[k as int]) =~= rest
                    + children@.take(k + 1));
            }
            queue.push_back(children[k]);
            k += 1;
        }
        proof {
            assert(children@.take(children@.len() as int) =~= children@);
            assert(queue@ == rest + children@);
            // one step of the walk
            assert(rest =~= old_queue.subrange(1, old_queue.len() as int));
            assert(children@ == children_of(entries, idx as int));
            assert(queue_weight(entries, queue@) == old_weight - 1);
            let ahead = walk_from(entries, queue@, pc, queue_weight(entries, queue@));
            assert(walk_from(entries, old_queue, pc, old_weight) == if is_live_variable(
                entries,
                idx as int,
                pc,
            ) {
                seq![idx] + ahead
            } else {
                ahead
            });
            assert(result@ + ahead =~= old_result + walk_from(entries, old_queue, pc, old_weight));
            // whatever waits in the queue lies within the roots
            let root = choose|x: int|
                0 <= x < roots@.len() && (#[trigger] roots@[x] == idx as int || descends(
                    entries,
                    roots@[x] as int,
                    idx as int,
                ));
            assert forall|j: int| 0 <= j < queue@.len() implies (#[trigger] queue@[j])
                < entries.len() && within(entries, roots@, queue@[j] as int) by {
                if j < rest.len() {
                    assert(queue@[j] == old_queue[j + 1]);
                } else {
                    let c = children@[j - rest.len()];
                    assert(queue@[j] == c);
                    assert(idx < c < entries.len());
                    assert(entries[c as int].node.parent == Some(idx));
                    assert(descends(entries, roots@[root] as int, c as int));
                }
            }
            assert forall|j: int| 0 <= j < result@.len() implies within(
                entries,
                roots@,
                #[trigger] result@[j] as int,
            ) && is_live_variable(entries, result@[j] as int, pc) by {
                if j < old_result.len() {
                    assert(result@[j] == old_result[j]);
                }
            }
            // every live variable within the roots is found or still ahead
            assert forall|i: int|
                within(entries, roots@, i) && is_live_variable(
                    entries,
                    i,
                    pc,
                ) implies result@.contains(i as usize) || within(entries, queue@, i) by {
                if old_result.contains(i as usize) {
                    let w = choose|w: int| 0 <= w < old_result.len() && old_result[w] == i as usize;
                    assert(result@[w] == i as usize);
                } else {
                    assert(within(entries, old_queue, i));
                    let m = choose|m: int|
                        0 <= m < old_queue.len() && (#[trigger] old_queue[m] == i || descends(
                            entries,
                            old_queue[m] as int,
                            i,
                        ));
                    if m > 0 {
                        assert(queue@[m - 1] == old_queue[m]);
                        assert(queue@[m - 1] == i || descends(entries, queue@[m - 1] as int, i));
                    } else if idx == i {
                        assert(result@[result@.len() - 1] == idx);
                    } else {
                        assert forall|x: int| 0 <= x < entries.len() implies parent_ok(
                            entries,
                            x,
                        ) by {
                            assert(children_ok(entries, x));
                        }
                        assert(entries.len() <= usize::MAX);
                        lemma_descends_via_child(entries, idx as int, i);
                        let c = choose|c: int|
                            0 <= c < children@.len() && (#[trigger] children@[c] == i || descends(
                                entries,
                                children@[c] as int,
                                i,
                            ));
                        assert(queue@[rest.len() + c] == children@[c]);
                        assert(queue@[rest.len() + c] == i || descends(
                            entries,
                            queue@[rest.len() + c] as int,
                            i,
                        ));
                    }
                }
            }
        }
    }
    assert forall|i: int|
        within(unit.entries@, roots@, i) && is_live_variable(
            unit.entries@,
            i,
            pc,
        ) implies result@.contains(i as usize) by {
        if !result@.contains(i as usize) {
            assert(within(entries, queue@, i));
        }
    }
    result
}

/// An entry with the unit and the context that it belongs to.
pub struct ContextualDieRef<'a, T> {
    pub context: &'a DebugeeContext,
    pub unit: &'a Unit,
    pub node: &'a Node,
    pub die: &'a T,
}

impl<'a, T> Clone for ContextualDieRef<'a, T> {
    fn clone(&self) -> (r: Self)
        ensures
            r == *self,
    {
        Self { context: self.context, unit: self.unit, node: self.node, die: self.die }
    }
}

impl<'a, T> Copy for ContextualDieRef<'a, T> {

}

/// Why a function has no frame base.
#[derive(Clone, Copy, Debug, PartialEq, Eq, Structural)]
pub enum FrameBaseError {
    /// The function has no frame base attribute.
    NoAttribute,
    /// The attribute is not a location expression.
    NotExpression,
    /// The expression could not be evaluated.
    Evaluation,
}

/// Why a function has no place at which its body begins.
#[derive(Clone, Copy, Debug, PartialEq, Eq, Structural)]
pub enum PrologError {
    /// The function has no ranges.
    NoRanges,
    /// The line program has no row for the function's entry.
    NoPlace,
}

/// The lowest beginning among the first `upto` ranges.
pub open spec fn lowest_begin(ranges: Seq<crate::dwarf::unit::Range>, upto: int) -> u64
    decreases upto,
{
    if upto <= 1 || upto > ranges.len() {
        ranges[0].begin
    } else if ranges[upto - 1].begin < lowest_begin(ranges, upto - 1) {
        ranges[upto - 1].begin
    } else {
        lowest_begin(ranges, upto - 1)
    }
}

/// The address at which the code of a function begins, as the line program
/// has it: the address of the row that the lowest address of the function's
/// ranges falls under.
pub open spec fn prolog_address(unit: Unit, function: FunctionDie) -> Option<u64> {
    if function.ranges@.len() == 0 {
        None
    } else {
        let low = lowest_begin(function.ranges@, function.ranges@.len() as int);
        let row = crate::dwarf::unit::last_row(unit.lines@, low, unit.lines@.len() as int);
        if low <= usize::MAX && row >= 0 {
            Some(unit.lines@[row].address)
        } else {
            None
        }
    }
}

/// The name of a function with the namespaces around it, joined by `::`.
pub open spec fn full_name_of(function: FunctionDie) -> Option<Seq<char>> {
    match function.name {
        None => None,
        Some(name) => Some(
            joined(function.namespace@.push(name), function.namespace@.len() as int + 1),
        ),
    }
}

/// The first `upto` of `parts`, joined by `::`.
pub open spec fn joined(parts: Seq<String>, upto: int) -> Seq<char>
    decreases upto,
{
    if upto <= 0 || upto > parts.len() {
        Seq::empty()
    } else if upto == 1 {
        parts[0]@
    } else {
        joined(parts, upto - 1) + "::"@ + parts[upto - 1]@
    }
}

impl<'a, T> ContextualDieRef<'a, T> {
    /// The reference stands at entry `e` of its unit.
    pub open spec fn at_entry(&self, e: int) -> bool {
        0 <= e < self.unit.entries@.len() && *self.node == self.unit.entries@[e].node
    }

    /// The reference stands in a well-formed unit, at one of its entries.
    pub open spec fn anchored(&self) -> bool {
        self.unit.wf() && exists|e: int| self.at_entry(e)
    }
}

impl<'ctx> ContextualDieRef<'ctx, FunctionDie> {
    /// The reference is that of the function at entry `e` of its unit.
    pub open spec fn is_function_entry(&self, e: int) -> bool {
        self.at_entry(e) && self.unit.entries@[e].die == DieVariant::Function(*self.die)
    }

    /// The expression that computes the function's frame base.
    pub fn frame_base_expression(&self) -> (r: Result<&'ctx Vec<u8>, FrameBaseError>)
        ensures
            match self.die.fb_addr {
                None => r == Err::<&Vec<u8>, FrameBaseError>(FrameBaseError::NoAttribute),
                Some(attr) => match attr.expression() {
                    None => r == Err::<&Vec<u8>, FrameBaseError>(FrameBaseError::NotExpression),
                    Some(bytes) => r matches Ok(expr) && expr@ == bytes,
                },
            },
    {
        match &self.die.fb_addr {
            None => Err(FrameBaseError::NoAttribute),
            Some(attr) => match attr.exprloc_value() {
                None => Err(FrameBaseError::NotExpression),
                Some(bytes) => Ok(bytes),
            },
        }
    }

    /// The function's frame base. `evaluated` is what evaluating the frame
    /// base expression gave, `None` if that failed.
    pub fn frame_base_addr(&self, evaluated: Option<usize>) -> (r: Result<usize, FrameBaseError>)
        ensures
            r == (match self.die.fb_addr {
                None => Err::<usize, FrameBaseError>(FrameBaseError::NoAttribute),
                Some(attr) => match attr.expression() {
                    None => Err(FrameBaseError::NotExpression),
                    Some(_) => match evaluated {
                        None => Err(FrameBaseError::Evaluation),
                        Some(address) => Ok(address),
                    },
                },
            }),
    {
        match self.frame_base_expression() {
            Err(e) => Err(e),
            Ok(_) => match evaluated {
                None => Err(FrameBaseError::Evaluation),
                Some(address) => Ok(address),
            },
        }
    }

    /// `refs` are the references to the entries `found`, and `found` holds
    /// exactly the variables below the function that are live at `pc`, in
    /// the order of a walk by levels.
    pub open spec fn lists_live_variables(
        &self,
        found: Seq<usize>,
        refs: Seq<ContextualDieRef<'ctx, VariableDie>>,
        pc: u64,
    ) -> bool {
        &&& found.len() == refs.len()
        &&& found == breadth_first(self.unit.entries@, self.node.children@, pc)
        &&& forall|k: int|
            0 <= k < refs.len() ==> (#[trigger] refs[k]).context == self.context && refs[k].unit
                == self.unit && refs[k].is_variable_entry(found[k] as int)
        &&& forall|k: int|
            0 <= k < found.len() ==> within(
                self.unit.entries@,
                self.node.children@,
                #[trigger] found[k] as int,
            ) && is_live_variable(self.unit.entries@, found[k] as int, pc)
        &&& forall|i: int|
            within(self.unit.entries@, self.node.children@, i) && is_live_variable(
                self.unit.entries@,
                i,
                pc,
            ) ==> found.contains(i as usize)
    }

    /// The variables of the function that are live at `pc`: the entries
    /// below the function that are variables and stand in no lexical block
    /// or in one that covers `pc`.
    pub fn find_variables(&self, pc: usize) -> (r: Vec<ContextualDieRef<'ctx, VariableDie>>)
        requires
            self.anchored(),
        ensures
            exists|found: Seq<usize>| #[trigger] self.lists_live_variables(found, r@, pc as u64),
    {
        proof {
            let e = choose|e: int| self.at_entry(e);
            assert(children_ok(self.unit.entries@, e));
        }
        let found = live_variables(self.unit, &self.node.children, pc as u64);
        let mut result: Vec<ContextualDieRef<'ctx, VariableDie>> = Vec::new();
        let mut k: usize = 0;
        while k < found.len()
            invariant
                k <= found@.len(),
                result@.len() == k,
                forall|j: int|
                    0 <= j < found@.len() ==> is_live_variable(
                        self.unit.entries@,
                        #[trigger] found@[j] as int,
                        pc as u64,
                    ),
                forall|j: int|
                    0 <= j < k ==> (#[trigger] result@[j]).context == self.context
                        && result@[j].unit == self.unit && result@[j].is_variable_entry(
                        found@[j] as int,
                    ),
            decreases found.len() - k,
        {
            let idx = found[k];
            assert(is_live_variable(self.unit.entries@, found@[k as int] as int, pc as u64));
            match &self.unit.entries[idx].die {
                DieVariant::Variable(var) => {
                    result.push(
                        ContextualDieRef {
                            context: self.context,
                            unit: self.unit,
                            node: &self.unit.entries[idx].node,
                            die: var,
                        },
                    );
                },
                _ => {
                    assert(false);
                },
            }
            k += 1;
        }
        assert(self.lists_live_variables(found@, result@, pc as u64));
        result
    }

    /// The function's name with the namespaces around it, joined by `::`.
    pub fn full_name(&self) -> (r: Option<String>)
        ensures
            match full_name_of(*self.die) {
                None => r is None,
                Some(name) => r matches Some(full) && full@ == name,
            },
    {
        match &self.die.name {
            None => None,
            Some(name) => {
                let ghost parts = self.die.namespace@.push(*name);
                let mut full = String::new();
                let mut k: usize = 0;
                while k < self.die.namespace.len()
                    invariant
                        k <= self.die.namespace@.len(),
                        parts == self.die.namespace@.push(*name),
                        full@ == joined(parts, k as int),
                    decreases self.die.namespace.len() - k,
                {
                    if k > 0 {
                        full.append("::");
                    }
                    full.append(self.die.namespace[k].as_str());
                    assert(parts[k as int] == self.die.namespace@[k as int]);
                    assert(full@ =~= joined(parts, k + 1));
                    k += 1;
                }
                if k > 0 {
                    full.append("::");
                }
                full.append(name.as_str());
                assert(full@ =~= joined(parts, k + 1));
                Some(full)
            },
        }
    }

    /// The place at which the function's code begins: that of the lowest
    /// address of its ranges.
    pub fn prolog_start_place(&self) -> (r: Result<Place<'ctx>, PrologError>)
        requires
            self.unit.tables_ok(),
        ensures
            r matches Ok(place) ==> prolog_address(*self.unit, *self.die) == Some(
                place.address.0 as u64,
            ),
            r is Err ==> prolog_address(*self.unit, *self.die) is None,
            self.die.ranges@.len() == 0 ==> r == Err::<Place, PrologError>(PrologError::NoRanges),
            self.die.ranges@.len() > 0 ==> ({
                let low = lowest_begin(self.die.ranges@, self.die.ranges@.len() as int);
                match r {
                    Ok(place) => self.unit.is_place(place, place.pos_in_unit as int)
                        && self.unit.lines@[place.pos_in_unit as int].address <= low
                        && forall|j: int|
                        place.pos_in_unit < j < self.unit.lines@.len() ==> (
                        #[trigger] self.unit.lines@[j]).address > low,
                    Err(e) => e == PrologError::NoPlace && (low > usize::MAX || forall|j: int|
                        0 <= j < self.unit.lines@.len() ==> (
                        #[trigger] self.unit.lines@[j]).address > low),
                }
            }),
    {
        if self.die.ranges.len() == 0 {
            return Err(PrologError::NoRanges);
        }
        let mut low: u64 = self.die.ranges[0].begin;
        let mut k: usize = 1;
        while k < self.die.ranges.len()
            invariant
                1 <= k <= self.die.ranges@.len(),
                low == lowest_begin(self.die.ranges@, k as int),
            decreases self.die.ranges.len() - k,
        {
            if self.die.ranges[k].begin < low {
                low = self.die.ranges[k].begin;
            }
            k += 1;
        }
        if low > usize::MAX as u64 {
            return Err(PrologError::NoPlace);
        }
        match self.unit.find_place_by_pc(low) {
            Some(place) => Ok(place),
            None => Err(PrologError::NoPlace),
        }
    }
}

impl<'ctx> ContextualDieRef<'ctx, VariableDie> {
    /// The reference is that of the variable at entry `e` of its unit.
    pub open spec fn is_variable_entry(&self, e: int) -> bool {
        self.at_entry(e) && self.unit.entries@[e].die == DieVariant::Variable(*self.die)
    }

    /// Whether the variable is live at `pc`.
    pub fn valid_at(&self, pc: usize) -> (r: bool)
        ensures
            r == variable_valid_at(self.unit.entries@, *self.die, pc as u64),
    {
        variable_is_valid(self.unit, self.die, pc as u64)
    }

    /// The bytes of the variable's value. `frame_base` is the frame base of
    /// the function around the variable, `value` what evaluating the
    /// variable's location gave, `None` if that failed. There is a value
    /// where the variable has a location expression, the frame base is
    /// known, the type states its size and the evaluation gave exactly that
    /// many bytes.
    pub fn read_value_at_location(
        &self,
        type_decl: &TypeDeclaration,
        frame_base: Result<usize, FrameBaseError>,
        value: Option<Vec<u8>>,
    ) -> (r: Option<Vec<u8>>)
        ensures
            r == (if self.die.location matches Some(attr) && attr.expression() is Some
                && frame_base is Ok && (value matches Some(bytes)
                && type_decl.declared_size() == Some(bytes@.len() as u64)) {
                value
            } else {
                None
            }),
    {
        match &self.die.location {
            None => None,
            Some(attr) => match attr.exprloc_value() {
                None => None,
                Some(_) => match frame_base {
                    Err(_) => None,
                    Ok(_) => match value {
                        None => None,
                        Some(bytes) => match type_decl.size_in_bytes() {
                            None => None,
                            Some(size) => if bytes.len() as u64 == size {
                                Some(bytes)
                            } else {
                                None
                            },
                        },
                    },
                },
            },
        }
    }

    /// The declaration of the variable's type: the entry that the
    /// variable's type reference names, read by its kind. Entries that are
    /// no types give none.
    pub fn type_declaration(&self) -> (r: Option<TypeDeclaration<'ctx>>)
        requires
            self.context.wf(),
        ensures
            match self.die.type_ref {
                None => r is None,
                Some(reference) => match self.context.deref_target(*self.unit, reference) {
                    None => r is None,
                    Some((unit, offset)) => match r {
                        Some(decl) => exists|e: int|
                            unit.entry_at(offset) == Some(e) && declares(decl, unit, e),
                        None => match unit.entry_at(offset) {
                            Some(e) => !is_type(unit.entries@[e].die),
                            None => true,
                        },
                    },
                },
            },
    {
        let reference = match self.die.type_ref {
            Some(reference) => reference,
            None => {
                return None;
            },
        };
        let (unit, e) = match self.context.deref_die(self.unit, reference) {
            Some(target) => target,
            None => {
                return None;
            },
        };
        let entry = &unit.entries[e];
        let decl = match &entry.die {
            DieVariant::BaseType(die) => TypeDeclaration::Scalar { die },
            DieVariant::StructType(die) => TypeDeclaration::Structure {
                die,
                members: collect_members(&unit.entries, &entry.node.children),
            },
            DieVariant::ArrayType(die) => TypeDeclaration::Array { die },
            DieVariant::EnumType(die) => TypeDeclaration::CStyleEnum {
                die,
                enumerators: collect_enumerators(&unit.entries, &entry.node.children),
            },
            DieVariant::PointerType(die) => TypeDeclaration::Pointer { die },
            _ => {
                return None;
            },
        };
        assert(declares(decl, *unit, e as int));
        Some(decl)
    }
}

/// The entry is one that declares a type.
pub open spec fn is_type(die: DieVariant) -> bool {
    die is BaseType || die is StructType || die is ArrayType || die is EnumType
        || die is PointerType
}

/// `decl` is what entry `e` of `unit` declares.
pub open spec fn declares(decl: TypeDeclaration, unit: Unit, e: int) -> bool {
    let children = unit.entries@[e].node.children@;
    match decl {
        TypeDeclaration::Scalar { die } => unit.entries@[e].die == DieVariant::BaseType(*die),
        TypeDeclaration::Structure { die, members } => unit.entries@[e].die
            == DieVariant::StructType(*die) && crate::dwarf::types::pointees(members@)
            == crate::dwarf::types::members_among(unit.entries@, children, children.len() as int),
        TypeDeclaration::Array { die } => unit.entries@[e].die == DieVariant::ArrayType(*die),
        TypeDeclaration::CStyleEnum { die, enumerators } => unit.entries@[e].die
            == DieVariant::EnumType(*die) && crate::dwarf::types::pointees(enumerators@)
            == crate::dwarf::types::enumerators_among(
            unit.entries@,
            children,
            children.len() as int,
        ),
        TypeDeclaration::Pointer { die } => unit.entries@[e].die == DieVariant::PointerType(*die),
    }
}

impl DebugeeContext {
    /// The function that `pc` lies in: in the first unit whose code holds
    /// `pc`, the innermost function whose range covers `pc`.
    pub fn find_function_by_pc(&self, pc: usize) -> (r: Option<ContextualDieRef<'_, FunctionDie>>)
        requires
            self.wf(),
        ensures
            match self.function_index_by_pc(pc as u64) {
                Some((u, e)) => r matches Some(f) && f.context == self && *f.unit
                    == self.units()[u as int] && f.is_function_entry(e as int),
                None => r is None,
            },
            r matches Some(f) ==> f.anchored(),
    {
        match self.find_function_index_by_pc(pc) {
            Some((u, e)) => {
                let found = self.function_ref(u, e);
                assert(self.units()[u as int].wf());
                assert(found->0.at_entry(e as int));
                found
            },
            None => None,
        }
    }

    /// The first function called `needles`; units and entries are gone
    /// through in their order.
    pub fn find_function_by_name(&self, needles: &str) -> (r: Option<
        ContextualDieRef<'_, FunctionDie>,
    >)
        ensures
            match self.function_index_by_name(needles@) {
                Some((u, e)) => r matches Some(f) && f.context == self && *f.unit
                    == self.units()[u as int] && f.is_function_entry(e as int),
                None => r is None,
            },
            self.wf() ==> (r matches Some(f) ==> f.anchored()),
    {
        match self.find_function_index_by_name(needles) {
            Some((u, e)) => {
                let found = self.function_ref(u, e);
                assert(self.wf() ==> self.units()[u as int].wf());
                assert(found->0.at_entry(e as int));
                found
            },
            None => None,
        }
    }

    /// The reference to entry `e` of unit `u`, which is a function.
    fn function_ref(&self, u: usize, e: usize) -> (r: Option<ContextualDieRef<'_, FunctionDie>>)
        requires
            u < self.units().len(),
            e < self.units()[u as int].entries@.len(),
            self.units()[u as int].entries@[e as int].die is Function,
        ensures
            r matches Some(f) && f.context == self && *f.unit == self.units()[u as int]
                && f.is_function_entry(e as int),
    {
        let unit = self.unit(u);
        match &unit.entries[e].die {
            DieVariant::Function(func) => Some(
                ContextualDieRef { context: self, unit, node: &unit.entries[e].node, die: func },
            ),
            _ => None,
        }
    }
}

} // verus!
