//! The tree of entities in the hierarchy panel: which rows stand open, in
//! what order the roots are shown, and what a click with the shift key adds
//! to the selection. An entity is known by its bits; the links from child to
//! parent come as a map.

use std::collections::{HashMap, HashSet};
use vstd::prelude::*;
use vstd::set_lib::lemma_len_subset;

verus! {

/// The entity reached from `entity` by going to the parent `steps` times,
/// where the chain of parents is that long.
pub open spec fn nth_parent(parents: Map<u64, u64>, entity: u64, steps: nat) -> Option<u64>
    decreases steps,
{
    if steps == 0 {
        Some(entity)
    } else {
        match nth_parent(parents, entity, (steps - 1) as nat) {
            Some(below) => if parents.dom().contains(below) {
                Some(parents[below])
            } else {
                None
            },
            None => None,
        }
    }
}

/// Whether `ancestor` is the parent of `entity`, or the parent of its
/// parent, and so on.
pub open spec fn is_ancestor(parents: Map<u64, u64>, ancestor: u64, entity: u64) -> bool {
    exists|steps: nat| steps >= 1 && nth_parent(parents, entity, steps) == Some(ancestor)
}

/// The ancestors of the selected entities.
pub open spec fn ancestors_of(parents: Map<u64, u64>, selected: Seq<u64>) -> Set<u64> {
    Set::new(
        |ancestor: u64|
            exists|i: int| 0 <= i < selected.len() && is_ancestor(parents, ancestor, selected[i]),
    )
}

/// Whether a set holds, with each of its entities, the entity's parent.
pub open spec fn holds_parents(parents: Map<u64, u64>, open: Set<u64>) -> bool {
    forall|entity: u64|
        open.contains(entity) && parents.dom().contains(entity) ==> open.contains(
            #[trigger] parents[entity],
        )
}

/// A set that holds the parent of `entity` and the parents of all it holds
/// holds every ancestor of `entity`.
pub proof fn lemma_holds_ancestors(parents: Map<u64, u64>, open: Set<u64>, entity: u64, steps: nat)
    requires
        holds_parents(parents, open),
        parents.dom().contains(entity) ==> open.contains(parents[entity]),
        steps >= 1,
        nth_parent(parents, entity, steps) is Some,
    ensures
        open.contains(nth_parent(parents, entity, steps)->0),
    decreases steps,
{
    let below = nth_parent(parents, entity, (steps - 1) as nat);
    assert(below is Some);
    if steps == 1 {
        assert(below == Some(entity));
    } else {
        lemma_holds_ancestors(parents, open, entity, (steps - 1) as nat);
        assert(open.contains(parents[below->0]));
    }
}

/// The entities whose rows stand open whatever the user folded: every
/// ancestor of a selected entity, so that no selected row is hidden.
pub fn always_open(parents: &HashMap<u64, u64>, selected: &[u64]) -> (open: HashSet<u64>)
    ensures
        open@ == ancestors_of(parents@, selected@),
{
    broadcast use vstd::std_specs::hash::group_hash_axioms;

    let mut open: HashSet<u64> = HashSet::new();
    let mut i: usize = 0;
    while i < selected.len()
        invariant
            i <= selected.len(),
            holds_parents(parents@, open@),
            forall|a: u64|
                open@.contains(a) ==> exists|j: int|
                    0 <= j < i && is_ancestor(parents@, a, selected[j]),
            forall|j: int, a: u64|
                0 <= j < i && is_ancestor(parents@, a, selected[j]) ==> open@.contains(a),
        decreases selected.len() - i,
    {
        let start: u64 = selected[i];
        let mut at: u64 = start;
        let ghost before = open@;
        let ghost mut steps: nat = 0;
        let ghost mut used: Set<u64> = Set::empty();
        loop
            invariant
                i < selected.len(),
                start == selected[i as int],
                nth_parent(parents@, start, steps) == Some(at),
                before.subset_of(open@),
                forall|e: u64|
                    open@.contains(e) && e != at && parents@.dom().contains(e) ==> open@.contains(
                        #[trigger] parents@[e],
                    ),
                steps == 0 ==> holds_parents(parents@, open@),
                steps >= 1 ==> open@.contains(at) && parents@.dom().contains(start)
                    && open@.contains(parents@[start]),
                forall|a: u64|
                    open@.contains(a) ==> before.contains(a) || is_ancestor(parents@, a, start),
                used.finite(),
                used.subset_of(parents@.dom()),
                forall|c: u64| used.contains(c) ==> open@.contains(#[trigger] parents@[c]),
            ensures
                before.subset_of(open@),
                holds_parents(parents@, open@),
                parents@.dom().contains(start) ==> open@.contains(parents@[start]),
                forall|a: u64|
                    open@.contains(a) ==> before.contains(a) || is_ancestor(parents@, a, start),
            decreases parents@.dom().len() - used.len(),
        {
            let parent: u64 = match parents.get(&at) {
                Some(p) => *p,
                None => {
                    break ;
                },
            };
            if open.contains(&parent) {
                break ;
            }
            open.insert(parent);
            proof {
                assert(nth_parent(parents@, start, steps + 1) == Some(parent));
                assert(is_ancestor(parents@, parent, start));
                assert(!used.contains(at));
                used = used.insert(at);
                lemma_len_subset(used, parents@.dom());
                steps = steps + 1;
            }
            at = parent;
        }
        proof {
            assert forall|j: int, a: u64|
                0 <= j < i + 1 && is_ancestor(parents@, a, selected[j]) implies open@.contains(
                a,
            ) by {
                if j == i {
                    let n = choose|n: nat| n >= 1 && nth_parent(parents@, start, n) == Some(a);
                    lemma_holds_ancestors(parents@, open@, start, n);
                } else {
                    assert(before.contains(a));
                }
            }
            assert forall|a: u64| open@.contains(a) implies exists|j: int|
                0 <= j < i + 1 && is_ancestor(parents@, a, selected[j]) by {
                if before.contains(a) {
                    let j = choose|j: int| 0 <= j < i && is_ancestor(parents@, a, selected[j]);
                    assert(0 <= j < i + 1 && is_ancestor(parents@, a, selected[j]));
                } else {
                    assert(is_ancestor(parents@, a, selected[i as int]));
                }
            }
        }
        i = i + 1;
    }
    assert(open@ =~= ancestors_of(parents@, selected@));
    open
}

/// Whether the entities stand in rising order of their bits.
pub open spec fn rising(entities: Seq<u64>) -> bool {
    forall|i: int, j: int| 0 <= i < j < entities.len() ==> entities[i] <= entities[j]
}

/// Putting an entity into a list adds it once to what the list holds.
pub proof fn lemma_insert_adds_one(entities: Seq<u64>, place: int, entity: u64)
    requires
        0 <= place <= entities.len(),
    ensures
        entities.insert(place, entity).to_multiset() == entities.to_multiset().insert(entity),
{
    broadcast use vstd::seq_lib::group_to_multiset_ensures;
    broadcast use vstd::multiset::group_multiset_axioms;

    let longer = entities.insert(place, entity);
    assert(longer[place] == entity);
    assert(longer.remove(place) =~= entities);
    assert(longer.to_multiset().remove(entity) == entities.to_multiset());
    assert(longer.contains(entity));
    assert(longer.to_multiset() =~= entities.to_multiset().insert(entity));
}

/// Entities have one rising order only: two rising lists that hold the
/// same entities, each as often as the other, are equal.
pub proof fn lemma_rising_unique(first: Seq<u64>, second: Seq<u64>)
    requires
        rising(first),
        rising(second),
        first.to_multiset() == second.to_multiset(),
    ensures
        first == second,
{
    let at_most = |a: u64, b: u64| a <= b;
    assert(vstd::relations::sorted_by(first, at_most));
    assert(vstd::relations::sorted_by(second, at_most));
    assert(vstd::relations::total_ordering(at_most));
    vstd::seq_lib::lemma_sorted_unique(first, second, at_most);
}

/// The entities in rising order of their bits, which is the order of the
/// entities themselves.
pub fn sort_entities(found: &[u64]) -> (sorted: Vec<u64>)
    ensures
        rising(sorted@),
        sorted@.to_multiset() == found@.to_multiset(),
{
    broadcast use vstd::seq_lib::group_to_multiset_ensures;

    let mut sorted: Vec<u64> = Vec::new();
    let mut i: usize = 0;
    assert(found@.take(0) =~= Seq::<u64>::empty());
    while i < found.len()
        invariant
            i <= found.len(),
            sorted.len() == i,
            rising(sorted@),
            sorted@.to_multiset() == found@.take(i as int).to_multiset(),
        decreases found.len() - i,
    {
        let entity: u64 = found[i];
        let mut place: usize = i;
        while place > 0 && sorted[place - 1] > entity
            invariant
                place <= i,
                sorted.len() == i,
                forall|k: int| place <= k < i ==> sorted[k] > entity,
            decreases place,
        {
            place = place - 1;
        }
        proof {
            lemma_insert_adds_one(sorted@, place as int, entity);
            vstd::seq_lib::to_multiset_build(found@.take(i as int), entity);
            assert(found@.take(i + 1) =~= found@.take(i as int).push(entity));
        }
        sorted.insert(place, entity);
        i = i + 1;
    }
    assert(found@.take(found.len() as int) =~= found@);
    sorted
}

/// Whether a row is forced open or shut, or left as the user has it: a row
/// without children is shut, one that must stay open is open.
pub open spec fn open_state(has_children: bool, kept_open: bool) -> Option<bool> {
    if !has_children {
        Some(false)
    } else if kept_open {
        Some(true)
    } else {
        None
    }
}

/// The first place at which `entity` stands in `level`, or the length of
/// `level` where it stands nowhere.
pub open spec fn first_place(level: Seq<u64>, entity: u64) -> int
    decreases level.len(),
{
    if level.len() == 0 || level[0] == entity {
        0
    } else {
        1 + first_place(level.drop_first(), entity)
    }
}

/// The first place of an entity is the one before which it does not stand.
pub proof fn lemma_first_place(level: Seq<u64>, entity: u64, place: int)
    requires
        0 <= place <= level.len(),
        forall|k: int| 0 <= k < place ==> level[k] != entity,
        place < level.len() ==> level[place] == entity,
    ensures
        first_place(level, entity) == place,
    decreases level.len(),
{
    if place > 0 {
        let rest = level.drop_first();
        assert forall|k: int| 0 <= k < place - 1 implies rest[k] != entity by {
            assert(rest[k] == level[k + 1]);
        }
        lemma_first_place(rest, entity, place - 1);
    }
}

/// The rows from the first `from` to the first `to`, both included, whatever
/// their order; nothing where one of the two is not in `level`.
pub open spec fn span_between(level: Seq<u64>, from: u64, to: u64) -> Seq<u64> {
    if level.contains(from) && level.contains(to) {
        let a = first_place(level, from);
        let b = first_place(level, to);
        if a < b {
            level.subrange(a, b + 1)
        } else {
            level.subrange(b, a + 1)
        }
    } else {
        Seq::empty()
    }
}

fn position(level: &[u64], entity: u64) -> (place: Option<usize>)
    ensures
        match place {
            Some(i) => level@.contains(entity) && i == first_place(level@, entity) && i
                < level.len(),
            None => !level@.contains(entity),
        },
{
    let mut i: usize = 0;
    while i < level.len()
        invariant
            i <= level.len(),
            forall|k: int| 0 <= k < i ==> level[k] != entity,
        decreases level.len() - i,
    {
        if level[i] == entity {
            proof {
                lemma_first_place(level@, entity, i as int);
            }
            return Some(i);
        }
        i = i + 1;
    }
    None
}

/// The rows that a click on `to` with the shift key adds when the last click
/// was on `from`: all rows of the same level between the two.
pub fn extend_with(at_same_level: &[u64], from: u64, to: u64) -> (span: Vec<u64>)
    ensures
        span@ == span_between(at_same_level@, from, to),
{
    let first: usize = match position(at_same_level, from) {
        Some(i) => i,
        None => {
            return Vec::new();
        },
    };
    let second: usize = match position(at_same_level, to) {
        Some(i) => i,
        None => {
            return Vec::new();
        },
    };
    let (low, high): (usize, usize) = if first < second {
        (first, second)
    } else {
        (second, first)
    };
    let mut span: Vec<u64> = Vec::new();
    let mut i: usize = low;
    while i <= high
        invariant
            low <= i <= high + 1,
            high < at_same_level.len(),
            span@ == at_same_level@.subrange(low as int, i as int),
        decreases high + 1 - i,
    {
        span.push(at_same_level[i]);
        assert(span@ =~= at_same_level@.subrange(low as int, i + 1));
        i = i + 1;
    }
    span
}

/// What the panel knows before it draws a row: the roots in the order of
/// display, and the rows that stay open.
pub struct Hierarchy {
    pub roots: Vec<u64>,
    pub always_open: HashSet<u64>,
}

impl Hierarchy {
    /// Prepares the panel: `roots` are the entities found without a parent,
    /// `parents` the parent of every entity that has one.
    pub fn show(parents: &HashMap<u64, u64>, roots: &[u64], selected: &[u64]) -> (shown: Hierarchy)
        ensures
            rising(shown.roots@),
            shown.roots@.to_multiset() == roots@.to_multiset(),
            shown.always_open@ == ancestors_of(parents@, selected@),
    {
        Hierarchy { roots: sort_entities(roots), always_open: always_open(parents, selected) }
    }

    /// Whether the row of `entity` is forced open or shut.
    pub fn entity_ui(&self, entity: u64, has_children: bool) -> (open: Option<bool>)
        ensures
            open == open_state(has_children, self.always_open@.contains(entity)),
    {
        broadcast use vstd::std_specs::hash::group_hash_axioms;

        if !has_children {
            Some(false)
        } else if self.always_open.contains(&entity) {
            Some(true)
        } else {
            None
        }
    }
}

} // verus!
