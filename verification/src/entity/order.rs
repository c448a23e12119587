//! The order in which entities are drawn.

use super::entity::Entity;
use vstd::prelude::*;

verus! {

/// `<[V]>::swap`: exchanges the elements at `a` and `b` and leaves every
/// other element where it is. Both places must be inside the slice.
pub assume_specification<V>[ <[V]>::swap ](slice: &mut [V], a: usize, b: usize)
    requires
        a < old(slice)@.len(),
        b < old(slice)@.len(),
    ensures
        final(slice)@ == old(slice)@.update(a as int, old(slice)@[b as int]).update(
            b as int,
            old(slice)@[a as int],
        ),
;

/// Whether the entity at place `a` is drawn before the entity at place
/// `b`: its rank is lower, or the ranks are equal and it came earlier,
/// where `from` gives for each place the place that the entity had at
/// first.
pub open spec fn drawn_before<E: Entity>(entities: Seq<E>, from: Seq<int>, a: int, b: int) -> bool {
    entities[a].order() < entities[b].order() || (entities[a].order() == entities[b].order()
        && from[a] < from[b])
}

/// Whether `sorted` holds the entities of `given` in the order of
/// drawing: lower ranks first, and entities of one rank in the order in
/// which `given` holds them.
///
/// `from` gives for each place of `sorted` the place in `given` that
/// its entity comes from, and `to` for each place of `given` the place
/// in `sorted` where its entity went.
pub open spec fn in_drawing_order<E: Entity>(
    given: Seq<E>,
    sorted: Seq<E>,
    from: Seq<int>,
    to: Seq<int>,
) -> bool {
    &&& sorted.len() == given.len()
    &&& from.len() == given.len()
    &&& to.len() == given.len()
    &&& forall|k: int|
        0 <= k < sorted.len() ==> 0 <= #[trigger] from[k] < given.len() && sorted[k]
            == given[from[k]] && to[from[k]] == k
    &&& forall|i: int|
        0 <= i < given.len() ==> 0 <= #[trigger] to[i] < sorted.len() && from[to[i]] == i
    &&& forall|a: int, b: int|
        0 <= a < b < sorted.len() ==> #[trigger] drawn_before(sorted, from, a, b)
}

/// What [`sort_by_order`] keeps while it moves the entity that came from
/// place `i` down to place `j`.
spec fn inserting<E: Entity>(
    given: Seq<E>,
    current: Seq<E>,
    from: Seq<int>,
    to: Seq<int>,
    i: int,
    j: int,
) -> bool {
    &&& current.len() == given.len()
    &&& from.len() == given.len()
    &&& to.len() == given.len()
    &&& 0 <= j <= i < given.len()
    &&& forall|k: int|
        0 <= k < current.len() ==> 0 <= #[trigger] from[k] < given.len() && current[k]
            == given[from[k]] && to[from[k]] == k
    &&& forall|k: int|
        0 <= k < given.len() ==> 0 <= #[trigger] to[k] < current.len() && from[to[k]] == k
    &&& from[j] == i
    &&& forall|k: int| 0 <= k <= i && k != j ==> #[trigger] from[k] < i
    &&& forall|k: int| i < k < current.len() ==> #[trigger] from[k] == k
    &&& forall|a: int, b: int|
        0 <= a < b <= i && a != j && b != j ==> #[trigger] drawn_before(current, from, a, b)
    &&& forall|b: int| j < b <= i ==> current[j].order() < (#[trigger] current[b]).order()
}

/// Sorts the entities into the order of drawing. The sort is stable:
/// entities of one rank keep their order.
pub(crate) fn sort_by_order<E: Entity>(entities: &mut [E]) -> (maps: Ghost<(Seq<int>, Seq<int>)>)
    ensures
        in_drawing_order(old(entities)@, final(entities)@, maps@.0, maps@.1),
{
    let count: usize = entities.len();
    let ghost given = entities@;
    let ghost mut from: Seq<int> = Seq::new(count as nat, |k: int| k);
    let ghost mut to: Seq<int> = Seq::new(count as nat, |k: int| k);
    let mut i: usize = 0;
    while i < count
        invariant
            given == old(entities)@,
            count == given.len(),
            entities@.len() == count,
            from.len() == count,
            to.len() == count,
            i <= count,
            forall|k: int|
                0 <= k < count ==> 0 <= #[trigger] from[k] < count && entities@[k]
                    == given[from[k]] && to[from[k]] == k,
            forall|k: int| 0 <= k < count ==> 0 <= #[trigger] to[k] < count && from[to[k]] == k,
            forall|k: int| 0 <= k < i ==> #[trigger] from[k] < i,
            forall|k: int| i <= k < count ==> #[trigger] from[k] == k,
            forall|a: int, b: int| 0 <= a < b < i ==> #[trigger] drawn_before(entities@, from, a, b),
        decreases count - i,
    {
        let mut j: usize = i;
        while j > 0 && *entities[j - 1].get_order() > *entities[j].get_order()
            invariant
                given == old(entities)@,
                count == given.len(),
                i < count,
                inserting(given, entities@, from, to, i as int, j as int),
            decreases j,
        {
            let ghost before = entities@;
            let ghost before_from = from;
            entities.swap(j - 1, j);
            proof {
                let moved = from[j - 1];
                from = from.update(j - 1, i as int).update(j as int, moved);
                to = to.update(i as int, j - 1).update(moved, j as int);
                assert forall|a: int, b: int| 0 <= a < b <= i && a != j - 1 && b != j - 1 implies #[trigger] drawn_before(
                    entities@,
                    from,
                    a,
                    b,
                ) by {
                    let was_a = if a == j {
                        j - 1
                    } else {
                        a
                    };
                    let was_b = if b == j {
                        j - 1
                    } else {
                        b
                    };
                    if a == j {
                        assert(drawn_before(before, before_from, j - 1, b));
                    } else if b == j {
                        assert(drawn_before(before, before_from, a, j - 1));
                    } else {
                        assert(drawn_before(before, before_from, a, b));
                    }
                }
                assert forall|b: int| j - 1 < b <= i implies entities@[j - 1].order() < (
                #[trigger] entities@[b]).order() by {
                    if b != j {
                        assert(before[j as int].order() < before[b].order());
                    }
                }
            }
            j -= 1;
        }
        proof {
            assert forall|a: int, b: int| 0 <= a < b < i + 1 implies #[trigger] drawn_before(
                entities@,
                from,
                a,
                b,
            ) by {
                if a == j {
                    assert(entities@[j as int].order() < entities@[b].order());
                } else if b == j {
                    if a < j - 1 {
                        assert(drawn_before(entities@, from, a, j - 1));
                    }
                    assert(from[a] < i);
                } else {
                }
            }
        }
        i += 1;
    }
    Ghost((from, to))
}

} // verus!
