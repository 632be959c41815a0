//! The order in which the entities are painted: by their draw-order, the
//! highest on top, and by their slots among equals.

use vstd::prelude::*;
use crate::components::{Position, Renderable};
use crate::state::State;
use crate::world::World;

verus! {

/// Whether the entity in the slot `k` is painted: it has a position and a
/// look, and the player sees its tile now.
pub open spec fn is_shown(world: &World, k: int) -> bool {
    &&& world.store.holds(k)
    &&& world.store.at(k).position is Some
    &&& world.store.at(k).renderable is Some
    &&& world.map.has_tile(
        world.store.at(k).position->0.x as int,
        world.store.at(k).position->0.y as int,
    )
    &&& world.map.tiles_in_fov@[world.map.spec_idx(
        world.store.at(k).position->0.x as int,
        world.store.at(k).position->0.y as int,
    )]
}

/// The draw-order of the entity in the slot `k`.
pub open spec fn layer(world: &World, k: int) -> int {
    world.store.at(k).renderable->0.order as int
}

/// The place in a list of slots behind the last slot whose draw-order is at
/// most `order`.
pub open spec fn place_behind(world: &World, list: Seq<int>, order: int) -> int
    decreases list.len(),
{
    if list.len() == 0 {
        0
    } else if layer(world, list.last()) <= order {
        list.len() as int
    } else {
        place_behind(world, list.drop_last(), order)
    }
}

/// The slots below `n` whose entities are painted, in the order in which
/// they are painted: each is put behind the entities before it whose
/// draw-order is not higher than its own.
pub open spec fn paint_order(world: &World, n: int) -> Seq<int>
    decreases n,
{
    if n <= 0 {
        Seq::empty()
    } else {
        let before = paint_order(world, n - 1);
        if is_shown(world, n - 1) {
            before.insert(place_behind(world, before, layer(world, n - 1)), n - 1)
        } else {
            before
        }
    }
}

/// Whether a list of slots is in paint order: the draw-order never falls,
/// and among equals the slots rise.
pub open spec fn is_layered(world: &World, list: Seq<int>) -> bool {
    forall|i: int, j: int|
        0 <= i < j < list.len() ==> layer(world, list[i]) < layer(world, list[j]) || (layer(
            world,
            list[i],
        ) == layer(world, list[j]) && list[i] < list[j])
}

/// In a list in paint order, the place behind the slots of at most `order`
/// parts the list: no slot before it has a higher draw-order, and every slot
/// from it on has one.
pub proof fn lemma_place_behind(world: &World, list: Seq<int>, order: int)
    requires
        is_layered(world, list),
    ensures
        0 <= place_behind(world, list, order) <= list.len(),
        forall|i: int|
            0 <= i < place_behind(world, list, order) ==> layer(world, list[i]) <= order,
        forall|i: int|
            place_behind(world, list, order) <= i < list.len() ==> layer(world, list[i]) > order,
    decreases list.len(),
{
    if list.len() > 0 {
        let rest = list.drop_last();
        assert forall|i: int, j: int| 0 <= i < j < rest.len() implies layer(world, rest[i])
            < layer(world, rest[j]) || (layer(world, rest[i]) == layer(world, rest[j]) && rest[i]
            < rest[j]) by {
            assert(rest[i] == list[i] && rest[j] == list[j]);
        }
        lemma_place_behind(world, rest, order);
        if layer(world, list.last()) <= order {
            assert forall|i: int| 0 <= i < list.len() implies layer(world, list[i]) <= order by {
                if i < list.len() - 1 {
                    assert(layer(world, list[i]) <= layer(world, list[list.len() - 1]));
                }
            }
        } else {
            let at = place_behind(world, rest, order);
            assert forall|i: int| 0 <= i < at implies layer(world, list[i]) <= order by {
                assert(rest[i] == list[i]);
            }
            assert forall|i: int| at <= i < list.len() implies layer(world, list[i]) > order by {
                if i < rest.len() {
                    assert(rest[i] == list[i]);
                }
            }
        }
    }
}

/// The paint order holds exactly the slots whose entities are painted, with
/// the draw-order never falling, and with the slots rising among equals: the
/// order is that of a stable sort by draw-order.
pub proof fn lemma_paint_order(world: &World, n: int)
    requires
        0 <= n,
    ensures
        is_layered(world, paint_order(world, n)),
        forall|j: int|
            0 <= j < paint_order(world, n).len() ==> 0 <= paint_order(world, n)[j] < n && is_shown(
                world,
                paint_order(world, n)[j],
            ),
        forall|k: int| 0 <= k < n && is_shown(world, k) ==> paint_order(world, n).contains(k),
    decreases n,
{
    if n > 0 {
        lemma_paint_order(world, n - 1);
        let before = paint_order(world, n - 1);
        let after = paint_order(world, n);
        if is_shown(world, n - 1) {
            let order = layer(world, n - 1);
            let at = place_behind(world, before, order);
            lemma_place_behind(world, before, order);
            assert(after == before.insert(at, n - 1));
            assert forall|j: int| 0 <= j < after.len() implies 0 <= after[j] < n && is_shown(
                world,
                after[j],
            ) by {
                if j < at {
                    assert(after[j] == before[j]);
                } else if j > at {
                    assert(after[j] == before[j - 1]);
                }
            }
            assert forall|i: int, j: int| 0 <= i < j < after.len() implies layer(world, after[i])
                < layer(world, after[j]) || (layer(world, after[i]) == layer(world, after[j])
                && after[i] < after[j]) by {
                if j < at {
                    assert(after[i] == before[i] && after[j] == before[j]);
                } else if j == at {
                    assert(after[i] == before[i]);
                } else if i < at {
                    assert(after[i] == before[i] && after[j] == before[j - 1]);
                } else if i == at {
                    assert(after[j] == before[j - 1]);
                } else {
                    assert(after[i] == before[i - 1] && after[j] == before[j - 1]);
                }
            }
            assert forall|k: int| 0 <= k < n && is_shown(world, k) implies after.contains(k) by {
                if k == n - 1 {
                    assert(after[at] == k);
                } else {
                    let j = choose|j: int| 0 <= j < before.len() && before[j] == k;
                    if j < at {
                        assert(after[j] == k);
                    } else {
                        assert(after[j + 1] == k);
                    }
                }
            }
        } else {
            assert forall|k: int| 0 <= k < n && is_shown(world, k) implies after.contains(k) by {
                assert(before.contains(k));
            }
        }
    }
}

impl State {
    /// The entities to paint, each with its place and its look, in the order
    /// in which to paint them: those that the player sees now, sorted by
    /// their draw-order, the highest last; entities of the same draw-order
    /// keep the order of their slots.
    pub fn show_ui(&self) -> (painted: Vec<(Position, Renderable)>)
        requires
            self.ecs.wf(),
        ensures
            painted@.len() == paint_order(&self.ecs, self.ecs.store.len()).len(),
            forall|j: int|
                0 <= j < painted@.len() ==> {
                    let slot = paint_order(&self.ecs, self.ecs.store.len())[j];
                    &&& (#[trigger] painted@[j]).0 == self.ecs.store.at(slot).position->0
                    &&& painted@[j].1 == self.ecs.store.at(slot).renderable->0
                },
    {
        let mut painted: Vec<(Position, Renderable)> = Vec::new();
        let ghost mut slots: Seq<int> = Seq::empty();
        let mut i: usize = 0;
        while i < self.ecs.store.slots.len()
            invariant
                self.ecs.wf(),
                i <= self.ecs.store.slots@.len(),
                slots == paint_order(&self.ecs, i as int),
                painted@.len() == slots.len(),
                forall|j: int|
                    0 <= j < painted@.len() ==> {
                        &&& (#[trigger] painted@[j]).0 == self.ecs.store.at(slots[j]).position->0
                        &&& painted@[j].1 == self.ecs.store.at(slots[j]).renderable->0
                    },
            decreases self.ecs.store.slots@.len() - i,
        {
            if let Some(c) = &self.ecs.store.slots[i] {
                if let Some(position) = c.position {
                    if let Some(renderable) = c.renderable {
                        if self.ecs.map.check_has_tile(position.x, position.y)
                            && self.ecs.map.is_tile_in_fov(position.x, position.y) {
                            let mut at: usize = painted.len();
                            assert(slots.take(at as int) =~= slots);
                            while at > 0 && painted[at - 1].1.order > renderable.order
                                invariant
                                    at <= painted@.len(),
                                    painted@.len() == slots.len(),
                                    forall|j: int|
                                        0 <= j < painted@.len() ==> (#[trigger] painted@[j]).1
                                            == self.ecs.store.at(slots[j]).renderable->0,
                                    place_behind(&self.ecs, slots, renderable.order as int)
                                        == place_behind(
                                        &self.ecs,
                                        slots.take(at as int),
                                        renderable.order as int,
                                    ),
                                decreases at,
                            {
                                proof {
                                    assert(slots.take(at as int).drop_last() =~= slots.take(
                                        at as int - 1,
                                    ));
                                    assert(slots.take(at as int).last() == slots[at as int - 1]);
                                }
                                at -= 1;
                            }
                            proof {
                                if at > 0 {
                                    assert(slots.take(at as int).last() == slots[at as int - 1]);
                                }
                                let ghost before = slots;
                                slots = slots.insert(at as int, i as int);
                                assert forall|j: int| 0 <= j < slots.len() implies slots[j] == if j
                                    < at {
                                    before[j]
                                } else if j == at {
                                    i as int
                                } else {
                                    before[j - 1]
                                } by {}
                            }
                            painted.insert(at, (position, renderable));
                        }
                    }
                }
            }
            i += 1;
        }
        painted
    }
}

} // verus!
