//! What the user interface decides: the selection of a target, and the
//! tooltips under the mouse.

use vstd::prelude::*;
use crate::components::{points_contain, Position};
use crate::functions::VirtualKeyCode;
use crate::map::{distance_squared, spec_distance_squared};
use crate::player::Input;
use crate::store::Store;
use crate::world::World;

verus! {

/// How far the selection of a target has come.
#[derive(Clone, Copy, PartialEq, Eq, Structural, Debug)]
pub enum TargetSelectionState {
    /// The selection was given up.
    Cancel,
    /// The player is still selecting.
    Selecting,
    /// A target was selected.
    Selected,
}

/// The state of the selection of a target, and the target once it is
/// selected.
#[derive(Clone, Copy, Debug)]
pub struct TargetSelectionResult(pub TargetSelectionState, pub Option<Position>);

/// Whether `point` is at most `range` away from `from`, in a straight line.
pub open spec fn within_range(from: Position, point: Position, range: int) -> bool {
    range >= 0 && spec_distance_squared(
        (from.x as int, from.y as int),
        (point.x as int, point.y as int),
    ) <= range * range
}

/// The points of `content` that are at most `range` away from `from`, in
/// their order.
pub open spec fn cells_within(content: Seq<Position>, from: Position, range: int) -> Seq<Position>
    decreases content.len(),
{
    if content.len() == 0 {
        content
    } else if within_range(from, content.last(), range) {
        cells_within(content.drop_last(), from, range).push(content.last())
    } else {
        cells_within(content.drop_last(), from, range)
    }
}

/// A point is among the cells in range exactly if it is seen and in range.
pub proof fn lemma_cells_within(content: Seq<Position>, from: Position, range: int, point: Position)
    ensures
        cells_within(content, from, range).contains(point) <==> content.contains(point)
            && within_range(from, point, range),
    decreases content.len(),
{
    if content.len() > 0 {
        let rest = content.drop_last();
        lemma_cells_within(rest, from, range, point);
        let cells = cells_within(content, from, range);
        let before = cells_within(rest, from, range);
        if cells.contains(point) {
            let j = choose|j: int| 0 <= j < cells.len() && cells[j] == point;
            if j < before.len() {
                assert(before[j] == point);
                assert(before.contains(point));
                let h = choose|h: int| 0 <= h < rest.len() && rest[h] == point;
                assert(content[h] == point);
            } else {
                assert(content[content.len() - 1] == point);
            }
        }
        if content.contains(point) && within_range(from, point, range) {
            let h = choose|h: int| 0 <= h < content.len() && content[h] == point;
            if h < rest.len() {
                assert(rest[h] == point);
                assert(rest.contains(point));
                let j = choose|j: int| 0 <= j < before.len() && before[j] == point;
                assert(cells[j] == point);
            } else {
                assert(cells[cells.len() - 1] == point);
            }
        }
    }
}

/// Whether `point` is at most `range` away from `from`.
pub fn is_within_range(from: &Position, point: &Position, range: i32) -> (b: bool)
    ensures
        b == within_range(*from, *point, range as int),
{
    if range < 0 {
        return false;
    }
    assert(0 <= range * range <= 0x7fff_ffff * 0x7fff_ffff) by (nonlinear_arith)
        requires
            0 <= range <= 0x7fff_ffff,
    ;
    let reach: u128 = (range as u128) * (range as u128);
    distance_squared(from, point) <= reach
}

/// The cells that an item with the given range can be used on: the points
/// that the player sees and that are at most `range` away from its last
/// known position. `None` if the player has no field of view.
pub fn cells_in_range(range: i32, ecs: &World) -> (cells: Option<Vec<Position>>)
    ensures
        match cells {
            None => !(ecs.store.alive(ecs.player) && ecs.store.of(ecs.player).fov is Some),
            Some(cells) => ecs.store.alive(ecs.player) && ecs.store.of(ecs.player).fov is Some
                && cells@ == cells_within(
                ecs.store.of(ecs.player).fov->0.content@,
                ecs.player_position,
                range as int,
            ),
        },
{
    let fov = match ecs.store.get(ecs.player) {
        None => {
            return None;
        },
        Some(c) => match &c.fov {
            None => {
                return None;
            },
            Some(fov) => fov,
        },
    };
    let mut cells: Vec<Position> = Vec::new();
    let mut j: usize = 0;
    while j < fov.content.len()
        invariant
            j <= fov.content@.len(),
            cells@ == cells_within(fov.content@.take(j as int), ecs.player_position, range as int),
        decreases fov.content@.len() - j,
    {
        proof {
            assert(fov.content@.take(j as int + 1).drop_last() =~= fov.content@.take(j as int));
        }
        if is_within_range(&ecs.player_position, &fov.content[j], range) {
            cells.push(fov.content[j]);
        }
        j += 1;
    }
    assert(fov.content@.take(j as int) =~= fov.content@);
    Some(cells)
}

/// What the selection of a target comes to: given up, if the player has no
/// field of view; selected, on a click with shift on a cell in range; given
/// up, on such a click elsewhere, or on the escape key; and going on
/// otherwise.
pub open spec fn target_selection(ecs: &World, range: int, input: Input) -> (
    TargetSelectionState,
    Option<Position>,
) {
    if !(ecs.store.alive(ecs.player) && ecs.store.of(ecs.player).fov is Some) {
        (TargetSelectionState::Cancel, None)
    } else {
        let aimed = ecs.store.of(ecs.player).fov->0.content@.contains(input.mouse)
            && within_range(ecs.player_position, input.mouse, range);
        if input.left_click && input.shift {
            if aimed {
                (TargetSelectionState::Selected, Some(input.mouse))
            } else {
                (TargetSelectionState::Cancel, None)
            }
        } else if input.key == Some(VirtualKeyCode::Escape) {
            (TargetSelectionState::Cancel, None)
        } else {
            (TargetSelectionState::Selecting, None)
        }
    }
}

/// Decides how the selection of the target of an item with the given range
/// goes on, from the input of the player.
pub fn draw_player_ranged_targeting(range: i32, ecs: &World, input: &Input) -> (result:
    TargetSelectionResult)
    ensures
        (result.0, result.1) == target_selection(ecs, range as int, *input),
{
    let cells = match cells_in_range(range, ecs) {
        None => {
            return TargetSelectionResult(TargetSelectionState::Cancel, None);
        },
        Some(cells) => cells,
    };
    proof {
        lemma_cells_within(
            ecs.store.of(ecs.player).fov->0.content@,
            ecs.player_position,
            range as int,
            input.mouse,
        );
    }
    let aimed = points_contain(&cells, &input.mouse);
    if input.left_click && input.shift {
        if aimed {
            return TargetSelectionResult(TargetSelectionState::Selected, Some(input.mouse));
        } else {
            return TargetSelectionResult(TargetSelectionState::Cancel, None);
        }
    }
    if let Some(key) = input.key {
        if key == VirtualKeyCode::Escape {
            return TargetSelectionResult(TargetSelectionState::Cancel, None);
        }
    }
    TargetSelectionResult(TargetSelectionState::Selecting, None)
}

/// The names of the entities in the slots below `n` that stand at
/// `position`, in the order of their slots.
pub open spec fn names_at(store: &Store, n: int, position: Position) -> Seq<Seq<char>>
    decreases n,
{
    if n <= 0 {
        Seq::empty()
    } else if store.holds(n - 1) && store.at(n - 1).name is Some && store.at(n - 1).position
        == Some(position) {
        names_at(store, n - 1, position).push(store.at(n - 1).name_text())
    } else {
        names_at(store, n - 1, position)
    }
}

/// The tooltips for the tile under the mouse: the names of the entities on
/// it, if the tile passes the bounds check and the player sees it now; none
/// otherwise.
pub fn draw_tooltips(ecs: &World, mouse: &Position) -> (tooltips: Vec<String>)
    requires
        ecs.map.wf(),
    ensures
        crate::item_use::texts(tooltips@) == if ecs.map.spec_check_idx(
            mouse.x as int,
            mouse.y as int,
        ) && ecs.map.tiles_in_fov@[ecs.map.spec_idx(mouse.x as int, mouse.y as int)] {
            names_at(&ecs.store, ecs.store.len(), *mouse)
        } else {
            Seq::empty()
        },
{
    let mut tooltips: Vec<String> = Vec::new();
    assert(crate::item_use::texts(tooltips@) =~= Seq::<Seq<char>>::empty());
    if !ecs.map.check_idx(mouse.x, mouse.y) {
        return tooltips;
    }
    proof {
        crate::map::lemma_idx_coordinates_inverse(ecs.map, mouse.x as int, mouse.y as int);
    }
    if !ecs.map.is_tile_in_fov(mouse.x, mouse.y) {
        return tooltips;
    }
    let mut i: usize = 0;
    while i < ecs.store.slots.len()
        invariant
            i <= ecs.store.slots@.len(),
            crate::item_use::texts(tooltips@) == names_at(&ecs.store, i as int, *mouse),
        decreases ecs.store.slots@.len() - i,
    {
        if let Some(c) = &ecs.store.slots[i] {
            if let Some(name) = &c.name {
                if let Some(position) = c.position {
                    if position.is_equal(mouse) {
                        let ghost shown = crate::item_use::texts(tooltips@);
                        tooltips.push(name.name.clone());
                        assert(crate::item_use::texts(tooltips@) =~= shown.push(name.name@));
                    }
                }
            }
        }
        i += 1;
    }
    tooltips
}

} // verus!
