//! Food items: the first one placed at start and those spawned on growth.
use vstd::prelude::*;
use rand::Rng;
use crate::grid::{Position, in_arena, ARENA_WIDTH, ARENA_HEIGHT};
use crate::ids::EntityIds;
use crate::snake::GrowthEvent;

verus! {

/// A food item lying on a cell of the arena.
#[derive(Clone, Copy, Debug, PartialEq, Eq, Structural)]
pub struct Food {
    pub id: u64,
    pub position: Position,
}

/// `foods` followed by one new food item per cell of `cells`, the k-th
/// carrying identity `next + k`.
pub open spec fn with_spawned(foods: Seq<Food>, next: u64, cells: Seq<Position>) -> Seq<Food> {
    foods + Seq::new(
        cells.len(),
        |k: int| Food { id: (next + k) as u64, position: cells[k] },
    )
}

/// Relies on rand's `thread_rng().gen_range(0..bound)`: a value drawn
/// uniformly from `[0, bound)`; it panics only on an empty range.
#[verifier::external_body]
fn random_coordinate(bound: i32) -> (r: i32)
    requires
        bound > 0,
    ensures
        0 <= r < bound,
{
    rand::thread_rng().gen_range(0..bound)
}

/// A cell drawn at random: each axis on its own, uniformly over its integer
/// range, so that no cell is favoured.
pub fn random_position() -> (r: Position)
    ensures
        in_arena(r),
{
    let x = random_coordinate(ARENA_WIDTH);
    let y = random_coordinate(ARENA_HEIGHT);
    Position { x, y }
}

/// The food item placed at start, on a random cell.
pub fn food_spawner(ids: &mut EntityIds) -> (r: Food)
    requires
        old(ids).next < u64::MAX,
    ensures
        r.id == old(ids).next,
        in_arena(r.position),
        final(ids).next == old(ids).next + 1,
{
    let position = random_position();
    let id = ids.fresh();
    Food { id, position }
}

/// Adds one food item per cell of `cells`, in order, with fresh identities;
/// the food already there is left as it was.
pub fn spawn_food_at(foods: &mut Vec<Food>, ids: &mut EntityIds, cells: &Vec<Position>)
    requires
        old(ids).next + cells@.len() <= u64::MAX,
    ensures
        final(foods)@ == with_spawned(old(foods)@, old(ids).next, cells@),
        final(ids).next == old(ids).next + cells@.len(),
{
    let ghost start = foods@;
    let ghost first = ids.next;
    let mut k: usize = 0;
    while k < cells.len()
        invariant
            k <= cells@.len(),
            first + cells@.len() <= u64::MAX,
            ids.next == first + k,
            foods@ == with_spawned(start, first, cells@.subrange(0, k as int)),
        decreases cells@.len() - k,
    {
        let id = ids.fresh();
        foods.push(Food { id, position: cells[k] });
        k = k + 1;
        assert(foods@ =~= with_spawned(start, first, cells@.subrange(0, k as int)));
    }
    assert(cells@.subrange(0, k as int) =~= cells@);
}

/// Spawns one food item on a random cell for every growth event of the
/// frame; nothing is removed.
pub fn growth_event(foods: &mut Vec<Food>, ids: &mut EntityIds, events: &Vec<GrowthEvent>)
    requires
        old(ids).next + events@.len() <= u64::MAX,
    ensures
        exists|cells: Seq<Position>|
            cells.len() == events@.len() && (forall|k: int|
                0 <= k < cells.len() ==> in_arena(#[trigger] cells[k]))
                && final(foods)@ == with_spawned(old(foods)@, old(ids).next, cells),
        final(ids).next == old(ids).next + events@.len(),
{
    let mut cells: Vec<Position> = Vec::new();
    let mut k: usize = 0;
    while k < events.len()
        invariant
            k <= events@.len(),
            cells@.len() == k,
            forall|j: int| 0 <= j < k ==> in_arena(#[trigger] cells@[j]),
        decreases events@.len() - k,
    {
        cells.push(random_position());
        k = k + 1;
    }
    spawn_food_at(foods, ids, &cells);
}

/// Whether some food item lies on `p`.
pub fn food_at(foods: &Vec<Food>, p: Position) -> (r: bool)
    ensures
        r == exists|j: int| 0 <= j < foods@.len() && #[trigger] foods@[j].position == p,
{
    let mut j: usize = 0;
    while j < foods.len()
        invariant
            j <= foods@.len(),
            forall|k: int| 0 <= k < j ==> #[trigger] foods@[k].position != p,
        decreases foods@.len() - j,
    {
        if foods[j].position == p {
            return true;
        }
        j = j + 1;
    }
    false
}

} // verus!
