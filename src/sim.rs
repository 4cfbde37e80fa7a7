//! The whole simulation state and the ordered phases of one frame.
use vstd::prelude::*;
use crate::grid::{Direction, Position, in_arena, opposite_of};
use crate::ids::EntityIds;
use crate::food::{Food, food_at, food_spawner, growth_event, with_spawned};
use crate::snake::{
    DirectionKeys, GrowthEvent, Segment, SnakeSegments, chain_in_arena, eaten, moved, snake_eating,
    snake_growth, snake_movement, snake_movement_input, spawn_snake, steered, uneaten,
};
use crate::timer::{TickTimer, TICK_PERIOD_MICROS};

verus! {

/// Every food item lies in the arena.
pub open spec fn foods_in_arena(foods: Seq<Food>) -> bool {
    forall|j: int| 0 <= j < foods.len() ==> in_arena(#[trigger] foods[j].position)
}

/// Segments and food items all carry identities below `next`, and no two of
/// them share one.
pub open spec fn ids_ok(segs: Seq<Segment>, foods: Seq<Food>, next: u64) -> bool {
    &&& forall|i: int| 0 <= i < segs.len() ==> #[trigger] segs[i].id < next
    &&& forall|j: int| 0 <= j < foods.len() ==> #[trigger] foods[j].id < next
    &&& forall|i: int, k: int|
        0 <= i < k < segs.len() ==> #[trigger] segs[i].id != #[trigger] segs[k].id
    &&& forall|j: int, k: int|
        0 <= j < k < foods.len() ==> #[trigger] foods[j].id != #[trigger] foods[k].id
    &&& forall|i: int, j: int|
        0 <= i < segs.len() && 0 <= j < foods.len() ==> #[trigger] segs[i].id
            != #[trigger] foods[j].id
}

/// Keeping only the food away from the head keeps identities apart, each
/// kept item being one of the originals.
proof fn lemma_uneaten_ids(segs: Seq<Segment>, foods: Seq<Food>, head: Position, next: u64)
    requires
        ids_ok(segs, foods, next),
        foods_in_arena(foods),
    ensures
        ids_ok(segs, uneaten(foods, head), next),
        foods_in_arena(uneaten(foods, head)),
    decreases foods.len(),
{
    reveal(Seq::filter);
    if foods.len() > 0 {
        let pre = foods.drop_last();
        lemma_uneaten_ids(segs, pre, head, next);
        let sub = uneaten(pre, head);
        let last = foods.last();
        assert(uneaten(foods, head) == if last.position != head {
            sub.push(last)
        } else {
            sub
        });
        if last.position != head {
            assert forall|j: int| 0 <= j < sub.len() implies #[trigger] sub[j].id != last.id by {
                lemma_uneaten_member(pre, head, j);
                let k = choose|k: int| 0 <= k < pre.len() && pre[k] == sub[j];
                assert(foods[k] == pre[k]);
                assert(foods[foods.len() - 1] == last);
            }
            assert forall|i: int, j: int|
                0 <= i < segs.len() && 0 <= j < sub.len() + 1 implies #[trigger] segs[i].id
                != #[trigger] sub.push(last)[j].id by {
                if j == sub.len() {
                    assert(foods[foods.len() - 1] == last);
                }
            }
        }
    }
}

/// Each item kept by `uneaten` is one of the originals.
proof fn lemma_uneaten_member(foods: Seq<Food>, head: Position, j: int)
    requires
        0 <= j < uneaten(foods, head).len(),
    ensures
        exists|k: int| 0 <= k < foods.len() && foods[k] == uneaten(foods, head)[j],
    decreases foods.len(),
{
    reveal(Seq::filter);
    let pre = foods.drop_last();
    let sub = uneaten(pre, head);
    if j < sub.len() {
        lemma_uneaten_member(pre, head, j);
        let k = choose|k: int| 0 <= k < pre.len() && pre[k] == sub[j];
        assert(foods[k] == pre[k]);
    } else {
        assert(foods[foods.len() - 1] == uneaten(foods, head)[j]);
    }
}

/// Spawning food on cells of the arena with identities from `next` on keeps
/// identities apart.
proof fn lemma_spawned_ids(segs: Seq<Segment>, foods: Seq<Food>, next: u64, cells: Seq<Position>)
    requires
        ids_ok(segs, foods, next),
        foods_in_arena(foods),
        forall|k: int| 0 <= k < cells.len() ==> in_arena(#[trigger] cells[k]),
        next + cells.len() <= u64::MAX,
    ensures
        ids_ok(segs, with_spawned(foods, next, cells), (next + cells.len()) as u64),
        foods_in_arena(with_spawned(foods, next, cells)),
{
    let all = with_spawned(foods, next, cells);
    assert forall|j: int| foods.len() <= j < all.len() implies #[trigger] all[j].id == next + (j
        - foods.len()) && in_arena(all[j].position) by {
        assert(in_arena(cells[j - foods.len()]));
    }
}

/// Appending a segment with identity `next` keeps identities apart.
proof fn lemma_grown_ids(segs: Seq<Segment>, foods: Seq<Food>, next: u64, p: Position)
    requires
        ids_ok(segs, foods, next),
        next < u64::MAX,
    ensures
        ids_ok(segs.push(Segment { id: next, position: p }), foods, (next + 1) as u64),
{
    let all = segs.push(Segment { id: next, position: p });
    assert forall|i: int| 0 <= i < segs.len() implies #[trigger] all[i] == segs[i] by {}
}

/// When some food is eaten, some food item lay on the head's cell.
proof fn lemma_some_eaten(foods: Seq<Food>, head: Position)
    requires
        eaten(foods, head).len() > 0,
    ensures
        exists|j: int| 0 <= j < foods.len() && #[trigger] foods[j].position == head,
    decreases foods.len(),
{
    reveal(Seq::filter);
    let pre = foods.drop_last();
    if foods.last().position == head {
        assert(foods[foods.len() - 1].position == head);
    } else {
        assert(eaten(pre, head).len() == eaten(foods, head).len());
        lemma_some_eaten(pre, head);
        let j = choose|j: int| 0 <= j < pre.len() && #[trigger] pre[j].position == head;
        assert(foods[j] == pre[j]);
    }
}

/// The identity source after a frame's growth phase: one identity is used
/// when at least one growth event came.
pub open spec fn next_after_growth(next: u64, events: nat) -> u64 {
    if events > 0 {
        (next + 1) as u64
    } else {
        next
    }
}

/// The simulation: the chain and its heading, the tail cell from before the
/// latest step, the food on the board, the identity source and the tick timer.
#[derive(Debug)]
pub struct Simulation {
    pub segments: SnakeSegments,
    pub direction: Direction,
    pub last_tail_position: Option<Position>,
    pub foods: Vec<Food>,
    pub ids: EntityIds,
    pub timer: TickTimer,
}

impl Simulation {
    /// The chain has its two starting segments or more, everything lies in
    /// the arena, identities are unique and the tick timer is well formed.
    pub open spec fn wf(&self) -> bool {
        &&& self.segments.0@.len() >= 2
        &&& chain_in_arena(self.segments.0@)
        &&& foods_in_arena(self.foods@)
        &&& (self.last_tail_position matches Some(p) ==> in_arena(p))
        &&& ids_ok(self.segments.0@, self.foods@, self.ids.next)
        &&& self.timer.wf()
        &&& self.timer.period == TICK_PERIOD_MICROS
    }

    /// Whether the tick timer admits a movement step when `delta` more time passes.
    pub open spec fn fires(&self, delta: u64) -> bool {
        self.timer.elapsed + delta >= self.timer.period
    }

    /// The chain once this frame's movement phase is over.
    pub open spec fn chain_after_move(&self, keys: DirectionKeys, delta: u64) -> Seq<Segment> {
        if self.fires(delta) {
            moved(self.segments.0@, steered(self.direction, keys))
        } else {
            self.segments.0@
        }
    }

    /// The head's cell once this frame's movement phase is over.
    pub open spec fn head_after_move(&self, keys: DirectionKeys, delta: u64) -> Position {
        self.chain_after_move(keys, delta)[0].position
    }

    /// The recorded tail cell once this frame's movement phase is over.
    pub open spec fn tail_after_move(&self, delta: u64) -> Option<Position> {
        if self.fires(delta) {
            Some(self.segments.0@.last().position)
        } else {
            self.last_tail_position
        }
    }

    /// Growth can take place this frame: a tail cell is recorded by then, or
    /// no food lies where the head will be.
    pub open spec fn growth_ready(&self, keys: DirectionKeys, delta: u64) -> bool {
        ||| self.tail_after_move(delta) is Some
        ||| forall|j: int|
            0 <= j < self.foods@.len() ==> #[trigger] self.foods@[j].position != self.head_after_move(
                keys,
                delta,
            )
    }

    /// Enough identities are left for the busiest frame: one per food item
    /// and one segment.
    pub open spec fn has_id_room(&self) -> bool {
        self.ids.next + self.foods@.len() + 1 <= u64::MAX
    }

    /// The state at start: the chain at (3, 3) and (3, 2) heading Up, one
    /// food item on a random cell, nothing elapsed and no tail recorded.
    pub fn new() -> (r: Self)
        ensures
            r.wf(),
            r.segments.0@.len() == 2,
            r.segments.0@[0].position == (Position { x: 3, y: 3 }),
            r.segments.0@[1].position == (Position { x: 3, y: 2 }),
            r.direction == Direction::Up,
            r.last_tail_position is None,
            r.foods@.len() == 1,
            r.timer.elapsed == 0,
            r.ids.next == 3,
    {
        let mut ids = EntityIds::new();
        let segments = spawn_snake(&mut ids);
        let food = food_spawner(&mut ids);
        let mut foods: Vec<Food> = Vec::new();
        foods.push(food);
        Simulation {
            segments,
            direction: Direction::Up,
            last_tail_position: None,
            foods,
            ids,
            timer: TickTimer::new(TICK_PERIOD_MICROS),
        }
    }

    /// Whether `update` may run on this input: false when food would be
    /// eaten before any movement step has recorded a tail cell, or when
    /// `delta` spans more periods than the tick timer counts.
    pub fn can_update(&self, keys: DirectionKeys, delta: u64) -> (r: bool)
        requires
            self.wf(),
        ensures
            r == (self.growth_ready(keys, delta) && self.timer.admits(delta)),
    {
        if !self.timer.delta_fits(delta) {
            false
        } else if self.last_tail_position.is_some() || delta >= self.timer.period
            - self.timer.elapsed {
            true
        } else {
            !food_at(&self.foods, self.segments.0[0].position)
        }
    }

    /// Whether identities are left for the busiest next frame.
    pub fn ids_left(&self) -> (r: bool)
        ensures
            r == self.has_id_room(),
    {
        let n = self.foods.len() as u64;
        n < u64::MAX && self.ids.has_room(n + 1)
    }

    /// Runs one frame: input, then a movement step if the tick timer admits one,
    /// then collision, then growth and food spawning. Returns the frame's
    /// growth events, one per food item eaten.
    pub fn update(&mut self, keys: DirectionKeys, delta: u64) -> (events: Vec<GrowthEvent>)
        requires
            old(self).wf(),
            old(self).growth_ready(keys, delta),
            old(self).timer.admits(delta),
            old(self).has_id_room(),
        ensures
            final(self).wf(),
            final(self).direction == steered(old(self).direction, keys),
            final(self).direction != opposite_of(old(self).direction),
            final(self).timer.elapsed == (old(self).timer.elapsed + delta) % (
            old(self).timer.period as int),
            final(self).last_tail_position == old(self).tail_after_move(delta),
            events@ == eaten(old(self).foods@, old(self).head_after_move(keys, delta)),
            events@.len() > 0 ==> final(self).segments.0@ == old(self).chain_after_move(
                keys,
                delta,
            ).push(
                Segment {
                    id: old(self).ids.next,
                    position: old(self).tail_after_move(delta).unwrap(),
                },
            ),
            events@.len() == 0 ==> final(self).segments.0@ == old(self).chain_after_move(
                keys,
                delta,
            ),
            final(self).segments.0@.len() >= old(self).segments.0@.len(),
            final(self).segments.0@.len() == old(self).segments.0@.len() + 1 <==> events@.len()
                > 0,
            exists|cells: Seq<Position>|
                cells.len() == events@.len() && (forall|k: int|
                    0 <= k < cells.len() ==> in_arena(#[trigger] cells[k])) && final(self).foods@
                    == with_spawned(
                    uneaten(old(self).foods@, old(self).head_after_move(keys, delta)),
                    next_after_growth(old(self).ids.next, events@.len()),
                    cells,
                ),
            uneaten(old(self).foods@, old(self).head_after_move(keys, delta)).len() + events@.len()
                == old(self).foods@.len(),
            final(self).foods@.len() == uneaten(
                old(self).foods@,
                old(self).head_after_move(keys, delta),
            ).len() + events@.len(),
    {
        let ghost start = *self;
        snake_movement_input(&mut self.direction, keys);
        if self.timer.tick(delta) {
            let d = self.direction;
            self.last_tail_position = snake_movement(&mut self.segments, d);
            proof {
                let m = self.segments.0@;
                assert forall|i: int| 0 <= i < m.len() implies #[trigger] m[i].id
                    == start.segments.0@[i].id && in_arena(m[i].position) by {
                    if i > 0 {
                        assert(in_arena(start.segments.0@[i - 1].position));
                    }
                }
            }
        }
        assert(self.segments.0@ == start.chain_after_move(keys, delta));
        assert(ids_ok(self.segments.0@, self.foods@, self.ids.next));
        let head = self.segments.0[0].position;
        let events = snake_eating(head, &mut self.foods);
        proof {
            lemma_uneaten_ids(self.segments.0@, start.foods@, head, self.ids.next);
            if events@.len() > 0 {
                lemma_some_eaten(start.foods@, head);
            }
        }
        let ghost mid_segs = self.segments.0@;
        snake_growth(&mut self.segments, &mut self.ids, self.last_tail_position, &events);
        proof {
            if events@.len() > 0 {
                lemma_grown_ids(mid_segs, self.foods@, start.ids.next, self.last_tail_position.unwrap());
            }
        }
        let ghost mid_foods = self.foods@;
        let ghost mid_next = self.ids.next;
        growth_event(&mut self.foods, &mut self.ids, &events);
        proof {
            let cells = choose|cells: Seq<Position>|
                cells.len() == events@.len() && (forall|k: int|
                    0 <= k < cells.len() ==> in_arena(#[trigger] cells[k]))
                    && self.foods@ == with_spawned(mid_foods, mid_next, cells);
            lemma_spawned_ids(self.segments.0@, mid_foods, mid_next, cells);
            assert(head == start.head_after_move(keys, delta));
            assert(mid_next == next_after_growth(start.ids.next, events@.len()));
            assert(self.foods@ == with_spawned(
                uneaten(start.foods@, start.head_after_move(keys, delta)),
                next_after_growth(start.ids.next, events@.len()),
                cells,
            ));
        }
        events
    }
}

} // verus!
