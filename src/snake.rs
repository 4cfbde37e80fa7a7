//! The segment chain: steering, the movement step and growth.
use vstd::prelude::*;
use crate::grid::{
    ARENA_HEIGHT, ARENA_WIDTH, Direction, Position, dx, dy, opposite_of, stepped, step_position,
    in_arena,
};
use crate::ids::EntityIds;
use crate::food::Food;

verus! {

/// One link of the chain, the head included.
#[derive(Clone, Copy, Debug, PartialEq, Eq, Structural)]
pub struct Segment {
    pub id: u64,
    pub position: Position,
}

/// The chain of segments: index 0 is the head, the last index the tail.
#[derive(Debug)]
pub struct SnakeSegments(pub Vec<Segment>);

/// Marks that the head ate the food item `food` this frame.
#[derive(Clone, Copy, Debug, PartialEq, Eq, Structural)]
pub struct GrowthEvent {
    pub food: u64,
}

/// The directional keys held down during a frame.
#[derive(Clone, Copy, Debug, PartialEq, Eq, Structural)]
pub struct DirectionKeys {
    pub left: bool,
    pub down: bool,
    pub up: bool,
    pub right: bool,
}

/// The heading asked for by `keys`: the first held key in the order Left,
/// Down, Up, Right, or `current` when none is held.
pub open spec fn requested(keys: DirectionKeys, current: Direction) -> Direction {
    if keys.left {
        Direction::Left
    } else if keys.down {
        Direction::Down
    } else if keys.up {
        Direction::Up
    } else if keys.right {
        Direction::Right
    } else {
        current
    }
}

/// The heading after a frame's input: the requested one, unless it would
/// turn the snake straight back.
pub open spec fn steered(current: Direction, keys: DirectionKeys) -> Direction {
    let d = requested(keys, current);
    if d != opposite_of(current) {
        d
    } else {
        current
    }
}

/// Steering never turns the heading into its opposite, whatever keys are held.
pub proof fn lemma_steering_never_reverses(current: Direction, keys: DirectionKeys)
    ensures
        steered(current, keys) != opposite_of(current),
{
}

/// The chain after one movement step along `d`: the head advances with
/// wraparound and every other segment takes its predecessor's old cell.
pub open spec fn moved(chain: Seq<Segment>, d: Direction) -> Seq<Segment>
    recommends
        chain.len() > 0,
{
    Seq::new(
        chain.len(),
        |i: int|
            if i == 0 {
                Segment { id: chain[0].id, position: stepped(chain[0].position, d) }
            } else {
                Segment { id: chain[i].id, position: chain[i - 1].position }
            },
    )
}

/// A movement step moves the head by the heading's unit vector, each axis
/// reduced by Euclidean remainder, moves every other segment onto the cell
/// its predecessor held before the step, and keeps every identity.
pub proof fn lemma_movement_step(chain: Seq<Segment>, d: Direction)
    requires
        chain.len() > 0,
    ensures
        moved(chain, d).len() == chain.len(),
        moved(chain, d)[0].position.x == (chain[0].position.x + dx(d)) % (ARENA_WIDTH as int),
        moved(chain, d)[0].position.y == (chain[0].position.y + dy(d)) % (ARENA_HEIGHT as int),
        forall|i: int|
            1 <= i < chain.len() ==> #[trigger] moved(chain, d)[i].position == chain[i
                - 1].position,
        forall|i: int| 0 <= i < chain.len() ==> #[trigger] moved(chain, d)[i].id == chain[i].id,
{
}

/// Every segment of the chain lies in the arena.
pub open spec fn chain_in_arena(chain: Seq<Segment>) -> bool {
    forall|i: int| 0 <= i < chain.len() ==> in_arena(#[trigger] chain[i].position)
}

/// The chain placed at start: the head at (3, 3) and one segment at (3, 2).
pub fn spawn_snake(ids: &mut EntityIds) -> (r: SnakeSegments)
    requires
        old(ids).next + 2 <= u64::MAX,
    ensures
        r.0@ == seq![
            Segment { id: old(ids).next, position: Position { x: 3, y: 3 } },
            Segment { id: (old(ids).next + 1) as u64, position: Position { x: 3, y: 2 } },
        ],
        final(ids).next == old(ids).next + 2,
{
    let head = spawn_segment(ids, Position { x: 3, y: 3 });
    let tail = spawn_segment(ids, Position { x: 3, y: 2 });
    let mut v: Vec<Segment> = Vec::new();
    v.push(head);
    v.push(tail);
    assert(v@ =~= seq![head, tail]);
    SnakeSegments(v)
}

/// A new segment at `position` with a fresh identity.
pub fn spawn_segment(ids: &mut EntityIds, position: Position) -> (r: Segment)
    requires
        old(ids).next < u64::MAX,
    ensures
        r == (Segment { id: old(ids).next, position }),
        final(ids).next == old(ids).next + 1,
{
    let id = ids.fresh();
    Segment { id, position }
}

/// The heading asked for by `keys`, by the fixed order Left, Down, Up, Right.
pub fn requested_direction(keys: DirectionKeys, current: Direction) -> (r: Direction)
    ensures
        r == requested(keys, current),
{
    if keys.left {
        Direction::Left
    } else if keys.down {
        Direction::Down
    } else if keys.up {
        Direction::Up
    } else if keys.right {
        Direction::Right
    } else {
        current
    }
}

/// Applies one frame's input to the heading, refusing a reversal.
pub fn snake_movement_input(direction: &mut Direction, keys: DirectionKeys)
    ensures
        *final(direction) == steered(*old(direction), keys),
        *final(direction) != opposite_of(*old(direction)),
{
    let dir = requested_direction(keys, *direction);
    if dir != direction.opposite() {
        *direction = dir;
    }
}

/// Advances the chain one step along `direction` and returns the tail's
/// cell from before the step; a chain without a head is left alone.
pub fn snake_movement(segments: &mut SnakeSegments, direction: Direction) -> (last_tail: Option<
    Position,
>)
    ensures
        old(segments).0@.len() == 0 ==> last_tail is None && final(segments).0@ == old(
            segments,
        ).0@,
        old(segments).0@.len() > 0 ==> last_tail == Some(old(segments).0@.last().position),
        final(segments).0@ == moved(old(segments).0@, direction),
        final(segments).0@.len() == old(segments).0@.len(),
        old(segments).0@.len() > 0 ==> final(segments).0@[0].position == stepped(
            old(segments).0@[0].position,
            direction,
        ),
        forall|i: int|
            1 <= i < old(segments).0@.len() ==> #[trigger] final(segments).0@[i].position
                == old(segments).0@[i - 1].position,
{
    let n = segments.0.len();
    if n == 0 {
        assert(segments.0@ =~= moved(segments.0@, direction));
        return None;
    }
    let mut snapshot: Vec<Position> = Vec::new();
    let mut k: usize = 0;
    while k < n
        invariant
            k <= n,
            n == segments.0@.len(),
            snapshot@.len() == k,
            forall|j: int| 0 <= j < k ==> #[trigger] snapshot@[j] == segments.0@[j].position,
        decreases n - k,
    {
        snapshot.push(segments.0[k].position);
        k = k + 1;
    }
    let ghost before = segments.0@;
    let mut head = segments.0[0];
    head.position = step_position(snapshot[0], direction);
    segments.0.set(0, head);
    let mut i: usize = 1;
    while i < n
        invariant
            1 <= i <= n,
            n == before.len(),
            segments.0@.len() == n,
            snapshot@.len() == n,
            forall|j: int| 0 <= j < n ==> #[trigger] snapshot@[j] == before[j].position,
            forall|j: int| 0 <= j < i ==> #[trigger] segments.0@[j] == moved(before, direction)[j],
            forall|j: int| i <= j < n ==> #[trigger] segments.0@[j] == before[j],
        decreases n - i,
    {
        let mut seg = segments.0[i];
        seg.position = snapshot[i - 1];
        segments.0.set(i, seg);
        i = i + 1;
    }
    assert(segments.0@ =~= moved(before, direction));
    Some(snapshot[n - 1])
}

/// Appends one segment at `last_tail` when at least one growth event came
/// this frame, however many came.
pub fn snake_growth(
    segments: &mut SnakeSegments,
    ids: &mut EntityIds,
    last_tail: Option<Position>,
    events: &Vec<GrowthEvent>,
)
    requires
        events@.len() > 0 ==> last_tail is Some,
        old(ids).next < u64::MAX,
    ensures
        events@.len() > 0 ==> final(segments).0@ == old(segments).0@.push(
            Segment { id: old(ids).next, position: last_tail.unwrap() },
        ) && final(ids).next == old(ids).next + 1,
        events@.len() == 0 ==> *final(segments) == *old(segments) && *final(ids) == *old(ids),
{
    if events.len() > 0 {
        let tail = last_tail.unwrap();
        let seg = spawn_segment(ids, tail);
        segments.0.push(seg);
    }
}

/// The food items that lie elsewhere than `head`.
pub open spec fn uneaten(foods: Seq<Food>, head: Position) -> Seq<Food> {
    foods.filter(|f: Food| f.position != head)
}

/// One growth event for each food item that lies on `head`, in order.
pub open spec fn eaten(foods: Seq<Food>, head: Position) -> Seq<GrowthEvent> {
    foods.filter(|f: Food| f.position == head).map_values(|f: Food| GrowthEvent { food: f.id })
}

/// Removes every food item lying on the head's cell and returns one growth
/// event per item removed.
pub fn snake_eating(head: Position, foods: &mut Vec<Food>) -> (events: Vec<GrowthEvent>)
    ensures
        final(foods)@ == uneaten(old(foods)@, head),
        events@ == eaten(old(foods)@, head),
        final(foods)@.len() + events@.len() == old(foods)@.len(),
{
    let ghost start = foods@;
    let mut kept: Vec<Food> = Vec::new();
    let mut events: Vec<GrowthEvent> = Vec::new();
    let n = foods.len();
    let mut i: usize = 0;
    while i < n
        invariant
            i <= n,
            n == start.len(),
            foods@ == start,
            kept@ == uneaten(start.subrange(0, i as int), head),
            events@ == eaten(start.subrange(0, i as int), head),
            kept@.len() + events@.len() == i,
        decreases n - i,
    {
        let f = foods[i];
        proof {
            let pre = start.subrange(0, i as int);
            let post = start.subrange(0, i + 1);
            assert(post.drop_last() =~= pre);
            assert(post.last() == f);
            reveal(Seq::filter);
        }
        if f.position == head {
            events.push(GrowthEvent { food: f.id });
        } else {
            kept.push(f);
        }
        i = i + 1;
        proof {
            let pre = start.subrange(0, i - 1);
            let post = start.subrange(0, i as int);
            let fe = |g: Food| g.position == head;
            let m = |g: Food| GrowthEvent { food: g.id };
            if f.position == head {
                assert(post.filter(fe) == pre.filter(fe).push(f));
                assert(post.filter(fe).map_values(m) =~= pre.filter(fe).map_values(m).push(m(f)));
            } else {
                assert(post.filter(fe) == pre.filter(fe));
            }
        }
    }
    assert(start.subrange(0, n as int) =~= start);
    *foods = kept;
    events
}

} // verus!
