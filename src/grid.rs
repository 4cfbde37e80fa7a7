//! The arena, cell positions, headings and logical sizes.
use vstd::prelude::*;

verus! {

/// Number of columns of the arena; x coordinates wrap modulo this.
pub const ARENA_WIDTH: i32 = 10;

/// Number of rows of the arena; y coordinates wrap modulo this.
pub const ARENA_HEIGHT: i32 = 10;

/// A cell of the arena.
#[derive(Clone, Copy, Debug, PartialEq, Eq, Structural)]
pub struct Position {
    pub x: i32,
    pub y: i32,
}

/// True when `p` lies inside the arena.
pub open spec fn in_arena(p: Position) -> bool {
    0 <= p.x < ARENA_WIDTH && 0 <= p.y < ARENA_HEIGHT
}

/// One of the four headings of the snake.
#[derive(Clone, Copy, Debug, PartialEq, Eq, Structural)]
pub enum Direction {
    Left,
    Up,
    Right,
    Down,
}

/// The heading that points the other way.
pub open spec fn opposite_of(d: Direction) -> Direction {
    match d {
        Direction::Left => Direction::Right,
        Direction::Right => Direction::Left,
        Direction::Up => Direction::Down,
        Direction::Down => Direction::Up,
    }
}

/// Horizontal component of the unit vector of `d`.
pub open spec fn dx(d: Direction) -> int {
    match d {
        Direction::Left => -1,
        Direction::Right => 1,
        _ => 0,
    }
}

/// Vertical component of the unit vector of `d`.
pub open spec fn dy(d: Direction) -> int {
    match d {
        Direction::Up => 1,
        Direction::Down => -1,
        _ => 0,
    }
}

/// The cell reached from `p` by one unit step along `d`, each axis reduced
/// by Euclidean remainder so that the result stays in the arena.
pub open spec fn stepped(p: Position, d: Direction) -> Position {
    Position {
        x: ((p.x + dx(d)) % (ARENA_WIDTH as int)) as i32,
        y: ((p.y + dy(d)) % (ARENA_HEIGHT as int)) as i32,
    }
}

impl Direction {
    /// The heading that points the other way: Left and Right, Up and Down.
    pub fn opposite(self) -> (r: Self)
        ensures
            r == opposite_of(self),
    {
        match self {
            Self::Left => Self::Right,
            Self::Right => Self::Left,
            Self::Up => Self::Down,
            Self::Down => Self::Up,
        }
    }
}

/// Reduces `v` into `[0, bound)` by Euclidean remainder.
fn wrap_axis(v: i64, bound: i64) -> (r: i32)
    requires
        0 < bound <= i32::MAX,
    ensures
        r == v as int % bound as int,
        0 <= r < bound,
{
    let m = v.checked_rem_euclid(bound).unwrap();
    m as i32
}

/// The cell reached from `p` by one step along `d`, wrapped around the arena.
pub fn step_position(p: Position, d: Direction) -> (r: Position)
    ensures
        r == stepped(p, d),
        in_arena(r),
{
    let (ddx, ddy): (i64, i64) = match d {
        Direction::Left => (-1, 0),
        Direction::Right => (1, 0),
        Direction::Up => (0, 1),
        Direction::Down => (0, -1),
    };
    Position {
        x: wrap_axis(p.x as i64 + ddx, ARENA_WIDTH as i64),
        y: wrap_axis(p.y as i64 + ddy, ARENA_HEIGHT as i64),
    }
}

/// The logical size of a drawn entity, in hundredths of a cell.
#[derive(Clone, Copy, Debug, PartialEq, Eq, Structural)]
pub struct Size {
    pub width: u32,
    pub height: u32,
}

impl Size {
    /// A square whose side is `x` hundredths of a cell.
    pub fn square(x: u32) -> (r: Self)
        ensures
            r.width == x,
            r.height == x,
    {
        Self { width: x, height: x }
    }
}

/// Side of the head, in hundredths of a cell.
pub const HEAD_SIZE: u32 = 80;

/// Side of a body segment, in hundredths of a cell.
pub const SEGMENT_SIZE: u32 = 65;

/// Side of a food item, in hundredths of a cell.
pub const FOOD_SIZE: u32 = 80;

} // verus!
