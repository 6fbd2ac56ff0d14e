use vstd::prelude::*;

verus! {

/// Board width: columns `0` and `WIDTH` are walls.
pub const WIDTH: u16 = 35;

/// Board height: rows `0` and `HEIGHT` are walls.
pub const HEIGHT: u16 = 21;

/// A grid cell, `(x, y)`, with `y` growing downwards.
pub type Position = (u16, u16);

#[derive(Clone, Copy, Debug, PartialEq, Eq, Structural)]
pub enum Direction {
    Up,
    Down,
    Left,
    Right,
}

/// The direction pointing the other way.
pub open spec fn opposite(d: Direction) -> Direction {
    match d {
        Direction::Up => Direction::Down,
        Direction::Down => Direction::Up,
        Direction::Left => Direction::Right,
        Direction::Right => Direction::Left,
    }
}

/// One less, stopping at zero.
pub open spec fn dec(v: u16) -> u16 {
    if v == 0 { 0 } else { (v - 1) as u16 }
}

/// One more, stopping at the largest coordinate.
pub open spec fn inc(v: u16) -> u16 {
    if v == u16::MAX { u16::MAX } else { (v + 1) as u16 }
}

/// The cell one unit away from `p` in direction `d`. Coordinates never wrap:
/// a step off the coordinate range stays on its edge, which is a wall.
pub open spec fn step(p: Position, d: Direction) -> Position {
    match d {
        Direction::Up => (p.0, dec(p.1)),
        Direction::Down => (p.0, inc(p.1)),
        Direction::Left => (dec(p.0), p.1),
        Direction::Right => (inc(p.0), p.1),
    }
}

/// Column change of one step in direction `d`.
pub open spec fn dx(d: Direction) -> int {
    match d {
        Direction::Left => -1,
        Direction::Right => 1,
        _ => 0,
    }
}

/// Row change of one step in direction `d`.
pub open spec fn dy(d: Direction) -> int {
    match d {
        Direction::Up => -1,
        Direction::Down => 1,
        _ => 0,
    }
}

/// Off the edges of the coordinate range, a step moves exactly one unit in
/// its direction, and a step the other way moves one unit back.
pub proof fn lemma_step_unit(p: Position, d: Direction)
    requires
        0 < p.0 < u16::MAX,
        0 < p.1 < u16::MAX,
    ensures
        step(p, d).0 == p.0 + dx(d),
        step(p, d).1 == p.1 + dy(d),
        step(p, opposite(d)).0 == p.0 - dx(d),
        step(p, opposite(d)).1 == p.1 - dy(d),
{
}

/// Whether `p` is a playable cell, strictly inside the wall ring.
pub open spec fn in_bounds(p: Position) -> bool {
    0 < p.0 < WIDTH && 0 < p.1 < HEIGHT
}

impl Direction {
    /// Whether `other` points exactly the other way.
    pub fn is_opposite(&self, other: &Direction) -> (r: bool)
        ensures
            r == (*other == opposite(*self)),
    {
        match (*self, *other) {
            (Direction::Up, Direction::Down) | (Direction::Down, Direction::Up) => true,
            (Direction::Left, Direction::Right) | (Direction::Right, Direction::Left) => true,
            _ => false,
        }
    }

    /// The direction pointing the other way.
    pub fn reversed(&self) -> (r: Direction)
        ensures
            r == opposite(*self),
    {
        match *self {
            Direction::Up => Direction::Down,
            Direction::Down => Direction::Up,
            Direction::Left => Direction::Right,
            Direction::Right => Direction::Left,
        }
    }
}

/// The cell one unit away from `p` in direction `d`, without wrapping.
pub fn step_from(p: Position, d: Direction) -> (r: Position)
    ensures
        r == step(p, d),
{
    match d {
        Direction::Up => (p.0, p.1.saturating_sub(1)),
        Direction::Down => (p.0, p.1.saturating_add(1)),
        Direction::Left => (p.0.saturating_sub(1), p.1),
        Direction::Right => (p.0.saturating_add(1), p.1),
    }
}

/// Whether `p` is strictly inside the wall ring.
pub fn is_inside(p: Position) -> (r: bool)
    ensures
        r == in_bounds(p),
{
    0 < p.0 && p.0 < WIDTH && 0 < p.1 && p.1 < HEIGHT
}

} // verus!
