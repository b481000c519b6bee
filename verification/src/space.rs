//! Basic value types of the simulation: grid cells, axis-aligned directions
//! and pipe colors. All are plain data, compared field by field.

use vstd::prelude::*;

verus! {

/// Largest extent of the grid along any axis. Bounds every coordinate, so
/// stepping to a neighbor can never overflow the coordinate type.
pub const MAX_EXTENT: u32 = 256;

/// A single addressable cell of the 3D grid, identified by its coordinates.
#[derive(Clone, Copy, PartialEq, Eq, Structural, Debug, Hash)]
pub struct Node {
    pub x: i32,
    pub y: i32,
    pub z: i32,
}

/// One of the six axis-aligned unit movement vectors.
#[derive(Clone, Copy, PartialEq, Eq, Structural, Debug)]
pub enum Direction {
    PosX,
    NegX,
    PosY,
    NegY,
    PosZ,
    NegZ,
}

/// An RGB pipe color drawn from the configured palette.
#[derive(Clone, Copy, PartialEq, Eq, Structural, Debug)]
pub struct Color {
    pub r: u8,
    pub g: u8,
    pub b: u8,
}

/// Canonical position of a direction in the fixed enumeration order. This
/// order is the documented tie-break whenever several directions are tried
/// in sequence, so that the engine never depends on an unordered iteration.
pub open spec fn spec_dir_index(d: Direction) -> int {
    match d {
        Direction::PosX => 0,
        Direction::NegX => 1,
        Direction::PosY => 2,
        Direction::NegY => 3,
        Direction::PosZ => 4,
        Direction::NegZ => 5,
    }
}

/// The direction standing at position `i` of the canonical order.
pub open spec fn spec_dir_from_index(i: int) -> Direction {
    if i == 0 {
        Direction::PosX
    } else if i == 1 {
        Direction::NegX
    } else if i == 2 {
        Direction::PosY
    } else if i == 3 {
        Direction::NegY
    } else if i == 4 {
        Direction::PosZ
    } else {
        Direction::NegZ
    }
}

/// The `t`-th direction, in canonical order, among the five that differ
/// from `d`.
pub open spec fn spec_nth_other(d: Direction, t: int) -> Direction {
    if t < spec_dir_index(d) {
        spec_dir_from_index(t)
    } else {
        spec_dir_from_index(t + 1)
    }
}

/// The direction opposite to `d`.
pub open spec fn spec_opposite(d: Direction) -> Direction {
    match d {
        Direction::PosX => Direction::NegX,
        Direction::NegX => Direction::PosX,
        Direction::PosY => Direction::NegY,
        Direction::NegY => Direction::PosY,
        Direction::PosZ => Direction::NegZ,
        Direction::NegZ => Direction::PosZ,
    }
}

/// The cell adjacent to `n` in direction `d`. Meaningful for coordinates
/// within the extent bound, where the sums cannot wrap.
pub open spec fn spec_step(n: Node, d: Direction) -> Node {
    match d {
        Direction::PosX => Node { x: (n.x + 1) as i32, ..n },
        Direction::NegX => Node { x: (n.x - 1) as i32, ..n },
        Direction::PosY => Node { y: (n.y + 1) as i32, ..n },
        Direction::NegY => Node { y: (n.y - 1) as i32, ..n },
        Direction::PosZ => Node { z: (n.z + 1) as i32, ..n },
        Direction::NegZ => Node { z: (n.z - 1) as i32, ..n },
    }
}

/// Every direction occurs in the canonical enumeration, at its own index.
pub proof fn lemma_dir_index_roundtrip(d: Direction)
    ensures
        0 <= spec_dir_index(d) < 6,
        spec_dir_from_index(spec_dir_index(d)) == d,
{
}

impl Direction {
    /// The direction standing at position `i` of the canonical order.
    pub fn from_index(i: u32) -> (r: Direction)
        requires
            i < 6,
        ensures
            r == spec_dir_from_index(i as int),
    {
        if i == 0 {
            Direction::PosX
        } else if i == 1 {
            Direction::NegX
        } else if i == 2 {
            Direction::PosY
        } else if i == 3 {
            Direction::NegY
        } else if i == 4 {
            Direction::PosZ
        } else {
            Direction::NegZ
        }
    }

    /// Canonical position of this direction in the fixed enumeration order.
    pub fn index(self) -> (r: u32)
        ensures
            r as int == spec_dir_index(self),
    {
        match self {
            Direction::PosX => 0,
            Direction::NegX => 1,
            Direction::PosY => 2,
            Direction::NegY => 3,
            Direction::PosZ => 4,
            Direction::NegZ => 5,
        }
    }

    /// The `t`-th direction, in canonical order, among the five others.
    pub fn nth_other(self, t: u32) -> (r: Direction)
        requires
            t < 5,
        ensures
            r == spec_nth_other(self, t as int),
            r != self,
    {
        let k = self.index();
        let j = if t < k {
            t
        } else {
            t + 1
        };
        let r = Direction::from_index(j);
        proof {
            lemma_dir_index_roundtrip(self);
        }
        r
    }

    /// The direction opposite to this one.
    pub fn opposite(self) -> (r: Direction)
        ensures
            r == spec_opposite(self),
            r != self,
    {
        match self {
            Direction::PosX => Direction::NegX,
            Direction::NegX => Direction::PosX,
            Direction::PosY => Direction::NegY,
            Direction::NegY => Direction::PosY,
            Direction::PosZ => Direction::NegZ,
            Direction::NegZ => Direction::PosZ,
        }
    }
}

impl Node {
    /// The cell adjacent to this one in direction `d`.
    pub fn step(self, d: Direction) -> (r: Node)
        requires
            0 <= self.x <= MAX_EXTENT,
            0 <= self.y <= MAX_EXTENT,
            0 <= self.z <= MAX_EXTENT,
        ensures
            r == spec_step(self, d),
    {
        match d {
            Direction::PosX => Node { x: self.x + 1, ..self },
            Direction::NegX => Node { x: self.x - 1, ..self },
            Direction::PosY => Node { y: self.y + 1, ..self },
            Direction::NegY => Node { y: self.y - 1, ..self },
            Direction::PosZ => Node { z: self.z + 1, ..self },
            Direction::NegZ => Node { z: self.z - 1, ..self },
        }
    }
}

} // verus!
