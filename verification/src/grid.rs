//! Bounded 3D occupancy grid.
//!
//! The grid fixes an extent per axis at construction and tracks which cells
//! are occupied. Its abstract model is the extent together with the set of
//! occupied nodes; every operation is specified against that model, and the
//! cell indexing scheme is proved injective so that occupying one node is
//! known to leave every other node untouched.

use vstd::prelude::*;

use crate::space::{spec_step, Direction, Node, MAX_EXTENT};

verus! {

/// Abstract state of a grid: its extent and the set of occupied cells.
#[verifier::ext_equal]
pub ghost struct GridModel {
    pub size_x: int,
    pub size_y: int,
    pub size_z: int,
    pub occ: Set<Node>,
}

/// Whether `n` lies within the extent of `m`.
pub open spec fn in_bounds_model(m: GridModel, n: Node) -> bool {
    0 <= n.x < m.size_x && 0 <= n.y < m.size_y && 0 <= n.z < m.size_z
}

/// Whether `n` is a cell a pipe may move into: within bounds and unoccupied.
pub open spec fn free_at(m: GridModel, n: Node) -> bool {
    in_bounds_model(m, n) && !m.occ.contains(n)
}

/// A well-formed grid model: positive bounded extent, and only in-bounds
/// cells ever occupied.
pub open spec fn wf_grid_model(m: GridModel) -> bool {
    &&& 1 <= m.size_x <= MAX_EXTENT
    &&& 1 <= m.size_y <= MAX_EXTENT
    &&& 1 <= m.size_z <= MAX_EXTENT
    &&& forall|n: Node| m.occ.contains(n) ==> in_bounds_model(m, n)
}

/// Row-major position of a cell in the backing storage.
pub open spec fn spec_cell_index(sy: int, sz: int, n: Node) -> int {
    (n.x * sy + n.y) * sz + n.z
}

/// Splitting a quotient/remainder form: equal values with remainders below
/// the modulus have equal parts.
proof fn lemma_linear_split(a: int, b: int, r1: int, r2: int, m: int)
    by (nonlinear_arith)
    requires
        m >= 1,
        0 <= r1 < m,
        0 <= r2 < m,
        a * m + r1 == b * m + r2,
    ensures
        a == b,
        r1 == r2,
{
}

/// The cell index of an in-bounds node stays within the storage length.
proof fn lemma_index_bounds(sx: int, sy: int, sz: int, n: Node)
    by (nonlinear_arith)
    requires
        1 <= sx <= MAX_EXTENT,
        1 <= sy <= MAX_EXTENT,
        1 <= sz <= MAX_EXTENT,
        0 <= n.x < sx,
        0 <= n.y < sy,
        0 <= n.z < sz,
    ensures
        0 <= n.x * sy <= MAX_EXTENT * MAX_EXTENT,
        0 <= n.x * sy + n.y < sx * sy,
        0 <= (n.x * sy + n.y) * sz <= MAX_EXTENT * MAX_EXTENT * MAX_EXTENT,
        0 <= spec_cell_index(sy, sz, n) < sx * sy * sz,
        sx * sy * sz <= MAX_EXTENT * MAX_EXTENT * MAX_EXTENT,
{
}

/// Distinct in-bounds nodes have distinct cell indices.
proof fn lemma_index_injective(sy: int, sz: int, a: Node, b: Node)
    requires
        1 <= sy,
        1 <= sz,
        0 <= a.y < sy,
        0 <= a.z < sz,
        0 <= b.y < sy,
        0 <= b.z < sz,
        spec_cell_index(sy, sz, a) == spec_cell_index(sy, sz, b),
    ensures
        a.x == b.x && a.y == b.y && a.z == b.z,
{
    lemma_linear_split(a.x * sy + a.y, b.x * sy + b.y, a.z as int, b.z as int, sz);
    lemma_linear_split(a.x as int, b.x as int, a.y as int, b.y as int, sy);
}

/// Bounded 3D grid of cells, each either free or occupied.
pub struct Grid {
    size_x: u32,
    size_y: u32,
    size_z: u32,
    cells: Vec<bool>,
}

impl Grid {
    /// Whether the backing storage matches the declared extent.
    pub closed spec fn wf(&self) -> bool {
        &&& 1 <= self.size_x <= MAX_EXTENT
        &&& 1 <= self.size_y <= MAX_EXTENT
        &&& 1 <= self.size_z <= MAX_EXTENT
        &&& self.cells@.len() == self.size_x * self.size_y * self.size_z
    }

    /// Whether `n` lies within this grid's extent.
    pub closed spec fn in_bounds(&self, n: Node) -> bool {
        0 <= n.x < self.size_x && 0 <= n.y < self.size_y && 0 <= n.z < self.size_z
    }

    /// Whether `n` is marked occupied.
    pub closed spec fn occupied(&self, n: Node) -> bool {
        self.in_bounds(n) && self.cells@[spec_cell_index(
            self.size_y as int,
            self.size_z as int,
            n,
        )]
    }

    /// Abstract model of this grid: extent and occupied set.
    pub closed spec fn model(&self) -> GridModel {
        GridModel {
            size_x: self.size_x as int,
            size_y: self.size_y as int,
            size_z: self.size_z as int,
            occ: Set::new(|n: Node| self.occupied(n)),
        }
    }

    /// A well-formed grid has a well-formed model.
    pub proof fn lemma_wf_model(&self)
        requires
            self.wf(),
        ensures
            wf_grid_model(self.model()),
    {
    }

    /// Extent along the X axis, in cells.
    pub fn size_x(&self) -> (r: u32)
        ensures
            r as int == self.model().size_x,
    {
        self.size_x
    }

    /// Extent along the Y axis, in cells.
    pub fn size_y(&self) -> (r: u32)
        ensures
            r as int == self.model().size_y,
    {
        self.size_y
    }

    /// Extent along the Z axis, in cells.
    pub fn size_z(&self) -> (r: u32)
        ensures
            r as int == self.model().size_z,
    {
        self.size_z
    }

    /// Builds a grid of the given extent with every cell free.
    pub fn new(size_x: u32, size_y: u32, size_z: u32) -> (r: Grid)
        requires
            1 <= size_x <= MAX_EXTENT,
            1 <= size_y <= MAX_EXTENT,
            1 <= size_z <= MAX_EXTENT,
        ensures
            r.wf(),
            r.model() == (GridModel {
                size_x: size_x as int,
                size_y: size_y as int,
                size_z: size_z as int,
                occ: Set::<Node>::empty(),
            }),
    {
        proof {
            assert(size_x * size_y <= MAX_EXTENT * MAX_EXTENT
                && size_x * size_y * size_z <= MAX_EXTENT * MAX_EXTENT * MAX_EXTENT)
                by (nonlinear_arith)
                requires
                    1 <= size_x <= MAX_EXTENT,
                    1 <= size_y <= MAX_EXTENT,
                    1 <= size_z <= MAX_EXTENT,
            ;
        }
        let len: usize = (size_x as usize) * (size_y as usize) * (size_z as usize);
        let cells: Vec<bool> = vec![false; len];
        let r = Grid { size_x, size_y, size_z, cells };
        proof {
            assert forall|n: Node| !r.occupied(n) by {
                if r.in_bounds(n) {
                    lemma_index_bounds(size_x as int, size_y as int, size_z as int, n);
                }
            }
            assert(r.model().occ =~= Set::<Node>::empty());
        }
        r
    }

    /// Whether `n` is within bounds and unoccupied.
    pub fn is_free(&self, n: Node) -> (r: bool)
        requires
            self.wf(),
        ensures
            r == free_at(self.model(), n),
    {
        if n.x < 0 || n.y < 0 || n.z < 0 {
            return false;
        }
        if n.x >= self.size_x as i32 || n.y >= self.size_y as i32 || n.z >= self.size_z as i32 {
            return false;
        }
        proof {
            lemma_index_bounds(self.size_x as int, self.size_y as int, self.size_z as int, n);
        }
        let idx: usize = ((n.x as usize) * (self.size_y as usize) + (n.y as usize))
            * (self.size_z as usize) + (n.z as usize);
        !self.cells[idx]
    }

    /// Marks the free cell `n` as occupied; every other cell is untouched.
    pub fn occupy(&mut self, n: Node)
        requires
            old(self).wf(),
            free_at(old(self).model(), n),
        ensures
            final(self).wf(),
            final(self).model() == (GridModel {
                occ: old(self).model().occ.insert(n),
                ..old(self).model()
            }),
    {
        proof {
            lemma_index_bounds(self.size_x as int, self.size_y as int, self.size_z as int, n);
        }
        let idx: usize = ((n.x as usize) * (self.size_y as usize) + (n.y as usize))
            * (self.size_z as usize) + (n.z as usize);
        self.cells.set(idx, true);
        proof {
            let m0 = old(self).model();
            assert forall|q: Node| self.occupied(q) == (old(self).occupied(q) || q == n) by {
                if self.in_bounds(q) {
                    lemma_index_bounds(self.size_x as int, self.size_y as int, self.size_z as int, q);
                    if q != n && spec_cell_index(self.size_y as int, self.size_z as int, q)
                        == spec_cell_index(self.size_y as int, self.size_z as int, n) {
                        lemma_index_injective(self.size_y as int, self.size_z as int, q, n);
                    }
                }
            }
            assert(self.model().occ =~= m0.occ.insert(n));
            assert(self.model() =~= GridModel { occ: m0.occ.insert(n), ..m0 });
        }
    }

    /// The free adjacent cells of `n`, as (direction, cell) pairs in the
    /// canonical direction order.
    pub fn neighbors_free(&self, n: Node) -> (r: Vec<(Direction, Node)>)
        requires
            self.wf(),
            self.in_bounds(n),
        ensures
            r@ == spec_free_neighbors(self.model(), n, 6),
    {
        let mut r: Vec<(Direction, Node)> = Vec::new();
        let mut i: u32 = 0;
        while i < 6
            invariant
                self.wf(),
                self.in_bounds(n),
                i <= 6,
                r@ == spec_free_neighbors(self.model(), n, i as int),
            decreases 6 - i,
        {
            let d = Direction::from_index(i);
            let target = n.step(d);
            if self.is_free(target) {
                r.push((d, target));
            }
            i = i + 1;
        }
        r
    }
}

/// The free neighbors of `n` among the first `i` directions of the
/// canonical order, each paired with the direction leading to it.
pub open spec fn spec_free_neighbors(m: GridModel, n: Node, i: int) -> Seq<(Direction, Node)>
    decreases i,
{
    if i <= 0 {
        Seq::empty()
    } else {
        let d = crate::space::spec_dir_from_index(i - 1);
        let prefix = spec_free_neighbors(m, n, i - 1);
        if free_at(m, spec_step(n, d)) {
            prefix.push((d, spec_step(n, d)))
        } else {
            prefix
        }
    }
}

} // verus!
