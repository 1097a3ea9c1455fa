//! The data model of one tile layer: grid dimensions, tile extents, the
//! world-space placement transform, and dense per-cell storage.
use vstd::prelude::*;

use crate::MAX_COORD;
use crate::MAX_DIM;
use crate::MAX_LINEAR;
use crate::MAX_TILE;

verus! {

/// A 2D point in micro-units (fixed-point world, local, or screen space).
#[derive(Clone, Copy, Debug, PartialEq, Eq, Structural)]
pub struct Point2 {
    pub x: i64,
    pub y: i64,
}

/// The integer identity of one cell within a surface: column and row.
#[derive(Clone, Copy, Debug, PartialEq, Eq, Structural)]
pub struct GridCoordinate {
    pub col: u32,
    pub row: u32,
}

/// What one occupied cell stores: its opaque identifier, whether it is
/// visible to picking, and whether a hit on it blocks surfaces further away.
#[derive(Clone, Copy, Debug, PartialEq, Eq, Structural)]
pub struct CellData {
    pub id: u64,
    pub visible: bool,
    pub blocking: bool,
}

/// A surface's placement: an affine map from local to world space. The
/// linear part is fixed-point (`SCALE` stands for a factor of 1.0), the
/// translation is in micro-units, and `tz` is the fixed depth of the layer.
#[derive(Clone, Copy, Debug, PartialEq, Eq, Structural)]
pub struct SurfaceTransform {
    pub m00: i64,
    pub m01: i64,
    pub m10: i64,
    pub m11: i64,
    pub tx: i64,
    pub ty: i64,
    pub tz: i64,
}

impl SurfaceTransform {
    /// Bounds under which the transform arithmetic cannot overflow.
    pub open spec fn wf(self) -> bool {
        &&& -MAX_LINEAR <= self.m00 <= MAX_LINEAR
        &&& -MAX_LINEAR <= self.m01 <= MAX_LINEAR
        &&& -MAX_LINEAR <= self.m10 <= MAX_LINEAR
        &&& -MAX_LINEAR <= self.m11 <= MAX_LINEAR
        &&& -MAX_COORD <= self.tx <= MAX_COORD
        &&& -MAX_COORD <= self.ty <= MAX_COORD
        &&& -MAX_COORD <= self.tz <= MAX_COORD
    }

    /// The determinant of the linear part; the transform is invertible
    /// exactly when this is not zero.
    pub open spec fn det(self) -> int {
        self.m00 * self.m11 - self.m01 * self.m10
    }
}

/// One tile layer: `columns` x `rows` cells in a diamond isometric layout,
/// dense row-major storage, and a placement transform into world space.
pub struct SurfaceGrid {
    pub columns: u32,
    pub rows: u32,
    /// Tile width in micro-units; even, so that a half tile is exact.
    pub tile_width: i64,
    /// Tile height in micro-units; even, so that a half tile is exact.
    pub tile_height: i64,
    pub transform: SurfaceTransform,
    /// Row-major storage: the cell at `(col, row)` sits at `row * columns + col`.
    pub cells: Vec<Option<CellData>>,
    /// Whether the whole layer takes part in picking.
    pub visible: bool,
}

impl SurfaceGrid {
    /// Well-formedness: dimensions and tile extents are positive and bounded,
    /// tile extents are even, the storage is exactly one slot per cell, and
    /// the placement transform is bounded.
    pub open spec fn wf(self) -> bool {
        &&& 1 <= self.columns <= MAX_DIM
        &&& 1 <= self.rows <= MAX_DIM
        &&& 0 < self.tile_width <= MAX_TILE
        &&& self.tile_width % 2 == 0
        &&& 0 < self.tile_height <= MAX_TILE
        &&& self.tile_height % 2 == 0
        &&& self.transform.wf()
        &&& self.cells@.len() == self.columns * self.rows
    }

    /// Whether `c` names a cell of this surface.
    pub open spec fn in_bounds(self, c: GridCoordinate) -> bool {
        c.col < self.columns && c.row < self.rows
    }

    /// The storage slot of an in-bounds coordinate.
    pub open spec fn index_of(self, c: GridCoordinate) -> int {
        c.row * self.columns + c.col
    }

    /// What the surface stores at `c`: the cell data, or `None` for an
    /// unoccupied or out-of-bounds coordinate.
    pub open spec fn cell_at(self, c: GridCoordinate) -> Option<CellData> {
        if self.in_bounds(c) {
            self.cells@[self.index_of(c)]
        } else {
            None
        }
    }

    /// An empty, visible surface: every cell unoccupied.
    pub fn new(columns: u32, rows: u32, tile_width: i64, tile_height: i64, transform: SurfaceTransform) -> (g: SurfaceGrid)
        requires
            1 <= columns <= MAX_DIM,
            1 <= rows <= MAX_DIM,
            0 < tile_width <= MAX_TILE,
            tile_width % 2 == 0,
            0 < tile_height <= MAX_TILE,
            tile_height % 2 == 0,
            transform.wf(),
        ensures
            g.wf(),
            g.columns == columns,
            g.rows == rows,
            g.tile_width == tile_width,
            g.tile_height == tile_height,
            g.transform == transform,
            g.visible,
            forall|c: GridCoordinate| g.cell_at(c) is None,
    {
        proof {
            lemma_cell_count_small(columns, rows);
        }
        let n: usize = (columns as usize) * (rows as usize);
        let mut cells: Vec<Option<CellData>> = Vec::new();
        let mut i: usize = 0;
        while i < n
            invariant
                0 <= i <= n,
                cells@.len() == i,
                forall|k: int| 0 <= k < i ==> cells@[k] is None,
            decreases n - i,
        {
            cells.push(None);
            i = i + 1;
        }
        let g = SurfaceGrid {
            columns,
            rows,
            tile_width,
            tile_height,
            transform,
            cells,
            visible: true,
        };
        proof {
            assert forall|c: GridCoordinate| g.cell_at(c) is None by {
                if g.in_bounds(c) {
                    lemma_index_in_storage(g, c);
                }
            }
        }
        g
    }

    /// Stores `data` at the in-bounds coordinate `c`; every other cell keeps
    /// its contents.
    pub fn set_cell(&mut self, c: GridCoordinate, data: CellData)
        requires
            old(self).wf(),
            old(self).in_bounds(c),
        ensures
            final(self).wf(),
            final(self).columns == old(self).columns,
            final(self).rows == old(self).rows,
            final(self).tile_width == old(self).tile_width,
            final(self).tile_height == old(self).tile_height,
            final(self).transform == old(self).transform,
            final(self).visible == old(self).visible,
            final(self).cell_at(c) == Some(data),
            forall|d: GridCoordinate| d != c ==> final(self).cell_at(d) == old(self).cell_at(d),
    {
        proof {
            lemma_index_in_storage(*self, c);
        }
        let idx: usize = (c.row as usize) * (self.columns as usize) + (c.col as usize);
        self.cells.set(idx, Some(data));
        proof {
            assert forall|d: GridCoordinate| d != c implies self.cell_at(d) == old(self).cell_at(d) by {
                if self.in_bounds(d) {
                    lemma_index_in_storage(*self, d);
                    lemma_index_injective(*self, c, d);
                }
            }
        }
    }

    /// Fills the whole storage at once, row-major: the cell at `(col, row)`
    /// receives `cells[row * columns + col]`.
    pub fn fill_surface(&mut self, cells: &Vec<CellData>)
        requires
            old(self).wf(),
            cells@.len() == old(self).columns * old(self).rows,
        ensures
            final(self).wf(),
            final(self).columns == old(self).columns,
            final(self).rows == old(self).rows,
            final(self).tile_width == old(self).tile_width,
            final(self).tile_height == old(self).tile_height,
            final(self).transform == old(self).transform,
            final(self).visible == old(self).visible,
            forall|c: GridCoordinate| final(self).in_bounds(c) ==> final(self).cell_at(c) == Some(cells@[final(self).index_of(c)]),
    {
        let n = cells.len();
        let mut storage: Vec<Option<CellData>> = Vec::new();
        let mut i: usize = 0;
        while i < n
            invariant
                0 <= i <= n,
                n == cells@.len(),
                storage@.len() == i,
                forall|k: int| 0 <= k < i ==> storage@[k] == Some(cells@[k]),
            decreases n - i,
        {
            storage.push(Some(cells[i]));
            i = i + 1;
        }
        self.cells = storage;
        proof {
            assert forall|c: GridCoordinate| self.in_bounds(c) implies self.cell_at(c) == Some(cells@[self.index_of(c)]) by {
                lemma_index_in_storage(*self, c);
            }
        }
    }

    /// Returns what the surface stores at `c`, and `None` for a coordinate
    /// outside the grid.
    pub fn get_cell(&self, c: GridCoordinate) -> (r: Option<CellData>)
        requires
            self.wf(),
        ensures
            r == self.cell_at(c),
    {
        if c.col < self.columns && c.row < self.rows {
            proof {
                lemma_index_in_storage(*self, c);
            }
            let idx: usize = (c.row as usize) * (self.columns as usize) + (c.col as usize);
            self.cells[idx]
        } else {
            None
        }
    }
}

/// A bounded grid has fewer cells than `2^30`, so slot arithmetic fits every
/// machine word.
proof fn lemma_cell_count_small(columns: u32, rows: u32)
    requires
        columns <= MAX_DIM,
        rows <= MAX_DIM,
    ensures
        columns * rows <= 0x4000_0000,
{
    assert(columns * rows <= 0x4000_0000) by (nonlinear_arith)
        requires
            columns <= 32768,
            rows <= 32768,
    ;
}

/// An in-bounds coordinate's storage slot lies inside the storage.
proof fn lemma_index_in_storage(g: SurfaceGrid, c: GridCoordinate)
    requires
        g.wf(),
        g.in_bounds(c),
    ensures
        0 <= g.index_of(c) < g.columns * g.rows,
        g.index_of(c) < 0x4000_0000,
{
    assert(c.row * g.columns + c.col < g.columns * g.rows) by (nonlinear_arith)
        requires
            c.col < g.columns,
            c.row < g.rows,
    ;
    lemma_cell_count_small(g.columns, g.rows);
}

/// Distinct in-bounds coordinates use distinct storage slots.
proof fn lemma_index_injective(g: SurfaceGrid, c: GridCoordinate, d: GridCoordinate)
    requires
        g.wf(),
        g.in_bounds(c),
        g.in_bounds(d),
        c != d,
    ensures
        g.index_of(c) != g.index_of(d),
{
    assert(c.row * g.columns + c.col != d.row * g.columns + d.col) by (nonlinear_arith)
        requires
            c.col < g.columns,
            d.col < g.columns,
            c.row < g.rows,
            d.row < g.rows,
            c.col != d.col || c.row != d.row,
    ;
}

} // verus!
