//! The diamond isometric mapping between grid cells and local surface space,
//! and the affine mapping between local and world space.
//!
//! Conventions, fixed once: a cell's center in local space is
//! `x = (col - row) * tile_width/2`, `y = (col + row) * tile_height/2`;
//! the inverse rounds to the nearest cell, halves away from zero. The
//! placement transform maps local to world space as `w = M * l / SCALE + t`,
//! with `M` the fixed-point linear part and `t` the translation.
use vstd::prelude::*;

use vstd::arithmetic::div_mod::lemma_div_by_multiple;
use vstd::arithmetic::div_mod::lemma_mod_multiples_basic;

use crate::MAX_COORD;
use crate::SCALE;
use crate::grid::GridCoordinate;
use crate::grid::Point2;
use crate::grid::SurfaceGrid;

verus! {

/// Largest operand magnitude the fixed-point rounding division accepts.
pub const DIV_BOUND: i128 = 1_000_000_000_000_000_000_000_000_000_000_000_000;

/// The magnitude of `n`.
pub open spec fn abs_int(n: int) -> int {
    if n >= 0 {
        n
    } else {
        -n
    }
}

/// `n / d` rounded to the nearest integer, halves away from zero, for a
/// positive divisor.
pub open spec fn round_div(n: int, d: int) -> int
    recommends
        d > 0,
{
    let q = abs_int(n) / d;
    let r = abs_int(n) % d;
    let m = if 2 * r >= d {
        q + 1
    } else {
        q
    };
    if n >= 0 {
        m
    } else {
        -m
    }
}

/// Rounding division for a divisor of either sign.
pub open spec fn round_div_signed(n: int, d: int) -> int
    recommends
        d != 0,
{
    if d > 0 {
        round_div(n, d)
    } else {
        round_div(-n, -d)
    }
}

/// Bounds a product from bounds on its factors.
pub(crate) proof fn lemma_mul_bound(x: int, y: int, a: int, b: int)
    by (nonlinear_arith)
    requires
        0 <= a,
        0 <= b,
        -a <= x <= a,
        -b <= y <= b,
    ensures
        -(a * b) <= x * y <= a * b,
{
}

/// Rounding division recovers an exact multiple of the divisor.
proof fn lemma_round_div_exact(k: int, d: int)
    requires
        0 < d,
    ensures
        round_div(k * d, d) == k,
{
    if k >= 0 {
        assert(k * d >= 0 && abs_int(k * d) == k * d) by (nonlinear_arith)
            requires
                k >= 0,
                d > 0,
        ;
        lemma_div_by_multiple(k, d);
        lemma_mod_multiples_basic(k, d);
    } else {
        assert(k * d < 0 && abs_int(k * d) == (-k) * d) by (nonlinear_arith)
            requires
                k < 0,
                d > 0,
        ;
        lemma_div_by_multiple(-k, d);
        lemma_mod_multiples_basic(-k, d);
    }
}

/// Fixed-point rounding division: `n / d` to the nearest integer, halves
/// away from zero.
pub(crate) fn round_div_exec(n: i128, d: i128) -> (q: i128)
    requires
        0 < d <= DIV_BOUND,
        -DIV_BOUND <= n <= DIV_BOUND,
    ensures
        q as int == round_div(n as int, d as int),
        -DIV_BOUND - 1 <= q <= DIV_BOUND + 1,
{
    let du: u128 = d as u128;
    let nu: u128 = if n < 0 {
        (-n) as u128
    } else {
        n as u128
    };
    let q0: u128 = nu / du;
    let r: u128 = nu % du;
    proof {
        vstd::arithmetic::div_mod::lemma_fundamental_div_mod(nu as int, du as int);
        vstd::arithmetic::div_mod::lemma_mod_bound(nu as int, du as int);
        assert(q0 <= nu) by (nonlinear_arith)
            requires
                nu as int == du as int * (q0 as int) + (r as int),
                r as int >= 0,
                du as int >= 1,
                q0 as int >= 0,
        ;
    }
    let q1: u128 = if 2 * r >= du {
        q0 + 1
    } else {
        q0
    };
    let qi: i128 = q1 as i128;
    if n < 0 {
        -qi
    } else {
        qi
    }
}

/// Half the tile width of `g`, in micro-units; exact, since the width is even.
pub open spec fn half_width(g: SurfaceGrid) -> int {
    g.tile_width as int / 2
}

/// Half the tile height of `g`, in micro-units; exact, since the height is even.
pub open spec fn half_height(g: SurfaceGrid) -> int {
    g.tile_height as int / 2
}

/// The center of cell `c` in local surface space.
pub open spec fn grid_to_local_spec(g: SurfaceGrid, c: GridCoordinate) -> (int, int) {
    ((c.col - c.row) * half_width(g), (c.col + c.row) * half_height(g))
}

/// The cell whose center lies nearest to the local point, or `None` when the
/// nearest cell falls outside the grid.
pub open spec fn local_to_grid_spec(g: SurfaceGrid, lx: int, ly: int) -> Option<GridCoordinate> {
    let hw = half_width(g);
    let hh = half_height(g);
    let den = 2 * (hw * hh);
    let col = round_div_signed(lx * hh + ly * hw, den);
    let row = round_div_signed(ly * hw - lx * hh, den);
    if 0 <= col < g.columns && 0 <= row < g.rows {
        Some(GridCoordinate { col: col as u32, row: row as u32 })
    } else {
        None
    }
}

/// The placement transform applied to a local point, rounded to micro-units;
/// `None` when the world point falls outside the coordinate range.
pub open spec fn local_to_world_spec(g: SurfaceGrid, lx: int, ly: int) -> Option<(int, int)> {
    let t = g.transform;
    let wx = round_div(t.m00 * lx + t.m01 * ly, SCALE as int) + t.tx;
    let wy = round_div(t.m10 * lx + t.m11 * ly, SCALE as int) + t.ty;
    if -MAX_COORD <= wx <= MAX_COORD && -MAX_COORD <= wy <= MAX_COORD {
        Some((wx, wy))
    } else {
        None
    }
}

/// The inverse placement transform: the local point whose image is the world
/// point, rounded to micro-units. `None` when the transform is singular or
/// the solution falls outside the coordinate range.
pub open spec fn world_to_local_spec(g: SurfaceGrid, wx: int, wy: int) -> Option<(int, int)> {
    let t = g.transform;
    let det = t.det();
    if det == 0 {
        None
    } else {
        let dx = wx - t.tx;
        let dy = wy - t.ty;
        let lx = round_div_signed((t.m11 * dx - t.m01 * dy) * SCALE, det);
        let ly = round_div_signed((t.m00 * dy - t.m10 * dx) * SCALE, det);
        if -MAX_COORD <= lx <= MAX_COORD && -MAX_COORD <= ly <= MAX_COORD {
            Some((lx, ly))
        } else {
            None
        }
    }
}

impl SurfaceGrid {
    /// Returns the center of cell `c` in the surface's local space.
    pub fn grid_to_local(&self, c: GridCoordinate) -> (p: Point2)
        requires
            self.wf(),
            self.in_bounds(c),
        ensures
            (p.x as int, p.y as int) == grid_to_local_spec(*self, c),
            -MAX_COORD <= p.x <= MAX_COORD,
            0 <= p.y <= MAX_COORD,
    {
        let hw: i64 = (self.tile_width as u64 / 2) as i64;
        let hh: i64 = (self.tile_height as u64 / 2) as i64;
        let dc: i64 = (c.col as i64) - (c.row as i64);
        let sc: i64 = (c.col as i64) + (c.row as i64);
        proof {
            lemma_mul_bound(dc as int, hw as int, 32768, 500_000_000);
            lemma_mul_bound(sc as int, hh as int, 65536, 500_000_000);
        }
        Point2 { x: dc * hw, y: sc * hh }
    }

    /// Resolves a local point to the nearest grid cell, or `None` when that
    /// cell lies outside the grid.
    pub fn local_to_grid(&self, p: Point2) -> (r: Option<GridCoordinate>)
        requires
            self.wf(),
            -MAX_COORD <= p.x <= MAX_COORD,
            -MAX_COORD <= p.y <= MAX_COORD,
        ensures
            r == local_to_grid_spec(*self, p.x as int, p.y as int),
    {
        let hw: i128 = (self.tile_width as u64 / 2) as i128;
        let hh: i128 = (self.tile_height as u64 / 2) as i128;
        proof {
            lemma_mul_bound(hw as int, hh as int, 500_000_000, 500_000_000);
            assert(hw * hh >= 1) by (nonlinear_arith)
                requires
                    hw >= 1,
                    hh >= 1,
            ;
            lemma_mul_bound(p.x as int, hh as int, MAX_COORD as int, 500_000_000);
            lemma_mul_bound(p.y as int, hw as int, MAX_COORD as int, 500_000_000);
        }
        let den: i128 = 2 * (hw * hh);
        let nx: i128 = (p.x as i128) * hh + (p.y as i128) * hw;
        let ny: i128 = (p.y as i128) * hw - (p.x as i128) * hh;
        let col = round_div_exec(nx, den);
        let row = round_div_exec(ny, den);
        if 0 <= col && col < self.columns as i128 && 0 <= row && row < self.rows as i128 {
            Some(GridCoordinate { col: col as u32, row: row as u32 })
        } else {
            None
        }
    }

    /// Applies the placement transform to a local point; `None` when the
    /// image falls outside the coordinate range.
    pub fn local_to_world(&self, p: Point2) -> (r: Option<Point2>)
        requires
            self.wf(),
            -MAX_COORD <= p.x <= MAX_COORD,
            -MAX_COORD <= p.y <= MAX_COORD,
        ensures
            r is Some <==> local_to_world_spec(*self, p.x as int, p.y as int) is Some,
            r is Some ==> (r->0.x as int, r->0.y as int) == local_to_world_spec(*self, p.x as int, p.y as int)->0,
    {
        let t = self.transform;
        proof {
            lemma_mul_bound(t.m00 as int, p.x as int, 1_000_000_000_000, MAX_COORD as int);
            lemma_mul_bound(t.m01 as int, p.y as int, 1_000_000_000_000, MAX_COORD as int);
            lemma_mul_bound(t.m10 as int, p.x as int, 1_000_000_000_000, MAX_COORD as int);
            lemma_mul_bound(t.m11 as int, p.y as int, 1_000_000_000_000, MAX_COORD as int);
        }
        let ax: i128 = (t.m00 as i128) * (p.x as i128) + (t.m01 as i128) * (p.y as i128);
        let ay: i128 = (t.m10 as i128) * (p.x as i128) + (t.m11 as i128) * (p.y as i128);
        let wx: i128 = round_div_exec(ax, SCALE as i128) + t.tx as i128;
        let wy: i128 = round_div_exec(ay, SCALE as i128) + t.ty as i128;
        if -MAX_COORD as i128 <= wx && wx <= MAX_COORD as i128 && -MAX_COORD as i128 <= wy && wy
            <= MAX_COORD as i128 {
            Some(Point2 { x: wx as i64, y: wy as i64 })
        } else {
            None
        }
    }

    /// Inverts the placement transform at a world point; `None` when the
    /// transform is singular or the solution falls outside the coordinate
    /// range.
    pub fn world_to_local(&self, w: Point2) -> (r: Option<Point2>)
        requires
            self.wf(),
            -MAX_COORD - 16_000_000 <= w.x <= MAX_COORD + 16_000_000,
            -MAX_COORD - 16_000_000 <= w.y <= MAX_COORD + 16_000_000,
        ensures
            r is Some <==> world_to_local_spec(*self, w.x as int, w.y as int) is Some,
            r is Some ==> (r->0.x as int, r->0.y as int) == world_to_local_spec(*self, w.x as int, w.y as int)->0,
    {
        let t = self.transform;
        proof {
            lemma_mul_bound(t.m00 as int, t.m11 as int, 1_000_000_000_000, 1_000_000_000_000);
            lemma_mul_bound(t.m01 as int, t.m10 as int, 1_000_000_000_000, 1_000_000_000_000);
        }
        let det: i128 = (t.m00 as i128) * (t.m11 as i128) - (t.m01 as i128) * (t.m10 as i128);
        if det == 0 {
            return None;
        }
        let dx: i128 = (w.x as i128) - (t.tx as i128);
        let dy: i128 = (w.y as i128) - (t.ty as i128);
        proof {
            lemma_mul_bound(t.m11 as int, dx as int, 1_000_000_000_000, 2_000_016_000_000_000);
            lemma_mul_bound(t.m01 as int, dy as int, 1_000_000_000_000, 2_000_016_000_000_000);
            lemma_mul_bound(t.m00 as int, dy as int, 1_000_000_000_000, 2_000_016_000_000_000);
            lemma_mul_bound(t.m10 as int, dx as int, 1_000_000_000_000, 2_000_016_000_000_000);
        }
        let ax: i128 = (t.m11 as i128) * dx - (t.m01 as i128) * dy;
        let ay: i128 = (t.m00 as i128) * dy - (t.m10 as i128) * dx;
        proof {
            lemma_mul_bound(ax as int, SCALE as int, 4_000_032_000_000_000_000_000_000_000, 1_000_000);
            lemma_mul_bound(ay as int, SCALE as int, 4_000_032_000_000_000_000_000_000_000, 1_000_000);
        }
        let nx: i128 = ax * (SCALE as i128);
        let ny: i128 = ay * (SCALE as i128);
        let lx: i128 = if det > 0 {
            round_div_exec(nx, det)
        } else {
            round_div_exec(-nx, -det)
        };
        let ly: i128 = if det > 0 {
            round_div_exec(ny, det)
        } else {
            round_div_exec(-ny, -det)
        };
        if -MAX_COORD as i128 <= lx && lx <= MAX_COORD as i128 && -MAX_COORD as i128 <= ly && ly
            <= MAX_COORD as i128 {
            Some(Point2 { x: lx as i64, y: ly as i64 })
        } else {
            None
        }
    }
}

/// Round-trip law: mapping an in-bounds cell to its local center and back
/// resolves to exactly that cell.
pub proof fn lemma_grid_local_round_trip(g: SurfaceGrid, c: GridCoordinate)
    requires
        g.wf(),
        g.in_bounds(c),
    ensures
        local_to_grid_spec(g, grid_to_local_spec(g, c).0, grid_to_local_spec(g, c).1) == Some(c),
{
    let hw = half_width(g);
    let hh = half_height(g);
    let den = 2 * (hw * hh);
    let lx = grid_to_local_spec(g, c).0;
    let ly = grid_to_local_spec(g, c).1;
    assert(hw >= 1 && hh >= 1);
    assert(den > 0) by (nonlinear_arith)
        requires
            hw >= 1,
            hh >= 1,
            den == 2 * (hw * hh),
    ;
    assert(lx * hh + ly * hw == (c.col as int) * den) by (nonlinear_arith)
        requires
            lx == (c.col - c.row) * hw,
            ly == (c.col + c.row) * hh,
            den == 2 * (hw * hh),
    ;
    assert(ly * hw - lx * hh == (c.row as int) * den) by (nonlinear_arith)
        requires
            lx == (c.col - c.row) * hw,
            ly == (c.col + c.row) * hh,
            den == 2 * (hw * hh),
    ;
    lemma_round_div_exact(c.col as int, den);
    lemma_round_div_exact(c.row as int, den);
}

} // verus!
