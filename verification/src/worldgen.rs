//! World generation: the noise-field configuration, sample normalization,
//! and the classification of a whole grid of samples.
//!
//! The fractal noise itself (a simplex-type base under fractal Brownian
//! motion) is computed by the host from the parameters in [`NoiseField`];
//! it reaches this crate as fixed-point samples in `[-SCALE, SCALE]`, one
//! micro-unit standing for a real value of one millionth.
use vstd::prelude::*;

use crate::MAX_COORD;
use crate::MAX_DIM;
use crate::SCALE;
use crate::grid::SurfaceTransform;
use crate::terrain::ClassificationRange;
use crate::terrain::ClassificationTable;
use crate::terrain::TerrainCategory;
use crate::terrain::classify_spec;

verus! {

/// The parameters of a deterministic 2D fractal noise field. The same
/// parameters and coordinate always denote the same sample; the host
/// evaluates the field and hands the samples over in micro-units.
#[derive(Clone, Copy, Debug, PartialEq, Eq, Structural)]
pub struct NoiseField {
    pub seed: i32,
    pub octaves: u32,
    /// Base frequency in micro-units (`35_000` stands for 0.035).
    pub frequency_micro: i64,
    /// Fractal weighted strength in micro-units (`-500_000` stands for -0.5).
    pub weighted_strength_micro: i64,
}

/// The reference configuration's noise field: seed 1325, five octaves,
/// frequency 0.035, weighted strength -0.5.
pub fn reference_noise_field() -> (n: NoiseField)
    ensures
        n == (NoiseField {
            seed: 1325,
            octaves: 5,
            frequency_micro: 35_000,
            weighted_strength_micro: -500_000i64,
        }),
{
    NoiseField { seed: 1325, octaves: 5, frequency_micro: 35_000, weighted_strength_micro: -500_000 }
}

/// A raw sample in `[-SCALE, SCALE]` mapped into `[0, SCALE]`:
/// `(raw + 1) / 2` in real terms, floored to a micro-unit.
pub open spec fn normalize_spec(raw: int) -> int {
    (raw + SCALE) / 2
}

/// Maps a raw noise sample from `[-SCALE, SCALE]` to the normalized range
/// `[0, SCALE]` that the classification table reads.
pub fn normalize_sample(raw: i64) -> (n: i64)
    requires
        -SCALE <= raw <= SCALE,
    ensures
        n as int == normalize_spec(raw as int),
        0 <= n <= SCALE,
{
    ((raw + SCALE) as u64 / 2) as i64
}

/// The category of each raw sample: normalized, then classified by `table`.
pub open spec fn generate_spec(table: Seq<ClassificationRange>, samples: Seq<i64>) -> Seq<TerrainCategory> {
    samples.map_values(|raw: i64| classify_spec(table, normalize_spec(raw as int)))
}

/// Classifies a whole grid of raw noise samples: each sample is normalized
/// and looked up in the table, independently of every other cell.
pub fn generate_categories(table: &ClassificationTable, samples: &Vec<i64>) -> (out: Vec<TerrainCategory>)
    requires
        forall|i: int| 0 <= i < samples@.len() ==> -SCALE <= #[trigger] samples@[i] <= SCALE,
    ensures
        out@ == generate_spec(table@, samples@),
{
    let n = samples.len();
    let mut out: Vec<TerrainCategory> = Vec::new();
    let mut i: usize = 0;
    while i < n
        invariant
            0 <= i <= n,
            n == samples@.len(),
            out@.len() == i,
            forall|i2: int| 0 <= i2 < samples@.len() ==> -SCALE <= #[trigger] samples@[i2] <= SCALE,
            forall|k: int| 0 <= k < i ==> out@[k] == classify_spec(table@, normalize_spec(samples@[k] as int)),
        decreases n - i,
    {
        let s = normalize_sample(samples[i]);
        out.push(table.classify(s));
        i = i + 1;
    }
    proof {
        assert(out@ =~= generate_spec(table@, samples@));
    }
    out
}

/// Floor of `n / 2`, for either sign of `n`.
fn floor_half(n: i64) -> (q: i64)
    requires
        -MAX_COORD <= n <= MAX_COORD,
    ensures
        q as int == (n as int) / 2,
{
    if n >= 0 {
        (n as u64 / 2) as i64
    } else {
        -((((-n) as u64 + 1) / 2) as i64)
    }
}

/// The placement that centers a diamond grid on the world origin: identity
/// linear part, and a translation that moves the midpoint of the corner cell
/// centers to the origin, at depth `tz`.
pub fn centered_transform(columns: u32, rows: u32, tile_width: i64, tile_height: i64, tz: i64) -> (t: SurfaceTransform)
    requires
        1 <= columns <= MAX_DIM,
        1 <= rows <= MAX_DIM,
        0 < tile_width <= crate::MAX_TILE,
        tile_width % 2 == 0,
        0 < tile_height <= crate::MAX_TILE,
        tile_height % 2 == 0,
        -MAX_COORD <= tz <= MAX_COORD,
    ensures
        t.wf(),
        t.m00 == SCALE,
        t.m01 == 0,
        t.m10 == 0,
        t.m11 == SCALE,
        t.tx as int == -(((columns - rows) * (tile_width as int / 2)) / 2),
        t.ty as int == -(((columns + rows - 2) * (tile_height as int / 2)) / 2),
        t.tz == tz,
        t.det() != 0,
{
    let hw: i64 = (tile_width as u64 / 2) as i64;
    let hh: i64 = (tile_height as u64 / 2) as i64;
    let dc: i64 = (columns as i64) - (rows as i64);
    let sc: i64 = (columns as i64) + (rows as i64) - 2;
    proof {
        crate::iso::lemma_mul_bound(dc as int, hw as int, 32768, 500_000_000);
        crate::iso::lemma_mul_bound(sc as int, hh as int, 65536, 500_000_000);
    }
    let cx: i64 = floor_half(dc * hw);
    let cy: i64 = floor_half(sc * hh);
    let t = SurfaceTransform { m00: SCALE, m01: 0, m10: 0, m11: SCALE, tx: -cx, ty: -cy, tz };
    proof {
        assert(t.det() == SCALE * SCALE);
        assert(SCALE * SCALE != 0) by (nonlinear_arith);
    }
    t
}

} // verus!
