//! Terrain categories and the ordered classification table that turns a
//! normalized noise sample into a category.
//!
//! Samples are fixed-point: a sample of `SCALE` micro-units stands for the
//! real value 1.0. The table is an ordered sequence of half-open ranges
//! `[start, end)`; the first range that contains the sample wins, and a
//! sample outside every range falls back to `Dirt`.
use vstd::prelude::*;

verus! {

/// A discrete terrain classification, each mapped to a dense rendering index.
#[derive(Clone, Copy, Debug, PartialEq, Eq, Structural)]
pub enum TerrainCategory {
    Dirt,
    Grass,
    Stone,
    Sand,
    Water,
}

impl TerrainCategory {
    /// The rendering index of this category in the texture atlas.
    pub open spec fn texture_index_spec(self) -> u32 {
        match self {
            TerrainCategory::Dirt => 0,
            TerrainCategory::Grass => 1,
            TerrainCategory::Stone => 2,
            TerrainCategory::Sand => 3,
            TerrainCategory::Water => 4,
        }
    }

    /// Returns the dense, stable index used to address this category's tile
    /// in the texture atlas.
    pub fn texture_index(&self) -> (i: u32)
        ensures
            i == self.texture_index_spec(),
    {
        match self {
            TerrainCategory::Dirt => 0,
            TerrainCategory::Grass => 1,
            TerrainCategory::Stone => 2,
            TerrainCategory::Sand => 3,
            TerrainCategory::Water => 4,
        }
    }
}

/// One entry of a classification table: the half-open range
/// `[start, end)` of micro-unit samples that maps to `category`.
#[derive(Clone, Copy, Debug, PartialEq, Eq, Structural)]
pub struct ClassificationRange {
    pub category: TerrainCategory,
    pub start: i64,
    pub end: i64,
}

/// Whether `sample` lies in the half-open range of `r`.
pub open spec fn range_contains(r: ClassificationRange, sample: int) -> bool {
    r.start <= sample < r.end
}

/// The category that the entries of `ranges` from position `i` on assign to
/// `sample`: the first containing range wins, and `Dirt` is the fallback.
pub open spec fn classify_from(ranges: Seq<ClassificationRange>, i: int, sample: int) -> TerrainCategory
    decreases ranges.len() - i,
{
    if i < 0 || i >= ranges.len() {
        TerrainCategory::Dirt
    } else if range_contains(ranges[i], sample) {
        ranges[i].category
    } else {
        classify_from(ranges, i + 1, sample)
    }
}

/// The category that a whole table assigns to `sample`.
pub open spec fn classify_spec(ranges: Seq<ClassificationRange>, sample: int) -> TerrainCategory {
    classify_from(ranges, 0, sample)
}

/// An ordered sequence of classification ranges, evaluated in insertion
/// order. Ranges may overlap: earlier entries take priority.
pub struct ClassificationTable {
    pub ranges: Vec<ClassificationRange>,
}

impl View for ClassificationTable {
    type V = Seq<ClassificationRange>;

    open spec fn view(&self) -> Seq<ClassificationRange> {
        self.ranges@
    }
}

impl ClassificationTable {
    /// An empty table: every sample falls back to `Dirt`.
    pub fn new() -> (t: ClassificationTable)
        ensures
            t@ == Seq::<ClassificationRange>::empty(),
    {
        ClassificationTable { ranges: Vec::new() }
    }

    /// Appends the range `[start, end)` for `category` after every entry
    /// added so far, so that all earlier entries keep their priority.
    pub fn add(&mut self, category: TerrainCategory, start: i64, end: i64)
        ensures
            final(self)@ == old(self)@.push(ClassificationRange { category, start, end }),
    {
        self.ranges.push(ClassificationRange { category, start, end });
    }

    /// Returns the category of the first range that contains `sample`, and
    /// `Dirt` when no range does.
    pub fn classify(&self, sample: i64) -> (c: TerrainCategory)
        ensures
            c == classify_spec(self@, sample as int),
    {
        let n = self.ranges.len();
        let mut i: usize = 0;
        while i < n
            invariant
                0 <= i <= n,
                n == self.ranges.len(),
                classify_spec(self@, sample as int) == classify_from(self@, i as int, sample as int),
            decreases n - i,
        {
            let r = self.ranges[i];
            if r.start <= sample && sample < r.end {
                return r.category;
            }
            i = i + 1;
        }
        TerrainCategory::Dirt
    }
}

/// Range priority: whenever entry `i` contains the sample and no earlier
/// entry does, classification returns exactly entry `i`'s category, however
/// many later entries also contain the sample.
pub proof fn lemma_classify_first_match(ranges: Seq<ClassificationRange>, i: int, sample: int)
    requires
        0 <= i < ranges.len(),
        range_contains(ranges[i], sample),
        forall|j: int| 0 <= j < i ==> !range_contains(ranges[j], sample),
    ensures
        classify_spec(ranges, sample) == ranges[i].category,
{
    lemma_classify_from_first_match(ranges, 0, i, sample);
}

proof fn lemma_classify_from_first_match(ranges: Seq<ClassificationRange>, j: int, i: int, sample: int)
    requires
        0 <= j <= i < ranges.len(),
        range_contains(ranges[i], sample),
        forall|k: int| j <= k < i ==> !range_contains(ranges[k], sample),
    ensures
        classify_from(ranges, j, sample) == ranges[i].category,
    decreases i - j,
{
    if j < i {
        lemma_classify_from_first_match(ranges, j + 1, i, sample);
    }
}

/// Fallback: a sample that no entry of the table contains is classified as
/// `Dirt`.
pub proof fn lemma_classify_fallback(ranges: Seq<ClassificationRange>, sample: int)
    requires
        forall|j: int| 0 <= j < ranges.len() ==> !range_contains(ranges[j], sample),
    ensures
        classify_spec(ranges, sample) == TerrainCategory::Dirt,
{
    lemma_classify_from_fallback(ranges, 0, sample);
}

proof fn lemma_classify_from_fallback(ranges: Seq<ClassificationRange>, j: int, sample: int)
    requires
        0 <= j,
        forall|k: int| j <= k < ranges.len() ==> !range_contains(ranges[k], sample),
    ensures
        classify_from(ranges, j, sample) == TerrainCategory::Dirt,
    decreases ranges.len() - j,
{
    if j < ranges.len() {
        lemma_classify_from_fallback(ranges, j + 1, sample);
    }
}

/// The reference configuration's table: Water `[0, 0.2)`, Sand `[0.2, 0.375)`,
/// Dirt `[0.375, 0.45)`, Grass `[0.45, 0.81)`, Stone `[0.81, 1.0)`, each
/// bound given here in micro-units.
pub fn reference_table() -> (t: ClassificationTable)
    ensures
        t@.len() == 5,
        t@[0] == (ClassificationRange { category: TerrainCategory::Water, start: 0, end: 200_000 }),
        t@[1] == (ClassificationRange { category: TerrainCategory::Sand, start: 200_000, end: 375_000 }),
        t@[2] == (ClassificationRange { category: TerrainCategory::Dirt, start: 375_000, end: 450_000 }),
        t@[3] == (ClassificationRange { category: TerrainCategory::Grass, start: 450_000, end: 810_000 }),
        t@[4] == (ClassificationRange { category: TerrainCategory::Stone, start: 810_000, end: 1_000_000 }),
{
    let mut t = ClassificationTable::new();
    t.add(TerrainCategory::Water, 0, 200_000);
    t.add(TerrainCategory::Sand, 200_000, 375_000);
    t.add(TerrainCategory::Dirt, 375_000, 450_000);
    t.add(TerrainCategory::Grass, 450_000, 810_000);
    t.add(TerrainCategory::Stone, 810_000, 1_000_000);
    t
}

} // verus!
