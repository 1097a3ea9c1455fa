use isogrid::terrain::ClassificationTable;
use isogrid::terrain::TerrainCategory;
use isogrid::terrain::reference_table;

#[test]
fn reference_table_boundaries() {
    let t = reference_table();
    assert_eq!(t.classify(0), TerrainCategory::Water);
    assert_eq!(t.classify(199_900), TerrainCategory::Water);
    assert_eq!(t.classify(199_999), TerrainCategory::Water);
    assert_eq!(t.classify(200_000), TerrainCategory::Sand);
    assert_eq!(t.classify(374_999), TerrainCategory::Sand);
    assert_eq!(t.classify(375_000), TerrainCategory::Dirt);
    assert_eq!(t.classify(450_000), TerrainCategory::Grass);
    assert_eq!(t.classify(809_999), TerrainCategory::Grass);
    assert_eq!(t.classify(810_000), TerrainCategory::Stone);
    assert_eq!(t.classify(999_000), TerrainCategory::Stone);
}

#[test]
fn out_of_range_samples_fall_back_to_dirt() {
    let t = reference_table();
    // The table's last range is half-open, so exactly 1.0 is a gap, filled
    // by the fallback, as are samples outside [0, 1].
    assert_eq!(t.classify(1_000_000), TerrainCategory::Dirt);
    assert_eq!(t.classify(1_100_000), TerrainCategory::Dirt);
    assert_eq!(t.classify(-1), TerrainCategory::Dirt);
    assert_eq!(t.classify(-1_000_000), TerrainCategory::Dirt);
}

#[test]
fn overlapping_ranges_first_wins() {
    let mut t = ClassificationTable::new();
    t.add(TerrainCategory::Water, 0, 500_000);
    t.add(TerrainCategory::Stone, 250_000, 750_000);
    // Inside both ranges: the earlier entry takes priority.
    assert_eq!(t.classify(300_000), TerrainCategory::Water);
    assert_eq!(t.classify(499_999), TerrainCategory::Water);
    // Inside only the later range.
    assert_eq!(t.classify(500_000), TerrainCategory::Stone);
    assert_eq!(t.classify(600_000), TerrainCategory::Stone);
}

#[test]
fn empty_table_is_all_fallback() {
    let t = ClassificationTable::new();
    assert_eq!(t.classify(0), TerrainCategory::Dirt);
    assert_eq!(t.classify(500_000), TerrainCategory::Dirt);
}

#[test]
fn texture_indices_are_dense_and_stable() {
    assert_eq!(TerrainCategory::Dirt.texture_index(), 0);
    assert_eq!(TerrainCategory::Grass.texture_index(), 1);
    assert_eq!(TerrainCategory::Stone.texture_index(), 2);
    assert_eq!(TerrainCategory::Sand.texture_index(), 3);
    assert_eq!(TerrainCategory::Water.texture_index(), 4);
}
