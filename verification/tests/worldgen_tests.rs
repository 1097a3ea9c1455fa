use fastnoise_lite::FastNoiseLite;
use fastnoise_lite::FractalType;
use fastnoise_lite::NoiseType;
use isogrid::terrain::TerrainCategory;
use isogrid::terrain::reference_table;
use isogrid::worldgen::NoiseField;
use isogrid::worldgen::generate_categories;
use isogrid::worldgen::normalize_sample;
use isogrid::worldgen::reference_noise_field;

// Builds the host noise generator from the library's parameter struct, as
// the application does.
fn build_noise(field: &NoiseField) -> FastNoiseLite {
    let mut noise = FastNoiseLite::with_seed(field.seed);
    noise.set_noise_type(Some(NoiseType::OpenSimplex2));
    noise.set_fractal_type(Some(FractalType::FBm));
    noise.set_fractal_octaves(Some(field.octaves as i32));
    noise.set_frequency(Some(field.frequency_micro as f32 / 1_000_000.0));
    noise.set_fractal_weighted_strength(Some(field.weighted_strength_micro as f32 / 1_000_000.0));
    noise
}

// A raw f32 sample in [-1, 1] as fixed-point micro-units.
fn to_micro(sample: f32) -> i64 {
    let micro = (sample * 1_000_000.0).round() as i64;
    micro.clamp(-1_000_000, 1_000_000)
}

#[test]
fn noise_is_deterministic_across_generators() {
    let field = reference_noise_field();
    let first = build_noise(&field);
    let second = build_noise(&field);
    for x in 0..32 {
        for y in 0..32 {
            let a = first.get_noise_2d(x as f32, y as f32);
            let b = second.get_noise_2d(x as f32, y as f32);
            assert_eq!(a.to_bits(), b.to_bits());
        }
    }
}

#[test]
fn reference_noise_field_parameters() {
    let field = reference_noise_field();
    assert_eq!(field.seed, 1325);
    assert_eq!(field.octaves, 5);
    assert_eq!(field.frequency_micro, 35_000);
    assert_eq!(field.weighted_strength_micro, -500_000);
}

#[test]
fn normalization_maps_unit_interval() {
    assert_eq!(normalize_sample(-1_000_000), 0);
    assert_eq!(normalize_sample(0), 500_000);
    assert_eq!(normalize_sample(1_000_000), 1_000_000);
    assert_eq!(normalize_sample(-999_999), 0);
    assert_eq!(normalize_sample(599_999), 799_999);
}

#[test]
fn generate_categories_classifies_each_sample() {
    let table = reference_table();
    let samples: Vec<i64> = vec![-1_000_000, -600_000, 0, 900_000, 1_000_000];
    let cats = generate_categories(&table, &samples);
    // Normalized: 0, 200_000, 500_000, 950_000, 1_000_000.
    assert_eq!(
        cats,
        vec![
            TerrainCategory::Water,
            TerrainCategory::Sand,
            TerrainCategory::Grass,
            TerrainCategory::Stone,
            TerrainCategory::Dirt,
        ]
    );
}

#[test]
fn world_of_seed_1325_is_reproducible() {
    let field = reference_noise_field();
    let table = reference_table();
    let noise = build_noise(&field);
    let mut samples: Vec<i64> = Vec::new();
    for row in 0..32 {
        for col in 0..32 {
            samples.push(to_micro(noise.get_noise_2d(col as f32, row as f32)));
        }
    }
    let cats = generate_categories(&table, &samples);
    assert_eq!(cats.len(), 32 * 32);

    // A second, independently built generator gives the identical map.
    let again = build_noise(&field);
    let mut samples2: Vec<i64> = Vec::new();
    for row in 0..32 {
        for col in 0..32 {
            samples2.push(to_micro(again.get_noise_2d(col as f32, row as f32)));
        }
    }
    let cats2 = generate_categories(&table, &samples2);
    assert_eq!(cats, cats2);

    // Regression pins of known cells of the reference world. Cell (0, 0)
    // sits on the noise lattice origin, where every octave is exactly zero.
    assert_eq!(samples[0], 0);
    assert_eq!(cats[0], TerrainCategory::Grass);
    assert_eq!(samples[1], -173_061);
    assert_eq!(cats[1], TerrainCategory::Dirt);
    assert_eq!(samples[33], -347_363);
    assert_eq!(cats[33], TerrainCategory::Sand);
    assert_eq!(samples[500], -219_560);
    assert_eq!(cats[500], TerrainCategory::Dirt);
}
