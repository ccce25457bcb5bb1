use sanji_engine::math::noise::{PerlinNoise, SimpleRng};

#[test]
fn rng_follows_the_congruence() {
    let mut rng = SimpleRng::new(0);
    assert_eq!(rng.next(), 1013904223);
    assert_eq!(rng.next(), 1013904223u32.wrapping_mul(1664525).wrapping_add(1013904223));
}

#[test]
fn perlin_table_is_a_permutation() {
    let p = PerlinNoise::new(42);
    let h = p.lattice_hashes(0, 0, 0);
    assert_eq!(h.len(), 8);
}
