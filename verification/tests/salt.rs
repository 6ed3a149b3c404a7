use wizrad_terrain::salt::layer_seeds;
use wizrad_terrain::salt::octave_seed;
use wizrad_terrain::salt::salted;
use wizrad_terrain::salt::BOULDER_COARSE_SALT;
use wizrad_terrain::salt::BOULDER_FINE_SALT;
use wizrad_terrain::salt::JITTER_Y_SALT;
use wizrad_terrain::salt::OCTAVE1_SALT;
use wizrad_terrain::salt::OCTAVE2_SALT;
use wizrad_terrain::salt::OCTAVE3_SALT;
use wizrad_terrain::salt::OCTAVES;
use wizrad_terrain::salt::RIDGE_SALT;
use wizrad_terrain::salt::WARP1_X_SALT;
use wizrad_terrain::salt::WARP1_Y_SALT;
use wizrad_terrain::salt::WARP2_X_SALT;
use wizrad_terrain::salt::WARP2_Y_SALT;

#[test]
fn salt_table_is_pinned() {
    assert_eq!(WARP1_X_SALT, 1057917);
    assert_eq!(WARP1_Y_SALT, 15735697);
    assert_eq!(WARP2_X_SALT, 1541577);
    assert_eq!(WARP2_Y_SALT, 1561317);
    assert_eq!(RIDGE_SALT, 1515177);
    assert_eq!(BOULDER_FINE_SALT, 151591714);
    assert_eq!(BOULDER_COARSE_SALT, 1571577);
    assert_eq!(OCTAVE1_SALT, 1238715);
    assert_eq!(OCTAVE2_SALT, 9148167);
    assert_eq!(OCTAVE3_SALT, 2442347);
    assert_eq!(JITTER_Y_SALT, 1234125417);
    assert_eq!(OCTAVES, 4);
}

#[test]
fn salted_multiplies_and_wraps() {
    assert_eq!(salted(2, 3), 6);
    assert_eq!(salted(0, WARP1_X_SALT), 0);
    assert_eq!(salted(69, WARP1_X_SALT), 72996273);
    assert_eq!(salted(u32::MAX, WARP1_Y_SALT), 4279231599);
    assert_eq!(salted(69, BOULDER_FINE_SALT), 1869893674);
}

#[test]
fn layer_seeds_of_the_default_seed() {
    let s = layer_seeds(69);
    assert_eq!(s.warp1_x, 72996273);
    assert_eq!(s.warp1_y, 1085763093);
    assert_eq!(s.warp2_x, 106368813);
    assert_eq!(s.warp2_y, 107730873);
    assert_eq!(s.thickness, 69);
    assert_eq!(s.sites, 69);
    assert_eq!(s.ridge, 104547213);
    assert_eq!(s.boulder_fine, 1869893674);
    assert_eq!(s.boulder_coarse, 108438813);
}

#[test]
fn octave_seeds_of_the_default_seed() {
    assert_eq!(octave_seed(69, 0), 69);
    assert_eq!(octave_seed(69, 1), 85471335);
    assert_eq!(octave_seed(69, 2), 631223523);
    assert_eq!(octave_seed(69, 3), 168521943);
}

#[test]
fn odd_salts_keep_consecutive_seeds_apart() {
    let odd = [
        WARP1_X_SALT,
        WARP1_Y_SALT,
        WARP2_X_SALT,
        WARP2_Y_SALT,
        RIDGE_SALT,
        BOULDER_COARSE_SALT,
        OCTAVE1_SALT,
        OCTAVE2_SALT,
        OCTAVE3_SALT,
        JITTER_Y_SALT,
    ];
    for salt in odd {
        assert_eq!(salt % 2, 1);
        let mut seen: Vec<u32> = Vec::new();
        for seed in 0..512u32 {
            seen.push(salted(seed.wrapping_add(u32::MAX - 255), salt));
        }
        seen.sort();
        seen.dedup();
        assert_eq!(seen.len(), 512);
    }
}

#[test]
fn the_even_salt_folds_the_top_bit() {
    assert_eq!(BOULDER_FINE_SALT % 2, 0);
    assert_eq!(salted(69, BOULDER_FINE_SALT), salted(69 + (1 << 31), BOULDER_FINE_SALT));
    assert_ne!(salted(69, BOULDER_FINE_SALT), salted(70, BOULDER_FINE_SALT));
}
