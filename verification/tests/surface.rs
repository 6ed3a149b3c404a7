use wizrad_terrain::binary32::Binary32;
use wizrad_terrain::classify::classify;
use wizrad_terrain::classify::PixelSample;
use wizrad_terrain::classify::Terrain;
use wizrad_terrain::surface::FrameAction;
use wizrad_terrain::surface::TerrainError;
use wizrad_terrain::surface::WizradTerrain;
use wizrad_terrain::surface::DEFAULT_HEIGHT;
use wizrad_terrain::surface::DEFAULT_SEED;
use wizrad_terrain::surface::DEFAULT_WIDTH;
use wizrad_terrain::surface::TEXTURE_SLOT;

fn of(v: f32) -> Binary32 {
    Binary32::from_bits(v.to_bits())
}

/// The `k`-th of a list of samples that differ from one another.
fn sample(k: usize) -> PixelSample {
    let mut d = [2.0f32; 9];
    d[k % 9] = 0.01 * (k % 7) as f32;
    d[(k + 1) % 9] = 0.3;
    let mut gap = [[of(0.0); 9]; 9];
    for i in 0..9 {
        for j in 0..9 {
            gap[i][j] = of((d[i] - d[j]).abs());
        }
    }
    PixelSample {
        x: of((k as i32 % 5 - 2) as f32 + 0.5),
        y: of((k as i32 / 5 - 1) as f32 + 0.25),
        distance: d.map(of),
        gap,
        thickness: of(0.05 + 0.1 * (k % 3) as f32),
        ridge: of(0.1 * (k % 4) as f32),
        boulder_fine: of(0.3 * (k % 4) as f32),
        boulder_coarse: of(0.25 * (k % 5) as f32),
    }
}

fn samples(n: usize) -> Vec<PixelSample> {
    (0..n).map(sample).collect()
}

fn surface(w: usize, h: usize) -> WizradTerrain {
    match WizradTerrain::new(w, h) {
        Ok(s) => s,
        Err(e) => panic!("no surface of {} by {}: {:?}", w, h, e),
    }
}

fn terrains(s: &mut WizradTerrain, list: &Vec<PixelSample>) -> Vec<Terrain> {
    let (w, h): (usize, usize) = (s.width(), s.height());
    match s.regenerate(list) {
        Ok(Some(buffer)) => {
            assert_eq!(buffer.width(), w);
            assert_eq!(buffer.height(), h);
            assert_eq!(buffer.len(), w * h);
            let mut all: Vec<Terrain> = Vec::new();
            for i in 0..w {
                for j in 0..h {
                    match buffer.get(i, j) {
                        Some(t) => all.push(t),
                        None => panic!("no pixel at ({}, {})", i, j),
                    }
                }
            }
            all
        }
        Ok(None) => panic!("nothing regenerated"),
        Err(e) => panic!("refused: {:?}", e),
    }
}

#[test]
fn new_surface_is_stale_under_the_default_seed() {
    let s = surface(4, 3);
    assert_eq!(s.width(), 4);
    assert_eq!(s.height(), 3);
    assert_eq!(s.pixel_count(), 12);
    assert_eq!(s.seed(), 69);
    assert!(s.is_stale());
}

#[test]
fn default_surface() {
    let s = WizradTerrain::default();
    assert_eq!(s.width(), 800);
    assert_eq!(s.height(), 800);
    assert_eq!(s.seed(), 69);
    assert!(s.is_stale());
    assert_eq!((DEFAULT_WIDTH, DEFAULT_HEIGHT, DEFAULT_SEED, TEXTURE_SLOT), (800, 800, 69, 0));
}

#[test]
fn empty_surface_is_refused() {
    assert!(matches!(WizradTerrain::new(0, 4), Err(TerrainError::EmptySurface)));
    assert!(matches!(WizradTerrain::new(4, 0), Err(TerrainError::EmptySurface)));
    assert!(matches!(WizradTerrain::new(0, 0), Err(TerrainError::EmptySurface)));
    assert!(matches!(WizradTerrain::new(0, usize::MAX), Err(TerrainError::EmptySurface)));
    assert!(WizradTerrain::new(1, 1).is_ok());
}

#[test]
fn surface_beyond_the_machine_is_refused() {
    assert!(matches!(WizradTerrain::new(usize::MAX, 2), Err(TerrainError::TooManyPixels)));
    assert!(matches!(WizradTerrain::new(2, usize::MAX), Err(TerrainError::TooManyPixels)));
    assert!(WizradTerrain::new(usize::MAX, 1).is_ok());
}

#[test]
fn frame_without_request_keeps_the_seed() {
    let mut s = surface(2, 2);
    assert_eq!(s.frame(false), FrameAction::RegenerateThenDraw);
    assert_eq!(s.seed(), 69);
    assert!(s.is_stale());
}

#[test]
fn frame_with_request_moves_to_the_next_seed() {
    let mut s = surface(2, 2);
    assert_eq!(s.frame(true), FrameAction::RegenerateThenDraw);
    assert_eq!(s.seed(), 70);
    assert!(s.is_stale());
    assert_eq!(s.frame(true), FrameAction::RegenerateThenDraw);
    assert_eq!(s.seed(), 71);
    assert_eq!((s.width(), s.height()), (2, 2));
}

#[test]
fn seed_wraps_after_the_largest() {
    let mut s = surface(1, 1);
    let mut seed: u32 = s.seed();
    // 2^32 - 69 requests lead to the seed 0; stepping there takes too long,
    // so the wrap is taken from both ends.
    for _ in 0..1000 {
        s.frame(true);
        seed = seed.wrapping_add(1);
        assert_eq!(s.seed(), seed);
    }
    assert_eq!(u32::MAX.wrapping_add(1), 0);
}

#[test]
fn regenerate_classifies_every_sample() {
    let mut s = surface(4, 3);
    let list = samples(12);
    let made = terrains(&mut s, &list);
    let expected: Vec<Terrain> = list.iter().map(|p| classify(p, 69)).collect();
    assert_eq!(made, expected);
    assert!(!s.is_stale());
    assert_eq!(s.seed(), 69);
    assert_eq!((s.width(), s.height()), (4, 3));
}

#[test]
fn regenerate_known_picture() {
    let mut s = surface(4, 3);
    let made = terrains(&mut s, &samples(12));
    assert_eq!(
        made,
        vec![
            Terrain::RidgeWall,
            Terrain::RidgeWall,
            Terrain::Void,
            Terrain::Void,
            Terrain::RidgeWall,
            Terrain::RidgeWall,
            Terrain::Void,
            Terrain::Void,
            Terrain::RidgeWall,
            Terrain::Portal,
            Terrain::Void,
            Terrain::Void,
        ]
    );
    for _ in 0..4 {
        s.frame(true);
    }
    let made = terrains(&mut s, &samples(12));
    assert_eq!(
        made,
        vec![
            Terrain::RidgeWall,
            Terrain::RidgeWall,
            Terrain::Portal,
            Terrain::Portal,
            Terrain::Portal,
            Terrain::RidgeWall,
            Terrain::OpenFloor,
            Terrain::Portal,
            Terrain::RidgeWall,
            Terrain::RidgeWall,
            Terrain::Void,
            Terrain::Void,
        ]
    );
}

#[test]
fn buffer_is_laid_out_column_by_column() {
    let mut s = surface(3, 4);
    let list = samples(12);
    assert_eq!(s.sample_index(0, 0), Some(0));
    assert_eq!(s.sample_index(0, 3), Some(3));
    assert_eq!(s.sample_index(1, 0), Some(4));
    assert_eq!(s.sample_index(2, 3), Some(11));
    assert_eq!(s.sample_index(3, 0), None);
    assert_eq!(s.sample_index(0, 4), None);
    match s.regenerate(&list) {
        Ok(Some(buffer)) => {
            for i in 0..3usize {
                for j in 0..4usize {
                    assert_eq!(buffer.get(i, j), Some(classify(&list[i * 4 + j], 69)));
                }
            }
            assert_eq!(buffer.get(3, 0), None);
            assert_eq!(buffer.get(0, 4), None);
            assert_eq!(buffer.get(usize::MAX, usize::MAX), None);
        }
        _ => panic!("no picture"),
    }
}

#[test]
fn regenerate_uses_the_seed_of_the_surface() {
    let mut s = surface(4, 3);
    for _ in 0..4 {
        s.frame(true);
    }
    assert_eq!(s.seed(), 73);
    let list = samples(12);
    let made = terrains(&mut s, &list);
    let expected: Vec<Terrain> = list.iter().map(|p| classify(p, 73)).collect();
    assert_eq!(made, expected);
    let other: Vec<Terrain> = list.iter().map(|p| classify(p, 69)).collect();
    assert_ne!(made, other);
}

#[test]
fn regenerate_refuses_a_wrong_number_of_samples() {
    let mut s = surface(4, 3);
    assert!(matches!(s.regenerate(&samples(11)), Err(TerrainError::SampleCount)));
    assert!(s.is_stale());
    assert!(matches!(s.regenerate(&samples(13)), Err(TerrainError::SampleCount)));
    assert!(matches!(s.regenerate(&samples(0)), Err(TerrainError::SampleCount)));
    assert!(s.is_stale());
    assert_eq!(s.seed(), 69);
    assert!(matches!(s.regenerate(&samples(12)), Ok(Some(_))));
}

#[test]
fn regenerate_refuses_a_malformed_sample() {
    let mut s = surface(4, 3);
    let mut list = samples(12);
    list[11].x = of(3.0e9);
    assert!(matches!(s.regenerate(&list), Err(TerrainError::MalformedSample)));
    assert!(s.is_stale());
    list[11].x = of(0.0);
    list[0].y = of(f32::NEG_INFINITY);
    assert!(matches!(s.regenerate(&list), Err(TerrainError::MalformedSample)));
    assert!(s.is_stale());
    list[0].y = of(0.0);
    assert!(matches!(s.regenerate(&list), Ok(Some(_))));
    assert!(!s.is_stale());
}

#[test]
fn sample_count_is_checked_before_the_samples() {
    let mut s = surface(4, 3);
    let mut list = samples(5);
    list[0].x = of(f32::INFINITY);
    assert!(matches!(s.regenerate(&list), Err(TerrainError::SampleCount)));
}

#[test]
fn clean_surface_regenerates_nothing() {
    let mut s = surface(4, 3);
    let list = samples(12);
    assert!(matches!(s.regenerate(&list), Ok(Some(_))));
    assert!(!s.is_stale());
    assert!(matches!(s.regenerate(&list), Ok(None)));
    assert!(matches!(s.regenerate(&samples(3)), Ok(None)));
    assert!(!s.is_stale());
    assert_eq!(s.seed(), 69);
    assert_eq!(s.frame(false), FrameAction::Draw);
    assert_eq!(s.frame(false), FrameAction::Draw);
    assert!(!s.is_stale());
    assert_eq!(s.seed(), 69);
}

#[test]
fn request_makes_a_clean_surface_stale() {
    let mut s = surface(4, 3);
    let list = samples(12);
    assert!(matches!(s.regenerate(&list), Ok(Some(_))));
    assert_eq!(s.frame(true), FrameAction::RegenerateThenDraw);
    assert!(s.is_stale());
    assert_eq!(s.seed(), 70);
    assert_eq!(s.frame(false), FrameAction::RegenerateThenDraw);
    assert_eq!(s.seed(), 70);
    assert!(matches!(s.regenerate(&list), Ok(Some(_))));
    assert_eq!(s.frame(false), FrameAction::Draw);
}

#[test]
fn two_surfaces_make_the_same_picture() {
    let list = samples(20);
    let mut a = surface(5, 4);
    let mut b = surface(5, 4);
    assert_eq!(terrains(&mut a, &list), terrains(&mut b, &list));
    a.frame(true);
    b.frame(true);
    assert_eq!(terrains(&mut a, &list), terrains(&mut b, &list));
}

#[test]
fn a_pixel_depends_on_its_own_sample_only() {
    let list = samples(12);
    let mut changed = list.clone();
    changed[5] = sample(9);
    let mut a = surface(4, 3);
    let mut b = surface(4, 3);
    let first = terrains(&mut a, &list);
    let second = terrains(&mut b, &changed);
    for k in 0..12usize {
        if k != 5 {
            assert_eq!(first[k], second[k]);
        }
    }
    assert_eq!(first[5], Terrain::RidgeWall);
    assert_eq!(second[5], Terrain::Portal);
}
