use ordered_float::OrderedFloat;
use wizrad_terrain::binary32::Binary32;
use wizrad_terrain::ranking::nearest_site;
use wizrad_terrain::ranking::rank_sites;

fn of(d: [f32; 9]) -> [Binary32; 9] {
    d.map(|v| Binary32::from_bits(v.to_bits()))
}

fn sorted_by_key(d: [f32; 9]) -> Vec<usize> {
    let mut pairs: Vec<(usize, f32)> = d.iter().copied().enumerate().collect();
    pairs.sort_by_key(|x| OrderedFloat(x.1));
    pairs.iter().map(|x| x.0).collect()
}

#[test]
fn ranking_of_distinct_distances() {
    let d = [0.9, 0.3, 0.5, 0.1, 0.7, 0.2, 0.8, 0.4, 0.6];
    assert_eq!(rank_sites(&of(d)), [3, 5, 1, 7, 2, 8, 4, 6, 0]);
    assert_eq!(nearest_site(&of(d)), 3);
}

#[test]
fn ranking_keeps_ties_in_order() {
    let d = [1.0, 0.5, 1.0, 0.5, 0.25, 1.0, 0.25, 0.5, 1.0];
    assert_eq!(rank_sites(&of(d)), [4, 6, 1, 3, 7, 0, 2, 5, 8]);
    assert_eq!(nearest_site(&of(d)), 4);
}

#[test]
fn ranking_of_equal_distances_is_the_enumeration() {
    assert_eq!(rank_sites(&of([0.0; 9])), [0, 1, 2, 3, 4, 5, 6, 7, 8]);
    assert_eq!(nearest_site(&of([0.0; 9])), 0);
    assert_eq!(rank_sites(&of([f32::NAN; 9])), [0, 1, 2, 3, 4, 5, 6, 7, 8]);
}

#[test]
fn ranking_puts_nan_last_and_zeros_together() {
    let d = [f32::NAN, 0.0, -0.0, f32::INFINITY, 1.0, -f32::NAN, -1.0, 0.0, f32::NEG_INFINITY];
    assert_eq!(rank_sites(&of(d)), [8, 6, 1, 2, 7, 4, 3, 0, 5]);
    assert_eq!(nearest_site(&of(d)), 8);
}

#[test]
fn ranking_is_the_stable_sort_by_ordered_float() {
    let pool: [f32; 8] = [0.0, -0.0, 0.25, 0.5, 0.5, 1.0, f32::INFINITY, f32::NAN];
    let mut x: u32 = 2024;
    for round in 0..3000u32 {
        let mut d = [0.0f32; 9];
        for slot in d.iter_mut() {
            x = x.wrapping_mul(1664525).wrapping_add(1013904223);
            *slot = if round % 2 == 0 {
                pool[(x >> 16) as usize % pool.len()]
            } else {
                f32::from_bits(x)
            };
        }
        let order = rank_sites(&of(d));
        assert_eq!(order.to_vec(), sorted_by_key(d));
        assert_eq!(nearest_site(&of(d)), order[0]);
    }
}

#[test]
fn ranking_lists_every_site_once() {
    let d = [0.3, 0.3, 0.1, 0.9, 0.1, 0.3, 0.0, 0.9, 0.1];
    let mut order = rank_sites(&of(d)).to_vec();
    order.sort();
    assert_eq!(order, vec![0, 1, 2, 3, 4, 5, 6, 7, 8]);
}

#[test]
fn no_site_is_nearer_than_the_nearest() {
    let mut x: u32 = 7;
    for round in 0..2000u32 {
        let mut d = [0.0f32; 9];
        for slot in d.iter_mut() {
            x = x.wrapping_mul(1664525).wrapping_add(1013904223);
            *slot = if round % 2 == 0 { (x >> 28) as f32 * 0.25 } else { f32::from_bits(x) };
        }
        let n = nearest_site(&of(d));
        for i in 0..9usize {
            assert!(!(d[i] < d[n]));
            assert!(!of(d)[i].lt(of(d)[n]));
            if d[n].is_nan() {
                assert!(d[i].is_nan());
            }
            if i < n {
                assert!(d[n] < d[i] || d[i].is_nan());
            }
        }
    }
}
