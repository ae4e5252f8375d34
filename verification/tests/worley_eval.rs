use rand::Rng;
use rand::RngCore;
use rand::SeedableRng;
use worley_noise::math::{FRAC_ONE, Fixed, Point};
use worley_noise::permutation_table::PermutationTable;
use worley_noise::worley::{Metric, evaluate, evaluate_all, feature_offset, metric_key};

fn fixed(whole: i32, frac: u64) -> Fixed {
    Fixed { whole, frac }
}

fn point(xw: i32, xf: u64, yw: i32, yf: u64) -> Point {
    Point { x: fixed(xw, xf), y: fixed(yw, yf) }
}

/// The Euclidean key scaled back to a distance: sqrt(key / 2^106).
fn euclid_dist(key: u128) -> f64 {
    (key as f64 / (1u128 << 106) as f64).sqrt()
}

#[test]
fn metric_exact_values() {
    // p = (0, 0), q = (3, 4): Euclidean distance exactly 5, Manhattan
    // exactly 7.
    let p = point(0, 0, 0, 0);
    let q = point(3, 0, 4, 0);
    let e = metric_key(Metric::Euclidean, p, q);
    assert_eq!(e, 25u128 << 106);
    assert_eq!((e as f64 / (1u128 << 106) as f64).sqrt(), 5.0);
    let m = metric_key(Metric::Manhattan, p, q);
    assert_eq!(m, 7u128 << 53);
    assert_eq!(m as f64 / FRAC_ONE as f64, 7.0);
    // The metric is symmetric in its two points.
    assert_eq!(e, metric_key(Metric::Euclidean, q, p));
    assert_eq!(m, metric_key(Metric::Manhattan, q, p));
}

#[test]
fn feature_offset_matches_generator() {
    for h in [0u8, 1, 151, 255] {
        let off = feature_offset(h);
        let mut rng = rand_xoshiro::SplitMix64::seed_from_u64(h as u64);
        let a = rng.next_u64();
        let b = rng.next_u64();
        assert_eq!(off.x.whole, 0);
        assert_eq!(off.y.whole, 0);
        assert_eq!(off.x.frac, a >> 11);
        assert_eq!(off.y.frac, b >> 11);
        assert!(off.x.frac < FRAC_ONE && off.y.frac < FRAC_ONE);
        // The same draws, taken as unit-interval doubles, sit on the
        // same 2^-53 grid points.
        let mut rng2 = rand_xoshiro::SplitMix64::seed_from_u64(h as u64);
        let fx: f64 = rng2.gen();
        let fy: f64 = rng2.gen();
        assert_eq!((fx * FRAC_ONE as f64) as u64, off.x.frac);
        assert_eq!((fy * FRAC_ONE as f64) as u64, off.y.frac);
    }
}

#[test]
fn ranks_are_nondecreasing() {
    let table = PermutationTable::new(0x5EED);
    let ken = PermutationTable::ken_table();
    let samples = [
        point(0, 0, 0, 0),
        point(0, 5 << 50, 3, 1 << 52),
        point(-3, 7 << 49, -1, 1 << 52),
        point(100, 1, -100, FRAC_ONE - 1),
    ];
    for t in [&table, &ken] {
        for metric in [Metric::Euclidean, Metric::Manhattan] {
            for s in samples {
                let all = evaluate_all(s, t, metric);
                assert_eq!(all.len(), 9);
                for w in all.windows(2) {
                    assert!(w[0].key <= w[1].key);
                }
                for rank in 0..9 {
                    assert_eq!(evaluate(s, t, metric, rank), all[rank]);
                }
            }
        }
    }
}

#[test]
fn golden_scenario() {
    // Reference table, sample (0.0, 0.0), rank 0, Euclidean.
    let ken = PermutationTable::ken_table();
    let s = point(0, 0, 0, 0);
    let r = evaluate(s, &ken, Metric::Euclidean, 0);
    assert_eq!(r.key, 6785446909764889562673148502434u128);
    assert_eq!(r.pos.x.whole, -1);
    assert_eq!(r.pos.y.whole, 0);
    assert_eq!(r.pos.x.frac, 6623521369090147);
    assert_eq!(r.pos.y.frac, 1050488765872347);
    assert!((euclid_dist(r.key) - 0.28920077885998619).abs() < 1e-15);
    let m = evaluate(s, &ken, Metric::Manhattan, 0);
    assert_eq!(m.key, 3434166651523192);
}

#[test]
fn evaluation_is_idempotent() {
    let table = PermutationTable::new(0x5EED);
    let s = point(2, 3 << 51, -5, 1 << 20);
    for metric in [Metric::Euclidean, Metric::Manhattan] {
        let a = evaluate_all(s, &table, metric);
        let b = evaluate_all(s, &table, metric);
        assert_eq!(a, b);
        assert_eq!(evaluate(s, &table, metric, 0), evaluate(s, &table, metric, 0));
    }
}

#[test]
fn continuity_at_cell_boundary() {
    // Samples a hair inside and a hair outside the cell edge x = 1,
    // at y = 0.5: the nearest-feature distance moves continuously,
    // because the 3x3 window always covers the relevant cells.
    let ken = PermutationTable::ken_table();
    let inside = point(0, FRAC_ONE - (1 << 32), 0, 1 << 52);
    let outside = point(1, 1 << 32, 0, 1 << 52);
    let d_in = euclid_dist(evaluate(inside, &ken, Metric::Euclidean, 0).key);
    let d_out = euclid_dist(evaluate(outside, &ken, Metric::Euclidean, 0).key);
    // The samples are 2^-20 apart, so the distances differ by at most
    // about 1e-6.
    assert!((d_in - d_out).abs() < 1e-5);
}

#[test]
fn matches_float_reference_pipeline() {
    // Evaluate through the library and directly in floating point
    // (floor/frac, per-cell generator draws as unit doubles, float
    // distances): on 2^-53 grid samples the two agree to rounding.
    let table = PermutationTable::new(0x5EED);
    let samples = [(0.625f64, 3.25f64), (-2.375, -0.5), (10.0, 0.015625)];
    for (x, y) in samples {
        let ux = x.floor() as i32;
        let uy = y.floor() as i32;
        let rx = x - x.floor();
        let ry = y - y.floor();
        let mut cands: Vec<(f64, f64, f64)> = Vec::new();
        for i in -1..=1 {
            for j in -1..=1 {
                let h = table.hash(&[ux + j, uy + i]);
                let mut rng = rand_xoshiro::SplitMix64::seed_from_u64(h as u64);
                let fx: f64 = rng.gen();
                let fy: f64 = rng.gen();
                let dist =
                    ((rx - (fx + j as f64)).powi(2) + (ry - (fy + i as f64)).powi(2)).sqrt();
                cands.push((dist, fx + (ux + j) as f64, fy + (uy + i) as f64));
            }
        }
        cands.sort_by(|a, b| a.0.partial_cmp(&b.0).unwrap());

        let s = point(ux, ((rx * FRAC_ONE as f64) as u64), uy, ((ry * FRAC_ONE as f64) as u64));
        let r = evaluate(s, &table, Metric::Euclidean, 0);
        assert!((euclid_dist(r.key) - cands[0].0).abs() < 1e-12);
        let wx = r.pos.x.whole as f64 + r.pos.x.frac as f64 / FRAC_ONE as f64;
        let wy = r.pos.y.whole as f64 + r.pos.y.frac as f64 / FRAC_ONE as f64;
        assert!((wx - cands[0].1).abs() < 1e-12);
        assert!((wy - cands[0].2).abs() < 1e-12);
    }
}

#[test]
fn fixed_point_accessors() {
    let x = Fixed::new(-3, 5 << 50);
    assert_eq!(x.floor(), -3);
    assert_eq!(x.frac_steps(), 5 << 50);
    let y = Fixed::new(7, 0);
    let p = Point::new(x, y);
    assert_eq!(p.floor(), (-3, 7));
    // -3 + 5/8 = -2.375, separated from 7 by 9.375 units.
    assert_eq!(x.diff_steps(y), -((75i128 << 53) / 8));
    assert_eq!(y.diff_steps(x), (75i128 << 53) / 8);
}
