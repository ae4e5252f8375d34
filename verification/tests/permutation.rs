use rand::SeedableRng;
use rand::seq::SliceRandom;
use worley_noise::permutation_table::PermutationTable;

/// Read the whole table back through `hash`: a single-component
/// vector `[i]` folds to the accumulator `i & 0xff`, so the hash is
/// exactly the table entry at `i`.
fn table_entries(t: &PermutationTable) -> Vec<u8> {
    (0..256).map(|i| t.hash(&[i as i32])).collect()
}

#[test]
fn build_is_deterministic() {
    let t1 = PermutationTable::new(0x5EED);
    let t2 = PermutationTable::new(0x5EED);
    assert_eq!(table_entries(&t1), table_entries(&t2));
    for coords in [[0, 0], [1, 0], [0, 1], [-7, 12], [i32::MIN, i32::MAX]] {
        assert_eq!(t1.hash(&coords), t2.hash(&coords));
    }
}

#[test]
fn build_is_bijection() {
    for seed in [0u64, 1, 0x5EED, u64::MAX] {
        let t = PermutationTable::new(seed);
        let mut seen = [false; 256];
        for v in table_entries(&t) {
            assert!(!seen[v as usize], "value {} appears twice", v);
            seen[v as usize] = true;
        }
        assert!(seen.iter().all(|&s| s));
    }
}

#[test]
fn build_differs_from_identity() {
    let t = PermutationTable::new(0x5EED);
    let entries = table_entries(&t);
    assert!((0..256).any(|i| entries[i] != i as u8));
}

#[test]
fn build_matches_seeded_shuffle() {
    // The table must be exactly a Fisher-Yates shuffle of 0..=255
    // driven by the PCG generator seeded with the same seed.
    for seed in [0u64, 42, 0x5EED] {
        let mut expected: Vec<u8> = (0..=255).collect();
        let mut rng = rand_pcg::Lcg64Xsh32::seed_from_u64(seed);
        expected.shuffle(&mut rng);
        let t = PermutationTable::new(seed);
        assert_eq!(table_entries(&t), expected);
    }
}

#[test]
fn ken_table_reference_values() {
    let t = PermutationTable::ken_table();
    let entries = table_entries(&t);
    assert_eq!(entries[0], 151);
    assert_eq!(entries[1], 160);
    assert_eq!(entries[150], 58);
    assert_eq!(entries[160], 119);
    assert_eq!(entries[255], 180);
}

#[test]
fn ken_table_is_bijection() {
    let t = PermutationTable::ken_table();
    let mut seen = [false; 256];
    for v in table_entries(&t) {
        assert!(!seen[v as usize]);
        seen[v as usize] = true;
    }
    assert!(seen.iter().all(|&s| s));
}

#[test]
fn hash_is_order_sensitive() {
    let t = PermutationTable::ken_table();
    assert_eq!(t.hash(&[0, 1]), 58);
    assert_eq!(t.hash(&[1, 0]), 119);
    assert_ne!(t.hash(&[0, 1]), t.hash(&[1, 0]));
    assert_ne!(t.hash(&[1, 2, 3]), t.hash(&[3, 2, 1]));
}

#[test]
fn hash_longer_vectors() {
    let t = PermutationTable::ken_table();
    assert_eq!(t.hash(&[3]), 91);
    assert_eq!(t.hash(&[1, 2, 3]), 42);
    assert_eq!(t.hash(&[3, 2, 1]), 32);
}

#[test]
fn hash_wraps_negative_components() {
    let t = PermutationTable::ken_table();
    // -1 & 0xff == 255, so [-1, -1] folds like [255, 255].
    assert_eq!(t.hash(&[-1, -1]), 231);
    assert_eq!(t.hash(&[-1, -1]), t.hash(&[255, 255]));
    assert_eq!(t.hash(&[-256]), t.hash(&[0]));
}

#[test]
fn different_seeds_differ() {
    let a = table_entries(&PermutationTable::new(1));
    let b = table_entries(&PermutationTable::new(2));
    assert_ne!(a, b);
}
