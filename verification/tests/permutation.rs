use opensimplex::permutation::{
    build, fill_gradient_index, fill_permutation, lcg_step, pick_partner, LCG_INCREMENT,
    LCG_MULTIPLIER, PICK_OFFSET, TABLE_SIZE,
};

const TABLE_OF_123: [u8; 256] = [
    64, 5, 3, 245, 201, 7, 65, 11, 163, 189, 233, 45, 89, 25, 57, 127, 234, 200, 244, 23, 21, 35,
    222, 249, 19, 31, 114, 144, 169, 61, 110, 82, 138, 228, 108, 75, 77, 141, 205, 239, 9, 240,
    135, 207, 132, 20, 51, 133, 4, 44, 191, 53, 1, 128, 186, 146, 221, 112, 125, 73, 235, 225, 78,
    62, 147, 148, 97, 237, 91, 8, 157, 83, 185, 76, 165, 172, 224, 93, 60, 230, 95, 66, 47, 219,
    166, 105, 117, 124, 13, 229, 167, 131, 103, 22, 71, 94, 69, 115, 231, 226, 17, 208, 101, 152,
    255, 109, 181, 183, 12, 174, 248, 198, 232, 151, 242, 216, 59, 48, 27, 46, 81, 123, 79, 26,
    111, 187, 129, 176, 120, 118, 246, 211, 173, 204, 72, 210, 162, 253, 56, 159, 99, 179, 156,
    192, 39, 161, 67, 90, 121, 42, 98, 196, 164, 0, 33, 50, 16, 193, 49, 223, 85, 100, 113, 236,
    143, 52, 15, 177, 2, 28, 70, 74, 130, 250, 209, 227, 139, 158, 32, 195, 68, 40, 251, 218, 137,
    92, 213, 241, 154, 214, 220, 190, 238, 180, 202, 215, 6, 243, 119, 142, 55, 203, 37, 54, 134,
    116, 252, 206, 107, 168, 86, 217, 84, 36, 212, 182, 155, 10, 38, 150, 29, 188, 199, 126, 197,
    96, 149, 30, 41, 24, 87, 102, 63, 106, 88, 122, 171, 80, 175, 247, 43, 58, 178, 170, 145, 160,
    184, 14, 153, 136, 104, 18, 140, 34, 194, 254,
];

fn build_permutation(seed: i64) -> Vec<u8> {
    build(seed).0
}

fn derive_gradient_index(table: &Vec<u8>) -> Vec<u8> {
    let mut index: Vec<u8> = Vec::new();
    fill_gradient_index(table, &mut index);
    index
}

fn is_bijection(table: &[u8]) -> bool {
    let mut sorted: Vec<u8> = table.to_vec();
    sorted.sort();
    let expected: Vec<u8> = (0u8..=255u8).collect();
    sorted == expected
}

fn weighted_sum(table: &[u8]) -> u64 {
    let mut total: u64 = 0;
    for (i, v) in table.iter().enumerate() {
        total += (i as u64) * u64::from(*v);
    }
    total
}

#[test]
fn constants_are_frozen() {
    assert_eq!(TABLE_SIZE, 256);
    assert_eq!(LCG_MULTIPLIER, 6364136223846793005);
    assert_eq!(LCG_INCREMENT, 1442695040888963407);
    assert_eq!(PICK_OFFSET, 31);
}

#[test]
fn lcg_step_from_zero_is_the_increment() {
    assert_eq!(lcg_step(0), 1442695040888963407);
}

#[test]
fn lcg_step_exact_values() {
    assert_eq!(lcg_step(1), 7806831264735756412);
    assert_eq!(lcg_step(-1), -4921441182957829598);
    assert_eq!(lcg_step(123), -8978544595466216466);
}

#[test]
fn lcg_step_wraps_at_the_extremes() {
    assert_eq!(lcg_step(i64::MAX), 4301930853896946210);
    assert_eq!(lcg_step(i64::MIN), -7780676995965812401);
}

#[test]
fn three_steps_warm_the_generator_up() {
    assert_eq!(lcg_step(lcg_step(lcg_step(123))), -1867546576565752112);
}

#[test]
fn pick_partner_uses_the_non_negative_remainder() {
    assert_eq!(pick_partner(-32, 255), 255);
    assert_eq!(pick_partner(-1000, 6), 4);
    assert_eq!(pick_partner(-31, 7), 0);
}

#[test]
fn pick_partner_exact_values() {
    assert_eq!(pick_partner(0, 255), 31);
    assert_eq!(pick_partner(i64::MAX, 255), 30);
    assert_eq!(pick_partner(i64::MIN, 99), 23);
}

#[test]
fn pick_partner_at_position_zero_is_zero() {
    assert_eq!(pick_partner(1000, 0), 0);
    assert_eq!(pick_partner(-1, 0), 0);
}

#[test]
fn pick_partner_never_exceeds_the_position() {
    let mut state: i64 = 99;
    for position in 0u8..=255u8 {
        state = lcg_step(state);
        assert!(pick_partner(state, position) <= position);
    }
}

#[test]
fn permutation_of_seed_123_is_the_recorded_table() {
    assert_eq!(build_permutation(123), TABLE_OF_123.to_vec());
}

#[test]
fn permutation_prefixes_of_other_seeds() {
    assert_eq!(build_permutation(0)[..8], [254, 50, 92, 24, 36, 10, 190, 16]);
    assert_eq!(build_permutation(1)[..8], [33, 221, 255, 106, 55, 126, 129, 158]);
    assert_eq!(build_permutation(122)[..8], [24, 32, 30, 242, 224, 62, 194, 222]);
    assert_eq!(build_permutation(-1)[..8], [112, 72, 97, 7, 156, 36, 163, 13]);
}

#[test]
fn permutation_checksums() {
    assert_eq!(weighted_sum(&build_permutation(0)), 4478164);
    assert_eq!(weighted_sum(&build_permutation(122)), 4216066);
    assert_eq!(weighted_sum(&build_permutation(-1)), 4314540);
}

#[test]
fn permutation_of_the_extreme_seeds() {
    let low: Vec<u8> = build_permutation(i64::MIN);
    let high: Vec<u8> = build_permutation(i64::MAX);
    assert_eq!(low[..8], [104, 5, 68, 8, 124, 6, 50, 108]);
    assert_eq!(high[..8], [59, 157, 41, 102, 129, 11, 191, 187]);
    assert_eq!(weighted_sum(&low), 4364344);
    assert_eq!(weighted_sum(&high), 4399466);
    assert!(is_bijection(&low));
    assert!(is_bijection(&high));
}

#[test]
fn permutation_is_a_bijection_for_many_seeds() {
    let mut seed: i64 = -500;
    while seed <= 500 {
        let table: Vec<u8> = build_permutation(seed);
        assert_eq!(table.len(), 256);
        assert!(is_bijection(&table), "seed {}", seed);
        seed += 1;
    }
}

#[test]
fn permutation_is_a_bijection_for_scattered_seeds() {
    let mut seed: i64 = 1;
    for _ in 0..200 {
        seed = lcg_step(seed);
        assert!(is_bijection(&build_permutation(seed)), "seed {}", seed);
    }
}

#[test]
fn same_seed_gives_the_same_permutation() {
    for seed in [0i64, 123, -77, i64::MAX] {
        assert_eq!(build_permutation(seed), build_permutation(seed));
    }
}

#[test]
fn neighbouring_seeds_give_different_permutations() {
    assert_ne!(build_permutation(123), build_permutation(122));
    assert_ne!(build_permutation(0), build_permutation(1));
}

#[test]
fn gradient_index_is_the_entry_modulo_twelve_times_three() {
    let table: Vec<u8> = build_permutation(123);
    let index: Vec<u8> = derive_gradient_index(&table);
    assert_eq!(index.len(), 256);
    for i in 0..256usize {
        assert_eq!(index[i], (table[i] % 12) * 3);
    }
}

#[test]
fn gradient_index_of_seed_123_recorded_values() {
    let index: Vec<u8> = derive_gradient_index(&build_permutation(123));
    assert_eq!(index[..8], [12, 15, 9, 15, 27, 21, 15, 33]);
    assert_eq!(index[252..], [24, 30, 6, 6]);
    let total: u32 = index.iter().map(|v| u32::from(*v)).sum();
    assert_eq!(total, 4176);
}

#[test]
fn gradient_index_of_a_short_table() {
    assert_eq!(derive_gradient_index(&vec![0, 11, 12, 13, 255]), vec![0, 33, 0, 3, 9]);
    assert_eq!(derive_gradient_index(&Vec::new()), Vec::<u8>::new());
}

#[test]
fn gradient_index_is_not_the_table_itself() {
    let table: Vec<u8> = build_permutation(123);
    assert_ne!(derive_gradient_index(&table), table);
}

#[test]
fn build_returns_both_tables() {
    let (permutation, gradient_index) = build(123);
    assert_eq!(permutation, TABLE_OF_123.to_vec());
    assert_eq!(gradient_index, derive_gradient_index(&permutation));
}

#[test]
fn build_is_deterministic() {
    assert_eq!(build(-42), build(-42));
}

#[test]
fn fill_permutation_replaces_what_the_table_held() {
    let mut table: Vec<u8> = vec![7; 300];
    fill_permutation(123, &mut table);
    assert_eq!(table, TABLE_OF_123.to_vec());
    fill_permutation(0, &mut table);
    assert_eq!(table, build_permutation(0));
    let mut empty: Vec<u8> = Vec::new();
    fill_permutation(123, &mut empty);
    assert_eq!(empty, TABLE_OF_123.to_vec());
}

#[test]
fn fill_permutation_keeps_reserved_storage() {
    let mut table: Vec<u8> = Vec::with_capacity(256);
    let before: usize = table.capacity();
    fill_permutation(5, &mut table);
    assert_eq!(table.len(), 256);
    assert_eq!(table.capacity(), before);
}

#[test]
fn fill_gradient_index_replaces_what_the_index_held() {
    let mut index: Vec<u8> = vec![200; 17];
    fill_gradient_index(&vec![0, 11, 12, 13, 255], &mut index);
    assert_eq!(index, vec![0, 33, 0, 3, 9]);
    fill_gradient_index(&Vec::new(), &mut index);
    assert_eq!(index, Vec::<u8>::new());
}
