use std::collections::hash_map::DefaultHasher;
use std::hash::{Hash, Hasher};

use fractal_map::seed::{calculate_u32_seed_from_str, fold_hash};

fn hashed(phrase: &str) -> u64 {
    let mut state = DefaultHasher::new();
    phrase.hash(&mut state);
    state.finish()
}

#[test]
fn fold_hash_is_the_remainder_modulo_u32_max() {
    assert_eq!(fold_hash(0), 0);
    assert_eq!(fold_hash(5), 5);
    assert_eq!(fold_hash(4_294_967_294), 4_294_967_294);
    assert_eq!(fold_hash(4_294_967_295), 0);
    assert_eq!(fold_hash(4_294_967_296), 1);
    assert_eq!(fold_hash(u64::MAX), 0);
    assert_eq!(fold_hash(10_000_000_000), 1_410_065_410);
}

#[test]
fn seed_of_a_phrase_is_its_folded_hash() {
    for phrase in ["wizard tower", "supok", "", "a", "wizard towers"] {
        let expected = (hashed(phrase) % u64::from(u32::MAX)) as u32;
        assert_eq!(calculate_u32_seed_from_str(phrase), expected);
    }
}

#[test]
fn seed_depends_on_the_phrase() {
    assert_ne!(hashed("wizard tower"), hashed(""));
    assert_ne!(
        calculate_u32_seed_from_str("wizard tower"),
        calculate_u32_seed_from_str("supok")
    );
    assert_ne!(
        calculate_u32_seed_from_str("wizard tower"),
        fold_hash(DefaultHasher::new().finish())
    );
}

#[test]
fn equal_phrases_have_equal_seeds() {
    let first = calculate_u32_seed_from_str("wizard tower");
    let second = calculate_u32_seed_from_str(&String::from("wizard tower"));
    assert_eq!(first, second);
    assert!(first < u32::MAX);
}
