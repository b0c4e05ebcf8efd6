use keyclack::error::SoundError;
use keyclack::select::{modular_pow, select_index};

#[test]
fn modular_pow_reduces_by_hand_example() {
    assert_eq!(modular_pow(104, 7, 3), 2);
}

#[test]
fn modular_pow_modulus_one_is_zero() {
    assert_eq!(modular_pow(104, 7, 1), 0);
    assert_eq!(modular_pow(-5, 0, 1), 0);
}

#[test]
fn modular_pow_small_values() {
    assert_eq!(modular_pow(2, 10, 1000), 24);
    assert_eq!(modular_pow(3, 0, 7), 1);
    assert_eq!(modular_pow(3, -4, 7), 1);
}

#[test]
fn modular_pow_negative_base_is_reduced_into_range() {
    assert_eq!(modular_pow(-1, 1, 5), 4);
    assert_eq!(modular_pow(-7, 3, 10), 7);
}

#[test]
fn modular_pow_wide_products_do_not_overflow() {
    assert_eq!(modular_pow(46341, 2, i32::MAX), 4634);
}

#[test]
fn select_index_fixed_example() {
    assert_eq!(select_index(1, 104, 5), Ok(4));
    assert_eq!(select_index(7, 104, 3), Ok(2));
}

#[test]
fn select_index_is_repeatable() {
    let first = select_index(42, 104, 5);
    let second = select_index(42, 104, 5);
    assert_eq!(first, second);
}

#[test]
fn select_index_in_range_for_many_inputs() {
    for len in 1..20usize {
        for key in -3..60 {
            let i = select_index(key, 104, len).unwrap();
            assert!(i < len);
        }
    }
}

#[test]
fn select_index_single_clip_is_zero() {
    for key in [-10, 0, 1, 7, 200] {
        for total in [-104, 0, 1, 104, i32::MAX] {
            assert_eq!(select_index(key, total, 1), Ok(0));
        }
    }
}

#[test]
fn select_index_key_zero_counts_as_one() {
    assert_eq!(select_index(0, 104, 5), select_index(1, 104, 5));
    assert_eq!(select_index(-9, 104, 5), Ok(4));
}

#[test]
fn select_index_empty_bank_fails() {
    assert_eq!(select_index(7, 104, 0), Err(SoundError::EmptyBank));
}

#[test]
fn select_index_large_bank() {
    assert_eq!(select_index(3, 104, 1usize << 40), Ok(1_124_864));
}
