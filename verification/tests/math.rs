use amm::math::{integer_sqrt, mul_div, mul_div_wide};

#[test]
fn isqrt_of_small_numbers() {
    assert_eq!(integer_sqrt(0), 0);
    assert_eq!(integer_sqrt(1), 1);
    assert_eq!(integer_sqrt(2), 1);
    assert_eq!(integer_sqrt(3), 1);
    assert_eq!(integer_sqrt(4), 2);
    assert_eq!(integer_sqrt(8), 2);
    assert_eq!(integer_sqrt(9), 3);
    assert_eq!(integer_sqrt(99), 9);
    assert_eq!(integer_sqrt(100), 10);
}

#[test]
fn isqrt_of_four_trillion() {
    assert_eq!(integer_sqrt(4_000_000_000_000), 2_000_000);
}

#[test]
fn isqrt_rounds_down_next_to_a_square() {
    let r: u128 = 3_037_000_499;
    assert_eq!(integer_sqrt(r * r - 1), 3_037_000_498);
    assert_eq!(integer_sqrt(r * r), 3_037_000_499);
    assert_eq!(integer_sqrt(r * r + 2 * r), 3_037_000_499);
    assert_eq!(integer_sqrt((r + 1) * (r + 1)), 3_037_000_500);
}

#[test]
fn isqrt_is_exact_where_floats_are_not() {
    // 2^106 + 2^54 - 1 is just below (2^53 + 1)^2 = 2^106 + 2^54 + 1.
    let n: u128 = (1u128 << 106) + (1u128 << 54) - 1;
    assert_eq!(integer_sqrt(n), 1u64 << 53);
    assert_eq!(integer_sqrt(n + 2), (1u64 << 53) + 1);
}

#[test]
fn isqrt_of_the_largest_inputs() {
    assert_eq!(integer_sqrt(u128::MAX), u64::MAX);
    let m = u64::MAX as u128;
    assert_eq!(integer_sqrt(m * m), u64::MAX);
    assert_eq!(integer_sqrt(m * m - 1), u64::MAX - 1);
}

#[test]
fn isqrt_brackets_its_input() {
    let mut n: u128 = 1;
    while n < (1u128 << 120) {
        let r = integer_sqrt(n) as u128;
        assert!(r * r <= n);
        assert!((r + 1) * (r + 1) > n);
        n = n * 7 + 3;
    }
}

#[test]
fn mul_div_floors_the_quotient() {
    assert_eq!(mul_div(7, 3, 2), Some(10));
    assert_eq!(mul_div(1000, 30, 10_000), Some(3));
    assert_eq!(mul_div(997, 1_000_000, 1_000_997), Some(996));
    assert_eq!(mul_div(0, 5, 9), Some(0));
}

#[test]
fn mul_div_takes_products_beyond_64_bits() {
    assert_eq!(mul_div(u64::MAX, u64::MAX, u64::MAX), Some(u64::MAX));
    assert_eq!(mul_div(u64::MAX, 1_000_000, 2_000_000), Some(u64::MAX / 2));
}

#[test]
fn mul_div_refuses_a_zero_divisor() {
    assert_eq!(mul_div(1, 1, 0), None);
    assert_eq!(mul_div(0, 0, 0), None);
}

#[test]
fn mul_div_refuses_a_quotient_beyond_64_bits() {
    assert_eq!(mul_div(u64::MAX, 2, 1), None);
    assert_eq!(mul_div(u64::MAX, u64::MAX, 1), None);
}

#[test]
fn mul_div_wide_keeps_the_whole_quotient() {
    assert_eq!(mul_div_wide(u64::MAX, 2, 1), (u64::MAX as u128) * 2);
    assert_eq!(mul_div_wide(10, 10, 3), 33);
    assert_eq!(mul_div_wide(5, 7, 1u128 << 65), 0);
}
