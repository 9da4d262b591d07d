use jamming_chipper::fixed::{div_toward_zero, fourth_root, isqrt, quarter_pow, ONE};

#[test]
fn fourth_root_of_perfect_powers() {
    assert_eq!(fourth_root(0), 0);
    assert_eq!(fourth_root(16), 2);
    assert_eq!(fourth_root(15), 1);
    assert_eq!(fourth_root(10_000_000_000_000_000), 10_000);
}

#[test]
fn square_root_rounds_down() {
    assert_eq!(isqrt(0), 0);
    assert_eq!(isqrt(99), 9);
    assert_eq!(isqrt(100), 10);
    assert_eq!(isqrt(200_000_000), 14_142);
}

#[test]
fn quarter_powers() {
    assert_eq!(quarter_pow(ONE as u64, 3), 10_000);
    assert_eq!(quarter_pow(2_500, 3), 3_535);
    assert_eq!(quarter_pow(625, 2), 2_500);
    assert_eq!(quarter_pow(6_000, 4), 6_000);
    assert_eq!(quarter_pow(0, 3), 0);
    assert_eq!(quarter_pow(0, 0), 10_000);
}

#[test]
fn division_rounds_toward_zero() {
    assert_eq!(div_toward_zero(7, 2), 3);
    assert_eq!(div_toward_zero(-7, 2), -3);
    assert_eq!(div_toward_zero(0, 5), 0);
}
