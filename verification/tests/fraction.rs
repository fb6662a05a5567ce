use backlight::Fraction;

fn ratio(numer: i64, denom: u64) -> Fraction {
    Fraction { numer, denom }
}

#[test]
fn from_percent_is_over_hundred() {
    assert_eq!(Fraction::from_percent(0), ratio(0, 100));
    assert_eq!(Fraction::from_percent(37), ratio(37, 100));
    assert_eq!(Fraction::from_percent(255), ratio(255, 100));
}

#[test]
fn clamp_keeps_what_is_in_range() {
    assert_eq!(ratio(0, 100).clamp(), ratio(0, 100));
    assert_eq!(ratio(37, 100).clamp(), ratio(37, 100));
    assert_eq!(ratio(100, 100).clamp(), ratio(100, 100));
    assert_eq!(ratio(0, 0).clamp(), ratio(0, 0));
    assert_eq!(ratio(i64::MAX, u64::MAX).clamp(), ratio(i64::MAX, u64::MAX));
}

#[test]
fn clamp_brings_back_what_is_out_of_range() {
    assert_eq!(ratio(-1, 100).clamp(), ratio(0, 1));
    assert_eq!(ratio(i64::MIN, 1).clamp(), ratio(0, 1));
    assert_eq!(ratio(-5, 0).clamp(), ratio(0, 1));
    assert_eq!(ratio(101, 100).clamp(), ratio(1, 1));
    assert_eq!(ratio(i64::MAX, 1).clamp(), ratio(1, 1));
    assert_eq!(ratio(5, 0).clamp(), ratio(1, 1));
}

#[test]
fn to_level_rounds_to_the_nearest_level_with_ties_up() {
    assert_eq!(ratio(1, 2).to_level(5), 3); // 2.5
    assert_eq!(ratio(1, 2).to_level(4), 2);
    assert_eq!(ratio(1, 10).to_level(5), 1); // 0.5
    assert_eq!(ratio(49, 100).to_level(1), 0);
    assert_eq!(ratio(50, 100).to_level(1), 1);
    assert_eq!(ratio(1, 3).to_level(100), 33);
    assert_eq!(ratio(2, 3).to_level(100), 67);
    assert_eq!(ratio(0, 7).to_level(100), 0);
    assert_eq!(ratio(7, 7).to_level(100), 100);
    assert_eq!(ratio(37, 100).to_level(937), 347); // 346.69
}

#[test]
fn to_level_clamps_first() {
    assert_eq!(ratio(-1, 2).to_level(100), 0);
    assert_eq!(ratio(3, 2).to_level(100), 100);
    assert_eq!(ratio(5, 0).to_level(100), 100);
    assert_eq!(ratio(-5, 0).to_level(100), 0);
}

#[test]
fn to_level_of_the_undefined_ratio_is_zero() {
    assert_eq!(ratio(0, 0).to_level(100), 0);
    assert_eq!(ratio(0, 0).to_level(0), 0);
}

#[test]
fn to_level_at_the_limits_of_the_machine() {
    assert_eq!(ratio(1, 1).to_level(u32::MAX), u32::MAX);
    assert_eq!(ratio(i64::MAX, u64::MAX).to_level(u32::MAX), 2147483647);
    assert_eq!(ratio(i64::MAX, i64::MAX as u64).to_level(u32::MAX), u32::MAX);
    assert_eq!(ratio(1, u64::MAX).to_level(u32::MAX), 0);
    assert_eq!(ratio(0, u64::MAX).to_level(u32::MAX), 0);
    assert_eq!(ratio(1, 2).to_level(0), 0);
}
