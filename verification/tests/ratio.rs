use zusi_result_cli::ratio::greatest_common_divisor;
use zusi_result_cli::{Quantity, Ratio, RunRecord};

#[test]
fn gcd_of_known_pairs() {
    assert_eq!(greatest_common_divisor(1000, 80), 40);
    assert_eq!(greatest_common_divisor(80, 1000), 40);
    assert_eq!(greatest_common_divisor(17, 13), 1);
    assert_eq!(greatest_common_divisor(0, 5), 5);
    assert_eq!(greatest_common_divisor(5, 0), 5);
    assert_eq!(greatest_common_divisor(1, 1), 1);
    assert_eq!(greatest_common_divisor(0, 0), 0);
    assert_eq!(greatest_common_divisor(u128::MAX, u128::MAX), u128::MAX);
    assert_eq!(greatest_common_divisor(u128::MAX, 1), 1);
    assert_eq!(greatest_common_divisor(1 << 100, 1 << 90), 1 << 90);
}

#[test]
fn ratio_is_in_lowest_terms() {
    assert_eq!(Ratio::new(1000, 80), Ratio { numerator: 25, denominator: 2 });
    assert_eq!(Ratio::new(3000, 230), Ratio { numerator: 300, denominator: 23 });
    assert_eq!(Ratio::new(7, 1), Ratio { numerator: 7, denominator: 1 });
    assert_eq!(Ratio::new(7, 7), Ratio { numerator: 1, denominator: 1 });
    assert_eq!(Ratio::new(3, 7), Ratio { numerator: 3, denominator: 7 });
}

#[test]
fn zero_is_zero_over_one() {
    assert_eq!(Ratio::new(0, 1), Ratio { numerator: 0, denominator: 1 });
    assert_eq!(Ratio::new(0, 230), Ratio { numerator: 0, denominator: 1 });
    assert_eq!(Ratio::new(0, u128::MAX), Ratio { numerator: 0, denominator: 1 });
}

#[test]
fn equal_quotients_are_equal_ratios() {
    assert_eq!(Ratio::new(10, 4), Ratio::new(25, 10));
    assert_eq!(Ratio::new(1000, 100), Ratio::new(3000, 300));
    assert_ne!(Ratio::new(10, 4), Ratio::new(10, 3));
}

#[test]
fn record_holds_what_it_was_given() {
    let run = RunRecord::new(1000, 100, 80);
    assert_eq!(run, RunRecord { distance: 1000, total_duration: 100, pure_duration: 80 });
    assert_eq!(run.get(Quantity::Distance), 1000);
    assert_eq!(run.get(Quantity::TotalDuration), 100);
    assert_eq!(run.get(Quantity::PureDuration), 80);
}
