use zusi_result_cli::{AnalyseError, Analysis, Ratio, ResultAnalyserGroup, RunRecord};

fn group_of(runs: Vec<RunRecord>) -> ResultAnalyserGroup {
    match ResultAnalyserGroup::new(runs) {
        Ok(group) => group,
        Err(error) => panic!("no group: {:?}", error),
    }
}

fn ratio(numerator: u128, denominator: u128) -> Ratio {
    Ratio { numerator, denominator }
}

fn as_float(ratio: Ratio) -> f64 {
    ratio.numerator as f64 / ratio.denominator as f64
}

#[test]
fn single_run_statistics() {
    let group = group_of(vec![RunRecord::new(1000, 100, 80)]);
    assert_eq!(group.total_distance(), 1000);
    assert_eq!(group.average_distance(), ratio(1000, 1));
    assert_eq!(group.average_speed(), Ok(ratio(10, 1)));
    assert_eq!(group.pure_average_speed(), Ok(ratio(25, 2)));
    assert_eq!(as_float(group.pure_average_speed().unwrap()), 12.5);
    assert_eq!(group.total_driving_time(), 100);
    assert_eq!(group.total_pure_driving_time(), 80);
}

#[test]
fn two_run_statistics() {
    let group = group_of(vec![RunRecord::new(1000, 100, 80), RunRecord::new(2000, 200, 150)]);
    assert_eq!(group.total_distance(), 3000);
    assert_eq!(group.average_distance(), ratio(1500, 1));
    assert_eq!(group.total_driving_time(), 300);
    assert_eq!(group.average_speed(), Ok(ratio(10, 1)));
    assert_eq!(group.total_pure_driving_time(), 230);
    assert_eq!(group.pure_average_speed(), Ok(ratio(300, 23)));
    let pure = as_float(group.pure_average_speed().unwrap());
    assert!((pure - 13.04).abs() < 0.005);
}

#[test]
fn empty_batch_is_rejected() {
    assert!(matches!(ResultAnalyserGroup::new(vec![]), Err(AnalyseError::EmptyBatch)));
}

#[test]
fn zero_duration_has_no_speed() {
    let group = group_of(vec![RunRecord::new(0, 0, 0)]);
    assert_eq!(group.total_distance(), 0);
    assert_eq!(group.average_distance(), ratio(0, 1));
    assert_eq!(group.average_speed(), Err(AnalyseError::ZeroDuration));
    assert_eq!(group.pure_average_speed(), Err(AnalyseError::ZeroDuration));
    assert_eq!(group.total_driving_time(), 0);
    assert_eq!(group.total_pure_driving_time(), 0);
}

#[test]
fn every_non_empty_batch_is_accepted() {
    for count in 1..=20usize {
        let runs: Vec<RunRecord> = (0..count).map(|i| RunRecord::new(i as u64, 2, 1)).collect();
        let group = group_of(runs.clone());
        assert_eq!(group.count(), count);
        assert_eq!(group.runs(), &runs);
    }
}

#[test]
fn try_from_is_new() {
    let runs = vec![RunRecord::new(5, 4, 3)];
    let group = ResultAnalyserGroup::try_from(runs.clone()).ok().unwrap();
    assert_eq!(group.runs(), &runs);
    let made: Result<ResultAnalyserGroup, AnalyseError> = runs.try_into();
    assert_eq!(made.ok().unwrap().total_distance(), 5);
    let none: Result<ResultAnalyserGroup, AnalyseError> = Vec::new().try_into();
    assert!(matches!(none, Err(AnalyseError::EmptyBatch)));
}

#[test]
fn sums_ignore_order() {
    let a = RunRecord::new(1200, 90, 70);
    let b = RunRecord::new(1, 3, 2);
    let c = RunRecord::new(777, 50, 50);
    let orders = [[a, b, c], [a, c, b], [b, a, c], [b, c, a], [c, a, b], [c, b, a]];
    let first = group_of(orders[0].to_vec()).analysis();
    assert_eq!(first.total_distance, 1978);
    assert_eq!(first.total_driving_time, 143);
    assert_eq!(first.total_pure_driving_time, 122);
    for order in orders {
        assert_eq!(group_of(order.to_vec()).analysis(), first);
    }
}

#[test]
fn mean_of_one_run_is_its_distance() {
    for distance in [0u64, 1, 999, u64::MAX] {
        let group = group_of(vec![RunRecord::new(distance, 10, 10)]);
        assert_eq!(group.average_distance(), ratio(distance as u128, 1));
    }
}

#[test]
fn mean_is_total_over_count() {
    let group = group_of(vec![RunRecord::new(1000, 1, 1), RunRecord::new(2001, 1, 1)]);
    assert_eq!(group.average_distance(), ratio(3001, 2));
    let group = group_of(vec![
        RunRecord::new(10, 1, 1),
        RunRecord::new(20, 1, 1),
        RunRecord::new(30, 1, 1),
        RunRecord::new(40, 1, 1),
    ]);
    assert_eq!(group.average_distance(), ratio(25, 1));
    let mean = group.average_distance();
    assert_eq!(mean.numerator * group.count() as u128, group.total_distance() * mean.denominator);
}

#[test]
fn speed_is_distance_over_time() {
    let group = group_of(vec![RunRecord::new(100, 7, 3), RunRecord::new(50, 8, 6)]);
    assert_eq!(group.average_speed(), Ok(ratio(10, 1)));
    assert_eq!(group.pure_average_speed(), Ok(ratio(50, 3)));
    let group = group_of(vec![RunRecord::new(3, 7, 0)]);
    assert_eq!(group.average_speed(), Ok(ratio(3, 7)));
    assert_eq!(group.pure_average_speed(), Err(AnalyseError::ZeroDuration));
}

#[test]
fn standing_train_has_speed_zero() {
    let group = group_of(vec![RunRecord::new(0, 60, 0), RunRecord::new(0, 30, 0)]);
    assert_eq!(group.average_speed(), Ok(ratio(0, 1)));
    assert_eq!(group.pure_average_speed(), Err(AnalyseError::ZeroDuration));
}

#[test]
fn pure_time_is_within_total_time() {
    let group = group_of(vec![
        RunRecord::new(500, 60, 60),
        RunRecord::new(900, 120, 45),
        RunRecord::new(0, 10, 0),
    ]);
    assert!(group.runs().iter().all(|run| run.pure_duration <= run.total_duration));
    assert!(group.total_pure_driving_time() <= group.total_driving_time());
    let slow = group.average_speed().unwrap();
    let fast = group.pure_average_speed().unwrap();
    assert_eq!(slow, ratio(140, 19));
    assert_eq!(fast, ratio(40, 3));
    assert!(slow.numerator * fast.denominator <= fast.numerator * slow.denominator);
}

#[test]
fn statistics_are_repeatable() {
    let group = group_of(vec![RunRecord::new(123, 45, 6), RunRecord::new(789, 10, 1)]);
    let first = group.analysis();
    for _ in 0..5 {
        assert_eq!(group.analysis(), first);
        assert_eq!(group.total_distance(), first.total_distance);
        assert_eq!(group.average_distance(), first.average_distance);
        assert_eq!(group.average_speed(), first.average_speed);
        assert_eq!(group.pure_average_speed(), first.pure_average_speed);
        assert_eq!(group.total_driving_time(), first.total_driving_time);
        assert_eq!(group.total_pure_driving_time(), first.total_pure_driving_time);
    }
}

#[test]
fn analysis_holds_all_six() {
    let group = group_of(vec![RunRecord::new(1000, 100, 80), RunRecord::new(2000, 200, 150)]);
    assert_eq!(
        group.analysis(),
        Analysis {
            total_distance: 3000,
            average_distance: ratio(1500, 1),
            average_speed: Ok(ratio(10, 1)),
            pure_average_speed: Ok(ratio(300, 23)),
            total_driving_time: 300,
            total_pure_driving_time: 230,
        }
    );
}

#[test]
fn greatest_values_add_up_exactly() {
    let most = RunRecord::new(u64::MAX, u64::MAX, u64::MAX);
    let group = group_of(vec![most, most, most]);
    let sum = 3 * (u64::MAX as u128);
    assert_eq!(group.total_distance(), sum);
    assert_eq!(group.total_driving_time(), sum);
    assert_eq!(group.total_pure_driving_time(), sum);
    assert_eq!(group.average_distance(), ratio(u64::MAX as u128, 1));
    assert_eq!(group.average_speed(), Ok(ratio(1, 1)));
}

#[test]
fn malformed_run_is_taken_as_it_is() {
    let group = group_of(vec![RunRecord::new(10, 2, 5)]);
    assert_eq!(group.average_speed(), Ok(ratio(5, 1)));
    assert_eq!(group.pure_average_speed(), Ok(ratio(2, 1)));
    assert_eq!(group.total_driving_time(), 2);
    assert_eq!(group.total_pure_driving_time(), 5);
}
