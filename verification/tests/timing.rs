use math_battle::duration::Duration;
use math_battle::round::{Complexity, Round, RoundError, Timeout, TimeoutError};
use math_battle::timer::{TimeLimit, TimeLimitError, Timer};

#[test]
fn duration_arithmetic() {
    let d = Duration::new(2, 500_000_000);
    assert_eq!(d.as_secs(), 2);
    assert_eq!(d.subsec_nanos(), 500_000_000);
    assert!(!d.is_zero());
    assert!(Duration::zero().is_zero());
    let left = d.saturating_sub(Duration::from_secs(1));
    assert_eq!((left.as_secs(), left.subsec_nanos()), (1, 500_000_000));
    assert!(d.saturating_sub(Duration::from_secs(3)).is_zero());
    assert!(Duration::from_secs(1).is_shorter_than(&d));
    assert!(d.is_longer_than(&Duration::from_secs(2)));
    assert_eq!(Duration::from_secs(u64::MAX).as_secs(), u64::MAX);
    let carried = Duration::new(1, 2_500_000_000);
    assert_eq!((carried.as_secs(), carried.subsec_nanos()), (3, 500_000_000));
}

#[test]
fn time_limit_bounds() {
    assert_eq!(TimeLimit::new(Duration::new(2, 999_999_999)), Err(TimeLimitError::TooLess));
    assert_eq!(TimeLimit::new(Duration::new(20, 1)), Err(TimeLimitError::TooMuch));
    assert_eq!(TimeLimit::new(Duration::from_secs(3)).unwrap().duration().as_secs(), 3);
    assert_eq!(TimeLimit::new(Duration::from_secs(20)).unwrap().duration().as_secs(), 20);
    assert_eq!(TimeLimit::default().duration().as_secs(), TimeLimit::DEFAULT_TIME_LIMIT_SECS);
}

#[test]
fn timer_counts_down_to_zero_then_stops() {
    let mut timer = Timer::new(TimeLimit::new(Duration::from_secs(3)).unwrap());
    assert_eq!(timer.timer().as_secs(), 3);
    assert_eq!(timer.tick().map(|d| d.as_secs()), Some(2));
    assert_eq!(timer.tick().map(|d| d.as_secs()), Some(1));
    assert_eq!(timer.tick().map(|d| d.as_secs()), Some(0));
    assert_eq!(timer.tick(), None);
    assert!(timer.timer().is_zero());
}

#[test]
fn timer_with_fraction_of_a_second_ends_at_zero() {
    let mut timer = Timer::new(TimeLimit::new(Duration::new(3, 400_000_000)).unwrap());
    let mut seen = Vec::new();
    while let Some(d) = timer.tick() {
        seen.push((d.as_secs(), d.subsec_nanos()));
    }
    assert_eq!(seen, vec![(2, 400_000_000), (1, 400_000_000), (0, 400_000_000), (0, 0)]);
}

#[test]
fn timeout_and_round_bounds() {
    assert_eq!(Timeout::new(Duration::from_secs(2)), Err(TimeoutError::TooLess));
    assert_eq!(Timeout::new(Duration::from_secs(21)), Err(TimeoutError::TooMuch));
    assert!(Timeout::new(Duration::from_secs(5)).is_ok());
    assert_eq!(Timeout::default(), Timeout::new(Duration::from_secs(5)).unwrap());
    assert_eq!(
        Round::new(Complexity::Hard, Duration::from_secs(1)).unwrap_err(),
        RoundError::InvalidTimeout(TimeoutError::TooLess)
    );
    assert_eq!(
        Round::new(Complexity::Easy, Duration::from_secs(60)).unwrap_err(),
        RoundError::InvalidTimeout(TimeoutError::TooMuch)
    );
    assert!(Round::new(Complexity::Medium, Duration::from_secs(10)).is_ok());
}

#[test]
fn round_operation_is_one_of_four() {
    for _ in 0..20 {
        let op = math_battle::round::Operation::random();
        assert!(matches!(
            op,
            math_battle::round::Operation::Add
                | math_battle::round::Operation::Sub
                | math_battle::round::Operation::Mul
                | math_battle::round::Operation::Div
        ));
    }
}
