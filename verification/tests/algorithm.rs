use word_trainer::algorithm::Sm2Algorithm;
use word_trainer::desktop_algorithm::Sm2Algorithm as DesktopRules;
use word_trainer::domain::Schedule;

/// An ease factor written as a decimal, in the hundredths the library keeps.
fn hundredths(x: f64) -> i64 {
    (x * 100.0).round() as i64
}

/// An ease factor kept in hundredths, as a decimal.
fn ease(x: i64) -> f64 {
    x as f64 / 100.0
}

fn create_test_schedule() -> Schedule {
    Schedule {
        word_id: "test-id".to_string(),
        interval: 60,
        ease_factor: hundredths(2.5),
        repetitions: 0,
        next_review: 0,
        last_review: None,
    }
}

fn create_schedule(word_id: &str, interval: i64, ease_factor: f64, repetitions: i32) -> Schedule {
    Schedule {
        word_id: word_id.to_string(),
        interval,
        ease_factor: hundredths(ease_factor),
        repetitions,
        next_review: 0,
        last_review: None,
    }
}

// ========== right answers ==========
#[test]
fn test_correct_first_repetition() {
    let schedule = create_test_schedule();
    let result = Sm2Algorithm::correct(&schedule);

    assert_eq!(result.repetitions, 1);
    assert_eq!(result.interval, 60);
    assert_eq!(ease(result.ease_factor), 2.6);
    assert!(result.last_review.is_some());
}

#[test]
fn test_correct_second_repetition() {
    let mut schedule = create_test_schedule();
    schedule.repetitions = 1;
    schedule.interval = 60;

    let result = Sm2Algorithm::correct(&schedule);

    assert_eq!(result.repetitions, 2);
    assert_eq!(result.interval, 600);
}

#[test]
fn test_correct_third_repetition() {
    let mut schedule = create_test_schedule();
    schedule.repetitions = 2;
    schedule.interval = 600;
    schedule.ease_factor = hundredths(2.6);

    let result = Sm2Algorithm::correct(&schedule);

    assert_eq!(result.repetitions, 3);
    assert_eq!(result.interval, 1560);
}

#[test]
fn test_correct_fourth_repetition() {
    let schedule = create_schedule("test", 1560, 2.7, 3);
    let result = Sm2Algorithm::correct(&schedule);

    assert_eq!(result.repetitions, 4);
    assert_eq!(result.interval, 4212);
}

#[test]
fn test_correct_increases_ease_factor() {
    let schedule = create_test_schedule();
    let result = Sm2Algorithm::correct(&schedule);

    assert_eq!(ease(result.ease_factor), 2.6);
}

#[test]
fn test_correct_updates_last_review() {
    let schedule = create_test_schedule();
    let before = chrono::Utc::now().timestamp_millis();
    let result = Sm2Algorithm::correct(&schedule);
    let after = chrono::Utc::now().timestamp_millis();

    assert!(result.last_review.is_some());
    let last_review = result.last_review.unwrap();
    assert!(last_review >= before && last_review <= after);
}

// ========== wrong answers ==========
#[test]
fn test_incorrect_resets_repetitions() {
    let mut schedule = create_test_schedule();
    schedule.repetitions = 5;
    schedule.interval = 1000;
    schedule.ease_factor = hundredths(3.0);

    let result = Sm2Algorithm::incorrect(&schedule);

    assert_eq!(result.repetitions, 0);
    assert_eq!(result.interval, 60);
    assert_eq!(ease(result.ease_factor), 2.8);
}

#[test]
fn test_incorrect_minimum_ease_factor() {
    let mut schedule = create_test_schedule();
    schedule.ease_factor = hundredths(1.4);

    let result = Sm2Algorithm::incorrect(&schedule);

    assert_eq!(ease(result.ease_factor), 1.3);
}

#[test]
fn test_incorrect_resets_interval_to_60() {
    let schedule = create_schedule("test", 10000, 2.5, 10);
    let result = Sm2Algorithm::incorrect(&schedule);

    assert_eq!(result.interval, 60);
}

#[test]
fn test_incorrect_decreases_ease_factor() {
    let mut schedule = create_test_schedule();
    schedule.ease_factor = hundredths(3.0);

    let result = Sm2Algorithm::incorrect(&schedule);

    assert_eq!(ease(result.ease_factor), 2.8);
}

// ========== ease factor bounds ==========
#[test]
fn test_correct_ease_factor_minimum() {
    let mut schedule = create_test_schedule();
    schedule.ease_factor = hundredths(1.3);
    schedule.repetitions = 2;

    let result = Sm2Algorithm::correct(&schedule);

    assert!((ease(result.ease_factor) - 1.3).abs() < 0.0001,
        "ease_factor = {}, expected ~1.3", ease(result.ease_factor));
}

#[test]
fn test_ease_factor_at_minimum_boundary() {
    let schedule = create_schedule("test", 60, 1.31, 1);
    let result = Sm2Algorithm::correct(&schedule);

    assert!((ease(result.ease_factor) - 1.41).abs() < 0.001);
}

#[test]
fn test_ease_factor_at_maximum_reasonable_value() {
    let schedule = create_schedule("test", 60, 5.0, 1);
    let result = Sm2Algorithm::correct(&schedule);

    assert_eq!(ease(result.ease_factor), 5.1);
}

// ========== review times ==========
#[test]
fn test_next_review_is_future() {
    let schedule = create_test_schedule();
    let now = chrono::Utc::now().timestamp_millis();

    let result = Sm2Algorithm::correct(&schedule);

    assert!(result.next_review > now);
}

#[test]
fn test_next_review_calculation_correct() {
    let mut schedule = create_test_schedule();
    schedule.repetitions = 1;

    let before = chrono::Utc::now().timestamp_millis();
    let result = Sm2Algorithm::correct(&schedule);
    let after = chrono::Utc::now().timestamp_millis();

    assert!(result.next_review >= before + 600000 - 1000);
    assert!(result.next_review <= after + 600000 + 1000);
}

#[test]
fn test_incorrect_next_review_is_60_seconds() {
    let schedule = create_test_schedule();
    let before = chrono::Utc::now().timestamp_millis();
    let result = Sm2Algorithm::incorrect(&schedule);
    let after = chrono::Utc::now().timestamp_millis();

    assert!(result.next_review >= before + 60000 - 1000);
    assert!(result.next_review <= after + 60000 + 1000);
}

// ========== intervals ==========
#[test]
fn test_calculate_interval_first() {
    assert_eq!(Sm2Algorithm::calculate_interval(1, hundredths(2.5), 60), 60);
}

#[test]
fn test_calculate_interval_second() {
    assert_eq!(Sm2Algorithm::calculate_interval(2, hundredths(2.5), 60), 600);
}

#[test]
fn test_calculate_interval_third_and_beyond() {
    assert_eq!(Sm2Algorithm::calculate_interval(3, hundredths(2.5), 600), 1500);
    assert_eq!(Sm2Algorithm::calculate_interval(4, hundredths(2.5), 1500), 3750);
    assert_eq!(Sm2Algorithm::calculate_interval(5, hundredths(2.5), 3750), 9375);
}

#[test]
fn test_calculate_interval_with_different_ease_factors() {
    assert_eq!(Sm2Algorithm::calculate_interval(3, hundredths(1.5), 100), 150);
    assert_eq!(Sm2Algorithm::calculate_interval(3, hundredths(2.0), 100), 200);
    assert_eq!(Sm2Algorithm::calculate_interval(3, hundredths(3.0), 100), 300);
}

// ========== ease factor calculation ==========
#[test]
fn test_calculate_ease_factor_correct() {
    assert!((ease(Sm2Algorithm::calculate_ease_factor(hundredths(2.5), true)) - 2.6).abs() < 0.0001);
    let ef = ease(Sm2Algorithm::calculate_ease_factor(hundredths(1.3), true));
    assert!((ef - 1.3).abs() < 0.0001, "ease_factor = {}, expected ~1.3", ef);
}

#[test]
fn test_calculate_ease_factor_incorrect() {
    assert!((ease(Sm2Algorithm::calculate_ease_factor(hundredths(2.5), false)) - 2.3).abs() < 0.0001);
    let ef = ease(Sm2Algorithm::calculate_ease_factor(hundredths(1.3), false));
    assert!((ef - 1.3).abs() < 0.0001, "ease_factor = {}, expected ~1.3", ef);
}

#[test]
fn test_calculate_ease_factor_consecutive_correct() {
    let mut ef = hundredths(2.5);
    for _ in 0..10 {
        ef = Sm2Algorithm::calculate_ease_factor(ef, true);
    }
    assert!((ease(ef) - 3.5).abs() < 0.001);
}

#[test]
fn test_calculate_ease_factor_consecutive_incorrect() {
    let mut ef = hundredths(2.5);
    for _ in 0..5 {
        ef = Sm2Algorithm::calculate_ease_factor(ef, false);
    }
    assert!((ease(ef) - 1.5).abs() < 0.001);
}

#[test]
fn test_calculate_ease_factor_mixed() {
    let mut ef = hundredths(2.5);
    ef = Sm2Algorithm::calculate_ease_factor(ef, true);
    ef = Sm2Algorithm::calculate_ease_factor(ef, false);
    ef = Sm2Algorithm::calculate_ease_factor(ef, true);
    ef = Sm2Algorithm::calculate_ease_factor(ef, false);
    ef = Sm2Algorithm::calculate_ease_factor(ef, true);

    assert!((ease(ef) - 2.4).abs() < 0.001);
}

// ========== the input schedule is left alone ==========
#[test]
fn test_correct_does_not_modify_original() {
    let schedule = create_test_schedule();
    let original_id = schedule.word_id.clone();
    let _result = Sm2Algorithm::correct(&schedule);

    assert_eq!(schedule.word_id, original_id);
    assert_eq!(schedule.repetitions, 0);
}

#[test]
fn test_incorrect_does_not_modify_original() {
    let schedule = create_test_schedule();
    let original_id = schedule.word_id.clone();
    let _result = Sm2Algorithm::incorrect(&schedule);

    assert_eq!(schedule.word_id, original_id);
    assert_eq!(ease(schedule.ease_factor), 2.5);
}

// ========== edges ==========
#[test]
fn test_very_small_interval() {
    let schedule = create_schedule("test", 1, 2.5, 2);
    let result = Sm2Algorithm::correct(&schedule);

    assert_eq!(result.interval, 2);
}

#[test]
fn test_very_large_ease_factor() {
    let schedule = create_schedule("test", 60, 10.0, 2);
    let result = Sm2Algorithm::correct(&schedule);

    assert_eq!(result.interval, 600);
    assert_eq!(ease(result.ease_factor), 10.1);
}

#[test]
fn test_zero_repetitions_after_incorrect() {
    let schedule = create_schedule("test", 600, 2.5, 10);
    let result = Sm2Algorithm::incorrect(&schedule);

    assert_eq!(result.repetitions, 0);
    assert_eq!(result.interval, 60);
}

// ========== further checks ==========
#[test]
fn correct_at_gives_exact_times() {
    let schedule = create_schedule("w", 600, 2.6, 2);
    let result = Sm2Algorithm::correct_at(&schedule, 1_000_000);
    assert_eq!(result.interval, 1560);
    assert_eq!(result.next_review, 1_000_000 + 1_560_000);
    assert_eq!(result.last_review, Some(1_000_000));
    assert_eq!(result.ease_factor, 270);
    assert_eq!(result.word_id, "w");
}

#[test]
fn incorrect_at_gives_exact_times() {
    let schedule = create_schedule("w", 600, 1.45, 7);
    let result = Sm2Algorithm::incorrect_at(&schedule, 5_000);
    assert_eq!(result.next_review, 65_000);
    assert_eq!(result.last_review, Some(5_000));
    assert_eq!(result.ease_factor, 130);
    assert_eq!(result.repetitions, 0);
}

#[test]
fn stretching_rounds_toward_zero_and_saturates() {
    assert_eq!(Sm2Algorithm::calculate_interval(3, 250, 1), 2);
    assert_eq!(Sm2Algorithm::calculate_interval(3, 250, -1), -2);
    assert_eq!(Sm2Algorithm::calculate_interval(0, 150, 7), 10);
    assert_eq!(Sm2Algorithm::calculate_interval(3, 200, i64::MAX), i64::MAX);
    assert_eq!(Sm2Algorithm::calculate_interval(3, 200, i64::MIN), i64::MIN);
}

#[test]
fn ease_factor_never_below_floor() {
    assert_eq!(Sm2Algorithm::calculate_ease_factor(50, true), 130);
    assert_eq!(Sm2Algorithm::calculate_ease_factor(-500, false), 130);
    assert_eq!(Sm2Algorithm::calculate_ease_factor(140, false), 130);
    assert_eq!(Sm2Algorithm::calculate_ease_factor(125, true), 135);
}

#[test]
fn wrong_answer_restarts_the_intervals() {
    let schedule = create_schedule("w", 4536, 2.8, 4);
    let wrong = Sm2Algorithm::incorrect_at(&schedule, 0);
    let right = Sm2Algorithm::correct_at(&wrong, 0);
    assert_eq!(right.repetitions, 1);
    assert_eq!(right.interval, 60);
}

#[test]
fn next_review_time_adds_to_now() {
    let before = chrono::Utc::now().timestamp_millis();
    let t = Sm2Algorithm::calculate_next_review_time(5_000);
    let after = chrono::Utc::now().timestamp_millis();
    assert!(t >= before + 5_000 && t <= after + 5_000);
}

#[test]
fn desktop_rules_raise_from_the_floor() {
    let schedule = create_schedule("w", 600, 1.3, 2);
    assert_eq!(Sm2Algorithm::correct_at(&schedule, 0).ease_factor, 130);
    let raised = DesktopRules::correct_at(&schedule, 0);
    assert_eq!(ease(raised.ease_factor), 1.4);
    assert_eq!(raised.interval, 780);
    assert_eq!(raised.repetitions, 3);
    let other = create_schedule("w", 600, 2.5, 2);
    assert_eq!(DesktopRules::correct_at(&other, 7).ease_factor, Sm2Algorithm::correct_at(&other, 7).ease_factor);
    let wrong = DesktopRules::incorrect(&other);
    assert_eq!(wrong.interval, 60);
    assert_eq!(ease(wrong.ease_factor), 2.3);
    assert!(DesktopRules::correct(&other).last_review.is_some());
}

#[test]
fn wrong_answer_at_any_ease_factor_gives_at_least_the_floor() {
    let mut schedule = Schedule::new("w".to_string());
    schedule.ease_factor = i64::MIN;
    assert_eq!(Sm2Algorithm::incorrect_at(&schedule, 0).ease_factor, 130);
    assert_eq!(DesktopRules::incorrect_at(&schedule, 0).ease_factor, 130);
    assert_eq!(Sm2Algorithm::calculate_ease_factor(i64::MIN, false), 130);
    assert_eq!(Sm2Algorithm::calculate_ease_factor(149, false), 130);
    assert_eq!(Sm2Algorithm::calculate_ease_factor(150, false), 130);
    assert_eq!(Sm2Algorithm::calculate_ease_factor(151, false), 131);
    schedule.ease_factor = 131;
    assert_eq!(Sm2Algorithm::incorrect_at(&schedule, 0).ease_factor, 130);
}
