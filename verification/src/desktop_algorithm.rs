//! The SM-2 rules as the desktop application applies them when an answer
//! is submitted. They agree with [`crate::algorithm`] except in one point:
//! a right answer always raises the ease factor by 0.1 (never to less than
//! 1.3), also when it stands at 1.3.

use vstd::prelude::*;
use crate::algorithm::{
    after_correct, after_incorrect, due_time_fits, ease_fits_correct,
    interval_after_correct, Sm2Algorithm as CoreRules, MIN_EASE_FACTOR, RETRY_INTERVAL,
};
use crate::clock::{now_millis, MAX_TIMESTAMP_MILLIS};
use crate::domain::Schedule;

verus! {

/// The ease factor after a right answer: 0.1 up, and at least 1.3.
pub open spec fn raised_ease_factor(current: i64) -> int {
    if current + 10 < MIN_EASE_FACTOR {
        MIN_EASE_FACTOR as int
    } else {
        current + 10
    }
}

/// The schedule after a right answer at time `now`.
pub open spec fn after_correct_raising(s: Schedule, now: i64) -> Schedule {
    Schedule { ease_factor: raised_ease_factor(s.ease_factor) as i64, ..after_correct(s, now) }
}

/// The SM-2 scheduling rules of the desktop application.
pub struct Sm2Algorithm;

impl Sm2Algorithm {
    /// The schedule after a right answer given now.
    pub fn correct(schedule: &Schedule) -> (r: Schedule)
        requires
            schedule.repetitions < i32::MAX,
            ease_fits_correct(*schedule),
            due_time_fits(0, interval_after_correct(*schedule) as int),
            due_time_fits(MAX_TIMESTAMP_MILLIS as int, interval_after_correct(*schedule) as int),
        ensures
            r.last_review matches Some(now) && 0 <= now <= MAX_TIMESTAMP_MILLIS
                && r == after_correct_raising(*schedule, now),
    {
        let now = now_millis();
        Sm2Algorithm::correct_at(schedule, now)
    }

    /// The schedule after a right answer given at time `now` (milliseconds).
    pub fn correct_at(schedule: &Schedule, now: i64) -> (r: Schedule)
        requires
            schedule.repetitions < i32::MAX,
            ease_fits_correct(*schedule),
            due_time_fits(now as int, interval_after_correct(*schedule) as int),
        ensures
            r == after_correct_raising(*schedule, now),
    {
        let repetitions = schedule.repetitions + 1;
        let new_interval = CoreRules::calculate_interval(repetitions, schedule.ease_factor, schedule.interval);
        let raw = schedule.ease_factor + 10;
        let ease_factor = if raw < MIN_EASE_FACTOR {
            MIN_EASE_FACTOR
        } else {
            raw
        };
        Schedule {
            word_id: schedule.word_id.clone(),
            interval: new_interval,
            ease_factor,
            repetitions,
            next_review: now + new_interval * 1000,
            last_review: Some(now),
        }
    }

    /// The schedule after a wrong answer given now.
    pub fn incorrect(schedule: &Schedule) -> (r: Schedule)
        ensures
            r.last_review matches Some(now) && 0 <= now <= MAX_TIMESTAMP_MILLIS
                && r == after_incorrect(*schedule, now),
    {
        let now = now_millis();
        Sm2Algorithm::incorrect_at(schedule, now)
    }

    /// The schedule after a wrong answer given at time `now` (milliseconds).
    pub fn incorrect_at(schedule: &Schedule, now: i64) -> (r: Schedule)
        requires
            now <= i64::MAX - RETRY_INTERVAL * 1000,
        ensures
            r == after_incorrect(*schedule, now),
    {
        let ease_factor = if schedule.ease_factor < MIN_EASE_FACTOR + 20 {
            MIN_EASE_FACTOR
        } else {
            schedule.ease_factor - 20
        };
        Schedule {
            word_id: schedule.word_id.clone(),
            interval: RETRY_INTERVAL,
            ease_factor,
            repetitions: 0,
            next_review: now + RETRY_INTERVAL * 1000,
            last_review: Some(now),
        }
    }
}

/// The two rule sets move a schedule alike in everything but the ease
/// factor after a right answer, and there they differ only at 1.3 exactly,
/// where the core rules hold the factor and the desktop rules raise it.
pub proof fn lemma_rule_sets_agree(s: Schedule, now: i64)
    requires
        ease_fits_correct(s),
    ensures
        after_correct_raising(s, now).interval == after_correct(s, now).interval,
        after_correct_raising(s, now).repetitions == after_correct(s, now).repetitions,
        after_correct_raising(s, now).next_review == after_correct(s, now).next_review,
        after_correct_raising(s, now).last_review == after_correct(s, now).last_review,
        s.ease_factor != MIN_EASE_FACTOR ==> after_correct_raising(s, now) == after_correct(s, now),
        s.ease_factor == MIN_EASE_FACTOR ==> after_correct(s, now).ease_factor == MIN_EASE_FACTOR
            && after_correct_raising(s, now).ease_factor == MIN_EASE_FACTOR + 10,
{
}

/// The ease factor never falls below 1.3 under the desktop rules either:
/// a right answer adds 0.1 (in hundredths, 10) to any ease factor from 1.2
/// on, 1.3 included, and lifts a lower one to 1.3.
pub proof fn lemma_raised_ease_floor(current: i64)
    ensures
        raised_ease_factor(current) >= MIN_EASE_FACTOR,
        current >= 120 ==> raised_ease_factor(current) == current + 10,
        current < 120 ==> raised_ease_factor(current) == 130,
{
}

} // verus!
