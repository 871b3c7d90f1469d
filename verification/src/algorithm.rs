//! The SM-2 spaced-repetition rules, simplified: how a schedule moves on
//! after a right or a wrong answer.
//!
//! Ease factors are kept in hundredths (250 stands for 2.5), so that the
//! steps of 0.1 and 0.2 and the floor of 1.3 are exact.

use vstd::prelude::*;
use crate::clock::{now_millis, MAX_TIMESTAMP_MILLIS};
use crate::domain::Schedule;

verus! {

/// The smallest ease factor, in hundredths (1.3).
pub const MIN_EASE_FACTOR: i64 = 130;

/// The interval after the first right answer in a row, in seconds.
pub const FIRST_INTERVAL: i64 = 60;

/// The interval after the second right answer in a row, in seconds.
pub const SECOND_INTERVAL: i64 = 600;

/// The interval after a wrong answer, in seconds.
pub const RETRY_INTERVAL: i64 = 60;

/// `p / d` rounded toward zero, as a float-to-integer cast rounds.
pub open spec fn div_toward_zero(p: int, d: int) -> int {
    if p >= 0 {
        p / d
    } else {
        -((-p) / d)
    }
}

/// `x` clamped to the range of `i64`, as a float-to-integer cast saturates.
pub open spec fn saturate(x: int) -> i64 {
    if x > i64::MAX {
        i64::MAX
    } else if x < i64::MIN {
        i64::MIN
    } else {
        x as i64
    }
}

/// The current interval stretched by the ease factor (in hundredths),
/// rounded toward zero.
pub open spec fn stretched(current_interval: i64, ease_factor: i64) -> i64 {
    saturate(div_toward_zero(current_interval * ease_factor, 100))
}

/// The interval, in seconds, for the given count of right answers in a row.
pub open spec fn interval_for(repetitions: i32, ease_factor: i64, current_interval: i64) -> i64 {
    if repetitions == 1 {
        FIRST_INTERVAL
    } else if repetitions == 2 {
        SECOND_INTERVAL
    } else {
        stretched(current_interval, ease_factor)
    }
}

/// The ease factor after an answer: 0.1 up when right, 0.2 down when
/// wrong, never below 1.3, and held at 1.3 once it stands there.
pub open spec fn next_ease_factor(current: i64, is_correct: bool) -> int {
    if current == MIN_EASE_FACTOR {
        MIN_EASE_FACTOR as int
    } else {
        let raw = if is_correct { current + 10 } else { current - 20 };
        if raw < MIN_EASE_FACTOR { MIN_EASE_FACTOR as int } else { raw }
    }
}

/// The interval that a right answer gives the schedule.
pub open spec fn interval_after_correct(s: Schedule) -> i64 {
    interval_for((s.repetitions + 1) as i32, s.ease_factor, s.interval)
}

/// Whether the ease factor can take a right answer without leaving `i64`.
pub open spec fn ease_fits_correct(s: Schedule) -> bool {
    s.ease_factor <= i64::MAX - 10
}

/// Whether the interval in milliseconds, and `now` plus it, stay within `i64`.
pub open spec fn due_time_fits(now: int, interval: int) -> bool {
    &&& i64::MIN <= interval * 1000 <= i64::MAX
    &&& i64::MIN <= now + interval * 1000 <= i64::MAX
}

/// The schedule after a right answer at time `now`.
pub open spec fn after_correct(s: Schedule, now: i64) -> Schedule {
    let interval = interval_after_correct(s);
    Schedule {
        word_id: s.word_id,
        interval,
        ease_factor: next_ease_factor(s.ease_factor, true) as i64,
        repetitions: (s.repetitions + 1) as i32,
        next_review: (now + interval * 1000) as i64,
        last_review: Some(now),
    }
}

/// The schedule after a wrong answer at time `now`.
pub open spec fn after_incorrect(s: Schedule, now: i64) -> Schedule {
    Schedule {
        word_id: s.word_id,
        interval: RETRY_INTERVAL,
        ease_factor: next_ease_factor(s.ease_factor, false) as i64,
        repetitions: 0,
        next_review: (now + RETRY_INTERVAL * 1000) as i64,
        last_review: Some(now),
    }
}

/// The SM-2 scheduling rules.
pub struct Sm2Algorithm;

impl Sm2Algorithm {
    /// The schedule after a right answer given now.
    pub fn correct(schedule: &Schedule) -> (r: Schedule)
        requires
            schedule.repetitions < i32::MAX,
            ease_fits_correct(*schedule),
            due_time_fits(0, interval_after_correct(*schedule) as int),
            due_time_fits(MAX_TIMESTAMP_MILLIS as int, interval_after_correct(*schedule) as int),
        ensures
            r.last_review matches Some(now) && 0 <= now <= MAX_TIMESTAMP_MILLIS
                && r == after_correct(*schedule, now),
    {
        let now = now_millis();
        Sm2Algorithm::correct_at(schedule, now)
    }

    /// The schedule after a right answer given at time `now` (milliseconds).
    pub fn correct_at(schedule: &Schedule, now: i64) -> (r: Schedule)
        requires
            schedule.repetitions < i32::MAX,
            ease_fits_correct(*schedule),
            due_time_fits(now as int, interval_after_correct(*schedule) as int),
        ensures
            r == after_correct(*schedule, now),
    {
        let repetitions = schedule.repetitions + 1;
        let new_interval = Sm2Algorithm::calculate_interval(
            repetitions,
            schedule.ease_factor,
            schedule.interval,
        );
        let current = schedule.ease_factor;
        let raw = current + 10;
        let ease_factor = if current == MIN_EASE_FACTOR {
            MIN_EASE_FACTOR
        } else if raw < MIN_EASE_FACTOR {
            MIN_EASE_FACTOR
        } else {
            raw
        };
        Schedule {
            word_id: schedule.word_id.clone(),
            interval: new_interval,
            ease_factor,
            repetitions,
            next_review: now + new_interval * 1000,
            last_review: Some(now),
        }
    }

    /// The schedule after a wrong answer given now.
    pub fn incorrect(schedule: &Schedule) -> (r: Schedule)
        ensures
            r.last_review matches Some(now) && 0 <= now <= MAX_TIMESTAMP_MILLIS
                && r == after_incorrect(*schedule, now),
    {
        let now = now_millis();
        Sm2Algorithm::incorrect_at(schedule, now)
    }

    /// The schedule after a wrong answer given at time `now` (milliseconds).
    pub fn incorrect_at(schedule: &Schedule, now: i64) -> (r: Schedule)
        requires
            now <= i64::MAX - RETRY_INTERVAL * 1000,
        ensures
            r == after_incorrect(*schedule, now),
    {
        let ease_factor = if schedule.ease_factor < MIN_EASE_FACTOR + 20 {
            MIN_EASE_FACTOR
        } else {
            schedule.ease_factor - 20
        };
        Schedule {
            word_id: schedule.word_id.clone(),
            interval: RETRY_INTERVAL,
            ease_factor,
            repetitions: 0,
            next_review: now + RETRY_INTERVAL * 1000,
            last_review: Some(now),
        }
    }

    /// The current time plus `interval_ms` milliseconds.
    pub fn calculate_next_review_time(interval_ms: i64) -> (r: i64)
        requires
            interval_ms <= i64::MAX - MAX_TIMESTAMP_MILLIS,
        ensures
            0 <= r - interval_ms <= MAX_TIMESTAMP_MILLIS,
    {
        now_millis() + interval_ms
    }

    /// The interval, in seconds, for the given count of right answers in a
    /// row: 60 after the first, 600 after the second, and afterwards the
    /// current interval times the ease factor (in hundredths), rounded
    /// toward zero.
    pub fn calculate_interval(repetitions: i32, ease_factor: i64, current_interval: i64) -> (r: i64)
        ensures
            r == interval_for(repetitions, ease_factor, current_interval),
    {
        if repetitions == 1 {
            FIRST_INTERVAL
        } else if repetitions == 2 {
            SECOND_INTERVAL
        } else {
            Sm2Algorithm::stretch(current_interval, ease_factor)
        }
    }

    /// The current interval times the ease factor (in hundredths), rounded
    /// toward zero and held within `i64`.
    fn stretch(current_interval: i64, ease_factor: i64) -> (r: i64)
        ensures
            r == stretched(current_interval, ease_factor),
    {
        let a: i128 = current_interval as i128;
        let b: i128 = ease_factor as i128;
        assert(-0x4000_0000_0000_0000_0000_0000_0000_0000 <= a * b <= 0x4000_0000_0000_0000_0000_0000_0000_0000)
            by (nonlinear_arith)
            requires
                -0x8000_0000_0000_0000 <= a <= 0x7fff_ffff_ffff_ffff,
                -0x8000_0000_0000_0000 <= b <= 0x7fff_ffff_ffff_ffff,
        ;
        let p: i128 = a * b;
        let q: i128 = if p >= 0 {
            p / 100
        } else {
            let m: i128 = -p;
            -(m / 100)
        };
        if q > (i64::MAX as i128) {
            i64::MAX
        } else if q < (i64::MIN as i128) {
            i64::MIN
        } else {
            q as i64
        }
    }

    /// The ease factor (in hundredths) after an answer: 0.1 up when right,
    /// 0.2 down when wrong, never below 1.3, and held at 1.3 once it stands
    /// there.
    pub fn calculate_ease_factor(current: i64, is_correct: bool) -> (r: i64)
        requires
            is_correct ==> current <= i64::MAX - 10,
        ensures
            r == next_ease_factor(current, is_correct),
    {
        if current == MIN_EASE_FACTOR {
            return MIN_EASE_FACTOR;
        }
        if is_correct {
            let raw = current + 10;
            if raw < MIN_EASE_FACTOR { MIN_EASE_FACTOR } else { raw }
        } else if current < MIN_EASE_FACTOR + 20 {
            MIN_EASE_FACTOR
        } else {
            current - 20
        }
    }
}


/// The ease factor never falls below 1.3, whatever the answer; a wrong
/// answer lowers any ease factor above 1.3, and a right one raises any
/// other than 1.3.
pub proof fn lemma_ease_factor_floor(current: i64, is_correct: bool)
    ensures
        next_ease_factor(current, is_correct) >= MIN_EASE_FACTOR,
        current > MIN_EASE_FACTOR ==> next_ease_factor(current, false) < current,
        current != MIN_EASE_FACTOR ==> next_ease_factor(current, true) > current,
{
}

/// A review step moves the schedule exactly as the calculators say: a right
/// answer keeps the word, counts one more right answer in a row, takes the
/// interval from `calculate_interval` and the ease factor from
/// `calculate_ease_factor`; a wrong answer keeps the word, restarts the count
/// and the interval, and takes the ease factor from `calculate_ease_factor`,
/// which is at least 1.3 and, when it stood above 1.3, lower than before.
/// Either answer is recorded at `now` and makes the word due the interval
/// (in seconds) after it.
pub proof fn lemma_review_step_matches_calculators(s: Schedule, now: i64)
    ensures
        s.repetitions < i32::MAX && ease_fits_correct(s) && due_time_fits(now as int, interval_after_correct(s) as int)
            ==> {
            let r = after_correct(s, now);
            &&& r.word_id == s.word_id
            &&& r.repetitions == s.repetitions + 1
            &&& r.interval == interval_for((s.repetitions + 1) as i32, s.ease_factor, s.interval)
            &&& r.ease_factor == next_ease_factor(s.ease_factor, true)
            &&& r.last_review == Some(now)
            &&& r.next_review == now + r.interval * 1000
        },
        now <= i64::MAX - RETRY_INTERVAL * 1000 ==> {
            let r = after_incorrect(s, now);
            &&& r.word_id == s.word_id
            &&& r.repetitions == 0
            &&& r.interval == RETRY_INTERVAL
            &&& r.ease_factor == next_ease_factor(s.ease_factor, false)
            &&& r.ease_factor >= MIN_EASE_FACTOR
            &&& (s.ease_factor > MIN_EASE_FACTOR ==> r.ease_factor < s.ease_factor)
            &&& r.last_review == Some(now)
            &&& r.next_review == now + RETRY_INTERVAL * 1000
        },
{
}

/// A wrong answer resets the progress: whatever came before, the next right
/// answer counts as the first one again and gives the first interval.
pub proof fn lemma_wrong_answer_restarts(s: Schedule, t1: i64, t2: i64)
    ensures
        after_incorrect(s, t1).repetitions == 0,
        after_incorrect(s, t1).interval == RETRY_INTERVAL,
        after_correct(after_incorrect(s, t1), t2).repetitions == 1,
        after_correct(after_incorrect(s, t1), t2).interval == FIRST_INTERVAL,
{
}

/// From the third right answer in a row on, an ease factor of at least 1.0
/// never shortens a non-negative interval.
pub proof fn lemma_interval_grows(s: Schedule)
    requires
        2 <= s.repetitions < i32::MAX,
        s.ease_factor >= 100,
        s.interval >= 0,
    ensures
        interval_after_correct(s) >= s.interval,
{
    let p = s.interval * s.ease_factor;
    assert(p >= s.interval * 100) by (nonlinear_arith)
        requires
            s.ease_factor >= 100,
            s.interval >= 0,
            p == s.interval * s.ease_factor,
    ;
    assert(p / 100 >= s.interval) by (nonlinear_arith)
        requires
            p >= s.interval * 100,
    ;
}

/// After any answer the word is due later than the moment of the answer,
/// as long as the interval it gets is positive.
pub proof fn lemma_next_review_in_future(s: Schedule, now: i64)
    requires
        due_time_fits(now as int, interval_after_correct(s) as int),
        now <= i64::MAX - RETRY_INTERVAL * 1000,
    ensures
        interval_after_correct(s) > 0 ==> after_correct(s, now).next_review > now,
        after_incorrect(s, now).next_review == now + 60000,
{
}

/// The interval for a count of right answers in a row: 60 seconds for the
/// first, 600 for the second, and for any other count the current interval
/// times the ease factor (in hundredths), that is the whole number `q` with
/// `100 * q <= c * e < 100 * q + 100` (for a non-negative product), held
/// within `i64`. With an ease factor above 1.0 the interval keeps growing:
/// from 100 seconds on (and short of the largest `i64`), every such step
/// makes it strictly longer.
pub proof fn lemma_interval_rule(r: i32, e: i64, c: i64)
    ensures
        r == 1 ==> interval_for(r, e, c) == 60,
        r == 2 ==> interval_for(r, e, c) == 600,
        r != 1 && r != 2 && 0 <= c * e < 100 * (i64::MAX as int) ==> {
            let q = interval_for(r, e, c) as int;
            100 * q <= c * e < 100 * q + 100
        },
        r != 1 && r != 2 && c * e >= 100 * (i64::MAX as int) ==> interval_for(r, e, c) == i64::MAX,
        r != 1 && r != 2 && -100 * (i64::MIN as int) >= -(c * e) > 0 ==> {
            let q = interval_for(r, e, c) as int;
            100 * q >= c * e > 100 * q - 100
        },
        r != 1 && r != 2 && e >= 100 && c >= 0 ==> interval_for(r, e, c) >= c,
        r != 1 && r != 2 && e > 100 && 100 <= c < i64::MAX ==> interval_for(r, e, c) > c,
{
    let p = c * e;
    if r != 1 && r != 2 {
        if e >= 100 && c >= 0 {
            assert(p >= c * 100) by (nonlinear_arith)
                requires
                    e >= 100,
                    c >= 0,
                    p == c * e,
            ;
        }
        if e > 100 && c >= 100 {
            assert(p >= c * 100 + 100) by (nonlinear_arith)
                requires
                    e >= 101,
                    c >= 100,
                    p == c * e,
            ;
        }
    }
}

/// The ease factor after an answer, case by case (in hundredths): held at
/// 1.3 when it stands there; otherwise a right answer adds 0.1 and a wrong
/// one takes 0.2 away, and whatever would end below 1.3 ends at 1.3.
pub proof fn lemma_ease_factor_rule(c: i64)
    ensures
        next_ease_factor(130, true) == 130,
        next_ease_factor(130, false) == 130,
        c > 130 ==> next_ease_factor(c, true) == c + 10,
        c < 120 ==> next_ease_factor(c, true) == 130,
        120 <= c < 130 ==> next_ease_factor(c, true) == c + 10,
        c >= 150 ==> next_ease_factor(c, false) == c - 20,
        c < 150 ==> next_ease_factor(c, false) == 130,
{
}

} // verus!
