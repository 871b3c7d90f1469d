//! The review and word-adding steps of the application, apart from their
//! storage: what an answer does to a word, and what a new word starts with.

use vstd::prelude::*;
use crate::algorithm::{
    after_incorrect, due_time_fits, ease_fits_correct, interval_for, next_ease_factor,
    interval_after_correct, RETRY_INTERVAL,
};
use crate::desktop_algorithm::{after_correct_raising, raised_ease_factor, Sm2Algorithm};
use crate::answer::{answer_matches, check_answer, normalized};
use crate::clock::{now_millis, MAX_TIMESTAMP_MILLIS};
use crate::mock_db::DbView;
use crate::domain::{
    clone_definitions, clone_opt_string, fresh_schedule, Definition, Schedule, Word,
    WordStatus,
};

verus! {

/// The status a word takes after a review, by the count of right answers
/// in a row that its schedule now holds: up to two is still learning,
/// more is mastered (so is a negative count).
pub open spec fn status_for(repetitions: i32) -> WordStatus {
    if 0 <= repetitions <= 2 {
        WordStatus::Learning
    } else {
        WordStatus::Mastered
    }
}

/// The status a word takes after a review, by the count of right answers
/// in a row that its schedule now holds.
pub fn status_after_review(repetitions: i32) -> (r: WordStatus)
    ensures
        r == status_for(repetitions),
{
    if 0 <= repetitions && repetitions <= 2 {
        WordStatus::Learning
    } else {
        WordStatus::Mastered
    }
}

/// What the review screen shows after an answer.
#[derive(Debug)]
pub struct ReviewResult {
    pub is_correct: bool,
    pub matched_definition: Option<Definition>,
    pub correct_definitions: Vec<Definition>,
    pub phonetic: Option<String>,
    pub phonetic_audio_url: Option<String>,
    /// Seconds until the next review.
    pub next_review_interval: i64,
}

/// Everything an answer changes: the result shown, the new schedule and
/// the new status of the word.
#[derive(Debug)]
pub struct ReviewOutcome {
    pub result: ReviewResult,
    pub schedule: Schedule,
    pub status: WordStatus,
}

/// Whether the schedule can take either answer at any time the clock can
/// give without leaving the range of its integers.
pub open spec fn review_fits(s: Schedule) -> bool {
    &&& s.repetitions < i32::MAX
    &&& ease_fits_correct(s)
    &&& due_time_fits(0, interval_after_correct(s) as int)
    &&& due_time_fits(MAX_TIMESTAMP_MILLIS as int, interval_after_correct(s) as int)
}

/// Whether the schedule can take either answer at any time the clock can
/// give, so that `evaluate_review` may be called with it.
pub fn can_review(s: &Schedule) -> (r: bool)
    ensures
        r == review_fits(*s),
{
    if s.repetitions == i32::MAX || s.ease_factor > i64::MAX - 10 {
        return false;
    }
    let interval = crate::algorithm::Sm2Algorithm::calculate_interval(s.repetitions + 1, s.ease_factor, s.interval);
    let ms: i128 = (interval as i128) * 1000;
    ms >= (i64::MIN as i128) && ms <= (i64::MAX as i128) && ms + (MAX_TIMESTAMP_MILLIS as i128) <= (i64::MAX as i128)
}

/// The outcome of answering `user_answer` for `word` with `schedule`, at
/// time `now`.
pub open spec fn outcome_is(o: ReviewOutcome, word: Word, schedule: Schedule, user_answer: Seq<char>, now: i64) -> bool {
    let right = exists|i: int| 0 <= i < word.definitions@.len()
        && answer_matches(normalized(user_answer), #[trigger] word.definitions@[i]);
    &&& o.result.is_correct == right
    &&& o.result.matched_definition is Some == right
    &&& (o.result.matched_definition matches Some(d) ==> exists|k: int| 0 <= k < word.definitions@.len()
        && d == word.definitions@[k]
        && answer_matches(normalized(user_answer), word.definitions@[k])
        && forall|j: int| 0 <= j < k ==> !answer_matches(normalized(user_answer), #[trigger] word.definitions@[j]))
    &&& o.schedule == if right { after_correct_raising(schedule, now) } else { after_incorrect(schedule, now) }
    &&& o.status == status_for(o.schedule.repetitions)
    &&& o.result.correct_definitions@ == word.definitions@
    &&& o.result.phonetic == word.phonetic
    &&& o.result.phonetic_audio_url == word.phonetic_audio_url
    &&& o.result.next_review_interval == o.schedule.interval
}

/// Checks the answer, moves the schedule on and sets the status, at the
/// current time.
pub fn evaluate_review(word: &Word, schedule: &Schedule, user_answer: &str) -> (r: ReviewOutcome)
    requires
        review_fits(*schedule),
    ensures
        exists|now: i64| 0 <= now <= MAX_TIMESTAMP_MILLIS && #[trigger] outcome_is(r, *word, *schedule, user_answer@, now),
{
    let now = now_millis();
    let r = evaluate_review_at(word, schedule, user_answer, now);
    assert(outcome_is(r, *word, *schedule, user_answer@, now));
    r
}

/// Checks the answer, moves the schedule on and sets the status, at time
/// `now` (milliseconds).
pub fn evaluate_review_at(word: &Word, schedule: &Schedule, user_answer: &str, now: i64) -> (r: ReviewOutcome)
    requires
        schedule.repetitions < i32::MAX,
        ease_fits_correct(*schedule),
        due_time_fits(now as int, interval_after_correct(*schedule) as int),
        now <= i64::MAX - RETRY_INTERVAL * 1000,
    ensures
        outcome_is(r, *word, *schedule, user_answer@, now),
{
    let (is_correct, matched) = check_answer(user_answer, word.definitions.as_slice());
    let new_schedule = if is_correct {
        Sm2Algorithm::correct_at(schedule, now)
    } else {
        Sm2Algorithm::incorrect_at(schedule, now)
    };
    let status = status_after_review(new_schedule.repetitions);
    let interval = new_schedule.interval;
    ReviewOutcome {
        result: ReviewResult {
            is_correct,
            matched_definition: matched,
            correct_definitions: clone_definitions(&word.definitions),
            phonetic: clone_opt_string(&word.phonetic),
            phonetic_audio_url: clone_opt_string(&word.phonetic_audio_url),
            next_review_interval: interval,
        },
        schedule: new_schedule,
        status,
    }
}

/// A new word with the given text, definitions, phonetic and audio link,
/// and a fresh schedule for it.
pub fn prepare_new_word(
    word_text: String,
    definitions: Vec<Definition>,
    phonetic: Option<String>,
    audio_url: Option<String>,
) -> (r: (Word, Schedule))
    ensures
        r.0.id@.len() == 36,
        r.0.word == word_text,
        r.0.phonetic == phonetic,
        r.0.phonetic_audio_url == audio_url,
        r.0.definitions == definitions,
        r.0.status == WordStatus::New,
        0 <= r.0.created_at <= MAX_TIMESTAMP_MILLIS,
        r.0.updated_at == r.0.created_at,
        r.1 == fresh_schedule(r.0.id, r.1.next_review),
        0 <= r.1.next_review <= MAX_TIMESTAMP_MILLIS,
{
    let mut word = Word::new(word_text);
    word.phonetic = phonetic;
    word.phonetic_audio_url = audio_url;
    word.definitions = definitions;
    let schedule = Schedule::new(word.id.clone());
    (word, schedule)
}

/// The count that the rows give for a status name: that of the last row
/// with exactly this name, or 0 when no row has it.
pub open spec fn count_for(rows: Seq<(String, i32)>, name: Seq<char>) -> i32
    decreases rows.len(),
{
    if rows.len() == 0 {
        0
    } else if rows.last().0@ == name {
        rows.last().1
    } else {
        count_for(rows.drop_last(), name)
    }
}

/// The counts of new, learning, mastered and skipped words from rows of
/// (status name, count); rows with other names are passed over.
pub fn tally_status_counts(rows: &Vec<(String, i32)>) -> (r: (i32, i32, i32, i32))
    ensures
        r.0 == count_for(rows@, "new"@),
        r.1 == count_for(rows@, "learning"@),
        r.2 == count_for(rows@, "mastered"@),
        r.3 == count_for(rows@, "skipped"@),
{
    let mut new_count: i32 = 0;
    let mut learning_count: i32 = 0;
    let mut mastered_count: i32 = 0;
    let mut skipped_count: i32 = 0;
    let mut i: usize = 0;
    while i < rows.len()
        invariant
            i <= rows@.len(),
            new_count == count_for(rows@.take(i as int), "new"@),
            learning_count == count_for(rows@.take(i as int), "learning"@),
            mastered_count == count_for(rows@.take(i as int), "mastered"@),
            skipped_count == count_for(rows@.take(i as int), "skipped"@),
        decreases rows@.len() - i,
    {
        proof {
            reveal_strlit("new");
            reveal_strlit("learning");
            reveal_strlit("mastered");
            reveal_strlit("skipped");
            assert("learning"@[0] != "mastered"@[0]);
            assert("new"@.len() != "learning"@.len());
            assert("new"@.len() != "mastered"@.len());
            assert("new"@.len() != "skipped"@.len());
            assert("skipped"@.len() != "learning"@.len());
            assert("skipped"@.len() != "mastered"@.len());
        }
        assert(rows@.take(i + 1).drop_last() =~= rows@.take(i as int));
        assert(rows@.take(i + 1).last() == rows@[i as int]);
        let name = rows[i].0.as_str();
        let count = rows[i].1;
        if crate::text::str_eq(name, "new") {
            new_count = count;
        } else if crate::text::str_eq(name, "learning") {
            learning_count = count;
        } else if crate::text::str_eq(name, "mastered") {
            mastered_count = count;
        } else if crate::text::str_eq(name, "skipped") {
            skipped_count = count;
        }
        i = i + 1;
    }
    assert(rows@.take(rows@.len() as int) =~= rows@);
    (new_count, learning_count, mastered_count, skipped_count)
}

/// Three right answers in a row from a fresh schedule make a word mastered;
/// one or two leave it learning.
pub proof fn lemma_three_right_answers_master(s: Schedule, t1: i64, t2: i64, t3: i64)
    requires
        s.repetitions == 0,
    ensures
        status_for(after_correct_raising(s, t1).repetitions) == WordStatus::Learning,
        status_for(after_correct_raising(after_correct_raising(s, t1), t2).repetitions) == WordStatus::Learning,
        status_for(after_correct_raising(after_correct_raising(after_correct_raising(s, t1), t2), t3).repetitions) == WordStatus::Mastered,
{
}

/// The status a review leaves: learning while the count of right answers
/// in a row is 0, 1 or 2, and mastered from the third on, however many
/// more follow (a count outside the usual range also reads as mastered).
/// So a further right answer never takes a mastered word back to learning.
pub proof fn lemma_status_by_count(r: i32, s: Schedule, now: i64)
    ensures
        0 <= r <= 2 ==> status_for(r) == WordStatus::Learning,
        r >= 3 ==> status_for(r) == WordStatus::Mastered,
        r < 0 ==> status_for(r) == WordStatus::Mastered,
        0 <= s.repetitions < i32::MAX && status_for(s.repetitions) == WordStatus::Mastered
            ==> status_for(after_correct_raising(s, now).repetitions) == WordStatus::Mastered,
{
}

/// What an answer does, in full: the verdict is right exactly when the
/// answer matches some definition; a right answer counts one more right
/// answer in a row and takes the next interval of the desktop rules, a wrong
/// one restarts the count at 0 with an interval of 60 seconds; the word is
/// learning after 0 to 2 right answers in a row and mastered after more; and
/// the result carries the word's definitions, phonetic and audio link and the
/// new interval.
pub proof fn lemma_review_outcome(o: ReviewOutcome, word: Word, schedule: Schedule, user_answer: Seq<char>, now: i64)
    requires
        outcome_is(o, word, schedule, user_answer, now),
        schedule.repetitions < i32::MAX,
        ease_fits_correct(schedule),
    ensures
        o.result.is_correct <==> exists|i: int| 0 <= i < word.definitions@.len()
            && answer_matches(normalized(user_answer), #[trigger] word.definitions@[i]),
        o.result.is_correct ==> o.schedule.repetitions == schedule.repetitions + 1
            && o.schedule.interval == interval_for((schedule.repetitions + 1) as i32, schedule.ease_factor, schedule.interval)
            && o.schedule.ease_factor == raised_ease_factor(schedule.ease_factor),
        !o.result.is_correct ==> o.schedule.repetitions == 0 && o.schedule.interval == 60
            && o.schedule.ease_factor == next_ease_factor(schedule.ease_factor, false),
        o.schedule.word_id == schedule.word_id,
        o.schedule.last_review == Some(now),
        0 <= o.schedule.repetitions <= 2 ==> o.status == WordStatus::Learning,
        o.schedule.repetitions >= 3 ==> o.status == WordStatus::Mastered,
        o.result.correct_definitions@ == word.definitions@,
        o.result.phonetic == word.phonetic,
        o.result.phonetic_audio_url == word.phonetic_audio_url,
        o.result.next_review_interval == o.schedule.interval,
{
}

/// A wrong answer always leaves the word learning.
pub proof fn lemma_wrong_answer_learning(s: Schedule, now: i64)
    ensures
        status_for(after_incorrect(s, now).repetitions) == WordStatus::Learning,
{
}


/// A word answered at `now` and stored with its new schedule is not due
/// again at that moment: after a wrong answer, and after a right one whose
/// interval is positive.
pub proof fn lemma_reviewed_word_not_due_at_once(v: DbView, s: Schedule, right: bool, now: i64)
    requires
        due_time_fits(now as int, interval_after_correct(s) as int),
        now <= i64::MAX - RETRY_INTERVAL * 1000,
        right ==> interval_after_correct(s) > 0,
    ensures
        !v.insert_schedule(if right { after_correct_raising(s, now) } else { after_incorrect(s, now) }).is_due(s.word_id@, now),
{
}

} // verus!
