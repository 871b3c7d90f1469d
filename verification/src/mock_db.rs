//! An in-memory store of words, schedules and review logs, with the
//! operations that the review flow needs.
//!
//! Words and schedules are kept in vectors in which no two entries share a
//! key (the word identifier); read as maps from key to entry, they behave as
//! hash maps keyed by that identifier.

use vstd::prelude::*;
use crate::clock::{now_millis, MAX_TIMESTAMP_MILLIS};
use crate::domain::{ReviewLog, Schedule, Word, WordStatus, WordView};
use crate::keyed::{
    has_key, keyed_map, keys_distinct, lemma_keyed_map_index, lemma_keyed_map_len,
    lemma_keyed_map_congruent, lemma_keyed_map_push, lemma_keyed_map_remove, lemma_keyed_map_update,
};
use crate::filters::{lemma_filter_none, lemma_filter_push, lemma_filter_take_step};
use crate::text::str_eq;

verus! {

/// The key of a word: its identifier.
pub open spec fn word_key() -> spec_fn(Word) -> Seq<char> {
    |w: Word| w.id@
}

/// The value of a word.
pub open spec fn word_value() -> spec_fn(Word) -> WordView {
    |w: Word| w@
}

/// The key of a schedule: the identifier of its word.
pub open spec fn schedule_key() -> spec_fn(Schedule) -> Seq<char> {
    |s: Schedule| s.word_id@
}

/// The value of a schedule: the schedule itself.
pub open spec fn schedule_value() -> spec_fn(Schedule) -> Schedule {
    |s: Schedule| s
}

/// Whether a log entry belongs to the word `id`.
pub open spec fn log_of(id: Seq<char>) -> spec_fn(ReviewLog) -> bool {
    |l: ReviewLog| l.word_id@ == id
}

/// Whether a log entry belongs to another word than `id`.
pub open spec fn log_not_of(id: Seq<char>) -> spec_fn(ReviewLog) -> bool {
    |l: ReviewLog| l.word_id@ != id
}

/// Whether a log entry records a right answer.
pub open spec fn log_correct() -> spec_fn(ReviewLog) -> bool {
    |l: ReviewLog| l.is_correct
}

/// The contents of the store: words and schedules by word identifier, and
/// the review logs in the order they were added.
pub ghost struct DbView {
    pub words: Map<Seq<char>, WordView>,
    pub schedules: Map<Seq<char>, Schedule>,
    pub logs: Seq<ReviewLog>,
}

impl DbView {
    /// The store after adding (or replacing) a word.
    pub open spec fn insert_word(self, w: WordView) -> DbView {
        DbView { words: self.words.insert(w.id, w), ..self }
    }

    /// The store after setting the status of word `id`, if it is there.
    pub open spec fn update_word_status(self, id: Seq<char>, status: WordStatus) -> DbView {
        if self.words.contains_key(id) {
            DbView { words: self.words.insert(id, WordView { status, ..self.words[id] }), ..self }
        } else {
            self
        }
    }

    /// The store after deleting word `id` with its schedule and its logs.
    pub open spec fn delete_word(self, id: Seq<char>) -> DbView {
        DbView {
            words: self.words.remove(id),
            schedules: self.schedules.remove(id),
            logs: self.logs.filter(log_not_of(id)),
        }
    }

    /// The store after adding (or replacing) a schedule.
    pub open spec fn insert_schedule(self, s: Schedule) -> DbView {
        DbView { schedules: self.schedules.insert(s.word_id@, s), ..self }
    }

    /// The store after removing the schedule of word `id`.
    pub open spec fn remove_schedule(self, id: Seq<char>) -> DbView {
        DbView { schedules: self.schedules.remove(id), ..self }
    }

    /// The store after appending a log entry.
    pub open spec fn insert_review_log(self, l: ReviewLog) -> DbView {
        DbView { logs: self.logs.push(l), ..self }
    }

    /// The log entries of word `id`, in the order they were added.
    pub open spec fn logs_of(self, id: Seq<char>) -> Seq<ReviewLog> {
        self.logs.filter(log_of(id))
    }

    /// The number of log entries that record a right answer.
    pub open spec fn correct_count(self) -> nat {
        self.logs.filter(log_correct()).len()
    }

    /// Word `id` is due at `now`: it has a schedule whose review time has
    /// come, and it is stored and not skipped.
    pub open spec fn is_due(self, id: Seq<char>, now: i64) -> bool {
        &&& self.schedules.contains_key(id)
        &&& self.schedules[id].next_review <= now
        &&& self.words.contains_key(id)
        &&& self.words[id].status != WordStatus::Skipped
    }

    /// Word `id` is due at `now` and no due word has an earlier review time.
    pub open spec fn is_next_due(self, id: Seq<char>, now: i64) -> bool {
        &&& self.is_due(id, now)
        &&& forall|k: Seq<char>| #[trigger] self.is_due(k, now)
            ==> self.schedules[id].next_review <= self.schedules[k].next_review
    }
}

/// An in-memory store of words, schedules and review logs.
#[derive(Debug)]
pub struct MockDatabase {
    words: Vec<Word>,
    schedules: Vec<Schedule>,
    review_logs: Vec<ReviewLog>,
}

impl View for MockDatabase {
    type V = DbView;

    closed spec fn view(&self) -> DbView {
        DbView {
            words: keyed_map(self.words@, word_key(), word_value()),
            schedules: keyed_map(self.schedules@, schedule_key(), schedule_value()),
            logs: self.review_logs@,
        }
    }
}

impl Default for MockDatabase {
    /// An empty store.
    fn default() -> (r: MockDatabase)
        ensures
            r@.words == Map::<Seq<char>, WordView>::empty(),
            r@.schedules == Map::<Seq<char>, Schedule>::empty(),
            r@.logs == Seq::<ReviewLog>::empty(),
    {
        MockDatabase::new()
    }
}

impl Clone for MockDatabase {
    /// A copy of the store, with the same contents.
    fn clone(&self) -> (r: MockDatabase)
        ensures
            r@ == self@,
    {
        proof {
            use_type_invariant(self);
        }
        let mut words: Vec<Word> = Vec::new();
        let mut i: usize = 0;
        while i < self.words.len()
            invariant
                i <= self.words@.len(),
                words@.len() == i,
                forall|j: int| 0 <= j < i ==> (#[trigger] words@[j])@ == self.words@[j]@
                    && words@[j].id@ == self.words@[j].id@,
            decreases self.words@.len() - i,
        {
            words.push(self.words[i].clone());
            i = i + 1;
        }
        proof {
            lemma_keyed_map_congruent(self.words@, words@, word_key(), word_value());
        }
        let mut schedules: Vec<Schedule> = Vec::new();
        let mut i: usize = 0;
        while i < self.schedules.len()
            invariant
                i <= self.schedules@.len(),
                schedules@ == self.schedules@.take(i as int),
            decreases self.schedules@.len() - i,
        {
            schedules.push(self.schedules[i].clone());
            i = i + 1;
            assert(schedules@ =~= self.schedules@.take(i as int));
        }
        assert(schedules@ =~= self.schedules@);
        let mut review_logs: Vec<ReviewLog> = Vec::new();
        let mut i: usize = 0;
        while i < self.review_logs.len()
            invariant
                i <= self.review_logs@.len(),
                review_logs@ == self.review_logs@.take(i as int),
            decreases self.review_logs@.len() - i,
        {
            review_logs.push(self.review_logs[i].clone());
            i = i + 1;
            assert(review_logs@ =~= self.review_logs@.take(i as int));
        }
        assert(review_logs@ =~= self.review_logs@);
        MockDatabase { words, schedules, review_logs }
    }
}

impl MockDatabase {
    /// The store is well formed: no two words share an identifier and no
    /// two schedules share a word identifier.
    #[verifier::type_invariant]
    spec fn well_formed(self) -> bool {
        &&& keys_distinct(self.words@, word_key())
        &&& keys_distinct(self.schedules@, schedule_key())
    }

    /// An empty store.
    pub fn new() -> (r: MockDatabase)
        ensures
            r@.words == Map::<Seq<char>, WordView>::empty(),
            r@.schedules == Map::<Seq<char>, Schedule>::empty(),
            r@.logs == Seq::<ReviewLog>::empty(),
    {
        let r = MockDatabase { words: Vec::new(), schedules: Vec::new(), review_logs: Vec::new() };
        assert(r@.words =~= Map::<Seq<char>, WordView>::empty());
        assert(r@.schedules =~= Map::<Seq<char>, Schedule>::empty());
        r
    }

    /// The position of word `id`, if it is stored.
    fn find_word(&self, id: &str) -> (r: Option<usize>)
        ensures
            match r {
                Some(i) => i < self.words@.len() && self.words@[i as int].id@ == id@,
                None => !has_key(self.words@, word_key(), id@),
            },
    {
        let mut i: usize = 0;
        while i < self.words.len()
            invariant
                i <= self.words@.len(),
                forall|j: int| 0 <= j < i ==> self.words@[j].id@ != id@,
            decreases self.words@.len() - i,
        {
            if str_eq(self.words[i].id.as_str(), id) {
                return Some(i);
            }
            i = i + 1;
        }
        assert(!has_key(self.words@, word_key(), id@)) by {
            if has_key(self.words@, word_key(), id@) {
                let j = choose|j: int| 0 <= j < self.words@.len() && #[trigger] word_key()(self.words@[j]) == id@;
                assert(self.words@[j].id@ != id@);
            }
        }
        None
    }

    /// The position of the schedule of word `id`, if there is one.
    fn find_schedule(&self, id: &str) -> (r: Option<usize>)
        ensures
            match r {
                Some(i) => i < self.schedules@.len() && self.schedules@[i as int].word_id@ == id@,
                None => !has_key(self.schedules@, schedule_key(), id@),
            },
    {
        let mut i: usize = 0;
        while i < self.schedules.len()
            invariant
                i <= self.schedules@.len(),
                forall|j: int| 0 <= j < i ==> self.schedules@[j].word_id@ != id@,
            decreases self.schedules@.len() - i,
        {
            if str_eq(self.schedules[i].word_id.as_str(), id) {
                return Some(i);
            }
            i = i + 1;
        }
        assert(!has_key(self.schedules@, schedule_key(), id@)) by {
            if has_key(self.schedules@, schedule_key(), id@) {
                let j = choose|j: int| 0 <= j < self.schedules@.len() && #[trigger] schedule_key()(self.schedules@[j]) == id@;
                assert(self.schedules@[j].word_id@ != id@);
            }
        }
        None
    }

    /// Stores a copy of the word under its identifier, replacing any word
    /// stored there.
    pub fn insert_word(&mut self, word: &Word)
        ensures
            final(self)@ == old(self)@.insert_word(word@),
    {
        proof {
            use_type_invariant(&*self);
        }
        let copy = word.clone();
        let found = self.find_word(word.id.as_str());
        let mut words: Vec<Word> = Vec::new();
        std::mem::swap(&mut words, &mut self.words);
        match found {
            Some(i) => {
                proof {
                    lemma_keyed_map_update(words@, word_key(), word_value(), i as int, copy);
                }
                words.set(i, copy);
            },
            None => {
                proof {
                    lemma_keyed_map_push(words@, word_key(), word_value(), copy);
                }
                words.push(copy);
            },
        }
        self.words = words;
    }

    /// A copy of word `id`, if it is stored.
    pub fn get_word(&self, id: &str) -> (r: Option<Word>)
        ensures
            match r {
                Some(w) => self@.words.contains_key(id@) && w@ == self@.words[id@],
                None => !self@.words.contains_key(id@),
            },
    {
        proof {
            use_type_invariant(self);
        }
        match self.find_word(id) {
            Some(i) => {
                proof {
                    lemma_keyed_map_index(self.words@, word_key(), word_value(), i as int);
                }
                Some(self.words[i].clone())
            },
            None => None,
        }
    }

    /// Sets the status of word `id`; does nothing if it is not stored.
    pub fn update_word_status(&mut self, word_id: &str, status: WordStatus)
        ensures
            final(self)@ == old(self)@.update_word_status(word_id@, status),
    {
        proof {
            use_type_invariant(&*self);
        }
        match self.find_word(word_id) {
            Some(i) => {
                let mut w = self.words[i].clone();
                w.status = status;
                proof {
                    lemma_keyed_map_index(self.words@, word_key(), word_value(), i as int);
                    lemma_keyed_map_update(self.words@, word_key(), word_value(), i as int, w);
                }
                let mut words: Vec<Word> = Vec::new();
                std::mem::swap(&mut words, &mut self.words);
                words.set(i, w);
                self.words = words;
            },
            None => {},
        }
    }

    /// Deletes word `id`, its schedule and all its log entries.
    pub fn delete_word(&mut self, word_id: &str)
        ensures
            final(self)@ == old(self)@.delete_word(word_id@),
    {
        proof {
            use_type_invariant(&*self);
        }
        let ghost old_view = self@;
        match self.find_word(word_id) {
            Some(i) => {
                proof {
                    lemma_keyed_map_remove(self.words@, word_key(), word_value(), i as int);
                }
                let mut words: Vec<Word> = Vec::new();
                std::mem::swap(&mut words, &mut self.words);
                words.remove(i);
                self.words = words;
            },
            None => {
                assert(self@.words.remove(word_id@) =~= self@.words);
            },
        }
        self.remove_schedule(word_id);
        proof {
            use_type_invariant(&*self);
        }
        let mut kept: Vec<ReviewLog> = Vec::new();
        let mut i: usize = 0;
        while i < self.review_logs.len()
            invariant
                i <= self.review_logs@.len(),
                kept@ == self.review_logs@.take(i as int).filter(log_not_of(word_id@)),
            decreases self.review_logs@.len() - i,
        {
            proof {
                lemma_filter_take_step(self.review_logs@, log_not_of(word_id@), i as int);
            }
            if !str_eq(self.review_logs[i].word_id.as_str(), word_id) {
                kept.push(self.review_logs[i].clone());
            }
            i = i + 1;
        }
        assert(self.review_logs@.take(self.review_logs@.len() as int) =~= self.review_logs@);
        self.review_logs = kept;
        assert(self@ =~= old_view.delete_word(word_id@));
    }

    /// Stores a copy of the schedule under its word identifier, replacing
    /// any schedule stored there.
    pub fn insert_schedule(&mut self, schedule: &Schedule)
        ensures
            final(self)@ == old(self)@.insert_schedule(*schedule),
    {
        proof {
            use_type_invariant(&*self);
        }
        let copy = schedule.clone();
        let found = self.find_schedule(schedule.word_id.as_str());
        let mut schedules: Vec<Schedule> = Vec::new();
        std::mem::swap(&mut schedules, &mut self.schedules);
        match found {
            Some(i) => {
                proof {
                    lemma_keyed_map_update(schedules@, schedule_key(), schedule_value(), i as int, copy);
                }
                schedules.set(i, copy);
            },
            None => {
                proof {
                    lemma_keyed_map_push(schedules@, schedule_key(), schedule_value(), copy);
                }
                schedules.push(copy);
            },
        }
        self.schedules = schedules;
    }

    /// A copy of the schedule of word `id`, if there is one.
    pub fn get_schedule(&self, word_id: &str) -> (r: Option<Schedule>)
        ensures
            match r {
                Some(s) => self@.schedules.contains_key(word_id@) && s == self@.schedules[word_id@],
                None => !self@.schedules.contains_key(word_id@),
            },
    {
        proof {
            use_type_invariant(self);
        }
        match self.find_schedule(word_id) {
            Some(i) => {
                proof {
                    lemma_keyed_map_index(self.schedules@, schedule_key(), schedule_value(), i as int);
                }
                Some(self.schedules[i].clone())
            },
            None => None,
        }
    }

    /// Stores a copy of the schedule under its word identifier, replacing
    /// any schedule stored there.
    pub fn update_schedule(&mut self, schedule: &Schedule)
        ensures
            final(self)@ == old(self)@.insert_schedule(*schedule),
    {
        self.insert_schedule(schedule);
    }

    /// Removes the schedule of word `id`, if there is one.
    pub fn remove_schedule(&mut self, word_id: &str)
        ensures
            final(self)@ == old(self)@.remove_schedule(word_id@),
    {
        proof {
            use_type_invariant(&*self);
        }
        match self.find_schedule(word_id) {
            Some(i) => {
                proof {
                    lemma_keyed_map_remove(self.schedules@, schedule_key(), schedule_value(), i as int);
                }
                let mut schedules: Vec<Schedule> = Vec::new();
                std::mem::swap(&mut schedules, &mut self.schedules);
                schedules.remove(i);
                self.schedules = schedules;
            },
            None => {
                assert(self@.schedules.remove(word_id@) =~= self@.schedules);
            },
        }
    }

    /// Appends a copy of the log entry.
    pub fn insert_review_log(&mut self, log: &ReviewLog)
        ensures
            final(self)@ == old(self)@.insert_review_log(*log),
    {
        proof {
            use_type_invariant(&*self);
        }
        let mut logs: Vec<ReviewLog> = Vec::new();
        std::mem::swap(&mut logs, &mut self.review_logs);
        logs.push(log.clone());
        self.review_logs = logs;
    }

    /// The log entries of word `id`, in the order they were added.
    pub fn get_review_logs(&self, word_id: &str) -> (r: Vec<&ReviewLog>)
        ensures
            r@.len() == self@.logs_of(word_id@).len(),
            forall|i: int| 0 <= i < r@.len() ==> *r@[i] == #[trigger] self@.logs_of(word_id@)[i],
    {
        let mut r: Vec<&ReviewLog> = Vec::new();
        let mut i: usize = 0;
        while i < self.review_logs.len()
            invariant
                i <= self.review_logs@.len(),
                r@.len() == self.review_logs@.take(i as int).filter(log_of(word_id@)).len(),
                forall|j: int| 0 <= j < r@.len() ==> *r@[j] == #[trigger] self.review_logs@.take(i as int).filter(log_of(word_id@))[j],
            decreases self.review_logs@.len() - i,
        {
            proof {
                lemma_filter_take_step(self.review_logs@, log_of(word_id@), i as int);
            }
            if str_eq(self.review_logs[i].word_id.as_str(), word_id) {
                r.push(&self.review_logs[i]);
            }
            i = i + 1;
        }
        assert(self.review_logs@.take(self.review_logs@.len() as int) =~= self.review_logs@);
        r
    }

    /// The number of stored words.
    pub fn get_word_count(&self) -> (r: usize)
        ensures
            self@.words.dom().finite(),
            r == self@.words.dom().len(),
    {
        proof {
            use_type_invariant(self);
        }
        proof {
            lemma_keyed_map_len(self.words@, word_key(), word_value());
        }
        self.words.len()
    }

    /// The number of log entries and the number of them that record a
    /// right answer.
    pub fn get_review_stats(&self) -> (r: (usize, usize))
        ensures
            r.0 == self@.logs.len(),
            r.1 == self@.correct_count(),
    {
        let mut correct: usize = 0;
        let mut i: usize = 0;
        while i < self.review_logs.len()
            invariant
                i <= self.review_logs@.len(),
                correct == self.review_logs@.take(i as int).filter(log_correct()).len(),
            decreases self.review_logs@.len() - i,
        {
            proof {
                lemma_filter_take_step(self.review_logs@, log_correct(), i as int);
                self.review_logs@.take(i as int).filter(log_correct()).lemma_filter_len(log_correct());
            }
            if self.review_logs[i].is_correct {
                correct = correct + 1;
            }
            i = i + 1;
        }
        assert(self.review_logs@.take(self.review_logs@.len() as int) =~= self.review_logs@);
        (self.review_logs.len(), correct)
    }

    /// A copy of the word to review next: of the words that are due now and
    /// not skipped, one with the earliest review time.
    pub fn get_next_review_word(&self) -> (r: Option<Word>)
        ensures
            exists|now: i64| 0 <= now <= MAX_TIMESTAMP_MILLIS && #[trigger] self.next_review_word_is(r, now),
    {
        let now = now_millis();
        let r = self.get_next_review_word_at(now);
        assert(self.next_review_word_is(r, now));
        r
    }

    /// What `get_next_review_word_at(now)` returns: nothing when no word is
    /// due at `now`, else a copy of a due word with the earliest review time.
    pub open spec fn next_review_word_is(&self, r: Option<Word>, now: i64) -> bool {
        match r {
            None => forall|k: Seq<char>| !#[trigger] self@.is_due(k, now),
            Some(w) => self@.is_next_due(w.id@, now) && w@ == self@.words[w.id@],
        }
    }

    /// A copy of the word to review next at time `now`: of the words that
    /// are due and not skipped, one with the earliest review time.
    pub fn get_next_review_word_at(&self, now: i64) -> (r: Option<Word>)
        ensures
            self.next_review_word_is(r, now),
    {
        proof {
            use_type_invariant(self);
        }
        assert forall|i: int| 0 <= i < self.words@.len() implies
            #[trigger] self@.words[self.words@[i].id@] == self.words@[i]@
            && self@.words.contains_key(self.words@[i].id@) by {
            lemma_keyed_map_index(self.words@, word_key(), word_value(), i);
        }
        assert forall|i: int| 0 <= i < self.schedules@.len() implies
            #[trigger] self@.schedules[self.schedules@[i].word_id@] == self.schedules@[i]
            && self@.schedules.contains_key(self.schedules@[i].word_id@) by {
            lemma_keyed_map_index(self.schedules@, schedule_key(), schedule_value(), i);
        }
        let mut best: Option<(usize, usize)> = None;
        let mut j: usize = 0;
        while j < self.schedules.len()
            invariant
                self.well_formed(),
                j <= self.schedules@.len(),
                forall|i: int| 0 <= i < self.words@.len() ==> #[trigger] self@.words[self.words@[i].id@] == self.words@[i]@
                    && self@.words.contains_key(self.words@[i].id@),
                forall|i: int| 0 <= i < self.schedules@.len() ==> #[trigger] self@.schedules[self.schedules@[i].word_id@] == self.schedules@[i]
                    && self@.schedules.contains_key(self.schedules@[i].word_id@),
                match best {
                    None => forall|i: int| 0 <= i < j ==> !self@.is_due(#[trigger] self.schedules@[i].word_id@, now),
                    Some((wi, si)) => {
                        &&& wi < self.words@.len()
                        &&& si < j
                        &&& self.words@[wi as int].id@ == self.schedules@[si as int].word_id@
                        &&& self@.is_due(self.schedules@[si as int].word_id@, now)
                        &&& forall|i: int| 0 <= i < j && self@.is_due(#[trigger] self.schedules@[i].word_id@, now)
                            ==> self.schedules@[si as int].next_review <= self.schedules@[i].next_review
                    },
                },
            decreases self.schedules@.len() - j,
        {
            let s = &self.schedules[j];
            if s.next_review <= now {
                match self.find_word(s.word_id.as_str()) {
                    Some(wi) => {
                        if self.words[wi].status != WordStatus::Skipped {
                            let better = match best {
                                None => true,
                                Some((_, si)) => s.next_review < self.schedules[si].next_review,
                            };
                            if better {
                                best = Some((wi, j));
                            }
                        }
                    },
                    None => {
                        assert(!self@.words.contains_key(s.word_id@));
                    },
                }
            }
            j = j + 1;
        }
        match best {
            None => {
                assert forall|k: Seq<char>| !#[trigger] self@.is_due(k, now) by {
                    if self@.is_due(k, now) {
                        let i = choose|i: int| 0 <= i < self.schedules@.len() && #[trigger] schedule_key()(self.schedules@[i]) == k;
                        assert(!self@.is_due(self.schedules@[i].word_id@, now));
                    }
                }
                None
            },
            Some((wi, si)) => {
                let w = self.words[wi].clone();
                assert forall|k: Seq<char>| #[trigger] self@.is_due(k, now) implies
                    self@.schedules[w.id@].next_review <= self@.schedules[k].next_review by {
                    let i = choose|i: int| 0 <= i < self.schedules@.len() && #[trigger] schedule_key()(self.schedules@[i]) == k;
                    assert(self@.is_due(self.schedules@[i].word_id@, now));
                }
                Some(w)
            },
        }
    }
}


/// A stored word is read back as it was written, and writing it leaves
/// every other word as it was.
pub proof fn lemma_read_after_write(v: DbView, w: WordView, other: Seq<char>)
    ensures
        v.insert_word(w).words.contains_key(w.id),
        v.insert_word(w).words[w.id] == w,
        other != w.id ==> v.insert_word(w).words.get(other) == v.words.get(other),
{
}

/// Setting the status of a stored word changes that status and nothing else;
/// for a word that is not stored it changes nothing.
pub proof fn lemma_status_update(v: DbView, id: Seq<char>, status: WordStatus, other: Seq<char>)
    ensures
        v.words.contains_key(id) ==> v.update_word_status(id, status).words.contains_key(id)
            && v.update_word_status(id, status).words[id] == (WordView { status, ..v.words[id] }),
        !v.words.contains_key(id) ==> v.update_word_status(id, status) == v,
        v.update_word_status(id, status).words.dom() == v.words.dom(),
        other != id ==> v.update_word_status(id, status).words.get(other) == v.words.get(other),
        v.update_word_status(id, status).schedules == v.schedules,
        v.update_word_status(id, status).logs == v.logs,
{
    assert(v.update_word_status(id, status).words.dom() =~= v.words.dom());
}

/// A stored schedule is read back as it was written, under its word's
/// identifier, and leaves every other schedule and all words as they were;
/// removing a schedule removes only that one.
pub proof fn lemma_schedule_read_after_write(v: DbView, s: Schedule, id: Seq<char>, other: Seq<char>)
    ensures
        v.insert_schedule(s).schedules.contains_key(s.word_id@),
        v.insert_schedule(s).schedules[s.word_id@] == s,
        other != s.word_id@ ==> v.insert_schedule(s).schedules.get(other) == v.schedules.get(other),
        v.insert_schedule(s).words == v.words,
        !v.remove_schedule(id).schedules.contains_key(id),
        other != id ==> v.remove_schedule(id).schedules.get(other) == v.schedules.get(other),
        v.remove_schedule(id).words == v.words,
{
}

/// Deleting a word leaves nothing of it: no word, no schedule, no log
/// entries; and every other word stays as it was.
pub proof fn lemma_delete_cascades(v: DbView, id: Seq<char>, other: Seq<char>)
    ensures
        !v.delete_word(id).words.contains_key(id),
        !v.delete_word(id).schedules.contains_key(id),
        v.delete_word(id).logs_of(id).len() == 0,
        other != id ==> v.delete_word(id).words.get(other) == v.words.get(other),
        other != id ==> v.delete_word(id).schedules.get(other) == v.schedules.get(other),
{
    let kept = v.logs.filter(log_not_of(id));
    assert forall|i: int| 0 <= i < kept.len() implies !log_of(id)(#[trigger] kept[i]) by {
        v.logs.lemma_filter_pred(log_not_of(id), i);
    }
    lemma_filter_none(kept, log_of(id));
}

/// Deleting a word takes one from the number of stored words when the word
/// was stored, and leaves that number as it was when it was not.
pub proof fn lemma_delete_word_count(v: DbView, id: Seq<char>)
    requires
        v.words.dom().finite(),
    ensures
        v.delete_word(id).words.dom().finite(),
        v.delete_word(id).words.dom().len() == v.words.dom().len() - if v.words.contains_key(id) { 1int } else { 0int },
{
}

/// Storing a word adds one to the number of stored words when no word with
/// its identifier was stored, and leaves that number as it was when one was
/// (it is replaced).
pub proof fn lemma_insert_word_count(v: DbView, w: WordView)
    requires
        v.words.dom().finite(),
    ensures
        v.insert_word(w).words.dom().finite(),
        v.insert_word(w).words.dom().len() == v.words.dom().len() + if v.words.contains_key(w.id) { 0int } else { 1int },
{
}

/// A word is due exactly when it is stored with any status other than
/// skipped (new, learning or mastered alike) and has a schedule whose review
/// time has come.
pub proof fn lemma_due_words(v: DbView, id: Seq<char>, now: i64)
    ensures
        v.is_due(id, now) <==> {
            &&& v.words.contains_key(id)
            &&& v.schedules.contains_key(id)
            &&& v.schedules[id].next_review <= now
            &&& v.words[id].status != WordStatus::Skipped
        },
        v.words.contains_key(id) && v.schedules.contains_key(id) && v.schedules[id].next_review <= now
            && v.words[id].status == WordStatus::Mastered ==> v.is_due(id, now),
{
}

/// Whenever a stored word that is not skipped has a schedule whose review
/// time has come, the next word to review is offered: a stored, not skipped
/// word whose review time has come and is no later than that word's.
pub proof fn lemma_due_word_is_offered(db: &MockDatabase, r: Option<Word>, now: i64, id: Seq<char>)
    requires
        db.next_review_word_is(r, now),
        db@.words.contains_key(id),
        db@.words[id].status != WordStatus::Skipped,
        db@.schedules.contains_key(id),
        db@.schedules[id].next_review <= now,
    ensures
        r is Some,
        r matches Some(w) ==> {
            &&& db@.words.contains_key(w.id@)
            &&& db@.words[w.id@].status != WordStatus::Skipped
            &&& db@.schedules.contains_key(w.id@)
            &&& db@.schedules[w.id@].next_review <= now
            &&& db@.schedules[w.id@].next_review <= db@.schedules[id].next_review
        },
{
    assert(db@.is_due(id, now));
}

/// The word offered for review is a copy of a stored word that is not
/// skipped and whose review time has come, with a review time no later than
/// that of any other such word; nothing is offered only when there is no
/// such word.
pub proof fn lemma_offered_word(db: &MockDatabase, r: Option<Word>, now: i64)
    requires
        db.next_review_word_is(r, now),
    ensures
        r matches Some(w) ==> {
            &&& db@.words.contains_key(w.id@)
            &&& w@ == db@.words[w.id@]
            &&& w@.status != WordStatus::Skipped
            &&& db@.schedules.contains_key(w.id@)
            &&& db@.schedules[w.id@].next_review <= now
            &&& forall|k: Seq<char>| db@.words.contains_key(k) && db@.words[k].status != WordStatus::Skipped
                && #[trigger] db@.schedules.contains_key(k) && db@.schedules[k].next_review <= now
                ==> db@.schedules[w.id@].next_review <= db@.schedules[k].next_review
        },
        r is None ==> forall|k: Seq<char>| db@.words.contains_key(k) && db@.words[k].status != WordStatus::Skipped
            && #[trigger] db@.schedules.contains_key(k) ==> db@.schedules[k].next_review > now,
{
    if let Some(w) = r {
        assert forall|k: Seq<char>| db@.words.contains_key(k) && db@.words[k].status != WordStatus::Skipped
            && #[trigger] db@.schedules.contains_key(k) && db@.schedules[k].next_review <= now
            implies db@.schedules[w.id@].next_review <= db@.schedules[k].next_review by {
            assert(db@.is_due(k, now));
        }
    } else {
        assert forall|k: Seq<char>| db@.words.contains_key(k) && db@.words[k].status != WordStatus::Skipped
            && #[trigger] db@.schedules.contains_key(k) implies db@.schedules[k].next_review > now by {
            assert(!db@.is_due(k, now));
        }
    }
}

/// A skipped word is never due, whatever its schedule says.
pub proof fn lemma_skipped_never_due(v: DbView, id: Seq<char>, now: i64)
    ensures
        !v.update_word_status(id, WordStatus::Skipped).is_due(id, now),
{
}

/// Taking a stored word back from skipped, with a schedule whose review
/// time has come, makes it due.
pub proof fn lemma_unskip_makes_due(v: DbView, s: Schedule, now: i64)
    requires
        v.words.contains_key(s.word_id@),
        s.next_review <= now,
    ensures
        v.update_word_status(s.word_id@, WordStatus::Learning).insert_schedule(s).is_due(s.word_id@, now),
{
}

/// Recording an answer adds one to the count of answers, and one to the
/// count of right answers exactly when the answer was right; no more right
/// answers are ever counted than answers.
pub proof fn lemma_review_stats_count(v: DbView, l: ReviewLog)
    ensures
        v.insert_review_log(l).logs.len() == v.logs.len() + 1,
        v.insert_review_log(l).correct_count() == v.correct_count() + if l.is_correct { 1int } else { 0int },
        v.correct_count() <= v.logs.len(),
{
    lemma_filter_push(v.logs, log_correct(), l);
    v.logs.lemma_filter_len(log_correct());
}

} // verus!
