//! Words, their definitions and review status, review schedules and review logs.

use vstd::prelude::*;
use crate::clock::{new_id, now_millis, MAX_TIMESTAMP_MILLIS};
use crate::text::{str_eq, to_lowercase, unicode_lowercase};

verus! {

/// Where a word stands in its learning.
#[derive(Debug, Clone, Copy, PartialEq, Eq, Structural)]
pub enum WordStatus {
    New,
    Learning,
    Mastered,
    Skipped,
}

/// The status that a lower-case status name stands for; anything else is `New`.
pub open spec fn status_of_name(s: Seq<char>) -> WordStatus {
    if s == "new"@ {
        WordStatus::New
    } else if s == "learning"@ {
        WordStatus::Learning
    } else if s == "mastered"@ {
        WordStatus::Mastered
    } else if s == "skipped"@ {
        WordStatus::Skipped
    } else {
        WordStatus::New
    }
}

/// The lower-case name of a status.
pub open spec fn name_of_status(s: WordStatus) -> Seq<char> {
    match s {
        WordStatus::New => "new"@,
        WordStatus::Learning => "learning"@,
        WordStatus::Mastered => "mastered"@,
        WordStatus::Skipped => "skipped"@,
    }
}

impl WordStatus {
    /// Reads a status name without regard to case; unknown names give `New`.
    pub fn from_str(s: &str) -> (r: WordStatus)
        ensures
            r == status_of_name(unicode_lowercase(s@)),
    {
        let lower = to_lowercase(s);
        WordStatus::from_lowercase(lower.as_str())
    }

    /// Reads an already lower-cased status name; unknown names give `New`.
    pub fn from_lowercase(s: &str) -> (r: WordStatus)
        ensures
            r == status_of_name(s@),
            s@ == "new"@ ==> r == WordStatus::New,
            s@ == "learning"@ ==> r == WordStatus::Learning,
            s@ == "mastered"@ ==> r == WordStatus::Mastered,
            s@ == "skipped"@ ==> r == WordStatus::Skipped,
    {
        proof {
            lemma_status_names_distinct();
        }
        if str_eq(s, "new") {
            WordStatus::New
        } else if str_eq(s, "learning") {
            WordStatus::Learning
        } else if str_eq(s, "mastered") {
            WordStatus::Mastered
        } else if str_eq(s, "skipped") {
            WordStatus::Skipped
        } else {
            WordStatus::New
        }
    }

    /// The lower-case name of the status.
    pub fn to_str(&self) -> (r: &'static str)
        ensures
            r@ == name_of_status(*self),
    {
        match self {
            WordStatus::New => "new",
            WordStatus::Learning => "learning",
            WordStatus::Mastered => "mastered",
            WordStatus::Skipped => "skipped",
        }
    }
}


/// The four status names differ from one another.
proof fn lemma_status_names_distinct()
    ensures
        "new"@ != "learning"@,
        "new"@ != "mastered"@,
        "new"@ != "skipped"@,
        "learning"@ != "mastered"@,
        "learning"@ != "skipped"@,
        "mastered"@ != "skipped"@,
{
    reveal_strlit("new");
    reveal_strlit("learning");
    reveal_strlit("mastered");
    reveal_strlit("skipped");
    assert("learning"@[0] != "mastered"@[0]);
    assert("learning"@[0] != "new"@[0]);
    assert("mastered"@[0] != "new"@[0]);
    assert("skipped"@[0] != "new"@[0]);
    assert("skipped"@[0] != "learning"@[0]);
    assert("skipped"@[0] != "mastered"@[0]);
}

/// Every status is read back from its own name.
pub proof fn lemma_status_name_round_trip(s: WordStatus)
    ensures
        status_of_name(name_of_status(s)) == s,
{
    lemma_status_names_distinct();
}

/// The ease factor of a fresh schedule, in hundredths (2.5).
pub const INITIAL_EASE_FACTOR: i64 = 250;

/// The review interval of a fresh schedule, in seconds.
pub const INITIAL_INTERVAL: i64 = 60;

/// One sense of a word.
#[derive(Debug)]
pub struct Definition {
    pub id: String,
    /// Part of speech.
    pub pos: Option<String>,
    pub definition: String,
    pub example: Option<String>,
}

/// A copy of an optional string.
pub fn clone_opt_string(s: &Option<String>) -> (r: Option<String>)
    ensures
        r == *s,
{
    match s {
        Some(t) => Some(t.clone()),
        None => None,
    }
}

impl Clone for Definition {
    fn clone(&self) -> (r: Self)
        ensures
            r == *self,
    {
        Definition {
            id: self.id.clone(),
            pos: clone_opt_string(&self.pos),
            definition: self.definition.clone(),
            example: clone_opt_string(&self.example),
        }
    }
}

/// A copy of a list of definitions.
pub fn clone_definitions(v: &Vec<Definition>) -> (r: Vec<Definition>)
    ensures
        r@ == v@,
{
    let mut r: Vec<Definition> = Vec::new();
    let mut i: usize = 0;
    while i < v.len()
        invariant
            i <= v.len(),
            r@ == v@.subrange(0, i as int),
        decreases v.len() - i,
    {
        r.push(v[i].clone());
        i = i + 1;
        assert(r@ =~= v@.subrange(0, i as int));
    }
    assert(r@ =~= v@);
    r
}

/// A word with its definitions.
#[derive(Debug)]
pub struct Word {
    pub id: String,
    pub word: String,
    pub phonetic: Option<String>,
    pub phonetic_audio_url: Option<String>,
    pub definitions: Vec<Definition>,
    pub status: WordStatus,
    /// Milliseconds since the Unix epoch.
    pub created_at: i64,
    /// Milliseconds since the Unix epoch.
    pub updated_at: i64,
}

/// The value of a `Word`: its texts as character sequences and its
/// definitions as a sequence.
pub ghost struct WordView {
    pub id: Seq<char>,
    pub word: Seq<char>,
    pub phonetic: Option<Seq<char>>,
    pub phonetic_audio_url: Option<Seq<char>>,
    pub definitions: Seq<Definition>,
    pub status: WordStatus,
    pub created_at: i64,
    pub updated_at: i64,
}

/// The characters of an optional string.
pub open spec fn opt_view(s: Option<String>) -> Option<Seq<char>> {
    match s {
        Some(t) => Some(t@),
        None => None,
    }
}

impl View for Word {
    type V = WordView;

    open spec fn view(&self) -> WordView {
        WordView {
            id: self.id@,
            word: self.word@,
            phonetic: opt_view(self.phonetic),
            phonetic_audio_url: opt_view(self.phonetic_audio_url),
            definitions: self.definitions@,
            status: self.status,
            created_at: self.created_at,
            updated_at: self.updated_at,
        }
    }
}

impl Clone for Word {
    fn clone(&self) -> (r: Self)
        ensures
            r@ == self@,
    {
        Word {
            id: self.id.clone(),
            word: self.word.clone(),
            phonetic: clone_opt_string(&self.phonetic),
            phonetic_audio_url: clone_opt_string(&self.phonetic_audio_url),
            definitions: clone_definitions(&self.definitions),
            status: self.status,
            created_at: self.created_at,
            updated_at: self.updated_at,
        }
    }
}

impl Word {
    /// A new word with a fresh 36-character identifier, no definitions,
    /// status `New`, and both time stamps set to the current time.
    pub fn new(word: String) -> (r: Word)
        ensures
            r.id@.len() == 36,
            r.word == word,
            r.phonetic is None,
            r.phonetic_audio_url is None,
            r.definitions@.len() == 0,
            r.status == WordStatus::New,
            0 <= r.created_at <= MAX_TIMESTAMP_MILLIS,
            r.updated_at == r.created_at,
    {
        let now = now_millis();
        Word {
            id: new_id(),
            word,
            phonetic: None,
            phonetic_audio_url: None,
            definitions: Vec::new(),
            status: WordStatus::New,
            created_at: now,
            updated_at: now,
        }
    }
}

/// The review schedule of one word under the SM-2 rules.
///
/// The ease factor is kept in hundredths: 250 stands for 2.5.
#[derive(Debug)]
pub struct Schedule {
    pub word_id: String,
    /// Seconds until the next review.
    pub interval: i64,
    /// Hundredths.
    pub ease_factor: i64,
    pub repetitions: i32,
    /// Milliseconds since the Unix epoch.
    pub next_review: i64,
    /// Milliseconds since the Unix epoch.
    pub last_review: Option<i64>,
}

impl Clone for Schedule {
    fn clone(&self) -> (r: Self)
        ensures
            r == *self,
    {
        Schedule {
            word_id: self.word_id.clone(),
            interval: self.interval,
            ease_factor: self.ease_factor,
            repetitions: self.repetitions,
            next_review: self.next_review,
            last_review: self.last_review,
        }
    }
}

/// A fresh schedule for a word, due at `now`.
pub open spec fn fresh_schedule(word_id: String, now: i64) -> Schedule {
    Schedule {
        word_id,
        interval: INITIAL_INTERVAL,
        ease_factor: INITIAL_EASE_FACTOR,
        repetitions: 0,
        next_review: now,
        last_review: None,
    }
}

impl Schedule {
    /// A fresh schedule: interval 60 s, ease factor 2.5, no repetitions,
    /// never reviewed, due now.
    pub fn new(word_id: String) -> (r: Schedule)
        ensures
            r == fresh_schedule(word_id, r.next_review),
            0 <= r.next_review <= MAX_TIMESTAMP_MILLIS,
    {
        let now = now_millis();
        Schedule {
            word_id,
            interval: INITIAL_INTERVAL,
            ease_factor: INITIAL_EASE_FACTOR,
            repetitions: 0,
            next_review: now,
            last_review: None,
        }
    }
}

/// The record of one answer given in a review.
#[derive(Debug)]
pub struct ReviewLog {
    pub id: String,
    pub word_id: String,
    pub is_correct: bool,
    pub user_answer: Option<String>,
    /// Milliseconds since the Unix epoch.
    pub reviewed_at: i64,
}

impl Clone for ReviewLog {
    fn clone(&self) -> (r: Self)
        ensures
            r == *self,
    {
        ReviewLog {
            id: self.id.clone(),
            word_id: self.word_id.clone(),
            is_correct: self.is_correct,
            user_answer: clone_opt_string(&self.user_answer),
            reviewed_at: self.reviewed_at,
        }
    }
}

impl ReviewLog {
    /// A log entry with a fresh 36-character identifier, stamped with the
    /// current time.
    pub fn new(word_id: String, is_correct: bool, user_answer: &str) -> (r: ReviewLog)
        ensures
            r.id@.len() == 36,
            r.word_id == word_id,
            r.is_correct == is_correct,
            r.user_answer matches Some(a) && a@ == user_answer@,
            0 <= r.reviewed_at <= MAX_TIMESTAMP_MILLIS,
    {
        let answer = user_answer.to_owned();
        ReviewLog {
            id: new_id(),
            word_id,
            is_correct,
            user_answer: Some(answer),
            reviewed_at: now_millis(),
        }
    }
}

} // verus!
