use word_trainer::domain::{Definition, ReviewLog, Schedule, Word, WordStatus};
use word_trainer::mock_db::MockDatabase;

fn create_test_word(word_text: &str) -> Word {
    let mut word = Word::new(word_text.to_string());
    word.definitions.push(Definition {
        id: uuid::Uuid::new_v4().to_string(),
        pos: Some("n".to_string()),
        definition: format!("definition of {}", word_text),
        example: None,
    });
    word
}

#[test]
fn test_mock_db_insert_and_get_word() {
    let mut db = MockDatabase::new();
    let word = create_test_word("hello");

    db.insert_word(&word);
    let retrieved = db.get_word(&word.id);

    assert!(retrieved.is_some());
    assert_eq!(retrieved.unwrap().word, "hello");
}

#[test]
fn test_mock_db_update_word_status() {
    let mut db = MockDatabase::new();
    let word = create_test_word("test");

    db.insert_word(&word);
    assert_eq!(db.get_word(&word.id).unwrap().status, WordStatus::New);

    db.update_word_status(&word.id, WordStatus::Learning);
    assert_eq!(db.get_word(&word.id).unwrap().status, WordStatus::Learning);
}

#[test]
fn test_mock_db_delete_word() {
    let mut db = MockDatabase::new();
    let word = create_test_word("test");

    db.insert_word(&word);
    assert!(db.get_word(&word.id).is_some());

    db.delete_word(&word.id);
    assert!(db.get_word(&word.id).is_none());
}

#[test]
fn test_mock_db_schedule_operations() {
    let mut db = MockDatabase::new();
    let word = create_test_word("test");
    db.insert_word(&word);

    let schedule = Schedule::new(word.id.clone());
    db.insert_schedule(&schedule);

    let retrieved = db.get_schedule(&word.id);
    assert!(retrieved.is_some());
    assert_eq!(retrieved.unwrap().repetitions, 0);
}

#[test]
fn test_mock_db_review_log() {
    let mut db = MockDatabase::new();
    let word = create_test_word("test");
    db.insert_word(&word);

    let log = ReviewLog::new(word.id.clone(), true, "correct");
    db.insert_review_log(&log);

    let logs = db.get_review_logs(&word.id);
    assert_eq!(logs.len(), 1);
    assert!(logs[0].is_correct);
}

#[test]
fn test_mock_db_review_stats() {
    let mut db = MockDatabase::new();
    let word = create_test_word("test");
    db.insert_word(&word);

    db.insert_review_log(&ReviewLog::new(word.id.clone(), true, "a"));
    db.insert_review_log(&ReviewLog::new(word.id.clone(), true, "b"));
    db.insert_review_log(&ReviewLog::new(word.id.clone(), false, "c"));

    let (total, correct) = db.get_review_stats();
    assert_eq!(total, 3);
    assert_eq!(correct, 2);
}

#[test]
fn test_mock_db_next_review_word() {
    let mut db = MockDatabase::new();
    let word1 = create_test_word("word1");
    let word2 = create_test_word("word2");
    db.insert_word(&word1);
    db.insert_word(&word2);

    let mut schedule1 = Schedule::new(word1.id.clone());
    schedule1.next_review = chrono::Utc::now().timestamp_millis() - 1000;
    let schedule2 = Schedule::new(word2.id.clone());

    db.insert_schedule(&schedule1);
    db.insert_schedule(&schedule2);

    let next = db.get_next_review_word();
    assert!(next.is_some());
    assert_eq!(next.unwrap().word, "word1");
}

#[test]
fn test_mock_db_skipped_word_not_returned() {
    let mut db = MockDatabase::new();
    let word = create_test_word("test");
    db.insert_word(&word);

    db.update_word_status(&word.id, WordStatus::Skipped);

    let schedule = Schedule::new(word.id.clone());
    db.insert_schedule(&schedule);

    let next = db.get_next_review_word();
    assert!(next.is_none());
}

// ========== further checks ==========
#[test]
fn insert_replaces_word_with_same_id() {
    let mut db = MockDatabase::new();
    let mut word = create_test_word("first");
    db.insert_word(&word);
    word.word = "second".to_string();
    db.insert_word(&word);
    assert_eq!(db.get_word_count(), 1);
    assert_eq!(db.get_word(&word.id).unwrap().word, "second");
}

#[test]
fn delete_keeps_other_words_and_logs() {
    let mut db = MockDatabase::new();
    let a = create_test_word("a");
    let b = create_test_word("b");
    db.insert_word(&a);
    db.insert_word(&b);
    db.insert_schedule(&Schedule::new(a.id.clone()));
    db.insert_schedule(&Schedule::new(b.id.clone()));
    db.insert_review_log(&ReviewLog::new(a.id.clone(), true, "x"));
    db.insert_review_log(&ReviewLog::new(b.id.clone(), false, "y"));
    db.delete_word(&a.id);
    assert!(db.get_word(&a.id).is_none());
    assert!(db.get_schedule(&a.id).is_none());
    assert!(db.get_review_logs(&a.id).is_empty());
    assert_eq!(db.get_word(&b.id).unwrap().word, "b");
    assert!(db.get_schedule(&b.id).is_some());
    assert_eq!(db.get_review_logs(&b.id).len(), 1);
    assert_eq!(db.get_review_stats(), (1, 0));
}

#[test]
fn next_review_at_a_given_time() {
    let mut db = MockDatabase::new();
    let a = create_test_word("a");
    let b = create_test_word("b");
    db.insert_word(&a);
    db.insert_word(&b);
    let mut sa = Schedule::new(a.id.clone());
    sa.next_review = 500;
    let mut sb = Schedule::new(b.id.clone());
    sb.next_review = 200;
    db.insert_schedule(&sa);
    db.insert_schedule(&sb);
    assert!(db.get_next_review_word_at(100).is_none());
    assert_eq!(db.get_next_review_word_at(300).unwrap().word, "b");
    assert_eq!(db.get_next_review_word_at(600).unwrap().word, "b");
    db.update_word_status(&b.id, WordStatus::Skipped);
    assert_eq!(db.get_next_review_word_at(600).unwrap().word, "a");
}

#[test]
fn schedule_without_word_is_not_due() {
    let mut db = MockDatabase::new();
    let mut s = Schedule::new("missing".to_string());
    s.next_review = 0;
    db.insert_schedule(&s);
    assert!(db.get_next_review_word_at(1_000).is_none());
}

#[test]
fn update_status_of_missing_word_changes_nothing() {
    let mut db = MockDatabase::new();
    db.update_word_status("nothing", WordStatus::Mastered);
    assert_eq!(db.get_word_count(), 0);
    assert!(db.get_word("nothing").is_none());
}

#[test]
fn word_count_follows_inserts_and_deletes() {
    let mut db = MockDatabase::new();
    let a = create_test_word("a");
    let b = create_test_word("b");
    db.insert_word(&a);
    assert_eq!(db.get_word_count(), 1);
    db.insert_word(&b);
    assert_eq!(db.get_word_count(), 2);
    db.insert_word(&a);
    assert_eq!(db.get_word_count(), 2);
    db.delete_word("missing");
    assert_eq!(db.get_word_count(), 2);
    db.delete_word(&a.id);
    assert_eq!(db.get_word_count(), 1);
    db.delete_word(&a.id);
    assert_eq!(db.get_word_count(), 1);
    db.delete_word(&b.id);
    assert_eq!(db.get_word_count(), 0);
}

#[test]
fn cloned_store_is_independent() {
    let mut db = MockDatabase::new();
    let a = create_test_word("a");
    db.insert_word(&a);
    db.insert_schedule(&Schedule::new(a.id.clone()));
    db.insert_review_log(&ReviewLog::new(a.id.clone(), true, "x"));
    let copy = db.clone();
    db.delete_word(&a.id);
    assert_eq!(db.get_word_count(), 0);
    assert_eq!(copy.get_word_count(), 1);
    assert_eq!(copy.get_word(&a.id).unwrap().word, "a");
    assert!(copy.get_schedule(&a.id).is_some());
    assert_eq!(copy.get_review_stats(), (1, 1));
}
