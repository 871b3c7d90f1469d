# word_trainer

The core of a vocabulary trainer built on a simplified SM-2 spaced-repetition
schedule, written in Verus and verified.

- `src/` is the verified library: word and schedule records, the SM-2 review
  rules (ease factors in hundredths), an in-memory store with the review flow's
  operations, answer checking, the Youdao reply handling and request signing,
  and the reminder settings. Each public function states its behaviour in its
  contract; the `lemma_*` proof functions state the laws that tie them together.
- `tests/` exercises the library on concrete values.
- `app/` is ordinary Rust around the library: SQLite storage, the commands of
  the user interface, the HTTP client for the dictionary service and the
  reminder thread, with serializable copies of the records.
