//! Word trainer core: the SM-2 spaced-repetition schedule, the word and
//! review records, an in-memory store of them, answer checking, the
//! dictionary-lookup helpers and the reminder settings.

pub mod text;
pub mod clock;
pub mod keyed;
pub mod filters;
pub mod domain;
pub mod algorithm;
pub mod desktop_algorithm;
pub mod mock_db;
pub mod answer;
pub mod review;
pub mod reminder;
pub mod youdao;
pub mod queries;

pub use algorithm::Sm2Algorithm;
pub use domain::{Definition, ReviewLog, Schedule, Word, WordStatus};
pub use mock_db::MockDatabase;
