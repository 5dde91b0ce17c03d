pub mod checkins;
pub mod dates;
pub mod migrate;
pub mod model;
pub mod notes;
pub mod recurrence;
pub mod rollover;
pub mod seqs;
pub mod store;
pub mod tags;
pub mod tasks;
