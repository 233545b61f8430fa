//! Session engine for a terminal typing trainer: tasks are typed character
//! by character, correct guesses advance the task and the score, incorrect
//! guesses cost the streak, and hints can be requested per character.

pub mod casing;
pub mod data;
pub mod load;
pub mod queue;
pub mod state;
pub mod user;
pub mod words;
