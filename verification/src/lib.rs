//! The verified core of a reading-time tracking chat bot: the tables it keeps
//! (books, chapters, reading records, reminders, users), the operations on them,
//! and the decisions the bot takes for each command it receives.

pub mod models;
pub mod db;
pub mod text;
pub mod bot;
pub mod laws;
