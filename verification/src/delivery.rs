//! Delivering a turn of work to a web-model conversation in a browser, at most once.

pub mod attempt;
pub mod image;
pub mod laws;
pub mod once;
pub mod outcomes;
pub mod plan;
pub mod prompt;
pub mod recovery;
pub mod route;
pub mod signals;
pub mod visit;
pub mod words;
