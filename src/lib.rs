//! Checks the subject line of a git commit message against the
//! conventional-commit shape and a length limit.

pub mod grammar;
pub mod laws;
pub mod message;
pub mod text;
pub mod validate;

pub use message::subject_line;
pub use validate::validate_subject;
