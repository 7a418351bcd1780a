//! Constraint wrappers. Each wraps one account value, adds one rule checked
//! when it is built by `try_from_validated`, and hands the accessor interface
//! through to the value it wraps, so wrappers nest freely.

pub mod executable;
pub mod has_one;
pub mod owned;
pub mod seeded;
pub mod writable;
