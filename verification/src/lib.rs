//! A filesystem index kept in SQLite, with glob and free-text search over
//! the recorded paths.

pub mod pattern;
pub mod record;
pub mod sql;
pub mod store;
pub mod engine;
