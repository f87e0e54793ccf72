//! A bullet journal kept in migrations: bullets carry a priority and a state,
//! and a migration opens a new period into which the open, non-safe bullets
//! move.
pub mod listing;
pub mod storage;
pub mod text;
