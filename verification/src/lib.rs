//! A single-owner-per-record message store.
//!
//! Each identity may hold at most one active record at a time. Records are
//! kept in an append-only sequence: deletion only stamps a record with a
//! tombstone timestamp, so the full history stays available to the store's
//! administrator. Every operation validates its inputs before the single
//! mutating step, so a failed call leaves the store untouched.
//!
//! The caller's identity and the current time are supplied by the host
//! environment as plain arguments to every operation; the library itself
//! performs no I/O.

pub mod record;
pub mod store;
pub mod laws;

pub use record::AccountId;
pub use record::CrudError;
pub use record::Message;
pub use record::Timestamp;
pub use store::CrudContract;
