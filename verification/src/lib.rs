//! A minimal ballot state machine over a deterministically addressed
//! key-value store.
//!
//! Every record (a poll, a candidate, a vote receipt) lives at an address
//! computed by a pure function of stable identifiers, never behind an index.
//! Three transitions create and mutate those records: `initialize_poll`,
//! `initialize_candidate` and `vote`.

pub mod address;
pub mod bytes;
pub mod records;
pub mod store;
pub mod transitions;
