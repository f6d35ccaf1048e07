//! Resumable synchronization engine for an append-only ledger database.
//!
//! The crate plans and checks an incremental restore driven by a published
//! manifest of hash-identified diffs, and provides the decision logic of a
//! byte-range resumable download: status classification, retry budgeting,
//! progress accounting and streaming checksum verification. All I/O is left
//! to the caller; every function here is verified.

pub mod checksum;
pub mod download;
pub mod errors;
pub mod hexfmt;
pub mod manifest;
pub mod progress;
pub mod restore;
pub mod strutil;
pub mod utils;

pub use strutil::strip_trailing_newline;
