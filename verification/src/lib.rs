//! Scans a maildir-style mailbox for email attachments whose names end
//! with an allow-listed suffix, optionally keeps only messages dated on
//! or after a cutoff day, and either lists the matching attachment names
//! or plans collision-safe sanitized output files for them.
//!
//! The mailbox reaches the library as plain per-folder message byte
//! buffers; reading it from disk and writing the planned files belong to
//! the surrounding program.

pub mod date;
pub mod extractor;
pub mod message;
pub mod sanitize;
