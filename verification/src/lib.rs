//! A verified registry of managed company PCs.
//!
//! The directory keeps one record per machine, deduplicates the owning
//! person by email address, guards each machine's mutable state behind an
//! exclusive maintenance lock, and routes mail to the first powered-on
//! machine of a recipient.

pub mod pc;
pub mod pc_directory;
pub mod person;
