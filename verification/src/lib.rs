//! Descriptive metadata of a media library: one creation date and a list of
//! free-text tags per file, and a searchable vocabulary of tags over a
//! collection of files.
//!
//! The library does no input or output. A date is read from text (`dates`),
//! a record (`file`) is read and written through a conversation with
//! whoever holds the file's metadata container (`session`, `store`), and the
//! vocabulary is built from records in memory (`tagcache`). `memory` runs
//! the conversations against a container held in memory. `calendar` and
//! `text` hold the calls whose results are taken on trust.

#![allow(unused_imports)]

pub mod calendar;
pub mod dates;
pub mod file;
pub mod memory;
pub mod session;
pub mod store;
pub mod tagcache;
pub mod text;
pub mod ui;
