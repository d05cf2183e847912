//! A personal schedule book: appointments on a naive time line, kept free of
//! overlaps, with the operations of a small command-line calendar.
//!
//! - [`time`]: timestamps and their order.
//! - [`schedule`]: one appointment, and when two of them clash.
//! - [`calendar`]: the ordered collection, entering and deleting.
//! - [`command`]: the `list`, `add` and `delete` commands and what they print.
//! - [`error`]: the errors of the commands and their messages.
//! - [`text`]: decimal notation.

pub mod calendar;
pub mod command;
pub mod error;
pub mod schedule;
pub mod text;
pub mod time;
