//! Fetch targets and menu pages of a campus dining site.
//!
//! The crate enumerates the pages to fetch for a window of dates, reads the
//! markup of a menu page and of an item's nutrition page into a strict data
//! model, and projects that model into structured documents and display text.
//! Nothing here performs I/O: pages come in as text, documents go out as values.

pub mod catalog;
pub mod date;
pub mod document;
pub mod error;
pub mod model;
pub mod parse;
pub mod reader;
pub mod request;
pub mod run;
pub mod text;
