//! A paginated, case-insensitive line-search-and-render engine for text
//! extracted from PDF files: pages are split on the form-feed marker, each
//! page is scanned line by line for pattern matches, and every matched line
//! is rendered as a stream of styled segments, optionally shortened to a
//! context window around its matches.

pub mod config;
pub mod engine;
pub mod errors;
pub mod pages;
pub mod render;
pub mod settings;
pub mod snippet;
pub mod pattern;
pub mod utils;

use vstd::prelude::*;

verus! {

/// The page-break marker: form feed (U+000C) separates pages in extracted text.
pub const PAGE_BREAK: u8 = 12;

/// The line separator within a page.
pub const LINE_BREAK: u8 = 10;

} // verus!
