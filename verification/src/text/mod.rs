//! Text as sequences of characters: lines, joins, searches, numerals and byte
//! lengths.

pub mod bytes;
pub mod chars;
pub mod filter;
pub mod lines;
pub mod number;
pub mod search;
