//! Extracts a checklist of labelled links from the list that follows the
//! "Things to check" heading of a markdown document.

pub mod tree;
pub mod extract;
pub mod parse;
pub mod laws;
