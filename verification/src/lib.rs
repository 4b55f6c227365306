//! Plain-text extraction from parsed HTML, approximating the browser
//! `innerText` behaviour for simple textual documents: a single pass over the
//! document-order traversal of a tree classifies each node as a literal text
//! run or a line-break marker, merges adjacent markers by taking the maximum
//! newline count, and drops break groups at the boundaries of the output.

pub mod blocks;
pub mod extract;
pub mod fold;
pub mod items;
pub mod laws;
pub mod text;
