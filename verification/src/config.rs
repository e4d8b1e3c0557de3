//! The book description as the generator consumes it. The surrounding
//! program parses the description file and hands these plain values over.

use vstd::prelude::*;

verus! {

/// Book metadata, supplied by the caller (typically parsed from a book
/// description file by the surrounding program).
pub struct MetaConfig {
    pub title: String,
    pub subtitle: Option<String>,
    pub authors: Vec<String>,
}

/// Where the book's content is rooted. Reserved for content discovery; the
/// generation logic does not consult it.
pub struct ContentConfig {
    pub root: String,
}

/// A whole book description: metadata plus the content root.
pub struct BookConfig {
    pub meta: MetaConfig,
    pub content: ContentConfig,
}

} // verus!
