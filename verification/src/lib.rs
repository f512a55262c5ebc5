//! Turns a paginated web publication (a "book" split across linked HTML
//! chapter pages) into one merged, bookmarked document.
//!
//! The verified core covers the crawl-cache-extract-assemble pipeline:
//! deriving cache locations from URLs and deciding between cache hits and
//! network fetches, stripping site chrome from a parsed chapter page,
//! discovering the ordered chapter list of a book's index page, deriving
//! safe chapter file names, reading page counts out of document metadata,
//! and computing the cumulative page offsets of the final bookmark tree.
//! Network, disk, and external processes live outside the library and only
//! hand plain values in and out.

use vstd::prelude::*;

pub mod bookmarks;
pub mod chapters;
pub mod discover;
pub mod dom;
pub mod extract;
pub mod fetcher;
pub mod pipeline;
pub mod text;

verus! {

/// The failure taxonomy of the pipeline. Every fallible library function
/// says in its contract exactly which variant it returns and when.
#[derive(Clone, Copy, Debug, PartialEq, Eq, Structural)]
pub enum PipelineError {
    /// Network or cache I/O went wrong: an unusable URL, or a cache entry
    /// that would have to be written twice.
    Fetch,
    /// A fetched page lacks the structural marker the extractor needs.
    Parse,
    /// Rendering a chapter failed, or its metadata held no readable
    /// page count.
    Render,
    /// Merging the chapter documents or writing the bookmarks failed.
    Merge,
}

impl PipelineError {
    /// A short human-readable description of the failure.
    pub fn describe(&self) -> (r: &'static str)
        ensures
            self is Fetch ==> r@ == "fetch or cache failure"@,
            self is Parse ==> r@ == "content marker not found"@,
            self is Render ==> r@ == "render or page-count failure"@,
            self is Merge ==> r@ == "merge or bookmark failure"@,
    {
        match self {
            PipelineError::Fetch => "fetch or cache failure",
            PipelineError::Parse => "content marker not found",
            PipelineError::Render => "render or page-count failure",
            PipelineError::Merge => "merge or bookmark failure",
        }
    }
}

} // verus!
