//! The page model and the storage-level error type shared by every backend.

use vstd::prelude::*;
use vstd::string::*;

pub mod fs;

verus! {

/// A storage-level failure: either the requested page does not exist, or the
/// backend ran into a fault of its own (I/O, a bad path, a failed walk step).
#[derive(Debug, PartialEq)]
pub enum Error {
    /// The given page name could not be found.
    PageNotFound(String),
    /// A backend-specific fault, carried as the filesystem backend's error.
    ImplError(crate::storage::fs::Error),
}

/// Metadata is the data that is passed into the page, along with the actual
/// page content.
#[derive(Debug, PartialEq)]
pub struct Metadata {
    pub title: Option<String>,
    pub template: String,
}

/// A page, visible at a URL.
#[derive(Debug, PartialEq)]
pub struct Page {
    /// The identifier for this page. It can contain a path separator if the
    /// page is grouped under another, eg `faq/long-answer`.
    pub name: String,
    /// The markdown source of the page.
    pub source: String,
    /// The metadata for the page, for data like the template.
    pub metadata: Metadata,
}

/// The template a page falls back to when its metadata names none.
pub fn default_metadata_template() -> (t: String)
    ensures
        t@ == "page"@,
{
    String::from_str("page")
}

} // verus!
