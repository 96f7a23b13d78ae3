//! Pages that are configured in full: with their title and the type of
//! their content.

use vstd::prelude::*;

verus! {

/// The pages that a configuration lists in full.
#[derive(Debug, Clone)]
pub struct Config {
    /// The pages.
    pub content: Vec<Page>,
}

/// A page that is configured in full.
#[derive(Debug, Clone)]
pub struct Page {
    /// Where the Markdown source lies.
    pub file_path: String,
    /// The title of the page.
    pub title: String,
    /// The identifier of the page in the wiki.
    pub page_id: String,
    /// The type of the content, as the wiki names it.
    pub content_type: String,
    /// The labels of the page.
    pub labels: Vec<String>,
}

} // verus!
