//! Converts Markdown documents into the storage format of a Confluence wiki
//! and decides, page by page, which calls publishing them takes.
//!
//! The library reads no file and makes no call. A program hands it the text
//! of each document and what it looked up for it, and performs the calls
//! that the library names.
//!
//! - [`document`] holds the tree of one document, [`markdown`] the values of
//!   its nodes and the calls into `comrak`.
//! - [`render_markdown`] rewrites a document into the markup of a page;
//!   [`title`] states where the heading of a page goes.
//! - [`fingerprint`] computes the digest by which a change of a page is
//!   detected.
//! - [`config`] builds the pages of a run from what is configured.
//! - [`confluence`] holds what is sent to the wiki and what it answers, and
//!   the order of the calls that publish a page.
//! - [`content_payload`] builds the body of an update from a [`page`] that
//!   is configured in full and from markup and labels that the caller made.
//! - [`text`], [`paths`] and [`args`] are helpers on strings, on paths and
//!   on command-line values; [`error`] lists what can go wrong.

pub mod args;
pub mod config;
pub mod confluence;
pub mod content_payload;
pub mod document;
pub mod error;
pub mod fingerprint;
pub mod markdown;
pub mod page;
pub mod paths;
pub mod render_markdown;
pub mod text;
pub mod title;

use crate::content_payload::{Body, Metadata, Version};
use crate::page::Page;
use vstd::prelude::*;

verus! {

/// The body of an update whose title, type and status are borrowed from
/// where they are configured.
#[derive(Debug, Clone)]
pub struct UpdatePayload<'a> {
    /// The title of the content.
    pub title: &'a str,
    /// The type of the content.
    pub type_field: &'a str,
    /// The state of the content.
    pub status: &'a str,
    /// The version that the update makes.
    pub version: Version,
    /// The text of the content.
    pub body: Body,
    /// What is attached to the content besides its text.
    pub metadata: Metadata,
}

/// The pages that a configuration lists in full.
#[derive(Debug, Clone)]
pub struct Pages {
    /// The pages.
    pub content: Vec<Page>,
}

/// A wiki, the account that publishes there, and the pages that a
/// configuration lists in full. The value cannot be printed, for the token
/// in it.
pub struct Confluence {
    /// The name of the account.
    pub user: String,
    /// The token of the account.
    pub secret: String,
    /// The host of the wiki.
    pub fqdn: String,
    /// The pages.
    pub pages: Pages,
}

} // verus!
