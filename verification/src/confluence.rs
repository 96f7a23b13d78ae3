//! What is said to the wiki and what it answers.

pub mod client;
pub mod page;
pub mod publish;
pub mod restriction;

use crate::page::Page;
use vstd::prelude::*;

verus! {

/// A wiki, the account that publishes there, and the pages to publish, each
/// configured in full. The value cannot be printed, for the token in it.
pub struct Confluence {
    /// The name of the account.
    pub user: String,
    /// The token of the account.
    pub secret: String,
    /// The host of the wiki.
    pub fqdn: String,
    /// The pages.
    pub pages: Vec<Page>,
}

/// What the wiki says of content when only its version is asked for.
#[derive(Debug, Clone)]
pub struct VersionRoot {
    /// The current version.
    pub version: Version,
}

/// A version of content.
#[derive(Debug, Clone)]
pub struct Version {
    /// Its number.
    pub number: u64,
}

} // verus!
