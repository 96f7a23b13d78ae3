//! What can stop a page from being published, other than the network.

use crate::text::bracketed;
use vstd::prelude::*;

verus! {

/// A failure of the library itself. Failures of the transport and of the
/// file system belong to the program that calls it.
#[derive(Debug, Clone)]
pub enum Error {
    /// The document begins with no level-1 heading and no title was
    /// configured.
    PageHeaderMissing,
    /// The host is not given with `https://` in front.
    HttpsProtocolSchemeMissing(String),
    /// The path names no regular file.
    InvalidFilePath(String),
    /// The email address of the current user has no `@`.
    CurrentUserEmailMissing,
    /// An image node holds no link.
    ImageLinkMissing,
    /// A link title begins like a page id but holds none.
    LinkIdMissing(String),
}

/// The text of an error.
pub open spec fn message_of(error: Error) -> Seq<char> {
    match error {
        Error::PageHeaderMissing =>
            "No h1 header found on top of page. Add a header or use the overrideTitle configuration"@,
        Error::HttpsProtocolSchemeMissing(fqdn) => "HTTPS protocol scheme missing from FQDN: ["@
            + fqdn@ + "]"@,
        Error::InvalidFilePath(path) => "File path is invalid: ["@ + path@ + "]"@,
        Error::CurrentUserEmailMissing =>
            "Failed to get the local part of the current user email."@,
        Error::ImageLinkMissing => "The link/path for image is missing"@,
        Error::LinkIdMissing(title) =>
            "A confluence page ID annotation was found on a link, but could not be parsed ["@
            + title@ + "]"@,
    }
}

impl Error {
    /// The text of the error, for a person to read.
    pub fn message(&self) -> (text: String)
        ensures
            text@ == message_of(*self),
    {
        match self {
            Error::PageHeaderMissing =>
                "No h1 header found on top of page. Add a header or use the overrideTitle configuration".to_owned(),
            Error::HttpsProtocolSchemeMissing(fqdn) => bracketed(
                "HTTPS protocol scheme missing from FQDN: [",
                fqdn.as_str(),
                "]",
            ),
            Error::InvalidFilePath(path) => bracketed("File path is invalid: [", path.as_str(), "]"),
            Error::CurrentUserEmailMissing =>
                "Failed to get the local part of the current user email.".to_owned(),
            Error::ImageLinkMissing => "The link/path for image is missing".to_owned(),
            Error::LinkIdMissing(title) => bracketed(
                "A confluence page ID annotation was found on a link, but could not be parsed [",
                title.as_str(),
                "]",
            ),
        }
    }
}

} // verus!
