use confluence_updater::error::Error;

#[test]
fn message_gives_the_text_of_each_error() {
    assert_eq!(
        Error::PageHeaderMissing.message(),
        "No h1 header found on top of page. Add a header or use the overrideTitle configuration"
    );
    assert_eq!(
        Error::HttpsProtocolSchemeMissing("wiki.example".to_string()).message(),
        "HTTPS protocol scheme missing from FQDN: [wiki.example]"
    );
    assert_eq!(
        Error::InvalidFilePath("a.md".to_string()).message(),
        "File path is invalid: [a.md]"
    );
    assert_eq!(
        Error::CurrentUserEmailMissing.message(),
        "Failed to get the local part of the current user email."
    );
    assert_eq!(Error::ImageLinkMissing.message(), "The link/path for image is missing");
    assert_eq!(
        Error::LinkIdMissing("pid:x".to_string()).message(),
        "A confluence page ID annotation was found on a link, but could not be parsed [pid:x]"
    );
}
