use confluence_updater::confluence::client::{
    attachment_path, author_label, content_path, current_user_path, labelled_page_path,
    page_path, restriction_path, sanitize_char,
    ConfluenceClient, LabelResult, Labels, Links, PageResponse, Version,
};
use confluence_updater::confluence::page::valid_label;
use confluence_updater::error::Error;

fn response(version: u64, labels: Option<&[&str]>) -> PageResponse {
    PageResponse {
        version: Version { number: version },
        labels: labels.map(|names| Labels {
            results: names.iter().map(|name| LabelResult { name: name.to_string() }).collect(),
        }),
        links: Links { base: "https://wiki.example".to_string(), webui: "/spaces/X/pages/1".to_string() },
    }
}

#[test]
fn client_needs_https() {
    let client = ConfluenceClient::new("https://wiki.example", "me", "SECRET-REDACTED").ok().unwrap();
    assert_eq!(client.get_base_url(), "https://wiki.example");
    assert_eq!(client.get_user(), "me");
    assert_eq!(client.get_secret(), "SECRET-REDACTED");
    assert_eq!(client.request("/wiki/x"), "https://wiki.example/wiki/x");
    assert!(matches!(
        ConfluenceClient::new("http://wiki.example", "me", "s"),
        Err(Error::HttpsProtocolSchemeMissing(host)) if host == "http://wiki.example"
    ));
    assert!(matches!(
        ConfluenceClient::new("wiki.example", "me", "s"),
        Err(Error::HttpsProtocolSchemeMissing(_))
    ));
}

#[test]
fn paths_name_the_page() {
    assert_eq!(page_path("42"), "/wiki/api/v2/pages/42");
    assert_eq!(labelled_page_path("42"), "/wiki/api/v2/pages/42?include-labels=true");
    assert_eq!(content_path("42"), "/wiki/rest/api/content/42");
    assert_eq!(attachment_path("42"), "/wiki/rest/api/content/42/child/attachment");
    assert_eq!(restriction_path("42"), "/wiki/rest/api/content/42/restriction");
    assert_eq!(current_user_path(), "/wiki/rest/api/user/current");
}

#[test]
fn page_link_is_base_and_path() {
    assert_eq!(ConfluenceClient::get_page_link(&response(1, None)), "https://wiki.example/spaces/X/pages/1");
    assert_eq!(ConfluenceClient::get_page_version(&response(17, None)), 17);
}

#[test]
fn page_sha_is_read_from_the_labels() {
    assert_eq!(ConfluenceClient::get_page_sha(&response(1, None)), None);
    assert_eq!(ConfluenceClient::get_page_sha(&response(1, Some(&[]))), None);
    assert_eq!(ConfluenceClient::get_page_sha(&response(1, Some(&["docs", "pa-token/me"]))), None);
    assert_eq!(
        ConfluenceClient::get_page_sha(&response(1, Some(&["docs", "page-sha/0a1b2c3d", "x"]))),
        Some("0a1b2c3d".to_string())
    );
    assert_eq!(ConfluenceClient::get_page_sha(&response(1, Some(&["page-sha/"]))), None);
    assert_eq!(
        ConfluenceClient::get_page_sha(&response(
            1,
            Some(&["xpage-sha/bb", "page-sha/", "page-sha/aaaa1111", "page-sha/bbbb2222"])
        )),
        Some("aaaa1111".to_string())
    );
    assert_eq!(
        ConfluenceClient::get_page_sha(&response(1, Some(&["page-sha/ab/page-sha/cd"]))),
        Some("ab/page-sha/cd".to_string())
    );
    assert_eq!(ConfluenceClient::get_label_sha("page-sha/0a1b2c3d"), Some("0a1b2c3d".to_string()));
    assert_eq!(ConfluenceClient::get_label_sha("page-sha/"), None);
    assert_eq!(ConfluenceClient::get_label_sha("sha/0a1b2c3d"), None);
}

#[test]
fn author_label_is_the_local_part_made_safe() {
    assert_eq!(author_label("jane.doe@example.org").ok(), Some("pa-token/jane-doe".to_string()));
    assert_eq!(author_label("a@b@c").ok(), Some("pa-token/a".to_string()));
    assert_eq!(author_label("J.Doe+x_1@example.org").ok(), Some("pa-token/j-doe+x_1".to_string()));
    assert_eq!(author_label("@example.org").ok(), Some("pa-token/".to_string()));
    assert!(matches!(author_label("no-at-sign"), Err(Error::CurrentUserEmailMissing)));
    for email in ["jane.doe@x", "Ünï Code@x", "a b\tc@x", "UPPER@x", "@"] {
        assert!(valid_label(&author_label(email).unwrap()), "{email:?}");
    }
}

#[test]
fn sanitize_char_keeps_what_a_label_holds() {
    assert_eq!(sanitize_char('a'), 'a');
    assert_eq!(sanitize_char('+'), '+');
    assert_eq!(sanitize_char('.'), '-');
    assert_eq!(sanitize_char('Q'), 'q');
    assert_eq!(sanitize_char('é'), '-');
    assert_eq!(sanitize_char(' '), '-');
}
