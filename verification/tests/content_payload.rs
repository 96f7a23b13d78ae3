use confluence_updater::content_payload::{ContentPayload, Label};
use confluence_updater::confluence::{Confluence, VersionRoot};
use confluence_updater::page::{Config, Page};
use confluence_updater::{Pages, UpdatePayload};

fn page() -> Page {
    Page {
        file_path: "docs/page.md".to_string(),
        title: "The Title".to_string(),
        page_id: "100".to_string(),
        content_type: "blogpost".to_string(),
        labels: vec!["docs".to_string()],
    }
}

#[test]
fn new_builds_the_payload_from_what_is_given() {
    let config = Config { content: vec![page()] };
    let labels = vec!["docs".to_string(), "As Given".to_string(), "sha:0a1b2c3d".to_string()];
    let payload = ContentPayload::new(&config.content[0], 8, &labels, "<p>body</p>");
    assert_eq!(payload.title, "The Title");
    assert_eq!(payload.type_field, "page");
    assert_eq!(payload.status, "current");
    assert_eq!(payload.version.number, 8);
    assert_eq!(payload.body.storage.value, "<p>body</p>");
    assert_eq!(payload.body.storage.representation, "storage");
    let names: Vec<&str> = payload.metadata.labels.iter().map(|l| l.name.as_str()).collect();
    assert_eq!(names, vec!["docs", "As Given", "sha:0a1b2c3d"]);
    let bare = ContentPayload::new(&page(), 1, &Vec::new(), "");
    assert!(bare.metadata.labels.is_empty());
    assert_eq!(bare.body.storage.value, "");
}

#[test]
fn label_takes_the_text_of_a_string() {
    assert_eq!(Label::from(&"docs".to_string()).name, "docs");
}

#[test]
fn plain_types_hold_what_they_are_given() {
    let payload = ContentPayload::new(&page(), 3, &vec!["docs".to_string()], "<p>x</p>");
    let title = "Borrowed".to_string();
    let update = UpdatePayload {
        title: &title,
        type_field: "page",
        status: "current",
        version: payload.version.clone(),
        body: payload.body.clone(),
        metadata: payload.metadata.clone(),
    };
    assert_eq!(update.title, "Borrowed");
    assert_eq!(update.version.number, 3);
    assert_eq!(update.body.storage.value, "<p>x</p>");
    assert_eq!(update.metadata.labels[0].name, "docs");
    let pages = Pages { content: vec![page()] };
    let run = confluence_updater::Confluence {
        user: "me".to_string(),
        secret: "SECRET-REDACTED".to_string(),
        fqdn: "https://wiki.example".to_string(),
        pages: pages.clone(),
    };
    assert_eq!(run.pages.content.len(), 1);
    let listed = Confluence {
        user: run.user,
        secret: run.secret,
        fqdn: run.fqdn,
        pages: pages.content,
    };
    assert_eq!(listed.pages[0].page_id, "100");
    let root: VersionRoot = VersionRoot {
        version: confluence_updater::confluence::Version { number: 4 },
    };
    assert_eq!(root.version.number, 4);
}
