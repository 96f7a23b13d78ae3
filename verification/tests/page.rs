use confluence_updater::config::Page;
use confluence_updater::confluence::page::{labels_from, ConfluencePage, Label};
use confluence_updater::render_markdown::HtmlPage;

fn page(labels: &[&str]) -> Page {
    Page {
        file_path: "docs/page.md".to_string(),
        page_id: "100".to_string(),
        title: "The Title".to_string(),
        labels: labels.iter().map(|l| l.to_string()).collect(),
        read_only: None,
        superscript_header: None,
        html: HtmlPage {
            image_paths: Vec::new(),
            page_header: None,
            html: "<p>body</p>\n".to_string(),
            warnings: Vec::new(),
        },
        page_sha: "0a1b2c3d".to_string(),
    }
}

fn names(body: &ConfluencePage) -> Vec<&str> {
    body.metadata.labels.iter().map(|label| label.name.as_str()).collect()
}

#[test]
fn new_builds_the_update_of_a_page() {
    let body = ConfluencePage::new(&page(&["docs", "Not Valid", "team/a"]), 7);
    assert_eq!(body.title, "The Title");
    assert_eq!(body.type_field, "page");
    assert_eq!(body.status, "current");
    assert_eq!(body.version.number, 7);
    assert_eq!(body.body.storage.value, "<p>body</p>\n");
    assert_eq!(body.body.storage.representation, "storage");
    assert_eq!(names(&body), vec!["docs", "team/a"]);
}

#[test]
fn add_labels_appends_as_given() {
    let body = ConfluencePage::new(&page(&["docs"]), 1)
        .add_labels(vec!["page-sha/0a1b2c3d".to_string(), "As Given".to_string()]);
    assert_eq!(names(&body), vec!["docs", "page-sha/0a1b2c3d", "As Given"]);
    assert_eq!(body.title, "The Title");
    assert_eq!(body.version.number, 1);
    let same = ConfluencePage::new(&page(&["docs"]), 1).add_labels(Vec::new());
    assert_eq!(names(&same), vec!["docs"]);
}

#[test]
fn labels_come_from_strings() {
    let label = Label::from("docs".to_string());
    assert_eq!(label.name, "docs");
    let labels = labels_from(vec!["a".to_string(), "b".to_string()]);
    assert_eq!(labels.iter().map(|l| l.name.as_str()).collect::<Vec<_>>(), vec!["a", "b"]);
}
