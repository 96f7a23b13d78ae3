use confluence_updater::config::{
    clone_text, clone_texts, resolve_title, Config, ConfigFile, Page, PageConfig, PageInput,
};
use confluence_updater::error::Error;
use confluence_updater::fingerprint::hash_str;
use confluence_updater::render_markdown::PageAddress;

fn page_config(file_path: &str) -> PageConfig {
    PageConfig {
        file_path: file_path.to_string(),
        page_id: "100".to_string(),
        override_title: None,
        labels: None,
        read_only: None,
        superscript_header: None,
    }
}

fn input(source: &str) -> PageInput {
    PageInput { source: source.to_string(), existing: Vec::new(), found: Vec::new() }
}

fn strings(list: &[&str]) -> Vec<String> {
    list.iter().map(|s| s.to_string()).collect()
}

#[test]
fn resolve_title_prefers_the_configured_title() {
    let configured = Some("Configured".to_string());
    let heading = Some("Heading".to_string());
    assert_eq!(resolve_title(&configured, &heading).ok(), Some("Configured".to_string()));
    assert_eq!(resolve_title(&configured, &None).ok(), Some("Configured".to_string()));
    assert_eq!(resolve_title(&None, &heading).ok(), Some("Heading".to_string()));
    assert!(matches!(resolve_title(&None, &None), Err(Error::PageHeaderMissing)));
}

#[test]
fn merged_takes_the_settings_of_the_run_where_the_page_has_none() {
    let bare = page_config("a.md");
    let merged = bare.merged(Some(true), &Some("global".to_string()), &strings(&["cli", "Bad One"]));
    assert_eq!(merged.file_path, "a.md");
    assert_eq!(merged.page_id, "100");
    assert_eq!(merged.override_title, None);
    assert_eq!(merged.labels, Some(strings(&["cli"])));
    assert_eq!(merged.read_only, Some(true));
    assert_eq!(merged.superscript_header, Some("global".to_string()));

    let own = PageConfig {
        override_title: Some("T".to_string()),
        labels: Some(strings(&["own", "UPPER"])),
        read_only: Some(false),
        superscript_header: Some("mine".to_string()),
        ..page_config("b.md")
    };
    let merged = own.merged(Some(true), &Some("global".to_string()), &strings(&["cli"]));
    assert_eq!(merged.override_title, Some("T".to_string()));
    assert_eq!(merged.labels, Some(strings(&["own", "cli"])));
    assert_eq!(merged.read_only, Some(false));
    assert_eq!(merged.superscript_header, Some("mine".to_string()));

    let untouched = page_config("c.md").merged(None, &None, &Vec::new());
    assert_eq!(untouched.read_only, None);
    assert_eq!(untouched.superscript_header, None);
    assert_eq!(untouched.labels, Some(Vec::new()));
}

#[test]
fn page_configs_merges_every_page() {
    let file = ConfigFile::new(
        vec![page_config("a.md"), PageConfig { read_only: Some(false), ..page_config("b.md") }],
        Some(true),
        None,
    );
    let merged = file.page_configs(&strings(&["all"]));
    assert_eq!(merged.len(), 2);
    assert_eq!(merged[0].read_only, Some(true));
    assert_eq!(merged[1].read_only, Some(false));
    assert_eq!(merged[0].labels, Some(strings(&["all"])));
}

#[test]
fn page_is_built_from_its_source() {
    let config = PageConfig {
        labels: Some(strings(&["docs"])),
        read_only: Some(true),
        superscript_header: Some("v2".to_string()),
        ..page_config("docs/page.md")
    };
    let source = "# Title\n\n[x](u \"pid:3\")\n";
    let answers = vec![PageAddress { id: 3, url: Some("https://wiki.example/3".to_string()) }];
    let page = Page::try_from_async(config, source, &Vec::new(), &answers).unwrap();
    assert_eq!(page.file_path, "docs/page.md");
    assert_eq!(page.page_id, "100");
    assert_eq!(page.title, "Title");
    assert_eq!(page.labels, strings(&["docs"]));
    assert_eq!(page.read_only, Some(true));
    assert_eq!(page.superscript_header, Some("v2".to_string()));
    assert_eq!(
        page.html.html,
        "<p><sup>v2</sup></p>\n<p><a href=\"https://wiki.example/3\" title=\"pid:3\">x</a></p>\n"
    );
    assert_eq!(page.page_sha, hash_str(&format!("{source}Titletruev2")));
}

#[test]
fn configured_title_wins_over_the_heading() {
    let config = PageConfig { override_title: Some("Configured".to_string()), ..page_config("a.md") };
    let page = Page::try_from_async(config.clone(), "# Heading\n\nbody\n", &Vec::new(), &Vec::new())
        .unwrap();
    assert_eq!(page.title, "Configured");
    assert_eq!(page.html.page_header, Some("Heading".to_string()));
    assert_eq!(page.html.html, "<p>body</p>\n");
    let page = Page::try_from_async(config, "no heading\n", &Vec::new(), &Vec::new()).unwrap();
    assert_eq!(page.title, "Configured");
}

#[test]
fn page_without_any_title_is_refused() {
    let built = Page::try_from_async(page_config("a.md"), "no heading\n", &Vec::new(), &Vec::new());
    assert!(matches!(built, Err(Error::PageHeaderMissing)));
}

#[test]
fn run_is_built_page_by_page() {
    let file = ConfigFile::new(
        vec![page_config("a.md"), page_config("b.md")],
        None,
        Some("top".to_string()),
    );
    let inputs = vec![input("# A\n\none\n"), input("# B\n\ntwo\n")];
    let config = Config::try_from_async(
        "me".to_string(),
        "SECRET-REDACTED".to_string(),
        "https://wiki.example".to_string(),
        &file,
        &strings(&["cli"]),
        &inputs,
    )
    .ok()
    .unwrap();
    assert_eq!(config.user, "me");
    assert_eq!(config.secret, "SECRET-REDACTED");
    assert_eq!(config.fqdn, "https://wiki.example");
    assert_eq!(config.pages.len(), 2);
    assert_eq!(config.pages[0].title, "A");
    assert_eq!(config.pages[1].title, "B");
    assert_eq!(config.pages[1].labels, strings(&["cli"]));
    assert_eq!(config.pages[1].read_only, None);
    assert_eq!(config.pages[1].html.html, "<p><sup>top</sup></p>\n<p>two</p>\n");
}

#[test]
fn run_ends_at_the_first_page_that_cannot_be_built() {
    let file = ConfigFile::new(
        vec![page_config("a.md"), page_config("b.md"), page_config("c.md")],
        None,
        None,
    );
    let build = |inputs: &Vec<PageInput>| {
        Config::try_from_async(
            "me".to_string(),
            "s".to_string(),
            "https://wiki.example".to_string(),
            &file,
            &Vec::new(),
            inputs,
        )
    };
    let failure = build(&vec![input("# A\n"), input("untitled\n"), input("also untitled\n")])
        .err()
        .unwrap();
    assert_eq!(failure.index, 1);
    assert!(matches!(failure.error, Error::PageHeaderMissing));
    let failure = build(&vec![input("# A\n"), input("# B\n")]).err().unwrap();
    assert_eq!(failure.index, 2);
    assert!(matches!(failure.error, Error::InvalidFilePath(path) if path == "c.md"));
    let failure = build(&Vec::new()).err().unwrap();
    assert_eq!(failure.index, 0);
    assert!(matches!(failure.error, Error::InvalidFilePath(path) if path == "a.md"));
}

#[test]
fn copies_hold_the_same_text() {
    assert_eq!(clone_text(&Some("x".to_string())), Some("x".to_string()));
    assert_eq!(clone_text(&None), None);
    assert_eq!(clone_texts(&strings(&["a", "b"])), strings(&["a", "b"]));
}
