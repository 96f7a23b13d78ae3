use confluence_updater::config::PageConfig;
use confluence_updater::document::Document;
use confluence_updater::markdown::{Element, Syntax};
use confluence_updater::render_markdown::{
    candidate_image_paths, confluence_image_block, decide_image, escape_cdata,
    get_and_remove_h1_header, get_image_paths, get_page_title, link_targets, prepend_superscript, remote_url,
    replace_codeblock_with_html, replace_image_node_with_html, replace_node_link,
    render_markdown_file, replace_page_link, replace_with_codeblock_macro, resolve_image, Align,
    HtmlPage, ImageTarget, PageAddress, PageLink, Warning,
};
use confluence_updater::error::Error;

const SYNTAX: Syntax = Syntax { superscript: true, table: true };

fn config(file_path: &str, superscript: Option<&str>) -> PageConfig {
    PageConfig {
        file_path: file_path.to_string(),
        page_id: "100".to_string(),
        override_title: None,
        labels: None,
        read_only: None,
        superscript_header: superscript.map(|s| s.to_string()),
    }
}

fn image_markup(align: &str, file_name: &str) -> String {
    format!(
        "<p>\n                    <ac:image ac:align=\"{align}\">\n                        <ri:attachment ri:filename=\"{file_name}\" />\n                    </ac:image>\n                    </p>"
    )
}

fn code_markup(language: &str, body: &str) -> String {
    format!(
        "\n                    <ac:structured-macro ac:name=\"code\" ac:schema-version=\"1\">\n                    <ac:parameter ac:name=\"language\">{language}</ac:parameter>\n                    <ac:plain-text-body><![CDATA[{body}]]></ac:plain-text-body>\n                    </ac:structured-macro>\n                "
    )
}

fn raw(element: Element) -> String {
    match element {
        Element::Raw(markup) => markup,
        other => panic!("not raw: {other:?}"),
    }
}

fn found(id: u64, url: Option<&str>) -> PageAddress {
    PageAddress { id, url: url.map(|u| u.to_string()) }
}

#[test]
fn align_from_str_knows_three_words() {
    assert_eq!(Align::from_str("align-left"), Align::Left);
    assert_eq!(Align::from_str("align-right"), Align::Right);
    assert_eq!(Align::from_str("align-center"), Align::Center);
    assert_eq!(Align::from_str("a picture"), Align::Left);
    assert_eq!(Align::from_str(""), Align::Left);
    assert_eq!(Align::Left.as_str(), "left");
    assert_eq!(Align::Right.as_str(), "right");
    assert_eq!(Align::Center.as_str(), "center");
}

#[test]
fn confluence_image_block_names_the_file() {
    assert_eq!(
        raw(confluence_image_block("docs/img/a.png", Align::Center)),
        image_markup("center", "a.png")
    );
    assert_eq!(raw(confluence_image_block("..", Align::Left)), image_markup("left", ""));
}

#[test]
fn code_block_without_info_is_plaintext_and_verbatim() {
    assert_eq!(
        raw(replace_with_codeblock_macro("", "print(\"hi\")")),
        code_markup("plaintext", "print(\"hi\")")
    );
}

#[test]
fn code_block_keeps_leading_and_drops_trailing_white_space() {
    assert_eq!(
        raw(replace_with_codeblock_macro("rust", "  fn main() {}\n\n  ")),
        code_markup("rust", "  fn main() {}")
    );
}

#[test]
fn code_block_cannot_end_its_cdata_section() {
    assert_eq!(escape_cdata("a]]>b"), "a]]]]><![CDATA[>b");
    assert_eq!(escape_cdata("]]>]]>"), "]]]]><![CDATA[>]]]]><![CDATA[>");
    assert_eq!(escape_cdata("]] > ]>"), "]] > ]>");
    assert_eq!(escape_cdata(""), "");
    assert_eq!(
        raw(replace_with_codeblock_macro("xml", "<![CDATA[x]]>\n")),
        code_markup("xml", "<![CDATA[x]]]]><![CDATA[>")
    );
}

fn try_option_into_by_std(input: &str) -> Option<u64> {
    let parts: Vec<&str> = input.split(':').collect();
    if parts.len() != 2 || parts[0] != "pid" {
        return None;
    }
    parts[1].trim().parse::<u64>().ok()
}

#[test]
fn page_link_reads_pid_titles() {
    assert_eq!(PageLink::try_option_into("pid:42"), Some(PageLink { id: 42 }));
    assert_eq!(PageLink::try_option_into("pid: 42 "), Some(PageLink { id: 42 }));
    assert_eq!(PageLink::try_option_into("pid:notanumber"), None);
    for title in [
        "pid:42", "pid: 42 ", "pid:+7", "pid:", "pid", "pid:notanumber", "page:42", "pid:1:2",
        "PID:1", " pid:1", "pid:18446744073709551615", "pid:18446744073709551616", "", ":",
        "pid:-1", "pid:4 2", "a title", "pid:\t9\n",
    ] {
        assert_eq!(
            PageLink::try_option_into(title).map(|link| link.id),
            try_option_into_by_std(title),
            "{title:?}"
        );
    }
}

#[test]
fn title_is_the_flattened_text_of_the_leading_heading() {
    let mut doc = Document::parse("# Hello *big* world\n\ntext\n", SYNTAX);
    assert_eq!(get_page_title(&doc).ok(), Some("Hello big world".to_string()));
    assert_eq!(get_and_remove_h1_header(&mut doc), Some("Hello big world".to_string()));
    assert_eq!(doc.render(SYNTAX), "<p>text</p>\n");
    assert_eq!(get_and_remove_h1_header(&mut doc), None);
}

#[test]
fn title_holds_the_text_of_code_spans() {
    let mut doc = Document::parse("# Use `foo` and *`bar`*\n\ntext with `code`\n", SYNTAX);
    assert_eq!(get_and_remove_h1_header(&mut doc), Some("Use foo and bar".to_string()));
    assert_eq!(doc.render(SYNTAX), "<p>text with <code>code</code></p>\n");
}

#[test]
fn a_document_that_begins_otherwise_has_no_title() {
    for source in ["text\n\n# Late\n", "## Second level\n", ""] {
        let mut doc = Document::parse(source, SYNTAX);
        assert!(matches!(get_page_title(&doc), Err(Error::PageHeaderMissing)));
        let before = doc.render(SYNTAX);
        assert_eq!(get_and_remove_h1_header(&mut doc), None);
        assert_eq!(doc.render(SYNTAX), before);
    }
}

#[test]
fn superscript_stands_at_the_top() {
    let mut doc = Document::parse("text\n", SYNTAX);
    prepend_superscript(&mut doc, "generated", SYNTAX);
    assert_eq!(doc.render(SYNTAX), "<p><sup>generated</sup></p>\n<p>text</p>\n");
}

#[test]
fn image_targets_are_told_apart() {
    assert!(remote_url("https://example.org/a.png"));
    assert!(remote_url("http://example.org/a.png"));
    assert!(!remote_url("ftp://example.org/a.png"));
    let existing = vec!["docs/a.png".to_string()];
    assert!(matches!(
        resolve_image("docs/page.md", "https://example.org/a.png", &existing),
        ImageTarget::Remote
    ));
    assert!(matches!(resolve_image("docs/page.md", "/abs/a.png", &existing), ImageTarget::Rooted));
    assert!(matches!(
        resolve_image("docs/page.md", "./a.png", &existing),
        ImageTarget::Found(path) if path == "docs/a.png"
    ));
    assert!(matches!(
        resolve_image("docs/page.md", "b.png", &existing),
        ImageTarget::Missing(path) if path == "docs/b.png"
    ));
    assert!(matches!(
        decide_image("http://x/a.png", true, "x".to_string(), true),
        ImageTarget::Remote
    ));
    assert!(matches!(decide_image("a.png", true, "x".to_string(), true), ImageTarget::Rooted));
    assert!(matches!(
        decide_image("a.png", false, "x".to_string(), true),
        ImageTarget::Found(path) if path == "x"
    ));
    assert!(matches!(
        decide_image("a.png", false, "x".to_string(), false),
        ImageTarget::Missing(path) if path == "x"
    ));
}

#[test]
fn candidate_image_paths_lists_each_local_file_once() {
    let doc = Document::parse(
        "![a](img/a.png) ![again](./img/a.png) ![b](../b.png)\n\n![web](https://x/y.png) ![abs](/abs/c.png)\n",
        SYNTAX,
    );
    let paths = candidate_image_paths(&doc, "docs/guide/page.md");
    assert_eq!(paths, vec!["docs/guide/img/a.png", "docs/b.png"]);
}

#[test]
fn get_image_paths_lists_only_the_files_that_are_there() {
    let source = "![a](img/a.png) ![b](./img/../img/a.png) ![c](https://x.io/b.png) ![d](img/missing.png)\n";
    let doc = Document::parse(source, SYNTAX);
    let before = doc.render(SYNTAX);
    let existing = vec!["docs/img/a.png".to_string()];
    let report = get_image_paths(&doc, "docs/page.md", &existing);
    assert_eq!(report.paths, vec!["docs/img/a.png"]);
    assert_eq!(report.warnings.len(), 1);
    let Warning::ImageMissing(node) = report.warnings[0] else { panic!("no warning") };
    assert!(matches!(doc.element(node), Element::Image(url, _) if url == "img/missing.png"));
    assert_eq!(doc.render(SYNTAX), before);
    assert!(get_image_paths(&doc, "docs/page.md", &Vec::new()).paths.is_empty());
    assert_eq!(get_image_paths(&doc, "docs/page.md", &Vec::new()).warnings.len(), 3);
}

#[test]
fn get_image_paths_warns_of_a_rooted_image() {
    let doc = Document::parse("![x](/abs/pic.png) ![y](rel.png)\n", SYNTAX);
    let before = doc.render(SYNTAX);
    for existing in [vec![], vec!["/abs/pic.png".to_string(), "docs/rel.png".to_string()]] {
        let report = get_image_paths(&doc, "docs/page.md", &existing);
        assert!(!report.paths.contains(&"/abs/pic.png".to_string()));
        let rooted: Vec<&Warning> =
            report.warnings.iter().filter(|w| matches!(w, Warning::ImageRooted(_))).collect();
        assert_eq!(rooted.len(), 1);
        let Warning::ImageRooted(node) = rooted[0] else { panic!("no warning") };
        assert!(matches!(doc.element(*node), Element::Image(url, _) if url == "/abs/pic.png"));
    }
    assert_eq!(doc.render(SYNTAX), before);
}

#[test]
fn get_image_paths_and_the_rewriting_say_the_same() {
    let source = "![a](a.png) ![b](/r.png) ![c](c.png) ![a](./a.png)\n";
    let existing = vec!["docs/a.png".to_string()];
    let mut doc = Document::parse(source, SYNTAX);
    let read = get_image_paths(&doc, "docs/page.md", &existing);
    let written = replace_image_node_with_html(&mut doc, "docs/page.md", &existing);
    assert_eq!(read.paths, written.paths);
    assert_eq!(read.warnings, written.warnings);
    assert_eq!(read.paths, vec!["docs/a.png"]);
}

#[test]
fn images_with_a_file_become_attachment_references() {
    let mut doc = Document::parse(
        "![align-right](img/a.png) and ![other](img/a.png) and ![none](img/missing.png)\n",
        SYNTAX,
    );
    let existing = vec!["docs/img/a.png".to_string()];
    let report = replace_image_node_with_html(&mut doc, "docs/page.md", &existing);
    assert_eq!(report.paths, vec!["docs/img/a.png"]);
    assert_eq!(report.warnings.len(), 1);
    assert!(matches!(report.warnings[0], Warning::ImageMissing(_)));
    assert_eq!(
        doc.render(SYNTAX),
        format!(
            "<p>{} and {} and <img src=\"img/missing.png\" alt=\"none\" /></p>\n",
            image_markup("right", "a.png"),
            image_markup("left", "a.png")
        )
    );
}

#[test]
fn rooted_image_is_left_unrewritten_with_a_warning() {
    let mut doc = Document::parse("![alt](/abs/img.png)\n", SYNTAX);
    let before = doc.render(SYNTAX);
    let existing = vec!["/abs/img.png".to_string()];
    let report = replace_image_node_with_html(&mut doc, "docs/page.md", &existing);
    assert!(report.paths.is_empty());
    assert_eq!(report.warnings.len(), 1);
    let Warning::ImageRooted(node) = report.warnings[0] else { panic!("no warning for the root") };
    assert!(matches!(doc.element(node), Element::Image(url, _) if url == "/abs/img.png"));
    assert_eq!(doc.children(node).len(), 1);
    assert_eq!(doc.render(SYNTAX), before);
    assert_eq!(before, "<p><img src=\"/abs/img.png\" alt=\"alt\" /></p>\n");
}

#[test]
fn remote_image_is_left_unrewritten_without_a_warning() {
    let mut doc = Document::parse("![alt](https://example.org/a.png)\n", SYNTAX);
    let before = doc.render(SYNTAX);
    let report = replace_image_node_with_html(&mut doc, "docs/page.md", &Vec::new());
    assert!(report.paths.is_empty());
    assert!(report.warnings.is_empty());
    assert_eq!(doc.render(SYNTAX), before);
}

#[test]
fn code_blocks_become_code_macros() {
    let mut doc = Document::parse("```\nprint(\"hi\")\n```\n\n    indented\n", SYNTAX);
    replace_codeblock_with_html(&mut doc);
    assert_eq!(
        doc.render(SYNTAX),
        format!("{}{}", code_markup("plaintext", "print(\"hi\")"), code_markup("plaintext", "indented"))
    );
}

#[test]
fn link_with_page_id_leads_to_the_page() {
    let mut doc = Document::parse("[x](old \"pid:42\")\n", SYNTAX);
    assert_eq!(link_targets(&doc), vec![42]);
    let warnings = replace_page_link(&mut doc, &vec![found(42, Some("https://wiki.example/x"))]);
    assert!(warnings.is_empty());
    let link = (0..doc.len()).find(|i| matches!(doc.element(*i), Element::Link(..))).unwrap();
    assert!(matches!(
        doc.element(link),
        Element::Link(url, title) if url == "https://wiki.example/x" && title == "pid:42"
    ));
    assert_eq!(
        doc.render(SYNTAX),
        "<p><a href=\"https://wiki.example/x\" title=\"pid:42\">x</a></p>\n"
    );
}

#[test]
fn link_with_malformed_page_id_is_left_unchanged_with_a_warning() {
    let mut doc = Document::parse("[x](old \"pid:notanumber\")\n", SYNTAX);
    let before = doc.render(SYNTAX);
    assert!(link_targets(&doc).is_empty());
    let warnings = replace_page_link(&mut doc, &vec![found(42, Some("https://wiki.example/x"))]);
    assert_eq!(warnings.len(), 1);
    assert!(matches!(warnings[0], Warning::LinkIdMalformed(_)));
    assert_eq!(doc.render(SYNTAX), before);
}

#[test]
fn link_to_a_page_that_was_not_found_is_left_unchanged_with_a_warning() {
    let mut doc = Document::parse(
        "[x](old \"pid:7\") [y](plain) [t](titled \"A title\") [z](other \"pid:8\")\n",
        SYNTAX,
    );
    let before = doc.render(SYNTAX);
    assert_eq!(link_targets(&doc), vec![7, 8]);
    let answers = vec![found(7, None), found(7, Some("https://late")), found(9, Some("https://nine"))];
    let warnings = replace_page_link(&mut doc, &answers);
    assert_eq!(warnings.len(), 2);
    assert!(warnings.iter().all(|w| matches!(w, Warning::LinkUnresolved(_))));
    assert_eq!(doc.render(SYNTAX), before);
}

#[test]
fn replace_node_link_decides_one_link() {
    let answers = vec![found(42, Some("https://wiki.example/x"))];
    assert!(matches!(
        replace_node_link("pid:42", &answers, 3),
        Ok(Some(Element::Link(url, title))) if url == "https://wiki.example/x" && title == "pid:42"
    ));
    assert!(matches!(replace_node_link("", &answers, 3), Ok(None)));
    assert!(matches!(replace_node_link("pid:1", &answers, 3), Err(Warning::LinkUnresolved(3))));
    assert!(matches!(replace_node_link("a title", &answers, 3), Ok(None)));
    assert!(matches!(replace_node_link("page:42", &answers, 3), Err(Warning::LinkIdMalformed(3))));
    assert!(matches!(
        replace_node_link("pid:notanumber", &answers, 3),
        Err(Warning::LinkIdMalformed(3))
    ));
}

#[test]
fn page_takes_its_title_from_the_heading_and_drops_it() {
    let source = "# The *Title*\n\nbody text\n";
    let page = HtmlPage::new(&config("docs/page.md", None), source, &Vec::new(), &Vec::new());
    assert_eq!(page.page_header, Some("The Title".to_string()));
    assert_eq!(page.html, "<p>body text</p>\n");
    assert!(!page.html.contains("Title"));
    assert!(page.image_paths.is_empty());
    assert!(page.warnings.is_empty());
}

#[test]
fn page_is_rendered_step_by_step() {
    let source = "# T\n\n![align-center](a.png) [p](u \"pid:5\") [q](v \"pid:x\")\n\n```sh\nls\n```\n\n| a |\n|---|\n| ![z](/r.png) |\n";
    let config = config("docs/page.md", Some("draft"));
    let demands = HtmlPage::demands(&config, source).unwrap();
    assert_eq!(demands.image_paths, vec!["docs/a.png"]);
    assert_eq!(demands.page_ids, vec![5]);
    let existing = vec!["docs/a.png".to_string()];
    let answers = vec![found(5, Some("https://wiki.example/five"))];
    let page = HtmlPage::new(&config, source, &existing, &answers);
    assert_eq!(page.page_header, Some("T".to_string()));
    assert_eq!(page.image_paths, vec!["docs/a.png"]);
    assert_eq!(page.warnings.len(), 2);
    assert!(matches!(page.warnings[0], Warning::ImageRooted(_)));
    assert!(matches!(page.warnings[1], Warning::LinkIdMalformed(_)));
    assert_eq!(
        page.html,
        format!(
            "<p><sup>draft</sup></p>\n<p>{} <a href=\"https://wiki.example/five\" title=\"pid:5\">p</a> <a href=\"v\" title=\"pid:x\">q</a></p>\n{}\n<table>\n<thead>\n<tr>\n<th>a</th>\n</tr>\n</thead>\n<tbody>\n<tr>\n<td><img src=\"/r.png\" alt=\"z\" /></td>\n</tr>\n</tbody>\n</table>\n",
            image_markup("center", "a.png"),
            code_markup("sh", "ls"),
        )
    );
}

#[test]
fn images_and_links_in_the_heading_are_not_part_of_the_page() {
    let source = "# T ![i](a.png) [l](u \"pid:5\")\n\nbody\n";
    let config = config("docs/page.md", None);
    let demands = HtmlPage::demands(&config, source).unwrap();
    assert!(demands.image_paths.is_empty());
    assert!(demands.page_ids.is_empty());
    let page = HtmlPage::new(&config, source, &vec!["docs/a.png".to_string()], &Vec::new());
    assert!(page.image_paths.is_empty());
    assert!(page.warnings.is_empty());
    assert_eq!(page.html, "<p>body</p>\n");
}

#[test]
fn render_markdown_file_gives_the_markup_of_the_page() {
    let source = "# T\n\n![x](a.png)\n\n```\ncode\n```\n";
    let existing = vec!["docs/a.png".to_string()];
    let html = render_markdown_file(
        source,
        "docs/page.md",
        &Some("s".to_string()),
        &existing,
        &Vec::new(),
    );
    let page = HtmlPage::new(&config("docs/page.md", Some("s")), source, &existing, &Vec::new());
    assert_eq!(html, page.html);
    assert_eq!(
        html,
        format!(
            "<p><sup>s</sup></p>\n<p>{}</p>\n{}",
            image_markup("left", "a.png"),
            code_markup("plaintext", "code")
        )
    );
}

#[test]
fn page_without_a_title_asks_for_no_lookup() {
    let source = "no heading\n\n[x](u \"pid:42\") ![i](a.png)\n";
    assert!(matches!(
        HtmlPage::demands(&config("docs/page.md", None), source),
        Err(Error::PageHeaderMissing)
    ));
    let titled = PageConfig {
        override_title: Some("Configured".to_string()),
        ..config("docs/page.md", None)
    };
    let demands = HtmlPage::demands(&titled, source).unwrap();
    assert_eq!(demands.page_ids, vec![42]);
    assert_eq!(demands.image_paths, vec!["docs/a.png"]);
}
