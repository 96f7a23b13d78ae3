use comrak::nodes::NodeValue;
use confluence_updater::document::Document;
use confluence_updater::markdown::{Element, Syntax};

const SYNTAX: Syntax = Syntax { superscript: true, table: true };

fn comrak_html(source: &str) -> String {
    let mut options = comrak::Options::default();
    options.extension.superscript = true;
    options.extension.table = true;
    comrak::markdown_to_html(source, &options)
}

#[test]
fn parse_then_render_is_what_comrak_writes() {
    for source in [
        "",
        "# Title\n\nHello *world*, see [this](https://example.org \"t\").\n",
        "- a\n- b\n  - c\n\n> quote\n\n```rust\nfn main() {}\n```\n",
        "| a | b |\n|---|:-:|\n| c | d |\n| e |\n",
        "![alt](img.png) and e = mc^2^\n",
        "Setext\n======\n\n1. one\n2. two\n   - [ ] nested `code`\n\n---\n\n<div>\nraw *html*\n</div>\n\n> quote\n> > deeper **strong** <b>inline</b>\n\n~~~\nfence\n~~~\n\nline  \nbreak\\\nand &amp; entity [ref]\n\n[ref]: https://example.org/a%20b?x='y' \"Title\"\n",
        "| left | mid | right |\n|:-----|:---:|------:|\n| *a* | `b` | [c](d) |\n| only |\n| 1 | 2 | 3 | 4 |\n\ntext after\n",
        "\u{e9}\u{4e16}\u{754c} \u{1f600}\n\n\tcode with tab\n",
    ] {
        let doc = Document::parse(source, SYNTAX);
        assert_eq!(doc.render(SYNTAX), comrak_html(source));
    }
}

#[test]
fn parse_builds_the_tree_in_document_order() {
    let doc = Document::parse("# Title\n\ntext\n", SYNTAX);
    assert_eq!(doc.len(), 5);
    assert_eq!(doc.children(0), &vec![1, 3]);
    assert_eq!(doc.children(1), &vec![2]);
    assert_eq!(doc.parent(2), Some(1));
    assert_eq!(doc.parent(0), None);
    assert!(matches!(doc.element(1), Element::Heading(1)));
    assert!(matches!(doc.element(2), Element::Text(t) if t == "Title"));
    assert!(matches!(doc.element(4), Element::Text(t) if t == "text"));
    assert_eq!(doc.first_child(0), Some(1));
    assert_eq!(doc.first_child(2), None);
}

#[test]
fn detach_takes_a_subtree_out_of_the_markup() {
    let mut doc = Document::parse("# Title\n\ntext\n", SYNTAX);
    doc.detach(1);
    assert_eq!(doc.render(SYNTAX), "<p>text</p>\n");
    assert!(!doc.is_attached(1));
    assert!(!doc.is_attached(2));
    assert!(doc.is_attached(4));
    assert_eq!(doc.len(), 5);
    doc.detach(0);
    assert_eq!(doc.render(SYNTAX), "<p>text</p>\n");
}

#[test]
fn graft_puts_the_new_blocks_first() {
    let mut doc = Document::parse("one\n\ntwo\n", SYNTAX);
    doc.graft("^top^\n\nnext\n", SYNTAX);
    assert_eq!(
        doc.render(SYNTAX),
        "<p><sup>top</sup></p>\n<p>next</p>\n<p>one</p>\n<p>two</p>\n"
    );
}

#[test]
fn set_element_and_clear_children_rewrite_a_node() {
    let mut doc = Document::parse("a ![alt](img.png) b\n", SYNTAX);
    let image = (0..doc.len())
        .find(|i| matches!(doc.element(*i), Element::Image(..)))
        .unwrap();
    doc.set_element(image, Element::Raw("<img/>".to_string()));
    doc.clear_children(image);
    assert_eq!(doc.render(SYNTAX), "<p>a <img/> b</p>\n");
    assert!(doc.children(image).is_empty());
}

fn text(value: &str) -> comrak::nodes::NodeValue {
    comrak::nodes::NodeValue::Text(value.to_string().into())
}

fn table(columns: usize) -> comrak::nodes::NodeValue {
    comrak::nodes::NodeValue::Table(Box::new(comrak::nodes::NodeTable {
        alignments: vec![comrak::nodes::TableAlignment::None; columns],
        num_columns: columns,
        num_rows: 1,
        num_nonempty_cells: columns,
    }))
}

#[test]
fn from_nodes_builds_the_tree_by_depth() {
    let nodes = vec![
        (0, NodeValue::Document),
        (1, NodeValue::Paragraph),
        (2, NodeValue::Emph),
        (3, text("deep")),
        (2, text(" flat")),
        (1, NodeValue::Paragraph),
        (2, text("next")),
    ];
    let doc = Document::from_nodes(&nodes);
    assert_eq!(doc.len(), 7);
    assert_eq!(doc.children(0), &vec![1, 5]);
    assert_eq!(doc.children(1), &vec![2, 4]);
    assert_eq!(doc.children(2), &vec![3]);
    assert_eq!(doc.parent(4), Some(1));
    assert_eq!(doc.parent(6), Some(5));
    assert_eq!(doc.render(SYNTAX), "<p><em>deep</em> flat</p>\n<p>next</p>\n");
}

#[test]
fn from_nodes_takes_any_depths() {
    let nodes = vec![
        (7, NodeValue::Document),
        (5, NodeValue::Paragraph),
        (9, NodeValue::Emph),
        (0, NodeValue::Paragraph),
    ];
    let doc = Document::from_nodes(&nodes);
    assert_eq!(doc.children(0), &vec![1, 3]);
    assert_eq!(doc.children(1), &vec![2]);
    assert_eq!(doc.parent(0), None);
    let empty = Document::from_nodes(&Vec::new());
    assert_eq!(empty.len(), 1);
    assert!(matches!(empty.element(0), Element::Raw(markup) if markup.is_empty()));
    assert_eq!(empty.render(SYNTAX), "");
}

#[test]
fn table_cell_without_a_place_enters_as_empty_markup() {
    let nodes = vec![
        (0, NodeValue::Document),
        (1, NodeValue::TableCell),
        (2, text("stray")),
        (1, table(1)),
        (2, NodeValue::TableRow(true)),
        (3, NodeValue::TableCell),
        (4, text("head")),
        (3, NodeValue::TableCell),
        (4, text("over")),
    ];
    let doc = Document::from_nodes(&nodes);
    assert!(matches!(doc.element(1), Element::Raw(markup) if markup.is_empty()));
    assert!(matches!(doc.element(5), Element::Other(NodeValue::TableCell)));
    assert!(matches!(doc.element(7), Element::Raw(markup) if markup.is_empty()));
    let html = doc.render(SYNTAX);
    assert!(html.contains("<th>head</th>"));
    assert!(html.contains("stray"));
    assert!(html.contains("over"));
    let cell_as_root = Document::from_nodes(&vec![(0, NodeValue::TableCell)]);
    assert!(matches!(cell_as_root.element(0), Element::Raw(_)));
    assert_eq!(cell_as_root.render(SYNTAX), "");
}

#[test]
fn detached_table_parts_do_not_stop_the_rendering() {
    let mut doc = Document::parse("| a | b |\n|---|---|\n| c | d |\n\nafter\n", SYNTAX);
    let row = (0..doc.len())
        .find(|i| matches!(doc.element(*i), Element::Other(comrak::nodes::NodeValue::TableRow(false))))
        .unwrap();
    doc.detach(row);
    assert_eq!(
        doc.render(SYNTAX),
        "<table>\n<thead>\n<tr>\n<th>a</th>\n<th>b</th>\n</tr>\n</thead>\n</table>\n<p>after</p>\n"
    );
    let first_cell = doc.children(row)[0];
    doc.detach(first_cell);
    doc.clear_children(row);
    assert_eq!(doc.children(row).len(), 0);
    assert!(!doc.is_attached(first_cell));
}
