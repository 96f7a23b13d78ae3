//! The values of document nodes, and the calls into `comrak` that read
//! Markdown and write markup.

use comrak::nodes::{AstNode, NodeCode, NodeCodeBlock, NodeHeading, NodeLink, NodeValue as Md};
use comrak::options::Plugins;
use vstd::prelude::*;

verus! {

/// `comrak`'s node value. The library carries it through unread for every
/// kind of node that it does not rewrite.
#[verifier::external_type_specification]
#[verifier::external_body]
pub struct ExMarkdownValue(comrak::nodes::NodeValue);

/// What a document node is, as far as the library reads it.
#[derive(Clone, Debug)]
pub enum Element {
    /// A heading and its level, from 1 to 6.
    Heading(u8),
    /// Literal text.
    Text(String),
    /// A code span: its literal text.
    Code(String),
    /// A link: its destination and its title.
    Link(String, String),
    /// An image: its source and its title.
    Image(String, String),
    /// A code block: its info string and its literal text.
    CodeBlock(String, String),
    /// Markup that is written out as it stands.
    Raw(String),
    /// Any other kind of node.
    Other(comrak::nodes::NodeValue),
}

/// The mathematical value of an [`Element`].
pub enum ElementView {
    /// A heading and its level.
    Heading(u8),
    /// Literal text.
    Text(Seq<char>),
    /// A code span: its literal text.
    Code(Seq<char>),
    /// A link: its destination and its title.
    Link(Seq<char>, Seq<char>),
    /// An image: its source and its title.
    Image(Seq<char>, Seq<char>),
    /// A code block: its info string and its literal text.
    CodeBlock(Seq<char>, Seq<char>),
    /// Markup that is written out as it stands.
    Raw(Seq<char>),
    /// Any other kind of node, as `comrak` holds it.
    Other(comrak::nodes::NodeValue),
}

impl View for Element {
    type V = ElementView;

    open spec fn view(&self) -> ElementView {
        match self {
            Element::Heading(level) => ElementView::Heading(*level),
            Element::Text(text) => ElementView::Text(text@),
            Element::Code(literal) => ElementView::Code(literal@),
            Element::Link(url, title) => ElementView::Link(url@, title@),
            Element::Image(url, title) => ElementView::Image(url@, title@),
            Element::CodeBlock(info, literal) => ElementView::CodeBlock(info@, literal@),
            Element::Raw(markup) => ElementView::Raw(markup@),
            Element::Other(value) => ElementView::Other(*value),
        }
    }
}

impl Element {
    /// A copy of the element.
    pub fn duplicate(&self) -> (copy: Element)
        ensures
            copy@ == self@,
    {
        match self {
            Element::Heading(level) => Element::Heading(*level),
            Element::Text(text) => Element::Text(text.clone()),
            Element::Code(literal) => Element::Code(literal.clone()),
            Element::Link(url, title) => Element::Link(url.clone(), title.clone()),
            Element::Image(url, title) => Element::Image(url.clone(), title.clone()),
            Element::CodeBlock(info, literal) => Element::CodeBlock(info.clone(), literal.clone()),
            Element::Raw(markup) => Element::Raw(markup.clone()),
            Element::Other(value) => Element::Other(value.clone()),
        }
    }
}

/// The part that a node plays in a table.
#[derive(Clone, Copy, Debug, PartialEq, Eq, Structural)]
pub enum TablePart {
    /// No part.
    Outside,
    /// The table itself, with the number of its columns.
    Table(usize),
    /// A row.
    Row,
    /// A cell.
    Cell,
}

/// The syntax extensions that a document is read and written with.
#[derive(Clone, Copy, Debug, PartialEq, Eq, Structural)]
pub struct Syntax {
    /// `^text^` is superscript.
    pub superscript: bool,
    /// Pipe tables are tables.
    pub table: bool,
}

/// The nodes that `comrak` reads from `source`: each node of the tree in
/// document order, with the number of its ancestors.
pub uninterp spec fn parsed_nodes(source: Seq<char>, syntax: Syntax) -> Seq<(usize, Md)>;

/// The library's reading of a `comrak` node value.
pub uninterp spec fn imported_value(value: Md) -> ElementView;

/// The `comrak` node value that stands for a value of the library.
pub uninterp spec fn exported_value(value: ElementView) -> Md;

/// The part that a `comrak` node value plays in a table.
pub uninterp spec fn table_part_of(value: Md) -> TablePart;

/// The markup that `comrak` writes for a tree: node `i` has the value
/// `values[i]` and the children `children[i]`, in that order, and node 0 is
/// the root.
pub uninterp spec fn rendered_html(
    values: Seq<Md>,
    children: Seq<Seq<usize>>,
    syntax: Syntax,
) -> Seq<char>;

/// The lists of children as sequences.
pub open spec fn lists(children: Seq<Vec<usize>>) -> Seq<Seq<usize>> {
    children.map_values(|list: Vec<usize>| list@)
}

/// Whether `comrak` can write the tree in which node `i` has the value
/// `values[i]` and the children `children[i]`: children come after their
/// parent, no node is a child twice, and every table cell that hangs from a
/// node has a place.
pub open spec fn formattable(values: Seq<Md>, children: Seq<Seq<usize>>) -> bool {
    &&& values.len() == children.len()
    &&& values.len() > 0
    &&& table_part_of(values[0]) != TablePart::Cell
    &&& forall|p: int, k: int|
        0 <= p < children.len() && 0 <= k < children[p].len() ==> p < (#[trigger] children[p][k])
            < children.len()
    &&& forall|p: int, k: int, q: int, j: int|
        0 <= p < children.len() && 0 <= k < children[p].len() && 0 <= q < children.len() && 0 <= j
            < children[q].len() && #[trigger] children[p][k] == #[trigger] children[q][j] ==> p == q
            && k == j
    &&& forall|p: int, k: int|
        0 <= p < children.len() && 0 <= k < children[p].len() && table_part_of(
            values[(#[trigger] children[p][k]) as int],
        ) == TablePart::Cell ==> cell_has_place(values, children, p, k)
}

/// Whether the `k`-th child of node `row` is where a table cell can be
/// written: the node is a table row and not the root, and any node that it
/// is a child of is a table with more than `k` columns.
pub open spec fn cell_has_place(values: Seq<Md>, children: Seq<Seq<usize>>, row: int, k: int) -> bool {
    &&& row != 0
    &&& table_part_of(values[row]) == TablePart::Row
    &&& forall|g: int, j: int|
        0 <= g < children.len() && 0 <= j < children[g].len() && #[trigger] children[g][j] == row
            ==> match table_part_of(values[g]) {
            TablePart::Table(columns) => k < columns,
            _ => false,
        }
}

/// Calls `comrak::parse_document` and lists the tree it returns in document
/// order, each node with the number of its ancestors. What the parser makes
/// of a text is a function of the text and the options alone.
#[verifier::external_body]
pub(crate) fn parse_nodes(source: &str, syntax: Syntax) -> (nodes: Vec<(usize, Md)>)
    ensures
        nodes@ == parsed_nodes(source@, syntax),
{
    let arena = comrak::Arena::new();
    let mut options = comrak::Options::default();
    options.extension.superscript = syntax.superscript;
    options.extension.table = syntax.table;
    let root = comrak::parse_document(&arena, source, &options);
    root.descendants().map(|n| (n.ancestors().skip(1).count(), n.data().value.clone())).collect()
}

/// Tells the variants of `comrak`'s node value apart and moves the fields
/// of those that the library reads.
#[verifier::external_body]
pub(crate) fn import_value(value: Md) -> (imported: Element)
    ensures
        imported@ == imported_value(value),
        imported is Other ==> imported@ == ElementView::Other(value),
{
    match value {
        Md::Heading(heading) => Element::Heading(heading.level),
        Md::Text(text) => Element::Text(text.into_owned()),
        Md::Code(code) => Element::Code(code.literal),
        Md::Link(link) => Element::Link(link.url, link.title),
        Md::Image(link) => Element::Image(link.url, link.title),
        Md::CodeBlock(block) => Element::CodeBlock(block.info, block.literal),
        Md::Raw(markup) => Element::Raw(markup),
        other => Element::Other(other),
    }
}

/// Builds the `comrak` node value that stands for `element`: the fields that
/// the library holds, and `comrak`'s defaults for the others. A value that
/// the library carried through comes back as it was; no other is part of a
/// table.
#[verifier::external_body]
pub(crate) fn export_value(element: Element) -> (value: Md)
    ensures
        value == exported_value(element@),
        element@ matches ElementView::Other(carried) ==> value == carried,
        !(element is Other) ==> table_part_of(value) == TablePart::Outside,
{
    match element {
        Element::Heading(level) => Md::Heading(NodeHeading { level, ..Default::default() }),
        Element::Text(text) => Md::Text(text.into()),
        Element::Code(literal) => Md::Code(NodeCode { literal, ..Default::default() }),
        Element::Link(url, title) => Md::Link(Box::new(NodeLink { url, title })),
        Element::Image(url, title) => Md::Image(Box::new(NodeLink { url, title })),
        Element::CodeBlock(info, literal) => Md::CodeBlock(
            Box::new(NodeCodeBlock { info, literal, ..Default::default() }),
        ),
        Element::Raw(markup) => Md::Raw(markup),
        Element::Other(value) => value,
    }
}

/// Tells whether a `comrak` node value is a table, a table row or a table
/// cell; of a table it gives the number of column alignments.
#[verifier::external_body]
pub(crate) fn table_part(value: &Md) -> (part: TablePart)
    ensures
        part == table_part_of(*value),
{
    match value {
        Md::Table(table) => TablePart::Table(table.alignments.len()),
        Md::TableRow(_) => TablePart::Row,
        Md::TableCell => TablePart::Cell,
        _ => TablePart::Outside,
    }
}

/// The `Clone` that `comrak` derives for its node value gives an equal
/// value.
pub assume_specification[ <comrak::nodes::NodeValue as Clone>::clone ](
    value: &comrak::nodes::NodeValue,
) -> (copy: comrak::nodes::NodeValue)
    ensures
        copy == *value,
;

/// Builds a `comrak` tree and has `comrak::format_html_with_plugins` write
/// it, with no plugin: node `i` gets the value `values[i]` and the children
/// `children[i]`, and node 0 is the root. The formatter panics on a table
/// cell that is not in a row of a table with a column for it, so no such
/// cell may hang in the tree.
#[verifier::external_body]
pub(crate) fn format_nodes(values: Vec<Md>, children: &Vec<Vec<usize>>, syntax: Syntax) -> (html:
    String)
    requires
        formattable(values@, lists(children@)),
    ensures
        html@ == rendered_html(values@, lists(children@), syntax),
{
    let arena = comrak::Arena::new();
    let made: Vec<&AstNode> = values.into_iter().map(|v| &*arena.alloc(AstNode::from(v))).collect();
    for (node, kids) in made.iter().zip(children.iter()) {
        for kid in kids.iter() {
            node.append(made[*kid]);
        }
    }
    let mut options = comrak::Options::default();
    options.extension.superscript = syntax.superscript;
    options.extension.table = syntax.table;
    let mut html = String::new();
    comrak::format_html_with_plugins(made[0], &options, &mut html, &Plugins::default()).unwrap();
    html
}

} // verus!
