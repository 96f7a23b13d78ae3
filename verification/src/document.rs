//! The tree of one document: an arena of nodes that are addressed by their
//! index, with node 0 as the root.

use crate::markdown::{
    export_value, exported_value, format_nodes, formattable, import_value, imported_value, lists,
    parse_nodes, parsed_nodes, rendered_html, table_part, table_part_of, Element, ElementView,
    Syntax, TablePart,
};
use vstd::prelude::*;

verus! {

/// One node of a document, as contracts see it.
pub struct NodeView {
    /// What the node is.
    pub element: ElementView,
    /// The node that it is a child of, if it hangs in the tree.
    pub parent: Option<usize>,
    /// Its children, in document order.
    pub children: Seq<usize>,
}

/// The part that an element plays in a table.
pub open spec fn part(element: ElementView) -> TablePart {
    match element {
        ElementView::Other(value) => table_part_of(value),
        _ => TablePart::Outside,
    }
}

/// Whether node `c` has no parent, or one that comes before it and lists it.
pub open spec fn child_linked(t: Seq<NodeView>, c: int) -> bool {
    match t[c].parent {
        Some(p) => p < c && t[p as int].children.contains(c as usize),
        None => true,
    }
}

/// Whether the `k`-th child of node `p` is a node that names `p` as its
/// parent.
pub open spec fn parent_linked(t: Seq<NodeView>, p: int, k: int) -> bool {
    let c = t[p].children[k];
    c < t.len() && t[c as int].parent == Some(p as usize)
}

/// Whether the nodes form a forest in which parents and children agree, with
/// node 0 as a root.
pub open spec fn linked(t: Seq<NodeView>) -> bool {
    &&& 0 < t.len() <= usize::MAX
    &&& t[0].parent is None
    &&& forall|c: int| 0 <= c < t.len() ==> #[trigger] child_linked(t, c)
    &&& forall|p: int, k: int|
        0 <= p < t.len() && 0 <= k < t[p].children.len() ==> #[trigger] parent_linked(t, p, k)
    &&& forall|p: int| 0 <= p < t.len() ==> (#[trigger] t[p]).children.no_duplicates()
}

/// Whether node `c`, if it is a table cell, is placed where a cell can be
/// written: it is not the root; the node it hangs from is a table row other
/// than the root; and where that row hangs from a node, the node is a table
/// with a column for the cell.
pub open spec fn cell_placed(t: Seq<NodeView>, c: int) -> bool {
    part(t[c].element) == TablePart::Cell ==> c != 0 && match t[c].parent {
        None => true,
        Some(p) => p != 0 && part(t[p as int].element) == TablePart::Row && match t[p as int].parent {
            None => true,
            Some(g) => match part(t[g as int].element) {
                TablePart::Table(columns) => forall|k: int|
                    0 <= k < t[p as int].children.len() && #[trigger] t[p as int].children[k] == c
                        ==> k < columns,
                _ => false,
            },
        },
    }
}

/// Whether every table cell is placed where a cell can be written.
pub open spec fn tables_sound(t: Seq<NodeView>) -> bool {
    forall|c: int| 0 <= c < t.len() ==> #[trigger] cell_placed(t, c)
}

/// Whether the nodes form a document.
pub open spec fn well_formed(t: Seq<NodeView>) -> bool {
    linked(t) && tables_sound(t)
}

/// Whether node `i` hangs in the tree under the root.
pub open spec fn attached(t: Seq<NodeView>, i: int) -> bool
    decreases i,
{
    if i <= 0 {
        i == 0
    } else {
        match t[i].parent {
            Some(p) => p < i && attached(t, p as int),
            None => false,
        }
    }
}

/// Whether a new last child of node `p` can be a table cell.
pub open spec fn cell_fits(t: Seq<NodeView>, p: int) -> bool {
    &&& p != 0
    &&& part(t[p].element) == TablePart::Row
    &&& match t[p].parent {
        Some(g) => match part(t[g as int].element) {
            TablePart::Table(columns) => t[p].children.len() < columns,
            _ => false,
        },
        None => false,
    }
}

/// The element as it enters a document: a table cell for which there is no
/// place becomes empty markup.
pub open spec fn settled(element: ElementView, fits: bool) -> ElementView {
    if part(element) == TablePart::Cell && !fits {
        ElementView::Raw(Seq::empty())
    } else {
        element
    }
}

/// The document that is one root.
pub open spec fn root_only(element: ElementView) -> Seq<NodeView> {
    seq![NodeView { element: settled(element, false), parent: None, children: Seq::empty() }]
}

/// The document with one more node, as the last child of node `p`.
pub open spec fn with_child(t: Seq<NodeView>, p: int, element: ElementView) -> Seq<NodeView> {
    t.update(p, NodeView { children: t[p].children.push(t.len() as usize), ..t[p] }).push(
        NodeView {
            element: settled(element, cell_fits(t, p)),
            parent: Some(p as usize),
            children: Seq::empty(),
        },
    )
}

/// How many of the open nodes stay open when a node with `depth` ancestors
/// arrives: as many as its depth, but at least one and no more than there
/// are.
pub open spec fn kept_open(depth: usize, open: Seq<usize>) -> int {
    if depth < 1 {
        1
    } else if depth > open.len() {
        open.len() as int
    } else {
        depth as int
    }
}

/// The document and its open nodes after the nodes `items` have arrived in
/// document order, each with the number of its ancestors. The open nodes are
/// the last node and its ancestors, the root first.
pub open spec fn grown(t: Seq<NodeView>, open: Seq<usize>, items: Seq<(usize, ElementView)>) -> (
    Seq<NodeView>,
    Seq<usize>,
)
    decreases items.len(),
{
    if items.len() == 0 {
        (t, open)
    } else {
        let (before, path) = grown(t, open, items.drop_last());
        let (depth, element) = items.last();
        let kept = kept_open(depth, path);
        (
            with_child(before, path[kept - 1] as int, element),
            path.take(kept).push(before.len() as usize),
        )
    }
}

/// The nodes of a list but the first, which is the root.
pub open spec fn below_root(items: Seq<(usize, ElementView)>) -> Seq<(usize, ElementView)> {
    if items.len() == 0 {
        items
    } else {
        items.skip(1)
    }
}

/// The document that a list of nodes in document order stands for.
pub open spec fn tree_of(items: Seq<(usize, ElementView)>) -> Seq<NodeView> {
    if items.len() == 0 {
        root_only(ElementView::Raw(Seq::empty()))
    } else {
        grown(root_only(items[0].1), seq![0usize], below_root(items)).0
    }
}

/// The document with the children of the root turned round: those from the
/// `n`-th on come first.
pub open spec fn fronted(t: Seq<NodeView>, n: int) -> Seq<NodeView> {
    t.update(
        0,
        NodeView { children: t[0].children.skip(n) + t[0].children.take(n), ..t[0] },
    )
}

/// The document into which the nodes of `items` but the first have been
/// taken, as the first children of the root and their descendants.
pub open spec fn grafted(t: Seq<NodeView>, items: Seq<(usize, ElementView)>) -> Seq<NodeView> {
    fronted(grown(t, seq![0usize], below_root(items)).0, t[0].children.len() as int)
}

/// The document in which node `i` hangs from no node.
pub open spec fn detached(t: Seq<NodeView>, i: int) -> Seq<NodeView> {
    match t[i].parent {
        None => t,
        Some(p) => t.update(
            p as int,
            NodeView {
                children: t[p as int].children.remove(t[p as int].children.index_of(i as usize)),
                ..t[p as int]
            },
        ).update(i, NodeView { parent: None, ..t[i] }),
    }
}

/// The document in which node `i` has no children.
pub open spec fn cleared(t: Seq<NodeView>, i: int) -> Seq<NodeView> {
    Seq::new(
        t.len(),
        |j: int|
            if j == i {
                NodeView { children: Seq::empty(), ..t[j] }
            } else if t[j].parent == Some(i as usize) {
                NodeView { parent: None, ..t[j] }
            } else {
                t[j]
            },
    )
}

/// The markup that `comrak` writes for a document.
pub open spec fn html_of(t: Seq<NodeView>, syntax: Syntax) -> Seq<char> {
    rendered_html(
        Seq::new(t.len(), |i: int| exported_value(t[i].element)),
        Seq::new(t.len(), |i: int| t[i].children),
        syntax,
    )
}

/// The nodes of a list as the library reads them.
pub open spec fn items_of(nodes: Seq<(usize, comrak::nodes::NodeValue)>) -> Seq<
    (usize, ElementView),
> {
    nodes.map_values(|node: (usize, comrak::nodes::NodeValue)| (node.0, imported_value(node.1)))
}

/// The nodes that `comrak` reads from `source`, as the library reads them.
pub open spec fn parsed_items(source: Seq<char>, syntax: Syntax) -> Seq<(usize, ElementView)> {
    items_of(parsed_nodes(source, syntax))
}

/// A document stays one when a node is added as the last child of node `p`.
pub proof fn lemma_with_child(t: Seq<NodeView>, p: int, element: ElementView)
    requires
        well_formed(t),
        0 <= p < t.len() < usize::MAX,
    ensures
        well_formed(with_child(t, p, element)),
{
    let c = t.len() as int;
    let u = with_child(t, p, element);
    assert forall|x: int| 0 <= x < u.len() implies #[trigger] child_linked(u, x) by {
        if x < c {
            assert(child_linked(t, x));
            if let Some(q) = t[x].parent {
                let k = choose|k: int|
                    0 <= k < t[q as int].children.len() && t[q as int].children[k] == x as usize;
                assert(u[q as int].children[k] == x as usize);
            }
        } else {
            assert(u[p].children[t[p].children.len() as int] == c as usize);
        }
    }
    assert forall|q: int, k: int| 0 <= q < u.len() && 0 <= k < u[q].children.len() implies #[trigger] parent_linked(
        u,
        q,
        k,
    ) by {
        if q < c && k < t[q].children.len() {
            assert(parent_linked(t, q, k));
        }
    }
    assert forall|q: int| 0 <= q < u.len() implies (#[trigger] u[q]).children.no_duplicates() by {
        if q < c {
            assert(t[q].children.no_duplicates());
            if q == p {
                assert forall|i: int, j: int|
                    0 <= i < u[q].children.len() && 0 <= j < u[q].children.len() && i
                        != j implies u[q].children[i] != u[q].children[j] by {
                    if i < t[p].children.len() {
                        assert(parent_linked(t, p, i));
                    }
                    if j < t[p].children.len() {
                        assert(parent_linked(t, p, j));
                    }
                }
            }
        }
    }
    assert forall|x: int| 0 <= x < u.len() implies #[trigger] cell_placed(u, x) by {
        if x < c {
            assert(cell_placed(t, x));
            assert(child_linked(t, x));
            if let Some(q) = t[x].parent {
                assert(child_linked(t, q as int));
                if q == p {
                    assert forall|k: int|
                        0 <= k < u[p].children.len() && #[trigger] u[p].children[k]
                            == x implies k < t[p].children.len() && t[p].children[k] == x by {}
                }
            }
        } else {
            if part(u[x].element) == TablePart::Cell {
                assert(cell_fits(t, p));
                assert(child_linked(t, p));
                assert forall|k: int|
                    0 <= k < u[p].children.len() && #[trigger] u[p].children[k]
                        == x implies k == t[p].children.len() by {
                    if k < t[p].children.len() {
                        assert(parent_linked(t, p, k));
                    }
                }
            }
        }
    }
}

/// A table cell that was placed stays placed in a document that keeps its
/// parent or takes it off, keeps what its row and its table are, and moves
/// it in its row by one place to the front at most.
proof fn lemma_cell_stays(t: Seq<NodeView>, u: Seq<NodeView>, x: int)
    requires
        linked(t),
        0 <= x < t.len() == u.len(),
        cell_placed(t, x),
        part(u[x].element) == TablePart::Cell ==> part(t[x].element) == TablePart::Cell,
        u[x].parent is None || u[x].parent == t[x].parent,
        t[x].parent matches Some(p) ==> {
            &&& part(t[p as int].element) == TablePart::Row ==> part(u[p as int].element)
                == TablePart::Row
            &&& u[p as int].parent is None || u[p as int].parent == t[p as int].parent
            &&& forall|k: int|
                0 <= k < u[p as int].children.len() && #[trigger] u[p as int].children[k] == x ==> {
                    ||| k < t[p as int].children.len() && t[p as int].children[k] == x
                    ||| k + 1 < t[p as int].children.len() && t[p as int].children[k + 1] == x
                }
            &&& t[p as int].parent matches Some(g) ==> part(u[g as int].element) == part(
                t[g as int].element,
            )
        },
    ensures
        cell_placed(u, x),
{
    if part(u[x].element) == TablePart::Cell {
        if let Some(p) = u[x].parent {
            let p = p as int;
            assert(child_linked(t, x));
            if let Some(g) = u[p].parent {
                let g = g as int;
                assert(child_linked(t, p));
                if let TablePart::Table(columns) = part(t[g].element) {
                    assert forall|k: int|
                        0 <= k < u[p].children.len() && #[trigger] u[p].children[k]
                            == x implies k < columns by {
                        if k < t[p].children.len() && t[p].children[k] == x {
                        } else {
                            assert(t[p].children[k + 1] == x);
                        }
                    }
                }
            }
        }
    }
}

/// A document stays one when the children of the root are turned round.
pub proof fn lemma_fronted(t: Seq<NodeView>, n: int)
    requires
        well_formed(t),
        0 <= n <= t[0].children.len(),
    ensures
        well_formed(fronted(t, n)),
{
    let u = fronted(t, n);
    let old_kids = t[0].children;
    let kids = u[0].children;
    let m = old_kids.len() as int;
    assert(kids.len() == m);
    assert forall|k: int| 0 <= k < m implies #[trigger] kids[k] == old_kids[if k < m - n {
        k + n
    } else {
        k - (m - n)
    }] by {}
    assert forall|x: int| 0 <= x < u.len() implies #[trigger] child_linked(u, x) by {
        assert(child_linked(t, x));
        if let Some(q) = t[x].parent {
            if q == 0 {
                let k = choose|k: int| 0 <= k < m && old_kids[k] == x as usize;
                let j = if k >= n {
                    k - n
                } else {
                    k + (m - n)
                };
                assert(kids[j] == x as usize);
            }
        }
    }
    assert forall|q: int, k: int| 0 <= q < u.len() && 0 <= k < u[q].children.len() implies #[trigger] parent_linked(
        u,
        q,
        k,
    ) by {
        if q == 0 {
            let j = if k < m - n {
                k + n
            } else {
                k - (m - n)
            };
            assert(parent_linked(t, 0, j));
        } else {
            assert(parent_linked(t, q, k));
        }
    }
    assert forall|q: int| 0 <= q < u.len() implies (#[trigger] u[q]).children.no_duplicates() by {
        assert(t[q].children.no_duplicates());
    }
    assert forall|x: int| 0 <= x < u.len() implies #[trigger] cell_placed(u, x) by {
        assert(cell_placed(t, x));
        assert(child_linked(t, x));
        if part(t[x].element) == TablePart::Cell {
            if let Some(q) = t[x].parent {
                assert(child_linked(t, q as int));
                assert(u[q as int] == t[q as int]);
            }
            lemma_cell_stays(t, u, x);
        }
    }
}

/// A document stays one when a node is taken off its parent.
pub proof fn lemma_detached(t: Seq<NodeView>, i: int)
    requires
        well_formed(t),
        0 <= i < t.len(),
    ensures
        well_formed(detached(t, i)),
{
    let u = detached(t, i);
    if let Some(p) = t[i].parent {
        let p = p as int;
        assert(child_linked(t, i));
        let old_kids = t[p].children;
        let at = old_kids.index_of(i as usize);
        let kids = u[p].children;
        assert(t[p].children.no_duplicates());
        assert(0 <= at < old_kids.len() && old_kids[at] == i as usize);
        old_kids.remove_ensures(at);
        assert forall|x: int| 0 <= x < u.len() implies #[trigger] child_linked(u, x) by {
            assert(child_linked(t, x));
            if x != i {
                if let Some(q) = t[x].parent {
                    if q == p {
                        let k = choose|k: int| 0 <= k < old_kids.len() && old_kids[k] == x as usize;
                        let j = if k < at {
                            k
                        } else {
                            k - 1
                        };
                        assert(kids[j] == x as usize);
                    }
                }
            }
        }
        assert forall|q: int, k: int|
            0 <= q < u.len() && 0 <= k < u[q].children.len() implies #[trigger] parent_linked(
            u,
            q,
            k,
        ) by {
            if q == p {
                let j = if k < at {
                    k
                } else {
                    k + 1
                };
                assert(parent_linked(t, p, j));
                assert(kids[k] == old_kids[j]);
            } else {
                assert(parent_linked(t, q, k));
            }
        }
        assert forall|q: int| 0 <= q < u.len() implies (#[trigger] u[q]).children.no_duplicates() by {
            assert(t[q].children.no_duplicates());
        }
        assert forall|x: int| 0 <= x < u.len() implies #[trigger] cell_placed(u, x) by {
            assert(cell_placed(t, x));
            assert(child_linked(t, x));
            if part(t[x].element) == TablePart::Cell {
                if let Some(q) = t[x].parent {
                    assert(child_linked(t, q as int));
                }
                lemma_cell_stays(t, u, x);
            }
        }
    }
}

/// A document stays one when all children are taken off a node.
pub proof fn lemma_cleared(t: Seq<NodeView>, i: int)
    requires
        well_formed(t),
        0 <= i < t.len(),
    ensures
        well_formed(cleared(t, i)),
{
    let u = cleared(t, i);
    assert forall|x: int| 0 <= x < u.len() implies #[trigger] child_linked(u, x) by {
        assert(child_linked(t, x));
    }
    assert forall|q: int, k: int| 0 <= q < u.len() && 0 <= k < u[q].children.len() implies #[trigger] parent_linked(
        u,
        q,
        k,
    ) by {
        assert(parent_linked(t, q, k));
    }
    assert forall|q: int| 0 <= q < u.len() implies (#[trigger] u[q]).children.no_duplicates() by {
        assert(t[q].children.no_duplicates());
    }
    assert forall|x: int| 0 <= x < u.len() implies #[trigger] cell_placed(u, x) by {
        assert(cell_placed(t, x));
        assert(child_linked(t, x));
        if part(t[x].element) == TablePart::Cell {
            if let Some(q) = t[x].parent {
                assert(child_linked(t, q as int));
            }
            lemma_cell_stays(t, u, x);
        }
    }
}

/// A document stays one when a node that is no part of a table gets an
/// element that is none either.
pub proof fn lemma_replaced(t: Seq<NodeView>, i: int, element: ElementView)
    requires
        well_formed(t),
        0 <= i < t.len(),
        part(t[i].element) == TablePart::Outside,
        part(element) == TablePart::Outside,
    ensures
        well_formed(t.update(i, NodeView { element, ..t[i] })),
{
    let u = t.update(i, NodeView { element, ..t[i] });
    assert forall|x: int| 0 <= x < u.len() implies #[trigger] child_linked(u, x) by {
        assert(child_linked(t, x));
    }
    assert forall|q: int, k: int| 0 <= q < u.len() && 0 <= k < u[q].children.len() implies #[trigger] parent_linked(
        u,
        q,
        k,
    ) by {
        assert(parent_linked(t, q, k));
    }
    assert forall|q: int| 0 <= q < u.len() implies (#[trigger] u[q]).children.no_duplicates() by {
        assert(t[q].children.no_duplicates());
    }
    assert forall|x: int| 0 <= x < u.len() implies #[trigger] cell_placed(u, x) by {
        assert(cell_placed(t, x));
        assert(child_linked(t, x));
        if part(t[x].element) == TablePart::Cell {
            if let Some(q) = t[x].parent {
                assert(child_linked(t, q as int));
            }
            lemma_cell_stays(t, u, x);
        }
    }
}

/// The part that `element` plays in a table.
pub fn part_of(element: &Element) -> (played: TablePart)
    ensures
        played == part(element@),
{
    match element {
        Element::Other(value) => table_part(value),
        _ => TablePart::Outside,
    }
}

/// The tree of one document. Node 0 is the root; a node keeps its index for
/// as long as the document lives, whether it still hangs in the tree or not.
pub struct Document {
    elements: Vec<Element>,
    parents: Vec<Option<usize>>,
    children: Vec<Vec<usize>>,
}

impl View for Document {
    type V = Seq<NodeView>;

    closed spec fn view(&self) -> Seq<NodeView> {
        Seq::new(
            self.elements.len() as nat,
            |i: int|
                NodeView {
                    element: self.elements[i]@,
                    parent: self.parents[i],
                    children: self.children[i]@,
                },
        )
    }
}

impl Document {
    /// Whether the three lists that hold the nodes are of one length.
    pub closed spec fn aligned(&self) -> bool {
        self.parents.len() == self.elements.len() && self.children.len() == self.elements.len()
    }

    /// Whether the value is a document.
    pub open spec fn wf(&self) -> bool {
        self.aligned() && well_formed(self@)
    }

    /// The document that is one root.
    fn with_root(element: Element) -> (doc: Document)
        ensures
            doc.wf(),
            doc@ == root_only(element@),
    {
        let root = match part_of(&element) {
            TablePart::Cell => Element::Raw(String::new()),
            _ => element,
        };
        let mut elements: Vec<Element> = Vec::new();
        elements.push(root);
        let mut parents: Vec<Option<usize>> = Vec::new();
        parents.push(None);
        let mut children: Vec<Vec<usize>> = Vec::new();
        children.push(Vec::new());
        let doc = Document { elements, parents, children };
        proof {
            assert(doc@ =~~= root_only(element@));
            assert(child_linked(doc@, 0));
            assert(cell_placed(doc@, 0));
        }
        doc
    }

    /// Whether a new last child of node `p` can be a table cell.
    fn fits_cell(&self, p: usize) -> (fits: bool)
        requires
            self.wf(),
            p < self@.len(),
        ensures
            fits == cell_fits(self@, p as int),
    {
        if p == 0 {
            return false;
        }
        match part_of(&self.elements[p]) {
            TablePart::Row => {},
            _ => {
                return false;
            },
        }
        match self.parents[p] {
            Some(g) => {
                proof {
                    assert(child_linked(self@, p as int));
                }
                match part_of(&self.elements[g]) {
                    TablePart::Table(columns) => self.children[p].len() < columns,
                    _ => false,
                }
            },
            None => false,
        }
    }

    /// Adds a node as the last child of node `p`.
    fn push_child(&mut self, p: usize, element: Element)
        requires
            old(self).wf(),
            p < old(self)@.len(),
        ensures
            final(self).wf(),
            final(self)@ == with_child(old(self)@, p as int, element@),
    {
        let fits = self.fits_cell(p);
        let placed = match part_of(&element) {
            TablePart::Cell => if fits {
                element
            } else {
                Element::Raw(String::new())
            },
            _ => element,
        };
        let c = self.elements.len();
        proof {
            assert(self.children@.len() == c);
        }
        self.elements.push(placed);
        self.parents.push(Some(p));
        self.children.push(Vec::new());
        self.children[p].push(c);
        proof {
            assert(self.elements.len() == c + 1);
            assert(self@ =~~= with_child(old(self)@, p as int, element@));
            lemma_with_child(old(self)@, p as int, element@);
        }
    }
}

impl Document {
    /// Takes the nodes of `nodes` but the first into the document, in
    /// document order: each becomes the last child of the node that is open
    /// at its depth. The root alone is open at the start.
    fn grow(&mut self, nodes: &Vec<(usize, comrak::nodes::NodeValue)>)
        requires
            old(self).wf(),
        ensures
            final(self).wf(),
            final(self)@ == grown(old(self)@, seq![0usize], below_root(items_of(nodes@))).0,
    {
        let ghost items = below_root(items_of(nodes@));
        let mut open: Vec<usize> = Vec::new();
        open.push(0);
        let mut i: usize = 1;
        proof {
            assert(items.take(0) =~= Seq::empty());
        }
        while i < nodes.len()
            invariant
                1 <= i,
                i <= nodes.len() || (nodes.len() == 0 && i == 1),
                self.wf(),
                items == below_root(items_of(nodes@)),
                open.len() >= 1,
                forall|j: int| 0 <= j < open.len() ==> #[trigger] open[j] < self@.len(),
                (self@, open@) == grown(old(self)@, seq![0usize], items.take(i - 1)),
            decreases nodes.len() - i,
        {
            let depth = nodes[i].0;
            let element = import_value(nodes[i].1.clone());
            let kept: usize = if depth < 1 {
                1
            } else if depth > open.len() {
                open.len()
            } else {
                depth
            };
            let p = open[kept - 1];
            let c = self.elements.len();
            proof {
                assert(items.take(i as int).drop_last() =~= items.take(i - 1));
                assert(items.take(i as int).last() == (depth, element@));
                assert(c == self@.len());
            }
            self.push_child(p, element);
            open.truncate(kept);
            open.push(c);
            proof {
                assert(open@ =~= grown(old(self)@, seq![0usize], items.take(i as int)).1);
            }
            i += 1;
        }
        proof {
            assert(items_of(nodes@).len() == nodes@.len());
            if nodes.len() > 0 {
                assert(items.len() == nodes@.len() - 1);
            }
            assert(items.take(i - 1) =~= items);
        }
    }

    /// The document that a list of nodes in document order stands for, each
    /// node given with the number of its ancestors. The first node is the
    /// root; each other node becomes the last child of the node that is
    /// open at its depth, or of the nearest that is. A table cell for which
    /// there is no place in a row of a table enters as empty markup.
    pub fn from_nodes(nodes: &Vec<(usize, comrak::nodes::NodeValue)>) -> (doc: Document)
        ensures
            doc.wf(),
            doc@ == tree_of(items_of(nodes@)),
    {
        if nodes.len() == 0 {
            Document::with_root(Element::Raw(String::new()))
        } else {
            let mut doc = Document::with_root(import_value(nodes[0].1.clone()));
            doc.grow(nodes);
            doc
        }
    }

    /// Reads a Markdown text into a document.
    pub fn parse(source: &str, syntax: Syntax) -> (doc: Document)
        ensures
            doc.wf(),
            doc@ == tree_of(parsed_items(source@, syntax)),
    {
        let nodes = parse_nodes(source, syntax);
        Document::from_nodes(&nodes)
    }

    /// Reads a Markdown text and puts what it holds in front of what the
    /// document holds: the blocks of the text become the first children of
    /// the root.
    pub fn graft(&mut self, source: &str, syntax: Syntax)
        requires
            old(self).wf(),
        ensures
            final(self).wf(),
            final(self)@ == grafted(old(self)@, parsed_items(source@, syntax)),
    {
        let nodes = parse_nodes(source, syntax);
        let before = self.children[0].len();
        self.grow(&nodes);
        let ghost grown_up = self@;
        let mut turned: Vec<usize> = Vec::new();
        let all = self.children[0].len();
        proof {
            lemma_grown_keeps(old(self)@, seq![0usize], below_root(items_of(nodes@)));
        }
        let mut k: usize = before;
        while k < all
            invariant
                before <= k <= all,
                all == self.children[0]@.len(),
                0 < self.children@.len(),
                turned@ == self.children[0]@.subrange(before as int, k as int),
            decreases all - k,
        {
            turned.push(self.children[0][k]);
            k += 1;
        }
        let mut k: usize = 0;
        while k < before
            invariant
                k <= before <= all,
                all == self.children[0]@.len(),
                0 < self.children@.len(),
                turned@ == self.children[0]@.skip(before as int) + self.children[0]@.subrange(
                    0,
                    k as int,
                ),
            decreases before - k,
        {
            turned.push(self.children[0][k]);
            k += 1;
        }
        self.children.set(0, turned);
        proof {
            assert(self@ =~~= fronted(grown_up, before as int));
            lemma_fronted(grown_up, before as int);
        }
    }

    /// The number of nodes.
    pub fn len(&self) -> (n: usize)
        requires
            self.wf(),
        ensures
            n == self@.len(),
            n > 0,
    {
        self.elements.len()
    }

    /// What node `i` is.
    pub fn element(&self, i: usize) -> (element: &Element)
        requires
            self.wf(),
            i < self@.len(),
        ensures
            element@ == self@[i as int].element,
    {
        &self.elements[i]
    }

    /// The node that node `i` hangs from.
    pub fn parent(&self, i: usize) -> (parent: Option<usize>)
        requires
            self.wf(),
            i < self@.len(),
        ensures
            parent == self@[i as int].parent,
    {
        self.parents[i]
    }

    /// The children of node `i`, in document order.
    pub fn children(&self, i: usize) -> (children: &Vec<usize>)
        requires
            self.wf(),
            i < self@.len(),
        ensures
            children@ == self@[i as int].children,
    {
        &self.children[i]
    }

    /// The first child of node `i`.
    pub fn first_child(&self, i: usize) -> (child: Option<usize>)
        requires
            self.wf(),
            i < self@.len(),
        ensures
            child == if self@[i as int].children.len() > 0 {
                Some(self@[i as int].children[0])
            } else {
                None
            },
    {
        if self.children[i].len() > 0 {
            Some(self.children[i][0])
        } else {
            None
        }
    }

    /// Whether node `i` hangs in the tree under the root.
    pub fn is_attached(&self, i: usize) -> (hangs: bool)
        requires
            self.wf(),
            i < self@.len(),
        ensures
            hangs == attached(self@, i as int),
    {
        let mut at: usize = i;
        while at != 0
            invariant
                self.wf(),
                at < self@.len(),
                attached(self@, i as int) == attached(self@, at as int),
            decreases at,
        {
            proof {
                assert(child_linked(self@, at as int));
            }
            match self.parents[at] {
                Some(p) => {
                    at = p;
                },
                None => {
                    return false;
                },
            }
        }
        true
    }

    /// Puts `element` in the place of what node `i` is. Neither may be part
    /// of a table.
    pub fn set_element(&mut self, i: usize, element: Element)
        requires
            old(self).wf(),
            i < old(self)@.len(),
            part(old(self)@[i as int].element) == TablePart::Outside,
            part(element@) == TablePart::Outside,
        ensures
            final(self).wf(),
            final(self)@ == old(self)@.update(
                i as int,
                NodeView { element: element@, ..old(self)@[i as int] },
            ),
    {
        self.elements.set(i, element);
        proof {
            assert(self@ =~~= old(self)@.update(
                i as int,
                NodeView { element: element@, ..old(self)@[i as int] },
            ));
            lemma_replaced(old(self)@, i as int, element@);
        }
    }

    /// Takes node `i` off the node that it hangs from. The node and its
    /// descendants stay in the arena.
    pub fn detach(&mut self, i: usize)
        requires
            old(self).wf(),
            i < old(self)@.len(),
        ensures
            final(self).wf(),
            final(self)@ == detached(old(self)@, i as int),
    {
        match self.parents[i] {
            None => {},
            Some(p) => {
                proof {
                    assert(child_linked(self@, i as int));
                    assert(self@[p as int].children.no_duplicates());
                }
                let ghost kids = self.children[p as int]@;
                let ghost at = kids.index_of(i);
                let mut k: usize = 0;
                while k < self.children[p].len() && self.children[p][k] != i
                    invariant
                        p < self.children@.len(),
                        self.children[p as int]@ == kids,
                        0 <= at < kids.len(),
                        kids[at] == i,
                        k <= at,
                    decreases kids.len() - k,
                {
                    k += 1;
                }
                assert(k == at);
                self.children[p].remove(k);
                self.parents.set(i, None);
                proof {
                    assert(self@ =~~= detached(old(self)@, i as int));
                    lemma_detached(old(self)@, i as int);
                }
            },
        }
    }

    /// Takes all children off node `i`. They and their descendants stay in
    /// the arena.
    pub fn clear_children(&mut self, i: usize)
        requires
            old(self).wf(),
            i < old(self)@.len(),
        ensures
            final(self).wf(),
            final(self)@ == cleared(old(self)@, i as int),
    {
        let ghost kids = self.children[i as int]@;
        let mut k: usize = 0;
        proof {
            assert forall|j: int| 0 <= j < kids.len() implies #[trigger] kids[j]
                < self.parents@.len() by {
                assert(parent_linked(self@, i as int, j));
            }
        }
        while k < self.children[i].len()
            invariant
                self.aligned(),
                old(self).wf(),
                self.parents@.len() == old(self).parents@.len(),
                i < self.children@.len(),
                self.elements == old(self).elements,
                self.children == old(self).children,
                kids == self.children[i as int]@,
                k <= kids.len(),
                forall|j: int| 0 <= j < kids.len() ==> #[trigger] kids[j] < self.parents@.len(),
                forall|x: int|
                    0 <= x < self.parents@.len() ==> #[trigger] self.parents[x] == if exists|j: int|
                        0 <= j < k && kids[j] == x {
                        None
                    } else {
                        old(self).parents[x]
                    },
            decreases kids.len() - k,
        {
            let c = self.children[i][k];
            proof {
                assert(parent_linked(old(self)@, i as int, k as int));
            }
            let ghost before = self.parents@;
            self.parents.set(c, None);
            proof {
                assert forall|x: int| 0 <= x < self.parents@.len() implies #[trigger] self.parents[x]
                    == if exists|j: int| 0 <= j < k + 1 && kids[j] == x {
                    None
                } else {
                    old(self).parents[x]
                } by {
                    if x == c {
                        assert(kids[k as int] == x);
                    } else {
                        if exists|j: int| 0 <= j < k + 1 && kids[j] == x {
                            let j = choose|j: int| 0 <= j < k + 1 && kids[j] == x;
                            assert(0 <= j < k && kids[j] == x);
                        }
                    }
                }
            }
            k += 1;
        }
        self.children.set(i, Vec::new());
        proof {
            let t = old(self)@;
            assert forall|x: int| 0 <= x < t.len() implies (#[trigger] self@[x]) == cleared(
                t,
                i as int,
            )[x] by {
                assert(child_linked(t, x));
                if t[x].parent == Some(i) {
                    let j = choose|j: int| 0 <= j < kids.len() && kids[j] == x as usize;
                    assert(0 <= j < k && kids[j] == x);
                } else {
                    if exists|j: int| 0 <= j < k && kids[j] == x {
                        let j = choose|j: int| 0 <= j < k && kids[j] == x;
                        assert(parent_linked(t, i as int, j));
                    }
                }
                assert(self@[x].children =~= cleared(t, i as int)[x].children);
            }
            assert(self@ =~= cleared(t, i as int));
            lemma_cleared(t, i as int);
        }
    }

    /// Has `comrak` write the document as markup.
    pub fn render(&self, syntax: Syntax) -> (html: String)
        requires
            self.wf(),
        ensures
            html@ == html_of(self@, syntax),
    {
        let mut values: Vec<comrak::nodes::NodeValue> = Vec::new();
        let mut i: usize = 0;
        while i < self.elements.len()
            invariant
                self.wf(),
                i <= self.elements.len(),
                values.len() == i,
                forall|j: int|
                    0 <= j < i ==> #[trigger] values[j] == exported_value(self@[j].element)
                        && table_part_of(values[j]) == part(self@[j].element),
            decreases self.elements.len() - i,
        {
            values.push(export_value(self.elements[i].duplicate()));
            i += 1;
        }
        proof {
            let t = self@;
            let kids = lists(self.children@);
            assert(values@ =~= Seq::new(t.len(), |i: int| exported_value(t[i].element)));
            assert(kids =~= Seq::new(t.len(), |i: int| t[i].children));
            lemma_formattable(t, values@, kids);
        }
        format_nodes(values, &self.children, syntax)
    }
}

/// Growing a document keeps the nodes it has and, at the root, the children
/// it has as its first.
pub proof fn lemma_grown_keeps(t: Seq<NodeView>, open: Seq<usize>, items: Seq<(usize, ElementView)>)
    requires
        t.len() > 0,
        open.len() > 0,
        forall|j: int| 0 <= j < open.len() ==> #[trigger] open[j] < t.len(),
    ensures
        grown(t, open, items).0.len() == t.len() + items.len(),
        grown(t, open, items).1.len() > 0,
        forall|j: int|
            0 <= j < grown(t, open, items).1.len() ==> #[trigger] grown(t, open, items).1[j]
                < grown(t, open, items).0.len(),
        grown(t, open, items).0[0].children.take(t[0].children.len() as int) == t[0].children,
        grown(t, open, items).0[0].children.len() >= t[0].children.len(),
    decreases items.len(),
{
    if items.len() > 0 {
        lemma_grown_keeps(t, open, items.drop_last());
        let (before, path) = grown(t, open, items.drop_last());
        let (depth, element) = items.last();
        let kept = kept_open(depth, path);
        let p = path[kept - 1] as int;
        let after = with_child(before, p, element);
        assert(after[0].children.take(t[0].children.len() as int) =~= before[0].children.take(
            t[0].children.len() as int,
        ));
    } else {
        assert(t[0].children.take(t[0].children.len() as int) =~= t[0].children);
    }
}

/// Growing a document gives a document.
pub proof fn lemma_grown_is_well_formed(
    t: Seq<NodeView>,
    open: Seq<usize>,
    items: Seq<(usize, ElementView)>,
)
    requires
        well_formed(t),
        open.len() > 0,
        forall|j: int| 0 <= j < open.len() ==> #[trigger] open[j] < t.len(),
        t.len() + items.len() <= usize::MAX,
    ensures
        well_formed(grown(t, open, items).0),
    decreases items.len(),
{
    if items.len() > 0 {
        let rest = items.drop_last();
        lemma_grown_is_well_formed(t, open, rest);
        lemma_grown_keeps(t, open, rest);
        let (before, path) = grown(t, open, rest);
        let kept = kept_open(items.last().0, path);
        lemma_with_child(before, path[kept - 1] as int, items.last().1);
    }
}

/// A list of nodes in document order stands for a document with as many
/// nodes, or with one where the list is empty.
pub proof fn lemma_tree_of_is_well_formed(items: Seq<(usize, ElementView)>)
    requires
        items.len() <= usize::MAX,
    ensures
        well_formed(tree_of(items)),
        tree_of(items).len() == if items.len() == 0 {
            1
        } else {
            items.len()
        },
{
    let root = if items.len() == 0 {
        root_only(ElementView::Raw(Seq::empty()))
    } else {
        root_only(items[0].1)
    };
    assert(child_linked(root, 0));
    assert(cell_placed(root, 0));
    assert(well_formed(root));
    if items.len() > 0 {
        lemma_grown_is_well_formed(root, seq![0usize], below_root(items));
        lemma_grown_keeps(root, seq![0usize], below_root(items));
    }
}

/// A document is a tree that `comrak` can write.
pub proof fn lemma_formattable(
    t: Seq<NodeView>,
    values: Seq<comrak::nodes::NodeValue>,
    kids: Seq<Seq<usize>>,
)
    requires
        well_formed(t),
        values.len() == t.len(),
        kids.len() == t.len(),
        forall|i: int| 0 <= i < t.len() ==> #[trigger] kids[i] == t[i].children,
        forall|i: int| 0 <= i < t.len() ==> table_part_of(#[trigger] values[i]) == part(t[i].element),
    ensures
        formattable(values, kids),
{
    assert(cell_placed(t, 0));
    assert forall|p: int, k: int| 0 <= p < kids.len() && 0 <= k < kids[p].len() implies p < (
    #[trigger] kids[p][k]) < kids.len() by {
        assert(parent_linked(t, p, k));
        assert(child_linked(t, kids[p][k] as int));
    }
    assert forall|p: int, k: int, q: int, j: int|
        0 <= p < kids.len() && 0 <= k < kids[p].len() && 0 <= q < kids.len() && 0 <= j
            < kids[q].len() && #[trigger] kids[p][k] == #[trigger] kids[q][j] implies p == q && k
        == j by {
        assert(parent_linked(t, p, k));
        assert(parent_linked(t, q, j));
        assert(t[p].children.no_duplicates());
    }
    assert forall|p: int, k: int|
        0 <= p < kids.len() && 0 <= k < kids[p].len() && table_part_of(
            values[(#[trigger] kids[p][k]) as int],
        ) == TablePart::Cell implies crate::markdown::cell_has_place(values, kids, p, k) by {
        let c = kids[p][k] as int;
        assert(parent_linked(t, p, k));
        assert(cell_placed(t, c));
        assert forall|g: int, j: int|
            0 <= g < kids.len() && 0 <= j < kids[g].len() && #[trigger] kids[g][j]
                == p implies match table_part_of(values[g]) {
            TablePart::Table(columns) => k < columns,
            _ => false,
        } by {
            assert(parent_linked(t, g, j));
        }
    }
}

} // verus!
