//! The heading that a page takes its title from, and where it goes.

use crate::config::{title_of, PageConfigView};
use crate::document::{
    attached, below_root, child_linked, detached, fronted, grown, lemma_detached,
    lemma_grown_keeps, parent_linked, parsed_items, well_formed, NodeView,
};
use crate::markdown::ElementView;
use crate::render_markdown::{
    coded, finished, image_url, image_warning, images_rewritten, is_remote, leading_heading,
    node_text, page_syntax, parsed_tree, prepared, relinked, superscript_source, without_heading,
};
use crate::paths::path_has_root;
use crate::render_markdown::Warning;
use vstd::prelude::*;

verus! {

/// Whether the nodes of `t` are nodes of `u` that hang from the node that
/// they hung from, or from none.
pub open spec fn parents_kept(t: Seq<NodeView>, u: Seq<NodeView>) -> bool {
    &&& t.len() <= u.len()
    &&& forall|j: int|
        0 <= j < t.len() ==> (#[trigger] u[j]).parent == t[j].parent || u[j].parent is None
}

/// Whether node `j` is node `h` or one of its descendants.
pub open spec fn under(t: Seq<NodeView>, j: int, h: int) -> bool
    decreases j,
{
    if j == h {
        true
    } else if j <= 0 {
        false
    } else {
        match t[j].parent {
            Some(p) => p < j && under(t, p as int, h),
            None => false,
        }
    }
}

/// Growing a document keeps the parents of the nodes it has.
pub proof fn lemma_grown_parents(t: Seq<NodeView>, open: Seq<usize>, items: Seq<(usize, ElementView)>)
    requires
        t.len() > 0,
        open.len() > 0,
        forall|j: int| 0 <= j < open.len() ==> #[trigger] open[j] < t.len(),
    ensures
        parents_kept(t, grown(t, open, items).0),
    decreases items.len(),
{
    if items.len() > 0 {
        let rest = items.drop_last();
        lemma_grown_parents(t, open, rest);
        lemma_grown_keeps(t, open, rest);
        let (before, path) = grown(t, open, rest);
        let after = grown(t, open, items).0;
        assert forall|j: int| 0 <= j < t.len() implies (#[trigger] after[j]).parent == t[j].parent
            || after[j].parent is None by {
            assert(after[j].parent == before[j].parent);
        }
    }
}

/// What hangs from no node and is not the root, and all that is under it,
/// does not hang in the tree, and stays so as long as no node gets a new
/// parent.
pub proof fn lemma_cut_off_stays(t: Seq<NodeView>, u: Seq<NodeView>, h: int, j: int)
    requires
        parents_kept(t, u),
        0 < h < t.len(),
        0 <= j < t.len(),
        u[h].parent is None,
        under(t, j, h),
    ensures
        !attached(u, j),
    decreases j,
{
    if j != h {
        match t[j].parent {
            Some(p) => {
                if u[j].parent is Some {
                    lemma_cut_off_stays(t, u, h, p as int);
                }
            },
            None => {},
        }
    }
}

/// A page without a configured title takes the text of the level-1 heading
/// that its source begins with as its title, and that heading is not part
/// of the page: neither it nor anything under it hangs in the tree that is
/// written as markup.
pub proof fn lemma_title_is_leading_heading(
    config: PageConfigView,
    source: Seq<char>,
    existing: Seq<Seq<char>>,
    found: Seq<(u64, Option<Seq<char>>)>,
    heading: usize,
)
    requires
        config.override_title is None,
        leading_heading(parsed_tree(source)) == Some(heading),
        well_formed(parsed_tree(source)),
    ensures
        title_of(config, source) == Some(node_text(parsed_tree(source), heading as int)),
        forall|j: int|
            0 <= j < parsed_tree(source).len() && #[trigger] under(
                parsed_tree(source),
                j,
                heading as int,
            ) ==> !attached(
                finished(
                    prepared(source, config.superscript_header),
                    config.file_path,
                    existing,
                    found,
                ),
                j,
            ),
{
    let t0 = parsed_tree(source);
    let h = heading as int;
    assert(parent_linked(t0, 0, 0));
    assert(child_linked(t0, h));
    let t1 = without_heading(t0);
    let t2 = prepared(source, config.superscript_header);
    let t3 = images_rewritten(t2, config.file_path, existing);
    let t4 = coded(t3);
    let t5 = relinked(t4, found);
    assert(t5 == finished(t2, config.file_path, existing, found));
    assert(t1 == detached(t0, h));
    assert(child_linked(t0, h));
    assert(parents_kept(t0, t1));
    assert(t1[h].parent is None);
    lemma_detached(t0, h);
    match config.superscript_header {
        Some(annotation) => {
            let items = below_root(parsed_items(superscript_source(annotation), page_syntax()));
            lemma_grown_parents(t1, seq![0usize], items);
            lemma_grown_keeps(t1, seq![0usize], items);
            let g = grown(t1, seq![0usize], items).0;
            assert(t2 == fronted(g, t1[0].children.len() as int));
            assert(parents_kept(g, t2));
        },
        None => {},
    }
    assert(parents_kept(t1, t2));
    assert(parents_kept(t2, t3));
    assert(parents_kept(t3, t4));
    assert(parents_kept(t4, t5));
    assert(parents_kept(t0, t5));
    assert(t5[h].parent is None);
    assert forall|j: int| 0 <= j < t0.len() && #[trigger] under(t0, j, h) implies !attached(
        t5,
        j,
    ) by {
        lemma_cut_off_stays(t0, t5, h, j);
    }
}

/// An image whose path begins at a root stays as it is, with a warning: the
/// node keeps its element and its children.
pub proof fn lemma_rooted_image_stays(
    t: Seq<NodeView>,
    source_path: Seq<char>,
    existing: Seq<Seq<char>>,
    i: int,
    url: Seq<char>,
)
    requires
        0 <= i < t.len(),
        image_url(t, i) == Some(url),
        !is_remote(url),
        path_has_root(url),
    ensures
        images_rewritten(t, source_path, existing)[i].element == t[i].element,
        images_rewritten(t, source_path, existing)[i].children == t[i].children,
        image_warning(t, source_path, existing, i) == Some(Warning::ImageRooted(i as usize)),
{
}

} // verus!
