//! From a Markdown text to the markup of a page.

use crate::document::{
    attached, child_linked, detached, grafted, html_of, parent_linked, parsed_items, tree_of,
    well_formed, Document, NodeView,
};
use crate::config::{resolve_title, title_of, PageConfig};
use crate::error::Error;
use crate::markdown::{Element, ElementView, Syntax};
use crate::paths::{
    final_name, final_name_of, is_rooted, path_has_root, resolve_beside, sibling_of,
};
use crate::text::{
    bracketed, chars_of, find_char, has_prefix, parse_u64, parse_u64_chars, position_of,
    push_char, starts_with, str_eq,
    first_of_each, lemma_first_of_each, text_of, texts, trim, trim_end, trim_end_index,
    trim_start_index, trimmed_end,
};
use vstd::prelude::*;
use vstd::string::StringExecFns;

verus! {

/// A page as it goes to the wiki.
#[derive(Debug, Clone)]
pub struct HtmlPage {
    /// The files that the page shows as images and that have to be
    /// attached to it. No path stands twice.
    pub image_paths: Vec<String>,
    /// The text of the level-1 heading that the document began with.
    pub page_header: Option<String>,
    /// The markup of the page.
    pub html: String,
    /// What was left as it stood, and why.
    pub warnings: Vec<Warning>,
}

/// A node that was left as it stood, and why.
#[derive(Debug, Clone, Copy, PartialEq, Eq, Structural)]
pub enum Warning {
    /// The image at this node names a file by a path that begins at a root.
    ImageRooted(usize),
    /// The image at this node names a file that is not there.
    ImageMissing(usize),
    /// The title of the link at this node is written as a note on the link
    /// but names no page.
    LinkIdMalformed(usize),
    /// The page that the link at this node names was not found.
    LinkUnresolved(usize),
}

/// Where an image stands in its line.
#[derive(Debug, Clone, Copy, PartialEq, Eq, Structural)]
pub enum Align {
    /// At the left.
    Left,
    /// At the right.
    Right,
    /// In the middle.
    Center,
}

/// The alignment that an alternative text asks for: left, unless the text
/// is `align-right` or `align-center`.
pub open spec fn align_of(text: Seq<char>) -> Align {
    if text == "align-right"@ {
        Align::Right
    } else if text == "align-center"@ {
        Align::Center
    } else {
        Align::Left
    }
}

/// The name of an alignment in markup.
pub open spec fn align_name(align: Align) -> Seq<char> {
    match align {
        Align::Left => "left"@,
        Align::Right => "right"@,
        Align::Center => "center"@,
    }
}

impl Align {
    /// The alignment that an alternative text asks for.
    pub fn from_str(value: &str) -> (align: Align)
        ensures
            align == align_of(value@),
    {
        if str_eq(value, "align-right") {
            Align::Right
        } else if str_eq(value, "align-center") {
            Align::Center
        } else {
            Align::Left
        }
    }

    /// The name of the alignment in markup.
    pub fn as_str(&self) -> (name: &'static str)
        ensures
            name@ == align_name(*self),
    {
        match self {
            Align::Left => "left",
            Align::Right => "right",
            Align::Center => "center",
        }
    }
}

/// The markup that shows the attachment `file_name` as an image.
pub open spec fn image_block(align: Align, file_name: Seq<char>) -> Seq<char> {
    "<p>\n                    <ac:image ac:align=\""@ + align_name(align)
        + "\">\n                        <ri:attachment ri:filename=\""@ + file_name
        + "\" />\n                    </ac:image>\n                    </p>"@
}

/// The markup that shows the file at `file_path`, attached to the page
/// under its file name, as an image.
pub fn confluence_image_block(file_path: &str, alignment: Align) -> (block: Element)
    ensures
        block@ == ElementView::Raw(image_block(alignment, final_name(file_path@))),
{
    let name = final_name_of(file_path);
    let mut markup = "<p>\n                    <ac:image ac:align=\"".to_owned();
    markup.append(alignment.as_str());
    markup.append("\">\n                        <ri:attachment ri:filename=\"");
    markup.append(name.as_str());
    markup.append("\" />\n                    </ac:image>\n                    </p>");
    Element::Raw(markup)
}

/// `text` in a form that can stand in a CDATA section: each `]]>` in it is
/// cut in two by the end of one section and the start of the next.
pub open spec fn cdata_safe(text: Seq<char>) -> Seq<char>
    decreases text.len(),
{
    if text.len() == 0 {
        text
    } else if text.len() >= 3 && text[0] == ']' && text[1] == ']' && text[2] == '>' {
        "]]]]><![CDATA[>"@ + cdata_safe(text.skip(3))
    } else {
        seq![text[0]] + cdata_safe(text.skip(1))
    }
}

/// The language that a code block is shown in: its info string, or
/// `plaintext` where that is empty.
pub open spec fn language_of(info: Seq<char>) -> Seq<char> {
    if info.len() == 0 {
        "plaintext"@
    } else {
        info
    }
}

/// The code macro that shows `literal`, without its trailing white space, in
/// the language of `info`.
pub open spec fn code_macro(info: Seq<char>, literal: Seq<char>) -> Seq<char> {
    "\n                    <ac:structured-macro ac:name=\"code\" ac:schema-version=\"1\">\n                    <ac:parameter ac:name=\"language\">"@
        + language_of(info)
        + "</ac:parameter>\n                    <ac:plain-text-body><![CDATA["@ + cdata_safe(
        trim_end(literal),
    ) + "]]></ac:plain-text-body>\n                    </ac:structured-macro>\n                "@
}

/// `text` in a form that can stand in a CDATA section.
pub fn escape_cdata(text: &str) -> (safe: String)
    ensures
        safe@ == cdata_safe(text@),
{
    let chars = chars_of(text);
    let mut safe = String::new();
    let mut i: usize = 0;
    proof {
        assert(chars@.skip(0) =~= chars@);
    }
    while i < chars.len()
        invariant
            i <= chars.len(),
            chars@ == text@,
            safe@ + cdata_safe(chars@.skip(i as int)) == cdata_safe(chars@),
        decreases chars.len() - i,
    {
        let ghost rest = chars@.skip(i as int);
        let ghost before = safe@;
        if chars.len() - i >= 3 && chars[i] == ']' && chars[i + 1] == ']' && chars[i + 2] == '>' {
            safe.append("]]]]><![CDATA[>");
            proof {
                assert(rest.skip(3) =~= chars@.skip(i + 3));
                assert(before + ("]]]]><![CDATA[>"@ + cdata_safe(rest.skip(3))) =~= (before
                    + "]]]]><![CDATA[>"@) + cdata_safe(rest.skip(3)));
            }
            i += 3;
        } else {
            push_char(&mut safe, chars[i]);
            proof {
                assert(rest.skip(1) =~= chars@.skip(i + 1));
                assert(before + (seq![rest[0]] + cdata_safe(rest.skip(1))) =~= before.push(rest[0])
                    + cdata_safe(rest.skip(1)));
            }
            i += 1;
        }
    }
    proof {
        assert(safe@ + Seq::<char>::empty() =~= safe@);
    }
    safe
}

/// The code macro that takes the place of a code block with the info
/// string `info` and the text `literal`.
pub fn replace_with_codeblock_macro(info: &str, literal: &str) -> (block: Element)
    ensures
        block@ == ElementView::Raw(code_macro(info@, literal@)),
{
    let code = trimmed_end(literal);
    let safe = escape_cdata(code.as_str());
    let mut markup =
        "\n                    <ac:structured-macro ac:name=\"code\" ac:schema-version=\"1\">\n                    <ac:parameter ac:name=\"language\">".to_owned();
    if info.unicode_len() == 0 {
        markup.append("plaintext");
    } else {
        markup.append(info);
    }
    markup.append("</ac:parameter>\n                    <ac:plain-text-body><![CDATA[");
    markup.append(safe.as_str());
    markup.append(
        "]]></ac:plain-text-body>\n                    </ac:structured-macro>\n                ",
    );
    Element::Raw(markup)
}

/// The page that a link title names: the title is `pid:` and a number of 64
/// bits, which may stand in white space, and holds no other colon.
pub open spec fn page_id_of(title: Seq<char>) -> Option<u64> {
    if title.len() >= 4 && title[0] == 'p' && title[1] == 'i' && title[2] == 'd' && title[3] == ':'
        && !title.skip(4).contains(':') {
        parse_u64(trim(title.skip(4)))
    } else {
        None
    }
}

/// A link to a page of the wiki.
#[derive(Debug, Clone, Copy, PartialEq, Eq, Structural)]
pub struct PageLink {
    /// The identifier of the page.
    pub id: u64,
}

impl PageLink {
    /// Reads a link title as a link to a page of the wiki.
    pub fn try_option_into(input: &str) -> (link: Option<PageLink>)
        ensures
            link == match page_id_of(input@) {
                Some(id) => Some(PageLink { id }),
                None => None,
            },
    {
        let chars = chars_of(input);
        if !(chars.len() >= 4 && chars[0] == 'p' && chars[1] == 'i' && chars[2] == 'd' && chars[3]
            == ':') {
            return None;
        }
        let mut i: usize = 4;
        while i < chars.len()
            invariant
                4 <= i <= chars.len(),
                chars@ == input@,
                forall|k: int| 4 <= k < i ==> chars@[k] != ':',
            decreases chars.len() - i,
        {
            if chars[i] == ':' {
                assert(chars@.skip(4)[i - 4] == ':');
                return None;
            }
            i += 1;
        }
        let ghost rest = chars@.skip(4);
        proof {
            assert forall|k: int| 0 <= k < rest.len() implies rest[k] != ':' by {
                assert(rest[k] == chars@[k + 4]);
            }
            assert(rest =~= chars@.subrange(4, chars.len() as int));
        }
        let start = trim_start_index(&chars, 4, chars.len());
        let end = trim_end_index(&chars, start, chars.len());
        proof {
            assert(rest.skip(start - 4) =~= chars@.subrange(start as int, chars.len() as int));
            assert(chars@.subrange(start as int, chars.len() as int).take(end - start)
                =~= chars@.subrange(start as int, end as int));
        }
        match parse_u64_chars(&chars, start, end) {
            Some(id) => Some(PageLink { id }),
            None => None,
        }
    }
}

/// The text of node `i`: what a text node or a code span holds; of any
/// other node, the texts of its children one after the other.
pub open spec fn node_text(t: Seq<NodeView>, i: int) -> Seq<char>
    decreases t.len() - i, t[i].children.len() + 1,
{
    match t[i].element {
        ElementView::Text(text) => text,
        ElementView::Code(literal) => literal,
        _ => text_under(t, i, t[i].children.len() as int),
    }
}

/// The texts of the first `k` children of node `i`, one after the other.
pub open spec fn text_under(t: Seq<NodeView>, i: int, k: int) -> Seq<char>
    decreases t.len() - i, k,
{
    if k <= 0 || k > t[i].children.len() {
        Seq::empty()
    } else {
        let child = t[i].children[k - 1] as int;
        text_under(t, i, k - 1) + if i < child < t.len() {
            node_text(t, child)
        } else {
            Seq::empty()
        }
    }
}

/// The level-1 heading that the document begins with: the first child of
/// the root, if it is one.
pub open spec fn leading_heading(t: Seq<NodeView>) -> Option<usize> {
    if t[0].children.len() > 0 && t[t[0].children[0] as int].element == ElementView::Heading(1) {
        Some(t[0].children[0])
    } else {
        None
    }
}

/// The document without the level-1 heading that it begins with.
pub open spec fn without_heading(t: Seq<NodeView>) -> Seq<NodeView> {
    match leading_heading(t) {
        Some(heading) => detached(t, heading as int),
        None => t,
    }
}

/// The text of the level-1 heading that the document begins with.
pub open spec fn heading_text(t: Seq<NodeView>) -> Option<Seq<char>> {
    match leading_heading(t) {
        Some(heading) => Some(node_text(t, heading as int)),
        None => None,
    }
}

/// Appends the text of node `i` to `out`.
pub fn collect_text(doc: &Document, i: usize, out: &mut String)
    requires
        doc.wf(),
        i < doc@.len(),
    ensures
        final(out)@ == old(out)@ + node_text(doc@, i as int),
    decreases doc@.len() - i,
{
    match doc.element(i) {
        Element::Text(text) => {
            out.append(text.as_str());
        },
        Element::Code(literal) => {
            out.append(literal.as_str());
        },
        _ => {
            let children = doc.children(i);
            let mut k: usize = 0;
            proof {
                assert(old(out)@ + Seq::<char>::empty() =~= old(out)@);
            }
            while k < children.len()
                invariant
                    doc.wf(),
                    i < doc@.len(),
                    children@ == doc@[i as int].children,
                    k <= children.len(),
                    out@ == old(out)@ + text_under(doc@, i as int, k as int),
                decreases children.len() - k,
            {
                let child = children[k];
                proof {
                    assert(parent_linked(doc@, i as int, k as int));
                    assert(child_linked(doc@, child as int));
                }
                let ghost before = out@;
                collect_text(doc, child, out);
                proof {
                    assert(old(out)@ + text_under(doc@, i as int, k + 1) =~= before + node_text(
                        doc@,
                        child as int,
                    ));
                }
                k += 1;
            }
        },
    }
}

/// The level-1 heading that the document begins with.
pub fn find_heading(doc: &Document) -> (heading: Option<usize>)
    requires
        doc.wf(),
    ensures
        heading == leading_heading(doc@),
        heading matches Some(h) ==> 0 < h < doc@.len(),
{
    match doc.first_child(0) {
        Some(first) => {
            proof {
                assert(parent_linked(doc@, 0, 0));
                assert(child_linked(doc@, first as int));
            }
            match doc.element(first) {
                Element::Heading(level) => if *level == 1 {
                    Some(first)
                } else {
                    None
                },
                _ => None,
            }
        },
        None => None,
    }
}

/// The title that a document gives itself: the text of the level-1 heading
/// that it begins with. A document that begins otherwise gives none.
pub fn get_page_title(doc: &Document) -> (title: Result<String, Error>)
    requires
        doc.wf(),
    ensures
        match heading_text(doc@) {
            Some(text) => title matches Ok(t) && t@ == text,
            None => title matches Err(Error::PageHeaderMissing),
        },
{
    match find_heading(doc) {
        Some(heading) => {
            let mut title = String::new();
            collect_text(doc, heading, &mut title);
            proof {
                assert(Seq::<char>::empty() + node_text(doc@, heading as int) =~= node_text(
                    doc@,
                    heading as int,
                ));
            }
            Ok(title)
        },
        None => Err(Error::PageHeaderMissing),
    }
}

/// Takes the level-1 heading that the document begins with out of the tree
/// and gives its text. A document that begins otherwise stays as it is.
pub fn get_and_remove_h1_header(doc: &mut Document) -> (title: Option<String>)
    requires
        old(doc).wf(),
    ensures
        final(doc).wf(),
        final(doc)@ == without_heading(old(doc)@),
        match heading_text(old(doc)@) {
            Some(text) => title matches Some(t) && t@ == text,
            None => title is None,
        },
{
    match find_heading(doc) {
        Some(heading) => {
            let mut title = String::new();
            collect_text(doc, heading, &mut title);
            proof {
                assert(Seq::<char>::empty() + node_text(doc@, heading as int) =~= node_text(
                    doc@,
                    heading as int,
                ));
            }
            doc.detach(heading);
            Some(title)
        },
        None => None,
    }
}

/// The Markdown text that writes `annotation` in superscript.
pub open spec fn superscript_source(annotation: Seq<char>) -> Seq<char> {
    "^"@ + annotation + "^"@
}

/// Puts `annotation`, in superscript, at the top of the document.
pub fn prepend_superscript(doc: &mut Document, annotation: &str, syntax: Syntax)
    requires
        old(doc).wf(),
    ensures
        final(doc).wf(),
        final(doc)@ == grafted(old(doc)@, parsed_items(superscript_source(annotation@), syntax)),
{
    let source = bracketed("^", annotation, "^");
    doc.graft(source.as_str(), syntax);
}

/// Where the file of an image is to be had.
#[derive(Debug, Clone)]
pub enum ImageTarget {
    /// On the web: the image stays as it is.
    Remote,
    /// At a path that begins at a root: the image stays as it is.
    Rooted,
    /// Beside the document, at this path, where no file is: the image stays
    /// as it is.
    Missing(String),
    /// Beside the document, at this path.
    Found(String),
}

/// The mathematical value of an [`ImageTarget`].
pub enum ImageTargetView {
    /// On the web.
    Remote,
    /// At a path that begins at a root.
    Rooted,
    /// Beside the document, at this path, where no file is.
    Missing(Seq<char>),
    /// Beside the document, at this path.
    Found(Seq<char>),
}

impl View for ImageTarget {
    type V = ImageTargetView;

    open spec fn view(&self) -> ImageTargetView {
        match self {
            ImageTarget::Remote => ImageTargetView::Remote,
            ImageTarget::Rooted => ImageTargetView::Rooted,
            ImageTarget::Missing(path) => ImageTargetView::Missing(path@),
            ImageTarget::Found(path) => ImageTargetView::Found(path@),
        }
    }
}

/// Whether the address is one of the web.
pub open spec fn is_remote(url: Seq<char>) -> bool {
    starts_with(url, "https://"@) || starts_with(url, "http://"@)
}

/// Where the file of an image is to be had, given what is known of its
/// address: whether it begins at a root, where it leads from the document,
/// and whether a file is there.
pub open spec fn target_from(url: Seq<char>, rooted: bool, resolved: Seq<char>, exists: bool) -> ImageTargetView {
    if is_remote(url) {
        ImageTargetView::Remote
    } else if rooted {
        ImageTargetView::Rooted
    } else if exists {
        ImageTargetView::Found(resolved)
    } else {
        ImageTargetView::Missing(resolved)
    }
}

/// Where the file of an image with the address `url` is to be had, in a
/// document that lies at `source_path`, when `existing` are the files that
/// are there.
pub open spec fn image_target(source_path: Seq<char>, url: Seq<char>, existing: Seq<Seq<char>>) -> ImageTargetView {
    target_from(
        url,
        path_has_root(url),
        sibling_of(source_path, url),
        existing.contains(sibling_of(source_path, url)),
    )
}

/// Whether the address is one of the web.
pub fn remote_url(url: &str) -> (remote: bool)
    ensures
        remote == is_remote(url@),
{
    let chars = chars_of(url);
    has_prefix(&chars, "https://") || has_prefix(&chars, "http://")
}

/// Where the file of an image is to be had, given what is known of its
/// address.
pub fn decide_image(url: &str, rooted: bool, resolved: String, exists: bool) -> (target: ImageTarget)
    ensures
        target@ == target_from(url@, rooted, resolved@, exists),
{
    if remote_url(url) {
        ImageTarget::Remote
    } else if rooted {
        ImageTarget::Rooted
    } else if exists {
        ImageTarget::Found(resolved)
    } else {
        ImageTarget::Missing(resolved)
    }
}

/// Whether `text` is among `list`.
pub fn contains_text(list: &Vec<String>, text: &str) -> (found: bool)
    ensures
        found == texts(list@).contains(text@),
{
    let mut i: usize = 0;
    while i < list.len()
        invariant
            i <= list.len(),
            forall|k: int| 0 <= k < i ==> texts(list@)[k] != text@,
        decreases list.len() - i,
    {
        if str_eq(list[i].as_str(), text) {
            assert(texts(list@)[i as int] == text@);
            return true;
        }
        i += 1;
    }
    false
}

/// Where the file of an image with the address `url` is to be had.
pub fn resolve_image(md_file_path: &str, url: &str, existing: &Vec<String>) -> (target:
    ImageTarget)
    ensures
        target@ == image_target(md_file_path@, url@, texts(existing@)),
{
    let rooted = is_rooted(url);
    let resolved = resolve_beside(md_file_path, url);
    let exists = contains_text(existing, resolved.as_str());
    decide_image(url, rooted, resolved, exists)
}

/// The address of the image at node `i`, if the node is an image that hangs
/// in the tree.
pub open spec fn image_url(t: Seq<NodeView>, i: int) -> Option<Seq<char>> {
    if attached(t, i) {
        match t[i].element {
            ElementView::Image(url, _) => Some(url),
            _ => None,
        }
    } else {
        None
    }
}

/// The file of the image at node `i`, if the node is an image that hangs in
/// the tree and the file is there.
pub open spec fn found_image(
    t: Seq<NodeView>,
    source_path: Seq<char>,
    existing: Seq<Seq<char>>,
    i: int,
) -> Option<Seq<char>> {
    match image_url(t, i) {
        Some(url) => match image_target(source_path, url, existing) {
            ImageTargetView::Found(path) => Some(path),
            _ => None,
        },
        None => None,
    }
}

/// The file that the image at node `i` may show, if the node is an image
/// that hangs in the tree and names a file beside the document.
pub open spec fn image_candidate(t: Seq<NodeView>, source_path: Seq<char>, i: int) -> Option<
    Seq<char>,
> {
    match image_url(t, i) {
        Some(url) => if is_remote(url) || path_has_root(url) {
            None
        } else {
            Some(sibling_of(source_path, url))
        },
        None => None,
    }
}

/// The alignment that the alternative text of the image at node `i` asks
/// for: that of its first child, if it is a text.
pub open spec fn alt_align(t: Seq<NodeView>, i: int) -> Align {
    if t[i].children.len() > 0 {
        match t[t[i].children[0] as int].element {
            ElementView::Text(text) => align_of(text),
            _ => Align::Left,
        }
    } else {
        Align::Left
    }
}

/// Why the image at node `i` stays as it is, if it does for a reason that
/// is worth a warning.
pub open spec fn image_warning(
    t: Seq<NodeView>,
    source_path: Seq<char>,
    existing: Seq<Seq<char>>,
    i: int,
) -> Option<Warning> {
    match image_url(t, i) {
        Some(url) => match image_target(source_path, url, existing) {
            ImageTargetView::Rooted => Some(Warning::ImageRooted(i as usize)),
            ImageTargetView::Missing(_) => Some(Warning::ImageMissing(i as usize)),
            _ => None,
        },
        None => None,
    }
}

/// The warnings on the images among the first `k` nodes, in the order of the
/// nodes.
pub open spec fn image_warnings(
    t: Seq<NodeView>,
    source_path: Seq<char>,
    existing: Seq<Seq<char>>,
    k: int,
) -> Seq<Warning>
    decreases k,
{
    if k <= 0 {
        Seq::empty()
    } else {
        let before = image_warnings(t, source_path, existing, k - 1);
        match image_warning(t, source_path, existing, k - 1) {
            Some(warning) => before.push(warning),
            None => before,
        }
    }
}

/// The document in which those of the first `k` nodes that are images with
/// a file have become attachment references without children.
pub open spec fn images_rewritten_upto(
    t: Seq<NodeView>,
    source_path: Seq<char>,
    existing: Seq<Seq<char>>,
    k: int,
) -> Seq<NodeView> {
    Seq::new(
        t.len(),
        |j: int|
            NodeView {
                element: match found_image(t, source_path, existing, j) {
                    Some(path) => if j < k {
                        ElementView::Raw(image_block(alt_align(t, j), final_name(path)))
                    } else {
                        t[j].element
                    },
                    None => t[j].element,
                },
                parent: match t[j].parent {
                    Some(p) => if p < k && found_image(t, source_path, existing, p as int)
                        is Some {
                        None
                    } else {
                        Some(p)
                    },
                    None => None,
                },
                children: if j < k && found_image(t, source_path, existing, j) is Some {
                    Seq::empty()
                } else {
                    t[j].children
                },
            },
    )
}

/// The document in which every image that hangs in the tree and has its file
/// has become an attachment reference without children.
pub open spec fn images_rewritten(
    t: Seq<NodeView>,
    source_path: Seq<char>,
    existing: Seq<Seq<char>>,
) -> Seq<NodeView> {
    images_rewritten_upto(t, source_path, existing, t.len() as int)
}

/// The files of the images of the document, node by node.
pub open spec fn found_images(
    t: Seq<NodeView>,
    source_path: Seq<char>,
    existing: Seq<Seq<char>>,
) -> Seq<Option<Seq<char>>> {
    Seq::new(t.len(), |j: int| found_image(t, source_path, existing, j))
}

/// The files that the images of the document may show, node by node.
pub open spec fn image_candidates(t: Seq<NodeView>, source_path: Seq<char>) -> Seq<
    Option<Seq<char>>,
> {
    Seq::new(t.len(), |j: int| image_candidate(t, source_path, j))
}

/// The files that the rewritten images of the document show, in the order
/// of the nodes, each once.
pub open spec fn found_paths(
    t: Seq<NodeView>,
    source_path: Seq<char>,
    existing: Seq<Seq<char>>,
) -> Seq<Seq<char>> {
    first_of_each(found_images(t, source_path, existing))
}

/// The files that the images of the document may show, in the order of the
/// nodes, each once.
pub open spec fn candidate_paths(t: Seq<NodeView>, source_path: Seq<char>) -> Seq<Seq<char>> {
    first_of_each(image_candidates(t, source_path))
}

/// For each node, whether it hangs in the tree.
pub fn attached_flags(doc: &Document) -> (flags: Vec<bool>)
    requires
        doc.wf(),
    ensures
        flags@.len() == doc@.len(),
        forall|i: int| 0 <= i < doc@.len() ==> #[trigger] flags@[i] == attached(doc@, i),
{
    let n = doc.len();
    let mut flags: Vec<bool> = Vec::new();
    let mut i: usize = 0;
    while i < n
        invariant
            doc.wf(),
            n == doc@.len(),
            i <= n,
            flags@.len() == i,
            forall|j: int| 0 <= j < i ==> #[trigger] flags@[j] == attached(doc@, j),
        decreases n - i,
    {
        let hangs = if i == 0 {
            true
        } else {
            proof {
                assert(child_linked(doc@, i as int));
            }
            match doc.parent(i) {
                Some(p) => flags[p],
                None => false,
            }
        };
        flags.push(hangs);
        i += 1;
    }
    flags
}

/// Adds `path` to `paths` unless it is among them.
pub fn push_new(paths: &mut Vec<String>, path: String)
    requires
        texts(old(paths)@).no_duplicates(),
    ensures
        texts(final(paths)@).no_duplicates(),
        texts(final(paths)@) == if texts(old(paths)@).contains(path@) {
            texts(old(paths)@)
        } else {
            texts(old(paths)@).push(path@)
        },
{
    if !contains_text(paths, path.as_str()) {
        let ghost before = texts(paths@);
        paths.push(path);
        proof {
            assert(texts(paths@) =~= before.push(path@));
        }
    }
}

/// The files that the images of the document may show, whether they are
/// there or not: for each image that hangs in the tree and names a file
/// beside the document, by a path that begins at no root, the path of that
/// file from where the document lies. The paths come in the order of the
/// nodes, and none is listed twice. These are the paths to look for before
/// [`get_image_paths`] is asked.
pub fn candidate_image_paths(doc: &Document, md_file_path: &str) -> (paths: Vec<String>)
    requires
        doc.wf(),
    ensures
        texts(paths@) == candidate_paths(doc@, md_file_path@),
{
    let n = doc.len();
    let flags = attached_flags(doc);
    let ghost picks = image_candidates(doc@, md_file_path@);
    let mut paths: Vec<String> = Vec::new();
    let mut i: usize = 0;
    proof {
        assert(texts(paths@) =~= Seq::empty());
        assert(picks.take(0) =~= Seq::empty());
        lemma_first_of_each(picks.take(0));
    }
    while i < n
        invariant
            doc.wf(),
            n == doc@.len(),
            i <= n,
            flags@.len() == n,
            forall|j: int| 0 <= j < n ==> #[trigger] flags@[j] == attached(doc@, j),
            picks == image_candidates(doc@, md_file_path@),
            texts(paths@).no_duplicates(),
            texts(paths@) == first_of_each(picks.take(i as int)),
        decreases n - i,
    {
        proof {
            assert(picks.take(i + 1).drop_last() =~= picks.take(i as int));
            assert(picks.take(i + 1).last() == image_candidate(doc@, md_file_path@, i as int));
            lemma_first_of_each(picks.take(i + 1));
        }
        if flags[i] {
            match doc.element(i) {
                Element::Image(url, _) => {
                    if !remote_url(url.as_str()) && !is_rooted(url.as_str()) {
                        push_new(&mut paths, resolve_beside(md_file_path, url.as_str()));
                    }
                },
                _ => {},
            }
        }
        i += 1;
    }
    proof {
        assert(picks.take(i as int) =~= picks);
    }
    paths
}

/// Whether one of the first `k` nodes is an image that stays as it is with
/// the warning `warning`.
pub open spec fn warned_before(
    t: Seq<NodeView>,
    source_path: Seq<char>,
    existing: Seq<Seq<char>>,
    k: int,
    warning: Warning,
) -> bool {
    exists|j: int|
        0 <= j < k && #[trigger] image_warning(t, source_path, existing, j) == Some(warning)
}

/// The warnings on the images among the first `k` nodes are those of these
/// nodes, and no others.
pub proof fn lemma_image_warnings(
    t: Seq<NodeView>,
    source_path: Seq<char>,
    existing: Seq<Seq<char>>,
    k: int,
)
    ensures
        forall|warning: Warning|
            image_warnings(t, source_path, existing, k).contains(warning) <==> warned_before(
                t,
                source_path,
                existing,
                k,
                warning,
            ),
    decreases k,
{
    if k > 0 {
        lemma_image_warnings(t, source_path, existing, k - 1);
        let before = image_warnings(t, source_path, existing, k - 1);
        let all = image_warnings(t, source_path, existing, k);
        let last = image_warning(t, source_path, existing, k - 1);
        assert forall|warning: Warning| all.contains(warning) <==> warned_before(
            t,
            source_path,
            existing,
            k,
            warning,
        ) by {
            if all.contains(warning) {
                if before.contains(warning) {
                    assert(warned_before(t, source_path, existing, k - 1, warning));
                    let j = choose|j: int|
                        0 <= j < k - 1 && #[trigger] image_warning(t, source_path, existing, j)
                            == Some(warning);
                    assert(image_warning(t, source_path, existing, j) == Some(warning));
                } else {
                    assert(last == Some(warning));
                }
            }
            if warned_before(t, source_path, existing, k, warning) {
                let j = choose|j: int|
                    0 <= j < k && #[trigger] image_warning(t, source_path, existing, j) == Some(
                        warning,
                    );
                if j < k - 1 {
                    assert(warned_before(t, source_path, existing, k - 1, warning));
                    assert(before.contains(warning));
                    let at = choose|at: int| 0 <= at < before.len() && before[at] == warning;
                    assert(all[at] == warning);
                } else {
                    assert(all[before.len() as int] == warning);
                }
            }
        }
    }
}

/// What a document says of the files of its images.
#[derive(Debug, Clone)]
pub struct ImageReport {
    /// The files that the images show and that are there. No path stands
    /// twice.
    pub paths: Vec<String>,
    /// The images that stay as they are, in the order of their nodes.
    pub warnings: Vec<Warning>,
}

/// The files that the images of the document show, when `existing` are the
/// files that are there: for each image that hangs in the tree and names,
/// by a path that begins at no root, a file beside the document that is
/// among `existing`, the path of that file from where the document lies,
/// with `.` and `..` resolved. The paths come in the order of the nodes, and
/// none is listed twice. An image of the web is passed over; one whose path
/// begins at a root, or whose file is not there, is passed over with a
/// warning. The document stays as it is.
pub fn get_image_paths(doc: &Document, md_file_path: &str, existing: &Vec<String>) -> (report:
    ImageReport)
    requires
        doc.wf(),
    ensures
        texts(report.paths@) == found_paths(doc@, md_file_path@, texts(existing@)),
        texts(report.paths@).no_duplicates(),
        forall|path: Seq<char>|
            texts(report.paths@).contains(path) <==> found_images(
                doc@,
                md_file_path@,
                texts(existing@),
            ).contains(Some(path)),
        report.warnings@ == image_warnings(
            doc@,
            md_file_path@,
            texts(existing@),
            doc@.len() as int,
        ),
        forall|warning: Warning|
            report.warnings@.contains(warning) <==> warned_before(
                doc@,
                md_file_path@,
                texts(existing@),
                doc@.len() as int,
                warning,
            ),
{
    let ghost t = doc@;
    let ghost src = md_file_path@;
    let ghost ex = texts(existing@);
    let n = doc.len();
    let flags = attached_flags(doc);
    let ghost picks = found_images(t, src, ex);
    let mut paths: Vec<String> = Vec::new();
    let mut warnings: Vec<Warning> = Vec::new();
    let mut i: usize = 0;
    proof {
        assert(texts(paths@) =~= Seq::empty());
        assert(picks.take(0) =~= Seq::empty());
        lemma_first_of_each(picks.take(0));
    }
    while i < n
        invariant
            doc.wf(),
            t == doc@,
            src == md_file_path@,
            ex == texts(existing@),
            n == t.len(),
            i <= n,
            flags@.len() == n,
            forall|j: int| 0 <= j < n ==> #[trigger] flags@[j] == attached(t, j),
            picks == found_images(t, src, ex),
            texts(paths@).no_duplicates(),
            texts(paths@) == first_of_each(picks.take(i as int)),
            warnings@ == image_warnings(t, src, ex, i as int),
        decreases n - i,
    {
        proof {
            assert(picks.take(i + 1).drop_last() =~= picks.take(i as int));
            assert(picks.take(i + 1).last() == found_image(t, src, ex, i as int));
            lemma_first_of_each(picks.take(i + 1));
        }
        if flags[i] {
            match doc.element(i) {
                Element::Image(url, _) => {
                    match resolve_image(md_file_path, url.as_str(), existing) {
                        ImageTarget::Found(path) => {
                            push_new(&mut paths, path);
                        },
                        ImageTarget::Rooted => {
                            warnings.push(Warning::ImageRooted(i));
                        },
                        ImageTarget::Missing(_) => {
                            warnings.push(Warning::ImageMissing(i));
                        },
                        ImageTarget::Remote => {},
                    }
                },
                _ => {},
            }
        }
        i += 1;
    }
    proof {
        assert(picks.take(i as int) =~= picks);
        lemma_first_of_each(picks);
        lemma_image_warnings(t, src, ex, n as int);
    }
    ImageReport { paths, warnings }
}

/// The alignment that the alternative text of the image at node `i` asks
/// for.
pub fn alignment_at(doc: &Document, i: usize) -> (align: Align)
    requires
        doc.wf(),
        i < doc@.len(),
    ensures
        align == alt_align(doc@, i as int),
{
    match doc.first_child(i) {
        Some(child) => {
            proof {
                assert(parent_linked(doc@, i as int, 0));
            }
            match doc.element(child) {
                Element::Text(text) => Align::from_str(text.as_str()),
                _ => Align::Left,
            }
        },
        None => Align::Left,
    }
}

/// Puts an attachment reference in the place of every image that hangs in
/// the tree and whose file is among `existing`, and takes the children off
/// it: the reference names the file and is aligned as the alternative text
/// of the image asks. An image of the web stays as it is; one whose path
/// begins at a root, or whose file is not there, stays as it is with a
/// warning. The report is what [`get_image_paths`] says of the document as
/// it was.
pub fn replace_image_node_with_html(doc: &mut Document, md_file_path: &str, existing: &Vec<String>) -> (report:
    ImageReport)
    requires
        old(doc).wf(),
    ensures
        final(doc).wf(),
        final(doc)@ == images_rewritten(old(doc)@, md_file_path@, texts(existing@)),
        texts(report.paths@) == found_paths(old(doc)@, md_file_path@, texts(existing@)),
        report.warnings@ == image_warnings(
            old(doc)@,
            md_file_path@,
            texts(existing@),
            old(doc)@.len() as int,
        ),
{
    let report = get_image_paths(doc, md_file_path, existing);
    let ghost t = doc@;
    let ghost src = md_file_path@;
    let ghost ex = texts(existing@);
    let n = doc.len();
    let flags = attached_flags(doc);
    let mut i: usize = 0;
    proof {
        assert(doc@ =~~= images_rewritten_upto(t, src, ex, 0)) by {
            assert forall|j: int| 0 <= j < t.len() implies #[trigger] t[j]
                == images_rewritten_upto(t, src, ex, 0)[j] by {
                assert(child_linked(t, j));
            }
        }
    }
    while i < n
        invariant
            doc.wf(),
            well_formed(t),
            t == old(doc)@,
            src == md_file_path@,
            ex == texts(existing@),
            n == t.len(),
            i <= n,
            flags@.len() == n,
            forall|j: int| 0 <= j < n ==> #[trigger] flags@[j] == attached(t, j),
            doc@ == images_rewritten_upto(t, src, ex, i as int),
        decreases n - i,
    {
        let ghost current = doc@;
        proof {
            assert(current[i as int].element == t[i as int].element);
            assert(current[i as int].children == t[i as int].children);
        }
        let target = if flags[i] {
            match doc.element(i) {
                Element::Image(url, _) => Some(resolve_image(md_file_path, url.as_str(), existing)),
                _ => None,
            }
        } else {
            None
        };
        match target {
            Some(ImageTarget::Found(path)) => {
                proof {
                    if t[i as int].children.len() > 0 {
                        assert(parent_linked(t, i as int, 0));
                        assert(child_linked(t, t[i as int].children[0] as int));
                        assert(current[t[i as int].children[0] as int].element
                            == t[t[i as int].children[0] as int].element);
                    }
                }
                let align = alignment_at(doc, i);
                let block = confluence_image_block(path.as_str(), align);
                doc.set_element(i, block);
                doc.clear_children(i);
                proof {
                    assert forall|j: int| 0 <= j < t.len() implies #[trigger] doc@[j]
                        == images_rewritten_upto(t, src, ex, i + 1)[j] by {
                        assert(child_linked(t, j));
                        assert(doc@[j].children =~= images_rewritten_upto(
                            t,
                            src,
                            ex,
                            i + 1,
                        )[j].children);
                    }
                    assert(doc@ =~= images_rewritten_upto(t, src, ex, i + 1));
                }
            },
            _ => {
                proof {
                    assert(doc@ =~~= images_rewritten_upto(t, src, ex, i + 1));
                }
            },
        }
        i += 1;
    }
    report
}

/// The element that stands for `element` in a page: a code macro for a code
/// block, and any other element itself.
pub open spec fn coded_element(element: ElementView) -> ElementView {
    match element {
        ElementView::CodeBlock(info, literal) => ElementView::Raw(code_macro(info, literal)),
        _ => element,
    }
}

/// The document in which those of the first `k` nodes that are code blocks
/// have become code macros.
pub open spec fn coded_upto(t: Seq<NodeView>, k: int) -> Seq<NodeView> {
    Seq::new(
        t.len(),
        |j: int|
            NodeView {
                element: if j < k {
                    coded_element(t[j].element)
                } else {
                    t[j].element
                },
                ..t[j]
            },
    )
}

/// The document in which every code block has become a code macro.
pub open spec fn coded(t: Seq<NodeView>) -> Seq<NodeView> {
    coded_upto(t, t.len() as int)
}

/// Puts a code macro in the place of every code block.
pub fn replace_codeblock_with_html(doc: &mut Document)
    requires
        old(doc).wf(),
    ensures
        final(doc).wf(),
        final(doc)@ == coded(old(doc)@),
{
    let ghost t = doc@;
    let n = doc.len();
    let mut i: usize = 0;
    proof {
        assert(doc@ =~= coded_upto(t, 0));
    }
    while i < n
        invariant
            doc.wf(),
            t == old(doc)@,
            n == t.len(),
            i <= n,
            doc@ == coded_upto(t, i as int),
        decreases n - i,
    {
        let block = match doc.element(i) {
            Element::CodeBlock(info, literal) => Some(
                replace_with_codeblock_macro(info.as_str(), literal.as_str()),
            ),
            _ => None,
        };
        match block {
            Some(block) => {
                doc.set_element(i, block);
            },
            None => {},
        }
        proof {
            assert(doc@ =~= coded_upto(t, i + 1));
        }
        i += 1;
    }
}

/// The address of a page of the wiki, as it was looked up.
#[derive(Debug, Clone)]
pub struct PageAddress {
    /// The identifier of the page.
    pub id: u64,
    /// Where the page is found; none where the lookup failed.
    pub url: Option<String>,
}

impl View for PageAddress {
    type V = (u64, Option<Seq<char>>);

    open spec fn view(&self) -> (u64, Option<Seq<char>>) {
        (
            self.id,
            match self.url {
                Some(url) => Some(url@),
                None => None,
            },
        )
    }
}

/// What the lookups say, one after the other.
pub open spec fn addresses(found: Seq<PageAddress>) -> Seq<(u64, Option<Seq<char>>)> {
    found.map_values(|address: PageAddress| address@)
}

/// Where the page `id` is found: what the first lookup of it says.
pub open spec fn address_of(found: Seq<(u64, Option<Seq<char>>)>, id: u64) -> Option<Seq<char>>
    decreases found.len(),
{
    if found.len() == 0 {
        None
    } else if found[0].0 == id {
        found[0].1
    } else {
        address_of(found.skip(1), id)
    }
}

/// Where the page `id` is found.
pub fn find_address(found: &Vec<PageAddress>, id: u64) -> (url: Option<String>)
    ensures
        match address_of(addresses(found@), id) {
            Some(address) => url matches Some(u) && u@ == address,
            None => url is None,
        },
{
    let mut i: usize = 0;
    proof {
        assert(addresses(found@).skip(0) =~= addresses(found@));
    }
    while i < found.len()
        invariant
            i <= found.len(),
            address_of(addresses(found@), id) == address_of(addresses(found@).skip(i as int), id),
        decreases found.len() - i,
    {
        proof {
            assert(addresses(found@).skip(i as int).skip(1) =~= addresses(found@).skip(i + 1));
            assert(addresses(found@).skip(i as int)[0] == found@[i as int]@);
        }
        if found[i].id == id {
            return match &found[i].url {
                Some(url) => Some(url.clone()),
                None => None,
            };
        }
        i += 1;
    }
    None
}

/// The page that the link at node `i` names, if the node is a link that
/// hangs in the tree and its title names a page.
pub open spec fn link_id(t: Seq<NodeView>, i: int) -> Option<u64> {
    if attached(t, i) {
        match t[i].element {
            ElementView::Link(_, title) => page_id_of(title),
            _ => None,
        }
    } else {
        None
    }
}

/// The pages that the links among the first `k` nodes name, in the order of
/// the nodes.
pub open spec fn link_ids(t: Seq<NodeView>, k: int) -> Seq<u64>
    decreases k,
{
    if k <= 0 {
        Seq::empty()
    } else {
        match link_id(t, k - 1) {
            Some(id) => link_ids(t, k - 1).push(id),
            None => link_ids(t, k - 1),
        }
    }
}

/// The element of node `i` once links to pages lead where the pages are.
pub open spec fn relinked_element(
    t: Seq<NodeView>,
    found: Seq<(u64, Option<Seq<char>>)>,
    i: int,
) -> ElementView {
    match t[i].element {
        ElementView::Link(url, title) => match link_id(t, i) {
            Some(id) => match address_of(found, id) {
                Some(address) => ElementView::Link(address, title),
                None => t[i].element,
            },
            None => t[i].element,
        },
        _ => t[i].element,
    }
}

/// Whether a link title is written as a note on the link: it holds a colon.
pub open spec fn is_annotation(title: Seq<char>) -> bool {
    position_of(title, ':') is Some
}

/// Why the link at node `i` stays as it is, if it does for a reason that is
/// worth a warning: it hangs in the tree, and its title names a page that
/// was not found, or is written as a note on the link and names no page.
pub open spec fn link_warning(
    t: Seq<NodeView>,
    found: Seq<(u64, Option<Seq<char>>)>,
    i: int,
) -> Option<Warning> {
    if attached(t, i) {
        match t[i].element {
            ElementView::Link(_, title) => match page_id_of(title) {
                Some(id) => if address_of(found, id) is None {
                    Some(Warning::LinkUnresolved(i as usize))
                } else {
                    None
                },
                None => if is_annotation(title) {
                    Some(Warning::LinkIdMalformed(i as usize))
                } else {
                    None
                },
            },
            _ => None,
        }
    } else {
        None
    }
}

/// The warnings on the links among the first `k` nodes, in the order of the
/// nodes.
pub open spec fn link_warnings(t: Seq<NodeView>, found: Seq<(u64, Option<Seq<char>>)>, k: int) -> Seq<
    Warning,
>
    decreases k,
{
    if k <= 0 {
        Seq::empty()
    } else {
        match link_warning(t, found, k - 1) {
            Some(warning) => link_warnings(t, found, k - 1).push(warning),
            None => link_warnings(t, found, k - 1),
        }
    }
}

/// The document in which the links among the first `k` nodes that name a
/// page lead where the page is found.
pub open spec fn relinked_upto(t: Seq<NodeView>, found: Seq<(u64, Option<Seq<char>>)>, k: int) -> Seq<
    NodeView,
> {
    Seq::new(
        t.len(),
        |j: int|
            NodeView {
                element: if j < k {
                    relinked_element(t, found, j)
                } else {
                    t[j].element
                },
                ..t[j]
            },
    )
}

/// The document in which every link that hangs in the tree and names a page
/// leads where the page is found.
pub open spec fn relinked(t: Seq<NodeView>, found: Seq<(u64, Option<Seq<char>>)>) -> Seq<NodeView> {
    relinked_upto(t, found, t.len() as int)
}

/// The pages that the links of the document name, in the order of the
/// nodes: one entry for each link that hangs in the tree and whose title
/// names a page.
pub fn link_targets(doc: &Document) -> (ids: Vec<u64>)
    requires
        doc.wf(),
    ensures
        ids@ == link_ids(doc@, doc@.len() as int),
{
    let n = doc.len();
    let flags = attached_flags(doc);
    let mut ids: Vec<u64> = Vec::new();
    let mut i: usize = 0;
    while i < n
        invariant
            doc.wf(),
            n == doc@.len(),
            i <= n,
            flags@.len() == n,
            forall|j: int| 0 <= j < n ==> #[trigger] flags@[j] == attached(doc@, j),
            ids@ == link_ids(doc@, i as int),
        decreases n - i,
    {
        if flags[i] {
            match doc.element(i) {
                Element::Link(_, title) => {
                    match PageLink::try_option_into(title.as_str()) {
                        Some(link) => {
                            ids.push(link.id);
                        },
                        None => {},
                    }
                },
                _ => {},
            }
        }
        i += 1;
    }
    ids
}

/// The link that leads where the page that `title` names is found, or the
/// reason why the link stays as it is.
pub fn replace_node_link(title: &str, found: &Vec<PageAddress>, node: usize) -> (outcome: Result<
    Option<Element>,
    Warning,
>)
    ensures
        match page_id_of(title@) {
            Some(id) => match address_of(addresses(found@), id) {
                Some(address) => outcome matches Ok(Some(link)) && link@ == ElementView::Link(
                    address,
                    title@,
                ),
                None => outcome == Err::<Option<Element>, Warning>(Warning::LinkUnresolved(node)),
            },
            None => if is_annotation(title@) {
                outcome == Err::<Option<Element>, Warning>(Warning::LinkIdMalformed(node))
            } else {
                outcome matches Ok(None)
            },
        },
{
    match PageLink::try_option_into(title) {
        Some(link) => match find_address(found, link.id) {
            Some(url) => Ok(Some(Element::Link(url, title.to_owned()))),
            None => Err(Warning::LinkUnresolved(node)),
        },
        None => match find_char(&chars_of(title), ':') {
            Some(_) => Err(Warning::LinkIdMalformed(node)),
            None => Ok(None),
        },
    }
}

/// Lets every link that hangs in the tree and whose title names a page
/// lead where `found` says the page is. A link whose title names a page
/// that `found` does not have, or is written as a note on the link and
/// names no page, stays as it is with a warning.
pub fn replace_page_link(doc: &mut Document, found: &Vec<PageAddress>) -> (warnings: Vec<Warning>)
    requires
        old(doc).wf(),
    ensures
        final(doc).wf(),
        final(doc)@ == relinked(old(doc)@, addresses(found@)),
        warnings@ == link_warnings(old(doc)@, addresses(found@), old(doc)@.len() as int),
{
    let ghost t = doc@;
    let n = doc.len();
    let flags = attached_flags(doc);
    let mut warnings: Vec<Warning> = Vec::new();
    let mut i: usize = 0;
    proof {
        assert(doc@ =~= relinked_upto(t, addresses(found@), 0));
    }
    while i < n
        invariant
            doc.wf(),
            t == old(doc)@,
            n == t.len(),
            i <= n,
            flags@.len() == n,
            forall|j: int| 0 <= j < n ==> #[trigger] flags@[j] == attached(t, j),
            doc@ == relinked_upto(t, addresses(found@), i as int),
            warnings@ == link_warnings(t, addresses(found@), i as int),
        decreases n - i,
    {
        let outcome = if flags[i] {
            match doc.element(i) {
                Element::Link(_, title) => replace_node_link(title.as_str(), found, i),
                _ => Ok(None),
            }
        } else {
            Ok(None)
        };
        match outcome {
            Ok(Some(link)) => {
                doc.set_element(i, link);
            },
            Ok(None) => {},
            Err(warning) => {
                warnings.push(warning);
            },
        }
        proof {
            assert(doc@ =~= relinked_upto(t, addresses(found@), i + 1));
        }
        i += 1;
    }
    warnings
}

/// The syntax that pages are read and written with: superscript and tables
/// besides what CommonMark has.
pub open spec fn page_syntax() -> Syntax {
    Syntax { superscript: true, table: true }
}

/// The syntax that pages are read and written with.
pub fn syntax() -> (syntax: Syntax)
    ensures
        syntax == page_syntax(),
{
    Syntax { superscript: true, table: true }
}

/// The document that `source` is read as.
pub open spec fn parsed_tree(source: Seq<char>) -> Seq<NodeView> {
    tree_of(parsed_items(source, page_syntax()))
}

/// The document that `source` is read as, without the level-1 heading that
/// it begins with, and with `superscript`, if there is one, at its top.
pub open spec fn prepared(source: Seq<char>, superscript: Option<Seq<char>>) -> Seq<NodeView> {
    let bare = without_heading(parsed_tree(source));
    match superscript {
        Some(annotation) => grafted(
            bare,
            parsed_items(superscript_source(annotation), page_syntax()),
        ),
        None => bare,
    }
}

/// The document `t` with its images, code blocks and links rewritten, in
/// that order.
pub open spec fn finished(
    t: Seq<NodeView>,
    source_path: Seq<char>,
    existing: Seq<Seq<char>>,
    found: Seq<(u64, Option<Seq<char>>)>,
) -> Seq<NodeView> {
    relinked(coded(images_rewritten(t, source_path, existing)), found)
}

/// Whether `page` is the page that the Markdown text `source` describes,
/// when the text lies at `source_path`, `superscript` is configured,
/// `existing` are the files that are there and `found` is where the pages
/// of the wiki are.
pub open spec fn is_page_of(
    page: HtmlPage,
    source: Seq<char>,
    source_path: Seq<char>,
    superscript: Option<Seq<char>>,
    existing: Seq<Seq<char>>,
    found: Seq<(u64, Option<Seq<char>>)>,
) -> bool {
    let ready = prepared(source, superscript);
    let with_images = images_rewritten(ready, source_path, existing);
    &&& text_of(page.page_header) == heading_text(parsed_tree(source))
    &&& page.html@ == html_of(finished(ready, source_path, existing, found), page_syntax())
    &&& texts(page.image_paths@) == found_paths(ready, source_path, existing)
    &&& page.warnings@ == image_warnings(ready, source_path, existing, ready.len() as int)
        + link_warnings(coded(with_images), found, ready.len() as int)
}

/// What has to be looked up before a page can be rendered.
#[derive(Debug, Clone)]
pub struct Demands {
    /// The files that the images of the page may show. No path stands
    /// twice.
    pub image_paths: Vec<String>,
    /// The pages of the wiki that the links of the page name.
    pub page_ids: Vec<u64>,
}

/// Reads `source` and makes ready what it holds: the level-1 heading that
/// it begins with leaves the tree, and `superscript` enters at its top.
/// Gives the document and the text of the heading.
pub fn prepare(source: &str, superscript: &Option<String>) -> (made: (Document, Option<String>))
    ensures
        made.0.wf(),
        made.0@ == prepared(source@, text_of(*superscript)),
        text_of(made.1) == heading_text(parsed_tree(source@)),
{
    let mut doc = Document::parse(source, syntax());
    let title = get_and_remove_h1_header(&mut doc);
    match superscript {
        Some(annotation) => {
            prepend_superscript(&mut doc, annotation.as_str(), syntax());
        },
        None => {},
    }
    (doc, title)
}

impl HtmlPage {
    /// What has to be looked up before [`HtmlPage::new`] can render the
    /// page: the files beside the document that its images may show, and
    /// the pages that its links name. A page without a title asks for
    /// nothing: it is refused before anything is looked up for it.
    pub fn demands(page_config: &PageConfig, source: &str) -> (demands: Result<Demands, Error>)
        ensures
            match title_of(page_config@, source@) {
                Some(_) => demands matches Ok(wanted) && texts(wanted.image_paths@)
                    == candidate_paths(
                    prepared(source@, text_of(page_config.superscript_header)),
                    page_config.file_path@,
                ) && wanted.page_ids@ == link_ids(
                    prepared(source@, text_of(page_config.superscript_header)),
                    prepared(source@, text_of(page_config.superscript_header)).len() as int,
                ),
                None => demands matches Err(Error::PageHeaderMissing),
            },
    {
        let (doc, page_header) = prepare(source, &page_config.superscript_header);
        match resolve_title(&page_config.override_title, &page_header) {
            Ok(_) => {
                let image_paths = candidate_image_paths(&doc, page_config.file_path.as_str());
                let page_ids = link_targets(&doc);
                Ok(Demands { image_paths, page_ids })
            },
            Err(error) => Err(error),
        }
    }

    /// Renders the page that the Markdown text `source` describes.
    ///
    /// The level-1 heading that the text begins with becomes the page
    /// header and leaves the text; the superscript that is configured
    /// enters at the top; each image whose file is among `existing` becomes
    /// an attachment reference; each code block becomes a code macro; each
    /// link that names a page leads where `found` says the page is. What
    /// could not be rewritten stays as it is and is listed among the
    /// warnings: first the images, then the links.
    pub fn new(
        page_config: &PageConfig,
        source: &str,
        existing: &Vec<String>,
        found: &Vec<PageAddress>,
    ) -> (page: HtmlPage)
        ensures
            is_page_of(
                page,
                source@,
                page_config.file_path@,
                text_of(page_config.superscript_header),
                texts(existing@),
                addresses(found@),
            ),
    {
        render_page(
            source,
            page_config.file_path.as_str(),
            &page_config.superscript_header,
            existing,
            found,
        )
    }
}

/// Renders the page that the Markdown text `source` describes, which lies
/// at `file_path` and gets `superscript` at its top.
fn render_page(
    source: &str,
    file_path: &str,
    superscript: &Option<String>,
    existing: &Vec<String>,
    found: &Vec<PageAddress>,
) -> (page: HtmlPage)
    ensures
        is_page_of(
            page,
            source@,
            file_path@,
            text_of(*superscript),
            texts(existing@),
            addresses(found@),
        ),
{
    let (mut doc, page_header) = prepare(source, superscript);
    let report = replace_image_node_with_html(&mut doc, file_path, existing);
    replace_codeblock_with_html(&mut doc);
    let link_warnings = replace_page_link(&mut doc, found);
    let html = doc.render(syntax());
    let mut warnings = report.warnings;
    let mut link_warnings = link_warnings;
    warnings.append(&mut link_warnings);
    HtmlPage { image_paths: report.paths, page_header, html, warnings }
}

/// The markup of the page that the Markdown text `source` describes, which
/// lies at `file_path` and gets `super_string` at its top: what
/// [`HtmlPage::new`] gives as markup.
pub fn render_markdown_file(
    source: &str,
    file_path: &str,
    super_string: &Option<String>,
    existing: &Vec<String>,
    found: &Vec<PageAddress>,
) -> (html: String)
    ensures
        html@ == html_of(
            finished(
                prepared(source@, text_of(*super_string)),
                file_path@,
                texts(existing@),
                addresses(found@),
            ),
            page_syntax(),
        ),
{
    render_page(source, file_path, super_string, existing, found).html
}

} // verus!
