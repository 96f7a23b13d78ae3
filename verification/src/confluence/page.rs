//! The body of the call that updates a page, and the rule on labels.

use crate::config::Page;
use crate::text::{chars_of, texts};
use vstd::prelude::*;

verus! {

/// The body of the call that updates a page.
#[derive(Debug, Clone)]
pub struct ConfluencePage {
    /// The title of the page.
    pub title: String,
    /// The kind of content: `page`.
    pub type_field: String,
    /// The state of the content: `current`.
    pub status: String,
    /// The version that the update makes.
    pub version: Version,
    /// The text of the page.
    pub body: Body,
    /// What is attached to the page besides its text.
    pub metadata: Metadata,
}

/// A version of a page.
#[derive(Debug, Clone)]
pub struct Version {
    /// Its number.
    pub number: u64,
}

/// The text of a page.
#[derive(Debug, Clone)]
pub struct Body {
    /// The text in storage format.
    pub storage: Storage,
}

/// A text and the format that it is in.
#[derive(Debug, Clone)]
pub struct Storage {
    /// The markup.
    pub value: String,
    /// The name of the format: `storage`.
    pub representation: String,
}

/// What is attached to a page besides its text.
#[derive(Debug, Clone)]
pub struct Metadata {
    /// The labels of the page.
    pub labels: Vec<Label>,
}

/// A label of a page.
#[derive(Debug, Clone)]
pub struct Label {
    /// The text of the label.
    pub name: String,
}

/// What the body of an update says.
pub struct ConfluencePageView {
    /// The title of the page.
    pub title: Seq<char>,
    /// The kind of content.
    pub type_field: Seq<char>,
    /// The state of the content.
    pub status: Seq<char>,
    /// The number of the version that the update makes.
    pub version: u64,
    /// The markup of the page.
    pub value: Seq<char>,
    /// The name of the format of the markup.
    pub representation: Seq<char>,
    /// The texts of the labels, in their order.
    pub labels: Seq<Seq<char>>,
}

/// The texts of a list of labels.
pub open spec fn label_names(labels: Seq<Label>) -> Seq<Seq<char>> {
    labels.map_values(|label: Label| label.name@)
}

impl View for ConfluencePage {
    type V = ConfluencePageView;

    open spec fn view(&self) -> ConfluencePageView {
        ConfluencePageView {
            title: self.title@,
            type_field: self.type_field@,
            status: self.status@,
            version: self.version.number,
            value: self.body.storage.value@,
            representation: self.body.storage.representation@,
            labels: label_names(self.metadata.labels@),
        }
    }
}

/// Whether a label may hold `c`: a lower-case ASCII letter, a digit, or one
/// of ``$ % ' + - / = _ ` { } | ~``.
pub open spec fn is_label_char(c: char) -> bool {
    ('a' <= c <= 'z') || ('0' <= c <= '9') || c == '$' || c == '%' || c == '\'' || c == '+' || c
        == '-' || c == '/' || c == '=' || c == '_' || c == '`' || c == '{' || c == '}' || c == '|'
        || c == '~'
}

/// Whether the wiki takes `label`: it is not empty and holds label
/// characters only.
pub open spec fn is_valid_label(label: Seq<char>) -> bool {
    label.len() > 0 && forall|i: int| 0 <= i < label.len() ==> is_label_char(#[trigger] label[i])
}

/// The labels among `labels` that the wiki takes, in their order.
pub open spec fn valid_labels(labels: Seq<Seq<char>>) -> Seq<Seq<char>> {
    labels.filter(|label: Seq<char>| is_valid_label(label))
}

/// The labels among `labels` that the wiki does not take, in their order.
pub open spec fn invalid_labels(labels: Seq<Seq<char>>) -> Seq<Seq<char>> {
    labels.filter(|label: Seq<char>| !is_valid_label(label))
}

impl From<String> for Label {
    fn from(label: String) -> (made: Label)
        ensures
            made.name@ == label@,
    {
        Label { name: label }
    }
}

impl vstd::std_specs::convert::FromSpecImpl<String> for Label {
    open spec fn obeys_from_spec() -> bool {
        true
    }

    open spec fn from_spec(label: String) -> Label {
        Label { name: label }
    }
}

/// Whether a label may hold `c`.
pub fn label_char(c: char) -> (allowed: bool)
    ensures
        allowed == is_label_char(c),
{
    ('a' <= c && c <= 'z') || ('0' <= c && c <= '9') || c == '$' || c == '%' || c == '\'' || c
        == '+' || c == '-' || c == '/' || c == '=' || c == '_' || c == '`' || c == '{' || c == '}'
        || c == '|' || c == '~'
}

/// Whether the wiki takes `label`.
pub fn valid_label(label: &str) -> (valid: bool)
    ensures
        valid == is_valid_label(label@),
{
    let chars = chars_of(label);
    if chars.len() == 0 {
        return false;
    }
    let mut i: usize = 0;
    while i < chars.len()
        invariant
            i <= chars.len(),
            chars@ == label@,
            forall|k: int| 0 <= k < i ==> is_label_char(#[trigger] chars@[k]),
        decreases chars.len() - i,
    {
        if !label_char(chars[i]) {
            return false;
        }
        i += 1;
    }
    true
}

/// The labels among `labels` for which validity is `wanted`, in their order.
fn labels_where(labels: &[String], wanted: bool) -> (chosen: Vec<String>)
    ensures
        texts(chosen@) == texts(labels@).filter(
            |label: Seq<char>| is_valid_label(label) == wanted,
        ),
{
    let ghost pred = |label: Seq<char>| is_valid_label(label) == wanted;
    let mut chosen: Vec<String> = Vec::new();
    let mut i: usize = 0;
    proof {
        reveal(Seq::filter);
        assert(texts(labels@).take(0) =~= Seq::empty());
        assert(texts(chosen@) =~= Seq::empty());
    }
    while i < labels.len()
        invariant
            i <= labels.len(),
            pred == |label: Seq<char>| is_valid_label(label) == wanted,
            texts(chosen@) == texts(labels@).take(i as int).filter(pred),
        decreases labels.len() - i,
    {
        let ghost before = texts(chosen@);
        proof {
            reveal(Seq::filter);
            assert(texts(labels@).take(i + 1).drop_last() =~= texts(labels@).take(i as int));
            assert(texts(labels@).take(i + 1).last() == labels@[i as int]@);
        }
        if valid_label(labels[i].as_str()) == wanted {
            chosen.push(labels[i].clone());
            proof {
                assert(texts(chosen@) =~= before.push(labels@[i as int]@));
            }
        }
        i += 1;
    }
    proof {
        assert(texts(labels@).take(i as int) =~= texts(labels@));
    }
    chosen
}

/// The labels among `labels` that the wiki takes, in their order. The
/// others are left out.
pub fn filter_valid_labels(labels: &[String]) -> (valid: Vec<String>)
    ensures
        texts(valid@) == valid_labels(texts(labels@)),
{
    let valid = labels_where(labels, true);
    proof {
        let p = |label: Seq<char>| is_valid_label(label) == true;
        let q = |label: Seq<char>| is_valid_label(label);
        assert(p =~= q);
    }
    valid
}

/// The labels among `labels` that the wiki does not take, in their order:
/// those that [`filter_valid_labels`] leaves out.
pub fn rejected_labels(labels: &[String]) -> (invalid: Vec<String>)
    ensures
        texts(invalid@) == invalid_labels(texts(labels@)),
{
    let invalid = labels_where(labels, false);
    proof {
        let p = |label: Seq<char>| is_valid_label(label) == false;
        let q = |label: Seq<char>| !is_valid_label(label);
        assert(p =~= q);
    }
    invalid
}

impl ConfluencePage {
    /// The body of the update that makes `version` of `page`: its title,
    /// its markup, and those of its labels that the wiki takes.
    pub fn new(page: &Page, version: u64) -> (body: ConfluencePage)
        ensures
            body@ == (ConfluencePageView {
                title: page.title@,
                type_field: "page"@,
                status: "current"@,
                version,
                value: page.html.html@,
                representation: "storage"@,
                labels: valid_labels(texts(page.labels@)),
            }),
    {
        let names = filter_valid_labels(page.labels.as_slice());
        let labels = labels_from(names);
        ConfluencePage {
            title: page.title.clone(),
            type_field: "page".to_owned(),
            status: "current".to_owned(),
            version: Version { number: version },
            body: Body {
                storage: Storage {
                    value: page.html.html.clone(),
                    representation: "storage".to_owned(),
                },
            },
            metadata: Metadata { labels },
        }
    }

    /// The same body with `labels` after the labels it has. These are
    /// taken as they are.
    pub fn add_labels(self, labels: Vec<String>) -> (body: ConfluencePage)
        ensures
            body@ == (ConfluencePageView { labels: self@.labels + texts(labels@), ..self@ }),
    {
        let mut body = self;
        let mut i: usize = 0;
        while i < labels.len()
            invariant
                i <= labels.len(),
                body@ == (ConfluencePageView {
                    labels: self@.labels + texts(labels@).take(i as int),
                    ..self@
                }),
            decreases labels.len() - i,
        {
            let ghost before = label_names(body.metadata.labels@);
            body.metadata.labels.push(Label { name: labels[i].clone() });
            proof {
                assert(label_names(body.metadata.labels@) =~= before.push(labels@[i as int]@));
                assert(texts(labels@).take(i + 1) =~= texts(labels@).take(i as int).push(
                    labels@[i as int]@,
                ));
                assert(self@.labels + texts(labels@).take(i + 1) =~= (self@.labels + texts(
                    labels@,
                ).take(i as int)).push(labels@[i as int]@));
            }
            i += 1;
        }
        proof {
            assert(texts(labels@).take(i as int) =~= texts(labels@));
        }
        body
    }
}

/// A label for each name.
pub fn labels_from(names: Vec<String>) -> (labels: Vec<Label>)
    ensures
        label_names(labels@) == texts(names@),
{
    let mut labels: Vec<Label> = Vec::new();
    let mut i: usize = 0;
    while i < names.len()
        invariant
            i <= names.len(),
            label_names(labels@) == texts(names@).take(i as int),
        decreases names.len() - i,
    {
        let ghost before = label_names(labels@);
        labels.push(Label { name: names[i].clone() });
        proof {
            assert(label_names(labels@) =~= before.push(names@[i as int]@));
            assert(texts(names@).take(i + 1) =~= texts(names@).take(i as int).push(
                names@[i as int]@,
            ));
        }
        i += 1;
    }
    proof {
        assert(texts(names@).take(i as int) =~= texts(names@));
    }
    labels
}

} // verus!
