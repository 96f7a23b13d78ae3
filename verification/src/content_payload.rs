//! The body of an update of a page, with markup and labels that the caller
//! made.

use crate::page::Page;
use crate::text::texts;
use vstd::prelude::*;

verus! {

/// The body of the call that updates content.
#[derive(Debug, Clone)]
pub struct ContentPayload {
    /// The title of the content.
    pub title: String,
    /// The type of the content: `page`.
    pub type_field: String,
    /// The state of the content: `current`.
    pub status: String,
    /// The version that the update makes.
    pub version: Version,
    /// The text of the content.
    pub body: Body,
    /// What is attached to the content besides its text.
    pub metadata: Metadata,
}

/// A version of content.
#[derive(Debug, Clone)]
pub struct Version {
    /// Its number.
    pub number: u64,
}

/// The text of content.
#[derive(Debug, Clone)]
pub struct Body {
    /// The text in storage format.
    pub storage: Storage,
}

/// A text and the format that it is in.
#[derive(Debug, Clone)]
pub struct Storage {
    /// The markup.
    pub value: String,
    /// The name of the format: `storage`.
    pub representation: String,
}

/// What is attached to content besides its text.
#[derive(Debug, Clone)]
pub struct Metadata {
    /// The labels.
    pub labels: Vec<Label>,
}

/// A label.
#[derive(Debug, Clone)]
pub struct Label {
    /// The text of the label.
    pub name: String,
}

/// The labels that the wiki holds of content.
#[derive(Debug, Clone)]
pub struct LabelRoot {
    /// The labels.
    pub results: Vec<Label>,
}

/// What the body of an update says.
pub struct ContentPayloadView {
    /// The title of the content.
    pub title: Seq<char>,
    /// The type of the content.
    pub type_field: Seq<char>,
    /// The state of the content.
    pub status: Seq<char>,
    /// The number of the version that the update makes.
    pub version: u64,
    /// The markup.
    pub value: Seq<char>,
    /// The name of the format of the markup.
    pub representation: Seq<char>,
    /// The texts of the labels, in their order.
    pub labels: Seq<Seq<char>>,
}

/// The texts of a list of labels.
pub open spec fn label_names(labels: Seq<Label>) -> Seq<Seq<char>> {
    labels.map_values(|label: Label| label.name@)
}

impl View for ContentPayload {
    type V = ContentPayloadView;

    open spec fn view(&self) -> ContentPayloadView {
        ContentPayloadView {
            title: self.title@,
            type_field: self.type_field@,
            status: self.status@,
            version: self.version.number,
            value: self.body.storage.value@,
            representation: self.body.storage.representation@,
            labels: label_names(self.metadata.labels@),
        }
    }
}

impl Label {
    /// The label with the text of `label`.
    pub fn from(label: &String) -> (made: Label)
        ensures
            made.name@ == label@,
    {
        Label { name: label.clone() }
    }
}

impl ContentPayload {
    /// The body of the update that makes `version` of `page`, with the
    /// markup `html` and the labels `labels`, each as it is given. What is
    /// updated is a page, whatever type of content is configured for it.
    pub fn new(page: &Page, version: u64, labels: &Vec<String>, html: &str) -> (payload:
        ContentPayload)
        ensures
            payload@ == (ContentPayloadView {
                title: page.title@,
                type_field: "page"@,
                status: "current"@,
                version,
                value: html@,
                representation: "storage"@,
                labels: texts(labels@),
            }),
    {
        let mut made: Vec<Label> = Vec::new();
        let mut i: usize = 0;
        while i < labels.len()
            invariant
                i <= labels.len(),
                label_names(made@) == texts(labels@).take(i as int),
            decreases labels.len() - i,
        {
            let ghost before = label_names(made@);
            made.push(Label::from(&labels[i]));
            proof {
                assert(label_names(made@) =~= before.push(labels@[i as int]@));
                assert(texts(labels@).take(i + 1) =~= texts(labels@).take(i as int).push(
                    labels@[i as int]@,
                ));
            }
            i += 1;
        }
        proof {
            assert(texts(labels@).take(i as int) =~= texts(labels@));
        }
        ContentPayload {
            title: page.title.clone(),
            type_field: "page".to_owned(),
            status: "current".to_owned(),
            version: Version { number: version },
            body: Body {
                storage: Storage { value: html.to_owned(), representation: "storage".to_owned() },
            },
            metadata: Metadata { labels: made },
        }
    }
}

} // verus!
