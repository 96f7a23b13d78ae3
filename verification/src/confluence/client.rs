//! What the wiki answers, and what is made of it.

use crate::confluence::page::{is_label_char, is_valid_label, label_char};
use crate::error::Error;
use crate::text::{
    bracketed, chars_of, find_char, has_prefix, joined, position_of, push_char, starts_with,
    string_of,
};
use vstd::prelude::*;

verus! {

/// What the wiki says of a page.
#[derive(Debug, Clone)]
pub struct PageResponse {
    /// The current version.
    pub version: Version,
    /// The labels, where they were asked for.
    pub labels: Option<Labels>,
    /// Where the page is found.
    pub links: Links,
}

/// The parts of the address of a page.
#[derive(Debug, Clone)]
pub struct Links {
    /// The address of the wiki.
    pub base: String,
    /// The path of the page in the wiki.
    pub webui: String,
}

/// A version of a page.
#[derive(Debug, Clone)]
pub struct Version {
    /// Its number.
    pub number: u64,
}

/// A list of labels.
#[derive(Debug, Clone)]
pub struct Labels {
    /// The labels.
    pub results: Vec<LabelResult>,
}

/// A label of a page.
#[derive(Debug, Clone)]
pub struct LabelResult {
    /// The text of the label.
    pub name: String,
}

/// The account that publishes.
#[derive(Debug, Clone)]
pub struct User {
    /// The identifier of the account.
    pub account_id: String,
    /// The email address of the account.
    pub email: String,
}

/// The wiki and the account that publishes. The value cannot be printed,
/// for the token in it.
#[derive(Clone)]
pub struct ConfluenceClient {
    base_url: String,
    user: String,
    secret: String,
}

/// The path of a page in the page interface.
pub open spec fn page_path_of(page_id: Seq<char>) -> Seq<char> {
    "/wiki/api/v2/pages/"@ + page_id
}

/// The path of a page and its labels in the page interface.
pub open spec fn labelled_page_path_of(page_id: Seq<char>) -> Seq<char> {
    "/wiki/api/v2/pages/"@ + page_id + "?include-labels=true"@
}

/// The path of a page in the content interface, which takes updates.
pub open spec fn content_path_of(page_id: Seq<char>) -> Seq<char> {
    "/wiki/rest/api/content/"@ + page_id
}

/// The path that takes the attachments of a page.
pub open spec fn attachment_path_of(page_id: Seq<char>) -> Seq<char> {
    "/wiki/rest/api/content/"@ + page_id + "/child/attachment"@
}

/// The path that takes the restrictions of a page.
pub open spec fn restriction_path_of(page_id: Seq<char>) -> Seq<char> {
    "/wiki/rest/api/content/"@ + page_id + "/restriction"@
}

/// The path of a page in the page interface.
pub fn page_path(page_id: &str) -> (path: String)
    ensures
        path@ == page_path_of(page_id@),
{
    joined("/wiki/api/v2/pages/", page_id)
}

/// The path of a page and its labels in the page interface.
pub fn labelled_page_path(page_id: &str) -> (path: String)
    ensures
        path@ == labelled_page_path_of(page_id@),
{
    bracketed("/wiki/api/v2/pages/", page_id, "?include-labels=true")
}

/// The path of a page in the content interface, which takes updates.
pub fn content_path(page_id: &str) -> (path: String)
    ensures
        path@ == content_path_of(page_id@),
{
    joined("/wiki/rest/api/content/", page_id)
}

/// The path that takes the attachments of a page.
pub fn attachment_path(page_id: &str) -> (path: String)
    ensures
        path@ == attachment_path_of(page_id@),
{
    bracketed("/wiki/rest/api/content/", page_id, "/child/attachment")
}

/// The path that takes the restrictions of a page.
pub fn restriction_path(page_id: &str) -> (path: String)
    ensures
        path@ == restriction_path_of(page_id@),
{
    bracketed("/wiki/rest/api/content/", page_id, "/restriction")
}

/// The path that tells who the current user is.
pub fn current_user_path() -> (path: &'static str)
    ensures
        path@ == "/wiki/rest/api/user/current"@,
{
    "/wiki/rest/api/user/current"
}

/// The names of a list of labels.
pub open spec fn result_names(labels: Seq<LabelResult>) -> Seq<Seq<char>> {
    labels.map_values(|label: LabelResult| label.name@)
}

/// The fingerprint that a label holds: the text after `page-sha/`, where
/// the label begins so and goes on after it.
pub open spec fn label_sha(name: Seq<char>) -> Option<Seq<char>> {
    if starts_with(name, "page-sha/"@) && name.len() > "page-sha/"@.len() {
        Some(name.skip("page-sha/"@.len() as int))
    } else {
        None
    }
}

/// The fingerprint that the labels `names` hold: that of the first label
/// that holds one.
pub open spec fn first_sha(names: Seq<Seq<char>>) -> Option<Seq<char>>
    decreases names.len(),
{
    if names.len() == 0 {
        None
    } else {
        match label_sha(names[0]) {
            Some(sha) => Some(sha),
            None => first_sha(names.skip(1)),
        }
    }
}

/// The fingerprint that the wiki holds of a page: that of the first of its
/// labels that holds one. A page without such a label has none.
pub open spec fn remote_sha(response: PageResponse) -> Option<Seq<char>> {
    match response.labels {
        Some(labels) => first_sha(result_names(labels.results@)),
        None => None,
    }
}

/// The part of an email address before its first `@`.
pub open spec fn local_part(email: Seq<char>) -> Option<Seq<char>> {
    match position_of(email, '@') {
        Some(at) => Some(email.take(at)),
        None => None,
    }
}

/// The character that stands for `c` in a label: `c` where a label may
/// hold it, the lower-case letter for an upper-case ASCII letter, and `-`
/// for any other.
pub open spec fn label_char_for(c: char) -> char {
    if is_label_char(c) {
        c
    } else if 'A' <= c <= 'Z' {
        ((c as u8) + 32) as u8 as char
    } else {
        '-'
    }
}

/// `text` with each character as a label can hold it.
pub open spec fn sanitized(text: Seq<char>) -> Seq<char> {
    text.map_values(|c: char| label_char_for(c))
}

/// The label that names the publishing account: `pa-token/` and the local
/// part of its email address as a label can hold it.
pub open spec fn author_label_of(email: Seq<char>) -> Option<Seq<char>> {
    match local_part(email) {
        Some(local) => Some("pa-token/"@ + sanitized(local)),
        None => None,
    }
}

/// The label that holds the fingerprint of a page.
pub open spec fn sha_label_of(sha: Seq<char>) -> Seq<char> {
    "page-sha/"@ + sha
}

/// The character that stands for `c` in a label.
pub fn sanitize_char(c: char) -> (safe: char)
    ensures
        safe == label_char_for(c),
        is_label_char(safe),
{
    if label_char(c) {
        c
    } else if 'A' <= c && c <= 'Z' {
        let lower: u8 = (c as u8) + 32;
        lower as char
    } else {
        '-'
    }
}

/// The label that names the publishing account. An email address without
/// `@` gives none.
pub fn author_label(email: &str) -> (label: Result<String, Error>)
    ensures
        match author_label_of(email@) {
            Some(text) => label matches Ok(l) && l@ == text,
            None => label matches Err(Error::CurrentUserEmailMissing),
        },
{
    let chars = chars_of(email);
    match find_char(&chars, '@') {
        Some(at) => {
            let mut label = "pa-token/".to_owned();
            let ghost local = chars@.take(at as int);
            let mut i: usize = 0;
            proof {
                assert(sanitized(local).take(0) =~= Seq::empty());
                assert("pa-token/"@ + Seq::<char>::empty() =~= "pa-token/"@);
            }
            while i < at
                invariant
                    i <= at <= chars.len(),
                    local == chars@.take(at as int),
                    label@ == "pa-token/"@ + sanitized(local).take(i as int),
                decreases at - i,
            {
                let ghost before = label@;
                push_char(&mut label, sanitize_char(chars[i]));
                proof {
                    assert(sanitized(local).take(i + 1) =~= sanitized(local).take(i as int).push(
                        label_char_for(chars@[i as int]),
                    ));
                    assert(label@ =~= "pa-token/"@ + sanitized(local).take(i + 1));
                }
                i += 1;
            }
            proof {
                assert(sanitized(local).take(at as int) =~= sanitized(local));
            }
            Ok(label)
        },
        None => Err(Error::CurrentUserEmailMissing),
    }
}

/// The label of the publishing account is one that the wiki takes.
pub proof fn lemma_author_label_is_valid(email: Seq<char>)
    requires
        author_label_of(email) is Some,
    ensures
        is_valid_label(author_label_of(email)->0),
{
    let label = author_label_of(email)->0;
    let local = local_part(email)->0;
    reveal_strlit("pa-token/");
    assert forall|i: int| 0 <= i < label.len() implies is_label_char(#[trigger] label[i]) by {
        if i >= 9 {
            assert(label[i] == sanitized(local)[i - 9]);
            let c = local[i - 9];
            if !is_label_char(c) && 'A' <= c <= 'Z' {
                assert('a' <= label_char_for(c) <= 'z');
            }
        }
    }
}

impl ConfluenceClient {
    /// The wiki at `fqdn` and the account that publishes there. The wiki
    /// has to be named with `https://` in front.
    pub fn new(fqdn: &str, user: &str, secret: &str) -> (client: Result<ConfluenceClient, Error>)
        ensures
            match client {
                Ok(client) => {
                    &&& starts_with(fqdn@, "https://"@)
                    &&& client.base_url()@ == fqdn@
                    &&& client.user()@ == user@
                    &&& client.secret()@ == secret@
                },
                Err(error) => {
                    &&& !starts_with(fqdn@, "https://"@)
                    &&& error matches Error::HttpsProtocolSchemeMissing(host) && host@ == fqdn@
                },
            },
    {
        let chars = chars_of(fqdn);
        if !has_prefix(&chars, "https://") {
            return Err(Error::HttpsProtocolSchemeMissing(fqdn.to_owned()));
        }
        Ok(
            ConfluenceClient {
                base_url: fqdn.to_owned(),
                user: user.to_owned(),
                secret: secret.to_owned(),
            },
        )
    }

    /// The address of the wiki.
    pub closed spec fn base_url(&self) -> String {
        self.base_url
    }

    /// The name of the account.
    pub closed spec fn user(&self) -> String {
        self.user
    }

    /// The token of the account.
    pub closed spec fn secret(&self) -> String {
        self.secret
    }

    /// The address of the wiki.
    pub fn get_base_url(&self) -> (url: &str)
        ensures
            url@ == self.base_url()@,
    {
        self.base_url.as_str()
    }

    /// The name of the account.
    pub fn get_user(&self) -> (user: &str)
        ensures
            user@ == self.user()@,
    {
        self.user.as_str()
    }

    /// The token of the account.
    pub fn get_secret(&self) -> (secret: &str)
        ensures
            secret@ == self.secret()@,
    {
        self.secret.as_str()
    }

    /// The address of `path` in the wiki.
    pub fn request(&self, path: &str) -> (url: String)
        ensures
            url@ == self.base_url()@ + path@,
    {
        joined(self.base_url.as_str(), path)
    }

    /// The number of the version of a page that the wiki holds.
    pub fn get_page_version(response: &PageResponse) -> (version: u64)
        ensures
            version == response.version.number,
    {
        response.version.number
    }

    /// The address at which a page is read: the address of the wiki and the
    /// path of the page in it.
    pub fn get_page_link(response: &PageResponse) -> (link: String)
        ensures
            link@ == response.links.base@ + response.links.webui@,
    {
        joined(response.links.base.as_str(), response.links.webui.as_str())
    }

    /// The fingerprint that a label holds.
    pub fn get_label_sha(name: &str) -> (sha: Option<String>)
        ensures
            match label_sha(name@) {
                Some(text) => sha matches Some(s) && s@ == text,
                None => sha is None,
            },
    {
        let chars = chars_of(name);
        let prefix = chars_of("page-sha/");
        if has_prefix(&chars, "page-sha/") && chars.len() > prefix.len() {
            proof {
                assert(chars@.skip(prefix.len() as int) =~= chars@.subrange(
                    prefix.len() as int,
                    chars.len() as int,
                ));
            }
            Some(string_of(&chars, prefix.len(), chars.len()))
        } else {
            None
        }
    }

    /// The fingerprint that the wiki holds of a page.
    pub fn get_page_sha(response: &PageResponse) -> (sha: Option<String>)
        ensures
            match remote_sha(*response) {
                Some(text) => sha matches Some(s) && s@ == text,
                None => sha is None,
            },
    {
        match &response.labels {
            Some(labels) => {
                let ghost names = result_names(labels.results@);
                let mut i: usize = 0;
                proof {
                    assert(names.skip(0) =~= names);
                }
                while i < labels.results.len()
                    invariant
                        i <= labels.results.len(),
                        response.labels == Some(*labels),
                        names == result_names(labels.results@),
                        first_sha(names) == first_sha(names.skip(i as int)),
                    decreases labels.results.len() - i,
                {
                    proof {
                        assert(names.skip(i as int).skip(1) =~= names.skip(i + 1));
                        assert(names.skip(i as int)[0] == labels.results@[i as int].name@);
                    }
                    match ConfluenceClient::get_label_sha(labels.results[i].name.as_str()) {
                        Some(sha) => {
                            return Some(sha);
                        },
                        None => {},
                    }
                    i += 1;
                }
                None
            },
            None => None,
        }
    }
}

} // verus!
