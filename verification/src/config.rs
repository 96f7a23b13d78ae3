//! What is configured for the run and for each page.

use crate::confluence::page::{filter_valid_labels, valid_labels};
use crate::error::Error;
use crate::fingerprint::{fingerprint, fingerprint_of, Modifiers, ModifiersView};
use crate::render_markdown::{
    addresses, heading_text, is_page_of, parsed_tree, HtmlPage, PageAddress,
};
use crate::text::{text_of, texts};
use vstd::prelude::*;

verus! {

/// The pages of a run, ready to be published, and the account that
/// publishes them. The value cannot be printed, for the token in it.
pub struct Config {
    /// The name of the account.
    pub user: String,
    /// The token of the account.
    pub secret: String,
    /// The host of the wiki, with its scheme.
    pub fqdn: String,
    /// The pages.
    pub pages: Vec<Page>,
}

/// One page, ready to be published.
#[derive(Debug, Clone)]
pub struct Page {
    /// Where the Markdown source lies.
    pub file_path: String,
    /// The identifier of the page in the wiki.
    pub page_id: String,
    /// The title of the page.
    pub title: String,
    /// The labels of the page.
    pub labels: Vec<String>,
    /// Whether only the publishing account may change the page (`true`),
    /// everyone may (`false`), or the wiki is left as it is (none).
    pub read_only: Option<bool>,
    /// The text that stands in superscript at the top of the page.
    pub superscript_header: Option<String>,
    /// The markup and what belongs to it.
    pub html: HtmlPage,
    /// The fingerprint of the page.
    pub page_sha: String,
}

/// What the configuration file holds.
#[derive(Debug, Clone)]
pub struct ConfigFile {
    /// The pages.
    pub pages: Vec<PageConfig>,
    /// The restriction of the pages that name none.
    pub read_only: Option<bool>,
    /// The superscript text of the pages that name none.
    pub superscript_header: Option<String>,
}

/// What is configured for one page.
#[derive(Debug, Clone)]
pub struct PageConfig {
    /// Where the Markdown source lies.
    pub file_path: String,
    /// The identifier of the page in the wiki.
    pub page_id: String,
    /// The title, where it is not the heading of the document.
    pub override_title: Option<String>,
    /// More labels for the page.
    pub labels: Option<Vec<String>>,
    /// Whether only the publishing account may change the page.
    pub read_only: Option<bool>,
    /// The text that stands in superscript at the top of the page.
    pub superscript_header: Option<String>,
}

/// What was read and looked up for one page.
#[derive(Debug, Clone)]
pub struct PageInput {
    /// The Markdown text of the page.
    pub source: String,
    /// Those of the files that its images may show that are there.
    pub existing: Vec<String>,
    /// Where the pages are that its links name.
    pub found: Vec<PageAddress>,
}

/// The mathematical value of a [`PageConfig`].
pub struct PageConfigView {
    /// Where the Markdown source lies.
    pub file_path: Seq<char>,
    /// The identifier of the page in the wiki.
    pub page_id: Seq<char>,
    /// The title, where it is not the heading of the document.
    pub override_title: Option<Seq<char>>,
    /// More labels for the page.
    pub labels: Option<Seq<Seq<char>>>,
    /// Whether only the publishing account may change the page.
    pub read_only: Option<bool>,
    /// The text that stands in superscript at the top of the page.
    pub superscript_header: Option<Seq<char>>,
}

impl View for PageConfig {
    type V = PageConfigView;

    open spec fn view(&self) -> PageConfigView {
        PageConfigView {
            file_path: self.file_path@,
            page_id: self.page_id@,
            override_title: text_of(self.override_title),
            labels: match self.labels {
                Some(list) => Some(texts(list@)),
                None => None,
            },
            read_only: self.read_only,
            superscript_header: text_of(self.superscript_header),
        }
    }
}

/// A list of labels that may be missing: none stands for the empty list.
pub open spec fn labels_or_none(labels: Option<Seq<Seq<char>>>) -> Seq<Seq<char>> {
    match labels {
        Some(list) => list,
        None => Seq::empty(),
    }
}

/// The setting of a page: its own, or else the one of the run.
pub open spec fn or_else<T>(page: Option<T>, global: Option<T>) -> Option<T> {
    match page {
        Some(own) => Some(own),
        None => global,
    }
}

/// What is configured for a page once the settings of the run have
/// entered: the restriction and the superscript of the run where the page
/// names none, and the labels of the page followed by `extra`, without
/// those that the wiki does not take.
pub open spec fn merged_config(
    page: PageConfigView,
    read_only: Option<bool>,
    superscript: Option<Seq<char>>,
    extra: Seq<Seq<char>>,
) -> PageConfigView {
    PageConfigView {
        labels: Some(valid_labels(labels_or_none(page.labels) + extra)),
        read_only: or_else(page.read_only, read_only),
        superscript_header: or_else(page.superscript_header, superscript),
        ..page
    }
}

/// The title of a page: the one that is configured, or else the heading of
/// the document.
pub open spec fn resolved_title(override_title: Option<Seq<char>>, header: Option<Seq<char>>) -> Option<
    Seq<char>,
> {
    or_else(override_title, header)
}

/// The title of the page that `config` and the Markdown text `source`
/// give.
pub open spec fn title_of(config: PageConfigView, source: Seq<char>) -> Option<Seq<char>> {
    resolved_title(config.override_title, heading_text(parsed_tree(source)))
}

/// Whether `page` is the page that `config` and the Markdown text `source`
/// give, with the title `title`.
pub open spec fn is_built(
    page: Page,
    config: PageConfigView,
    title: Seq<char>,
    source: Seq<char>,
    existing: Seq<Seq<char>>,
    found: Seq<(u64, Option<Seq<char>>)>,
) -> bool {
    &&& page.file_path@ == config.file_path
    &&& page.page_id@ == config.page_id
    &&& page.title@ == title
    &&& texts(page.labels@) == labels_or_none(config.labels)
    &&& page.read_only == config.read_only
    &&& text_of(page.superscript_header) == config.superscript_header
    &&& is_page_of(page.html, source, config.file_path, config.superscript_header, existing, found)
    &&& page.page_sha@ == fingerprint_of(
        source,
        title,
        ModifiersView { read_only: config.read_only, superscript: config.superscript_header },
    )
}

/// A copy of a string that may be missing.
pub fn clone_text(text: &Option<String>) -> (copy: Option<String>)
    ensures
        text_of(copy) == text_of(*text),
{
    match text {
        Some(text) => Some(text.clone()),
        None => None,
    }
}

/// A copy of a list of strings.
pub fn clone_texts(list: &Vec<String>) -> (copy: Vec<String>)
    ensures
        texts(copy@) == texts(list@),
{
    let mut copy: Vec<String> = Vec::new();
    let mut i: usize = 0;
    while i < list.len()
        invariant
            i <= list.len(),
            texts(copy@) == texts(list@).take(i as int),
        decreases list.len() - i,
    {
        let ghost before = texts(copy@);
        copy.push(list[i].clone());
        proof {
            assert(texts(copy@) =~= before.push(list@[i as int]@));
            assert(texts(list@).take(i + 1) =~= texts(list@).take(i as int).push(
                list@[i as int]@,
            ));
        }
        i += 1;
    }
    proof {
        assert(texts(list@).take(i as int) =~= texts(list@));
    }
    copy
}

/// The title of a page: the one that is configured, or else the heading of
/// the document. A page with neither has none.
pub fn resolve_title(override_title: &Option<String>, header: &Option<String>) -> (title: Result<
    String,
    Error,
>)
    ensures
        match resolved_title(text_of(*override_title), text_of(*header)) {
            Some(text) => title matches Ok(t) && t@ == text,
            None => title matches Err(Error::PageHeaderMissing),
        },
{
    match override_title {
        Some(title) => Ok(title.clone()),
        None => match header {
            Some(title) => Ok(title.clone()),
            None => Err(Error::PageHeaderMissing),
        },
    }
}

impl PageConfig {
    /// The fingerprint of the page, whose Markdown text is `source` and
    /// whose title is `title`.
    pub fn calculate_sha(&self, source: &str, title: &str) -> (sha: String)
        ensures
            sha@ == fingerprint_of(
                source@,
                title@,
                ModifiersView {
                    read_only: self.read_only,
                    superscript: text_of(self.superscript_header),
                },
            ),
            sha@.len() == 8,
    {
        let modifiers = Modifiers {
            read_only: self.read_only,
            superscript: clone_text(&self.superscript_header),
        };
        fingerprint(source, title, &modifiers)
    }

    /// What is configured for the page once the settings of the run have
    /// entered.
    pub fn merged(
        &self,
        read_only: Option<bool>,
        superscript_header: &Option<String>,
        extra_labels: &Vec<String>,
    ) -> (merged: PageConfig)
        ensures
            merged@ == merged_config(
                self@,
                read_only,
                text_of(*superscript_header),
                texts(extra_labels@),
            ),
    {
        let mut labels = match &self.labels {
            Some(labels) => clone_texts(labels),
            None => Vec::new(),
        };
        let ghost own = texts(labels@);
        let mut i: usize = 0;
        proof {
            assert(own =~= labels_or_none(self@.labels));
            assert(own + texts(extra_labels@).take(0) =~= own);
        }
        while i < extra_labels.len()
            invariant
                i <= extra_labels.len(),
                texts(labels@) == own + texts(extra_labels@).take(i as int),
            decreases extra_labels.len() - i,
        {
            let ghost before = texts(labels@);
            labels.push(extra_labels[i].clone());
            proof {
                assert(texts(labels@) =~= before.push(extra_labels@[i as int]@));
                assert(own + texts(extra_labels@).take(i + 1) =~= (own + texts(
                    extra_labels@,
                ).take(i as int)).push(extra_labels@[i as int]@));
            }
            i += 1;
        }
        proof {
            assert(texts(extra_labels@).take(i as int) =~= texts(extra_labels@));
        }
        let labels = filter_valid_labels(labels.as_slice());
        PageConfig {
            file_path: self.file_path.clone(),
            page_id: self.page_id.clone(),
            override_title: clone_text(&self.override_title),
            labels: Some(labels),
            read_only: match self.read_only {
                Some(flag) => Some(flag),
                None => read_only,
            },
            superscript_header: match &self.superscript_header {
                Some(text) => Some(text.clone()),
                None => clone_text(superscript_header),
            },
        }
    }
}

impl ConfigFile {
    /// What a configuration file holds.
    pub fn new(
        pages: Vec<PageConfig>,
        read_only: Option<bool>,
        superscript_header: Option<String>,
    ) -> (file: ConfigFile)
        ensures
            file.pages == pages,
            file.read_only == read_only,
            file.superscript_header == superscript_header,
    {
        ConfigFile { pages, read_only, superscript_header }
    }

    /// What is configured for each page once the settings of the run have
    /// entered; `labels` are the labels that the run gives every page.
    pub fn page_configs(&self, labels: &Vec<String>) -> (merged: Vec<PageConfig>)
        ensures
            merged@.len() == self.pages@.len(),
            forall|i: int|
                0 <= i < merged@.len() ==> (#[trigger] merged@[i])@ == merged_config(
                    self.pages@[i]@,
                    self.read_only,
                    text_of(self.superscript_header),
                    texts(labels@),
                ),
    {
        let mut merged: Vec<PageConfig> = Vec::new();
        let mut i: usize = 0;
        while i < self.pages.len()
            invariant
                i <= self.pages.len(),
                merged@.len() == i,
                forall|k: int|
                    0 <= k < i ==> (#[trigger] merged@[k])@ == merged_config(
                        self.pages@[k]@,
                        self.read_only,
                        text_of(self.superscript_header),
                        texts(labels@),
                    ),
            decreases self.pages.len() - i,
        {
            merged.push(self.pages[i].merged(self.read_only, &self.superscript_header, labels));
            i += 1;
        }
        merged
    }
}

impl Page {
    /// Builds the page that `page_config` and the Markdown text `source`
    /// give. Its title is the one that is configured, or else the level-1
    /// heading that the text begins with; a page with neither is refused.
    pub fn try_from_async(
        page_config: PageConfig,
        source: &str,
        existing: &Vec<String>,
        found: &Vec<PageAddress>,
    ) -> (built: Result<Page, Error>)
        ensures
            match title_of(page_config@, source@) {
                Some(title) => built matches Ok(page) && is_built(
                    page,
                    page_config@,
                    title,
                    source@,
                    texts(existing@),
                    addresses(found@),
                ),
                None => built matches Err(Error::PageHeaderMissing),
            },
    {
        let html = HtmlPage::new(&page_config, source, existing, found);
        let title = match resolve_title(&page_config.override_title, &html.page_header) {
            Ok(title) => title,
            Err(error) => {
                return Err(error);
            },
        };
        let labels = match &page_config.labels {
            Some(labels) => clone_texts(labels),
            None => Vec::new(),
        };
        proof {
            assert(texts(labels@) =~= labels_or_none(page_config@.labels));
        }
        let page_sha = page_config.calculate_sha(source, title.as_str());
        Ok(
            Page {
                file_path: page_config.file_path,
                page_id: page_config.page_id,
                title,
                labels,
                read_only: page_config.read_only,
                superscript_header: page_config.superscript_header,
                html,
                page_sha,
            },
        )
    }
}

/// The configuration of page `i` of the file once the settings of the run
/// have entered.
pub open spec fn merged_page(file: ConfigFile, labels: Seq<Seq<char>>, i: int) -> PageConfigView {
    merged_config(file.pages@[i]@, file.read_only, text_of(file.superscript_header), labels)
}

/// Whether page `i` of the file cannot be built from what was read for it:
/// nothing was read for it, or it has no title.
pub open spec fn page_fails(file: ConfigFile, inputs: Seq<PageInput>, i: int) -> bool {
    i >= inputs.len() || title_of(file.pages@[i]@, inputs[i].source@) is None
}

/// Whether `page` is page `i` of the run.
pub open spec fn is_page_of_run(
    page: Page,
    file: ConfigFile,
    labels: Seq<Seq<char>>,
    inputs: Seq<PageInput>,
    i: int,
) -> bool {
    is_built(
        page,
        merged_page(file, labels, i),
        title_of(file.pages@[i]@, inputs[i].source@)->0,
        inputs[i].source@,
        texts(inputs[i].existing@),
        addresses(inputs[i].found@),
    )
}

/// The page that ended a run, and why.
#[derive(Debug, Clone)]
pub struct PageFailure {
    /// The place of the page in the configuration file.
    pub index: usize,
    /// Why the page cannot be built.
    pub error: Error,
}

/// The error that ends a run at page `i`.
pub open spec fn is_failure_of(error: Error, file: ConfigFile, inputs: Seq<PageInput>, i: int) -> bool {
    if i >= inputs.len() {
        error matches Error::InvalidFilePath(path) && path@ == file.pages@[i].file_path@
    } else {
        error matches Error::PageHeaderMissing
    }
}

impl Config {
    /// Builds the pages of a run, in the order of the configuration file,
    /// from what was read and looked up for each. The first page that
    /// cannot be built ends the run and is named by its place in the file:
    /// one for which nothing was read with the path of its file, one
    /// without a title with the missing heading.
    pub fn try_from_async(
        user: String,
        secret: String,
        fqdn: String,
        config_file: &ConfigFile,
        labels: &Vec<String>,
        inputs: &Vec<PageInput>,
    ) -> (config: Result<Config, PageFailure>)
        ensures
            match config {
                Ok(config) => {
                    &&& config.user == user
                    &&& config.secret == secret
                    &&& config.fqdn == fqdn
                    &&& config.pages@.len() == config_file.pages@.len()
                    &&& forall|i: int|
                        0 <= i < config_file.pages@.len() ==> !#[trigger] page_fails(
                            *config_file,
                            inputs@,
                            i,
                        )
                    &&& forall|i: int|
                        0 <= i < config.pages@.len() ==> is_page_of_run(
                            #[trigger] config.pages@[i],
                            *config_file,
                            texts(labels@),
                            inputs@,
                            i,
                        )
                },
                Err(failure) => {
                    &&& failure.index < config_file.pages@.len()
                    &&& page_fails(*config_file, inputs@, failure.index as int)
                    &&& forall|k: int|
                        0 <= k < failure.index ==> !#[trigger] page_fails(
                            *config_file,
                            inputs@,
                            k,
                        )
                    &&& is_failure_of(failure.error, *config_file, inputs@, failure.index as int)
                },
            },
    {
        let mut pages: Vec<Page> = Vec::new();
        let mut i: usize = 0;
        while i < config_file.pages.len()
            invariant
                i <= config_file.pages.len(),
                pages@.len() == i,
                forall|k: int| 0 <= k < i ==> !#[trigger] page_fails(*config_file, inputs@, k),
                forall|k: int|
                    0 <= k < i ==> is_page_of_run(
                        #[trigger] pages@[k],
                        *config_file,
                        texts(labels@),
                        inputs@,
                        k,
                    ),
            decreases config_file.pages.len() - i,
        {
            if i >= inputs.len() {
                let error = Error::InvalidFilePath(config_file.pages[i].file_path.clone());
                proof {
                    assert(page_fails(*config_file, inputs@, i as int));
                    assert(is_failure_of(error, *config_file, inputs@, i as int));
                }
                return Err(PageFailure { index: i, error });
            }
            let merged = config_file.pages[i].merged(
                config_file.read_only,
                &config_file.superscript_header,
                labels,
            );
            let input = &inputs[i];
            proof {
                assert(merged@.override_title == config_file.pages@[i as int]@.override_title);
            }
            match Page::try_from_async(merged, input.source.as_str(), &input.existing, &input.found) {
                Ok(page) => {
                    pages.push(page);
                },
                Err(error) => {
                    proof {
                        assert(page_fails(*config_file, inputs@, i as int));
                        assert(is_failure_of(error, *config_file, inputs@, i as int));
                    }
                    return Err(PageFailure { index: i, error });
                },
            }
            i += 1;
        }
        Ok(Config { user, secret, fqdn, pages })
    }
}

} // verus!
