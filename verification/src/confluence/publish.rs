//! Publishing one page, call by call: which call comes next, given what the
//! wiki answered to the last.

use crate::config::Page;
use crate::confluence::client::{
    author_label, author_label_of, remote_sha, sha_label_of, ConfluenceClient, PageResponse, User,
};
use crate::confluence::page::{
    filter_valid_labels, is_label_char, is_valid_label, valid_labels, ConfluencePage,
    ConfluencePageView,
};
use crate::fingerprint::is_hex_digit;
use crate::confluence::client::lemma_author_label_is_valid;
use crate::confluence::restriction::{restricts_update_to, Restriction};
use crate::text::{joined, str_eq, texts};
use vstd::prelude::*;

verus! {

/// Why a page was not published.
#[derive(Debug, Clone, Copy, PartialEq, Eq, Structural)]
pub enum Failure {
    /// A call failed.
    Transport,
    /// The email address of the current user has no `@`.
    CurrentUserEmailMissing,
    /// The wiki holds the last version that can be numbered.
    VersionExhausted,
    /// The wiki answered what was not asked.
    Unexpected,
}

/// How far the publishing of a page has come.
#[derive(Debug, Clone, Copy, PartialEq, Eq, Structural)]
pub enum Phase {
    /// The page was asked for.
    Pending,
    /// The version of the page is known and differs from the local one; the
    /// current user was asked for.
    VersionFetched,
    /// The attachment with this index is on its way.
    Uploading(usize),
    /// The update is on its way.
    Publishing,
    /// The page is updated; the current user was asked for, to restrict
    /// the page to that account.
    Identifying,
    /// The page is updated; its restriction is on its way.
    Restricting,
    /// The wiki holds the page as it is: nothing was sent.
    Skipped,
    /// The page is updated and restricted as configured.
    Done,
    /// The page was not published.
    Failed(Failure),
}

/// The call that comes next.
#[derive(Debug, Clone, Copy, PartialEq, Eq, Structural)]
pub enum Action {
    /// Ask for the page with its labels.
    FetchPage,
    /// Ask who the current user is.
    FetchUser,
    /// Send the attachment with this index.
    Upload(usize),
    /// Send the update.
    Update,
    /// Restrict the page to the account of the current user.
    RestrictToAccount,
    /// Lift the restrictions of the page.
    LiftRestrictions,
    /// No call: the publishing of the page has ended.
    Stop,
}

/// What the wiki answered.
#[derive(Debug, Clone)]
pub enum Event {
    /// The page.
    Page(PageResponse),
    /// The current user.
    User(User),
    /// The attachment is there.
    Uploaded,
    /// The page is updated.
    Updated,
    /// The page is restricted.
    Restricted,
    /// The call failed.
    Failed,
}

/// The publishing of one page: how far it has come and what it has learnt.
#[derive(Debug, Clone)]
pub struct Publish {
    /// How far it has come.
    pub phase: Phase,
    /// The number of the version that the update makes, once known.
    pub version: u64,
    /// The label that names the publishing account, once known.
    pub author: String,
    /// The account of the current user, once known.
    pub account_id: String,
}

/// The mathematical value of a [`Publish`].
pub struct PublishView {
    /// How far the publishing has come.
    pub phase: Phase,
    /// The number of the version that the update makes, once known.
    pub version: u64,
    /// The label that names the publishing account, once known.
    pub author: Seq<char>,
    /// The account of the current user, once known.
    pub account_id: Seq<char>,
}

impl View for Publish {
    type V = PublishView;

    open spec fn view(&self) -> PublishView {
        PublishView {
            phase: self.phase,
            version: self.version,
            author: self.author@,
            account_id: self.account_id@,
        }
    }
}

/// Whether the publishing has ended.
pub open spec fn is_terminal(phase: Phase) -> bool {
    phase is Skipped || phase is Done || phase is Failed
}

/// The state that publishing begins in.
pub open spec fn initial() -> PublishView {
    PublishView { phase: Phase::Pending, version: 0, author: Seq::empty(), account_id: Seq::empty() }
}

/// The state in which publishing has ended with `phase`.
pub open spec fn ended(state: PublishView, phase: Phase) -> (PublishView, Action) {
    (PublishView { phase, ..state }, Action::Stop)
}

/// The state and the call after the identity is known and before the
/// update: the first attachment, or the update where there is none.
pub open spec fn after_identity(page: Page, state: PublishView) -> (PublishView, Action) {
    if page.html.image_paths@.len() > 0 {
        (PublishView { phase: Phase::Uploading(0), ..state }, Action::Upload(0))
    } else {
        (PublishView { phase: Phase::Publishing, ..state }, Action::Update)
    }
}

/// The state and the call that follow when the wiki answers `event` in
/// `state`.
///
/// The page is asked for first. Where the wiki holds the fingerprint of the
/// page as it is now, nothing more happens. Else the current user is asked
/// for, the attachments go out one by one, then the update; then the page
/// is restricted to the account of the current user, or its restrictions
/// are lifted, or neither, as the page is configured. A failed call, an
/// email address without `@`, a version number that cannot grow and an
/// answer that was not asked for end the publishing of the page.
pub open spec fn transition(page: Page, state: PublishView, event: Event) -> (PublishView, Action) {
    if is_terminal(state.phase) {
        (state, Action::Stop)
    } else if event is Failed {
        ended(state, Phase::Failed(Failure::Transport))
    } else {
        match (state.phase, event) {
            (Phase::Pending, Event::Page(response)) => if remote_sha(response) == Some(
                page.page_sha@,
            ) {
                ended(state, Phase::Skipped)
            } else if response.version.number == u64::MAX {
                ended(state, Phase::Failed(Failure::VersionExhausted))
            } else {
                (
                    PublishView {
                        phase: Phase::VersionFetched,
                        version: (response.version.number + 1) as u64,
                        ..state
                    },
                    Action::FetchUser,
                )
            },
            (Phase::VersionFetched, Event::User(user)) => match author_label_of(user.email@) {
                Some(author) => after_identity(page, PublishView { author, ..state }),
                None => ended(state, Phase::Failed(Failure::CurrentUserEmailMissing)),
            },
            (Phase::Uploading(sent), Event::Uploaded) => if sent + 1
                < page.html.image_paths@.len() {
                (
                    PublishView { phase: Phase::Uploading((sent + 1) as usize), ..state },
                    Action::Upload((sent + 1) as usize),
                )
            } else {
                (PublishView { phase: Phase::Publishing, ..state }, Action::Update)
            },
            (Phase::Publishing, Event::Updated) => match page.read_only {
                Some(true) => (
                    PublishView { phase: Phase::Identifying, ..state },
                    Action::FetchUser,
                ),
                Some(false) => (
                    PublishView { phase: Phase::Restricting, ..state },
                    Action::LiftRestrictions,
                ),
                None => ended(state, Phase::Done),
            },
            (Phase::Identifying, Event::User(user)) => (
                PublishView { phase: Phase::Restricting, account_id: user.account_id@, ..state },
                Action::RestrictToAccount,
            ),
            (Phase::Restricting, Event::Restricted) => ended(state, Phase::Done),
            _ => ended(state, Phase::Failed(Failure::Unexpected)),
        }
    }
}

/// The calls that follow one another when the wiki answers `events`, from
/// `state` on.
pub open spec fn calls(page: Page, state: PublishView, events: Seq<Event>) -> Seq<Action>
    decreases events.len(),
{
    if events.len() == 0 {
        Seq::empty()
    } else {
        let (next, action) = transition(page, state, events[0]);
        seq![action] + calls(page, next, events.skip(1))
    }
}

/// The state that is reached when the wiki answers `events`, from `state`
/// on.
pub open spec fn reached(page: Page, state: PublishView, events: Seq<Event>) -> PublishView
    decreases events.len(),
{
    if events.len() == 0 {
        state
    } else {
        reached(page, transition(page, state, events[0]).0, events.skip(1))
    }
}

/// Whether the call sends anything to the wiki that changes it.
pub open spec fn writes(action: Action) -> bool {
    action is Upload || action is Update || action is RestrictToAccount || action
        is LiftRestrictions
}

/// The labels that an update adds to those of the page: the label of its
/// fingerprint and the label of the publishing account.
pub open spec fn run_labels(page: Page, author: Seq<char>) -> Seq<Seq<char>> {
    seq![sha_label_of(page.page_sha@), author]
}

/// The body of the update of `page` to `version`: its title and markup,
/// and those of its labels, of the label of its fingerprint and of the
/// label of the publishing account that the wiki takes.
pub open spec fn update_body_of(page: Page, version: u64, author: Seq<char>) -> ConfluencePageView {
    ConfluencePageView {
        title: page.title@,
        type_field: "page"@,
        status: "current"@,
        version,
        value: page.html.html@,
        representation: "storage"@,
        labels: valid_labels(texts(page.labels@)) + valid_labels(run_labels(page, author)),
    }
}

impl Publish {
    /// Begins the publishing of a page: the page is asked for.
    pub fn start() -> (begun: (Publish, Action))
        ensures
            begun.0@ == initial(),
            begun.1 == Action::FetchPage,
    {
        (
            Publish {
                phase: Phase::Pending,
                version: 0,
                author: String::new(),
                account_id: String::new(),
            },
            Action::FetchPage,
        )
    }

    /// Whether the publishing has ended.
    pub fn has_ended(&self) -> (ended: bool)
        ensures
            ended == is_terminal(self.phase),
    {
        match self.phase {
            Phase::Skipped | Phase::Done | Phase::Failed(_) => true,
            _ => false,
        }
    }

    /// The body of the update that publishes `page`. No label enters it
    /// that the wiki does not take.
    pub fn update_body(&self, page: &Page) -> (body: ConfluencePage)
        ensures
            body@ == update_body_of(*page, self.version, self.author@),
    {
        let mut labels: Vec<String> = Vec::new();
        labels.push(joined("page-sha/", page.page_sha.as_str()));
        labels.push(self.author.clone());
        proof {
            assert(texts(labels@) =~= run_labels(*page, self.author@));
        }
        let labels = filter_valid_labels(labels.as_slice());
        ConfluencePage::new(page, self.version).add_labels(labels)
    }

    /// The body of the call that restricts the page as `action` says.
    pub fn restriction_body(&self, action: Action) -> (body: Option<Restriction>)
        ensures
            match action {
                Action::RestrictToAccount => body matches Some(restriction) && restricts_update_to(
                    restriction,
                    seq![self.account_id@],
                ),
                Action::LiftRestrictions => body matches Some(restriction) && restricts_update_to(
                    restriction,
                    Seq::empty(),
                ),
                _ => body is None,
            },
    {
        match action {
            Action::RestrictToAccount => Some(Restriction::read_only(self.account_id.as_str())),
            Action::LiftRestrictions => Some(Restriction::no_restrictions()),
            _ => None,
        }
    }
}

impl ConfluenceClient {
    /// Takes the publishing of `page` one step on: given the state and what
    /// the wiki answered to the last call, the next state and the next
    /// call.
    pub fn update_confluence_page(page: &Page, state: Publish, event: Event) -> (next: (
        Publish,
        Action,
    ))
        ensures
            (next.0@, next.1) == transition(*page, state@, event),
    {
        if state.has_ended() {
            return (state, Action::Stop);
        }
        let Publish { phase, version, author, account_id } = state;
        match (phase, event) {
            (_, Event::Failed) => (
                Publish { phase: Phase::Failed(Failure::Transport), version, author, account_id },
                Action::Stop,
            ),
            (Phase::Pending, Event::Page(response)) => {
                let unchanged = match ConfluenceClient::get_page_sha(&response) {
                    Some(sha) => str_eq(sha.as_str(), page.page_sha.as_str()),
                    None => false,
                };
                if unchanged {
                    (Publish { phase: Phase::Skipped, version, author, account_id }, Action::Stop)
                } else if ConfluenceClient::get_page_version(&response) == u64::MAX {
                    (
                        Publish {
                            phase: Phase::Failed(Failure::VersionExhausted),
                            version,
                            author,
                            account_id,
                        },
                        Action::Stop,
                    )
                } else {
                    (
                        Publish {
                            phase: Phase::VersionFetched,
                            version: ConfluenceClient::get_page_version(&response) + 1,
                            author,
                            account_id,
                        },
                        Action::FetchUser,
                    )
                }
            },
            (Phase::VersionFetched, Event::User(user)) => match author_label(user.email.as_str()) {
                Ok(label) => if page.html.image_paths.len() > 0 {
                    (
                        Publish { phase: Phase::Uploading(0), version, author: label, account_id },
                        Action::Upload(0),
                    )
                } else {
                    (
                        Publish { phase: Phase::Publishing, version, author: label, account_id },
                        Action::Update,
                    )
                },
                Err(_) => (
                    Publish {
                        phase: Phase::Failed(Failure::CurrentUserEmailMissing),
                        version,
                        author,
                        account_id,
                    },
                    Action::Stop,
                ),
            },
            (Phase::Uploading(sent), Event::Uploaded) => if sent < page.html.image_paths.len()
                && sent + 1 < page.html.image_paths.len() {
                (
                    Publish { phase: Phase::Uploading(sent + 1), version, author, account_id },
                    Action::Upload(sent + 1),
                )
            } else {
                (Publish { phase: Phase::Publishing, version, author, account_id }, Action::Update)
            },
            (Phase::Publishing, Event::Updated) => match page.read_only {
                Some(true) => (
                    Publish { phase: Phase::Identifying, version, author, account_id },
                    Action::FetchUser,
                ),
                Some(false) => (
                    Publish { phase: Phase::Restricting, version, author, account_id },
                    Action::LiftRestrictions,
                ),
                None => (Publish { phase: Phase::Done, version, author, account_id }, Action::Stop),
            },
            (Phase::Identifying, Event::User(user)) => (
                Publish { phase: Phase::Restricting, version, author, account_id: user.account_id },
                Action::RestrictToAccount,
            ),
            (Phase::Restricting, Event::Restricted) => (
                Publish { phase: Phase::Done, version, author, account_id },
                Action::Stop,
            ),
            _ => (
                Publish { phase: Phase::Failed(Failure::Unexpected), version, author, account_id },
                Action::Stop,
            ),
        }
    }
}

/// Once the publishing of a page has ended, no call follows, whatever the
/// wiki answers.
pub proof fn lemma_ended_stays(page: Page, state: PublishView, events: Seq<Event>)
    requires
        is_terminal(state.phase),
    ensures
        reached(page, state, events) == state,
        forall|k: int| 0 <= k < calls(page, state, events).len() ==> calls(page, state, events)[k]
            == Action::Stop,
    decreases events.len(),
{
    if events.len() > 0 {
        lemma_ended_stays(page, state, events.skip(1));
    }
}

/// A page whose fingerprint the wiki holds is skipped: when the first
/// answer of the wiki carries the fingerprint that the page has now, no
/// attachment goes out, no update and no restriction, whatever the wiki
/// answers after.
pub proof fn lemma_unchanged_page_sends_nothing(page: Page, response: PageResponse, events: Seq<Event>)
    requires
        remote_sha(response) == Some(page.page_sha@),
        events.len() > 0,
        events[0] == Event::Page(response),
    ensures
        reached(page, initial(), events).phase == Phase::Skipped,
        forall|k: int|
            0 <= k < calls(page, initial(), events).len() ==> !writes(
                #[trigger] calls(page, initial(), events)[k],
            ),
{
    let next = transition(page, initial(), events[0]).0;
    lemma_ended_stays(page, next, events.skip(1));
    assert forall|k: int| 0 <= k < calls(page, initial(), events).len() implies !writes(
        #[trigger] calls(page, initial(), events)[k],
    ) by {
        if k > 0 {
            assert(calls(page, initial(), events)[k] == calls(page, next, events.skip(1))[k - 1]);
        }
    }
}

/// A failed call ends the publishing of a page: no call follows it. So a
/// page whose attachment did not go out is never updated.
pub proof fn lemma_failure_ends(page: Page, state: PublishView, events: Seq<Event>)
    requires
        events.len() > 0,
        events[0] is Failed,
    ensures
        is_terminal(reached(page, state, events).phase),
        forall|k: int|
            0 <= k < calls(page, state, events).len() ==> #[trigger] calls(page, state, events)[k]
                == Action::Stop,
{
    let next = transition(page, state, events[0]).0;
    lemma_ended_stays(page, next, events.skip(1));
    assert forall|k: int| 0 <= k < calls(page, state, events).len() implies #[trigger] calls(
        page,
        state,
        events,
    )[k] == Action::Stop by {
        if k > 0 {
            assert(calls(page, state, events)[k] == calls(page, next, events.skip(1))[k - 1]);
        }
    }
}

/// No label goes to the wiki that it does not take: every label in the
/// body of an update is one that the wiki takes.
pub proof fn lemma_sent_labels_are_valid(page: Page, version: u64, author: Seq<char>)
    ensures
        forall|i: int|
            0 <= i < update_body_of(page, version, author).labels.len() ==> is_valid_label(
                #[trigger] update_body_of(page, version, author).labels[i],
            ),
{
    let labels = update_body_of(page, version, author).labels;
    let own = valid_labels(texts(page.labels@));
    let added = valid_labels(run_labels(page, author));
    assert forall|i: int| 0 <= i < labels.len() implies is_valid_label(#[trigger] labels[i]) by {
        if i < own.len() {
            texts(page.labels@).lemma_filter_pred(|label: Seq<char>| is_valid_label(label), i);
        } else {
            run_labels(page, author).lemma_filter_pred(
                |label: Seq<char>| is_valid_label(label),
                i - own.len(),
            );
            assert(labels[i] == added[i - own.len()]);
        }
    }
}

/// The labels of a run reach the wiki: where the fingerprint of the page is
/// made of hexadecimal digits, as every computed fingerprint is, and the
/// email address of the account has a local part, the body of the update
/// holds the label of the fingerprint and the label of the account.
pub proof fn lemma_run_labels_are_sent(page: Page, version: u64, email: Seq<char>)
    requires
        author_label_of(email) is Some,
        forall|i: int| 0 <= i < page.page_sha@.len() ==> is_hex_digit(#[trigger] page.page_sha@[i]),
    ensures
        update_body_of(page, version, author_label_of(email)->0).labels == valid_labels(
            texts(page.labels@),
        ) + run_labels(page, author_label_of(email)->0),
{
    let author = author_label_of(email)->0;
    let sha_label = sha_label_of(page.page_sha@);
    let added = run_labels(page, author);
    let pred = |label: Seq<char>| is_valid_label(label);
    lemma_author_label_is_valid(email);
    reveal_strlit("page-sha/");
    assert(is_valid_label(sha_label)) by {
        assert forall|k: int| 0 <= k < sha_label.len() implies is_label_char(
            #[trigger] sha_label[k],
        ) by {
            if k >= 9 {
                assert(sha_label[k] == page.page_sha@[k - 9]);
                assert(is_hex_digit(page.page_sha@[k - 9]));
            }
        }
    }
    reveal_with_fuel(Seq::filter, 3);
    assert(added.drop_last() =~= seq![sha_label]);
    assert(added.drop_last().drop_last() =~= Seq::<Seq<char>>::empty());
    assert(added.filter(pred) =~= added);
}

/// How far a phase is along the way of a page: the page is fetched first,
/// then the identity, then the attachments go out, then the update, then
/// the restriction; the end comes last.
pub open spec fn stage(phase: Phase) -> int {
    match phase {
        Phase::Pending => 0,
        Phase::VersionFetched => 1,
        Phase::Uploading(_) => 2,
        Phase::Publishing => 3,
        Phase::Identifying => 4,
        Phase::Restricting => 5,
        Phase::Skipped => 6,
        Phase::Done => 6,
        Phase::Failed(_) => 6,
    }
}

/// The steps of a page keep their order: no answer of the wiki takes the
/// publishing of a page back to an earlier stage, and while the
/// attachments go out, each answer takes it to the next attachment or on.
pub proof fn lemma_steps_keep_their_order(page: Page, state: PublishView, event: Event)
    ensures
        stage(transition(page, state, event).0.phase) >= stage(state.phase),
        !is_terminal(state.phase) ==> transition(page, state, event).0.phase != state.phase,
        state.phase matches Phase::Uploading(sent) ==> match transition(page, state, event).0.phase {
            Phase::Uploading(next) => next == sent + 1,
            later => stage(later) > 2,
        },
{
    assert(page.html.image_paths@.len() == page.html.image_paths.len());
}

/// The update goes out only when no attachment is left to send: after the
/// identity where the page has none, and else after the last of them.
pub proof fn lemma_update_follows_uploads(page: Page, state: PublishView, event: Event)
    requires
        transition(page, state, event).1 == Action::Update,
    ensures
        match state.phase {
            Phase::VersionFetched => page.html.image_paths@.len() == 0,
            Phase::Uploading(sent) => event is Uploaded && sent + 1 >= page.html.image_paths@.len(),
            _ => false,
        },
{
}

/// The phases that the pages of a run reach, each on what the wiki answers
/// to it.
pub open spec fn outcomes(pages: Seq<Page>, answers: Seq<Seq<Event>>) -> Seq<Phase> {
    Seq::new(pages.len(), |i: int| reached(pages[i], initial(), answers[i]).phase)
}

/// The pages of a run do not touch one another: the phase that a page
/// reaches is the one that it reaches on its own answers, whatever the wiki
/// answers to the other pages. So a page whose attachment does not go out
/// fails alone, and every other page ends as it would without it.
pub proof fn lemma_pages_are_independent(
    pages: Seq<Page>,
    answers: Seq<Seq<Event>>,
    others: Seq<Seq<Event>>,
    i: int,
)
    requires
        0 <= i < pages.len(),
        answers[i] == others[i],
    ensures
        outcomes(pages, answers)[i] == outcomes(pages, others)[i],
        outcomes(pages, answers)[i] == reached(pages[i], initial(), answers[i]).phase,
{
}

/// The places, among the first `k` phases, of those that are failures, in
/// their order.
pub open spec fn failures(phases: Seq<Phase>, k: int) -> Seq<usize>
    decreases k,
{
    if k <= 0 {
        Seq::empty()
    } else if phases[k - 1] is Failed {
        failures(phases, k - 1).push((k - 1) as usize)
    } else {
        failures(phases, k - 1)
    }
}

/// The phases of a list of states.
pub open spec fn phases_of(states: Seq<Publish>) -> Seq<Phase> {
    states.map_values(|state: Publish| state.phase)
}

/// The listed places are those of the failures, and no others.
pub proof fn lemma_failures(phases: Seq<Phase>, k: int)
    requires
        0 <= k <= phases.len() <= usize::MAX,
    ensures
        forall|i: usize|
            #[trigger] failures(phases, k).contains(i) <==> i < k && phases[i as int] is Failed,
    decreases k,
{
    if k > 0 {
        lemma_failures(phases, k - 1);
        let before = failures(phases, k - 1);
        let all = failures(phases, k);
        assert forall|i: usize| #[trigger] all.contains(i) <==> i < k && phases[i as int]
            is Failed by {
            if all.contains(i) {
                if !before.contains(i) {
                    let at = choose|at: int| 0 <= at < all.len() && all[at] == i;
                    if at < before.len() {
                        assert(before[at] == i);
                    }
                }
            }
            if i < k && phases[i as int] is Failed {
                if i < k - 1 {
                    assert(before.contains(i));
                    let at = choose|at: int| 0 <= at < before.len() && before[at] == i;
                    assert(all[at] == i);
                } else {
                    assert(all[before.len() as int] == i);
                }
            }
        }
    }
}

/// The pages of a run that were not published: the places of the states
/// that ended in failure, in their order. Every other page of the run is
/// reported on its own, whatever became of these.
pub fn failed_pages(states: &Vec<Publish>) -> (failed: Vec<usize>)
    ensures
        failed@ == failures(phases_of(states@), states@.len() as int),
        forall|i: usize|
            #[trigger] failed@.contains(i) <==> i < states@.len() && states@[i as int].phase
                is Failed,
{
    let mut failed: Vec<usize> = Vec::new();
    let mut i: usize = 0;
    while i < states.len()
        invariant
            i <= states.len(),
            failed@ == failures(phases_of(states@), i as int),
        decreases states.len() - i,
    {
        match states[i].phase {
            Phase::Failed(_) => {
                failed.push(i);
            },
            _ => {},
        }
        i += 1;
    }
    proof {
        lemma_failures(phases_of(states@), states@.len() as int);
    }
    failed
}

} // verus!
