//! The decisions of a refresh and of a toggle, as state machines.
//!
//! A machine never touches the network, the parser or the store. It names
//! the next `Action`; whoever runs it carries the action out and hands
//! back what happened as an `Event`; the machine moves on. The parser is
//! run from outside as well: it may unwind on a document, and whoever runs
//! it has to contain that. Validating what it delivers happens within a
//! step.
use vstd::prelude::*;
use crate::error::SyncError;
use crate::model::Entry;
use crate::model::EntryView;
use crate::model::Feed;
use crate::model::FeedView;
use crate::model::RawFeed;
use crate::model::RawFeedView;

verus! {

/// The number of seconds after which a fetch is given up.
pub const FETCH_TIMEOUT_SECS: u64 = 30;

/// What came of fetching a document.
#[derive(Clone, Debug, PartialEq, Eq)]
pub enum FetchOutcome {
    /// The source answered.
    Response { status: u16, body: Vec<u8> },
    /// The source could not be reached, or did not answer in time.
    Unreachable,
}

/// What a `FetchOutcome` holds.
pub enum FetchOutcomeView {
    Response { status: int, body: Seq<u8> },
    Unreachable,
}

impl FetchOutcomeView {
    /// Whether a document was retrieved: the source answered with a
    /// status of success.
    pub open spec fn delivers(self) -> bool {
        self matches FetchOutcomeView::Response { status, .. } && 200 <= status < 300
    }
}

impl View for FetchOutcome {
    type V = FetchOutcomeView;

    open spec fn view(&self) -> FetchOutcomeView {
        match self {
            FetchOutcome::Response { status, body } => FetchOutcomeView::Response {
                status: *status as int,
                body: body@,
            },
            FetchOutcome::Unreachable => FetchOutcomeView::Unreachable,
        }
    }
}

impl FetchOutcome {
    /// The document retrieved, or `FetchFailure` where none was.
    pub fn into_body(self) -> (r: Result<Vec<u8>, SyncError>)
        ensures
            self@.delivers() ==> (r matches Ok(b) && b@ == self@->body),
            !self@.delivers() ==> r == Err::<Vec<u8>, SyncError>(SyncError::FetchFailure),
    {
        match self {
            FetchOutcome::Response { status, body } => {
                if 200 <= status && status < 300 {
                    Ok(body)
                } else {
                    Err(SyncError::FetchFailure)
                }
            },
            FetchOutcome::Unreachable => Err(SyncError::FetchFailure),
        }
    }
}

/// What a machine asks to have done.
#[derive(Clone, Debug, PartialEq, Eq)]
pub enum Action {
    /// Look up the source of a channel.
    LookupChannel { channel_id: i32 },
    /// Fetch the document at `link`, giving up after `timeout_secs`.
    Fetch { link: String, timeout_secs: u64 },
    /// Parse the document that was fetched.
    ParseDocument { body: Vec<u8> },
    /// Insert the entry into the channel unless the channel already holds
    /// one with the same external identifier.
    InsertEntry { channel_id: i32, entry: Entry },
    /// Recompute the channel's unread count from its stored entries.
    RecomputeUnread { channel_id: i32 },
    /// Flip the read flag of an entry.
    FlipRead { entry_id: i32 },
}

/// What an `Action` holds.
pub enum ActionView {
    LookupChannel { channel_id: int },
    Fetch { link: Seq<char>, timeout_secs: int },
    ParseDocument { body: Seq<u8> },
    InsertEntry { channel_id: int, entry: EntryView },
    RecomputeUnread { channel_id: int },
    FlipRead { entry_id: int },
}

impl View for Action {
    type V = ActionView;

    open spec fn view(&self) -> ActionView {
        match self {
            Action::LookupChannel { channel_id } => ActionView::LookupChannel {
                channel_id: *channel_id as int,
            },
            Action::Fetch { link, timeout_secs } => ActionView::Fetch {
                link: link@,
                timeout_secs: *timeout_secs as int,
            },
            Action::ParseDocument { body } => ActionView::ParseDocument { body: body@ },
            Action::InsertEntry { channel_id, entry } => ActionView::InsertEntry {
                channel_id: *channel_id as int,
                entry: entry@,
            },
            Action::RecomputeUnread { channel_id } => ActionView::RecomputeUnread {
                channel_id: *channel_id as int,
            },
            Action::FlipRead { entry_id } => ActionView::FlipRead { entry_id: *entry_id as int },
        }
    }
}

impl DeepView for Action {
    type V = ActionView;

    open spec fn deep_view(&self) -> ActionView {
        self@
    }
}

impl ActionView {
    /// The channel whose rows and count the action writes, if it writes
    /// any. A lookup reads, a fetch and the parser never touch the store,
    /// and a flip names no channel.
    pub open spec fn written_channel(self) -> Option<int> {
        match self {
            ActionView::InsertEntry { channel_id, entry } => Some(channel_id),
            ActionView::RecomputeUnread { channel_id } => Some(channel_id),
            _ => None,
        }
    }
}

impl Action {
    /// The channel that has to be held against concurrent writers while
    /// the action is carried out; none for an action that may run freely.
    /// The fetch is among those, so no channel is held across the network.
    pub fn written_channel(&self) -> (r: Option<i32>)
        ensures
            match r {
                Some(c) => self@.written_channel() == Some(c as int),
                None => self@.written_channel() is None,
            },
    {
        match self {
            Action::InsertEntry { channel_id, .. } => Some(*channel_id),
            Action::RecomputeUnread { channel_id } => Some(*channel_id),
            _ => None,
        }
    }
}

/// What happened when an action was carried out.
#[derive(Clone, Debug, PartialEq, Eq)]
pub enum Event {
    /// The channel exists and is fetched from `link`.
    ChannelFound { link: String },
    /// There is no such channel.
    ChannelMissing,
    /// The fetch ended.
    Fetched(FetchOutcome),
    /// The parser ended: with the document, or with none where it turned
    /// the document down or did not get through it.
    Parsed { document: Option<RawFeed> },
    /// The store carried out the statement.
    Stored,
    /// The store did not carry out the statement.
    StoreFailed,
    /// The entry's read flag was flipped; `channel_id` owns the entry.
    Flipped { channel_id: i32 },
    /// There is no such entry.
    EntryMissing,
}

/// What an `Event` holds.
pub enum EventView {
    ChannelFound { link: Seq<char> },
    ChannelMissing,
    Fetched(FetchOutcomeView),
    Parsed { document: Option<RawFeedView> },
    Stored,
    StoreFailed,
    Flipped { channel_id: int },
    EntryMissing,
}

impl View for Event {
    type V = EventView;

    open spec fn view(&self) -> EventView {
        match self {
            Event::ChannelFound { link } => EventView::ChannelFound { link: link@ },
            Event::ChannelMissing => EventView::ChannelMissing,
            Event::Fetched(outcome) => EventView::Fetched(outcome@),
            Event::Parsed { document } => EventView::Parsed { document: document.deep_view() },
            Event::Stored => EventView::Stored,
            Event::StoreFailed => EventView::StoreFailed,
            Event::Flipped { channel_id } => EventView::Flipped { channel_id: *channel_id as int },
            Event::EntryMissing => EventView::EntryMissing,
        }
    }
}

/// What a finished refresh hands back, seen through the view of the feed.
pub open spec fn outcome_view(r: Result<Feed, SyncError>) -> Result<FeedView, SyncError> {
    match r {
        Ok(feed) => Ok(feed@),
        Err(e) => Err(e),
    }
}

/// Where a refresh stands.
#[derive(Debug)]
enum Phase {
    Resolving,
    Fetching { link: String },
    Parsing { body: Vec<u8> },
    Upserting { feed: Feed, next: usize },
    Recomputing { feed: Feed },
    Finished { result: Result<Feed, SyncError> },
}

/// Where a refresh stands.
pub enum PhaseView {
    /// The channel is being looked up.
    Resolving,
    /// The document at `link` is being fetched.
    Fetching { link: Seq<char> },
    /// The document `body` is fetched and is being parsed.
    Parsing { body: Seq<u8> },
    /// The entries before `next` are written; entry `next` is being
    /// inserted.
    Upserting { feed: FeedView, next: nat },
    /// All entries are written; the unread count is being recomputed.
    Recomputing { feed: FeedView },
    /// The refresh is over.
    Finished { result: Result<FeedView, SyncError> },
}

impl View for Phase {
    type V = PhaseView;

    closed spec fn view(&self) -> PhaseView {
        match self {
            Phase::Resolving => PhaseView::Resolving,
            Phase::Fetching { link } => PhaseView::Fetching { link: link@ },
            Phase::Parsing { body } => PhaseView::Parsing { body: body@ },
            Phase::Upserting { feed, next } => PhaseView::Upserting {
                feed: feed@,
                next: *next as nat,
            },
            Phase::Recomputing { feed } => PhaseView::Recomputing { feed: feed@ },
            Phase::Finished { result } => PhaseView::Finished { result: outcome_view(*result) },
        }
    }
}

/// One refresh of one channel.
#[derive(Debug)]
pub struct Refresh {
    channel_id: i32,
    phase: Phase,
}

/// What a `Refresh` holds.
pub struct RefreshView {
    pub channel_id: int,
    pub phase: PhaseView,
}

impl View for Refresh {
    type V = RefreshView;

    closed spec fn view(&self) -> RefreshView {
        RefreshView { channel_id: self.channel_id as int, phase: self.phase@ }
    }
}

impl RefreshView {
    /// While entries are being inserted there is one left to insert.
    pub open spec fn wf(self) -> bool {
        self.phase matches PhaseView::Upserting { feed, next } ==> next < feed.entries.len()
    }

    /// The refresh in another phase.
    pub open spec fn at(self, phase: PhaseView) -> RefreshView {
        RefreshView { phase, ..self }
    }

    /// The refresh, over with `result`.
    pub open spec fn ended(self, result: Result<FeedView, SyncError>) -> RefreshView {
        self.at(PhaseView::Finished { result })
    }

    /// The refresh at the start of writing `feed`: at its first entry, or
    /// at the recomputation if it has none.
    pub open spec fn writing(self, feed: FeedView) -> RefreshView {
        if feed.entries.len() > 0 {
            self.at(PhaseView::Upserting { feed, next: 0 })
        } else {
            self.at(PhaseView::Recomputing { feed })
        }
    }

    /// What the refresh asks to have done next; nothing once it is over.
    pub open spec fn action(self) -> Option<ActionView> {
        match self.phase {
            PhaseView::Resolving => Some(
                ActionView::LookupChannel { channel_id: self.channel_id },
            ),
            PhaseView::Fetching { link } => Some(
                ActionView::Fetch { link, timeout_secs: FETCH_TIMEOUT_SECS as int },
            ),
            PhaseView::Parsing { body } => Some(ActionView::ParseDocument { body }),
            PhaseView::Upserting { feed, next } => Some(
                ActionView::InsertEntry {
                    channel_id: self.channel_id,
                    entry: feed.entries[next as int],
                },
            ),
            PhaseView::Recomputing { feed } => Some(
                ActionView::RecomputeUnread { channel_id: self.channel_id },
            ),
            PhaseView::Finished { result } => None,
        }
    }

    /// The refresh after `ev`. A fetch that delivers a document leads to
    /// the parser, any other fetch ends the refresh; a parsed document is
    /// validated item by item and then written, and without one the
    /// refresh is over. An event that the phase does not wait for changes
    /// nothing.
    pub open spec fn stepped(self, ev: EventView) -> RefreshView {
        match (self.phase, ev) {
            (PhaseView::Resolving, EventView::ChannelFound { link }) => self.at(
                PhaseView::Fetching { link },
            ),
            (PhaseView::Resolving, EventView::ChannelMissing) => self.ended(
                Err(SyncError::ChannelNotFound),
            ),
            (PhaseView::Resolving, EventView::StoreFailed) => self.ended(
                Err(SyncError::PersistFailure),
            ),
            (PhaseView::Fetching { link }, EventView::Fetched(outcome)) => if outcome.delivers() {
                self.at(PhaseView::Parsing { body: outcome->body })
            } else {
                self.ended(Err(SyncError::FetchFailure))
            },
            (PhaseView::Parsing { body }, EventView::Parsed { document }) => match document {
                Some(raw) => self.writing(raw.normalized()),
                None => self.ended(Err(SyncError::ParseFailure)),
            },
            (PhaseView::Upserting { feed, next }, EventView::Stored) => if next + 1
                < feed.entries.len() {
                self.at(PhaseView::Upserting { feed, next: next + 1 })
            } else {
                self.at(PhaseView::Recomputing { feed })
            },
            (PhaseView::Upserting { feed, next }, EventView::StoreFailed) => self.ended(
                Err(SyncError::PersistFailure),
            ),
            (PhaseView::Recomputing { feed }, EventView::Stored) => self.ended(Ok(feed)),
            (PhaseView::Recomputing { feed }, EventView::StoreFailed) => self.ended(
                Err(SyncError::PersistFailure),
            ),
            _ => self,
        }
    }
}

impl Refresh {
    /// Every refresh is well formed.
    #[verifier::type_invariant]
    pub closed spec fn inv(&self) -> bool {
        self@.wf()
    }

    /// A refresh of channel `channel_id`, about to look the channel up.
    pub fn start(channel_id: i32) -> (r: Refresh)
        ensures
            r@ == (RefreshView { channel_id: channel_id as int, phase: PhaseView::Resolving }),
    {
        Refresh { channel_id, phase: Phase::Resolving }
    }

    /// The channel that is refreshed.
    pub fn channel_id(&self) -> (r: i32)
        ensures
            r == self@.channel_id,
    {
        self.channel_id
    }

    /// What is to be done next; nothing once the refresh is over.
    pub fn action(&self) -> (r: Option<Action>)
        ensures
            self@.wf(),
            r.deep_view() == self@.action(),
    {
        proof {
            use_type_invariant(self);
        }
        match &self.phase {
            Phase::Resolving => Some(Action::LookupChannel { channel_id: self.channel_id }),
            Phase::Fetching { link } => Some(
                Action::Fetch { link: link.clone(), timeout_secs: FETCH_TIMEOUT_SECS },
            ),
            Phase::Parsing { body } => Some(Action::ParseDocument { body: body.clone() }),
            Phase::Upserting { feed, next } => Some(
                Action::InsertEntry {
                    channel_id: self.channel_id,
                    entry: feed.entries[*next].duplicate(),
                },
            ),
            Phase::Recomputing { .. } => Some(
                Action::RecomputeUnread { channel_id: self.channel_id },
            ),
            Phase::Finished { .. } => None,
        }
    }

    /// Moves on with what happened.
    pub fn step(self, event: Event) -> (r: Refresh)
        ensures
            r@ == self@.stepped(event@),
    {
        proof {
            use_type_invariant(&self);
        }
        let Refresh { channel_id, phase } = self;
        match (phase, event) {
            (Phase::Resolving, Event::ChannelFound { link }) => Refresh {
                channel_id,
                phase: Phase::Fetching { link },
            },
            (Phase::Resolving, Event::ChannelMissing) => Refresh {
                channel_id,
                phase: Phase::Finished { result: Err(SyncError::ChannelNotFound) },
            },
            (Phase::Resolving, Event::StoreFailed) => Refresh {
                channel_id,
                phase: Phase::Finished { result: Err(SyncError::PersistFailure) },
            },
            (Phase::Fetching { .. }, Event::Fetched(outcome)) => match outcome.into_body() {
                Ok(body) => Refresh { channel_id, phase: Phase::Parsing { body } },
                Err(e) => Refresh { channel_id, phase: Phase::Finished { result: Err(e) } },
            },
            (Phase::Parsing { .. }, Event::Parsed { document }) => match document {
                Some(raw) => {
                    let feed = Feed::from(raw);
                    if feed.entries.len() > 0 {
                        Refresh { channel_id, phase: Phase::Upserting { feed, next: 0 } }
                    } else {
                        Refresh { channel_id, phase: Phase::Recomputing { feed } }
                    }
                },
                None => Refresh {
                    channel_id,
                    phase: Phase::Finished { result: Err(SyncError::ParseFailure) },
                },
            },
            (Phase::Upserting { feed, next }, Event::Stored) => {
                assert(self@.phase == PhaseView::Upserting { feed: feed@, next: next as nat });
                assert(feed@.entries.len() == feed.entries.len());
                if next + 1 < feed.entries.len() {
                    Refresh { channel_id, phase: Phase::Upserting { feed, next: next + 1 } }
                } else {
                    Refresh { channel_id, phase: Phase::Recomputing { feed } }
                }
            },
            (Phase::Upserting { .. }, Event::StoreFailed) => Refresh {
                channel_id,
                phase: Phase::Finished { result: Err(SyncError::PersistFailure) },
            },
            (Phase::Recomputing { feed }, Event::Stored) => Refresh {
                channel_id,
                phase: Phase::Finished { result: Ok(feed) },
            },
            (Phase::Recomputing { .. }, Event::StoreFailed) => Refresh {
                channel_id,
                phase: Phase::Finished { result: Err(SyncError::PersistFailure) },
            },
            (phase, _) => Refresh { channel_id, phase },
        }
    }

    /// What the refresh hands back, once it is over.
    pub fn into_result(self) -> (r: Option<Result<Feed, SyncError>>)
        ensures
            match r {
                Some(result) => self@.phase == (PhaseView::Finished {
                    result: outcome_view(result),
                }),
                None => !(self@.phase is Finished),
            },
    {
        match self.phase {
            Phase::Finished { result } => Some(result),
            _ => None,
        }
    }
}

/// One toggle of one entry's read flag: flip the flag, then recompute the
/// unread count of the channel that owns the entry.
#[derive(Clone, Copy, Debug, PartialEq, Eq)]
pub enum Toggle {
    /// The flag is being flipped.
    Flipping { entry_id: i32 },
    /// The flag is flipped; the owner's unread count is being recomputed.
    Recomputing { channel_id: i32 },
    /// The toggle is over.
    Finished { result: Result<(), SyncError> },
}

impl Toggle {
    /// What the toggle asks to have done next; nothing once it is over.
    pub open spec fn next_action(self) -> Option<ActionView> {
        match self {
            Toggle::Flipping { entry_id } => Some(ActionView::FlipRead { entry_id: entry_id as int }),
            Toggle::Recomputing { channel_id } => Some(
                ActionView::RecomputeUnread { channel_id: channel_id as int },
            ),
            Toggle::Finished { result } => None,
        }
    }

    /// The toggle after `ev`. An event that the toggle does not wait for
    /// changes nothing.
    pub open spec fn stepped(self, ev: EventView) -> Toggle {
        match (self, ev) {
            (Toggle::Flipping { entry_id }, EventView::Flipped { channel_id }) => {
                Toggle::Recomputing { channel_id: channel_id as i32 }
            },
            (Toggle::Flipping { entry_id }, EventView::EntryMissing) => Toggle::Finished {
                result: Err(SyncError::EntryNotFound),
            },
            (Toggle::Flipping { entry_id }, EventView::StoreFailed) => Toggle::Finished {
                result: Err(SyncError::PersistFailure),
            },
            (Toggle::Recomputing { channel_id }, EventView::Stored) => Toggle::Finished {
                result: Ok(()),
            },
            (Toggle::Recomputing { channel_id }, EventView::StoreFailed) => Toggle::Finished {
                result: Err(SyncError::PersistFailure),
            },
            _ => self,
        }
    }

    /// A toggle of entry `entry_id`, about to flip the flag.
    pub fn start(entry_id: i32) -> (r: Toggle)
        ensures
            r == (Toggle::Flipping { entry_id }),
    {
        Toggle::Flipping { entry_id }
    }

    /// What is to be done next; nothing once the toggle is over.
    pub fn action(&self) -> (r: Option<Action>)
        ensures
            r.deep_view() == self.next_action(),
    {
        match self {
            Toggle::Flipping { entry_id } => Some(Action::FlipRead { entry_id: *entry_id }),
            Toggle::Recomputing { channel_id } => Some(
                Action::RecomputeUnread { channel_id: *channel_id },
            ),
            Toggle::Finished { .. } => None,
        }
    }

    /// Moves on with what happened.
    pub fn step(self, event: Event) -> (r: Toggle)
        ensures
            r == self.stepped(event@),
    {
        match (self, event) {
            (Toggle::Flipping { .. }, Event::Flipped { channel_id }) => Toggle::Recomputing {
                channel_id,
            },
            (Toggle::Flipping { .. }, Event::EntryMissing) => Toggle::Finished {
                result: Err(SyncError::EntryNotFound),
            },
            (Toggle::Flipping { .. }, Event::StoreFailed) => Toggle::Finished {
                result: Err(SyncError::PersistFailure),
            },
            (Toggle::Recomputing { .. }, Event::Stored) => Toggle::Finished { result: Ok(()) },
            (Toggle::Recomputing { .. }, Event::StoreFailed) => Toggle::Finished {
                result: Err(SyncError::PersistFailure),
            },
            (state, _) => state,
        }
    }

    /// What the toggle hands back, once it is over.
    pub fn into_result(self) -> (r: Option<Result<(), SyncError>>)
        ensures
            match r {
                Some(result) => self == (Toggle::Finished { result }),
                None => !(self is Finished),
            },
    {
        match self {
            Toggle::Finished { result } => Some(result),
            _ => None,
        }
    }
}

} // verus!
