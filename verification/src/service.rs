//! The operations of the service, run against the in-memory store: list
//! and add channels, list a channel's entries, refresh a channel from a
//! fetched and parsed document, and toggle an entry's read flag.
//!
//! Refresh and toggle are the machines of [`crate::sync`], with every
//! store action carried out at once on the store at hand.
use vstd::prelude::*;
use crate::error::SyncError;
use crate::model::EntryView;
use crate::model::Feed;
use crate::model::FeedView;
use crate::model::RawFeed;
use crate::model::RawFeedView;
use crate::store::Channel;
use crate::store::ChannelView;
use crate::store::OutputEntry;
use crate::store::Store;
use crate::store::Tables;
use crate::sync::outcome_view;
use crate::sync::Action;
use crate::sync::ActionView;
use crate::sync::Event;
use crate::sync::EventView;
use crate::sync::FetchOutcome;
use crate::sync::FetchOutcomeView;
use crate::sync::PhaseView;
use crate::sync::Refresh;
use crate::sync::RefreshView;
use crate::sync::Toggle;

verus! {

/// What the operations work on.
pub struct AppState {
    pub db: Store,
}

/// A request to subscribe to the feed at `link`.
#[derive(Clone, Debug, PartialEq, Eq)]
pub struct AddChannel {
    pub link: String,
}

impl Tables {
    /// The store after `a` is carried out on it, and what it answers. A
    /// store fetches nothing and parses nothing: it answers a fetch with
    /// `Unreachable` and the parser's action with no document.
    pub open spec fn answer(self, a: ActionView) -> (Tables, EventView) {
        match a {
            ActionView::LookupChannel { channel_id } => (
                self,
                match self.channel(channel_id) {
                    Some(ch) => EventView::ChannelFound { link: ch.link },
                    None => EventView::ChannelMissing,
                },
            ),
            ActionView::Fetch { link, timeout_secs } => (
                self,
                EventView::Fetched(FetchOutcomeView::Unreachable),
            ),
            ActionView::ParseDocument { body } => (self, EventView::Parsed { document: None }),
            ActionView::InsertEntry { channel_id, entry } => (
                self.inserted(channel_id, entry),
                if self.rejects(channel_id, entry) {
                    EventView::StoreFailed
                } else {
                    EventView::Stored
                },
            ),
            ActionView::RecomputeUnread { channel_id } => (
                self.recounted(channel_id),
                EventView::Stored,
            ),
            ActionView::FlipRead { entry_id } => (
                self.flipped(entry_id),
                match self.owner(entry_id) {
                    Some(c) => EventView::Flipped { channel_id: c },
                    None => EventView::EntryMissing,
                },
            ),
        }
    }

    /// Whether every one of `entries` can be inserted into channel `c`,
    /// one after the other.
    pub open spec fn upserts(self, c: int, entries: Seq<EntryView>) -> bool
        decreases entries.len(),
    {
        entries.len() == 0 || (!self.rejects(c, entries[0]) && self.inserted(
            c,
            entries[0],
        ).upserts(c, entries.drop_first()))
    }

    /// The store after `entries` are inserted into channel `c`, one after
    /// the other, up to the first insert that fails.
    pub open spec fn upserted(self, c: int, entries: Seq<EntryView>) -> Tables
        decreases entries.len(),
    {
        if entries.len() == 0 || self.rejects(c, entries[0]) {
            self
        } else {
            self.inserted(c, entries[0]).upserted(c, entries.drop_first())
        }
    }

    /// The store after `entries` are written to channel `c`: all are
    /// inserted and the unread count is recomputed once; if an insert
    /// fails, what was inserted before it stays and the count is left as
    /// it was.
    pub open spec fn refreshed(self, c: int, entries: Seq<EntryView>) -> Tables {
        if self.upserts(c, entries) {
            self.upserted(c, entries).recounted(c)
        } else {
            self.upserted(c, entries)
        }
    }

    /// The store after channel `c` is refreshed with the parsed document
    /// `doc`, or with the reason why there is none, and what the refresh
    /// hands back.
    pub open spec fn refresh_outcome(self, c: int, doc: Result<RawFeedView, SyncError>) -> (
        Tables,
        Result<FeedView, SyncError>,
    ) {
        if !self.has_channel(c) {
            (self, Err(SyncError::ChannelNotFound))
        } else {
            match doc {
                Err(e) => (self, Err(e)),
                Ok(raw) => {
                    let feed = raw.normalized();
                    (
                        self.refreshed(c, feed.entries),
                        if self.upserts(c, feed.entries) {
                            Ok(feed)
                        } else {
                            Err(SyncError::PersistFailure)
                        },
                    )
                },
            }
        }
    }

    /// The store after entry `id` is toggled, and what the toggle hands
    /// back.
    pub open spec fn toggle_outcome(self, id: int) -> (Tables, Result<(), SyncError>) {
        match self.owner(id) {
            Some(c) => (self.flipped(id).recounted(c), Ok(())),
            None => (self, Err(SyncError::EntryNotFound)),
        }
    }

    /// The store after a refresh that has its parsed document is run to its end,
    /// and what the refresh hands back.
    pub open spec fn settled(self, m: RefreshView) -> (Tables, Result<FeedView, SyncError>) {
        match m.phase {
            PhaseView::Upserting { feed, next } => {
                let rest = feed.entries.skip(next as int);
                (
                    self.refreshed(m.channel_id, rest),
                    if self.upserts(m.channel_id, rest) {
                        Ok(feed)
                    } else {
                        Err(SyncError::PersistFailure)
                    },
                )
            },
            PhaseView::Recomputing { feed } => (self.recounted(m.channel_id), Ok(feed)),
            PhaseView::Finished { result } => (self, result),
            _ => (self, Err(SyncError::FetchFailure)),
        }
    }
}

impl RefreshView {
    /// The number of steps a refresh that has its parsed document is from its
    /// end.
    pub open spec fn remaining(self) -> nat {
        match self.phase {
            PhaseView::Upserting { feed, next } => (feed.entries.len() - next + 1) as nat,
            PhaseView::Recomputing { feed } => 1,
            _ => 0,
        }
    }

    /// Whether the refresh has its parsed document, or is over.
    pub open spec fn settling(self) -> bool {
        self.phase is Upserting || self.phase is Recomputing || self.phase is Finished
    }
}

/// Carries `action` out on the store and says what happened.
pub fn perform(db: &mut Store, action: Action) -> (ev: Event)
    requires
        old(db)@.wf(),
    ensures
        final(db)@.wf(),
        (final(db)@, ev@) == old(db)@.answer(action@),
{
    match action {
        Action::LookupChannel { channel_id } => match db.channel(channel_id) {
            Some(ch) => Event::ChannelFound { link: ch.link },
            None => Event::ChannelMissing,
        },
        Action::Fetch { .. } => Event::Fetched(FetchOutcome::Unreachable),
        Action::ParseDocument { .. } => Event::Parsed { document: None },
        Action::InsertEntry { channel_id, entry } => {
            if db.insert_entry(channel_id, entry) {
                Event::Stored
            } else {
                Event::StoreFailed
            }
        },
        Action::RecomputeUnread { channel_id } => {
            db.recount(channel_id);
            Event::Stored
        },
        Action::FlipRead { entry_id } => match db.flip(entry_id) {
            Some(channel_id) => Event::Flipped { channel_id },
            None => Event::EntryMissing,
        },
    }
}

/// One step of a refresh against the store keeps what the refresh will
/// have done at its end, and brings the end nearer: carrying out the
/// action that the refresh asks for and handing it the store's answer
/// leads to the same final store and the same result as before.
pub proof fn lemma_settling_step(s: Tables, m: RefreshView)
    requires
        m.wf(),
        m.settling(),
        m.action() is Some,
    ensures
        ({
            let (after, ev) = s.answer(m.action()->0);
            &&& m.stepped(ev).wf()
            &&& m.stepped(ev).settling()
            &&& m.stepped(ev).remaining() < m.remaining()
            &&& after.settled(m.stepped(ev)) == s.settled(m)
        }),
{
    let c = m.channel_id;
    if let PhaseView::Upserting { feed, next } = m.phase {
        let rest = feed.entries.skip(next as int);
        let e = feed.entries[next as int];
        assert(rest.len() > 0 && rest[0] == e);
        assert(rest.drop_first() =~= feed.entries.skip(next as int + 1));
        if s.rejects(c, e) {
            assert(!s.upserts(c, rest));
            assert(s.upserted(c, rest) == s);
        } else {
            let after = s.inserted(c, e);
            assert(s.upserts(c, rest) == after.upserts(c, rest.drop_first()));
            assert(s.upserted(c, rest) == after.upserted(c, rest.drop_first()));
            if next + 1 == feed.entries.len() {
                assert(rest.drop_first().len() == 0);
                assert(after.upserts(c, rest.drop_first()));
                assert(after.upserted(c, rest.drop_first()) == after);
            }
        }
    }
}

/// Runs a refresh that has its parsed document to its end.
fn settle(db: &mut Store, m: Refresh) -> (r: Result<Feed, SyncError>)
    requires
        old(db)@.wf(),
        m@.settling(),
    ensures
        final(db)@.wf(),
        (final(db)@, outcome_view(r)) == old(db)@.settled(m@),
{
    let mut state = m;
    loop
        invariant
            db@.wf(),
            state@.settling(),
            db@.settled(state@) == old(db)@.settled(m@),
        decreases state@.remaining(),
    {
        match state.action() {
            Some(action) => {
                proof {
                    lemma_settling_step(db@, state@);
                }
                let ev = perform(db, action);
                state = state.step(ev);
            },
            None => {
                return match state.into_result() {
                    Some(result) => result,
                    None => Err(SyncError::PersistFailure),
                };
            },
        }
    }
}

/// Lists the channels in the order in which they were added.
pub fn get_channels(data: &AppState) -> (r: Vec<Channel>)
    requires
        data.db@.wf(),
    ensures
        r.deep_view() == data.db@.channels,
{
    data.db.channels()
}

/// Adds a channel for the link given. The channel gets the next
/// identifier and no unread entries; once the identifiers are used up the
/// store takes no more channels.
pub fn add_channel(data: &mut AppState, channel: AddChannel) -> (r: Result<Channel, SyncError>)
    requires
        old(data).db@.wf(),
    ensures
        final(data).db@.wf(),
        final(data).db@ == old(data).db@.with_channel(channel.link@),
        old(data).db@.takes_channel() ==> (r matches Ok(ch) && ch@ == ChannelView {
            id: old(data).db@.channels.len() as int + 1,
            link: channel.link@,
            unread: 0,
        }),
        !old(data).db@.takes_channel() ==> r == Err::<Channel, SyncError>(
            SyncError::PersistFailure,
        ),
{
    let link = channel.link.clone();
    match data.db.add_channel(channel.link) {
        Some(id) => Ok(Channel { id, link, unread: 0 }),
        None => Err(SyncError::PersistFailure),
    }
}

/// Lists the entries of a channel, newest published first.
pub fn get_feed(data: &AppState, channel_id: i32) -> (r: Vec<OutputEntry>)
    requires
        data.db@.wf(),
    ensures
        data.db@.lists(channel_id as int, r.deep_view()),
{
    data.db.entries_of(channel_id)
}

/// What a refresh has to go on: the parsed document where the fetch
/// delivered one and the parser got through it, else the reason why there
/// is none.
pub open spec fn delivered(fetched: FetchOutcomeView, parsed: Option<RawFeedView>) -> Result<
    RawFeedView,
    SyncError,
> {
    if !fetched.delivers() {
        Err(SyncError::FetchFailure)
    } else {
        match parsed {
            Some(raw) => Ok(raw),
            None => Err(SyncError::ParseFailure),
        }
    }
}

/// Refreshes a channel, given what came of fetching its document and
/// what the parser made of the document (`None` where it made nothing of
/// it; not looked at where the fetch delivered none).
///
/// Without the channel nothing happens and the refresh fails with
/// `ChannelNotFound`; without a document it fails with `FetchFailure`,
/// without a parsed one with `ParseFailure`, and nothing happens either.
/// Otherwise the complete items are inserted in document order, the
/// unread count is recomputed once, and the normalised document is handed
/// back. If the store fails an insert, what was inserted before stays and
/// the refresh fails with `PersistFailure`.
pub fn update_feed(
    data: &mut AppState,
    channel_id: i32,
    fetched: FetchOutcome,
    parsed: Option<RawFeed>,
) -> (r: Result<Feed, SyncError>)
    requires
        old(data).db@.wf(),
    ensures
        final(data).db@.wf(),
        (final(data).db@, outcome_view(r)) == old(data).db@.refresh_outcome(
            channel_id as int,
            delivered(fetched@, parsed.deep_view()),
        ),
{
    let m = Refresh::start(channel_id);
    let ev = perform(&mut data.db, Action::LookupChannel { channel_id });
    let m = m.step(ev);
    let m = m.step(Event::Fetched(fetched));
    let m = m.step(Event::Parsed { document: parsed });
    proof {
        if let PhaseView::Upserting { feed, next } = m@.phase {
            assert(feed.entries.skip(0) =~= feed.entries);
        }
    }
    settle(&mut data.db, m)
}

/// Flips the read flag of an entry and recomputes the unread count of the
/// channel that owns it. Without the entry nothing happens and the toggle
/// fails with `EntryNotFound`.
pub fn toggle_read(data: &mut AppState, id: i32) -> (r: Result<(), SyncError>)
    requires
        old(data).db@.wf(),
    ensures
        final(data).db@.wf(),
        (final(data).db@, r) == old(data).db@.toggle_outcome(id as int),
{
    let m = Toggle::start(id);
    let ev = perform(&mut data.db, Action::FlipRead { entry_id: id });
    let m = m.step(ev);
    let m = match m.action() {
        Some(action) => {
            let ev = perform(&mut data.db, action);
            m.step(ev)
        },
        None => m,
    };
    match m.into_result() {
        Some(result) => result,
        None => Err(SyncError::PersistFailure),
    }
}

} // verus!
