//! An in-memory relational store of channels and entries.
//!
//! Rows are never deleted, and both tables number their rows 1, 2, 3, ...
//! in insertion order. Within a channel an external identifier names at
//! most one entry: inserting a known one changes nothing. A channel's
//! unread count is a stored column that `recount` derives from the rows.
use vstd::prelude::*;
use crate::model::Entry;
use crate::model::EntryView;
use crate::model::Timestamp;

verus! {

/// A subscribed feed source.
#[derive(Clone, Debug, PartialEq, Eq)]
pub struct Channel {
    pub id: i32,
    /// Where the feed document is fetched from.
    pub link: String,
    /// The unread count as last recomputed.
    pub unread: i64,
}

/// What a `Channel` holds.
pub struct ChannelView {
    pub id: int,
    pub link: Seq<char>,
    pub unread: int,
}

impl View for Channel {
    type V = ChannelView;

    open spec fn view(&self) -> ChannelView {
        ChannelView { id: self.id as int, link: self.link@, unread: self.unread as int }
    }
}

impl DeepView for Channel {
    type V = ChannelView;

    open spec fn deep_view(&self) -> ChannelView {
        self@
    }
}

/// A stored entry as a listing shows it.
#[derive(Clone, Debug, PartialEq, Eq)]
pub struct OutputEntry {
    /// The identifier the store gave the entry.
    pub id: i32,
    pub title: String,
    pub link: String,
    pub published: Timestamp,
    pub updated: Timestamp,
    pub read: bool,
}

/// What an `OutputEntry` holds.
pub struct OutputEntryView {
    pub id: int,
    pub title: Seq<char>,
    pub link: Seq<char>,
    pub published: Timestamp,
    pub updated: Timestamp,
    pub read: bool,
}

impl OutputEntryView {
    /// The order of a listing: the entry published later comes first, and
    /// of two published at the same instant the one stored first.
    pub open spec fn precedes(self, other: OutputEntryView) -> bool {
        other.published.before(self.published) || (self.published == other.published && self.id
            < other.id)
    }
}

impl View for OutputEntry {
    type V = OutputEntryView;

    open spec fn view(&self) -> OutputEntryView {
        OutputEntryView {
            id: self.id as int,
            title: self.title@,
            link: self.link@,
            published: self.published,
            updated: self.updated,
            read: self.read,
        }
    }
}

impl DeepView for OutputEntry {
    type V = OutputEntryView;

    open spec fn deep_view(&self) -> OutputEntryView {
        self@
    }
}

impl OutputEntry {
    /// Decides `precedes`.
    pub fn comes_before(&self, other: &OutputEntry) -> (r: bool)
        ensures
            r == self@.precedes(other@),
    {
        other.published.is_before(&self.published) || (self.published == other.published
            && self.id < other.id)
    }
}

/// A stored entry: the entry as ingested, the channel that owns it, the
/// identifier the store gave it, and its read flag.
struct Row {
    id: i32,
    channel_id: i32,
    entry: Entry,
    read: bool,
}

/// What a stored entry holds.
pub struct RowView {
    pub id: int,
    pub channel_id: int,
    pub entry: EntryView,
    pub read: bool,
}

impl RowView {
    /// Whether the row is the entry of channel `c` with external
    /// identifier `ext`.
    pub open spec fn keyed(self, c: int, ext: Seq<char>) -> bool {
        self.channel_id == c && self.entry.entry_id == ext
    }

    /// Whether the row counts towards the unread count of channel `c`.
    pub open spec fn unread_in(self, c: int) -> bool {
        self.channel_id == c && !self.read
    }

    /// The row with its read flag flipped.
    pub open spec fn flipped(self) -> RowView {
        RowView { read: !self.read, ..self }
    }

    /// The row as a listing shows it.
    pub open spec fn output(self) -> OutputEntryView {
        OutputEntryView {
            id: self.id,
            title: self.entry.title,
            link: self.entry.link,
            published: self.entry.published,
            updated: self.entry.updated,
            read: self.read,
        }
    }
}

impl View for Row {
    type V = RowView;

    closed spec fn view(&self) -> RowView {
        RowView {
            id: self.id as int,
            channel_id: self.channel_id as int,
            entry: self.entry@,
            read: self.read,
        }
    }
}

impl DeepView for Row {
    type V = RowView;

    closed spec fn deep_view(&self) -> RowView {
        self@
    }
}

/// The two tables as sequences of rows in insertion order.
pub struct Tables {
    pub channels: Seq<ChannelView>,
    pub rows: Seq<RowView>,
}

/// The rows that count towards the unread count of channel `c`, as a
/// predicate value.
pub open spec fn unread_in(c: int) -> spec_fn(RowView) -> bool {
    |r: RowView| r.unread_in(c)
}

/// Whether `x` shows one of `rows` that belongs to channel `c`.
pub open spec fn shows(rows: Seq<RowView>, c: int, x: OutputEntryView) -> bool {
    exists|i: int| 0 <= i < rows.len() && (#[trigger] rows[i]).channel_id == c && rows[i].output() == x
}

/// Whether `out` shows exactly those of `rows` that belong to channel `c`,
/// in the order of a listing.
pub open spec fn is_listing(rows: Seq<RowView>, c: int, out: Seq<OutputEntryView>) -> bool {
    &&& forall|a: int, b: int|
        0 <= a < b < out.len() ==> (#[trigger] out[a]).precedes(#[trigger] out[b])
    &&& forall|k: int| 0 <= k < out.len() ==> shows(rows, c, #[trigger] out[k])
    &&& forall|i: int|
        0 <= i < rows.len() && (#[trigger] rows[i]).channel_id == c ==> out.contains(
            rows[i].output(),
        )
}

/// A listing stays one when a row of another channel is appended to the
/// rows.
proof fn lemma_listing_skips(rows: Seq<RowView>, c: int, out: Seq<OutputEntryView>, row: RowView)
    requires
        is_listing(rows, c, out),
        row.channel_id != c,
    ensures
        is_listing(rows.push(row), c, out),
{
    let more = rows.push(row);
    assert forall|k: int| 0 <= k < out.len() implies shows(more, c, #[trigger] out[k]) by {
        assert(shows(rows, c, out[k]));
        let i = choose|i: int|
            0 <= i < rows.len() && (#[trigger] rows[i]).channel_id == c && rows[i].output()
                == out[k];
        assert(more[i] == rows[i]);
    }
    assert forall|i: int|
        0 <= i < more.len() && (#[trigger] more[i]).channel_id == c implies out.contains(
        more[i].output(),
    ) by {
        assert(more[i] == rows[i]);
    }
}

/// A listing stays one when a row of its channel is appended to the rows
/// and shown at the place where everything before it precedes it and
/// nothing behind it does.
proof fn lemma_listing_places(
    rows: Seq<RowView>,
    c: int,
    out: Seq<OutputEntryView>,
    row: RowView,
    p: int,
)
    requires
        is_listing(rows, c, out),
        row.channel_id == c,
        forall|i: int| 0 <= i < rows.len() ==> (#[trigger] rows[i]).id != row.id,
        0 <= p <= out.len(),
        forall|q: int| 0 <= q < p ==> (#[trigger] out[q]).precedes(row.output()),
        p < out.len() ==> !out[p].precedes(row.output()),
    ensures
        is_listing(rows.push(row), c, out.insert(p, row.output())),
{
    let more = rows.push(row);
    let x = row.output();
    let shown = out.insert(p, x);
    assert forall|q: int| p <= q < out.len() implies x.precedes(#[trigger] out[q]) by {
        assert(shows(rows, c, out[p]));
        let i = choose|i: int|
            0 <= i < rows.len() && (#[trigger] rows[i]).channel_id == c && rows[i].output()
                == out[p];
        assert(out[p].id != x.id);
        if p < q {
            assert(out[p].precedes(out[q]));
        }
    }
    assert forall|a: int, b: int| 0 <= a < b < shown.len() implies (#[trigger] shown[a]).precedes(
        #[trigger] shown[b],
    ) by {
        if b < p {
            assert(shown[a] == out[a] && shown[b] == out[b]);
        } else if b == p {
            assert(shown[a] == out[a]);
        } else if a < p {
            assert(shown[a] == out[a] && shown[b] == out[b - 1]);
        } else if a == p {
            assert(shown[b] == out[b - 1]);
        } else {
            assert(shown[a] == out[a - 1] && shown[b] == out[b - 1]);
        }
    }
    assert forall|k: int| 0 <= k < shown.len() implies shows(more, c, #[trigger] shown[k]) by {
        if k == p {
            assert(more[rows.len() as int] == row);
        } else {
            let j = if k < p {
                k
            } else {
                k - 1
            };
            assert(shown[k] == out[j]);
            assert(shows(rows, c, out[j]));
            let i = choose|i: int|
                0 <= i < rows.len() && (#[trigger] rows[i]).channel_id == c && rows[i].output()
                    == out[j];
            assert(more[i] == rows[i]);
        }
    }
    assert forall|i: int|
        0 <= i < more.len() && (#[trigger] more[i]).channel_id == c implies shown.contains(
        more[i].output(),
    ) by {
        if i == rows.len() {
            assert(shown[p] == x);
        } else {
            assert(more[i] == rows[i]);
            let k = choose|k: int| 0 <= k < out.len() && out[k] == rows[i].output();
            if k < p {
                assert(shown[k] == out[k]);
            } else {
                assert(shown[k + 1] == out[k]);
            }
        }
    }
}

impl Tables {
    /// The store with no channel and no entry.
    pub open spec fn empty() -> Tables {
        Tables { channels: Seq::empty(), rows: Seq::empty() }
    }

    /// Whether `c` identifies a channel.
    pub open spec fn has_channel(self, c: int) -> bool {
        1 <= c <= self.channels.len()
    }

    /// Whether `id` identifies a stored entry.
    pub open spec fn has_entry(self, id: int) -> bool {
        1 <= id <= self.rows.len()
    }

    /// Whether channel `c` holds an entry with external identifier `ext`.
    pub open spec fn holds(self, c: int, ext: Seq<char>) -> bool {
        exists|i: int| 0 <= i < self.rows.len() && (#[trigger] self.rows[i]).keyed(c, ext)
    }

    /// The structural invariant: both tables number their rows from 1 and
    /// stay within the range of the identifier type, every entry belongs
    /// to a channel, and within a channel no external identifier occurs
    /// twice.
    pub open spec fn wf(self) -> bool {
        &&& self.channels.len() <= i32::MAX
        &&& self.rows.len() <= i32::MAX
        &&& forall|i: int|
            0 <= i < self.channels.len() ==> (#[trigger] self.channels[i]).id == i + 1
        &&& forall|i: int| 0 <= i < self.rows.len() ==> (#[trigger] self.rows[i]).id == i + 1
        &&& forall|i: int|
            0 <= i < self.rows.len() ==> self.has_channel((#[trigger] self.rows[i]).channel_id)
        &&& forall|i: int, j: int|
            0 <= i < j < self.rows.len() ==> !(#[trigger] self.rows[i]).keyed(
                (#[trigger] self.rows[j]).channel_id,
                self.rows[j].entry.entry_id,
            )
    }

    /// The channel with identifier `c`, if there is one.
    pub open spec fn channel(self, c: int) -> Option<ChannelView> {
        if self.has_channel(c) {
            Some(self.channels[c - 1])
        } else {
            None
        }
    }

    /// Whether another channel can be added.
    pub open spec fn takes_channel(self) -> bool {
        self.channels.len() < i32::MAX
    }

    /// The store after a channel for `link` is added: it gets the next
    /// identifier and an unread count of 0. A store that takes no more
    /// channels stays as it is.
    pub open spec fn with_channel(self, link: Seq<char>) -> Tables {
        if self.takes_channel() {
            Tables {
                channels: self.channels.push(
                    ChannelView { id: self.channels.len() as int + 1, link, unread: 0 },
                ),
                ..self
            }
        } else {
            self
        }
    }

    /// Whether inserting `e` into channel `c` fails: the channel does not
    /// exist, or the entry is new and the identifiers are used up.
    pub open spec fn rejects(self, c: int, e: EntryView) -> bool {
        !self.has_channel(c) || (!self.holds(c, e.entry_id) && self.rows.len() >= i32::MAX)
    }

    /// The store after `e` is inserted into channel `c`: a new entry is
    /// appended unread under the next identifier; a known one, and a
    /// failing insert, change nothing.
    pub open spec fn inserted(self, c: int, e: EntryView) -> Tables {
        if self.rejects(c, e) || self.holds(c, e.entry_id) {
            self
        } else {
            Tables {
                rows: self.rows.push(
                    RowView {
                        id: self.rows.len() as int + 1,
                        channel_id: c,
                        entry: e,
                        read: false,
                    },
                ),
                ..self
            }
        }
    }

    /// The number of unread entries of channel `c`.
    pub open spec fn unread(self, c: int) -> nat {
        self.rows.filter(unread_in(c)).len()
    }

    /// The store after the unread count of channel `c` is recomputed from
    /// the rows. Nothing changes if there is no such channel.
    pub open spec fn recounted(self, c: int) -> Tables {
        if self.has_channel(c) {
            Tables {
                channels: self.channels.update(
                    c - 1,
                    ChannelView { unread: self.unread(c) as int, ..self.channels[c - 1] },
                ),
                ..self
            }
        } else {
            self
        }
    }

    /// The channel that owns entry `id`, if there is such an entry.
    pub open spec fn owner(self, id: int) -> Option<int> {
        if self.has_entry(id) {
            Some(self.rows[id - 1].channel_id)
        } else {
            None
        }
    }

    /// The store after the read flag of entry `id` is flipped. Nothing
    /// changes if there is no such entry.
    pub open spec fn flipped(self, id: int) -> Tables {
        if self.has_entry(id) {
            Tables { rows: self.rows.update(id - 1, self.rows[id - 1].flipped()), ..self }
        } else {
            self
        }
    }

    /// Whether `out` is the listing of channel `c`: it shows every entry of
    /// the channel and nothing else, newest published first.
    pub open spec fn lists(self, c: int, out: Seq<OutputEntryView>) -> bool {
        is_listing(self.rows, c, out)
    }

    /// Whether the stored unread count of channel `c` is the number of its
    /// unread entries.
    pub open spec fn counted(self, c: int) -> bool {
        self.has_channel(c) ==> self.channels[c - 1].unread == self.unread(c)
    }

    /// Whether every channel's stored unread count is exact.
    pub open spec fn consistent(self) -> bool {
        forall|c: int| self.has_channel(c) ==> #[trigger] self.counted(c)
    }
}

/// The store.
pub struct Store {
    channels: Vec<Channel>,
    rows: Vec<Row>,
}

impl View for Store {
    type V = Tables;

    closed spec fn view(&self) -> Tables {
        Tables { channels: self.channels.deep_view(), rows: self.rows.deep_view() }
    }
}

impl Store {
    /// A store with no channel and no entry.
    pub fn new() -> (r: Store)
        ensures
            r@ == Tables::empty(),
            r@.wf(),
    {
        let r = Store { channels: Vec::new(), rows: Vec::new() };
        assert(r@.channels =~= Seq::empty());
        assert(r@.rows =~= Seq::empty());
        r
    }

    /// Adds a channel for `link` and returns its identifier, or `None`
    /// once the identifiers are used up.
    pub fn add_channel(&mut self, link: String) -> (r: Option<i32>)
        requires
            old(self)@.wf(),
        ensures
            final(self)@.wf(),
            final(self)@ == old(self)@.with_channel(link@),
            r == if old(self)@.takes_channel() {
                Some((old(self)@.channels.len() + 1) as i32)
            } else {
                None
            },
    {
        if self.channels.len() >= i32::MAX as usize {
            return None;
        }
        let id = (self.channels.len() + 1) as i32;
        let ghost before = self.channels.deep_view();
        self.channels.push(Channel { id, link, unread: 0 });
        assert(self.channels.deep_view() =~= before.push(
            ChannelView { id: id as int, link: link@, unread: 0 },
        ));
        Some(id)
    }

    /// The channels in the order in which they were added.
    pub fn channels(&self) -> (r: Vec<Channel>)
        requires
            self@.wf(),
        ensures
            r.deep_view() == self@.channels,
    {
        let mut r: Vec<Channel> = Vec::new();
        let mut i: usize = 0;
        while i < self.channels.len()
            invariant
                i <= self.channels.len(),
                r.deep_view() == self@.channels.take(i as int),
            decreases self.channels.len() - i,
        {
            let c = &self.channels[i];
            let ghost before = r.deep_view();
            r.push(Channel { id: c.id, link: c.link.clone(), unread: c.unread });
            assert(r.deep_view() =~= before.push(self@.channels[i as int]));
            assert(self@.channels.take(i + 1) =~= self@.channels.take(i as int).push(
                self@.channels[i as int],
            ));
            i += 1;
        }
        assert(self@.channels.take(i as int) =~= self@.channels);
        r
    }

    /// Looks a channel up by its identifier.
    pub fn channel(&self, channel_id: i32) -> (r: Option<Channel>)
        requires
            self@.wf(),
        ensures
            r.deep_view() == self@.channel(channel_id as int),
    {
        if channel_id < 1 || self.channels.len() < channel_id as usize {
            return None;
        }
        let c = &self.channels[(channel_id - 1) as usize];
        Some(Channel { id: c.id, link: c.link.clone(), unread: c.unread })
    }

    /// Inserts `entry` into channel `channel_id` unless the channel already
    /// holds an entry with the same external identifier, and says whether
    /// the statement went through.
    pub fn insert_entry(&mut self, channel_id: i32, entry: Entry) -> (stored: bool)
        requires
            old(self)@.wf(),
        ensures
            final(self)@.wf(),
            final(self)@ == old(self)@.inserted(channel_id as int, entry@),
            stored == !old(self)@.rejects(channel_id as int, entry@),
    {
        if channel_id < 1 || self.channels.len() < channel_id as usize {
            return false;
        }
        let mut i: usize = 0;
        while i < self.rows.len()
            invariant
                i <= self.rows.len(),
                self@ == old(self)@,
                self@.wf(),
                self@.has_channel(channel_id as int),
                forall|k: int|
                    0 <= k < i ==> !(#[trigger] self@.rows[k]).keyed(
                        channel_id as int,
                        entry@.entry_id,
                    ),
            decreases self.rows.len() - i,
        {
            if self.rows[i].channel_id == channel_id && self.rows[i].entry.entry_id
                == entry.entry_id {
                assert(self@.rows[i as int].keyed(channel_id as int, entry@.entry_id));
                return true;
            }
            i += 1;
        }
        if self.rows.len() >= i32::MAX as usize {
            return false;
        }
        let id = (self.rows.len() + 1) as i32;
        let ghost before = self.rows.deep_view();
        let ghost row = RowView { id: id as int, channel_id: channel_id as int, entry: entry@, read: false };
        self.rows.push(Row { id, channel_id, entry, read: false });
        assert(self.rows.deep_view() =~= before.push(row));
        true
    }

    /// Recomputes the unread count of channel `channel_id` from its rows.
    pub fn recount(&mut self, channel_id: i32)
        requires
            old(self)@.wf(),
        ensures
            final(self)@.wf(),
            final(self)@ == old(self)@.recounted(channel_id as int),
    {
        if channel_id < 1 || self.channels.len() < channel_id as usize {
            return;
        }
        let ghost all = self@.rows;
        let mut n: i64 = 0;
        let mut i: usize = 0;
        while i < self.rows.len()
            invariant
                i <= self.rows.len() <= i32::MAX,
                self@ == old(self)@,
                all == self@.rows,
                0 <= n <= i,
                n == all.take(i as int).filter(unread_in(channel_id as int)).len(),
            decreases self.rows.len() - i,
        {
            proof {
                assert(all.take(i + 1) =~= all.take(i as int).push(all[i as int]));
                all.take(i as int).lemma_filter_len_push(unread_in(channel_id as int), all[i as int]);
            }
            if self.rows[i].channel_id == channel_id && !self.rows[i].read {
                n += 1;
            }
            i += 1;
        }
        assert(all.take(i as int) =~= all);
        let idx = (channel_id - 1) as usize;
        let ghost before = self.channels.deep_view();
        self.channels[idx].unread = n;
        assert(self.channels.deep_view() =~= before.update(
            idx as int,
            ChannelView { unread: n as int, ..before[idx as int] },
        ));
    }

    /// Flips the read flag of entry `id` and returns the channel that owns
    /// it, or `None` if there is no such entry.
    pub fn flip(&mut self, id: i32) -> (owner: Option<i32>)
        requires
            old(self)@.wf(),
        ensures
            final(self)@.wf(),
            final(self)@ == old(self)@.flipped(id as int),
            match owner {
                Some(c) => old(self)@.owner(id as int) == Some(c as int),
                None => old(self)@.owner(id as int) is None,
            },
    {
        if id < 1 || self.rows.len() < id as usize {
            return None;
        }
        let idx = (id - 1) as usize;
        let ghost before = self.rows.deep_view();
        let read = self.rows[idx].read;
        self.rows[idx].read = !read;
        assert(self.rows.deep_view() =~= before.update(idx as int, before[idx as int].flipped()));
        Some(self.rows[idx].channel_id)
    }

    /// Lists the entries of channel `channel_id`, newest published first.
    pub fn entries_of(&self, channel_id: i32) -> (out: Vec<OutputEntry>)
        requires
            self@.wf(),
        ensures
            self@.lists(channel_id as int, out.deep_view()),
    {
        let mut out: Vec<OutputEntry> = Vec::new();
        let mut i: usize = 0;
        while i < self.rows.len()
            invariant
                i <= self.rows.len(),
                self@.wf(),
                is_listing(self@.rows.take(i as int), channel_id as int, out.deep_view()),
            decreases self.rows.len() - i,
        {
            let row = &self.rows[i];
            if row.channel_id == channel_id {
                let shown = OutputEntry {
                    id: row.id,
                    title: row.entry.title.clone(),
                    link: row.entry.link.clone(),
                    published: row.entry.published,
                    updated: row.entry.updated,
                    read: row.read,
                };
                assert(shown@ == self@.rows[i as int].output());
                let mut p: usize = 0;
                while p < out.len() && out[p].comes_before(&shown)
                    invariant
                        p <= out.len(),
                        forall|q: int| 0 <= q < p ==> (#[trigger] out.deep_view()[q]).precedes(shown@),
                    decreases out.len() - p,
                {
                    p += 1;
                }
                let ghost before = out.deep_view();
                out.insert(p, shown);
                proof {
                    assert(out.deep_view() =~= before.insert(p as int, shown@));
                    lemma_listing_places(
                        self@.rows.take(i as int),
                        channel_id as int,
                        before,
                        self@.rows[i as int],
                        p as int,
                    );
                }
            } else {
                proof {
                    lemma_listing_skips(
                        self@.rows.take(i as int),
                        channel_id as int,
                        out.deep_view(),
                        self@.rows[i as int],
                    );
                }
            }
            assert(self@.rows.take(i + 1) =~= self@.rows.take(i as int).push(self@.rows[i as int]));
            i += 1;
        }
        assert(self@.rows.take(i as int) =~= self@.rows);
        out
    }
}

} // verus!
