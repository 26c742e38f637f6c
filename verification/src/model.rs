//! The values that flow through a refresh: instants, parsed items and
//! documents as the parser delivers them, and the normalised entries and
//! documents that are stored and handed back.
use vstd::prelude::*;

verus! {

/// An instant on the UTC time line: whole seconds since the Unix epoch and
/// the nanoseconds into that second.
#[derive(Clone, Copy, Debug, PartialEq, Eq, Structural)]
pub struct Timestamp {
    pub secs: i64,
    pub nanos: u32,
}

impl Timestamp {
    /// Whether `self` lies strictly earlier than `other`.
    pub open spec fn before(self, other: Timestamp) -> bool {
        self.secs < other.secs || (self.secs == other.secs && self.nanos < other.nanos)
    }

    /// Decides `before`.
    pub fn is_before(&self, other: &Timestamp) -> (r: bool)
        ensures
            r == self.before(*other),
    {
        self.secs < other.secs || (self.secs == other.secs && self.nanos < other.nanos)
    }
}

/// One item of a parsed document, with every optional part still optional.
#[derive(Clone, Debug, PartialEq, Eq)]
pub struct RawItem {
    /// The identifier the upstream feed gives the item.
    pub id: String,
    pub title: Option<String>,
    /// Link targets in document order.
    pub links: Vec<String>,
    pub published: Option<Timestamp>,
    pub updated: Option<Timestamp>,
}

/// What a `RawItem` holds.
pub struct RawItemView {
    pub id: Seq<char>,
    pub title: Option<Seq<char>>,
    pub links: Seq<Seq<char>>,
    pub published: Option<Timestamp>,
    pub updated: Option<Timestamp>,
}

impl View for RawItem {
    type V = RawItemView;

    open spec fn view(&self) -> RawItemView {
        RawItemView {
            id: self.id@,
            title: self.title.deep_view(),
            links: self.links.deep_view(),
            published: self.published,
            updated: self.updated,
        }
    }
}

impl DeepView for RawItem {
    type V = RawItemView;

    open spec fn deep_view(&self) -> RawItemView {
        self@
    }
}

/// A parsed document: the feed's identifier, its title if it has one, and
/// its items in document order.
#[derive(Clone, Debug, PartialEq, Eq)]
pub struct RawFeed {
    pub id: String,
    pub title: Option<String>,
    pub items: Vec<RawItem>,
}

/// What a `RawFeed` holds.
pub struct RawFeedView {
    pub id: Seq<char>,
    pub title: Option<Seq<char>>,
    pub items: Seq<RawItemView>,
}

impl View for RawFeed {
    type V = RawFeedView;

    open spec fn view(&self) -> RawFeedView {
        RawFeedView {
            id: self.id@,
            title: self.title.deep_view(),
            items: self.items.deep_view(),
        }
    }
}

impl DeepView for RawFeed {
    type V = RawFeedView;

    open spec fn deep_view(&self) -> RawFeedView {
        self@
    }
}

/// A storable entry: an item in which nothing required is missing.
#[derive(Clone, Debug, PartialEq, Eq)]
pub struct Entry {
    /// The upstream identifier, the deduplication key within a channel.
    pub entry_id: String,
    pub title: String,
    pub link: String,
    pub published: Timestamp,
    pub updated: Timestamp,
}

/// What an `Entry` holds.
pub struct EntryView {
    pub entry_id: Seq<char>,
    pub title: Seq<char>,
    pub link: Seq<char>,
    pub published: Timestamp,
    pub updated: Timestamp,
}

impl View for Entry {
    type V = EntryView;

    open spec fn view(&self) -> EntryView {
        EntryView {
            entry_id: self.entry_id@,
            title: self.title@,
            link: self.link@,
            published: self.published,
            updated: self.updated,
        }
    }
}

impl DeepView for Entry {
    type V = EntryView;

    open spec fn deep_view(&self) -> EntryView {
        self@
    }
}

impl Entry {
    /// A second entry with the same contents.
    pub fn duplicate(&self) -> (r: Entry)
        ensures
            r@ == self@,
    {
        Entry {
            entry_id: self.entry_id.clone(),
            title: self.title.clone(),
            link: self.link.clone(),
            published: self.published,
            updated: self.updated,
        }
    }
}

/// A normalised document: the feed's identifier and title with the
/// entries that passed validation, in document order.
#[derive(Clone, Debug, PartialEq, Eq)]
pub struct Feed {
    pub id: String,
    pub title: Option<String>,
    pub entries: Vec<Entry>,
}

/// What a `Feed` holds.
pub struct FeedView {
    pub id: Seq<char>,
    pub title: Option<Seq<char>>,
    pub entries: Seq<EntryView>,
}

impl View for Feed {
    type V = FeedView;

    open spec fn view(&self) -> FeedView {
        FeedView {
            id: self.id@,
            title: self.title.deep_view(),
            entries: self.entries.deep_view(),
        }
    }
}

impl DeepView for Feed {
    type V = FeedView;

    open spec fn deep_view(&self) -> FeedView {
        self@
    }
}

} // verus!
