//! Validation of parsed items. An item becomes an entry only if nothing
//! required is missing from it; an incomplete item is turned down on its
//! own and never spoils the rest of its document.
use vstd::prelude::*;
use vstd::std_specs::convert::FromSpecImpl;
use vstd::std_specs::convert::TryFromSpecImpl;
use vstd::string::StringExecFns;
use crate::model::Entry;
use crate::model::EntryView;
use crate::model::Feed;
use crate::model::FeedView;
use crate::model::RawFeed;
use crate::model::RawFeedView;
use crate::model::RawItem;
use crate::model::RawItemView;

verus! {

/// Why an item was turned down: one flag for each required part that the
/// item lacks.
#[derive(Clone, Copy, Debug, PartialEq, Eq, Structural)]
pub struct Rejection {
    /// The identifier is empty.
    pub id: bool,
    pub title: bool,
    /// The item has no link at all.
    pub link: bool,
    pub published: bool,
    pub updated: bool,
}

impl Rejection {
    /// Whether no part is flagged.
    pub open spec fn nothing(self) -> bool {
        !self.id && !self.title && !self.link && !self.published && !self.updated
    }

    /// Decides `nothing`.
    pub fn is_empty(&self) -> (r: bool)
        ensures
            r == self.nothing(),
    {
        !self.id && !self.title && !self.link && !self.published && !self.updated
    }

    /// The text of `reason`: a heading followed by the name of each part
    /// that is flagged.
    pub open spec fn reason_text(self) -> Seq<char> {
        "Missing required fields:"@ + (if self.id {
            " id"@
        } else {
            Seq::empty()
        }) + (if self.title {
            " title"@
        } else {
            Seq::empty()
        }) + (if self.link {
            " link"@
        } else {
            Seq::empty()
        }) + (if self.published {
            " published"@
        } else {
            Seq::empty()
        }) + (if self.updated {
            " updated"@
        } else {
            Seq::empty()
        })
    }

    /// A line for a log that names the missing parts.
    pub fn reason(&self) -> (r: String)
        ensures
            r@ == self.reason_text(),
    {
        let mut text = "Missing required fields:".to_owned();
        let ghost head = text@;
        if self.id {
            text.append(" id");
        }
        let ghost with_id = text@;
        if self.title {
            text.append(" title");
        }
        let ghost with_title = text@;
        if self.link {
            text.append(" link");
        }
        let ghost with_link = text@;
        if self.published {
            text.append(" published");
        }
        let ghost with_published = text@;
        if self.updated {
            text.append(" updated");
        }
        proof {
            assert(with_id =~= head + (if self.id {
                " id"@
            } else {
                Seq::empty()
            }));
            assert(with_title =~= with_id + (if self.title {
                " title"@
            } else {
                Seq::empty()
            }));
            assert(with_link =~= with_title + (if self.link {
                " link"@
            } else {
                Seq::empty()
            }));
            assert(with_published =~= with_link + (if self.published {
                " published"@
            } else {
                Seq::empty()
            }));
            assert(text@ =~= with_published + (if self.updated {
                " updated"@
            } else {
                Seq::empty()
            }));
        }
        text
    }
}

impl RawItemView {
    /// The required parts that the item lacks.
    pub open spec fn missing(self) -> Rejection {
        Rejection {
            id: self.id.len() == 0,
            title: self.title is None,
            link: self.links.len() == 0,
            published: self.published is None,
            updated: self.updated is None,
        }
    }

    /// Whether the item has every required part.
    pub open spec fn complete(self) -> bool {
        self.missing().nothing()
    }

    /// The entry that a complete item yields; its link is the first of the
    /// item's links.
    pub open spec fn candidate(self) -> EntryView
        recommends
            self.complete(),
    {
        EntryView {
            entry_id: self.id,
            title: self.title->0,
            link: self.links[0],
            published: self.published->0,
            updated: self.updated->0,
        }
    }
}

impl RawItem {
    /// Lists the required parts that the item lacks.
    pub fn missing(&self) -> (r: Rejection)
        ensures
            r == self@.missing(),
    {
        Rejection {
            id: self.id.as_str().unicode_len() == 0,
            title: self.title.is_none(),
            link: self.links.len() == 0,
            published: self.published.is_none(),
            updated: self.updated.is_none(),
        }
    }
}

impl TryFrom<RawItem> for Entry {
    type Error = Rejection;

    /// Turns a parsed item into a storable entry, or says which required
    /// parts it lacks.
    fn try_from(e: RawItem) -> (r: Result<Entry, Rejection>)
        ensures
            e@.complete() ==> (r matches Ok(entry) && entry@ == e@.candidate()),
            !e@.complete() ==> r == Err::<Entry, Rejection>(e@.missing()),
    {
        let missing = e.missing();
        let RawItem { id, title, links, published, updated } = e;
        let mut links = links;
        match (title, published, updated) {
            (Some(title), Some(published), Some(updated)) => {
                if missing.is_empty() {
                    let link = links.remove(0);
                    Ok(Entry { entry_id: id, title, link, published, updated })
                } else {
                    Err(missing)
                }
            },
            _ => Err(missing),
        }
    }
}

/// As a value the result of `try_from` is determined only up to its
/// view, which `try_from` states itself.
impl TryFromSpecImpl<RawItem> for Entry {
    open spec fn obeys_try_from_spec() -> bool {
        false
    }

    open spec fn try_from_spec(v: RawItem) -> Result<Entry, Rejection> {
        if v@.complete() {
            Ok(choose|e: Entry| e@ == v@.candidate())
        } else {
            Err(v@.missing())
        }
    }
}

impl RawItemView {
    /// The entry that the item yields, if it is complete.
    pub open spec fn accepted(self) -> Option<EntryView> {
        if self.complete() {
            Some(self.candidate())
        } else {
            None
        }
    }
}

/// The entries that a run of items yields: the candidates of the complete
/// items, in their order; incomplete items leave no trace.
pub open spec fn accepted(items: Seq<RawItemView>) -> Seq<EntryView> {
    items.filter_map(acceptance())
}

/// `RawItemView::accepted` as a function value.
pub open spec fn acceptance() -> spec_fn(RawItemView) -> Option<EntryView> {
    |i: RawItemView| i.accepted()
}

/// `RawItemView::complete` as a predicate value.
pub open spec fn completeness() -> spec_fn(RawItemView) -> bool {
    |i: RawItemView| i.complete()
}

/// `RawItemView::candidate` as a function value.
pub open spec fn candidacy() -> spec_fn(RawItemView) -> EntryView {
    |i: RawItemView| i.candidate()
}

/// Partial documents are tolerated: the entries of a run of items are the
/// candidates of its complete items and of no others, so a run with `n`
/// complete items yields exactly `n` entries, however many incomplete
/// items stand among them.
pub proof fn lemma_accepted_are_the_complete(items: Seq<RawItemView>)
    ensures
        accepted(items) == items.filter(completeness()).map_values(candidacy()),
        accepted(items).len() == items.filter(completeness()).len(),
    decreases items.len(),
{
    reveal(Seq::filter);
    if items.len() > 0 {
        let front = items.drop_last();
        lemma_accepted_are_the_complete(front);
        let kept = front.filter(completeness());
        if items.last().complete() {
            assert(kept.push(items.last()).map_values(candidacy()) =~= kept.map_values(
                candidacy(),
            ).push(items.last().candidate()));
            assert(accepted(front) + seq![items.last().candidate()] =~= accepted(front).push(
                items.last().candidate(),
            ));
        }
    }
    assert(accepted(items) =~= items.filter(completeness()).map_values(candidacy()));
}

impl RawFeedView {
    /// The document with only its complete items kept.
    pub open spec fn normalized(self) -> FeedView {
        FeedView { id: self.id, title: self.title, entries: accepted(self.items) }
    }
}

impl From<RawFeed> for Feed {
    /// Keeps the feed's identifier and title and validates every item on
    /// its own: complete items become entries, the others are skipped.
    fn from(f: RawFeed) -> (r: Feed)
        ensures
            r@ == f@.normalized(),
    {
        let RawFeed { id, title, items } = f;
        let ghost all = items.deep_view();
        let mut entries: Vec<Entry> = Vec::new();
        for item in it: items
            invariant
                it.seq().len() == all.len(),
                forall|k: int| 0 <= k < all.len() ==> (#[trigger] it.seq()[k])@ == all[k],
                entries.deep_view() == accepted(all.take(it.index())),
        {
            proof {
                all.lemma_filter_map_take_succ(acceptance(), it.index());
            }
            let ghost before = entries.deep_view();
            match Entry::try_from(item) {
                Ok(entry) => {
                    entries.push(entry);
                    assert(entries.deep_view() =~= before + seq![entry@]);
                },
                Err(_) => {},
            }
        }
        assert(all.take(all.len() as int) =~= all);
        Feed { id, title, entries }
    }
}

/// As a value the result of `from` is determined only up to its view,
/// which `from` states itself.
impl FromSpecImpl<RawFeed> for Feed {
    open spec fn obeys_from_spec() -> bool {
        false
    }

    open spec fn from_spec(v: RawFeed) -> Feed {
        choose|f: Feed| f@ == v@.normalized()
    }
}

} // verus!
