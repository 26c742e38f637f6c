//! What holds of the store under refresh and toggle, whatever the store
//! and the document: proved once, for every input.
use vstd::prelude::*;
use crate::error::SyncError;
use crate::model::EntryView;
use crate::model::FeedView;
use crate::model::RawFeedView;
use crate::store::is_listing;
use crate::store::shows;
use crate::store::unread_in;
use crate::store::OutputEntryView;
use crate::store::RowView;
use crate::store::Tables;

verus! {

/// Replacing one row changes the number of rows that satisfy `p` by what
/// the old row and the new one contribute.
pub proof fn lemma_count_after_update(
    rows: Seq<RowView>,
    i: int,
    row: RowView,
    p: spec_fn(RowView) -> bool,
)
    requires
        0 <= i < rows.len(),
    ensures
        rows.update(i, row).filter(p).len() == rows.filter(p).len() - (if p(rows[i]) {
            1int
        } else {
            0int
        }) + (if p(row) {
            1int
        } else {
            0int
        }),
    decreases rows.len(),
{
    reveal(Seq::filter);
    let changed = rows.update(i, row);
    if i == rows.len() - 1 {
        assert(changed.drop_last() =~= rows.drop_last());
    } else {
        assert(changed.drop_last() =~= rows.drop_last().update(i, row));
        lemma_count_after_update(rows.drop_last(), i, row, p);
    }
}

/// An insert keeps the store well formed.
pub proof fn lemma_inserted_wf(s: Tables, c: int, e: EntryView)
    requires
        s.wf(),
    ensures
        s.inserted(c, e).wf(),
{
    let t = s.inserted(c, e);
    if t != s {
        assert forall|i: int, j: int| 0 <= i < j < t.rows.len() implies !(#[trigger] t.rows[i]).keyed(
            (#[trigger] t.rows[j]).channel_id,
            t.rows[j].entry.entry_id,
        ) by {
            if j == s.rows.len() {
                assert(t.rows[i] == s.rows[i]);
            }
        }
    }
}

/// What a channel holds it still holds after an insert, and an insert
/// that goes through leaves the channel holding the entry's identifier.
pub proof fn lemma_inserted_holds(s: Tables, c: int, e: EntryView, d: int, ext: Seq<char>)
    ensures
        s.holds(d, ext) ==> s.inserted(c, e).holds(d, ext),
        !s.rejects(c, e) ==> s.inserted(c, e).holds(c, e.entry_id),
{
    let t = s.inserted(c, e);
    if s.holds(d, ext) {
        let i = choose|i: int| 0 <= i < s.rows.len() && (#[trigger] s.rows[i]).keyed(d, ext);
        assert(t.rows[i].keyed(d, ext));
    }
    if !s.rejects(c, e) && !s.holds(c, e.entry_id) {
        assert(t.rows[s.rows.len() as int].keyed(c, e.entry_id));
    }
}

/// An insert into channel `c` changes neither the channels nor the
/// unread entries of another channel, and keeps every row that was there.
pub proof fn lemma_inserted_elsewhere(s: Tables, c: int, e: EntryView, d: int)
    ensures
        s.inserted(c, e).channels == s.channels,
        s.inserted(c, e).rows.len() >= s.rows.len(),
        s.inserted(c, e).rows.take(s.rows.len() as int) == s.rows,
        d != c ==> s.inserted(c, e).unread(d) == s.unread(d),
{
    let t = s.inserted(c, e);
    assert(t.rows.take(s.rows.len() as int) =~= s.rows);
    if t != s {
        let row = RowView { id: s.rows.len() as int + 1, channel_id: c, entry: e, read: false };
        s.rows.lemma_filter_len_push(unread_in(d), row);
    }
}

/// Writing entries to channel `c` keeps the store well formed, changes
/// neither the channels nor the unread entries of another channel, and
/// keeps every row that was there: a stored entry is never rewritten.
pub proof fn lemma_upserted_keeps(s: Tables, c: int, entries: Seq<EntryView>, d: int)
    requires
        s.wf(),
    ensures
        s.upserted(c, entries).wf(),
        s.upserted(c, entries).channels == s.channels,
        s.upserted(c, entries).rows.len() >= s.rows.len(),
        s.upserted(c, entries).rows.take(s.rows.len() as int) == s.rows,
        d != c ==> s.upserted(c, entries).unread(d) == s.unread(d),
    decreases entries.len(),
{
    if entries.len() == 0 || s.rejects(c, entries[0]) {
        assert(s.rows.take(s.rows.len() as int) =~= s.rows);
    } else {
        let t = s.inserted(c, entries[0]);
        lemma_inserted_wf(s, c, entries[0]);
        lemma_inserted_elsewhere(s, c, entries[0], d);
        lemma_upserted_keeps(t, c, entries.drop_first(), d);
        let u = t.upserted(c, entries.drop_first());
        assert(u.rows.take(s.rows.len() as int) =~= u.rows.take(t.rows.len() as int).take(
            s.rows.len() as int,
        ));
    }
}

/// What a channel holds it still holds after entries are written, and
/// when all of them went through the channel holds each one's identifier.
pub proof fn lemma_upserted_holds(s: Tables, c: int, entries: Seq<EntryView>)
    ensures
        forall|d: int, ext: Seq<char>|
            s.holds(d, ext) ==> #[trigger] s.upserted(c, entries).holds(d, ext),
        s.upserts(c, entries) ==> forall|i: int|
            0 <= i < entries.len() ==> s.upserted(c, entries).holds(
                c,
                (#[trigger] entries[i]).entry_id,
            ),
    decreases entries.len(),
{
    if entries.len() == 0 || s.rejects(c, entries[0]) {
    } else {
        let t = s.inserted(c, entries[0]);
        let rest = entries.drop_first();
        lemma_upserted_holds(t, c, rest);
        assert(s.upserted(c, entries) == t.upserted(c, rest));
        assert forall|d: int, ext: Seq<char>| s.holds(d, ext) implies #[trigger] s.upserted(
            c,
            entries,
        ).holds(d, ext) by {
            lemma_inserted_holds(s, c, entries[0], d, ext);
            assert(t.upserted(c, rest).holds(d, ext));
        }
        if s.upserts(c, entries) {
            assert forall|i: int| 0 <= i < entries.len() implies s.upserted(c, entries).holds(
                c,
                (#[trigger] entries[i]).entry_id,
            ) by {
                if i == 0 {
                    lemma_inserted_holds(s, c, entries[0], c, entries[0].entry_id);
                } else {
                    assert(entries[i] == rest[i - 1]);
                }
            }
        }
    }
}

/// Writing entries that the channel already holds changes nothing and
/// cannot fail.
pub proof fn lemma_upserted_known(s: Tables, c: int, entries: Seq<EntryView>)
    requires
        s.has_channel(c),
        forall|i: int| 0 <= i < entries.len() ==> s.holds(c, (#[trigger] entries[i]).entry_id),
    ensures
        s.upserts(c, entries),
        s.upserted(c, entries) == s,
    decreases entries.len(),
{
    if entries.len() > 0 {
        let rest = entries.drop_first();
        assert(s.holds(c, entries[0].entry_id));
        assert forall|i: int| 0 <= i < rest.len() implies s.holds(
            c,
            (#[trigger] rest[i]).entry_id,
        ) by {
            assert(rest[i] == entries[i + 1]);
        }
        lemma_upserted_known(s, c, rest);
    }
}

/// Recomputing a count changes no row, makes the count of its channel
/// exact and leaves every other count as it was; doing it again changes
/// nothing more.
pub proof fn lemma_recounted(s: Tables, c: int)
    requires
        s.wf(),
    ensures
        s.recounted(c).wf(),
        s.recounted(c).rows == s.rows,
        s.recounted(c).counted(c),
        forall|d: int| d != c && s.counted(d) ==> #[trigger] s.recounted(c).counted(d),
        s.recounted(c).recounted(c) == s.recounted(c),
        s.counted(c) ==> s.recounted(c) == s,
{
    let t = s.recounted(c);
    if s.has_channel(c) {
        assert(t.recounted(c).channels =~= t.channels);
        if s.counted(c) {
            assert(t.channels =~= s.channels);
        }
    }
}

/// Writing entries again that could not all be written changes nothing
/// more and fails again.
pub proof fn lemma_upserted_again(s: Tables, c: int, entries: Seq<EntryView>)
    requires
        s.wf(),
        !s.upserts(c, entries),
    ensures
        !s.upserted(c, entries).upserts(c, entries),
        s.upserted(c, entries).upserted(c, entries) == s.upserted(c, entries),
    decreases entries.len(),
{
    if !s.rejects(c, entries[0]) {
        let t = s.inserted(c, entries[0]);
        let rest = entries.drop_first();
        let once = t.upserted(c, rest);
        lemma_inserted_wf(s, c, entries[0]);
        lemma_upserted_again(t, c, rest);
        lemma_inserted_holds(s, c, entries[0], c, entries[0].entry_id);
        lemma_upserted_holds(t, c, rest);
        lemma_upserted_keeps(t, c, rest, c);
        assert(once.holds(c, entries[0].entry_id));
        assert(once.inserted(c, entries[0]) == once);
    }
}

/// Idempotent refresh: a refresh run again on the same document ends as
/// it did the first time and leaves the store exactly as the first run
/// left it: no row is added and no count moves.
pub proof fn lemma_refresh_idempotent(s: Tables, c: int, doc: Result<RawFeedView, SyncError>)
    requires
        s.wf(),
    ensures
        ({
            let (once, result) = s.refresh_outcome(c, doc);
            once.refresh_outcome(c, doc) == (once, result)
        }),
{
    let (once, result) = s.refresh_outcome(c, doc);
    if s.has_channel(c) && doc is Ok {
        let entries = doc->Ok_0.normalized().entries;
        let written = s.upserted(c, entries);
        lemma_upserted_keeps(s, c, entries, c);
        if s.upserts(c, entries) {
            lemma_upserted_holds(s, c, entries);
            lemma_recounted(written, c);
            assert forall|i: int| 0 <= i < entries.len() implies once.holds(
                c,
                (#[trigger] entries[i]).entry_id,
            ) by {
                let ext = entries[i].entry_id;
                assert(written.holds(c, ext));
                let k = choose|k: int|
                    0 <= k < written.rows.len() && (#[trigger] written.rows[k]).keyed(c, ext);
                assert(once.rows[k].keyed(c, ext));
            }
            lemma_upserted_known(once, c, entries);
        } else {
            lemma_upserted_again(s, c, entries);
        }
    }
}

/// A store without channels and entries is well formed and all its
/// counts are exact, and adding a channel keeps both: the new channel
/// has no entries and a count of 0.
pub proof fn lemma_channels_start_exact(s: Tables, link: Seq<char>)
    requires
        s.wf(),
    ensures
        Tables::empty().wf(),
        Tables::empty().consistent(),
        s.with_channel(link).wf(),
        s.consistent() ==> s.with_channel(link).consistent(),
{
    let t = s.with_channel(link);
    if s.takes_channel() && s.consistent() {
        let fresh = s.channels.len() as int + 1;
        assert forall|d: int| t.has_channel(d) implies #[trigger] t.counted(d) by {
            if d == fresh {
                assert forall|i: int| 0 <= i < s.rows.len() implies !unread_in(d)(
                    #[trigger] s.rows[i],
                ) by {
                    assert(s.has_channel(s.rows[i].channel_id));
                }
                s.rows.lemma_all_neg_filter_empty(unread_in(d));
            } else {
                assert(s.counted(d));
            }
        }
    }
}

/// Aggregate correctness under refresh: the store stays well formed; a
/// refresh that succeeds leaves the count of its channel exact, whatever
/// it was before; and unless the store failed in the middle of it, a
/// refresh of a store whose counts are all exact leaves them all exact.
pub proof fn lemma_refresh_counts(s: Tables, c: int, doc: Result<RawFeedView, SyncError>)
    requires
        s.wf(),
    ensures
        ({
            let (after, result) = s.refresh_outcome(c, doc);
            &&& after.wf()
            &&& result is Ok ==> after.counted(c)
            &&& s.consistent() && result != Err::<FeedView, SyncError>(SyncError::PersistFailure)
                ==> after.consistent()
        }),
{
    let (after, result) = s.refresh_outcome(c, doc);
    if s.has_channel(c) && doc is Ok {
        let entries = doc->Ok_0.normalized().entries;
        let written = s.upserted(c, entries);
        lemma_upserted_keeps(s, c, entries, c);
        lemma_recounted(written, c);
        if s.consistent() && result is Ok {
            assert forall|d: int| after.has_channel(d) implies #[trigger] after.counted(d) by {
                if d != c {
                    lemma_upserted_keeps(s, c, entries, d);
                    assert(s.counted(d));
                    assert(written.counted(d));
                }
            }
        }
    }
}

/// Aggregate correctness under toggle: the store stays well formed; a
/// toggle leaves the count of the entry's channel exact, whatever it was
/// before; and a toggle in a store whose counts are all exact leaves them
/// all exact.
pub proof fn lemma_toggle_counts(s: Tables, id: int)
    requires
        s.wf(),
    ensures
        ({
            let (after, result) = s.toggle_outcome(id);
            &&& after.wf()
            &&& s.owner(id) matches Some(c) ==> after.counted(c)
            &&& s.consistent() ==> after.consistent()
        }),
{
    let (after, result) = s.toggle_outcome(id);
    if let Some(c) = s.owner(id) {
        let flipped = s.flipped(id);
        assert(flipped.wf());
        lemma_recounted(flipped, c);
        if s.consistent() {
            assert forall|d: int| after.has_channel(d) implies #[trigger] after.counted(d) by {
                if d != c {
                    lemma_count_after_update(s.rows, id - 1, s.rows[id - 1].flipped(), unread_in(d));
                    assert(s.counted(d));
                    assert(flipped.counted(d));
                }
            }
        }
    }
}

/// A toggle moves the unread count of the entry's channel by exactly one:
/// down when an unread entry is marked read, up when a read one is marked
/// unread.
pub proof fn lemma_toggle_moves_count(s: Tables, id: int)
    requires
        s.wf(),
        s.has_entry(id),
    ensures
        ({
            let c = s.rows[id - 1].channel_id;
            let after = s.toggle_outcome(id).0;
            &&& after.rows[id - 1].read == !s.rows[id - 1].read
            &&& after.channels[c - 1].unread == s.unread(c) + (if s.rows[id - 1].read {
                1int
            } else {
                -1int
            })
        }),
{
    let c = s.rows[id - 1].channel_id;
    lemma_count_after_update(s.rows, id - 1, s.rows[id - 1].flipped(), unread_in(c));
}

/// Toggle is an involution: in a store whose count for the entry's
/// channel is exact, toggling an entry twice gives back the store as it
/// was, read flag and unread count included.
pub proof fn lemma_toggle_twice(s: Tables, id: int)
    requires
        s.wf(),
        s.has_entry(id),
        s.counted(s.rows[id - 1].channel_id),
    ensures
        s.toggle_outcome(id).0.toggle_outcome(id).0 == s,
{
    let c = s.rows[id - 1].channel_id;
    let once = s.toggle_outcome(id).0;
    let twice = once.toggle_outcome(id).0;
    assert(twice.rows =~= s.rows);
    assert(twice.channels =~= s.channels);
}

/// The deduplication key is per channel: two channels that do not hold an
/// external identifier each get their own entry for it.
pub proof fn lemma_key_is_per_channel(
    s: Tables,
    c: int,
    d: int,
    e: EntryView,
    f: EntryView,
)
    requires
        s.wf(),
        s.has_channel(c),
        s.has_channel(d),
        c != d,
        e.entry_id == f.entry_id,
        !s.holds(c, e.entry_id),
        !s.holds(d, e.entry_id),
        s.rows.len() + 2 <= i32::MAX,
    ensures
        ({
            let both = s.inserted(c, e).inserted(d, f);
            &&& both.rows.len() == s.rows.len() + 2
            &&& both.holds(c, e.entry_id)
            &&& both.holds(d, e.entry_id)
        }),
{
    let one = s.inserted(c, e);
    let both = one.inserted(d, f);
    if one.holds(d, f.entry_id) {
        let i = choose|i: int| 0 <= i < one.rows.len() && (#[trigger] one.rows[i]).keyed(d, f.entry_id);
        if i < s.rows.len() {
            assert(s.rows[i].keyed(d, f.entry_id));
        }
    }
    assert(both.rows[s.rows.len() as int].keyed(c, e.entry_id));
    assert(both.rows[s.rows.len() as int + 1].keyed(d, e.entry_id));
}

/// Within a channel an external identifier is stored once: inserting an
/// entry whose identifier was just inserted changes nothing.
pub proof fn lemma_insert_twice(s: Tables, c: int, e: EntryView, f: EntryView)
    requires
        e.entry_id == f.entry_id,
    ensures
        s.inserted(c, e).inserted(c, f) == s.inserted(c, e),
{
    lemma_inserted_holds(s, c, e, c, e.entry_id);
}

/// The rows that a store with `base` rows appends for `entries` written
/// to channel `c`: one unread row per entry, in the entries' order, under
/// the next identifiers.
pub open spec fn appended(base: nat, c: int, entries: Seq<EntryView>) -> Seq<RowView> {
    Seq::new(
        entries.len(),
        |i: int| RowView { id: base + i + 1, channel_id: c, entry: entries[i], read: false },
    )
}

/// A refresh stores what is new: entries that the channel does not hold
/// yet, with identifiers that differ from each other, are all inserted
/// while the identifiers last. Each becomes one unread row, in document
/// order behind the rows that were there, and the channel's unread count
/// becomes the number of its unread entries before plus the number of
/// entries written.
pub proof fn lemma_refresh_appends_new(s: Tables, c: int, entries: Seq<EntryView>)
    requires
        s.wf(),
        s.has_channel(c),
        forall|i: int| 0 <= i < entries.len() ==> !s.holds(c, (#[trigger] entries[i]).entry_id),
        forall|i: int, j: int|
            0 <= i < j < entries.len() ==> (#[trigger] entries[i]).entry_id != (
            #[trigger] entries[j]).entry_id,
        s.rows.len() + entries.len() <= i32::MAX,
    ensures
        s.upserts(c, entries),
        s.upserted(c, entries).rows == s.rows + appended(s.rows.len(), c, entries),
        s.upserted(c, entries).unread(c) == s.unread(c) + entries.len(),
        s.refreshed(c, entries).rows == s.rows + appended(s.rows.len(), c, entries),
        s.refreshed(c, entries).channels[c - 1].unread == s.unread(c) + entries.len(),
    decreases entries.len(),
{
    if entries.len() == 0 {
        assert(s.rows =~= s.rows + appended(s.rows.len(), c, entries));
    } else {
        let first = entries[0];
        let rest = entries.drop_first();
        let row = RowView { id: s.rows.len() as int + 1, channel_id: c, entry: first, read: false };
        let t = s.inserted(c, first);
        assert(t.rows == s.rows.push(row));
        lemma_inserted_wf(s, c, first);
        s.rows.lemma_filter_len_push(unread_in(c), row);
        assert forall|i: int| 0 <= i < rest.len() implies !t.holds(
            c,
            (#[trigger] rest[i]).entry_id,
        ) by {
            assert(rest[i] == entries[i + 1]);
            if t.holds(c, rest[i].entry_id) {
                let k = choose|k: int|
                    0 <= k < t.rows.len() && (#[trigger] t.rows[k]).keyed(c, rest[i].entry_id);
                if k < s.rows.len() {
                    assert(s.rows[k].keyed(c, rest[i].entry_id));
                }
            }
        }
        assert forall|i: int, j: int| 0 <= i < j < rest.len() implies (#[trigger] rest[i]).entry_id
            != (#[trigger] rest[j]).entry_id by {
            assert(rest[i] == entries[i + 1] && rest[j] == entries[j + 1]);
        }
        lemma_refresh_appends_new(t, c, rest);
        assert(t.rows + appended(t.rows.len(), c, rest) =~= s.rows + appended(
            s.rows.len(),
            c,
            entries,
        ));
    }
}

/// Two listings of the same rows agree in their first `k` places.
proof fn lemma_listings_agree(
    rows: Seq<RowView>,
    c: int,
    a: Seq<OutputEntryView>,
    b: Seq<OutputEntryView>,
    k: int,
)
    requires
        is_listing(rows, c, a),
        is_listing(rows, c, b),
        0 <= k <= a.len(),
        k <= b.len(),
    ensures
        forall|i: int| 0 <= i < k ==> a[i] == b[i],
    decreases k,
{
    if k > 0 {
        lemma_listings_agree(rows, c, a, b, k - 1);
        let x = a[k - 1];
        let y = b[k - 1];
        assert(shows(rows, c, x));
        assert(shows(rows, c, y));
        assert(b.contains(x));
        assert(a.contains(y));
        let j = choose|j: int| 0 <= j < b.len() && b[j] == x;
        let i = choose|i: int| 0 <= i < a.len() && a[i] == y;
        if j < k - 1 {
            assert(a[j].precedes(a[k - 1]));
        }
        if i < k - 1 {
            assert(b[i].precedes(b[k - 1]));
        }
        if j > k - 1 {
            assert(b[k - 1].precedes(b[j]));
        }
        if i > k - 1 {
            assert(a[k - 1].precedes(a[i]));
        }
    }
}

/// The listing of a channel is determined: two sequences that both show
/// exactly the channel's entries in the order of a listing are the same
/// sequence.
pub proof fn lemma_listing_unique(
    s: Tables,
    c: int,
    a: Seq<OutputEntryView>,
    b: Seq<OutputEntryView>,
)
    requires
        s.lists(c, a),
        s.lists(c, b),
    ensures
        a == b,
{
    let n = if a.len() <= b.len() {
        a.len() as int
    } else {
        b.len() as int
    };
    lemma_listings_agree(s.rows, c, a, b, n);
    if a.len() < b.len() {
        let y = b[n];
        assert(shows(s.rows, c, y));
        assert(a.contains(y));
        let i = choose|i: int| 0 <= i < a.len() && a[i] == y;
        assert(b[i].precedes(b[n]));
    }
    if b.len() < a.len() {
        let x = a[n];
        assert(shows(s.rows, c, x));
        assert(b.contains(x));
        let j = choose|j: int| 0 <= j < b.len() && b[j] == x;
        assert(a[j].precedes(a[n]));
    }
    assert(a =~= b);
}

} // verus!
