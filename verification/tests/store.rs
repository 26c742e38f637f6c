use crawlina::model::{Entry, Timestamp};
use crawlina::store::{Channel, OutputEntry, Store};

fn entry(ext: &str, published: i64) -> Entry {
    Entry {
        entry_id: ext.to_string(),
        title: format!("title of {ext}"),
        link: format!("http://example.org/{ext}"),
        published: Timestamp { secs: published, nanos: 0 },
        updated: Timestamp { secs: published + 1, nanos: 0 },
    }
}

fn store_with_channels(n: usize) -> Store {
    let mut store = Store::new();
    for i in 0..n {
        assert_eq!(store.add_channel(format!("http://example.org/feed{i}")), Some(i as i32 + 1));
    }
    store
}

fn unread(store: &Store, channel_id: i32) -> i64 {
    store.channel(channel_id).unwrap().unread
}

#[test]
fn new_store_is_empty() {
    let store = Store::new();
    assert!(store.channels().is_empty());
    assert_eq!(store.channel(1), None);
    assert!(store.entries_of(1).is_empty());
}

#[test]
fn channels_are_numbered_from_one() {
    let store = store_with_channels(3);
    assert_eq!(
        store.channels(),
        vec![
            Channel { id: 1, link: "http://example.org/feed0".to_string(), unread: 0 },
            Channel { id: 2, link: "http://example.org/feed1".to_string(), unread: 0 },
            Channel { id: 3, link: "http://example.org/feed2".to_string(), unread: 0 },
        ]
    );
    assert_eq!(store.channel(2).unwrap().link, "http://example.org/feed1");
    assert_eq!(store.channel(0), None);
    assert_eq!(store.channel(4), None);
    assert_eq!(store.channel(-1), None);
}

#[test]
fn insert_appends_an_unread_entry() {
    let mut store = store_with_channels(1);
    assert!(store.insert_entry(1, entry("a", 100)));
    assert_eq!(
        store.entries_of(1),
        vec![OutputEntry {
            id: 1,
            title: "title of a".to_string(),
            link: "http://example.org/a".to_string(),
            published: Timestamp { secs: 100, nanos: 0 },
            updated: Timestamp { secs: 101, nanos: 0 },
            read: false,
        }]
    );
}

#[test]
fn insert_does_not_touch_the_count() {
    let mut store = store_with_channels(1);
    assert!(store.insert_entry(1, entry("a", 100)));
    assert_eq!(unread(&store, 1), 0);
    store.recount(1);
    assert_eq!(unread(&store, 1), 1);
}

#[test]
fn insert_of_a_known_identifier_changes_nothing() {
    let mut store = store_with_channels(1);
    assert!(store.insert_entry(1, entry("a", 100)));
    let mut changed = entry("a", 999);
    changed.title = "edited upstream".to_string();
    assert!(store.insert_entry(1, changed));
    let listed = store.entries_of(1);
    assert_eq!(listed.len(), 1);
    assert_eq!(listed[0].title, "title of a");
    assert_eq!(listed[0].published, Timestamp { secs: 100, nanos: 0 });
}

#[test]
fn insert_into_a_missing_channel_fails() {
    let mut store = store_with_channels(1);
    assert!(!store.insert_entry(2, entry("a", 100)));
    assert!(!store.insert_entry(0, entry("a", 100)));
    assert!(store.entries_of(2).is_empty());
    assert!(store.entries_of(1).is_empty());
}

#[test]
fn same_identifier_in_two_channels_gives_two_entries() {
    let mut store = store_with_channels(2);
    assert!(store.insert_entry(1, entry("a", 100)));
    assert!(store.insert_entry(2, entry("a", 100)));
    assert!(store.insert_entry(1, entry("a", 100)));
    assert_eq!(store.entries_of(1).len(), 1);
    assert_eq!(store.entries_of(2).len(), 1);
    assert_eq!(store.entries_of(1)[0].id, 1);
    assert_eq!(store.entries_of(2)[0].id, 2);
}

#[test]
fn recount_counts_unread_entries_of_one_channel() {
    let mut store = store_with_channels(2);
    for ext in ["a", "b", "c"] {
        assert!(store.insert_entry(1, entry(ext, 1)));
    }
    assert!(store.insert_entry(2, entry("z", 1)));
    assert_eq!(store.flip(2), Some(1));
    store.recount(1);
    assert_eq!(unread(&store, 1), 2);
    assert_eq!(unread(&store, 2), 0);
    store.recount(2);
    assert_eq!(unread(&store, 2), 1);
    store.recount(7);
    assert_eq!(unread(&store, 1), 2);
}

#[test]
fn recount_heals_a_stale_count() {
    let mut store = store_with_channels(1);
    assert!(store.insert_entry(1, entry("a", 1)));
    assert!(store.insert_entry(1, entry("b", 1)));
    store.recount(1);
    store.flip(1);
    store.flip(2);
    assert_eq!(unread(&store, 1), 2);
    store.recount(1);
    assert_eq!(unread(&store, 1), 0);
    store.recount(1);
    assert_eq!(unread(&store, 1), 0);
}

#[test]
fn flip_returns_the_owner_and_flips() {
    let mut store = store_with_channels(2);
    assert!(store.insert_entry(2, entry("a", 1)));
    assert_eq!(store.flip(1), Some(2));
    assert!(store.entries_of(2)[0].read);
    assert_eq!(store.flip(1), Some(2));
    assert!(!store.entries_of(2)[0].read);
}

#[test]
fn flip_of_a_missing_entry_changes_nothing() {
    let mut store = store_with_channels(1);
    assert!(store.insert_entry(1, entry("a", 1)));
    assert_eq!(store.flip(0), None);
    assert_eq!(store.flip(2), None);
    assert_eq!(store.flip(-3), None);
    assert!(!store.entries_of(1)[0].read);
}

#[test]
fn listing_is_newest_published_first() {
    let mut store = store_with_channels(2);
    assert!(store.insert_entry(1, entry("old", 100)));
    assert!(store.insert_entry(1, entry("new", 300)));
    assert!(store.insert_entry(2, entry("other", 400)));
    assert!(store.insert_entry(1, entry("mid", 200)));
    let titles: Vec<String> = store.entries_of(1).into_iter().map(|e| e.title).collect();
    assert_eq!(titles, vec!["title of new", "title of mid", "title of old"]);
    let ids: Vec<i32> = store.entries_of(1).iter().map(|e| e.id).collect();
    assert_eq!(ids, vec![2, 4, 1]);
}

#[test]
fn listing_breaks_ties_by_identifier() {
    let mut store = store_with_channels(1);
    assert!(store.insert_entry(1, entry("x", 50)));
    assert!(store.insert_entry(1, entry("y", 50)));
    assert!(store.insert_entry(1, entry("z", 50)));
    let ids: Vec<i32> = store.entries_of(1).iter().map(|e| e.id).collect();
    assert_eq!(ids, vec![1, 2, 3]);
}

#[test]
fn listing_tells_nanoseconds_apart() {
    let mut store = store_with_channels(1);
    let mut early = entry("early", 50);
    early.published = Timestamp { secs: 50, nanos: 1 };
    let mut late = entry("late", 50);
    late.published = Timestamp { secs: 50, nanos: 2 };
    assert!(store.insert_entry(1, early));
    assert!(store.insert_entry(1, late));
    let ids: Vec<i32> = store.entries_of(1).iter().map(|e| e.id).collect();
    assert_eq!(ids, vec![2, 1]);
}

#[test]
fn comes_before_is_the_listing_order() {
    let mut store = store_with_channels(1);
    assert!(store.insert_entry(1, entry("a", 10)));
    assert!(store.insert_entry(1, entry("b", 20)));
    assert!(store.insert_entry(1, entry("c", 20)));
    let listed = store.entries_of(1);
    assert!(listed[0].comes_before(&listed[1]));
    assert!(listed[1].comes_before(&listed[2]));
    assert!(!listed[2].comes_before(&listed[0]));
    assert!(!listed[0].comes_before(&listed[0]));
}
