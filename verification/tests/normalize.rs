use crawlina::model::{Entry, Feed, RawFeed, RawItem, Timestamp};
use crawlina::normalize::Rejection;

fn stamp(secs: i64) -> Timestamp {
    Timestamp { secs, nanos: 0 }
}

fn item(id: &str) -> RawItem {
    RawItem {
        id: id.to_string(),
        title: Some(format!("title of {id}")),
        links: vec![format!("http://example.org/{id}")],
        published: Some(stamp(10)),
        updated: Some(stamp(20)),
    }
}

fn none_missing() -> Rejection {
    Rejection { id: false, title: false, link: false, published: false, updated: false }
}

#[test]
fn complete_item_becomes_entry() {
    let item = RawItem {
        id: "a".to_string(),
        title: Some("T1".to_string()),
        links: vec!["L1".to_string()],
        published: Some(stamp(10)),
        updated: Some(stamp(20)),
    };
    let entry = Entry::try_from(item).unwrap();
    assert_eq!(
        entry,
        Entry {
            entry_id: "a".to_string(),
            title: "T1".to_string(),
            link: "L1".to_string(),
            published: stamp(10),
            updated: stamp(20),
        }
    );
}

#[test]
fn first_link_is_used() {
    let mut raw = item("a");
    raw.links = vec!["first".to_string(), "second".to_string(), "third".to_string()];
    assert_eq!(Entry::try_from(raw).unwrap().link, "first");
}

#[test]
fn missing_title_is_rejected() {
    let mut raw = item("a");
    raw.title = None;
    assert_eq!(raw.missing(), Rejection { title: true, ..none_missing() });
    assert_eq!(Entry::try_from(raw), Err(Rejection { title: true, ..none_missing() }));
}

#[test]
fn missing_link_is_rejected() {
    let mut raw = item("a");
    raw.links = vec![];
    assert_eq!(Entry::try_from(raw), Err(Rejection { link: true, ..none_missing() }));
}

#[test]
fn missing_published_is_rejected() {
    let mut raw = item("a");
    raw.published = None;
    assert_eq!(Entry::try_from(raw), Err(Rejection { published: true, ..none_missing() }));
}

#[test]
fn missing_updated_is_rejected() {
    let mut raw = item("a");
    raw.updated = None;
    assert_eq!(Entry::try_from(raw), Err(Rejection { updated: true, ..none_missing() }));
}

#[test]
fn empty_identifier_is_rejected() {
    let mut raw = item("a");
    raw.id = String::new();
    assert_eq!(Entry::try_from(raw), Err(Rejection { id: true, ..none_missing() }));
}

#[test]
fn every_missing_part_is_listed() {
    let raw = RawItem {
        id: String::new(),
        title: None,
        links: vec![],
        published: None,
        updated: None,
    };
    let all = Rejection { id: true, title: true, link: true, published: true, updated: true };
    assert_eq!(raw.missing(), all);
    assert_eq!(Entry::try_from(raw), Err(all));
}

#[test]
fn try_into_goes_the_same_way() {
    let entry: Entry = item("a").try_into().unwrap();
    assert_eq!(entry.entry_id, "a");
    let mut raw = item("b");
    raw.title = None;
    let turned_down: Result<Entry, Rejection> = raw.try_into();
    assert!(turned_down.is_err());
}

#[test]
fn rejection_knows_when_nothing_is_missing() {
    assert!(none_missing().is_empty());
    assert!(item("a").missing().is_empty());
    assert!(!Rejection { link: true, ..none_missing() }.is_empty());
}

#[test]
fn reason_names_the_missing_parts() {
    assert_eq!(none_missing().reason(), "Missing required fields:");
    assert_eq!(
        Rejection { title: true, ..none_missing() }.reason(),
        "Missing required fields: title"
    );
    assert_eq!(
        Rejection { id: true, updated: true, ..none_missing() }.reason(),
        "Missing required fields: id updated"
    );
    assert_eq!(
        Rejection { id: true, title: true, link: true, published: true, updated: true }.reason(),
        "Missing required fields: id title link published updated"
    );
}

#[test]
fn document_keeps_complete_items_in_order() {
    let mut no_title = item("b");
    no_title.title = None;
    let mut no_link = item("d");
    no_link.links = vec![];
    let raw = RawFeed {
        id: "feed".to_string(),
        title: Some("Feed".to_string()),
        items: vec![item("a"), no_title, item("c"), no_link, item("e")],
    };
    let feed = Feed::from(raw);
    assert_eq!(feed.id, "feed");
    assert_eq!(feed.title, Some("Feed".to_string()));
    let ids: Vec<&str> = feed.entries.iter().map(|e| e.entry_id.as_str()).collect();
    assert_eq!(ids, vec!["a", "c", "e"]);
    assert_eq!(feed.entries[1], Entry::try_from(item("c")).unwrap());
}

#[test]
fn document_of_incomplete_items_is_empty_but_a_document() {
    let mut x = item("x");
    x.published = None;
    let mut y = item("y");
    y.updated = None;
    let feed: Feed = RawFeed { id: "f".to_string(), title: None, items: vec![x, y] }.into();
    assert_eq!(feed, Feed { id: "f".to_string(), title: None, entries: vec![] });
}

#[test]
fn document_without_items() {
    let feed = Feed::from(RawFeed { id: "f".to_string(), title: None, items: vec![] });
    assert!(feed.entries.is_empty());
}

#[test]
fn timestamps_are_ordered_by_seconds_then_nanoseconds() {
    let a = Timestamp { secs: 5, nanos: 999_999_999 };
    let b = Timestamp { secs: 6, nanos: 0 };
    let c = Timestamp { secs: 6, nanos: 1 };
    let d = Timestamp { secs: -1, nanos: 0 };
    assert!(a.is_before(&b));
    assert!(b.is_before(&c));
    assert!(d.is_before(&a));
    assert!(!b.is_before(&a));
    assert!(!c.is_before(&c));
}

#[test]
fn duplicate_copies_every_field() {
    let entry = Entry::try_from(item("a")).unwrap();
    assert_eq!(entry.duplicate(), entry);
}
