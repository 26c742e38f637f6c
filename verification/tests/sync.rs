use crawlina::error::SyncError;
use crawlina::model::{Entry, Feed, RawFeed, RawItem, Timestamp};
use crawlina::sync::{Action, Event, FetchOutcome, Refresh, Toggle, FETCH_TIMEOUT_SECS};

fn body() -> Vec<u8> {
    b"<feed>as it came over the wire</feed>".to_vec()
}

fn delivered() -> Event {
    Event::Fetched(FetchOutcome::Response { status: 200, body: body() })
}

fn fetching(channel_id: i32) -> Refresh {
    Refresh::start(channel_id).step(Event::ChannelFound { link: "http://example.org/feed".to_string() })
}

fn parsing(channel_id: i32) -> Refresh {
    fetching(channel_id).step(delivered())
}

fn raw_item(id: &str, published: i64) -> RawItem {
    RawItem {
        id: id.to_string(),
        title: Some(id.to_uppercase()),
        links: vec![format!("http://example.org/{id}")],
        published: Some(Timestamp { secs: published, nanos: 0 }),
        updated: Some(Timestamp { secs: published, nanos: 0 }),
    }
}

fn entry(id: &str, published: i64) -> Entry {
    Entry {
        entry_id: id.to_string(),
        title: id.to_uppercase(),
        link: format!("http://example.org/{id}"),
        published: Timestamp { secs: published, nanos: 0 },
        updated: Timestamp { secs: published, nanos: 0 },
    }
}

/// Two complete items with an incomplete one between them.
fn two_entries() -> Event {
    let mut skipped = raw_item("skipped", 1);
    skipped.title = None;
    Event::Parsed {
        document: Some(RawFeed {
            id: "urn:two".to_string(),
            title: Some("Two".to_string()),
            items: vec![raw_item("a", 1), skipped, raw_item("b", 2)],
        }),
    }
}

#[test]
fn refresh_starts_with_the_lookup() {
    let m = Refresh::start(7);
    assert_eq!(m.channel_id(), 7);
    assert_eq!(m.action(), Some(Action::LookupChannel { channel_id: 7 }));
    assert_eq!(m.into_result(), None);
}

#[test]
fn refresh_fetches_the_link_it_was_given() {
    let m = fetching(7);
    assert_eq!(
        m.action(),
        Some(Action::Fetch {
            link: "http://example.org/feed".to_string(),
            timeout_secs: FETCH_TIMEOUT_SECS
        })
    );
    assert_eq!(FETCH_TIMEOUT_SECS, 30);
}

#[test]
fn refresh_hands_the_fetched_document_to_the_parser() {
    let m = parsing(7);
    assert_eq!(m.action(), Some(Action::ParseDocument { body: body() }));
    assert_eq!(m.into_result(), None);
}

#[test]
fn refresh_walks_through_every_entry_then_recomputes_once() {
    let m = parsing(7).step(two_entries());
    assert_eq!(m.action(), Some(Action::InsertEntry { channel_id: 7, entry: entry("a", 1) }));
    let m = m.step(Event::Stored);
    assert_eq!(m.action(), Some(Action::InsertEntry { channel_id: 7, entry: entry("b", 2) }));
    let m = m.step(Event::Stored);
    assert_eq!(m.action(), Some(Action::RecomputeUnread { channel_id: 7 }));
    let m = m.step(Event::Stored);
    assert_eq!(m.action(), None);
    assert_eq!(
        m.into_result(),
        Some(Ok(Feed {
            id: "urn:two".to_string(),
            title: Some("Two".to_string()),
            entries: vec![entry("a", 1), entry("b", 2)],
        }))
    );
}

#[test]
fn missing_channel_ends_the_refresh() {
    let m = Refresh::start(7).step(Event::ChannelMissing);
    assert_eq!(m.action(), None);
    assert_eq!(m.into_result(), Some(Err(SyncError::ChannelNotFound)));
}

#[test]
fn failed_lookup_is_a_persist_failure() {
    let m = Refresh::start(7).step(Event::StoreFailed);
    assert_eq!(m.into_result(), Some(Err(SyncError::PersistFailure)));
}

#[test]
fn unreachable_source_is_a_fetch_failure() {
    let m = fetching(7).step(Event::Fetched(FetchOutcome::Unreachable));
    assert_eq!(m.action(), None);
    assert_eq!(m.into_result(), Some(Err(SyncError::FetchFailure)));
}

#[test]
fn status_other_than_success_is_a_fetch_failure() {
    for status in [0, 100, 199, 300, 301, 404, 500, u16::MAX] {
        let m = fetching(7).step(Event::Fetched(FetchOutcome::Response { status, body: body() }));
        assert_eq!(m.into_result(), Some(Err(SyncError::FetchFailure)), "status {status}");
    }
}

#[test]
fn every_status_of_success_delivers() {
    for status in [200, 201, 204, 299] {
        let m = fetching(7).step(Event::Fetched(FetchOutcome::Response { status, body: body() }));
        assert_eq!(m.action(), Some(Action::ParseDocument { body: body() }), "status {status}");
    }
}

#[test]
fn into_body_gives_the_document_on_success_only() {
    let body = vec![1u8, 2, 3];
    assert_eq!(FetchOutcome::Response { status: 200, body: body.clone() }.into_body(), Ok(body.clone()));
    assert_eq!(FetchOutcome::Response { status: 299, body: body.clone() }.into_body(), Ok(body.clone()));
    assert_eq!(
        FetchOutcome::Response { status: 300, body: body.clone() }.into_body(),
        Err(SyncError::FetchFailure)
    );
    assert_eq!(
        FetchOutcome::Response { status: 199, body }.into_body(),
        Err(SyncError::FetchFailure)
    );
    assert_eq!(FetchOutcome::Unreachable.into_body(), Err(SyncError::FetchFailure));
}

#[test]
fn document_that_does_not_parse_is_a_parse_failure() {
    let m = parsing(7).step(Event::Parsed { document: None });
    assert_eq!(m.action(), None);
    assert_eq!(m.into_result(), Some(Err(SyncError::ParseFailure)));
}

#[test]
fn document_without_usable_entries_goes_straight_to_the_recount() {
    let mut bare = raw_item("x", 1);
    bare.links.clear();
    bare.published = None;
    let document = RawFeed { id: "f".to_string(), title: Some("T".to_string()), items: vec![bare] };
    let m = parsing(3).step(Event::Parsed { document: Some(document) });
    assert_eq!(m.action(), Some(Action::RecomputeUnread { channel_id: 3 }));
    let m = m.step(Event::Stored);
    assert_eq!(
        m.into_result(),
        Some(Ok(Feed { id: "f".to_string(), title: Some("T".to_string()), entries: vec![] }))
    );
}

#[test]
fn document_without_items_goes_straight_to_the_recount() {
    let document = RawFeed { id: "f".to_string(), title: None, items: vec![] };
    let m = parsing(3).step(Event::Parsed { document: Some(document) });
    assert_eq!(m.action(), Some(Action::RecomputeUnread { channel_id: 3 }));
}

#[test]
fn failed_insert_ends_the_refresh_at_once() {
    let m = parsing(7).step(two_entries()).step(Event::Stored);
    let m = m.step(Event::StoreFailed);
    assert_eq!(m.action(), None);
    assert_eq!(m.into_result(), Some(Err(SyncError::PersistFailure)));
}

#[test]
fn failed_first_insert_ends_the_refresh_at_once() {
    let m = parsing(7).step(two_entries()).step(Event::StoreFailed);
    assert_eq!(m.action(), None);
    assert_eq!(m.into_result(), Some(Err(SyncError::PersistFailure)));
}

#[test]
fn failed_recount_is_reported() {
    let m = parsing(7).step(two_entries()).step(Event::Stored).step(Event::Stored);
    assert_eq!(m.action(), Some(Action::RecomputeUnread { channel_id: 7 }));
    let m = m.step(Event::StoreFailed);
    assert_eq!(m.into_result(), Some(Err(SyncError::PersistFailure)));
}

#[test]
fn events_out_of_turn_change_nothing() {
    let m = Refresh::start(7).step(Event::Stored).step(delivered()).step(two_entries());
    assert_eq!(m.step(Event::EntryMissing).action(), Some(Action::LookupChannel { channel_id: 7 }));
    let m = fetching(7).step(Event::Stored).step(two_entries()).step(Event::StoreFailed);
    assert!(matches!(m.step(Event::ChannelMissing).action(), Some(Action::Fetch { .. })));
    let m = parsing(7).step(Event::Stored).step(Event::StoreFailed).step(Event::ChannelMissing);
    let again = Event::Fetched(FetchOutcome::Response { status: 200, body: vec![9] });
    assert_eq!(m.step(again).action(), Some(Action::ParseDocument { body: body() }));
    let m = parsing(7).step(two_entries());
    let m = m.step(Event::ChannelMissing).step(Event::Flipped { channel_id: 7 }).step(delivered());
    let m = m.step(Event::Parsed { document: None });
    assert_eq!(m.action(), Some(Action::InsertEntry { channel_id: 7, entry: entry("a", 1) }));
}

#[test]
fn finished_refresh_stays_finished() {
    let m = Refresh::start(7).step(Event::ChannelMissing);
    let m = m.step(Event::ChannelFound { link: "x".to_string() }).step(Event::Stored);
    let m = m.step(delivered()).step(two_entries());
    assert_eq!(m.into_result(), Some(Err(SyncError::ChannelNotFound)));
}

#[test]
fn only_writes_name_a_channel_to_hold() {
    assert_eq!(Action::LookupChannel { channel_id: 4 }.written_channel(), None);
    let fetch = Action::Fetch { link: "http://example.org".to_string(), timeout_secs: 1 };
    assert_eq!(fetch.written_channel(), None);
    assert_eq!(Action::ParseDocument { body: body() }.written_channel(), None);
    assert_eq!(Action::FlipRead { entry_id: 4 }.written_channel(), None);
    let insert = Action::InsertEntry { channel_id: 4, entry: entry("a", 1) };
    assert_eq!(insert.written_channel(), Some(4));
    assert_eq!(Action::RecomputeUnread { channel_id: 5 }.written_channel(), Some(5));
}

#[test]
fn toggle_flips_then_recomputes_the_owner() {
    let t = Toggle::start(5);
    assert_eq!(t, Toggle::Flipping { entry_id: 5 });
    assert_eq!(t.action(), Some(Action::FlipRead { entry_id: 5 }));
    assert_eq!(t.into_result(), None);
    let t = t.step(Event::Flipped { channel_id: 9 });
    assert_eq!(t, Toggle::Recomputing { channel_id: 9 });
    assert_eq!(t.action(), Some(Action::RecomputeUnread { channel_id: 9 }));
    let t = t.step(Event::Stored);
    assert_eq!(t.action(), None);
    assert_eq!(t.into_result(), Some(Ok(())));
}

#[test]
fn toggle_of_a_missing_entry_fails() {
    let t = Toggle::start(5).step(Event::EntryMissing);
    assert_eq!(t.action(), None);
    assert_eq!(t.into_result(), Some(Err(SyncError::EntryNotFound)));
}

#[test]
fn toggle_reports_store_failures() {
    let t = Toggle::start(5).step(Event::StoreFailed);
    assert_eq!(t.into_result(), Some(Err(SyncError::PersistFailure)));
    let t = Toggle::start(5).step(Event::Flipped { channel_id: 1 }).step(Event::StoreFailed);
    assert_eq!(t.into_result(), Some(Err(SyncError::PersistFailure)));
}

#[test]
fn toggle_ignores_events_out_of_turn() {
    let t = Toggle::start(5).step(Event::Stored).step(Event::ChannelMissing);
    assert_eq!(t.step(Event::Parsed { document: None }), Toggle::Flipping { entry_id: 5 });
    let t = Toggle::Recomputing { channel_id: 1 }
        .step(Event::Flipped { channel_id: 2 })
        .step(Event::EntryMissing);
    assert_eq!(t, Toggle::Recomputing { channel_id: 1 });
    let t = Toggle::Finished { result: Ok(()) }.step(Event::StoreFailed);
    assert_eq!(t, Toggle::Finished { result: Ok(()) });
}

#[test]
fn errors_are_classified() {
    assert!(SyncError::ChannelNotFound.is_not_found());
    assert!(SyncError::EntryNotFound.is_not_found());
    assert!(!SyncError::FetchFailure.is_not_found());
    assert!(!SyncError::ParseFailure.is_not_found());
    assert!(!SyncError::PersistFailure.is_not_found());
    assert!(SyncError::FetchFailure.is_retryable());
    assert!(!SyncError::ParseFailure.is_retryable());
    assert!(!SyncError::PersistFailure.is_retryable());
    assert!(!SyncError::ChannelNotFound.is_retryable());
    assert!(!SyncError::EntryNotFound.is_retryable());
}

#[test]
fn errors_have_messages() {
    assert_eq!(SyncError::ChannelNotFound.message(), "Channel does not exist");
    assert_eq!(SyncError::EntryNotFound.message(), "Entry does not exist");
    assert_eq!(SyncError::FetchFailure.message(), "Failed to get feed");
    assert_eq!(SyncError::ParseFailure.message(), "Failed to parse feed");
    assert_eq!(SyncError::PersistFailure.message(), "Database error");
}
