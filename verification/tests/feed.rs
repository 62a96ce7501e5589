use plam_event::calendar::parse_lines;
use plam_event::event_map::EventMap;
use plam_event::event::Event;
use plam_event::feed::{
    assemble, assemble_at, entry_for, published, to_rss, year_label, FeedEntry, PublishedFrom,
    FEED_TITLE, FEED_URL,
};
use plam_event::timestamp::{Timestamp, TimestampError};

fn event(uid: &str, start: &str, created: &str, state: &str) -> Event {
    let mut ev = Event::default();
    ev.uid = uid.to_string();
    ev.url = format!("https://example.org/events/{}", uid);
    ev.summary = format!("Meet {}", uid);
    ev.dtstart = start.to_string();
    ev.created = created.to_string();
    ev.location = format!("1 Oak Ave\\, \\, \\, Reno\\, {}\\, 89501\\, USA", state);
    ev
}

fn three_events() -> EventMap {
    let mut map = EventMap::new();
    map.insert(event("a", "20240615T140000Z", "20240305T090000Z", "NV"));
    map.insert(event("b", "20230101T000000Z", "20240615T140000Z", "CA"));
    map.insert(event("c", "20250101T000000Z", "20231231T235959Z", "zz"));
    map
}

fn by_id(entries: &[FeedEntry], id: &str) -> FeedEntry {
    entries.iter().find(|e| e.id == id).expect("entry").clone()
}

const NOW: Timestamp = Timestamp { secs: 1_700_000_000, nanos: 5 };

#[test]
fn entry_carries_the_values_of_its_event() {
    let ev = event("a", "20240615T140000Z", "20240305T090000Z", "NV");
    let e = entry_for(&ev, PublishedFrom::Created, 0).unwrap();
    assert_eq!(e.id, "https://example.org/events/a");
    assert_eq!(e.link, "https://example.org/events/a");
    assert_eq!(e.link_rel, "alternate");
    assert_eq!(e.title, "2024-6-15 (NV) Meet a");
    assert_eq!(e.published, Timestamp { secs: 1709629200, nanos: 0 });
    assert_eq!(e.updated, e.published);
    assert_eq!(e.content, ev.content().unwrap());
    assert_eq!(e.content_lang, "en-us");
    assert_eq!(e.content_type, "html");
    assert_eq!(e.content_base, "https://example.org/events/a");
    assert_eq!(e.categories, vec!["NV".to_string(), "year-2024".to_string()]);
    let e = entry_for(&ev, PublishedFrom::Start, 0).unwrap();
    assert_eq!(e.published, Timestamp { secs: 1718460000, nanos: 0 });
    assert_eq!(e.updated, e.published);
}

#[test]
fn entry_of_a_failed_address_has_the_unknown_state() {
    let ev = event("c", "20250101T000000Z", "20231231T235959Z", "zz");
    let e = entry_for(&ev, PublishedFrom::Created, 0).unwrap();
    assert_eq!(e.categories, vec!["UN".to_string(), "year-2025".to_string()]);
    assert_eq!(e.title, "2025-1-1 (UN) Meet c");
    let e = entry_for(&ev, PublishedFrom::Created, -1).unwrap();
    assert_eq!(e.title, "2024-12-31 (UN) Meet c");
    assert_eq!(e.categories, vec!["UN".to_string(), "year-2025".to_string()]);
}

#[test]
fn feed_is_updated_at_the_latest_publication() {
    let map = three_events();
    let doc = assemble_at(&map, PublishedFrom::Created, 0, NOW).unwrap();
    assert_eq!(doc.title, FEED_TITLE);
    assert_eq!(doc.title, "Power Lifting America Events");
    assert_eq!(doc.link, FEED_URL);
    assert_eq!(doc.link_rel, "self");
    assert_eq!(doc.id, "http://gh.freemasen.com/plam-event/atom.xml");
    assert_eq!(doc.entries.len(), 3);
    assert_eq!(doc.updated, Timestamp { secs: 1718460000, nanos: 0 });
    assert!(doc.entries.iter().all(|e| !doc.updated.is_before(&e.published)));
    assert!(doc.entries.iter().any(|e| e.published == doc.updated));
    let doc = assemble_at(&map, PublishedFrom::Start, 0, NOW).unwrap();
    assert_eq!(doc.updated, Event::dt_from_str("20250101T000000Z").unwrap());
}

#[test]
fn feed_of_old_events_is_not_updated_now() {
    let mut map = EventMap::new();
    map.insert(event("old", "19600101T000000Z", "19650101T000000Z", "NV"));
    map.insert(event("older", "19600101T000000Z", "19610101T000000Z", "NV"));
    let doc = assemble_at(&map, PublishedFrom::Created, 0, NOW).unwrap();
    assert_eq!(doc.updated, Event::dt_from_str("19650101T000000Z").unwrap());
    let mut map = EventMap::new();
    map.insert(event("epoch", "19700101T000000Z", "19700101T000000Z", "NV"));
    let doc = assemble_at(&map, PublishedFrom::Created, 0, NOW).unwrap();
    assert_eq!(doc.updated, Timestamp { secs: 0, nanos: 0 });
}

#[test]
fn empty_feed_is_updated_now() {
    let map = EventMap::new();
    let doc = assemble_at(&map, PublishedFrom::Created, 0, NOW).unwrap();
    assert_eq!(doc.updated, NOW);
    assert!(doc.entries.is_empty());
    let before = chrono::Utc::now().timestamp();
    let doc = to_rss(&map).unwrap();
    let after = chrono::Utc::now().timestamp();
    assert!(before - 5 <= doc.updated.secs && doc.updated.secs <= after + 5);
    assert!(doc.entries.is_empty());
    let doc = assemble(&map, PublishedFrom::Start).unwrap();
    assert!(before - 5 <= doc.updated.secs && doc.updated.secs <= after + 5);
}

#[test]
fn assembling_twice_gives_the_same_entries() {
    let map = three_events();
    let one = assemble_at(&map, PublishedFrom::Created, 3600, NOW).unwrap();
    let two = assemble_at(&map, PublishedFrom::Created, 3600, Timestamp { secs: 1, nanos: 1 }).unwrap();
    assert_eq!(one.entries, two.entries);
    assert_eq!(one, two);
    let one = to_rss(&map).unwrap();
    let two = to_rss(&map).unwrap();
    assert_eq!(one.entries, two.entries);
}

#[test]
fn order_of_insertion_does_not_change_the_entries() {
    let forward = three_events();
    let mut backward = EventMap::new();
    backward.insert(event("c", "20250101T000000Z", "20231231T235959Z", "zz"));
    backward.insert(event("a", "20200101T000000Z", "20200101T000000Z", "TX"));
    backward.insert(event("b", "20230101T000000Z", "20240615T140000Z", "CA"));
    backward.insert(event("a", "20240615T140000Z", "20240305T090000Z", "NV"));
    let one = assemble_at(&forward, PublishedFrom::Created, 0, NOW).unwrap();
    let two = assemble_at(&backward, PublishedFrom::Created, 0, NOW).unwrap();
    assert_eq!(one.entries.len(), two.entries.len());
    for e in &one.entries {
        assert_eq!(by_id(&two.entries, &e.id), *e);
    }
    assert_eq!(one.updated, two.updated);
}

#[test]
fn one_bad_timestamp_fails_the_feed() {
    let mut map = three_events();
    map.insert(event("d", "20240615T140000Z", "garbage", "NV"));
    assert_eq!(assemble_at(&map, PublishedFrom::Created, 0, NOW), Err(TimestampError::TooShort));
    assert_eq!(to_rss(&map), Err(TimestampError::TooShort));
    assert!(assemble_at(&map, PublishedFrom::Start, 0, NOW).is_ok());
    map.insert(event("e", "20241301T000000Z", "20240305T090000Z", "NV"));
    assert_eq!(assemble_at(&map, PublishedFrom::Start, 0, NOW), Err(TimestampError::Invalid));
    assert_eq!(assemble_at(&map, PublishedFrom::Created, 0, NOW), Err(TimestampError::TooShort));
}

#[test]
fn publication_follows_the_policy() {
    let ev = event("a", "20240615T140000Z", "2024030xT090000Z", "NV");
    assert_eq!(published(&ev, PublishedFrom::Created), Err(TimestampError::NotDigits));
    assert_eq!(published(&ev, PublishedFrom::Start), Ok(Timestamp { secs: 1718460000, nanos: 0 }));
    assert_eq!(year_label(&ev).unwrap(), "year-2024");
    assert_eq!(entry_for(&ev, PublishedFrom::Created, 0), Err(TimestampError::NotDigits));
}

#[test]
fn calendar_text_becomes_a_feed() {
    let text = "BEGIN:VCALENDAR\nVERSION:2.0\nBEGIN:VEVENT\nDTSTART:20240615T140000Z\nDTEND;VALUE=DATE:20240616\nDTSTAMP:20200101T000000Z\nCREATED:20240305T090000Z\nUID:1-1@example.org\nSUMMARY:Spring\u{a0}Open\nLOCATION:123 Main St\\, \\, \\, Anytown\\, CA\\, 12345\\, USA\nURL:https://example.org/e/1\nEND:VEVENT\nEND:VCALENDAR\n";
    let lines: Vec<String> = text.lines().map(String::from).collect();
    let map = parse_lines(&lines);
    assert_eq!(map.len(), 1);
    let ev = map.get("1-1@example.org").unwrap();
    assert_eq!(ev.begin.as_deref(), Some("VEVENT"));
    assert_eq!(ev.version.as_deref(), Some("2.0"));
    assert_eq!(ev.dtend, "20240616");
    let doc = assemble_at(&map, PublishedFrom::Created, 0, NOW).unwrap();
    assert_eq!(doc.entries.len(), 1);
    assert_eq!(doc.entries[0].title, "2024-6-15 (CA) Spring Open");
    assert_eq!(doc.entries[0].id, "https://example.org/e/1");
    assert_eq!(doc.entries[0].categories, vec!["CA".to_string(), "year-2024".to_string()]);
    assert_eq!(doc.updated.secs, 1709629200);
}

#[test]
fn start_without_a_time_of_day_fails_the_feed() {
    let text = "DTSTART;VALUE=DATE:20240615\nDTSTAMP:20240615T140000Z\nCREATED:20240305T090000Z\nUID:1\nEND:VEVENT\n";
    let lines: Vec<String> = text.lines().map(String::from).collect();
    let map = parse_lines(&lines);
    assert_eq!(map.get("1").unwrap().dtstart, "20240615");
    assert_eq!(assemble_at(&map, PublishedFrom::Created, 0, NOW), Err(TimestampError::TooShort));
    assert_eq!(assemble_at(&map, PublishedFrom::Start, 0, NOW), Err(TimestampError::TooShort));
    assert_eq!(to_rss(&map), Err(TimestampError::TooShort));
}

#[test]
fn feed_of_two_records_has_the_later_instant() {
    let mut a = Event::default();
    a.uid = "a".to_string();
    a.created = "20240101T000000Z".to_string();
    a.dtstamp = "20240101T000000Z".to_string();
    a.dtstart = "20240101T000000Z".to_string();
    let mut b = Event::default();
    b.uid = "b".to_string();
    b.created = "20240615T140000Z".to_string();
    b.dtstamp = "20240615T140000Z".to_string();
    b.dtstart = "20240615T140000Z".to_string();
    let later = Timestamp { secs: 1718460000, nanos: 0 };
    let mut one = EventMap::new();
    one.insert(a.clone());
    one.insert(b.clone());
    let mut other = EventMap::new();
    other.insert(b);
    other.insert(a);
    for map in [&one, &other] {
        for policy in [PublishedFrom::Created, PublishedFrom::Start] {
            let doc = assemble_at(map, policy, 0, NOW).unwrap();
            assert_eq!(doc.entries.len(), 2);
            assert_eq!(doc.updated, later);
        }
        let doc = to_rss(map).unwrap();
        assert_eq!(doc.entries.len(), 2);
        assert_eq!(doc.updated, later);
    }
}
