use plam_event::event::Event;
use plam_event::event_map::EventMap;

fn record(uid: &str, summary: &str) -> Event {
    let mut ev = Event::default();
    ev.uid = uid.to_string();
    ev.summary = summary.to_string();
    ev
}

#[test]
fn new_map_is_empty() {
    let map = EventMap::new();
    assert_eq!(map.len(), 0);
    assert!(map.get("").is_none());
    assert!(map.get("a").is_none());
    assert_eq!(map.index_of("a"), None);
}

#[test]
fn records_are_found_by_identifier() {
    let mut map = EventMap::new();
    map.insert(record("a", "one"));
    map.insert(record("b", "two"));
    map.insert(record("", "nameless"));
    assert_eq!(map.len(), 3);
    assert_eq!(map.get("a").unwrap().summary, "one");
    assert_eq!(map.get("b").unwrap().summary, "two");
    assert_eq!(map.get("").unwrap().summary, "nameless");
    assert!(map.get("A").is_none());
    assert!(map.get("ab").is_none());
    for i in 0..map.len() {
        let ev = map.at(i);
        assert_eq!(map.index_of(ev.uid.as_str()), Some(i));
        assert_eq!(map.get(ev.uid.as_str()), Some(ev));
    }
}

#[test]
fn insert_replaces_the_record_with_the_same_identifier() {
    let mut map = EventMap::new();
    map.insert(record("a", "one"));
    map.insert(record("b", "two"));
    map.insert(record("a", "three"));
    assert_eq!(map.len(), 2);
    assert_eq!(map.get("a").unwrap().summary, "three");
    assert_eq!(map.get("b").unwrap().summary, "two");
    map.insert(record("", "x"));
    map.insert(record("", "y"));
    assert_eq!(map.len(), 3);
    assert_eq!(map.get("").unwrap().summary, "y");
    let mut seen: Vec<String> = (0..map.len()).map(|i| map.at(i).uid.clone()).collect();
    seen.sort();
    assert_eq!(seen, vec![String::new(), "a".to_string(), "b".to_string()]);
}

#[test]
fn identifiers_are_compared_character_by_character() {
    let mut map = EventMap::new();
    map.insert(record("caf\u{e9}", "composed"));
    map.insert(record("cafe\u{301}", "decomposed"));
    assert_eq!(map.len(), 2);
    assert_eq!(map.get("caf\u{e9}").unwrap().summary, "composed");
    assert_eq!(map.get("cafe\u{301}").unwrap().summary, "decomposed");
    assert!(map.get("cafe").is_none());
}
