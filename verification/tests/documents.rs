use plam_event::calendar::parse_calendar;
use plam_event::event_map::EventMap;
use plam_event::event::Event;
use plam_event::feed::{assemble_at, FeedDocument, PublishedFrom, XML_DECLARATION, XML_INDENT};
use plam_event::timestamp::Timestamp;

const CALENDAR: &str = "BEGIN:VCALENDAR\r\nBEGIN:VEVENT\r\nDTSTART:20240615T140000Z\r\nDTSTAMP:20240615T140000Z\r\nCREATED:20240305T090000Z\r\nUID:1@example.org\r\nSUMMARY:Spring <Open> & \"Classic\"\r\nLOCATION:123 Main St\\, \\, \\, Anytown\\, CA\\, 12345\\, USA\r\nURL:https://example.org/e/1\r\nTZID:America/Chicago\r\nEND:VEVENT\r\nBEGIN:VEVENT\r\nDTSTART:20250101T000000Z\r\nDTSTAMP:20250101T000000Z\r\nCREATED:20231231T235959Z\r\nUID:2@example.org\r\nSUMMARY:Winter Meet\r\nLOCATION:somewhere\\, else\r\nURL:https://example.org/e/2\r\nEND:VEVENT\r\nEND:VCALENDAR\r\n";

fn instant(t: &Timestamp) -> atom_syndication::FixedDateTime {
    chrono::DateTime::from_timestamp(t.secs, t.nanos).unwrap().fixed_offset()
}

fn atom_feed(doc: &FeedDocument) -> atom_syndication::Feed {
    let mut feed = atom_syndication::Feed::default();
    feed.set_title(doc.title.as_str());
    feed.set_id(doc.id.as_str());
    feed.set_updated(instant(&doc.updated));
    let mut link = atom_syndication::Link::default();
    link.set_href(doc.link.as_str());
    link.set_rel(doc.link_rel.as_str());
    feed.set_links(vec![link]);
    let mut entries = Vec::new();
    for e in &doc.entries {
        let mut entry = atom_syndication::Entry::default();
        entry.set_id(e.id.as_str());
        entry.set_title(e.title.as_str());
        entry.set_published(Some(instant(&e.published)));
        entry.set_updated(instant(&e.updated));
        let mut link = atom_syndication::Link::default();
        link.set_href(e.link.as_str());
        link.set_rel(e.link_rel.as_str());
        entry.set_links(vec![link]);
        let mut content = atom_syndication::Content::default();
        content.set_base(Some(e.content_base.clone()));
        content.set_lang(Some(e.content_lang.clone()));
        content.set_content_type(Some(e.content_type.clone()));
        content.set_value(Some(e.content.clone()));
        entry.set_content(Some(content));
        let mut categories = Vec::new();
        for term in &e.categories {
            let mut category = atom_syndication::Category::default();
            category.set_term(term.as_str());
            categories.push(category);
        }
        entry.set_categories(categories);
        entries.push(entry);
    }
    feed.set_entries(entries);
    feed
}

#[test]
fn document_is_written_and_read_back_as_atom() {
    let map = parse_calendar(CALENDAR);
    let doc = assemble_at(&map, PublishedFrom::Created, 0, Timestamp { secs: 0, nanos: 0 }).unwrap();
    let config = atom_syndication::WriteConfig {
        indent_size: Some(XML_INDENT),
        write_document_declaration: XML_DECLARATION,
    };
    let bytes = atom_feed(&doc).write_with_config(Vec::new(), config).unwrap();
    let text = String::from_utf8(bytes).unwrap();
    assert!(text.starts_with("<?xml version=\"1.0\"?>\n<feed xmlns=\"http://www.w3.org/2005/Atom\">\n    <title>Power Lifting America Events</title>"));
    assert!(text.contains("<updated>2024-03-05T09:00:00+00:00</updated>"));
    assert!(text.contains("<category term=\"CA\"/>"));
    assert!(text.contains("<category term=\"UN\"/>"));
    assert!(text.contains("<category term=\"year-2025\"/>"));
    let again = atom_feed(&doc).write_with_config(Vec::new(), config).unwrap();
    assert_eq!(text.as_bytes(), again.as_slice());
    let read = atom_syndication::Feed::read_from(text.as_bytes()).unwrap();
    assert_eq!(read.title().as_str(), doc.title);
    assert_eq!(read.id(), doc.id);
    assert_eq!(read.links()[0].href(), doc.link);
    assert_eq!(read.links()[0].rel(), "self");
    assert_eq!(read.entries().len(), doc.entries.len());
    for (got, want) in read.entries().iter().zip(doc.entries.iter()) {
        assert_eq!(got.id(), want.id);
        assert_eq!(got.title().as_str(), want.title);
        assert_eq!(got.published().unwrap().timestamp(), want.published.secs);
        assert_eq!(got.updated().timestamp(), want.updated.secs);
        assert_eq!(got.links()[0].href(), want.link);
        assert_eq!(got.links()[0].rel(), "alternate");
        let content = got.content().unwrap();
        assert_eq!(content.value().unwrap(), want.content);
        assert_eq!(content.lang(), Some("en-us"));
        assert_eq!(content.base(), Some(want.link.as_str()));
        assert_eq!(content.content_type(), Some("html"));
        let terms: Vec<String> = got.categories().iter().map(|c| c.term().to_string()).collect();
        assert_eq!(terms, want.categories);
    }
}

fn text_value(s: &str) -> serde_json::Value {
    serde_json::Value::String(s.to_string())
}

fn optional_value(s: &Option<String>) -> serde_json::Value {
    match s {
        Some(s) => text_value(s),
        None => serde_json::Value::Null,
    }
}

fn record_value(ev: &Event) -> serde_json::Value {
    let mut m = serde_json::Map::new();
    m.insert("uid".to_string(), text_value(&ev.uid));
    m.insert("end".to_string(), optional_value(&ev.end));
    m.insert("url".to_string(), text_value(&ev.url));
    m.insert("prodid".to_string(), optional_value(&ev.prodid));
    m.insert("tzid".to_string(), optional_value(&ev.tzid));
    m.insert("location".to_string(), text_value(&ev.location));
    m.insert("begin".to_string(), optional_value(&ev.begin));
    m.insert("dtend".to_string(), text_value(&ev.dtend));
    m.insert("dtstamp".to_string(), text_value(&ev.dtstamp));
    m.insert("summary".to_string(), text_value(&ev.summary));
    m.insert("x_wr_caldesc".to_string(), optional_value(&ev.x_wr_caldesc));
    m.insert("tzoffsetto".to_string(), optional_value(&ev.tzoffsetto));
    m.insert("x_robots_tag".to_string(), optional_value(&ev.x_robots_tag));
    m.insert("x_published_ttl".to_string(), optional_value(&ev.x_published_ttl));
    m.insert("categories".to_string(), text_value(&ev.categories));
    m.insert("tzoffsetfrom".to_string(), optional_value(&ev.tzoffsetfrom));
    m.insert("dtstart".to_string(), text_value(&ev.dtstart));
    m.insert("last_modified".to_string(), text_value(&ev.last_modified));
    m.insert("organizer".to_string(), optional_value(&ev.organizer));
    m.insert("tzname".to_string(), optional_value(&ev.tzname));
    m.insert("refresh_interval".to_string(), optional_value(&ev.refresh_interval));
    m.insert("calscale".to_string(), optional_value(&ev.calscale));
    m.insert("attach".to_string(), text_value(&ev.attach));
    m.insert("method".to_string(), optional_value(&ev.method));
    m.insert("x_wr_calname".to_string(), optional_value(&ev.x_wr_calname));
    m.insert("created".to_string(), text_value(&ev.created));
    m.insert("x_original_url".to_string(), optional_value(&ev.x_original_url));
    m.insert("version".to_string(), optional_value(&ev.version));
    m.insert("description".to_string(), text_value(&ev.description));
    serde_json::Value::Object(m)
}

fn text_of(v: &serde_json::Value, name: &str) -> String {
    v.get(name).and_then(|x| x.as_str()).expect(name).to_string()
}

fn optional_of(v: &serde_json::Value, name: &str) -> Option<String> {
    v.get(name).and_then(|x| x.as_str()).map(String::from)
}

fn record_of(v: &serde_json::Value) -> Event {
    let mut ev = Event::default();
    ev.uid = text_of(v, "uid");
    ev.end = optional_of(v, "end");
    ev.url = text_of(v, "url");
    ev.prodid = optional_of(v, "prodid");
    ev.tzid = optional_of(v, "tzid");
    ev.location = text_of(v, "location");
    ev.begin = optional_of(v, "begin");
    ev.dtend = text_of(v, "dtend");
    ev.dtstamp = text_of(v, "dtstamp");
    ev.summary = text_of(v, "summary");
    ev.x_wr_caldesc = optional_of(v, "x_wr_caldesc");
    ev.tzoffsetto = optional_of(v, "tzoffsetto");
    ev.x_robots_tag = optional_of(v, "x_robots_tag");
    ev.x_published_ttl = optional_of(v, "x_published_ttl");
    ev.categories = text_of(v, "categories");
    ev.tzoffsetfrom = optional_of(v, "tzoffsetfrom");
    ev.dtstart = text_of(v, "dtstart");
    ev.last_modified = text_of(v, "last_modified");
    ev.organizer = optional_of(v, "organizer");
    ev.tzname = optional_of(v, "tzname");
    ev.refresh_interval = optional_of(v, "refresh_interval");
    ev.calscale = optional_of(v, "calscale");
    ev.attach = text_of(v, "attach");
    ev.method = optional_of(v, "method");
    ev.x_wr_calname = optional_of(v, "x_wr_calname");
    ev.created = text_of(v, "created");
    ev.x_original_url = optional_of(v, "x_original_url");
    ev.version = optional_of(v, "version");
    ev.description = text_of(v, "description");
    ev
}

#[test]
fn snapshot_round_trip() {
    let map = parse_calendar(CALENDAR);
    let mut snapshot = serde_json::Map::new();
    for i in 0..map.len() {
        let ev = map.at(i);
        snapshot.insert(ev.uid.clone(), record_value(ev));
    }
    let text = serde_json::to_string_pretty(&serde_json::Value::Object(snapshot)).unwrap();
    let read: serde_json::Value = serde_json::from_str(&text).unwrap();
    let mut back = EventMap::new();
    for (uid, record) in read.as_object().unwrap() {
        let ev = record_of(record);
        assert_eq!(&ev.uid, uid);
        back.insert(ev);
    }
    assert_eq!(back.len(), map.len());
    for i in 0..map.len() {
        let ev = map.at(i);
        assert_eq!(back.get(ev.uid.as_str()), Some(ev));
    }
    let first = back.get("1@example.org").unwrap();
    assert_eq!(first.tzid.as_deref(), Some("America/Chicago"));
    assert!(first.organizer.is_none());
    assert_eq!(first.summary, "Spring <Open> & \"Classic\"");
    assert_eq!(first.location, "123 Main St\\, \\, \\, Anytown\\, CA\\, 12345\\, USA");
}
