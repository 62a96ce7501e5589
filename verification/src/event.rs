//! The event record, its fields and the calendar keys that set them.

use vstd::prelude::*;
use crate::text::{chars_eq, matches_at, replace_char, replace_char_from, strip_prefix, to_chars};

verus! {

/// Prefix that a date parameter leaves in front of a value.
pub const DATE_PREFIX: &'static str = "VALUE=DATE:";

/// The no-break space, which is stored as a plain space.
pub const NO_BREAK_SPACE: char = '\u{a0}';

/// A field of an event record that a calendar line can set.
#[derive(Clone, Copy, Debug, PartialEq, Eq, Structural)]
pub enum Field {
    /// Set by the key `UID`.
    Uid,
    /// Set by the key `END`.
    End,
    /// Set by the key `URL`.
    Url,
    /// Set by the key `PRODID`.
    Prodid,
    /// Set by the key `TZID`.
    Tzid,
    /// Set by the key `LOCATION`.
    Location,
    /// Set by the key `BEGIN`.
    Begin,
    /// Set by the key `DTEND`.
    Dtend,
    /// Set by the key `DTSTAMP`.
    Dtstamp,
    /// Set by the key `SUMMARY`.
    Summary,
    /// Set by the key `X-WR-CALDESC`.
    XWrCaldesc,
    /// Set by the key `TZOFFSETTO`.
    Tzoffsetto,
    /// Set by the key `X-ROBOTS-TAG` or `X-Robots-Tag`.
    XRobotsTag,
    /// Set by the key `X-PUBLISHED-TTL`.
    XPublishedTtl,
    /// Set by the key `CATEGORIES`.
    Categories,
    /// Set by the key `TZOFFSETFROM`.
    Tzoffsetfrom,
    /// Set by the key `DTSTART`.
    Dtstart,
    /// Set by the key `LAST-MODIFIED`.
    LastModified,
    /// Set by the key `ORGANIZER`.
    Organizer,
    /// Set by the key `TZNAME`.
    Tzname,
    /// Set by the key `REFRESH-INTERVAL`.
    RefreshInterval,
    /// Set by the key `CALSCALE`.
    Calscale,
    /// Set by the key `ATTACH`.
    Attach,
    /// Set by the key `METHOD`.
    Method,
    /// Set by the key `X-WR-CALNAME`.
    XWrCalname,
    /// Set by the key `CREATED`.
    Created,
    /// Set by the key `X-ORIGINAL-URL`.
    XOriginalUrl,
    /// Set by the key `VERSION`.
    Version,
    /// Set by the key `DESCRIPTION`.
    Description,
}

/// One calendar entry. The fields of type `String` are empty until a line sets
/// them, the optional ones absent. The identifier `uid` is the key under which
/// the record is kept; `location`, `summary`, `dtstart`, `created` and `url`
/// are what a feed shows of it; the other fields are carried along as they
/// were read.
#[derive(Clone, Debug, PartialEq, Eq)]
pub struct Event {
    pub uid: String,
    pub end: Option<String>,
    pub url: String,
    pub prodid: Option<String>,
    pub tzid: Option<String>,
    pub location: String,
    pub begin: Option<String>,
    pub dtend: String,
    pub dtstamp: String,
    pub summary: String,
    pub x_wr_caldesc: Option<String>,
    pub tzoffsetto: Option<String>,
    pub x_robots_tag: Option<String>,
    pub x_published_ttl: Option<String>,
    pub categories: String,
    pub tzoffsetfrom: Option<String>,
    pub dtstart: String,
    pub last_modified: String,
    pub organizer: Option<String>,
    pub tzname: Option<String>,
    pub refresh_interval: Option<String>,
    pub calscale: Option<String>,
    pub attach: String,
    pub method: Option<String>,
    pub x_wr_calname: Option<String>,
    pub created: String,
    pub x_original_url: Option<String>,
    pub version: Option<String>,
    pub description: String,
}

/// What an `Event` holds, as sequences of characters.
pub struct EventView {
    pub uid: Seq<char>,
    pub end: Option<Seq<char>>,
    pub url: Seq<char>,
    pub prodid: Option<Seq<char>>,
    pub tzid: Option<Seq<char>>,
    pub location: Seq<char>,
    pub begin: Option<Seq<char>>,
    pub dtend: Seq<char>,
    pub dtstamp: Seq<char>,
    pub summary: Seq<char>,
    pub x_wr_caldesc: Option<Seq<char>>,
    pub tzoffsetto: Option<Seq<char>>,
    pub x_robots_tag: Option<Seq<char>>,
    pub x_published_ttl: Option<Seq<char>>,
    pub categories: Seq<char>,
    pub tzoffsetfrom: Option<Seq<char>>,
    pub dtstart: Seq<char>,
    pub last_modified: Seq<char>,
    pub organizer: Option<Seq<char>>,
    pub tzname: Option<Seq<char>>,
    pub refresh_interval: Option<Seq<char>>,
    pub calscale: Option<Seq<char>>,
    pub attach: Seq<char>,
    pub method: Option<Seq<char>>,
    pub x_wr_calname: Option<Seq<char>>,
    pub created: Seq<char>,
    pub x_original_url: Option<Seq<char>>,
    pub version: Option<Seq<char>>,
    pub description: Seq<char>,
}

/// The view of an optional text.
pub open spec fn opt_view(s: Option<String>) -> Option<Seq<char>> {
    match s {
        Some(t) => Some(t@),
        None => None,
    }
}

impl View for Event {
    type V = EventView;

    open spec fn view(&self) -> EventView {
        EventView {
            uid: self.uid@,
            end: opt_view(self.end),
            url: self.url@,
            prodid: opt_view(self.prodid),
            tzid: opt_view(self.tzid),
            location: self.location@,
            begin: opt_view(self.begin),
            dtend: self.dtend@,
            dtstamp: self.dtstamp@,
            summary: self.summary@,
            x_wr_caldesc: opt_view(self.x_wr_caldesc),
            tzoffsetto: opt_view(self.tzoffsetto),
            x_robots_tag: opt_view(self.x_robots_tag),
            x_published_ttl: opt_view(self.x_published_ttl),
            categories: self.categories@,
            tzoffsetfrom: opt_view(self.tzoffsetfrom),
            dtstart: self.dtstart@,
            last_modified: self.last_modified@,
            organizer: opt_view(self.organizer),
            tzname: opt_view(self.tzname),
            refresh_interval: opt_view(self.refresh_interval),
            calscale: opt_view(self.calscale),
            attach: self.attach@,
            method: opt_view(self.method),
            x_wr_calname: opt_view(self.x_wr_calname),
            created: self.created@,
            x_original_url: opt_view(self.x_original_url),
            version: opt_view(self.version),
            description: self.description@,
        }
    }
}

impl EventView {
    /// The record in which nothing has been set.
    pub open spec fn empty() -> EventView {
        EventView {
            uid: Seq::empty(),
            end: None,
            url: Seq::empty(),
            prodid: None,
            tzid: None,
            location: Seq::empty(),
            begin: None,
            dtend: Seq::empty(),
            dtstamp: Seq::empty(),
            summary: Seq::empty(),
            x_wr_caldesc: None,
            tzoffsetto: None,
            x_robots_tag: None,
            x_published_ttl: None,
            categories: Seq::empty(),
            tzoffsetfrom: None,
            dtstart: Seq::empty(),
            last_modified: Seq::empty(),
            organizer: None,
            tzname: None,
            refresh_interval: None,
            calscale: None,
            attach: Seq::empty(),
            method: None,
            x_wr_calname: None,
            created: Seq::empty(),
            x_original_url: None,
            version: None,
            description: Seq::empty(),
        }
    }

    /// This record with `field` set to `value`; every other field is kept.
    pub open spec fn with(self, field: Field, value: Seq<char>) -> EventView {
        match field {
            Field::Uid => EventView { uid: value, ..self },
            Field::End => EventView { end: Some(value), ..self },
            Field::Url => EventView { url: value, ..self },
            Field::Prodid => EventView { prodid: Some(value), ..self },
            Field::Tzid => EventView { tzid: Some(value), ..self },
            Field::Location => EventView { location: value, ..self },
            Field::Begin => EventView { begin: Some(value), ..self },
            Field::Dtend => EventView { dtend: value, ..self },
            Field::Dtstamp => EventView { dtstamp: value, ..self },
            Field::Summary => EventView { summary: value, ..self },
            Field::XWrCaldesc => EventView { x_wr_caldesc: Some(value), ..self },
            Field::Tzoffsetto => EventView { tzoffsetto: Some(value), ..self },
            Field::XRobotsTag => EventView { x_robots_tag: Some(value), ..self },
            Field::XPublishedTtl => EventView { x_published_ttl: Some(value), ..self },
            Field::Categories => EventView { categories: value, ..self },
            Field::Tzoffsetfrom => EventView { tzoffsetfrom: Some(value), ..self },
            Field::Dtstart => EventView { dtstart: value, ..self },
            Field::LastModified => EventView { last_modified: value, ..self },
            Field::Organizer => EventView { organizer: Some(value), ..self },
            Field::Tzname => EventView { tzname: Some(value), ..self },
            Field::RefreshInterval => EventView { refresh_interval: Some(value), ..self },
            Field::Calscale => EventView { calscale: Some(value), ..self },
            Field::Attach => EventView { attach: value, ..self },
            Field::Method => EventView { method: Some(value), ..self },
            Field::XWrCalname => EventView { x_wr_calname: Some(value), ..self },
            Field::Created => EventView { created: value, ..self },
            Field::XOriginalUrl => EventView { x_original_url: Some(value), ..self },
            Field::Version => EventView { version: Some(value), ..self },
            Field::Description => EventView { description: value, ..self },
        }
    }
}

/// The field that the calendar key `key` sets. Keys are matched exactly; the
/// robots tag is known in two spellings.
pub open spec fn field_of_key(key: Seq<char>) -> Option<Field> {
    if key == "UID"@ {
        Some(Field::Uid)
    } else if key == "END"@ {
        Some(Field::End)
    } else if key == "URL"@ {
        Some(Field::Url)
    } else if key == "PRODID"@ {
        Some(Field::Prodid)
    } else if key == "TZID"@ {
        Some(Field::Tzid)
    } else if key == "LOCATION"@ {
        Some(Field::Location)
    } else if key == "BEGIN"@ {
        Some(Field::Begin)
    } else if key == "DTEND"@ {
        Some(Field::Dtend)
    } else if key == "DTSTAMP"@ {
        Some(Field::Dtstamp)
    } else if key == "SUMMARY"@ {
        Some(Field::Summary)
    } else if key == "X-WR-CALDESC"@ {
        Some(Field::XWrCaldesc)
    } else if key == "TZOFFSETTO"@ {
        Some(Field::Tzoffsetto)
    } else if key == "X-ROBOTS-TAG"@ {
        Some(Field::XRobotsTag)
    } else if key == "X-PUBLISHED-TTL"@ {
        Some(Field::XPublishedTtl)
    } else if key == "CATEGORIES"@ {
        Some(Field::Categories)
    } else if key == "TZOFFSETFROM"@ {
        Some(Field::Tzoffsetfrom)
    } else if key == "DTSTART"@ {
        Some(Field::Dtstart)
    } else if key == "LAST-MODIFIED"@ {
        Some(Field::LastModified)
    } else if key == "ORGANIZER"@ {
        Some(Field::Organizer)
    } else if key == "TZNAME"@ {
        Some(Field::Tzname)
    } else if key == "REFRESH-INTERVAL"@ {
        Some(Field::RefreshInterval)
    } else if key == "CALSCALE"@ {
        Some(Field::Calscale)
    } else if key == "ATTACH"@ {
        Some(Field::Attach)
    } else if key == "METHOD"@ {
        Some(Field::Method)
    } else if key == "X-WR-CALNAME"@ {
        Some(Field::XWrCalname)
    } else if key == "CREATED"@ {
        Some(Field::Created)
    } else if key == "X-ORIGINAL-URL"@ {
        Some(Field::XOriginalUrl)
    } else if key == "VERSION"@ {
        Some(Field::Version)
    } else if key == "DESCRIPTION"@ {
        Some(Field::Description)
    } else if key == "X-Robots-Tag"@ {
        Some(Field::XRobotsTag)
    } else {
        None
    }
}

/// The value that is stored for the raw value of a line: the date prefix is
/// taken off where the value starts with it, then every no-break space becomes
/// a space.
pub open spec fn normalize_value(value: Seq<char>) -> Seq<char> {
    replace_char(strip_prefix(value, DATE_PREFIX@), NO_BREAK_SPACE, ' ')
}

/// The record after the pair of `key` and `value` has been handled: a known key
/// sets its field to the normalized value, any other key changes nothing.
pub open spec fn apply_pair(ev: EventView, key: Seq<char>, value: Seq<char>) -> EventView {
    match field_of_key(key) {
        Some(field) => ev.with(field, normalize_value(value)),
        None => ev,
    }
}

impl Field {
    /// Looks the calendar key up.
    pub fn from_key(key: &str) -> (r: Option<Field>)
        ensures
            r == field_of_key(key@),
    {
        let k = to_chars(key);
        if chars_eq(&k, "UID") {
            Some(Field::Uid)
        } else if chars_eq(&k, "END") {
            Some(Field::End)
        } else if chars_eq(&k, "URL") {
            Some(Field::Url)
        } else if chars_eq(&k, "PRODID") {
            Some(Field::Prodid)
        } else if chars_eq(&k, "TZID") {
            Some(Field::Tzid)
        } else if chars_eq(&k, "LOCATION") {
            Some(Field::Location)
        } else if chars_eq(&k, "BEGIN") {
            Some(Field::Begin)
        } else if chars_eq(&k, "DTEND") {
            Some(Field::Dtend)
        } else if chars_eq(&k, "DTSTAMP") {
            Some(Field::Dtstamp)
        } else if chars_eq(&k, "SUMMARY") {
            Some(Field::Summary)
        } else if chars_eq(&k, "X-WR-CALDESC") {
            Some(Field::XWrCaldesc)
        } else if chars_eq(&k, "TZOFFSETTO") {
            Some(Field::Tzoffsetto)
        } else if chars_eq(&k, "X-ROBOTS-TAG") {
            Some(Field::XRobotsTag)
        } else if chars_eq(&k, "X-PUBLISHED-TTL") {
            Some(Field::XPublishedTtl)
        } else if chars_eq(&k, "CATEGORIES") {
            Some(Field::Categories)
        } else if chars_eq(&k, "TZOFFSETFROM") {
            Some(Field::Tzoffsetfrom)
        } else if chars_eq(&k, "DTSTART") {
            Some(Field::Dtstart)
        } else if chars_eq(&k, "LAST-MODIFIED") {
            Some(Field::LastModified)
        } else if chars_eq(&k, "ORGANIZER") {
            Some(Field::Organizer)
        } else if chars_eq(&k, "TZNAME") {
            Some(Field::Tzname)
        } else if chars_eq(&k, "REFRESH-INTERVAL") {
            Some(Field::RefreshInterval)
        } else if chars_eq(&k, "CALSCALE") {
            Some(Field::Calscale)
        } else if chars_eq(&k, "ATTACH") {
            Some(Field::Attach)
        } else if chars_eq(&k, "METHOD") {
            Some(Field::Method)
        } else if chars_eq(&k, "X-WR-CALNAME") {
            Some(Field::XWrCalname)
        } else if chars_eq(&k, "CREATED") {
            Some(Field::Created)
        } else if chars_eq(&k, "X-ORIGINAL-URL") {
            Some(Field::XOriginalUrl)
        } else if chars_eq(&k, "VERSION") {
            Some(Field::Version)
        } else if chars_eq(&k, "DESCRIPTION") {
            Some(Field::Description)
        } else if chars_eq(&k, "X-Robots-Tag") {
            Some(Field::XRobotsTag)
        } else {
            None
        }
    }
}

impl Default for Event {
    fn default() -> (r: Event)
        ensures
            r@ == EventView::empty(),
    {
        Event {
            uid: String::new(),
            end: None,
            url: String::new(),
            prodid: None,
            tzid: None,
            location: String::new(),
            begin: None,
            dtend: String::new(),
            dtstamp: String::new(),
            summary: String::new(),
            x_wr_caldesc: None,
            tzoffsetto: None,
            x_robots_tag: None,
            x_published_ttl: None,
            categories: String::new(),
            tzoffsetfrom: None,
            dtstart: String::new(),
            last_modified: String::new(),
            organizer: None,
            tzname: None,
            refresh_interval: None,
            calscale: None,
            attach: String::new(),
            method: None,
            x_wr_calname: None,
            created: String::new(),
            x_original_url: None,
            version: None,
            description: String::new(),
        }
    }
}

/// Computes the value that is stored for the raw value of a line.
pub fn normalized(value: &str) -> (r: String)
    ensures
        r@ == normalize_value(value@),
{
    let chars = to_chars(value);
    let prefix = to_chars(DATE_PREFIX);
    let start = if matches_at(&chars, 0, &prefix) {
        prefix.len()
    } else {
        0
    };
    proof {
        reveal_strlit(" ");
        assert(value@.skip(0) =~= value@);
    }
    replace_char_from(value, &chars, start, NO_BREAK_SPACE, " ")
}

/// Handles one pair of key and value: a known key sets its field of `ev` to
/// the normalized value, any other key leaves `ev` as it is. Returns whether
/// the key was known.
pub fn update_event(key: &str, value: &str, ev: &mut Event) -> (known: bool)
    ensures
        final(ev)@ == apply_pair(old(ev)@, key@, value@),
        known == field_of_key(key@).is_some(),
{
    match Field::from_key(key) {
        Some(field) => {
            ev.set(field, normalized(value));
            true
        },
        None => false,
    }
}

/// Of two values written to one field, the second stays: the record is the
/// same as if only the second had been written.
pub proof fn lemma_last_write_wins(ev: EventView, field: Field, first: Seq<char>, second: Seq<char>)
    ensures
        ev.with(field, first).with(field, second) == ev.with(field, second),
{
}

/// Of two pairs with one key, only the second counts.
pub proof fn lemma_second_pair_wins(
    ev: EventView,
    key: Seq<char>,
    first: Seq<char>,
    second: Seq<char>,
)
    ensures
        apply_pair(apply_pair(ev, key, first), key, second) == apply_pair(ev, key, second),
{
    match field_of_key(key) {
        Some(field) => {
            lemma_last_write_wins(ev, field, normalize_value(first), normalize_value(second));
        },
        None => {},
    }
}

/// A pair whose key is not that of the identifier leaves the identifier as it
/// is.
pub proof fn lemma_other_keys_keep_uid(ev: EventView, key: Seq<char>, value: Seq<char>)
    requires
        field_of_key(key) != Some(Field::Uid),
    ensures
        apply_pair(ev, key, value).uid == ev.uid,
{
}

impl Event {
    /// Sets `field` to `value`.
    pub fn set(&mut self, field: Field, value: String)
        ensures
            final(self)@ == old(self)@.with(field, value@),
    {
        match field {
            Field::Uid => {
                self.uid = value;
            },
            Field::End => {
                self.end = Some(value);
            },
            Field::Url => {
                self.url = value;
            },
            Field::Prodid => {
                self.prodid = Some(value);
            },
            Field::Tzid => {
                self.tzid = Some(value);
            },
            Field::Location => {
                self.location = value;
            },
            Field::Begin => {
                self.begin = Some(value);
            },
            Field::Dtend => {
                self.dtend = value;
            },
            Field::Dtstamp => {
                self.dtstamp = value;
            },
            Field::Summary => {
                self.summary = value;
            },
            Field::XWrCaldesc => {
                self.x_wr_caldesc = Some(value);
            },
            Field::Tzoffsetto => {
                self.tzoffsetto = Some(value);
            },
            Field::XRobotsTag => {
                self.x_robots_tag = Some(value);
            },
            Field::XPublishedTtl => {
                self.x_published_ttl = Some(value);
            },
            Field::Categories => {
                self.categories = value;
            },
            Field::Tzoffsetfrom => {
                self.tzoffsetfrom = Some(value);
            },
            Field::Dtstart => {
                self.dtstart = value;
            },
            Field::LastModified => {
                self.last_modified = value;
            },
            Field::Organizer => {
                self.organizer = Some(value);
            },
            Field::Tzname => {
                self.tzname = Some(value);
            },
            Field::RefreshInterval => {
                self.refresh_interval = Some(value);
            },
            Field::Calscale => {
                self.calscale = Some(value);
            },
            Field::Attach => {
                self.attach = value;
            },
            Field::Method => {
                self.method = Some(value);
            },
            Field::XWrCalname => {
                self.x_wr_calname = Some(value);
            },
            Field::Created => {
                self.created = value;
            },
            Field::XOriginalUrl => {
                self.x_original_url = Some(value);
            },
            Field::Version => {
                self.version = Some(value);
            },
            Field::Description => {
                self.description = value;
            },
        }
    }
}

} // verus!
