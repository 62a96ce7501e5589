//! The feed document that is made of the event records.
//!
//! Each record gives one entry. The document is a plain value; writing it out
//! as XML is left to the program that uses it.

use vstd::prelude::*;
use crate::event_map::{as_map, distinct_uids, lemma_as_map_index, position, EventMap};
use crate::event::{Event, EventView};
use crate::text::{signed_decimal, signed_decimal_string};
use crate::timestamp::{
    civil_date_of, current_time, earlier, later_of, local_offset_now, timestamp_of, Timestamp,
    TimestampError,
};
use crate::view::{content_of, state_code, summary_of};

verus! {

/// The title of the feed.
pub const FEED_TITLE: &'static str = "Power Lifting America Events";

/// The address of the feed, which is also its identifier.
pub const FEED_URL: &'static str = "http://gh.freemasen.com/plam-event/atom.xml";

/// The relation of the link of the feed: it points to the feed itself.
pub const REL_SELF: &'static str = "self";

/// The relation of the link of an entry: it points to the page of the event.
pub const REL_ALTERNATE: &'static str = "alternate";

/// The language of the content of an entry.
pub const CONTENT_LANG: &'static str = "en-us";

/// The media type of the content of an entry.
pub const CONTENT_TYPE: &'static str = "html";

/// The number of spaces by which the written feed is indented at each level.
pub const XML_INDENT: usize = 4;

/// Whether the written feed starts with an XML declaration.
pub const XML_DECLARATION: bool = true;

/// What the label for the year of an event starts with.
pub const YEAR_PREFIX: &'static str = "year-";

/// Which instant of an event an entry is published at. It is also the
/// instant at which the entry was last updated.
#[derive(Clone, Copy, Debug, PartialEq, Eq, Structural)]
pub enum PublishedFrom {
    /// The instant at which the event was created.
    Created,
    /// The instant of the event itself, its start.
    Start,
}

/// An entry of the feed.
#[derive(Clone, Debug, PartialEq, Eq)]
pub struct FeedEntry {
    pub id: String,
    pub title: String,
    pub published: Timestamp,
    pub updated: Timestamp,
    pub link: String,
    pub link_rel: String,
    pub content: String,
    pub content_lang: String,
    pub content_type: String,
    pub content_base: String,
    pub categories: Vec<String>,
}

/// What a `FeedEntry` holds.
pub struct FeedEntryView {
    pub id: Seq<char>,
    pub title: Seq<char>,
    pub published: Timestamp,
    pub updated: Timestamp,
    pub link: Seq<char>,
    pub link_rel: Seq<char>,
    pub content: Seq<char>,
    pub content_lang: Seq<char>,
    pub content_type: Seq<char>,
    pub content_base: Seq<char>,
    pub categories: Seq<Seq<char>>,
}

impl View for FeedEntry {
    type V = FeedEntryView;

    open spec fn view(&self) -> FeedEntryView {
        FeedEntryView {
            id: self.id@,
            title: self.title@,
            published: self.published,
            updated: self.updated,
            link: self.link@,
            link_rel: self.link_rel@,
            content: self.content@,
            content_lang: self.content_lang@,
            content_type: self.content_type@,
            content_base: self.content_base@,
            categories: self.categories@.map_values(|c: String| c@),
        }
    }
}

/// The feed document.
#[derive(Clone, Debug, PartialEq, Eq)]
pub struct FeedDocument {
    pub title: String,
    pub link: String,
    pub link_rel: String,
    pub id: String,
    pub updated: Timestamp,
    pub entries: Vec<FeedEntry>,
}

/// What a `FeedDocument` holds.
pub struct FeedView {
    pub title: Seq<char>,
    pub link: Seq<char>,
    pub link_rel: Seq<char>,
    pub id: Seq<char>,
    pub updated: Timestamp,
    pub entries: Seq<FeedEntryView>,
}

impl View for FeedDocument {
    type V = FeedView;

    open spec fn view(&self) -> FeedView {
        FeedView {
            title: self.title@,
            link: self.link@,
            link_rel: self.link_rel@,
            id: self.id@,
            updated: self.updated,
            entries: self.entries@.map_values(|e: FeedEntry| e@),
        }
    }
}

/// The instant at which the entry for `ev` is published.
pub open spec fn published_of(ev: EventView, policy: PublishedFrom) -> Result<
    Timestamp,
    TimestampError,
> {
    match policy {
        PublishedFrom::Created => timestamp_of(ev.created),
        PublishedFrom::Start => timestamp_of(ev.dtstart),
    }
}

/// The label for the year of `ev`: that of the date of its instant in UTC.
pub open spec fn year_label_of(ev: EventView) -> Result<Seq<char>, TimestampError> {
    match timestamp_of(ev.dtstart) {
        Err(e) => Err(e),
        Ok(t) => match civil_date_of(t, 0) {
            Err(e) => Err(e),
            Ok(date) => Ok(YEAR_PREFIX@ + signed_decimal(date.year as int)),
        },
    }
}

/// The entry for `ev`. Its identifier, its link and the base of its content
/// are the address of the event; its title is the summary line, with the date
/// at `offset` seconds east of UTC; it is published and updated at the
/// instant that `policy` names; its labels are the state code and the year.
/// There is none where one of the timestamps that it takes gives no instant.
pub open spec fn entry_of(ev: EventView, policy: PublishedFrom, offset: i32) -> Result<
    FeedEntryView,
    TimestampError,
> {
    match published_of(ev, policy) {
        Err(e) => Err(e),
        Ok(published) => match summary_of(ev, offset) {
            Err(e) => Err(e),
            Ok(title) => match content_of(ev) {
                Err(e) => Err(e),
                Ok(content) => match year_label_of(ev) {
                    Err(e) => Err(e),
                    Ok(year) => Ok(
                        FeedEntryView {
                            id: ev.url,
                            title,
                            published,
                            updated: published,
                            link: ev.url,
                            link_rel: REL_ALTERNATE@,
                            content,
                            content_lang: CONTENT_LANG@,
                            content_type: CONTENT_TYPE@,
                            content_base: ev.url,
                            categories: seq![state_code(ev.location), year],
                        },
                    ),
                },
            },
        },
    }
}

/// The entries for `records`, in their order; where a record gives none, the
/// error of the first such record.
pub open spec fn entries_of(
    records: Seq<EventView>,
    policy: PublishedFrom,
    offset: i32,
) -> Result<Seq<FeedEntryView>, TimestampError>
    decreases records.len(),
{
    if records.len() == 0 {
        Ok(Seq::empty())
    } else {
        match entries_of(records.drop_last(), policy, offset) {
            Err(e) => Err(e),
            Ok(done) => match entry_of(records.last(), policy, offset) {
                Err(e) => Err(e),
                Ok(entry) => Ok(done.push(entry)),
            },
        }
    }
}

/// The latest instant at which one of `entries` is published; `fallback`
/// where there is no entry.
pub open spec fn latest(entries: Seq<FeedEntryView>, fallback: Timestamp) -> Timestamp
    decreases entries.len(),
{
    if entries.len() == 0 {
        fallback
    } else if entries.len() == 1 {
        entries[0].published
    } else {
        later_of(latest(entries.drop_last(), fallback), entries.last().published)
    }
}

/// The feed for `records`: title, link and identifier are fixed; it was
/// updated at the latest instant at which one of its entries is published or,
/// where it has no entry, at `now`.
pub open spec fn feed_of(
    records: Seq<EventView>,
    policy: PublishedFrom,
    offset: i32,
    now: Timestamp,
) -> Result<FeedView, TimestampError> {
    match entries_of(records, policy, offset) {
        Err(e) => Err(e),
        Ok(entries) => Ok(
            FeedView {
                title: FEED_TITLE@,
                link: FEED_URL@,
                link_rel: REL_SELF@,
                id: FEED_URL@,
                updated: latest(entries, now),
                entries,
            },
        ),
    }
}

/// An entry or an error, with the entry as its view.
pub open spec fn entry_view_of(r: Result<FeedEntry, TimestampError>) -> Result<
    FeedEntryView,
    TimestampError,
> {
    match r {
        Ok(entry) => Ok(entry@),
        Err(e) => Err(e),
    }
}

/// A document or an error, with the document as its view.
pub open spec fn feed_view_of(r: Result<FeedDocument, TimestampError>) -> Result<
    FeedView,
    TimestampError,
> {
    match r {
        Ok(doc) => Ok(doc@),
        Err(e) => Err(e),
    }
}

/// The feed of some entries was updated at the instant at which one of them
/// is published, and none of them is published later.
pub proof fn lemma_latest_is_maximum(entries: Seq<FeedEntryView>, fallback: Timestamp)
    requires
        entries.len() > 0,
    ensures
        exists|i: int| 0 <= i < entries.len() && (#[trigger] entries[i]).published == latest(
            entries,
            fallback,
        ),
        forall|i: int|
            0 <= i < entries.len() ==> !earlier(
                latest(entries, fallback),
                (#[trigger] entries[i]).published,
            ),
    decreases entries.len(),
{
    if entries.len() == 1 {
        assert(entries[0].published == latest(entries, fallback));
    } else {
        let front = entries.drop_last();
        lemma_latest_is_maximum(front, fallback);
        let w = choose|i: int| 0 <= i < front.len() && (#[trigger] front[i]).published == latest(
            front,
            fallback,
        );
        let m = latest(entries, fallback);
        if earlier(latest(front, fallback), entries.last().published) {
            assert(entries[entries.len() - 1].published == m);
        } else {
            assert(entries[w] == front[w]);
            assert(entries[w].published == m);
        }
        assert forall|i: int| 0 <= i < entries.len() implies !earlier(
            m,
            (#[trigger] entries[i]).published,
        ) by {
            if i < front.len() {
                assert(front[i] == entries[i]);
                assert(!earlier(latest(front, fallback), front[i].published));
            }
        }
    }
}

/// The feed without entries was updated at the fallback instant.
pub proof fn lemma_latest_of_none(fallback: Timestamp)
    ensures
        latest(Seq::<FeedEntryView>::empty(), fallback) == fallback,
{
}

/// A feed was updated at the latest instant at which one of its entries is
/// published: one entry is published then and none later. A feed without
/// entries was updated at `now`.
pub proof fn lemma_feed_updated(
    records: Seq<EventView>,
    policy: PublishedFrom,
    offset: i32,
    now: Timestamp,
)
    requires
        feed_of(records, policy, offset, now).is_ok(),
    ensures
        ({
            let feed = feed_of(records, policy, offset, now).unwrap();
            &&& feed.entries.len() == 0 ==> feed.updated == now
            &&& feed.entries.len() > 0 ==> exists|i: int|
                0 <= i < feed.entries.len() && (#[trigger] feed.entries[i]).published
                    == feed.updated
            &&& forall|i: int|
                0 <= i < feed.entries.len() ==> !earlier(
                    feed.updated,
                    (#[trigger] feed.entries[i]).published,
                )
        }),
{
    let feed = feed_of(records, policy, offset, now).unwrap();
    if feed.entries.len() > 0 {
        lemma_latest_is_maximum(feed.entries, now);
    }
}

/// The feed of two records that each give an entry holds the two entries and
/// was updated at the later of the two instants at which they are published,
/// whichever of the records comes first.
pub proof fn lemma_feed_of_two(
    a: EventView,
    b: EventView,
    policy: PublishedFrom,
    offset: i32,
    now: Timestamp,
)
    requires
        entry_of(a, policy, offset).is_ok(),
        entry_of(b, policy, offset).is_ok(),
    ensures
        ({
            let ea = entry_of(a, policy, offset).unwrap();
            let eb = entry_of(b, policy, offset).unwrap();
            let one = feed_of(seq![a, b], policy, offset, now);
            let other = feed_of(seq![b, a], policy, offset, now);
            &&& one.is_ok() && other.is_ok()
            &&& one.unwrap().entries == seq![ea, eb]
            &&& other.unwrap().entries == seq![eb, ea]
            &&& one.unwrap().updated == later_of(ea.published, eb.published)
            &&& other.unwrap().updated == one.unwrap().updated
        }),
{
    let ea = entry_of(a, policy, offset).unwrap();
    let eb = entry_of(b, policy, offset).unwrap();
    lemma_entries_of_two(a, b, policy, offset);
    lemma_entries_of_two(b, a, policy, offset);
    assert(seq![ea, eb].drop_last() =~= seq![ea]);
    assert(seq![eb, ea].drop_last() =~= seq![eb]);
    assert(latest(seq![ea], now) == ea.published);
    assert(latest(seq![eb], now) == eb.published);
}

/// The entries of two records that each give one.
proof fn lemma_entries_of_two(a: EventView, b: EventView, policy: PublishedFrom, offset: i32)
    requires
        entry_of(a, policy, offset).is_ok(),
        entry_of(b, policy, offset).is_ok(),
    ensures
        entries_of(seq![a, b], policy, offset) == Ok::<Seq<FeedEntryView>, TimestampError>(
            seq![entry_of(a, policy, offset).unwrap(), entry_of(b, policy, offset).unwrap()],
        ),
{
    let both = seq![a, b];
    let first = both.drop_last();
    assert(first =~= seq![a]);
    assert(first.drop_last() =~= Seq::<EventView>::empty());
    assert(entries_of(first.drop_last(), policy, offset) == Ok::<
        Seq<FeedEntryView>,
        TimestampError,
    >(Seq::empty()));
    assert(first.last() == a);
    assert(entries_of(first, policy, offset) == Ok::<Seq<FeedEntryView>, TimestampError>(
        Seq::<FeedEntryView>::empty().push(entry_of(a, policy, offset).unwrap()),
    ));
    assert(both.last() == b);
    assert(Seq::<FeedEntryView>::empty().push(entry_of(a, policy, offset).unwrap()).push(
        entry_of(b, policy, offset).unwrap(),
    ) =~= seq![entry_of(a, policy, offset).unwrap(), entry_of(b, policy, offset).unwrap()]);
}

/// Where every record gives an entry, there is one entry for each record, at
/// the position of the record.
pub proof fn lemma_entries_by_record(
    records: Seq<EventView>,
    policy: PublishedFrom,
    offset: i32,
)
    requires
        entries_of(records, policy, offset).is_ok(),
    ensures
        entries_of(records, policy, offset).unwrap().len() == records.len(),
        forall|i: int|
            0 <= i < records.len() ==> entry_of(#[trigger] records[i], policy, offset) == Ok::<
                FeedEntryView,
                TimestampError,
            >(entries_of(records, policy, offset).unwrap()[i]),
    decreases records.len(),
{
    if records.len() > 0 {
        let front = records.drop_last();
        lemma_entries_by_record(front, policy, offset);
        let done = entries_of(front, policy, offset).unwrap();
        let all = entries_of(records, policy, offset).unwrap();
        assert forall|i: int| 0 <= i < records.len() implies entry_of(
            #[trigger] records[i],
            policy,
            offset,
        ) == Ok::<FeedEntryView, TimestampError>(all[i]) by {
            if i < front.len() {
                assert(front[i] == records[i]);
                assert(all[i] == done[i]);
            }
        }
    }
}

/// The entries do not depend on the order in which the records are kept: two
/// sequences of records that hold the same records under the same
/// identifiers give the same entries, each with the same title, content and
/// labels, if in another order.
pub proof fn lemma_entries_same_for_same_map(
    a: Seq<EventView>,
    b: Seq<EventView>,
    policy: PublishedFrom,
    offset: i32,
)
    requires
        distinct_uids(a),
        distinct_uids(b),
        as_map(a) == as_map(b),
        entries_of(a, policy, offset).is_ok(),
        entries_of(b, policy, offset).is_ok(),
    ensures
        entries_of(a, policy, offset).unwrap().to_set() == entries_of(
            b,
            policy,
            offset,
        ).unwrap().to_set(),
{
    let ea = entries_of(a, policy, offset).unwrap();
    let eb = entries_of(b, policy, offset).unwrap();
    lemma_entries_by_record(a, policy, offset);
    lemma_entries_by_record(b, policy, offset);
    assert forall|e: FeedEntryView| ea.contains(e) implies eb.contains(e) by {
        let i = choose|i: int| 0 <= i < ea.len() && ea[i] == e;
        lemma_entry_found(a, b, i, policy, offset);
    }
    assert forall|e: FeedEntryView| eb.contains(e) implies ea.contains(e) by {
        let i = choose|i: int| 0 <= i < eb.len() && eb[i] == e;
        lemma_entry_found(b, a, i, policy, offset);
    }
    assert(ea.to_set() =~= eb.to_set());
}

/// The entry of the record at position `i` of `a` is among the entries of
/// `b`.
proof fn lemma_entry_found(
    a: Seq<EventView>,
    b: Seq<EventView>,
    i: int,
    policy: PublishedFrom,
    offset: i32,
)
    requires
        distinct_uids(a),
        distinct_uids(b),
        as_map(a) == as_map(b),
        entries_of(a, policy, offset).is_ok(),
        entries_of(b, policy, offset).is_ok(),
        0 <= i < entries_of(a, policy, offset).unwrap().len(),
    ensures
        entries_of(b, policy, offset).unwrap().contains(
            entries_of(a, policy, offset).unwrap()[i],
        ),
{
    let ea = entries_of(a, policy, offset).unwrap();
    let eb = entries_of(b, policy, offset).unwrap();
    lemma_entries_by_record(a, policy, offset);
    lemma_entries_by_record(b, policy, offset);
    lemma_as_map_index(a, i);
    let uid = a[i].uid;
    assert(as_map(b).contains_key(uid));
    let j = position(b, uid);
    lemma_as_map_index(b, j);
    assert(b[j] == a[i]);
    assert(entry_of(b[j], policy, offset) == Ok::<FeedEntryView, TimestampError>(eb[j]));
    assert(entry_of(a[i], policy, offset) == Ok::<FeedEntryView, TimestampError>(ea[i]));
    assert(eb[j] == ea[i]);
}

/// The label for the year of `ev`.
pub fn year_label(ev: &Event) -> (r: Result<String, TimestampError>)
    ensures
        crate::view::text_of(r) == year_label_of(ev@),
{
    match ev.date() {
        Err(e) => Err(e),
        Ok(t) => match t.date_utc() {
            Err(e) => Err(e),
            Ok(date) => {
                let mut out = YEAR_PREFIX.to_owned();
                out.append(signed_decimal_string(date.year as i64).as_str());
                Ok(out)
            },
        },
    }
}

/// The instant at which the entry for `ev` is published.
pub fn published(ev: &Event, policy: PublishedFrom) -> (r: Result<Timestamp, TimestampError>)
    ensures
        r == published_of(ev@, policy),
{
    match policy {
        PublishedFrom::Created => ev.created(),
        PublishedFrom::Start => ev.date(),
    }
}

/// Makes the entry for `ev`.
pub fn entry_for(ev: &Event, policy: PublishedFrom, offset: i32) -> (r: Result<
    FeedEntry,
    TimestampError,
>)
    ensures
        entry_view_of(r) == entry_of(ev@, policy, offset),
{
    let at = match published(ev, policy) {
        Err(e) => {
            return Err(e);
        },
        Ok(t) => t,
    };
    let title = match ev.summary_at(offset) {
        Err(e) => {
            return Err(e);
        },
        Ok(s) => s,
    };
    let content = match ev.content() {
        Err(e) => {
            return Err(e);
        },
        Ok(s) => s,
    };
    let year = match year_label(ev) {
        Err(e) => {
            return Err(e);
        },
        Ok(s) => s,
    };
    let mut categories: Vec<String> = Vec::new();
    categories.push(ev.state().to_owned());
    categories.push(year);
    let entry = FeedEntry {
        id: ev.url.clone(),
        title,
        published: at,
        updated: at,
        link: ev.url.clone(),
        link_rel: REL_ALTERNATE.to_owned(),
        content,
        content_lang: CONTENT_LANG.to_owned(),
        content_type: CONTENT_TYPE.to_owned(),
        content_base: ev.url.clone(),
        categories,
    };
    assert(entry@.categories =~= seq![state_code(ev@.location), year@]);
    Ok(entry)
}

/// Makes the feed of the records of `events`, with the dates of the titles
/// at `offset` seconds east of UTC, and with `now` as the instant of a feed
/// without entries.
pub fn assemble_at(events: &EventMap, policy: PublishedFrom, offset: i32, now: Timestamp) -> (r:
    Result<FeedDocument, TimestampError>)
    ensures
        feed_view_of(r) == feed_of(events.records(), policy, offset, now),
{
    let ghost records = events.records();
    let n = events.len();
    let mut entries: Vec<FeedEntry> = Vec::new();
    let mut updated = now;
    let mut i: usize = 0;
    assert(records.take(0) =~= Seq::<EventView>::empty());
    assert(entries@.map_values(|e: FeedEntry| e@) =~= Seq::<FeedEntryView>::empty());
    while i < n
        invariant
            records == events.records(),
            n == records.len(),
            i <= n,
            entries_of(records.take(i as int), policy, offset) == Ok::<
                Seq<FeedEntryView>,
                TimestampError,
            >(entries@.map_values(|e: FeedEntry| e@)),
            updated == latest(entries@.map_values(|e: FeedEntry| e@), now),
        decreases n - i,
    {
        let ghost done = entries@.map_values(|e: FeedEntry| e@);
        proof {
            assert(records.take(i + 1).drop_last() =~= records.take(i as int));
            assert(records.take(i + 1).last() == records[i as int]);
        }
        let entry = match entry_for(events.at(i), policy, offset) {
            Err(e) => {
                proof {
                    lemma_entries_error_stays(records, i + 1, policy, offset);
                }
                return Err(e);
            },
            Ok(entry) => entry,
        };
        if i == 0 || updated.is_before(&entry.published) {
            updated = entry.published;
        }
        entries.push(entry);
        proof {
            let all = entries@.map_values(|e: FeedEntry| e@);
            assert(all =~= done.push(entry@));
            assert(all.drop_last() =~= done);
            assert(done.len() == i) by {
                lemma_entries_by_record(records.take(i as int), policy, offset);
            }
        }
        i += 1;
    }
    assert(records.take(n as int) =~= records);
    Ok(
        FeedDocument {
            title: FEED_TITLE.to_owned(),
            link: FEED_URL.to_owned(),
            link_rel: REL_SELF.to_owned(),
            id: FEED_URL.to_owned(),
            updated,
            entries,
        },
    )
}

/// An error among the first `k` records is the error of all of them.
proof fn lemma_entries_error_stays(
    records: Seq<EventView>,
    k: int,
    policy: PublishedFrom,
    offset: i32,
)
    requires
        0 <= k <= records.len(),
        entries_of(records.take(k), policy, offset).is_err(),
    ensures
        entries_of(records, policy, offset) == entries_of(records.take(k), policy, offset),
    decreases records.len() - k,
{
    if k < records.len() {
        assert(records.take(k + 1).drop_last() =~= records.take(k));
        lemma_entries_error_stays(records, k + 1, policy, offset);
    } else {
        assert(records.take(k) =~= records);
    }
}

/// Makes the feed of the records of `events`, as they stand at this moment
/// on this machine: the dates of the titles are those of local time, and a
/// feed without entries was updated now.
pub fn assemble(events: &EventMap, policy: PublishedFrom) -> (r: Result<
    FeedDocument,
    TimestampError,
>)
    ensures
        exists|offset: i32, now: Timestamp|
            -86_400 < offset < 86_400 && feed_view_of(r) == #[trigger] feed_of(
                events.records(),
                policy,
                offset,
                now,
            ),
{
    let offset = local_offset_now();
    let now = current_time();
    let r = assemble_at(events, policy, offset, now);
    assert(-86_400 < offset < 86_400 && feed_view_of(r) == feed_of(
        events.records(),
        policy,
        offset,
        now,
    ));
    r
}

/// Makes the feed in which each entry is published at the instant at which
/// its event was created.
pub fn to_rss(events: &EventMap) -> (r: Result<FeedDocument, TimestampError>)
    ensures
        exists|offset: i32, now: Timestamp|
            -86_400 < offset < 86_400 && feed_view_of(r) == #[trigger] feed_of(
                events.records(),
                PublishedFrom::Created,
                offset,
                now,
            ),
{
    assemble(events, PublishedFrom::Created)
}

} // verus!
