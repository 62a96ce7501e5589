//! Reading calendar lines into event records.
//!
//! A line is either the marker that ends an event, a pair of key and value, or
//! nothing that can be read. The parser keeps one record in progress and the
//! map of the records that were ended.

use vstd::prelude::*;
use crate::event::{apply_pair, update_event, Event, EventView};
use crate::event_map::EventMap;
use crate::text::{
    find_from, lemma_find_unique, matches_at, occurs_at, pieces, split, split_once, split_ranges,
    to_chars,
};

verus! {

/// The line that ends an event starts with this marker.
pub const END_MARKER: &'static str = "END:VEVENT";

/// What a calendar line says.
pub enum LineView {
    /// The record in progress is complete.
    Boundary,
    /// A key and the raw value that belongs to it.
    Pair(Seq<char>, Seq<char>),
    /// Neither of the two.
    Unparseable,
}

/// A calendar line, cut into its parts.
#[derive(Clone, Copy, Debug, PartialEq, Eq)]
pub enum Line<'a> {
    /// The record in progress is complete.
    Boundary,
    /// A key and the raw value that belongs to it.
    Pair { key: &'a str, value: &'a str },
    /// Neither of the two.
    Unparseable,
}

impl<'a> View for Line<'a> {
    type V = LineView;

    open spec fn view(&self) -> LineView {
        match *self {
            Line::Boundary => LineView::Boundary,
            Line::Pair { key, value } => LineView::Pair(key@, value@),
            Line::Unparseable => LineView::Unparseable,
        }
    }
}

/// Reads a line: one that starts with the end marker is the boundary; any
/// other is cut at its first `;` or, where it has none, at its first `:`; what
/// has neither cannot be read.
pub open spec fn classify(line: Seq<char>) -> LineView {
    if END_MARKER@.is_prefix_of(line) {
        LineView::Boundary
    } else {
        match split_once(line, seq![';']) {
            Some((key, value)) => LineView::Pair(key, value),
            None => match split_once(line, seq![':']) {
                Some((key, value)) => LineView::Pair(key, value),
                None => LineView::Unparseable,
            },
        }
    }
}

/// Cuts a calendar line into its parts.
pub fn split_line<'a>(line: &'a str) -> (r: Line<'a>)
    ensures
        r@ == classify(line@),
{
    let chars = to_chars(line);
    let marker = to_chars(END_MARKER);
    proof {
        assert(line@.skip(0) =~= line@);
    }
    if matches_at(&chars, 0, &marker) {
        return Line::Boundary;
    }
    let mut sep: Vec<char> = Vec::new();
    sep.push(';');
    assert(sep@ =~= seq![';']);
    let i = find_from(&chars, 0, &sep);
    if i < chars.len() {
        proof {
            assert(line@.subrange(0, i as int) =~= line@.take(i as int));
            assert(line@.subrange(i + 1, line@.len() as int) =~= line@.skip(i + 1));
        }
        return Line::Pair {
            key: line.substring_char(0, i),
            value: line.substring_char(i + 1, chars.len()),
        };
    }
    sep.set(0, ':');
    assert(sep@ =~= seq![':']);
    let j = find_from(&chars, 0, &sep);
    if j < chars.len() {
        proof {
            assert(line@.subrange(0, j as int) =~= line@.take(j as int));
            assert(line@.subrange(j + 1, line@.len() as int) =~= line@.skip(j + 1));
        }
        return Line::Pair {
            key: line.substring_char(0, j),
            value: line.substring_char(j + 1, chars.len()),
        };
    }
    Line::Unparseable
}

/// What the parser holds between two lines.
pub struct ParserView {
    /// The finished records.
    pub events: Map<Seq<char>, EventView>,
    /// The record in progress.
    pub current: EventView,
}

/// What became of a line.
#[derive(Clone, Copy, Debug, PartialEq, Eq, Structural)]
pub enum LineOutcome {
    /// The record in progress was finished and a new one begun.
    Finished,
    /// The line set a field of the record in progress.
    Stored,
    /// The line had a key that sets no field; it was dropped.
    UnknownKey,
    /// The line could not be read; it was dropped.
    Unparseable,
}

/// The state before any line.
pub open spec fn initial() -> ParserView {
    ParserView { events: Map::empty(), current: EventView::empty() }
}

/// The state after `line`: the boundary moves the record in progress into the
/// map, under its identifier, and begins an empty one; a pair is applied to
/// the record in progress; any other line changes nothing.
pub open spec fn step(st: ParserView, line: Seq<char>) -> ParserView {
    match classify(line) {
        LineView::Boundary => ParserView {
            events: st.events.insert(st.current.uid, st.current),
            current: EventView::empty(),
        },
        LineView::Pair(key, value) => ParserView {
            events: st.events,
            current: apply_pair(st.current, key, value),
        },
        LineView::Unparseable => st,
    }
}

/// The state after all of `lines`, in their order.
pub open spec fn run(st: ParserView, lines: Seq<Seq<char>>) -> ParserView
    decreases lines.len(),
{
    if lines.len() == 0 {
        st
    } else {
        step(run(st, lines.drop_last()), lines.last())
    }
}

/// What `feed_line` answers for `line`.
pub open spec fn outcome_of(line: Seq<char>) -> LineOutcome {
    match classify(line) {
        LineView::Boundary => LineOutcome::Finished,
        LineView::Pair(key, value) => if crate::event::field_of_key(key).is_some() {
            LineOutcome::Stored
        } else {
            LineOutcome::UnknownKey
        },
        LineView::Unparseable => LineOutcome::Unparseable,
    }
}

/// A line with neither `;` nor `:` cannot be read.
pub proof fn lemma_plain_line_unparseable(line: Seq<char>)
    requires
        !line.contains(';'),
        !line.contains(':'),
    ensures
        classify(line) == LineView::Unparseable,
{
    reveal_strlit("END:VEVENT");
    if END_MARKER@.is_prefix_of(line) {
        assert(line[3] == END_MARKER@[3]);
        assert(line.contains(':'));
    }
    assert forall|j: int| 0 <= j < line.len() implies !occurs_at(line, seq![';'], j) by {
        if occurs_at(line, seq![';'], j) {
            assert(line.skip(j)[0] == seq![';'][0]);
            assert(line[j] == ';');
        }
    }
    lemma_find_unique(line, seq![';'], line.len() as int);
    assert forall|j: int| 0 <= j < line.len() implies !occurs_at(line, seq![':'], j) by {
        if occurs_at(line, seq![':'], j) {
            assert(line.skip(j)[0] == seq![':'][0]);
            assert(line[j] == ':');
        }
    }
    lemma_find_unique(line, seq![':'], line.len() as int);
}

/// A line with neither `;` nor `:` is dropped: the state stays as it was.
pub proof fn lemma_plain_line_ignored(st: ParserView, line: Seq<char>)
    requires
        !line.contains(';'),
        !line.contains(':'),
    ensures
        step(st, line) == st,
        outcome_of(line) == LineOutcome::Unparseable,
{
    lemma_plain_line_unparseable(line);
}

/// Reading `a` and then `b` is reading the lines of both in one go.
pub proof fn lemma_run_concat(st: ParserView, a: Seq<Seq<char>>, b: Seq<Seq<char>>)
    ensures
        run(st, a + b) == run(run(st, a), b),
    decreases b.len(),
{
    if b.len() == 0 {
        assert(a + b =~= a);
    } else {
        assert((a + b).drop_last() =~= a + b.drop_last());
        assert((a + b).last() == b.last());
        lemma_run_concat(st, a, b.drop_last());
    }
}

/// A line with neither `;` nor `:` may stand anywhere among the lines of a
/// calendar: what is read is the same as without it.
pub proof fn lemma_plain_line_anywhere(
    st: ParserView,
    before: Seq<Seq<char>>,
    line: Seq<char>,
    after: Seq<Seq<char>>,
)
    requires
        !line.contains(';'),
        !line.contains(':'),
    ensures
        run(st, before + seq![line] + after) == run(st, before + after),
{
    lemma_run_concat(st, before + seq![line], after);
    lemma_run_concat(st, before, after);
    lemma_plain_line_ignored(run(st, before), line);
    assert((before + seq![line]).drop_last() =~= before);
    assert((before + seq![line]).last() == line);
}

/// At the boundary the record in progress goes into the map under whatever
/// identifier it has. One whose identifier was never set has the empty one,
/// and is found under the empty key.
pub proof fn lemma_boundary_files_record(st: ParserView, line: Seq<char>)
    requires
        END_MARKER@.is_prefix_of(line),
    ensures
        step(st, line).events.contains_key(st.current.uid),
        step(st, line).events[st.current.uid] == st.current,
        step(st, line).current == EventView::empty(),
        st.current.uid.len() == 0 ==> step(st, line).events.contains_key(Seq::<char>::empty())
            && step(st, line).events[Seq::<char>::empty()] == st.current,
{
    if st.current.uid.len() == 0 {
        assert(st.current.uid =~= Seq::<char>::empty());
    }
}

/// Reads calendar lines one by one.
pub struct Parser {
    events: EventMap,
    current: Event,
}

impl View for Parser {
    type V = ParserView;

    closed spec fn view(&self) -> ParserView {
        ParserView { events: self.events@, current: self.current@ }
    }
}

impl Parser {
    /// A parser that has seen no line.
    pub fn new() -> (r: Parser)
        ensures
            r@ == initial(),
    {
        Parser { events: EventMap::new(), current: Event::default() }
    }

    /// Handles one line.
    pub fn feed_line(&mut self, line: &str) -> (outcome: LineOutcome)
        ensures
            final(self)@ == step(old(self)@, line@),
            outcome == outcome_of(line@),
    {
        match split_line(line) {
            Line::Boundary => {
                let mut done = Event::default();
                core::mem::swap(&mut self.current, &mut done);
                self.events.insert(done);
                LineOutcome::Finished
            },
            Line::Pair { key, value } => {
                if update_event(key, value, &mut self.current) {
                    LineOutcome::Stored
                } else {
                    LineOutcome::UnknownKey
                }
            },
            Line::Unparseable => LineOutcome::Unparseable,
        }
    }

    /// The record in progress.
    pub fn current(&self) -> (ev: &Event)
        ensures
            ev@ == self@.current,
    {
        &self.current
    }

    /// The finished records so far.
    pub fn events(&self) -> (m: &EventMap)
        ensures
            m@ == self@.events,
    {
        &self.events
    }

    /// Ends the reading. The finished records are handed out; a record still
    /// in progress is not among them.
    pub fn finish(self) -> (m: EventMap)
        ensures
            m@ == self@.events,
    {
        self.events
    }
}

/// The texts of `lines`.
pub open spec fn line_views(lines: Seq<String>) -> Seq<Seq<char>> {
    lines.map_values(|l: String| l@)
}

/// Reads the calendar that consists of `lines` and hands out its finished
/// records.
pub fn parse_lines(lines: &Vec<String>) -> (m: EventMap)
    ensures
        m@ == run(initial(), line_views(lines@)).events,
{
    let mut parser = Parser::new();
    let mut i: usize = 0;
    assert(line_views(lines@).take(0) =~= Seq::<Seq<char>>::empty());
    while i < lines.len()
        invariant
            i <= lines.len(),
            parser@ == run(initial(), line_views(lines@).take(i as int)),
        decreases lines.len() - i,
    {
        proof {
            let all = line_views(lines@);
            assert(all.take(i + 1).drop_last() =~= all.take(i as int));
            assert(all.take(i + 1).last() == lines@[i as int]@);
        }
        parser.feed_line(lines[i].as_str());
        i += 1;
    }
    assert(line_views(lines@).take(i as int) =~= line_views(lines@));
    parser.finish()
}

/// `line` without the carriage return at its end, if it has one.
pub open spec fn without_return(line: Seq<char>) -> Seq<char> {
    if line.len() > 0 && line.last() == '\r' {
        line.drop_last()
    } else {
        line
    }
}

/// The lines of `text`. A line ends with a line feed, or with a carriage
/// return and a line feed; neither belongs to the line. What stands after the
/// last line feed is a line too, as it is, unless it is empty.
pub open spec fn lines_of(text: Seq<char>) -> Seq<Seq<char>> {
    let parts = split(text, seq!['\n']);
    let ended = parts.drop_last().map_values(|p: Seq<char>| without_return(p));
    if parts.last().len() == 0 {
        ended
    } else {
        ended.push(parts.last())
    }
}

/// Cuts `text` into its lines.
pub fn split_lines(text: &str) -> (lines: Vec<String>)
    ensures
        line_views(lines@) == lines_of(text@),
{
    let chars = to_chars(text);
    let mut feed: Vec<char> = Vec::new();
    feed.push('\n');
    assert(feed@ =~= seq!['\n']);
    let ranges = split_ranges(&chars, &feed);
    let ghost parts = split(text@, seq!['\n']);
    let ghost ended = parts.drop_last().map_values(|p: Seq<char>| without_return(p));
    let mut lines: Vec<String> = Vec::new();
    let last = ranges.len() - 1;
    let mut k: usize = 0;
    assert(line_views(lines@) =~= ended.take(0));
    while k < last
        invariant
            chars@ == text@,
            last == ranges.len() - 1,
            k <= last,
            parts == pieces(chars@, ranges@),
            ended == parts.drop_last().map_values(|p: Seq<char>| without_return(p)),
            forall|j: int|
                0 <= j < ranges.len() ==> (#[trigger] ranges[j]).0 <= ranges[j].1 <= chars.len(),
            line_views(lines@) == ended.take(k as int),
        decreases last - k,
    {
        let from = ranges[k].0;
        let mut to = ranges[k].1;
        let ghost part = chars@.subrange(from as int, to as int);
        assert(part == parts[k as int]);
        if from < to && chars[to - 1] == '\r' {
            to -= 1;
        }
        assert(chars@.subrange(from as int, to as int) =~= without_return(part));
        let ghost before = lines@;
        lines.push(text.substring_char(from, to).to_owned());
        proof {
            assert(line_views(lines@) =~= line_views(before).push(without_return(part)));
            assert(ended.take(k + 1) =~= ended.take(k as int).push(ended[k as int]));
        }
        k += 1;
    }
    assert(ended.take(last as int) =~= ended);
    let from = ranges[last].0;
    let to = ranges[last].1;
    assert(chars@.subrange(from as int, to as int) == parts[last as int]);
    if from < to {
        let ghost before = lines@;
        lines.push(text.substring_char(from, to).to_owned());
        assert(line_views(lines@) =~= line_views(before).push(parts.last()));
    }
    lines
}

/// Reads the calendar `text` and hands out its finished records.
pub fn parse_calendar(text: &str) -> (m: EventMap)
    ensures
        m@ == run(initial(), lines_of(text@)).events,
{
    let lines = split_lines(text);
    parse_lines(&lines)
}

} // verus!
