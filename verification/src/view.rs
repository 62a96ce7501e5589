//! What is shown of an event: its address, its state code, its summary line
//! and its content.
//!
//! All of it is computed from the record whenever it is asked for; nothing is
//! kept beside the record.

use vstd::prelude::*;
use crate::address::{decompose, Address, AddressView};
use crate::event::{Event, EventView};
use crate::text::{
    append_decimal, decimal, exclusive, lemma_substitute_any_order, lemma_substitute_token,
    pairs_among, signed_decimal, signed_decimal_string, substitute, substitute_str, texts_of,
    zero_padded, zero_padded_string,
};
use crate::timestamp::{
    civil_date_of, local_offset_now, timestamp_of, CivilDate, TimestampError,
};

verus! {

/// The state code of an event whose location gives no address.
pub const UNKNOWN_STATE: &'static str = "UN";

/// What follows an address line in the content.
pub const LINE_BREAK: &'static str = "<br />";

/// The page that the content of an event is made from. Each token in double
/// braces stands for a value of the event.
pub const HTML_TEMPLATE: &'static str =
    "<article class=\"event\">\n    <h1>{{event_name}}</h1>\n    <p class=\"event-date\">{{event_date}}</p>\n    <address>\n        {{address1}}{{address2}}{{address3}}{{city}}, {{state}} {{zip}}\n    </address>\n</article>\n";

/// The address that is shown for the location: the one that the location
/// gives or, where it gives none, the whole location as the first address
/// line and nothing else.
pub open spec fn shown_address(location: Seq<char>) -> AddressView {
    match decompose(location) {
        Some(a) => a,
        None => AddressView {
            addr1: location,
            addr2: Seq::empty(),
            addr3: Seq::empty(),
            city: Seq::empty(),
            state: Seq::empty(),
            zip: Seq::empty(),
            country: Seq::empty(),
        },
    }
}

/// The state code for the location: that of its address or, where it gives
/// no address, the code for an unknown state.
pub open spec fn state_code(location: Seq<char>) -> Seq<char> {
    match decompose(location) {
        Some(a) => a.state,
        None => UNKNOWN_STATE@,
    }
}

/// The summary line: year, month and day without padding, the state code in
/// brackets, and the title.
pub open spec fn summary_text(date: CivilDate, state: Seq<char>, title: Seq<char>) -> Seq<char> {
    signed_decimal(date.year as int) + "-"@ + decimal(date.month as nat) + "-"@ + decimal(
        date.day as nat,
    ) + " ("@ + state + ") "@ + title
}

/// The date as it stands in the content: the year padded with zeros to four
/// characters, month and day to two.
pub open spec fn date_text(date: CivilDate) -> Seq<char> {
    zero_padded(signed_decimal(date.year as int), 4) + "-"@ + zero_padded(
        decimal(date.month as nat),
        2,
    ) + "-"@ + zero_padded(decimal(date.day as nat), 2)
}

/// An address line as it stands in the content: followed by a line break, or
/// nothing at all where the line is empty.
pub open spec fn broken_line(line: Seq<char>) -> Seq<char> {
    if line.len() > 0 {
        line + LINE_BREAK@
    } else {
        Seq::empty()
    }
}

/// The tokens of the template, in the order of `template_values`.
pub open spec fn template_tokens() -> Seq<Seq<char>> {
    seq![
        "{{event_name}}"@,
        "{{event_date}}"@,
        "{{address1}}"@,
        "{{address2}}"@,
        "{{address3}}"@,
        "{{city}}"@,
        "{{state}}"@,
        "{{zip}}"@,
    ]
}

/// The values that take the places of the tokens: the name of the event, its
/// date, the three address lines, city, state and postal code.
pub open spec fn template_values(name: Seq<char>, date: Seq<char>, a: AddressView) -> Seq<
    Seq<char>,
> {
    seq![
        name,
        date,
        broken_line(a.addr1),
        broken_line(a.addr2),
        broken_line(a.addr3),
        a.city,
        a.state,
        a.zip,
    ]
}

/// The template with its tokens replaced by the values of an event. Only the
/// tokens of the template itself are replaced, each where it stands; a value
/// is put in as it is, also where it holds what looks like a token.
pub open spec fn fill_template(
    template: Seq<char>,
    name: Seq<char>,
    date: Seq<char>,
    a: AddressView,
) -> Seq<char> {
    substitute(template, template_tokens(), template_values(name, date, a))
}

/// No token of the template is the start of another one, so that no place of
/// a template can be taken for two tokens.
pub proof fn lemma_template_tokens_exclusive()
    ensures
        exclusive(template_tokens()),
{
    reveal_strlit("{{event_name}}");
    reveal_strlit("{{event_date}}");
    reveal_strlit("{{address1}}");
    reveal_strlit("{{address2}}");
    reveal_strlit("{{address3}}");
    reveal_strlit("{{city}}");
    reveal_strlit("{{state}}");
    reveal_strlit("{{zip}}");
    let t = template_tokens();
    assert forall|i: int, j: int| 0 <= i < t.len() && 0 <= j < t.len() && i != j implies !(
    #[trigger] t[i]).is_prefix_of(#[trigger] t[j]) by {
        let d: int = if i <= 1 && j <= 1 {
            8
        } else if 2 <= i <= 4 && 2 <= j <= 4 {
            9
        } else {
            2
        };
        if t[i].is_prefix_of(t[j]) {
            assert(t[i][d] == t[j].subrange(0, t[i].len() as int)[d]);
        }
    }
}

/// The content does not depend on the order in which the tokens are listed:
/// any list of the same tokens with the same values fills a template alike.
pub proof fn lemma_fill_template_any_order(
    template: Seq<char>,
    name: Seq<char>,
    date: Seq<char>,
    a: AddressView,
    tokens: Seq<Seq<char>>,
    values: Seq<Seq<char>>,
)
    requires
        pairs_among(template_tokens(), template_values(name, date, a), tokens, values),
        pairs_among(tokens, values, template_tokens(), template_values(name, date, a)),
    ensures
        substitute(template, tokens, values) == fill_template(template, name, date, a),
{
    lemma_template_tokens_exclusive();
    lemma_substitute_any_order(
        template,
        template_tokens(),
        template_values(name, date, a),
        tokens,
        values,
    );
}

/// Where a template starts with the token for the name of the event, the
/// content starts with the name as it is, whatever the name holds.
pub proof fn lemma_name_stands_as_it_is(
    template: Seq<char>,
    name: Seq<char>,
    date: Seq<char>,
    a: AddressView,
)
    requires
        "{{event_name}}"@.is_prefix_of(template),
    ensures
        fill_template(template, name, date, a) == name + fill_template(
            template.skip("{{event_name}}"@.len() as int),
            name,
            date,
            a,
        ),
{
    reveal_strlit("{{event_name}}");
    lemma_template_tokens_exclusive();
    lemma_substitute_token(template, template_tokens(), template_values(name, date, a), 0);
}

/// The summary line of the event, with the date of its instant at `offset`
/// seconds east of UTC.
pub open spec fn summary_of(ev: EventView, offset: i32) -> Result<Seq<char>, TimestampError> {
    match timestamp_of(ev.dtstart) {
        Err(e) => Err(e),
        Ok(t) => match civil_date_of(t, offset) {
            Err(e) => Err(e),
            Ok(date) => Ok(summary_text(date, state_code(ev.location), ev.summary)),
        },
    }
}

/// The content of the event: the template filled with its title, the date of
/// its instant in UTC and the address that is shown for its location.
pub open spec fn content_of(ev: EventView) -> Result<Seq<char>, TimestampError> {
    match timestamp_of(ev.dtstart) {
        Err(e) => Err(e),
        Ok(t) => match civil_date_of(t, 0) {
            Err(e) => Err(e),
            Ok(date) => Ok(
                fill_template(
                    HTML_TEMPLATE@,
                    ev.summary,
                    date_text(date),
                    shown_address(ev.location),
                ),
            ),
        },
    }
}

/// A text or an error, with the text as a sequence of characters.
pub open spec fn text_of(r: Result<String, TimestampError>) -> Result<Seq<char>, TimestampError> {
    match r {
        Ok(s) => Ok(s@),
        Err(e) => Err(e),
    }
}

/// Writes the summary line.
pub fn render_summary(date: CivilDate, state: &str, title: &str) -> (r: String)
    ensures
        r@ == summary_text(date, state@, title@),
{
    let mut out = signed_decimal_string(date.year as i64);
    out.append("-");
    append_decimal(&mut out, date.month as u64);
    out.append("-");
    append_decimal(&mut out, date.day as u64);
    out.append(" (");
    out.append(state);
    out.append(") ");
    out.append(title);
    assert(out@ =~= summary_text(date, state@, title@));
    out
}

/// Writes the date as it stands in the content.
pub fn render_date(date: CivilDate) -> (r: String)
    ensures
        r@ == date_text(date),
{
    let year = signed_decimal_string(date.year as i64);
    let mut month = String::new();
    append_decimal(&mut month, date.month as u64);
    let mut day = String::new();
    append_decimal(&mut day, date.day as u64);
    assert(month@ =~= decimal(date.month as nat));
    assert(day@ =~= decimal(date.day as nat));
    let mut out = zero_padded_string(year.as_str(), 4);
    out.append("-");
    out.append(zero_padded_string(month.as_str(), 2).as_str());
    out.append("-");
    out.append(zero_padded_string(day.as_str(), 2).as_str());
    assert(out@ =~= date_text(date));
    out
}

/// Writes an address line as it stands in the content.
pub fn render_line(line: &str) -> (r: String)
    ensures
        r@ == broken_line(line@),
{
    let mut out = String::new();
    if line.unicode_len() > 0 {
        out.append(line);
        out.append(LINE_BREAK);
        assert(out@ =~= line@ + LINE_BREAK@);
    }
    out
}

/// Fills `template` with the values of an event.
pub fn render_content(template: &str, name: &str, date: CivilDate, address: &Address) -> (r:
    String)
    ensures
        r@ == fill_template(template@, name@, date_text(date), address@),
{
    let day = render_date(date);
    let line1 = render_line(address.addr1);
    let line2 = render_line(address.addr2);
    let line3 = render_line(address.addr3);
    let mut tokens: Vec<&str> = Vec::new();
    let mut values: Vec<&str> = Vec::new();
    tokens.push("{{event_name}}");
    values.push(name);
    tokens.push("{{event_date}}");
    values.push(day.as_str());
    tokens.push("{{address1}}");
    values.push(line1.as_str());
    tokens.push("{{address2}}");
    values.push(line2.as_str());
    tokens.push("{{address3}}");
    values.push(line3.as_str());
    tokens.push("{{city}}");
    values.push(address.city);
    tokens.push("{{state}}");
    values.push(address.state);
    tokens.push("{{zip}}");
    values.push(address.zip);
    assert(texts_of(tokens@) =~= template_tokens());
    assert(texts_of(values@) =~= template_values(name@, date_text(date), address@));
    substitute_str(template, &tokens, &values)
}

impl Event {
    /// The address that is shown for the event.
    pub fn address(&self) -> (r: Address<'_>)
        ensures
            r@ == shown_address(self@.location),
    {
        match Address::from(self.location.as_str()) {
            Some(a) => a,
            None => {
                let nothing = self.location.as_str().substring_char(0, 0);
                assert(nothing@ =~= Seq::<char>::empty());
                Address {
                    addr1: self.location.as_str(),
                    addr2: nothing,
                    addr3: nothing,
                    city: nothing,
                    state: nothing,
                    zip: nothing,
                    country: nothing,
                }
            },
        }
    }

    /// The state code of the event.
    pub fn state(&self) -> (r: &str)
        ensures
            r@ == state_code(self@.location),
    {
        match Address::from(self.location.as_str()) {
            Some(a) => a.state,
            None => UNKNOWN_STATE,
        }
    }

    /// The summary line of the event, with the date of its instant at
    /// `offset` seconds east of UTC.
    pub fn summary_at(&self, offset: i32) -> (r: Result<String, TimestampError>)
        ensures
            text_of(r) == summary_of(self@, offset),
    {
        match self.date() {
            Err(e) => Err(e),
            Ok(t) => match t.date_at(offset) {
                Err(e) => Err(e),
                Ok(date) => Ok(render_summary(date, self.state(), self.summary.as_str())),
            },
        }
    }

    /// The summary line of the event, with the date of its instant in the
    /// local time of this machine, at the offset that holds now.
    pub fn summary(&self) -> (r: Result<String, TimestampError>)
        ensures
            exists|offset: i32|
                -86_400 < offset < 86_400 && text_of(r) == #[trigger] summary_of(self@, offset),
    {
        let offset = local_offset_now();
        let r = self.summary_at(offset);
        assert(-86_400 < offset < 86_400 && text_of(r) == summary_of(self@, offset));
        r
    }

    /// The content of the event.
    pub fn content(&self) -> (r: Result<String, TimestampError>)
        ensures
            text_of(r) == content_of(self@),
    {
        match self.date() {
            Err(e) => Err(e),
            Ok(t) => match t.date_utc() {
                Err(e) => Err(e),
                Ok(date) => {
                    let address = self.address();
                    Ok(render_content(HTML_TEMPLATE, self.summary.as_str(), date, &address))
                },
            },
        }
    }
}

} // verus!
