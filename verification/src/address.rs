//! Postal addresses out of location texts.
//!
//! A location is a list of fields with `\,` between them. The last field is
//! the country; before it stand the postal code, the state, the city and up to
//! three address lines. A location whose postal code or state is not of the
//! expected form gives no address at all.

use vstd::prelude::*;
use crate::text::{
    all_in, all_in_range, first_outside, leading, pieces, split, split_ranges, to_chars, trim,
    trim_range, CharClass,
};

verus! {

/// What stands between two fields of a location.
pub const SEPARATOR: &'static str = "\\,";

/// What ends a line of an address that is written out.
pub const LINE_END: &'static str = "\n";

/// A postal address. Its fields are parts of the location text that it was
/// read from; a field that the location does not have is empty.
#[derive(Clone, Copy, Debug, PartialEq, Eq)]
pub struct Address<'a> {
    pub addr1: &'a str,
    pub addr2: &'a str,
    pub addr3: &'a str,
    pub city: &'a str,
    pub state: &'a str,
    pub zip: &'a str,
    pub country: &'a str,
}

/// What an `Address` holds, as sequences of characters.
pub struct AddressView {
    pub addr1: Seq<char>,
    pub addr2: Seq<char>,
    pub addr3: Seq<char>,
    pub city: Seq<char>,
    pub state: Seq<char>,
    pub zip: Seq<char>,
    pub country: Seq<char>,
}

impl<'a> View for Address<'a> {
    type V = AddressView;

    open spec fn view(&self) -> AddressView {
        AddressView {
            addr1: self.addr1@,
            addr2: self.addr2@,
            addr3: self.addr3@,
            city: self.city@,
            state: self.state@,
            zip: self.zip@,
            country: self.country@,
        }
    }
}

impl AddressView {
    /// The address without any field.
    pub open spec fn empty() -> AddressView {
        AddressView {
            addr1: Seq::empty(),
            addr2: Seq::empty(),
            addr3: Seq::empty(),
            city: Seq::empty(),
            state: Seq::empty(),
            zip: Seq::empty(),
            country: Seq::empty(),
        }
    }

    /// The state is empty or a state code, and the postal code holds nothing
    /// but digits.
    pub open spec fn well_formed(self) -> bool {
        &&& self.state.len() == 0 || is_state(self.state)
        &&& is_postal(self.zip)
    }
}

/// A field as it is stored: without the backslashes around it, then without
/// the white space around what is left.
pub open spec fn clean(field: Seq<char>) -> Seq<char> {
    trim(trim(field, CharClass::Backslash), CharClass::Whitespace)
}

/// The cleaned field at position `i` from the end of `fields`; empty where
/// there are not that many fields.
pub open spec fn field(fields: Seq<Seq<char>>, i: int) -> Seq<char> {
    if 0 <= i < fields.len() {
        clean(fields[fields.len() - 1 - i])
    } else {
        Seq::empty()
    }
}

/// A postal code holds digits only.
pub open spec fn is_postal(s: Seq<char>) -> bool {
    all_in(s, CharClass::AsciiDigit)
}

/// A state code is two capital letters.
pub open spec fn is_state(s: Seq<char>) -> bool {
    s.len() == 2 && all_in(s, CharClass::AsciiUppercase)
}

/// Why a location gives no address.
#[derive(Clone, Copy, Debug, PartialEq, Eq)]
pub enum AddressError<'a> {
    /// The postal code `field` holds `offending`, which is no digit.
    Postal { field: &'a str, offending: char },
    /// The state `field` is not two capital letters.
    State { field: &'a str },
}

/// What an `AddressError` holds.
pub enum AddressErrorView {
    Postal { field: Seq<char>, offending: char },
    State { field: Seq<char> },
}

impl<'a> View for AddressError<'a> {
    type V = AddressErrorView;

    open spec fn view(&self) -> AddressErrorView {
        match *self {
            AddressError::Postal { field, offending } => AddressErrorView::Postal {
                field: field@,
                offending,
            },
            AddressError::State { field } => AddressErrorView::State { field: field@ },
        }
    }
}

/// The address that the location `s` gives, or why it gives none. Counted
/// from the end, its fields are the country, the postal code, the state, the
/// city and the address lines 3, 2 and 1; fields before those are not looked
/// at. A postal code that holds something else than digits is refused, with
/// the first character of it that is no digit; then a state that is not two
/// capital letters.
pub open spec fn examine(s: Seq<char>) -> Result<AddressView, AddressErrorView> {
    let fields = split(s, SEPARATOR@);
    let zip = field(fields, 1);
    let state = field(fields, 2);
    if fields.len() >= 2 && !is_postal(zip) {
        Err(
            AddressErrorView::Postal {
                field: zip,
                offending: zip[leading(zip, CharClass::AsciiDigit)],
            },
        )
    } else if fields.len() >= 3 && !is_state(state) {
        Err(AddressErrorView::State { field: state })
    } else {
        Ok(
            AddressView {
                addr1: field(fields, 6),
                addr2: field(fields, 5),
                addr3: field(fields, 4),
                city: field(fields, 3),
                state,
                zip,
                country: field(fields, 0),
            },
        )
    }
}

/// The address that the location `s` gives, if it gives one: there is no
/// address where the location has a postal code that is no postal code, or a
/// state that is no state code.
pub open spec fn decompose(s: Seq<char>) -> Option<AddressView> {
    match examine(s) {
        Ok(a) => Some(a),
        Err(_) => None,
    }
}

/// An address or the reason why there is none, as their views.
pub open spec fn examined_view(r: Result<Address, AddressError>) -> Result<
    AddressView,
    AddressErrorView,
> {
    match r {
        Ok(a) => Ok(a@),
        Err(e) => Err(e@),
    }
}

/// An address that a location gives is well formed.
pub proof fn lemma_decompose_well_formed(s: Seq<char>)
    ensures
        decompose(s) matches Some(a) ==> a.well_formed(),
{
}

/// A location of at least two fields whose postal code holds something else
/// than digits gives no address; nor does one of at least three fields whose
/// state is not two capital letters.
pub proof fn lemma_decompose_rejects(s: Seq<char>)
    ensures
        split(s, SEPARATOR@).len() >= 2 && !is_postal(field(split(s, SEPARATOR@), 1))
            ==> decompose(s).is_none(),
        split(s, SEPARATOR@).len() >= 3 && !is_state(field(split(s, SEPARATOR@), 2))
            ==> decompose(s).is_none(),
{
}

/// The text that an address is written out as: each address line that is not
/// empty on a line of its own, then the city, a comma, the state and the
/// postal code on the last line.
pub open spec fn address_text(a: AddressView) -> Seq<char> {
    text_line(a.addr1) + text_line(a.addr2) + text_line(a.addr3) + a.city + ", "@ + a.state + " "@
        + a.zip + LINE_END@
}

/// `s` and a line end, or nothing where `s` is empty.
pub open spec fn text_line(s: Seq<char>) -> Seq<char> {
    if s.len() > 0 {
        s + LINE_END@
    } else {
        Seq::empty()
    }
}

/// The bounds in `chars` of the cleaned field at position `i` from the end.
fn field_range(chars: &Vec<char>, ranges: &Vec<(usize, usize)>, i: usize) -> (r: (usize, usize))
    requires
        forall|k: int| 0 <= k < ranges.len() ==> (#[trigger] ranges[k]).0 <= ranges[k].1 <= chars.len(),
    ensures
        r.0 <= r.1 <= chars.len(),
        chars@.subrange(r.0 as int, r.1 as int) == field(pieces(chars@, ranges@), i as int),
{
    if i < ranges.len() {
        let whole = ranges[ranges.len() - 1 - i];
        let inner = trim_range(chars, whole.0, whole.1, CharClass::Backslash);
        trim_range(chars, inner.0, inner.1, CharClass::Whitespace)
    } else {
        assert(chars@.subrange(0, 0) =~= Seq::<char>::empty());
        (0, 0)
    }
}

impl<'a> Address<'a> {
    /// Reads the address out of the location `s`, or says why it has none.
    pub fn parse(s: &'a str) -> (r: Result<Address<'a>, AddressError<'a>>)
        ensures
            examined_view(r) == examine(s@),
    {
        let chars = to_chars(s);
        let sep = to_chars(SEPARATOR);
        proof {
            reveal_strlit("\\,");
        }
        let ranges = split_ranges(&chars, &sep);
        let country = field_range(&chars, &ranges, 0);
        let zip = field_range(&chars, &ranges, 1);
        let bad = first_outside(&chars, zip.0, zip.1, CharClass::AsciiDigit);
        if ranges.len() >= 2 && bad < zip.1 {
            assert(chars@.subrange(zip.0 as int, zip.1 as int)[bad - zip.0] == chars@[bad as int]);
            return Err(
                AddressError::Postal { field: s.substring_char(zip.0, zip.1), offending: chars[bad] },
            );
        }
        let state = field_range(&chars, &ranges, 2);
        if ranges.len() >= 3 && !(state.1 - state.0 == 2 && all_in_range(
            &chars,
            state.0,
            state.1,
            CharClass::AsciiUppercase,
        )) {
            return Err(AddressError::State { field: s.substring_char(state.0, state.1) });
        }
        let city = field_range(&chars, &ranges, 3);
        let addr3 = field_range(&chars, &ranges, 4);
        let addr2 = field_range(&chars, &ranges, 5);
        let addr1 = field_range(&chars, &ranges, 6);
        Ok(
            Address {
                addr1: s.substring_char(addr1.0, addr1.1),
                addr2: s.substring_char(addr2.0, addr2.1),
                addr3: s.substring_char(addr3.0, addr3.1),
                city: s.substring_char(city.0, city.1),
                state: s.substring_char(state.0, state.1),
                zip: s.substring_char(zip.0, zip.1),
                country: s.substring_char(country.0, country.1),
            },
        )
    }

    /// Reads the address out of the location `s`.
    pub fn from(s: &'a str) -> (r: Option<Address<'a>>)
        ensures
            match r {
                Some(a) => decompose(s@) == Some(a@),
                None => decompose(s@).is_none(),
            },
    {
        match Address::parse(s) {
            Ok(a) => Some(a),
            Err(_) => None,
        }
    }

    /// The first address line, unless it is empty.
    pub fn addr1(&self) -> (r: Option<&'a str>)
        ensures
            r.is_some() == (self@.addr1.len() > 0),
            r matches Some(line) ==> line@ == self@.addr1,
    {
        if self.addr1.unicode_len() > 0 {
            Some(self.addr1)
        } else {
            None
        }
    }

    /// The second address line, unless it is empty.
    pub fn addr2(&self) -> (r: Option<&'a str>)
        ensures
            r.is_some() == (self@.addr2.len() > 0),
            r matches Some(line) ==> line@ == self@.addr2,
    {
        if self.addr2.unicode_len() > 0 {
            Some(self.addr2)
        } else {
            None
        }
    }

    /// The third address line, unless it is empty.
    pub fn addr3(&self) -> (r: Option<&'a str>)
        ensures
            r.is_some() == (self@.addr3.len() > 0),
            r matches Some(line) ==> line@ == self@.addr3,
    {
        if self.addr3.unicode_len() > 0 {
            Some(self.addr3)
        } else {
            None
        }
    }

    /// Writes the address out.
    pub fn to_string(&self) -> (r: String)
        ensures
            r@ == address_text(self@),
    {
        let mut out = String::new();
        if self.addr1.unicode_len() > 0 {
            out.append(self.addr1);
            out.append(LINE_END);
        }
        if self.addr2.unicode_len() > 0 {
            out.append(self.addr2);
            out.append(LINE_END);
        }
        if self.addr3.unicode_len() > 0 {
            out.append(self.addr3);
            out.append(LINE_END);
        }
        out.append(self.city);
        out.append(", ");
        out.append(self.state);
        out.append(" ");
        out.append(self.zip);
        out.append(LINE_END);
        assert(out@ =~= address_text(self@));
        out
    }
}

impl<'a> Default for Address<'a> {
    fn default() -> (r: Address<'a>)
        ensures
            r@ == AddressView::empty(),
    {
        proof {
            reveal_strlit("");
        }
        let r = Address { addr1: "", addr2: "", addr3: "", city: "", state: "", zip: "", country: "" };
        assert(""@ =~= Seq::<char>::empty());
        r
    }
}

} // verus!
