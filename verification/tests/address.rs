use plam_event::address::{Address, AddressError};

#[test]
fn full_location_gives_all_fields() {
    let a = Address::from("123 Main St\\, \\, \\, Anytown\\, CA\\, 12345\\, USA").expect("address");
    assert_eq!(a.addr1, "123 Main St");
    assert_eq!(a.addr2, "");
    assert_eq!(a.addr3, "");
    assert_eq!(a.city, "Anytown");
    assert_eq!(a.state, "CA");
    assert_eq!(a.zip, "12345");
    assert_eq!(a.country, "USA");
    assert_eq!(a.addr1(), Some("123 Main St"));
    assert_eq!(a.addr2(), None);
    assert_eq!(a.addr3(), None);
}

#[test]
fn non_numeric_postal_code_gives_no_address() {
    assert!(Address::from("123 Main St\\, \\, \\, Anytown\\, CA\\, ABCDE\\, USA").is_none());
    assert!(Address::from("Anytown\\, CA\\, 1234a\\, USA").is_none());
    assert!(Address::from("Anytown\\, CA\\, 12 345\\, USA").is_none());
    assert!(Address::from("x\\, USA").is_none());
}

#[test]
fn state_must_be_two_capital_letters() {
    assert!(Address::from("123 Main St\\, \\, \\, Anytown\\, ca\\, 12345\\, USA").is_none());
    assert!(Address::from("123 Main St\\, \\, \\, Anytown\\, CAL\\, 12345\\, USA").is_none());
    assert!(Address::from("Anytown\\, C\\, 12345\\, USA").is_none());
    assert!(Address::from("Anytown\\, \\, 12345\\, USA").is_none());
    assert!(Address::from("Anytown\\, C1\\, 12345\\, USA").is_none());
    assert!(Address::from("Anytown\\, \u{c9}\\, 12345\\, USA").is_none());
    assert!(Address::from("Anytown\\, \u{c9}\u{c9}\\, 12345\\, USA").is_none());
    assert!(Address::from("Anytown\\, NY\\, 12345\\, USA").is_some());
}

#[test]
fn bare_comma_does_not_separate() {
    let a = Address::from("Suite 4, 5 Elm St\\, Springfield\\, IL\\, 62701\\, USA").expect("address");
    assert_eq!(a.addr3, "Suite 4, 5 Elm St");
    assert_eq!(a.city, "Springfield");
    assert_eq!(a.addr1, "");
    assert_eq!(a.addr2, "");
}

#[test]
fn short_locations_leave_fields_empty() {
    let a = Address::from("").expect("address");
    assert_eq!(a.country, "");
    assert_eq!(a.zip, "");
    assert_eq!(a.state, "");
    let a = Address::from("Canada").expect("address");
    assert_eq!(a.country, "Canada");
    assert_eq!(a.zip, "");
    let a = Address::from("90210\\, USA").expect("address");
    assert_eq!(a.zip, "90210");
    assert_eq!(a.state, "");
    assert_eq!(a.city, "");
    let a = Address::from("\\, USA").expect("address");
    assert_eq!(a.zip, "");
    let a = Address::from("TX\\, 73301\\, USA").expect("address");
    assert_eq!(a.state, "TX");
    assert_eq!(a.city, "");
}

#[test]
fn fields_are_trimmed_of_backslashes_then_white_space() {
    let a = Address::from("\\\\ 1 Oak Ave \\\\\\,  Reno \\, NV\\,\t89501 \\, \\ USA \\").expect("address");
    assert_eq!(a.addr3, "1 Oak Ave");
    assert_eq!(a.city, "Reno");
    assert_eq!(a.state, "NV");
    assert_eq!(a.zip, "89501");
    assert_eq!(a.country, "\\ USA");
    let a = Address::from(" \\x\\ ").expect("address");
    assert_eq!(a.country, "\\x\\");
    let a = Address::from("\u{2003}Wide\u{3000}").expect("address");
    assert_eq!(a.country, "Wide");
}

#[test]
fn fields_beyond_the_seventh_are_ignored() {
    let a = Address::from("extra\\, more\\, L1\\, L2\\, L3\\, City\\, WA\\, 98101\\, USA").expect("address");
    assert_eq!(a.addr1, "L1");
    assert_eq!(a.addr2, "L2");
    assert_eq!(a.addr3, "L3");
    assert_eq!(a.city, "City");
    assert_eq!(a.addr1(), Some("L1"));
    assert_eq!(a.addr2(), Some("L2"));
    assert_eq!(a.addr3(), Some("L3"));
}

#[test]
fn address_is_written_out_line_by_line() {
    let a = Address::from("1 Oak Ave\\, Floor 2\\, \\, Reno\\, NV\\, 89501\\, USA").expect("address");
    assert_eq!(a.to_string(), "1 Oak Ave\nFloor 2\nReno, NV 89501\n");
    let a = Address::default();
    assert_eq!(a.to_string(), ",  \n");
    assert_eq!(a.addr1(), None);
}

#[test]
fn refused_postal_code_names_the_character() {
    let input = "123 Main St\\, \\, \\, Anytown\\, CA\\, ABCDE\\, USA";
    assert_eq!(Address::parse(input), Err(AddressError::Postal { field: "ABCDE", offending: 'A' }));
    assert_eq!(
        Address::parse("Anytown\\, CA\\, 1234a5b\\, USA"),
        Err(AddressError::Postal { field: "1234a5b", offending: 'a' })
    );
    assert_eq!(
        Address::parse("Anytown\\, ca\\,  12 345 \\, USA"),
        Err(AddressError::Postal { field: "12 345", offending: ' ' })
    );
    assert_eq!(
        Address::parse("\u{663}\\, USA"),
        Err(AddressError::Postal { field: "\u{663}", offending: '\u{663}' })
    );
}

#[test]
fn refused_state_names_the_field() {
    assert_eq!(
        Address::parse("Anytown\\, ca\\, 12345\\, USA"),
        Err(AddressError::State { field: "ca" })
    );
    assert_eq!(
        Address::parse("Anytown\\,\\CAL\\\\, 12345\\, USA"),
        Err(AddressError::State { field: "CAL" })
    );
    assert_eq!(
        Address::parse("Anytown\\, \\ CAL \\\\, 12345\\, USA"),
        Err(AddressError::State { field: "\\ CAL" })
    );
    assert_eq!(Address::parse("Anytown\\, \\, \\, USA"), Err(AddressError::State { field: "" }));
}

#[test]
fn parse_and_from_agree() {
    let inputs = [
        "",
        "USA",
        "123 Main St\\, \\, \\, Anytown\\, CA\\, 12345\\, USA",
        "Anytown\\, ca\\, 12345\\, USA",
        "Anytown\\, CA\\, 1x\\, USA",
        "a, b, c",
    ];
    for input in inputs {
        assert_eq!(Address::parse(input).ok(), Address::from(input), "{}", input);
    }
    let a = Address::parse("Reno\\, NV\\, 89501\\, USA").unwrap();
    assert_eq!(a.city, "Reno");
    assert_eq!(a.zip, "89501");
}
