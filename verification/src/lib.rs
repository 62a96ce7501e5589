//! Calendar events as a syndication feed.
//!
//! The lines of an iCalendar text are read into event records
//! ([`calendar`], [`event`], [`event_map`]). Of each record a postal address ([`address`]),
//! an instant ([`timestamp`]), a summary line and a page of content
//! ([`view`]) are derived, and the records together give a feed document
//! ([`feed`]). The functions on text that all of this rests on are in
//! [`text`].
//!
//! Every function states what it returns over the characters of its
//! arguments. What is taken unproved from the `chrono` crate, the parsing of
//! an instant and the civil date of one, is named in [`timestamp`].

pub mod address;
pub mod calendar;
pub mod event;
pub mod event_map;
pub mod feed;
pub mod text;
pub mod timestamp;
pub mod view;
