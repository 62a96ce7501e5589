//! The finished event records, kept by their identifiers.
//!
//! The records stand in a vector in which no identifier occurs twice. Seen
//! from outside the vector is a map from identifiers to records; the order of
//! the vector is the order in which the records are handed out.

use vstd::prelude::*;
use crate::event::{Event, EventView};
use crate::text::{chars_eq, to_chars};

verus! {

/// Some record of `s` has the identifier `uid`.
pub open spec fn holds_uid(s: Seq<EventView>, uid: Seq<char>) -> bool {
    exists|i: int| 0 <= i < s.len() && #[trigger] s[i].uid == uid
}

/// A position in `s` of a record with the identifier `uid`.
pub open spec fn position(s: Seq<EventView>, uid: Seq<char>) -> int {
    choose|i: int| 0 <= i < s.len() && #[trigger] s[i].uid == uid
}

/// No two records of `s` share an identifier.
pub open spec fn distinct_uids(s: Seq<EventView>) -> bool {
    forall|i: int, j: int|
        0 <= i < j < s.len() ==> (#[trigger] s[i]).uid != (#[trigger] s[j]).uid
}

/// The records of `s` by their identifiers.
pub open spec fn as_map(s: Seq<EventView>) -> Map<Seq<char>, EventView> {
    Map::new(|uid: Seq<char>| holds_uid(s, uid), |uid: Seq<char>| s[position(s, uid)])
}

/// In a sequence without a repeated identifier each record stands in the map
/// under its own identifier.
pub proof fn lemma_as_map_index(s: Seq<EventView>, i: int)
    requires
        distinct_uids(s),
        0 <= i < s.len(),
    ensures
        as_map(s).contains_key(s[i].uid),
        as_map(s)[s[i].uid] == s[i],
{
    let uid = s[i].uid;
    assert(holds_uid(s, uid));
    let p = position(s, uid);
    assert(0 <= p < s.len() && s[p].uid == uid);
    if p < i {
        assert(s[p].uid != s[i].uid);
    } else if i < p {
        assert(s[i].uid != s[p].uid);
    }
}

/// Putting a record in the place of one with the same identifier.
pub proof fn lemma_as_map_update(s: Seq<EventView>, i: int, ev: EventView)
    requires
        distinct_uids(s),
        0 <= i < s.len(),
        s[i].uid == ev.uid,
    ensures
        distinct_uids(s.update(i, ev)),
        as_map(s.update(i, ev)) == as_map(s).insert(ev.uid, ev),
{
    let t = s.update(i, ev);
    assert forall|a: int, b: int| 0 <= a < b < t.len() implies (#[trigger] t[a]).uid != (
    #[trigger] t[b]).uid by {
        assert(s[a].uid != s[b].uid);
    }
    let m = as_map(s).insert(ev.uid, ev);
    assert forall|uid: Seq<char>| as_map(t).contains_key(uid) == m.contains_key(uid) by {
        if holds_uid(t, uid) {
            let p = position(t, uid);
            assert(s[p].uid == uid);
        }
        if holds_uid(s, uid) {
            let p = position(s, uid);
            assert(t[p].uid == uid);
        }
        if uid == ev.uid {
            assert(t[i].uid == uid);
        }
    }
    assert forall|uid: Seq<char>| as_map(t).contains_key(uid) implies as_map(t)[uid] == m[uid] by {
        let p = position(t, uid);
        lemma_as_map_index(t, p);
        if uid != ev.uid {
            assert(p != i);
            lemma_as_map_index(s, p);
        } else {
            lemma_as_map_index(t, i);
        }
    }
    assert(as_map(t) =~= m);
}

/// Adding a record whose identifier is new.
pub proof fn lemma_as_map_push(s: Seq<EventView>, ev: EventView)
    requires
        distinct_uids(s),
        !holds_uid(s, ev.uid),
    ensures
        distinct_uids(s.push(ev)),
        as_map(s.push(ev)) == as_map(s).insert(ev.uid, ev),
{
    let t = s.push(ev);
    assert forall|a: int, b: int| 0 <= a < b < t.len() implies (#[trigger] t[a]).uid != (
    #[trigger] t[b]).uid by {
        if b < s.len() {
            assert(s[a].uid != s[b].uid);
        } else {
            assert(s[a].uid != ev.uid);
        }
    }
    let m = as_map(s).insert(ev.uid, ev);
    assert forall|uid: Seq<char>| as_map(t).contains_key(uid) == m.contains_key(uid) by {
        if holds_uid(t, uid) {
            let p = position(t, uid);
            if p < s.len() {
                assert(s[p].uid == uid);
            }
        }
        if holds_uid(s, uid) {
            let p = position(s, uid);
            assert(t[p].uid == uid);
        }
        if uid == ev.uid {
            assert(t[s.len() as int].uid == uid);
        }
    }
    assert forall|uid: Seq<char>| as_map(t).contains_key(uid) implies as_map(t)[uid] == m[uid] by {
        let p = position(t, uid);
        lemma_as_map_index(t, p);
        if uid != ev.uid {
            lemma_as_map_index(s, p);
        } else {
            lemma_as_map_index(t, s.len() as int);
        }
    }
    assert(as_map(t) =~= m);
}

/// A sequence without a repeated identifier holds as many records as its map
/// has keys.
pub proof fn lemma_as_map_len(s: Seq<EventView>)
    requires
        distinct_uids(s),
    ensures
        as_map(s).dom().finite(),
        as_map(s).len() == s.len(),
{
    let uids = s.map_values(|e: EventView| e.uid);
    assert forall|i: int, j: int| 0 <= i < uids.len() && 0 <= j < uids.len() && i != j implies uids[i]
        != uids[j] by {
        if i < j {
            assert(s[i].uid != s[j].uid);
        } else {
            assert(s[j].uid != s[i].uid);
        }
    }
    assert forall|uid: Seq<char>| as_map(s).dom().contains(uid) == uids.to_set().contains(uid) by {
        if holds_uid(s, uid) {
            let p = position(s, uid);
            assert(uids[p] == uid);
        }
        if uids.contains(uid) {
            let p = choose|p: int| 0 <= p < uids.len() && uids[p] == uid;
            assert(s[p].uid == uid);
        }
    }
    assert(as_map(s).dom() =~= uids.to_set());
    vstd::seq_lib::seq_to_set_is_finite(uids);
    uids.unique_seq_to_set();
}

/// The finished records, each under its identifier. A record that is put in
/// under an identifier that is already there takes the place of the earlier
/// one.
pub struct EventMap {
    events: Vec<Event>,
}

impl EventMap {
    /// The records in the order in which they are handed out.
    pub closed spec fn records(&self) -> Seq<EventView> {
        self.events@.map_values(|e: Event| e@)
    }

    #[verifier::type_invariant]
    spec fn inv(&self) -> bool {
        distinct_uids(self.records())
    }

    /// A map without records.
    pub fn new() -> (r: EventMap)
        ensures
            r@ == Map::<Seq<char>, EventView>::empty(),
            r.records().len() == 0,
    {
        let r = EventMap { events: Vec::new() };
        assert(r@ =~= Map::<Seq<char>, EventView>::empty());
        r
    }

    /// The number of records, which is the number of identifiers: none
    /// occurs twice among the records.
    pub fn len(&self) -> (n: usize)
        ensures
            n == self.records().len(),
            n == self@.len(),
            distinct_uids(self.records()),
    {
        proof {
            use_type_invariant(self);
            lemma_as_map_len(self.records());
        }
        self.events.len()
    }

    /// The record at position `i` of `records`.
    pub fn at(&self, i: usize) -> (ev: &Event)
        requires
            i < self.records().len(),
        ensures
            ev@ == self.records()[i as int],
    {
        &self.events[i]
    }

    /// The position of the record with the identifier `uid`.
    pub fn index_of(&self, uid: &str) -> (r: Option<usize>)
        ensures
            match r {
                Some(i) => i < self.records().len() && self.records()[i as int].uid == uid@,
                None => !holds_uid(self.records(), uid@),
            },
    {
        let wanted = to_chars(uid);
        let mut i: usize = 0;
        while i < self.events.len()
            invariant
                wanted@ == uid@,
                i <= self.events.len(),
                forall|j: int| 0 <= j < i ==> (#[trigger] self.records()[j]).uid != uid@,
            decreases self.events.len() - i,
        {
            if chars_eq(&wanted, self.events[i].uid.as_str()) {
                return Some(i);
            }
            i += 1;
        }
        None
    }

    /// The record with the identifier `uid`, where there is one.
    pub fn get(&self, uid: &str) -> (r: Option<&Event>)
        ensures
            match r {
                Some(ev) => self@.contains_key(uid@) && ev@ == self@[uid@],
                None => !self@.contains_key(uid@),
            },
    {
        proof {
            use_type_invariant(self);
        }
        match self.index_of(uid) {
            Some(i) => {
                proof {
                    lemma_as_map_index(self.records(), i as int);
                }
                Some(&self.events[i])
            },
            None => None,
        }
    }

    /// Puts `ev` in under its identifier, in the place of the record that was
    /// there under it, if any.
    pub fn insert(&mut self, ev: Event)
        ensures
            final(self)@ == old(self)@.insert(ev.uid@, ev@),
    {
        proof {
            use_type_invariant(&*self);
        }
        let ghost before = self.records();
        let found = self.index_of(ev.uid.as_str());
        let mut events: Vec<Event> = Vec::new();
        core::mem::swap(&mut self.events, &mut events);
        match found {
            Some(i) => {
                proof {
                    lemma_as_map_update(before, i as int, ev@);
                    assert(events@.update(i as int, ev).map_values(|e: Event| e@) =~= before.update(
                        i as int,
                        ev@,
                    ));
                }
                events.set(i, ev);
            },
            None => {
                proof {
                    lemma_as_map_push(before, ev@);
                    assert(events@.push(ev).map_values(|e: Event| e@) =~= before.push(ev@));
                }
                events.push(ev);
            },
        }
        core::mem::swap(&mut self.events, &mut events);
    }
}

impl View for EventMap {
    type V = Map<Seq<char>, EventView>;

    open spec fn view(&self) -> Map<Seq<char>, EventView> {
        as_map(self.records())
    }
}

} // verus!
