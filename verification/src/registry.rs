//! The live set of contacts, in the order in which they touched down.
use crate::contact::{contacts_of, Contact, TouchPoint};
use vstd::prelude::*;

verus! {

/// No two contacts of `s` share an id.
pub open spec fn distinct_ids(s: Seq<Contact>) -> bool {
    forall|i: int, j: int| 0 <= i < j < s.len() ==> (#[trigger] s[i]).id != (#[trigger] s[j]).id
}

/// Some contact of `s` has the id `id`.
pub open spec fn has_id(s: Seq<Contact>, id: int) -> bool {
    exists|i: int| 0 <= i < s.len() && (#[trigger] s[i]).id == id
}

/// The place of the contact with the id `id`, where there is one.
pub open spec fn index_of(s: Seq<Contact>, id: int) -> int {
    choose|i: int| 0 <= i < s.len() && (#[trigger] s[i]).id == id
}

/// `s` after a contact has touched down: appended, unless its id is taken.
pub open spec fn added(s: Seq<Contact>, c: Contact) -> Seq<Contact> {
    if has_id(s, c.id) {
        s
    } else {
        s.push(c)
    }
}

/// `s` after the contact `id` has moved to `(x, y)`: every contact of that id
/// takes the new position, the others stay as they are.
pub open spec fn moved(s: Seq<Contact>, id: int, x: int, y: int) -> Seq<Contact> {
    s.map_values(
        |c: Contact|
            if c.id == id {
                Contact { x, y, ..c }
            } else {
                c
            },
    )
}

/// `s` after the contact `id` has lifted: taken out where it is present.
pub open spec fn removed(s: Seq<Contact>, id: int) -> Seq<Contact> {
    if has_id(s, id) {
        s.remove(index_of(s, id))
    } else {
        s
    }
}

/// Ids stay unique when a contact touches down.
pub proof fn lemma_added_distinct(s: Seq<Contact>, c: Contact)
    requires
        distinct_ids(s),
    ensures
        distinct_ids(added(s, c)),
        added(s, c).len() >= 1,
        added(s, c) != s <==> !has_id(s, c.id),
{
}

/// Ids stay unique, and the number of contacts stays, when a contact moves.
pub proof fn lemma_moved_distinct(s: Seq<Contact>, id: int, x: int, y: int)
    requires
        distinct_ids(s),
    ensures
        distinct_ids(moved(s, id, x, y)),
        moved(s, id, x, y).len() == s.len(),
        !has_id(s, id) ==> moved(s, id, x, y) == s,
{
}

/// Ids stay unique when a contact lifts, and exactly a present contact makes
/// the collection one shorter.
pub proof fn lemma_removed_distinct(s: Seq<Contact>, id: int)
    requires
        distinct_ids(s),
    ensures
        distinct_ids(removed(s, id)),
        !has_id(removed(s, id), id),
        has_id(s, id) ==> removed(s, id).len() == s.len() - 1,
        removed(s, id) != s <==> has_id(s, id),
{
}

/// Whether no two of the given contacts share an id.
pub fn ids_are_distinct(points: &Vec<TouchPoint>) -> (distinct: bool)
    ensures
        distinct == distinct_ids(contacts_of(points@)),
{
    let ghost s = contacts_of(points@);
    let mut j: usize = 0;
    while j < points.len()
        invariant
            j <= points.len(),
            s == contacts_of(points@),
            forall|a: int, b: int| 0 <= a < b < j ==> (#[trigger] s[a]).id != (#[trigger] s[b]).id,
        decreases points.len() - j,
    {
        let mut i: usize = 0;
        while i < j
            invariant
                i <= j < points.len(),
                s == contacts_of(points@),
                forall|a: int| 0 <= a < i ==> (#[trigger] s[a]).id != s[j as int].id,
            decreases j - i,
        {
            if points[i].id == points[j].id {
                assert(s[i as int].id == s[j as int].id);
                return false;
            }
            i += 1;
        }
        j += 1;
    }
    true
}

/// The ordered collection of active contacts. No two of them share an id.
pub struct ContactRegistry {
    contacts: Vec<TouchPoint>,
}

impl View for ContactRegistry {
    type V = Seq<Contact>;

    closed spec fn view(&self) -> Seq<Contact> {
        contacts_of(self.contacts@)
    }
}

impl ContactRegistry {
    /// The registry's invariant: ids are unique.
    pub open spec fn wf(&self) -> bool {
        distinct_ids(self@)
    }

    /// A registry without contacts.
    pub fn new() -> (registry: ContactRegistry)
        ensures
            registry.wf(),
            registry@ == Seq::<Contact>::empty(),
    {
        ContactRegistry { contacts: Vec::new() }
    }

    /// The number of contacts.
    pub fn len(&self) -> (n: usize)
        ensures
            n == self@.len(),
    {
        self.contacts.len()
    }

    /// Whether no contact is present.
    pub fn is_empty(&self) -> (empty: bool)
        ensures
            empty == (self@.len() == 0),
    {
        self.contacts.len() == 0
    }

    /// The place of the contact with the given id, if it is present.
    pub fn find(&self, id: i32) -> (place: Option<usize>)
        ensures
            match place {
                Some(i) => {
                    &&& i < self@.len()
                    &&& self@[i as int].id == id
                    &&& forall|j: int| 0 <= j < i ==> (#[trigger] self@[j]).id != id
                },
                None => !has_id(self@, id as int),
            },
            self.wf() && has_id(self@, id as int) ==> place == Some(index_of(self@, id as int) as usize),
    {
        let mut i: usize = 0;
        while i < self.contacts.len()
            invariant
                i <= self.contacts.len(),
                forall|j: int| 0 <= j < i ==> (#[trigger] self@[j]).id != id,
            decreases self.contacts.len() - i,
        {
            if self.contacts[i].id == id {
                assert(self@[i as int].id == id);
                return Some(i);
            }
            i += 1;
        }
        None
    }

    /// The current contacts in order, for reading.
    pub fn snapshot(&self) -> (contacts: &Vec<TouchPoint>)
        ensures
            contacts_of(contacts@) == self@,
    {
        &self.contacts
    }

    /// A contact touches down. It is appended unless its id is already
    /// present, in which case nothing changes. Returns whether it was
    /// appended.
    pub fn add(&mut self, point: TouchPoint) -> (appended: bool)
        requires
            old(self).wf(),
        ensures
            final(self).wf(),
            final(self)@ == added(old(self)@, point@),
            appended == !has_id(old(self)@, point.id as int),
    {
        match self.find(point.id) {
            Some(_) => false,
            None => {
                self.contacts.push(point);
                assert(self@ =~= old(self)@.push(point@));
                true
            },
        }
    }

    /// The contact `id` moves to `(x, y)`. An unknown id changes nothing.
    /// Returns whether the collection is different afterwards.
    pub fn move_to(&mut self, id: i32, x: i32, y: i32) -> (changed: bool)
        requires
            old(self).wf(),
        ensures
            final(self).wf(),
            final(self)@ == moved(old(self)@, id as int, x as int, y as int),
            changed == (final(self)@ != old(self)@),
    {
        match self.find(id) {
            Some(i) => {
                let before = &self.contacts[i];
                let changed = before.x != x || before.y != y;
                let after = before.moved_to(x, y);
                self.contacts.set(i, after);
                assert(self@ =~= moved(old(self)@, id as int, x as int, y as int));
                assert(!changed ==> self@ =~= old(self)@);
                changed
            },
            None => {
                false
            },
        }
    }

    /// Swaps the whole collection for `contacts` in one step, provided no two
    /// of them share an id; otherwise nothing changes. Returns whether the
    /// swap took place.
    pub fn replace_all(&mut self, contacts: Vec<TouchPoint>) -> (accepted: bool)
        requires
            old(self).wf(),
        ensures
            final(self).wf(),
            accepted == distinct_ids(contacts_of(contacts@)),
            final(self)@ == if accepted {
                contacts_of(contacts@)
            } else {
                old(self)@
            },
    {
        if ids_are_distinct(&contacts) {
            self.contacts = contacts;
            true
        } else {
            false
        }
    }

    /// The contact `id` lifts and is released. An unknown id changes
    /// nothing. Returns whether a contact was taken out.
    pub fn remove(&mut self, id: i32) -> (released: bool)
        requires
            old(self).wf(),
        ensures
            final(self).wf(),
            final(self)@ == removed(old(self)@, id as int),
            released == has_id(old(self)@, id as int),
    {
        match self.find(id) {
            Some(i) => {
                self.contacts.remove(i);
                assert(self@ =~= old(self)@.remove(i as int));
                true
            },
            None => false,
        }
    }
}

} // verus!
