//! A contact on the surface and its mathematical model.
use vstd::prelude::*;

verus! {

/// One finger on the surface.
///
/// The `id` is stable for the lifetime of the physical touch; `x` and `y`
/// follow the finger; `color` is a display attribute that the machine
/// carries along without reading it.
#[derive(Debug)]
pub struct TouchPoint {
    pub id: i32,
    pub x: i32,
    pub y: i32,
    pub color: String,
}

/// The model of a [`TouchPoint`]: its fields as mathematical values.
pub ghost struct Contact {
    pub id: int,
    pub x: int,
    pub y: int,
    pub tag: Seq<char>,
}

impl View for TouchPoint {
    type V = Contact;

    open spec fn view(&self) -> Contact {
        Contact { id: self.id as int, x: self.x as int, y: self.y as int, tag: self.color@ }
    }
}

impl Clone for TouchPoint {
    fn clone(&self) -> (copy: Self)
        ensures
            copy == *self,
    {
        TouchPoint { id: self.id, x: self.x, y: self.y, color: self.color.clone() }
    }
}

impl TouchPoint {
    /// The same contact at another position.
    pub fn moved_to(&self, x: i32, y: i32) -> (moved: TouchPoint)
        ensures
            moved@ == (Contact { x: x as int, y: y as int, ..self@ }),
    {
        TouchPoint { id: self.id, x, y, color: self.color.clone() }
    }
}

/// The models of a sequence of contacts, in order.
pub open spec fn contacts_of(points: Seq<TouchPoint>) -> Seq<Contact> {
    points.map_values(|p: TouchPoint| p@)
}

} // verus!
