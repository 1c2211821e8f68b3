//! The pins mark: shown while anything is pinned.

use vstd::prelude::*;
use vstd::string::*;
use crate::bar::popover::{leading_number, number_of};
use crate::text::{decimal, decimal_of};

verus! {

pub const PIN: &'static str = "\u{f0403}";

pub const PIN_OUTLINE: &'static str = "\u{f0931}";

/// What the mark shows.
#[derive(Debug, PartialEq, Eq)]
pub struct Mark {
    pub revealed: bool,
    pub glyph: &'static str,
    pub tucked: bool,
    /// The count stands beside the glyph from two up.
    pub counted: bool,
    pub count: String,
}

/// The mark: filled while the pins float, hollow while they are tucked away.
pub fn update(pinned: usize, tucked: bool) -> (r: Mark)
    ensures
        r.revealed == (pinned > 0),
        r.glyph == if tucked {
            PIN_OUTLINE
        } else {
            PIN
        },
        r.tucked == tucked,
        r.counted == (pinned > 1),
        r.count@ == decimal(pinned as nat),
{
    Mark {
        revealed: pinned > 0,
        glyph: if tucked {
            PIN_OUTLINE
        } else {
            PIN
        },
        tucked,
        counted: pinned > 1,
        count: decimal_of(pinned as u64),
    }
}

/// The label of the button that tucks the pins away, or shows them again.
pub fn tuck_label(tucked: bool) -> (r: &'static str)
    ensures
        r == if tucked {
            "Show pins on screen"
        } else {
            "Tuck pins into the bar"
        },
{
    if tucked {
        "Show pins on screen"
    } else {
        "Tuck pins into the bar"
    }
}

/// A pinned workspace in the popover: its name and the number that leads it.
#[derive(Debug, PartialEq, Eq)]
pub struct Row {
    pub num: i32,
    pub name: String,
}

/// The popover's rows: one for each pin, in the order they were pinned.
pub fn rows(names: &Vec<String>) -> (r: Vec<Row>)
    ensures
        r@.len() == names@.len(),
        forall|i: int|
            0 <= i < names@.len() ==> {
                &&& (#[trigger] r@[i]).name@ == names@[i]@
                &&& r@[i].num == leading_number(names@[i]@)
            },
{
    let mut list: Vec<Row> = Vec::new();
    let mut i: usize = 0;
    while i < names.len()
        invariant
            i <= names@.len(),
            list@.len() == i,
            forall|j: int|
                0 <= j < i ==> {
                    &&& (#[trigger] list@[j]).name@ == names@[j]@
                    &&& list@[j].num == leading_number(names@[j]@)
                },
        decreases names@.len() - i,
    {
        list.push(Row { num: number_of(names[i].as_str()), name: names[i].clone() });
        i += 1;
    }
    list
}

/// The popover opens by itself once, with the first pin, where it was asked
/// to.
#[derive(Debug, Clone, Copy, PartialEq, Eq, Structural)]
pub struct Opener {
    armed: bool,
}

impl Opener {
    /// Whether the popover is still to open.
    pub closed spec fn waits(&self) -> bool {
        self.armed
    }

    /// Armed where `SWAYPPLET_PINS_OPEN` says anything.
    pub fn new(asked: Option<&str>) -> (r: Opener)
        ensures
            r.waits() == (asked is Some && asked->0@.len() > 0),
    {
        let armed = match asked {
            Some(v) => !v.is_empty(),
            None => false,
        };
        Opener { armed }
    }

    /// The pins changed: whether the popover opens now.
    pub fn changed(&mut self, pinned: usize) -> (r: bool)
        ensures
            r == (old(self).waits() && pinned > 0),
            final(self).waits() == (old(self).waits() && pinned == 0),
    {
        let open = self.armed && pinned > 0;
        if open {
            self.armed = false;
        }
        open
    }
}

} // verus!
