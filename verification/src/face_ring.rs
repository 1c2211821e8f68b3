//! The face indicator's states, the same wherever it is drawn.

use vstd::prelude::*;
use vstd::string::*;
use crate::face::Progress;
use crate::text::{concat2, same, text_of};

verus! {

/// Every state the face can be in.
pub open spec fn ring_states() -> Seq<&'static str> {
    seq!["looking", "dark", "found", "ok", "fail"]
}

/// Every state the face can be in: entering one means leaving the others.
pub fn states() -> (r: Vec<&'static str>)
    ensures
        r@ == ring_states(),
{
    let r: Vec<&'static str> = vec!["looking", "dark", "found", "ok", "fail"];
    assert(r@ =~= ring_states());
    r
}

/// The state a frame puts the face into.
pub fn state_of(p: Progress) -> (r: &'static str)
    ensures
        r == match p {
            Progress::Looking => "looking",
            Progress::Dark => "dark",
            Progress::Found => "found",
            Progress::Recognised => "ok",
            Progress::Rejected => "fail",
        },
{
    match p {
        Progress::Looking => "looking",
        Progress::Dark => "dark",
        Progress::Found => "found",
        Progress::Recognised => "ok",
        Progress::Rejected => "fail",
    }
}

/// What entering a state takes, after all classes of other states were taken
/// off.
#[derive(Debug, PartialEq, Eq)]
pub struct Classes {
    pub ring: Option<String>,
    /// The pill carries the state as well.
    pub pill: Option<String>,
}

/// The class of a state on the ring.
pub fn ring_class(state: &str) -> (r: String)
    ensures
        r@ == "face-ring-"@ + state@,
{
    concat2("face-ring-", state)
}

/// The class of a state on the pill.
pub fn pill_class(state: &str) -> (r: String)
    ensures
        r@ == "face-pill-"@ + state@,
{
    concat2("face-pill-", state)
}

/// What entering a state takes. The empty state clears without setting
/// anything, so that a hidden face does not show up in its last state.
pub fn apply(state: &str) -> (r: Classes)
    ensures
        text_of(r.ring) == if state@.len() == 0 {
            None
        } else {
            Some("face-ring-"@ + state@)
        },
        text_of(r.pill) == if state@.len() == 0 {
            None
        } else {
            Some("face-pill-"@ + state@)
        },
{
    proof {
        reveal_strlit("");
        if state@.len() == 0 {
            assert(state@ =~= ""@);
        }
    }
    if same(state, "") {
        Classes { ring: None, pill: None }
    } else {
        Classes { ring: Some(ring_class(state)), pill: Some(pill_class(state)) }
    }
}

/// The face has five states.
pub proof fn law_the_states_of_the_face(i: int)
    requires
        0 <= i < 5,
    ensures
        ring_states().len() == 5,
        i == 0 ==> ring_states()[i] == "looking",
        i == 1 ==> ring_states()[i] == "dark",
        i == 2 ==> ring_states()[i] == "found",
        i == 3 ==> ring_states()[i] == "ok",
        i == 4 ==> ring_states()[i] == "fail",
{
}

} // verus!
