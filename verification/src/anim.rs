//! Showing and hiding glass surfaces: the order in which frost, opacity and
//! mapping change.
//!
//! A frosted surface must not be mapped or unmapped: the compositor would
//! flash a black frame. So frost goes on after the map and comes off before
//! the unmap, which waits for the compositor's word.

use vstd::prelude::*;
use vstd::string::*;
use crate::text::concat3;

verus! {

/// The command that turns the frost behind a namespace on or off. Glass is
/// named with blur: the two share one node.
pub fn blur_command(namespace: &str, on: bool) -> (r: String)
    ensures
        r@ == "layer_effects \""@ + namespace@ + "\" \""@ + (if on {
            "blur enable; liquid_glass enable"@
        } else {
            "blur disable; liquid_glass disable"@
        }) + "\""@,
{
    let head = concat3("layer_effects \"", namespace, "\" \"");
    concat3(
        head.as_str(),
        if on {
            "blur enable; liquid_glass enable"
        } else {
            "blur disable; liquid_glass disable"
        },
        "\"",
    )
}

/// A transition under way.
#[derive(Debug, Clone, Copy, PartialEq, Eq, Structural)]
pub enum Motion {
    Enter,
    Exit,
}

/// One thing to do to a surface.
#[derive(Debug, Clone, Copy, PartialEq, Eq, Structural)]
pub enum Act {
    /// Map it.
    Present,
    /// Bind another opacity handle.
    Rebind,
    FrostOn,
    /// Turn the frost off, and report when the compositor has done so.
    FrostOff,
    /// End the transition under way.
    Halt,
    /// Jump to the shown pose.
    PoseShown,
    /// Jump to the hidden pose.
    PoseHidden,
    /// Start a transition from where it is, and report when it is over.
    Start(Motion),
    Unmap,
    /// Tell the owner, once, that the surface is gone.
    Hidden,
}

/// A surface: what it is headed for, and what it is.
#[derive(Debug, Clone, Copy, PartialEq, Eq, Structural)]
pub struct Reveal {
    /// It has a namespace, and frost behind it.
    pub layer: bool,
    /// What it is headed for.
    pub shown: bool,
    pub mapped: bool,
    pub motion: Option<Motion>,
    /// The owner waits to be told.
    pub hook: bool,
}

/// One act, where it is due.
pub open spec fn due(on: bool, a: Act) -> Seq<Act> {
    if on {
        seq![a]
    } else {
        Seq::empty()
    }
}

/// The surface gone.
pub open spec fn gone(s: Reveal) -> (Reveal, Seq<Act>) {
    (Reveal { mapped: false, hook: false, ..s }, seq![Act::Unmap] + due(s.hook, Act::Hidden))
}

/// The surface at the end of its exit.
pub open spec fn concealed(s: Reveal) -> (Reveal, Seq<Act>) {
    if !s.mapped {
        (Reveal { hook: false, ..s }, seq![Act::PoseHidden] + due(s.hook, Act::Hidden))
    } else if s.layer {
        (s, seq![Act::PoseHidden, Act::FrostOff])
    } else {
        (gone(s).0, seq![Act::PoseHidden] + gone(s).1)
    }
}

/// The surface told to show. `fresh` is whether its opacity handle has to be
/// bound anew, `parked` whether it is fully transparent already.
pub open spec fn shows(s: Reveal, animated: bool, fresh: bool, parked: bool) -> (Reveal, Seq<Act>) {
    let head = seq![Act::Present] + due(fresh, Act::Rebind) + due(s.layer, Act::FrostOn);
    if !animated {
        (
            Reveal { shown: true, mapped: true, motion: None, ..s },
            head + seq![Act::Halt, Act::PoseShown],
        )
    } else {
        (
            Reveal { shown: true, mapped: true, motion: Some(Motion::Enter), ..s },
            head + due(!s.mapped || parked, Act::PoseHidden) + seq![Act::Start(Motion::Enter)],
        )
    }
}

/// The surface told to hide.
pub open spec fn hides(s: Reveal, animated: bool) -> (Reveal, Seq<Act>) {
    if !animated || !s.mapped {
        let (t, acts) = concealed(Reveal { shown: false, motion: None, ..s });
        (t, seq![Act::Halt] + acts)
    } else {
        (
            Reveal { shown: false, motion: Some(Motion::Exit), ..s },
            seq![Act::Start(Motion::Exit)],
        )
    }
}

/// The surface after its transition.
pub open spec fn moved(s: Reveal) -> (Reveal, Seq<Act>) {
    let t = Reveal { motion: None, ..s };
    if s.motion == Some(Motion::Exit) {
        concealed(t)
    } else {
        (t, Seq::empty())
    }
}

/// The surface after the compositor took its frost off. A show that came in
/// between wins: the frost is asked for again.
pub open spec fn thawed(s: Reveal) -> (Reveal, Seq<Act>) {
    if s.shown {
        (s, seq![Act::FrostOn])
    } else {
        gone(s)
    }
}

fn push_hidden(acts: &mut Vec<Act>, hook: bool)
    ensures
        final(acts)@ == old(acts)@ + due(hook, Act::Hidden),
{
    if hook {
        acts.push(Act::Hidden);
    }
    assert(acts@ =~= old(acts)@ + due(hook, Act::Hidden));
}

impl Reveal {
    /// A hidden surface.
    pub fn new(layer: bool, hook: bool) -> (r: Reveal)
        ensures
            r == (Reveal { layer, shown: false, mapped: false, motion: None, hook }),
    {
        Reveal { layer, shown: false, mapped: false, motion: None, hook }
    }

    /// Somebody else unmapped the surface: the next show starts from the hidden
    /// pose.
    pub fn unmapped(&mut self)
        ensures
            *final(self) == (Reveal { mapped: false, ..*old(self) }),
    {
        self.mapped = false;
    }

    /// Shows the surface: it is mapped first and frosted second.
    pub fn show(&mut self, animated: bool, fresh: bool, parked: bool) -> (r: Vec<Act>)
        ensures
            (*final(self), r@) == shows(*old(self), animated, fresh, parked),
    {
        let was = self.mapped;
        let mut acts: Vec<Act> = Vec::new();
        acts.push(Act::Present);
        if fresh {
            acts.push(Act::Rebind);
        }
        if self.layer {
            acts.push(Act::FrostOn);
        }
        self.shown = true;
        self.mapped = true;
        if !animated {
            self.motion = None;
            acts.push(Act::Halt);
            acts.push(Act::PoseShown);
        } else {
            self.motion = Some(Motion::Enter);
            if !was || parked {
                acts.push(Act::PoseHidden);
            }
            acts.push(Act::Start(Motion::Enter));
        }
        assert(acts@ =~= shows(*old(self), animated, fresh, parked).1);
        acts
    }

    /// Hides the surface: it is unmapped only once the exit is over.
    pub fn dismiss(&mut self, animated: bool) -> (r: Vec<Act>)
        ensures
            (*final(self), r@) == hides(*old(self), animated),
    {
        self.shown = false;
        let mut acts: Vec<Act> = Vec::new();
        if !animated || !self.mapped {
            self.motion = None;
            acts.push(Act::Halt);
            self.conceal(&mut acts);
        } else {
            self.motion = Some(Motion::Exit);
            acts.push(Act::Start(Motion::Exit));
        }
        assert(acts@ =~= hides(*old(self), animated).1);
        acts
    }

    fn conceal(&mut self, acts: &mut Vec<Act>)
        ensures
            *final(self) == concealed(*old(self)).0,
            final(acts)@ == old(acts)@ + concealed(*old(self)).1,
    {
        acts.push(Act::PoseHidden);
        if !self.mapped {
            push_hidden(acts, self.hook);
            self.hook = false;
        } else if self.layer {
            acts.push(Act::FrostOff);
        } else {
            acts.push(Act::Unmap);
            push_hidden(acts, self.hook);
            self.mapped = false;
            self.hook = false;
        }
        assert(acts@ =~= old(acts)@ + concealed(*old(self)).1);
    }

    /// The transition is over.
    pub fn motion_done(&mut self) -> (r: Vec<Act>)
        ensures
            (*final(self), r@) == moved(*old(self)),
    {
        let leaving = match self.motion {
            Some(Motion::Exit) => true,
            _ => false,
        };
        self.motion = None;
        let mut acts: Vec<Act> = Vec::new();
        if leaving {
            self.conceal(&mut acts);
        }
        assert(acts@ =~= moved(*old(self)).1);
        acts
    }

    /// The compositor took the frost off, or could not be asked.
    pub fn frost_gone(&mut self) -> (r: Vec<Act>)
        ensures
            (*final(self), r@) == thawed(*old(self)),
    {
        let mut acts: Vec<Act> = Vec::new();
        if self.shown {
            acts.push(Act::FrostOn);
        } else {
            acts.push(Act::Unmap);
            push_hidden(&mut acts, self.hook);
            self.mapped = false;
            self.hook = false;
        }
        assert(acts@ =~= thawed(*old(self)).1);
        acts
    }
}

/// A surface with frost is never unmapped by showing, hiding or the end of a
/// transition: only once the compositor has taken the frost off.
pub proof fn law_frost_comes_off_before_the_unmap(
    s: Reveal,
    animated: bool,
    fresh: bool,
    parked: bool,
)
    requires
        s.layer,
    ensures
        !shows(s, animated, fresh, parked).1.contains(Act::Unmap),
        !hides(s, animated).1.contains(Act::Unmap),
        !moved(s).1.contains(Act::Unmap),
        hides(s, false).1.contains(Act::FrostOff) <==> s.mapped,
{
    let h = hides(s, false).1;
    if s.mapped {
        assert(h =~= seq![Act::Halt, Act::PoseHidden, Act::FrostOff]);
        assert(h[2] == Act::FrostOff);
    } else {
        assert(h =~= seq![Act::Halt, Act::PoseHidden] + due(s.hook, Act::Hidden));
    }
}

/// A show that comes in before the compositor's word wins: the surface stays
/// mapped and is frosted again.
pub proof fn law_a_show_wins_over_a_hide_under_way(
    s: Reveal,
    animated: bool,
    fresh: bool,
    parked: bool,
)
    ensures
        ({
            let t = shows(s, animated, fresh, parked).0;
            thawed(t).0.mapped && thawed(t).0.shown && thawed(t).1 == seq![Act::FrostOn]
        }),
{
}

/// The owner is told at most once.
pub proof fn law_the_owner_is_told_once(s: Reveal)
    requires
        !s.shown,
    ensures
        thawed(s).1.contains(Act::Hidden) ==> s.hook,
        !thawed(thawed(s).0).1.contains(Act::Hidden),
{
    if s.hook {
        assert(thawed(s).1 =~= seq![Act::Unmap, Act::Hidden]);
    }
}

/// Showing maps the surface first, then binds its opacity where that is needed,
/// and frosts it only then; at the end it starts its entry, or jumps to its
/// shown pose. An entry begins from the hidden pose where nothing of the surface
/// could be seen.
pub proof fn law_a_surface_is_mapped_then_frosted(
    s: Reveal,
    animated: bool,
    fresh: bool,
    parked: bool,
)
    ensures
        ({
            let (t, acts) = shows(s, animated, fresh, parked);
            let f: int = if fresh {
                1
            } else {
                0
            };
            let n: int = if s.layer {
                f + 2
            } else {
                f + 1
            };
            &&& acts[0] == Act::Present
            &&& fresh ==> acts[1] == Act::Rebind
            &&& s.layer ==> acts[f + 1] == Act::FrostOn
            &&& !animated ==> acts.skip(n) == seq![Act::Halt, Act::PoseShown]
            &&& animated && (parked || !s.mapped) ==> acts.skip(n) == seq![
                Act::PoseHidden,
                Act::Start(Motion::Enter),
            ]
            &&& animated && !parked && s.mapped ==> acts.skip(n) == seq![Act::Start(Motion::Enter)]
            &&& t == (Reveal {
                shown: true,
                mapped: true,
                motion: if animated {
                    Some(Motion::Enter)
                } else {
                    None
                },
                ..s
            })
        }),
{
    let (t, acts) = shows(s, animated, fresh, parked);
    let f: int = if fresh {
        1
    } else {
        0
    };
    let n: int = if s.layer {
        f + 2
    } else {
        f + 1
    };
    if !animated {
        assert(acts.skip(n) =~= seq![Act::Halt, Act::PoseShown]);
    } else if parked || !s.mapped {
        assert(acts.skip(n) =~= seq![Act::PoseHidden, Act::Start(Motion::Enter)]);
    } else {
        assert(acts.skip(n) =~= seq![Act::Start(Motion::Enter)]);
    }
}

/// Hiding a surface that is on screen starts its exit, and does nothing else
/// until that is over. Without a transition, and at the end of one, the surface
/// jumps to its hidden pose; frost comes off next where there is any, and else
/// the surface is unmapped and its owner told.
pub proof fn law_a_surface_leaves_in_order(s: Reveal, animated: bool)
    ensures
        animated && s.mapped ==> hides(s, animated) == (
            Reveal { shown: false, motion: Some(Motion::Exit), ..s },
            seq![Act::Start(Motion::Exit)],
        ),
        !animated || !s.mapped ==> {
            let (t, acts) = hides(s, animated);
            &&& acts.len() > 0
            &&& acts[0] == Act::Halt
            &&& acts.skip(1) == moved(Reveal { motion: Some(Motion::Exit), ..s }).1
            &&& t == moved(Reveal { motion: Some(Motion::Exit), shown: false, ..s }).0
        },
        s.motion != Some(Motion::Exit) ==> moved(s) == (
            Reveal { motion: None, ..s },
            Seq::<Act>::empty(),
        ),
        s.motion == Some(Motion::Exit) && s.mapped && s.layer ==> moved(s) == (
            Reveal { motion: None, ..s },
            seq![Act::PoseHidden, Act::FrostOff],
        ),
        s.motion == Some(Motion::Exit) && s.mapped && !s.layer ==> {
            &&& moved(s).0 == (Reveal { motion: None, mapped: false, hook: false, ..s })
            &&& moved(s).1 == if s.hook {
                seq![Act::PoseHidden, Act::Unmap, Act::Hidden]
            } else {
                seq![Act::PoseHidden, Act::Unmap]
            }
        },
        s.motion == Some(Motion::Exit) && !s.mapped ==> {
            &&& moved(s).0 == (Reveal { motion: None, hook: false, ..s })
            &&& moved(s).1 == if s.hook {
                seq![Act::PoseHidden, Act::Hidden]
            } else {
                seq![Act::PoseHidden]
            }
        },
        !s.shown ==> {
            &&& thawed(s).0 == (Reveal { mapped: false, hook: false, ..s })
            &&& thawed(s).1 == if s.hook {
                seq![Act::Unmap, Act::Hidden]
            } else {
                seq![Act::Unmap]
            }
        },
        s.shown ==> thawed(s) == (s, seq![Act::FrostOn]),
{
    if !animated || !s.mapped {
        assert(hides(s, animated).1.skip(1) =~= moved(
            Reveal { motion: Some(Motion::Exit), ..s },
        ).1);
    }
}

} // verus!
