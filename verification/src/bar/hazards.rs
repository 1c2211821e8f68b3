//! The hazard lane: standing conditions worth a glyph.

use vstd::prelude::*;
use vstd::string::*;
use crate::text::{concat2, join, joined, same, texts};

verus! {

/// Whether a binding mode is worth a glyph. The empty name is what is known
/// before sway has reported.
pub open spec fn arms(mode: Seq<char>) -> bool {
    mode.len() > 0 && mode != "default"@
}

/// A non-default binding mode, if one is active.
pub fn armed_mode(mode: &str) -> (r: Option<&str>)
    ensures
        r == if arms(mode@) {
            Some(mode)
        } else {
            None
        },
{
    proof {
        reveal_strlit("");
    }
    if same(mode, "") || same(mode, "default") {
        assert(mode@ == ""@ ==> mode@.len() == 0);
        None
    } else {
        proof {
            if mode@.len() == 0 {
                assert(mode@ =~= ""@);
            }
        }
        Some(mode)
    }
}

/// The tooltip of an armed mode.
pub fn mode_tooltip(mode: &str) -> (r: String)
    ensures
        r@ == "Mode: "@ + mode@,
{
    concat2("Mode: ", mode)
}

/// The tooltip of the microphone: it names what is listening.
pub fn microphone_tooltip(names: &Vec<String>) -> (r: String)
    ensures
        r@ == if names@.len() == 0 {
            "Microphone in use"@
        } else {
            "Microphone: "@ + joined(texts(names@), ", "@)
        },
{
    if names.len() == 0 {
        return "Microphone in use".to_owned();
    }
    let list = join(names, ", ");
    concat2("Microphone: ", list.as_str())
}

/// Any mode but sway's own is worth a glyph; one that is not known yet is not.
pub proof fn law_only_another_mode_arms(mode: Seq<char>)
    ensures
        !arms("default"@),
        !arms(Seq::empty()),
        mode.len() > 0 ==> (arms(mode) <==> mode != "default"@),
{
}

} // verus!
