//! The start button: finding the running panel.

use vstd::prelude::*;
use vstd::string::*;
use crate::text::{chars_of, matches_at, occurs_at, parse_signed, same, signed_number, trim, trim_chars, trimmed};

verus! {

/// The process number in the panel's pid file.
pub fn pid_in(text: &str) -> (r: Option<i32>)
    ensures
        r == signed_number(trimmed(text@)),
{
    let v = chars_of(text);
    let t = trim_chars(v.as_slice());
    parse_signed(t.as_slice())
}

/// Whether a process of that name is the panel.
pub open spec fn names_panel(comm: Seq<char>) -> bool {
    trimmed(comm) == "swaypplet"@ || occurs_at(trimmed(comm), ".swaypplet"@, 0)
}

/// Whether a process of that name is the panel: the program itself, or its
/// wrapper, whose name the kernel cuts to 15 characters. The pid file can
/// outlive a crashed panel, and its number can come back around.
pub fn is_panel(comm: &str) -> (r: bool)
    ensures
        r == names_panel(comm@),
{
    let name = trim(comm);
    if same(name.as_str(), "swaypplet") {
        return true;
    }
    let v = chars_of(name.as_str());
    let prefix = chars_of(".swaypplet");
    matches_at(v.as_slice(), prefix.as_slice(), 0)
}

/// The panel's process number, only if that process still is the panel;
/// `comm` is the name of the process with that number, if it can be read.
pub fn panel_pid(text: &str, comm: Option<&str>) -> (r: Option<i32>)
    ensures
        r == if comm is Some && names_panel(comm->0@) {
            signed_number(trimmed(text@))
        } else {
            None
        },
{
    let pid = pid_in(text);
    match comm {
        Some(c) => if is_panel(c) {
            pid
        } else {
            None
        },
        None => None,
    }
}

/// The program is the panel, and so is anything whose name starts as that of
/// its wrapper; white space around a name does not count, and nothing else is.
pub proof fn law_who_is_the_panel(comm: Seq<char>, rest: Seq<char>)
    ensures
        trimmed(comm) == "swaypplet"@ ==> names_panel(comm),
        trimmed(comm) == ".swaypplet"@ + rest ==> names_panel(comm),
        names_panel(comm) && trimmed(comm) != "swaypplet"@ ==> trimmed(comm).len() >= 10 && trimmed(
            comm,
        ).take(10) == ".swaypplet"@,
{
    reveal_strlit(".swaypplet");
    if trimmed(comm) == ".swaypplet"@ + rest {
        assert((".swaypplet"@ + rest).subrange(0, 10) =~= ".swaypplet"@);
    }
    if names_panel(comm) && trimmed(comm) != "swaypplet"@ {
        assert(trimmed(comm).take(10) =~= trimmed(comm).subrange(0, 10));
    }
}

} // verus!
