//! One fingerprint verification for a PAM prompt: exit 0 when the named
//! user's finger matched, any other exit when no reader is usable for this
//! attempt. A no-match never ends it.

use vstd::prelude::*;
use super::{EngineEvent, Flow};

verus! {

pub const EXIT_MATCH: i32 = 0;

pub const EXIT_NO_READER: i32 = 1;

pub const EXIT_USAGE: i32 = 2;

/// The user named on the command line, where one is.
pub fn named_user(arg: Option<String>) -> (r: Option<String>)
    ensures
        r == if arg is Some && arg->0@.len() > 0 {
            arg
        } else {
            None
        },
{
    match arg {
        Some(user) => if user.as_str().is_empty() {
            None
        } else {
            Some(user)
        },
        None => None,
    }
}

/// One verification: what the engine's sink has seen so far.
#[derive(Debug, Clone, Copy, PartialEq, Eq, Structural)]
pub struct Attempt {
    pub matched: bool,
}

impl Attempt {
    pub fn new() -> (r: Attempt)
        ensures
            !r.matched,
    {
        Attempt { matched: false }
    }

    /// The engine's sink: a match or a reader that is gone ends the attempt,
    /// hints and readiness have nowhere to go.
    pub fn sink(&mut self, event: &EngineEvent) -> (r: Flow)
        ensures
            final(self).matched == (old(self).matched || event is Match),
            r == if event is Match || event is Unavailable {
                Flow::Stop
            } else {
                Flow::Continue
            },
    {
        match event {
            EngineEvent::Match(_) => {
                self.matched = true;
                Flow::Stop
            },
            EngineEvent::Unavailable(_) => Flow::Stop,
            _ => Flow::Continue,
        }
    }

    /// The exit code of the process.
    pub fn exit_code(&self) -> (r: i32)
        ensures
            r == EXIT_MATCH <==> self.matched,
            r == EXIT_NO_READER <==> !self.matched,
    {
        if self.matched {
            EXIT_MATCH
        } else {
            EXIT_NO_READER
        }
    }
}

} // verus!
