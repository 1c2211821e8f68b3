//! When the audio thread reads, and when it may wait.

use vstd::prelude::*;

verus! {

/// What keeps the audio thread from blocking: a command is queued, or a
/// re-read is owed.
#[derive(Debug, Clone, Copy, PartialEq, Eq, Structural)]
pub struct Pump {
    pub woken: bool,
    pub dirty: bool,
}

impl Pump {
    /// The first read is owed.
    pub fn new() -> (r: Pump)
        ensures
            !r.woken,
            r.dirty,
    {
        Pump { woken: false, dirty: true }
    }

    /// Whether the thread may wait for something to happen.
    pub fn may_block(&self) -> (r: bool)
        ensures
            r == (!self.woken && !self.dirty),
    {
        !self.woken && !self.dirty
    }

    /// A command was queued.
    pub fn wake(&mut self)
        ensures
            *final(self) == (Pump { woken: true, ..*old(self) }),
    {
        self.woken = true;
    }

    /// The server reported a change.
    pub fn mark(&mut self)
        ensures
            *final(self) == (Pump { dirty: true, ..*old(self) }),
    {
        self.dirty = true;
    }

    /// The queued commands were taken, and `applied` tells whether they asked
    /// for anything: whether the state is read now. A change that is reported
    /// during that read owes another.
    pub fn drained(&mut self, applied: bool) -> (r: bool)
        ensures
            r == (old(self).dirty || applied),
            *final(self) == (Pump { woken: false, dirty: false }),
    {
        let due = self.dirty || applied;
        self.woken = false;
        self.dirty = false;
        due
    }
}

/// How far a query has come.
#[derive(Debug, Clone, Copy, PartialEq, Eq, Structural)]
pub enum Query {
    Running,
    Done,
    Cancelled,
}

/// How many turns a query may take.
pub const QUERY_TURNS: u32 = 200;

/// What to do about a query.
#[derive(Debug, Clone, Copy, PartialEq, Eq)]
pub enum Wait {
    Finished,
    /// Run one more turn.
    Turn,
    Failed(&'static str),
}

/// What to do about a query after so many turns.
pub open spec fn awaited(turns: u32, ended: bool, query: Query) -> Wait {
    if turns >= QUERY_TURNS {
        Wait::Failed("query never finished")
    } else if ended || query == Query::Done {
        Wait::Finished
    } else if query == Query::Cancelled {
        Wait::Failed("query cancelled")
    } else {
        Wait::Turn
    }
}

/// What to do about a query after so many turns, which its end may have been
/// reported in.
pub fn wait(turns: u32, ended: bool, query: Query) -> (r: Wait)
    ensures
        r == awaited(turns, ended, query),
{
    if turns >= QUERY_TURNS {
        return Wait::Failed("query never finished");
    }
    if ended {
        return Wait::Finished;
    }
    match query {
        Query::Done => Wait::Finished,
        Query::Cancelled => Wait::Failed("query cancelled"),
        Query::Running => Wait::Turn,
    }
}

/// A query has two hundred turns, and fails with the last whatever comes of it.
/// Before that it is finished once its end was reported or it is done, fails
/// where it was cancelled, and else has one more turn.
pub proof fn law_a_query_has_its_turns(turns: u32, ended: bool, query: Query)
    ensures
        turns >= 200 ==> awaited(turns, ended, query) == Wait::Failed("query never finished"),
        turns < 200 && ended ==> awaited(turns, ended, query) is Finished,
        turns < 200 ==> awaited(turns, ended, Query::Done) is Finished,
        turns < 200 ==> awaited(turns, false, Query::Cancelled) == Wait::Failed("query cancelled"),
        turns < 200 ==> awaited(turns, false, Query::Running) is Turn,
{
}

} // verus!
