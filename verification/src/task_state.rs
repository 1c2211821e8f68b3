//! What the task service knows: the sessions of each of the four tasks.
//!
//! Points in time are nanoseconds since the Unix epoch, spans of time are
//! nanoseconds.

use vstd::prelude::*;
use crate::text::chars_of;

verus! {

/// Nanoseconds in a second.
pub const SECOND: u64 = 1_000_000_000;

/// What a session is doing.
#[derive(Debug, Clone, Copy, PartialEq, Eq, Structural)]
pub enum Activity {
    Working,
    /// Wants a permission.
    Blocked,
    /// Wants an answer.
    Waiting,
    Stopped,
    /// Its last write says nothing any more.
    Stale,
}

impl Activity {
    /// Whether the session cannot go on without its owner.
    pub open spec fn wants(self) -> bool {
        self == Activity::Blocked || self == Activity::Waiting
    }

    /// Whether the session cannot go on without its owner.
    pub fn wants_owner(&self) -> (r: bool)
        ensures
            r == self.wants(),
    {
        *self == Activity::Blocked || *self == Activity::Waiting
    }
}

/// How far a session has come.
#[derive(Debug, PartialEq, Eq)]
pub struct Progress {
    /// The text as the session wrote it.
    pub raw: String,
    /// The `N/M` in it.
    pub fraction: Option<(u32, u32)>,
}

#[derive(Debug, PartialEq, Eq)]
pub struct SessionState {
    pub pid: i32,
    pub desc: String,
    pub activity: Activity,
    pub progress: Option<Progress>,
    /// Name of the workspace it runs on.
    pub workspace: String,
    /// When its status was last written.
    pub status_mtime: Option<u64>,
    /// The owner has seen its wait.
    pub acked: bool,
}

#[derive(Debug, PartialEq, Eq, Default)]
pub struct TaskState {
    pub sessions: Vec<SessionState>,
    /// The name its owner gave it.
    pub manual: Option<String>,
}

#[derive(Debug, PartialEq, Eq, Default)]
pub struct TaskSnapshot {
    pub tasks: [TaskState; 4],
}

impl TaskSnapshot {
    /// The task with a number from one to four.
    pub fn task(&self, n: u8) -> (r: &TaskState)
        requires
            1 <= n <= 4,
        ensures
            *r == self.tasks@[n - 1],
    {
        &self.tasks[n as usize - 1]
    }
}

/// The position of the first character that is `c`, or the length.
pub open spec fn first_char(s: Seq<char>, c: char) -> int
    decreases s.len(),
{
    if s.len() == 0 {
        0
    } else if s[0] == c {
        0
    } else {
        1 + first_char(s.drop_first(), c)
    }
}

/// The task a workspace belongs to by its name: its number behind the first
/// colon, as in `5:t2a`.
pub open spec fn task_named(name: Seq<char>) -> Option<u8> {
    let at = first_char(name, ':');
    if at + 2 < name.len() && name[at + 1] == 't' && '1' <= name[at + 2] <= '4' {
        Some((name[at + 2] as u8 - 48) as u8)
    } else {
        None
    }
}

proof fn lemma_first_char(s: Seq<char>, c: char, i: int)
    requires
        0 <= i <= s.len(),
        forall|j: int| 0 <= j < i ==> s[j] != c,
        i < s.len() ==> s[i] == c,
    ensures
        first_char(s, c) == i,
    decreases s.len(),
{
    if i > 0 {
        assert forall|j: int| 0 <= j < i - 1 implies s.drop_first()[j] != c by {
            assert(s.drop_first()[j] == s[j + 1]);
        }
        lemma_first_char(s.drop_first(), c, i - 1);
    }
}

/// The task a workspace belongs to by its name.
pub fn task_of_name(name: &str) -> (r: Option<u8>)
    ensures
        r == task_named(name@),
        r is Some ==> 1 <= r->0 <= 4,
{
    let v = chars_of(name);
    let mut i: usize = 0;
    while i < v.len() && v[i] != ':'
        invariant
            i <= v@.len(),
            v@ == name@,
            forall|j: int| 0 <= j < i ==> v@[j] != ':',
        decreases v@.len() - i,
    {
        i += 1;
    }
    proof {
        lemma_first_char(v@, ':', i as int);
    }
    if i < v.len() && v.len() - i > 2 && v[i + 1] == 't' {
        let c: char = v[i + 2];
        if c == '1' {
            return Some(1);
        }
        if c == '2' {
            return Some(2);
        }
        if c == '3' {
            return Some(3);
        }
        if c == '4' {
            return Some(4);
        }
    }
    None
}

/// How old a point in time is; a missing one and one in the future (suspend
/// skew) count as age zero.
pub open spec fn age_of(at: Option<u64>, now: u64) -> u64 {
    if at is Some && at->0 <= now {
        (now - at->0) as u64
    } else {
        0
    }
}

/// A workspace belongs to task `n` exactly when its name holds, right behind
/// its first colon, a `t` and the digit of `n`.
pub proof fn law_a_workspace_names_its_task(name: Seq<char>, n: u8)
    ensures
        task_named(name) == Some(n) <==> exists|i: int|
            {
                &&& 0 <= i
                &&& i + 2 < name.len()
                &&& #[trigger] name[i] == ':'
                &&& forall|j: int| 0 <= j < i ==> name[j] != ':'
                &&& name[i + 1] == 't'
                &&& n == 1 && name[i + 2] == '1' || n == 2 && name[i + 2] == '2' || n == 3
                    && name[i + 2] == '3' || n == 4 && name[i + 2] == '4'
            },
        task_named(name) is Some ==> 1 <= task_named(name)->0 <= 4,
{
    let at = first_char(name, ':');
    lemma_first_char_found(name, ':');
    if task_named(name) == Some(n) {
        assert(name[at] == ':');
    }
    if exists|i: int|
        {
            &&& 0 <= i
            &&& i + 2 < name.len()
            &&& #[trigger] name[i] == ':'
            &&& forall|j: int| 0 <= j < i ==> name[j] != ':'
            &&& name[i + 1] == 't'
            &&& n == 1 && name[i + 2] == '1' || n == 2 && name[i + 2] == '2' || n == 3 && name[i
                + 2] == '3' || n == 4 && name[i + 2] == '4'
        } {
        let i = choose|i: int|
            {
                &&& 0 <= i
                &&& i + 2 < name.len()
                &&& #[trigger] name[i] == ':'
                &&& forall|j: int| 0 <= j < i ==> name[j] != ':'
                &&& name[i + 1] == 't'
                &&& n == 1 && name[i + 2] == '1' || n == 2 && name[i + 2] == '2' || n == 3
                    && name[i + 2] == '3' || n == 4 && name[i + 2] == '4'
            };
        lemma_first_char(name, ':', i);
    }
}

proof fn lemma_first_char_found(s: Seq<char>, c: char)
    ensures
        0 <= first_char(s, c) <= s.len(),
        first_char(s, c) < s.len() ==> s[first_char(s, c)] == c,
        forall|j: int| 0 <= j < first_char(s, c) ==> s[j] != c,
    decreases s.len(),
{
    if s.len() > 0 && s[0] != c {
        let rest = s.drop_first();
        lemma_first_char_found(rest, c);
        assert forall|j: int| 0 <= j < first_char(s, c) implies s[j] != c by {
            if j > 0 {
                assert(rest[j - 1] == s[j]);
            }
        }
    }
}

/// A session wants its owner when it waits for an answer or a permission. What
/// is in the past is as old as the time since; what is not has no age.
pub proof fn law_ages_and_wants(a: Activity, at: Option<u64>, now: u64)
    ensures
        a.wants() <==> a == Activity::Waiting || a == Activity::Blocked,
        at is Some && at->0 <= now ==> at->0 + age_of(at, now) == now,
        at is None || at->0 > now ==> age_of(at, now) == 0,
        SECOND == 1_000_000_000,
{
}

} // verus!
