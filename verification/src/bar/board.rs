//! The board: four bays, one for each task, the same on every output.
//!
//! Position encodes the task, each bay draws its numeral, and every state
//! stays distinct under grayscale: socket = hollow ring, working = mid fill,
//! waiting = bright hue fill, stopped = near-off dot, stale = hollow flag.

use vstd::prelude::*;
use vstd::string::*;
use crate::sway_ipc::WorkspaceInfo;
use crate::task_state::{age_of, task_named, task_of_name, Activity, SessionState, TaskState, SECOND};
use crate::text::{decimal, push_decimal, same, same_text, text_of};

verus! {

/// Age chip appears once a wait is no longer a blip.
pub const CHIP_AFTER: u64 = 120_000_000_000;

/// Unacked past this earns the static luminance step.
pub const OVERDUE_AFTER: u64 = 600_000_000_000;

#[derive(Debug, Clone, Copy, PartialEq, Eq, Structural)]
pub enum BayState {
    Socket,
    Working,
    Waiting { acked: bool, overdue: bool },
    Stopped,
    Stale,
}

/// Everything one bay shows.
#[derive(Debug, PartialEq, Eq)]
pub struct BayView {
    pub state: BayState,
    /// Age chip text; `None` below the threshold.
    pub chip: Option<String>,
    /// `N/M` fraction for the bottom fill; single-session tasks only.
    pub fill: Option<(u32, u32)>,
    /// This output's visible workspace belongs to this bay's task.
    pub local: bool,
    pub tooltip: String,
}

/// A [`BayView`] as the contracts speak of it.
pub struct BayModel {
    pub state: BayState,
    pub chip: Option<Seq<char>>,
    pub fill: Option<(u32, u32)>,
    pub local: bool,
    pub tooltip: Seq<char>,
}

impl View for BayView {
    type V = BayModel;

    open spec fn view(&self) -> BayModel {
        BayModel {
            state: self.state,
            chip: text_of(self.chip),
            fill: self.fill,
            local: self.local,
            tooltip: self.tooltip@,
        }
    }
}

/// Whether a state asks for the owner's attention.
pub open spec fn unacked(state: BayState) -> bool {
    state matches BayState::Waiting { acked, .. } && !acked
}

impl BayView {
    pub fn is_unacked(&self) -> (r: bool)
        ensures
            r == unacked(self.state),
    {
        match self.state {
            BayState::Waiting { acked, .. } => !acked,
            _ => false,
        }
    }
}

/// The classes a state wears.
pub fn state_classes(state: BayState) -> (r: Vec<&'static str>)
    ensures
        match state {
            BayState::Socket => r@ == seq!["socket"],
            BayState::Working => r@ == seq!["working"],
            BayState::Waiting { acked, overdue } => if acked {
                r@ == seq!["waiting"]
            } else if overdue {
                r@ == seq!["waiting", "unacked", "overdue"]
            } else {
                r@ == seq!["waiting", "unacked"]
            },
            BayState::Stopped => r@ == seq!["stopped"],
            BayState::Stale => r@ == seq!["stale"],
        },
{
    let mut r: Vec<&'static str> = Vec::new();
    match state {
        BayState::Socket => r.push("socket"),
        BayState::Working => r.push("working"),
        BayState::Waiting { acked, overdue } => {
            r.push("waiting");
            if !acked {
                r.push("unacked");
                if overdue {
                    r.push("overdue");
                }
            }
        },
        BayState::Stopped => r.push("stopped"),
        BayState::Stale => r.push("stale"),
    }
    r
}

/// Shape channel beside the numeral: states whose box alone would not survive
/// grayscale get a glyph.
pub fn state_marker(state: BayState) -> (r: &'static str)
    ensures
        r@ == match state {
            BayState::Stopped => "·"@,
            BayState::Stale => "○"@,
            _ => ""@,
        },
{
    match state {
        BayState::Stopped => "·",
        BayState::Stale => "○",
        _ => "",
    }
}

/// How long ago a session's status was written; a missing or future time
/// counts as age zero.
pub fn session_age(s: &SessionState, now: u64) -> (r: u64)
    ensures
        r == age_of(s.status_mtime, now),
{
    match s.status_mtime {
        Some(at) => if at <= now {
            now - at
        } else {
            0
        },
        None => 0,
    }
}

/// The chip for an age: whole minutes up to an hour, whole hours from there.
pub open spec fn chip(age: u64) -> Option<Seq<char>> {
    let mins = age as int / SECOND as int / 60;
    if age < CHIP_AFTER {
        None
    } else if mins < 60 {
        Some(decimal(mins as nat) + "m"@)
    } else {
        Some(decimal((mins / 60) as nat) + "h"@)
    }
}

/// The age chip, once there is one.
pub fn chip_label(age: u64) -> (r: Option<String>)
    ensures
        text_of(r) == chip(age),
{
    if age < CHIP_AFTER {
        return None;
    }
    let mins: u64 = age / SECOND / 60;
    let mut s = String::new();
    if mins < 60 {
        push_decimal(&mut s, mins);
        s.append("m");
    } else {
        push_decimal(&mut s, mins / 60);
        s.append("h");
    }
    assert(s@ =~= chip(age)->0);
    Some(s)
}

/// The age of the oldest wait.
pub open spec fn longest_wait(sessions: Seq<SessionState>, now: u64) -> Option<u64>
    decreases sessions.len(),
{
    if sessions.len() == 0 {
        None
    } else {
        let before = longest_wait(sessions.drop_last(), now);
        let s = sessions.last();
        let age = age_of(s.status_mtime, now);
        if s.activity == Activity::Waiting && (before is None || age > before->0) {
            Some(age)
        } else {
            before
        }
    }
}

/// A session waits, and the owner has not seen it.
pub open spec fn waits_unseen(s: SessionState) -> bool {
    s.activity == Activity::Waiting && !s.acked
}

/// Some session is in that activity.
pub open spec fn any(sessions: Seq<SessionState>, a: Activity) -> bool {
    exists|i: int| 0 <= i < sessions.len() && (#[trigger] sessions[i]).activity == a
}

/// A task's sessions as one state: waiting outranks everything, then stale,
/// then working, then stopped.
pub open spec fn bay_state(sessions: Seq<SessionState>, now: u64) -> BayState {
    if any(sessions, Activity::Waiting) {
        BayState::Waiting {
            acked: !exists|i: int| 0 <= i < sessions.len() && waits_unseen(#[trigger] sessions[i]),
            overdue: exists|i: int|
                0 <= i < sessions.len() && waits_unseen(#[trigger] sessions[i]) && age_of(
                    sessions[i].status_mtime,
                    now,
                ) >= OVERDUE_AFTER,
        }
    } else if any(sessions, Activity::Stale) {
        BayState::Stale
    } else if any(sessions, Activity::Working) {
        BayState::Working
    } else if sessions.len() > 0 {
        BayState::Stopped
    } else {
        BayState::Socket
    }
}

/// A session's line: its description, and how far it has come.
pub open spec fn session_line(s: SessionState) -> Seq<char> {
    match s.progress {
        Some(p) => s.desc@ + " · "@ + p.raw@,
        None => s.desc@,
    }
}

/// A line for each session, each behind a newline.
pub open spec fn session_lines(sessions: Seq<SessionState>) -> Seq<char>
    decreases sessions.len(),
{
    if sessions.len() == 0 {
        Seq::empty()
    } else {
        session_lines(sessions.drop_last()) + "\n"@ + session_line(sessions.last())
    }
}

/// The tooltip of task `n`.
pub open spec fn tip(n: u8, task: TaskState) -> Seq<char> {
    let title = "Task "@ + decimal(n as nat);
    (match task.manual {
        Some(manual) => title + " · "@ + manual@,
        None => title,
    }) + session_lines(task.sessions@)
}

/// The tooltip of task `n`: its title, then a line for each session.
pub fn tooltip(n: u8, task: &TaskState) -> (r: String)
    ensures
        r@ == tip(n, *task),
{
    let mut s = "Task ".to_owned();
    push_decimal(&mut s, n as u64);
    if let Some(manual) = &task.manual {
        s.append(" · ");
        s.append(manual.as_str());
    }
    let ghost title = s@;
    let sessions = &task.sessions;
    let mut i: usize = 0;
    assert(s@ =~= title + session_lines(sessions@.take(0)));
    while i < sessions.len()
        invariant
            i <= sessions@.len(),
            s@ == title + session_lines(sessions@.take(i as int)),
        decreases sessions@.len() - i,
    {
        let ghost before = s@;
        assert(sessions@.take(i + 1).drop_last() =~= sessions@.take(i as int));
        s.append("\n");
        s.append(sessions[i].desc.as_str());
        if let Some(p) = &sessions[i].progress {
            s.append(" · ");
            s.append(p.raw.as_str());
        }
        assert(s@ =~= before + ("\n"@ + session_line(sessions@[i as int])));
        assert(s@ =~= title + session_lines(sessions@.take(i + 1)));
        i += 1;
    }
    assert(sessions@.take(sessions@.len() as int) =~= sessions@);
    s
}

/// What the bay of task `n` shows.
pub open spec fn bay(n: u8, task: TaskState, local: bool, now: u64) -> BayModel {
    BayModel {
        state: bay_state(task.sessions@, now),
        chip: match longest_wait(task.sessions@, now) {
            Some(age) => chip(age),
            None => None,
        },
        fill: if task.sessions@.len() == 1 && task.sessions@[0].progress is Some {
            task.sessions@[0].progress->0.fraction
        } else {
            None
        },
        local,
        tooltip: tip(n, task),
    }
}

/// Collapses a task's sessions into one bay. The oldest wait owns the chip,
/// which stays after the wait was seen.
pub fn bay_view(n: u8, task: &TaskState, local: bool, now: u64) -> (r: BayView)
    ensures
        r@ == bay(n, *task, local, now),
{
    let sessions = &task.sessions;
    let mut waiting = false;
    let mut stale = false;
    let mut working = false;
    let mut unseen = false;
    let mut overdue = false;
    let mut longest: Option<u64> = None;
    let mut i: usize = 0;
    while i < sessions.len()
        invariant
            i <= sessions@.len(),
            waiting == exists|j: int|
                0 <= j < i && (#[trigger] sessions@[j]).activity == Activity::Waiting,
            stale == exists|j: int|
                0 <= j < i && (#[trigger] sessions@[j]).activity == Activity::Stale,
            working == exists|j: int|
                0 <= j < i && (#[trigger] sessions@[j]).activity == Activity::Working,
            unseen == exists|j: int| 0 <= j < i && waits_unseen(#[trigger] sessions@[j]),
            overdue == exists|j: int|
                0 <= j < i && waits_unseen(#[trigger] sessions@[j]) && age_of(
                    sessions@[j].status_mtime,
                    now,
                ) >= OVERDUE_AFTER,
            longest == longest_wait(sessions@.take(i as int), now),
        decreases sessions@.len() - i,
    {
        let s = &sessions[i];
        assert(sessions@.take(i + 1).drop_last() =~= sessions@.take(i as int));
        let age: u64 = session_age(s, now);
        if s.activity == Activity::Waiting {
            waiting = true;
            if !s.acked {
                unseen = true;
                if age >= OVERDUE_AFTER {
                    overdue = true;
                }
            }
            let longer = match longest {
                Some(before) => age > before,
                None => true,
            };
            if longer {
                longest = Some(age);
            }
        } else if s.activity == Activity::Stale {
            stale = true;
        } else if s.activity == Activity::Working {
            working = true;
        }
        i += 1;
    }
    assert(sessions@.take(sessions@.len() as int) =~= sessions@);
    let state = if waiting {
        BayState::Waiting { acked: !unseen, overdue }
    } else if stale {
        BayState::Stale
    } else if working {
        BayState::Working
    } else if sessions.len() > 0 {
        BayState::Stopped
    } else {
        BayState::Socket
    };
    let chip = match longest {
        Some(age) => chip_label(age),
        None => None,
    };
    let mut fill: Option<(u32, u32)> = None;
    if sessions.len() == 1 {
        if let Some(p) = &sessions[0].progress {
            fill = p.fraction;
        }
    }
    BayView { state, chip, fill, local, tooltip: tooltip(n, task) }
}

/// The first visible workspace of an output.
pub open spec fn shown_on(list: Seq<WorkspaceInfo>, output: Seq<char>) -> Option<WorkspaceInfo>
    decreases list.len(),
{
    if list.len() == 0 {
        None
    } else if list[0].visible && list[0].output@ == output {
        Some(list[0])
    } else {
        shown_on(list.drop_first(), output)
    }
}

/// The task of an output: that of the workspace it shows.
pub open spec fn task_shown(output: Option<Seq<char>>, list: Seq<WorkspaceInfo>) -> Option<u8> {
    if output is Some && shown_on(list, output->0) is Some {
        task_named(shown_on(list, output->0)->0.name@)
    } else {
        None
    }
}

/// 1–4 when this output's visible workspace belongs to a task.
pub fn local_task(output: Option<&str>, workspaces: &Vec<WorkspaceInfo>) -> (r: Option<u8>)
    ensures
        r == task_shown(
            match output {
                Some(o) => Some(o@),
                None => None,
            },
            workspaces@,
        ),
        r is Some ==> 1 <= r->0 <= 4,
{
    let out = match output {
        Some(out) => out,
        None => return None,
    };
    let mut i: usize = 0;
    assert(workspaces@.skip(0) =~= workspaces@);
    while i < workspaces.len()
        invariant
            i <= workspaces@.len(),
            output == Some(out),
            shown_on(workspaces@, out@) == shown_on(workspaces@.skip(i as int), out@),
        decreases workspaces@.len() - i,
    {
        assert(workspaces@.skip(i as int).drop_first() =~= workspaces@.skip(i + 1));
        if workspaces[i].visible && same(workspaces[i].output.as_str(), out) {
            return task_of_name(workspaces[i].name.as_str());
        }
        i += 1;
    }
    None
}

/// The accent class a bar wears for its local task.
pub fn accent_class(task: Option<u8>) -> (r: Option<&'static str>)
    ensures
        r == match task {
            Some(1u8) => Some("bar-task1"),
            Some(2u8) => Some("bar-task2"),
            Some(3u8) => Some("bar-task3"),
            Some(4u8) => Some("bar-task4"),
            _ => None,
        },
{
    match task {
        Some(1) => Some("bar-task1"),
        Some(2) => Some("bar-task2"),
        Some(3) => Some("bar-task3"),
        Some(4) => Some("bar-task4"),
        _ => None,
    }
}

/// Whether two bays show the same.
pub fn same_bay(a: &BayView, b: &BayView) -> (r: bool)
    ensures
        r == (a@ == b@),
{
    a.state == b.state && same_text(&a.chip, &b.chip) && a.fill == b.fill && a.local == b.local
        && same(a.tooltip.as_str(), b.tooltip.as_str())
}

/// What drawing a bay takes.
#[derive(Debug, Clone, Copy, PartialEq, Eq, Structural)]
pub enum Redraw {
    /// It shows this already.
    Nothing,
    /// Draw it; with one nudge where a wait sets in.
    Draw { nudge: bool },
}

/// A bay on the bar: what it shows, once it shows anything.
#[derive(Debug)]
pub struct Bay {
    shown: Option<BayView>,
}

impl View for Bay {
    type V = Option<BayModel>;

    closed spec fn view(&self) -> Option<BayModel> {
        match self.shown {
            Some(v) => Some(v@),
            None => None,
        }
    }
}

impl Bay {
    /// A bay that shows nothing yet, so startup styling never reads as an
    /// onset.
    pub fn new() -> (r: Bay)
        ensures
            r@ is None,
    {
        Bay { shown: None }
    }

    /// Shows `view`. A refresh that changes nothing draws nothing, and the
    /// onset of an unseen wait nudges once.
    pub fn apply(&mut self, view: BayView) -> (r: Redraw)
        ensures
            final(self)@ == Some(view@),
            r == if old(self)@ == Some(view@) {
                Redraw::Nothing
            } else {
                Redraw::Draw {
                    nudge: old(self)@ is Some && unacked(view.state) && !unacked(
                        old(self)@->0.state,
                    ),
                }
            },
    {
        let mut nudge = false;
        if let Some(prev) = &self.shown {
            if same_bay(prev, &view) {
                self.shown = Some(view);
                return Redraw::Nothing;
            }
            nudge = view.is_unacked() && !prev.is_unacked();
        }
        self.shown = Some(view);
        Redraw::Draw { nudge }
    }
}

/// A bay with a waiting session waits, whatever else its task does; it stops
/// asking for attention exactly when every wait was seen, and is overdue only
/// while it asks.
pub proof fn law_waiting_outranks_everything(sessions: Seq<SessionState>, now: u64, i: int)
    requires
        0 <= i < sessions.len(),
        sessions[i].activity == Activity::Waiting,
    ensures
        bay_state(sessions, now) is Waiting,
        unacked(bay_state(sessions, now)) <==> exists|j: int|
            0 <= j < sessions.len() && waits_unseen(#[trigger] sessions[j]),
        bay_state(sessions, now)->overdue ==> unacked(bay_state(sessions, now)),
{
}

/// The chip tells the age of the oldest wait: no waiting session is older.
pub proof fn law_oldest_wait_owns_the_chip(sessions: Seq<SessionState>, now: u64, i: int)
    requires
        0 <= i < sessions.len(),
        sessions[i].activity == Activity::Waiting,
    ensures
        longest_wait(sessions, now) is Some,
        longest_wait(sessions, now)->0 >= age_of(sessions[i].status_mtime, now),
    decreases sessions.len(),
{
    if i < sessions.len() - 1 {
        law_oldest_wait_owns_the_chip(sessions.drop_last(), now, i);
    }
}

/// A bay without a session is a socket.
pub proof fn law_empty_bay_is_a_socket(n: u8, task: TaskState, local: bool, now: u64)
    requires
        task.sessions@.len() == 0,
    ensures
        bay(n, task, local, now).state == BayState::Socket,
        bay(n, task, local, now).chip is None,
        bay(n, task, local, now).fill is None,
{
}

/// What a bay shows of its sessions. It waits exactly when one of them waits,
/// asks for attention exactly while a wait was not seen, and is overdue exactly
/// while such a wait is ten minutes old. Without a wait the first of these that
/// some session is in: stale, working. Without any of these it is stopped, and
/// a socket where there is no session at all.
pub proof fn law_a_bay_shows_what_is_most_urgent(sessions: Seq<SessionState>, now: u64)
    ensures
        ({
            let state = bay_state(sessions, now);
            let waits = exists|i: int|
                0 <= i < sessions.len() && (#[trigger] sessions[i]).activity == Activity::Waiting;
            let stale = exists|i: int|
                0 <= i < sessions.len() && (#[trigger] sessions[i]).activity == Activity::Stale;
            let works = exists|i: int|
                0 <= i < sessions.len() && (#[trigger] sessions[i]).activity == Activity::Working;
            &&& state is Waiting <==> waits
            &&& state is Waiting ==> (state->acked <==> forall|i: int|
                0 <= i < sessions.len() && (#[trigger] sessions[i]).activity == Activity::Waiting
                    ==> sessions[i].acked)
            &&& state is Waiting ==> (state->overdue <==> exists|i: int|
                {
                    &&& 0 <= i < sessions.len()
                    &&& (#[trigger] sessions[i]).activity == Activity::Waiting
                    &&& !sessions[i].acked
                    &&& sessions[i].status_mtime is Some
                    &&& now - sessions[i].status_mtime->0 >= 600_000_000_000
                })
            &&& state is Stale <==> !waits && stale
            &&& state is Working <==> !waits && !stale && works
            &&& state is Stopped <==> !waits && !stale && !works && sessions.len() > 0
            &&& state is Socket <==> sessions.len() == 0
            &&& unacked(state) <==> exists|i: int|
                {
                    &&& 0 <= i < sessions.len()
                    &&& (#[trigger] sessions[i]).activity == Activity::Waiting
                    &&& !sessions[i].acked
                }
        }),
{
    if exists|i: int|
        {
            &&& 0 <= i < sessions.len()
            &&& waits_unseen(#[trigger] sessions[i])
            &&& age_of(sessions[i].status_mtime, now) >= OVERDUE_AFTER
        } {
        let i = choose|i: int|
            {
                &&& 0 <= i < sessions.len()
                &&& waits_unseen(#[trigger] sessions[i])
                &&& age_of(sessions[i].status_mtime, now) >= OVERDUE_AFTER
            };
        assert(now - sessions[i].status_mtime->0 >= 600_000_000_000);
    }
}

/// The longest wait is that of a session that waits, and there is none where
/// no session does.
pub proof fn law_the_longest_wait_is_somebodys(sessions: Seq<SessionState>, now: u64)
    ensures
        longest_wait(sessions, now) is Some ==> exists|i: int|
            {
                &&& 0 <= i < sessions.len()
                &&& (#[trigger] sessions[i]).activity == Activity::Waiting
                &&& longest_wait(sessions, now)->0 == age_of(sessions[i].status_mtime, now)
            },
    decreases sessions.len(),
{
    if sessions.len() > 0 {
        let head = sessions.drop_last();
        law_the_longest_wait_is_somebodys(head, now);
        if longest_wait(sessions, now) is Some {
            if longest_wait(sessions, now) == longest_wait(head, now) {
                let i = choose|i: int|
                    {
                        &&& 0 <= i < head.len()
                        &&& (#[trigger] head[i]).activity == Activity::Waiting
                        &&& longest_wait(head, now)->0 == age_of(head[i].status_mtime, now)
                    };
                assert(sessions[i] == head[i]);
            } else {
                assert(sessions[sessions.len() - 1] == sessions.last());
            }
        }
    }
}

/// An age has a chip from two minutes on: the whole minutes it holds, and from
/// an hour on the whole hours.
pub proof fn law_the_chip_tells_the_age(age: u64, n: nat)
    ensures
        chip(age) is None <==> age < 120 * 1_000_000_000,
        120_000_000_000 <= age < 3_600_000_000_000 && n * 60_000_000_000 <= age < (n + 1)
            * 60_000_000_000 ==> chip(age) == Some(decimal(n) + "m"@),
        age >= 3_600_000_000_000 && n * 3_600_000_000_000 <= age < (n + 1) * 3_600_000_000_000
            ==> chip(age) == Some(decimal(n) + "h"@),
{
    let mins = age as int / SECOND as int / 60;
    assert(mins == age as int / 60_000_000_000);
    if n * 3_600_000_000_000 <= age < (n + 1) * 3_600_000_000_000 {
        assert(mins / 60 == n);
    }
    if n * 60_000_000_000 <= age < (n + 1) * 60_000_000_000 {
        assert(mins == n);
    }
}

/// A bay fills by the progress of its session, where it has exactly one, wears
/// the chip of its longest wait, and is marked where its task is on screen. Its
/// tooltip is the task's title, and a line for each session below it.
pub proof fn law_what_a_bay_shows(n: u8, task: TaskState, local: bool, now: u64)
    ensures
        ({
            let b = bay(n, task, local, now);
            let list = task.sessions@;
            &&& b.fill is Some ==> list.len() == 1 && list[0].progress is Some && b.fill
                == list[0].progress->0.fraction
            &&& list.len() == 1 && list[0].progress is Some && list[0].progress->0.fraction is Some
                ==> b.fill is Some
            &&& b.local == local
            &&& b.state == bay_state(list, now)
            &&& longest_wait(list, now) is Some ==> b.chip == chip(longest_wait(list, now)->0)
            &&& longest_wait(list, now) is None ==> b.chip is None
            &&& task.manual is None ==> b.tooltip == "Task "@ + decimal(n as nat) + session_lines(
                list,
            )
            &&& task.manual is Some ==> b.tooltip == "Task "@ + decimal(n as nat) + " · "@
                + task.manual->0@ + session_lines(list)
        }),
{
}

/// A session adds a line of its own to the tooltip: what it does, and how far
/// it has come where it says so.
pub proof fn law_a_session_has_its_line(list: Seq<SessionState>, s: SessionState)
    ensures
        session_lines(Seq::empty()) == Seq::<char>::empty(),
        s.progress is None ==> session_lines(list.push(s)) == session_lines(list) + "\n"@ + s.desc@,
        s.progress is Some ==> session_lines(list.push(s)) == session_lines(list) + "\n"@ + (
        s.desc@ + " · "@ + s.progress->0.raw@),
{
    assert(list.push(s).drop_last() =~= list);
}

/// The task of an output is that of the first workspace listed as visible on
/// it; an output without one, and no output, have none.
pub proof fn law_an_output_shows_one_task(output: Seq<char>, list: Seq<WorkspaceInfo>, k: int)
    ensures
        task_shown(None, list) is None,
        0 <= k < list.len() && list[k].visible && list[k].output@ == output && (forall|j: int|
            0 <= j < k ==> !((#[trigger] list[j]).visible && list[j].output@ == output))
            ==> task_shown(Some(output), list) == task_named(list[k].name@),
        (forall|j: int|
            0 <= j < list.len() ==> !((#[trigger] list[j]).visible && list[j].output@ == output))
            ==> task_shown(Some(output), list) is None,
    decreases list.len(),
{
    if list.len() > 0 && !(list[0].visible && list[0].output@ == output) {
        let rest = list.drop_first();
        assert(forall|j: int| 0 <= j < rest.len() ==> #[trigger] rest[j] == list[j + 1]);
        law_an_output_shows_one_task(output, rest, k - 1);
        assert(task_shown(Some(output), list) == task_shown(Some(output), rest));
        if 0 < k < list.len() {
            assert(rest[k - 1] == list[k]);
        }
    }
}

} // verus!
