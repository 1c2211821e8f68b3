//! The task pill: the sessions of the task this output shows.

use vstd::prelude::*;
use vstd::string::*;
use crate::bar::board::{local_task, task_shown};
use crate::sway_ipc::WorkspaceInfo;
use crate::task_state::{Activity, SessionState, TaskSnapshot, TaskState};
use crate::text::{concat2, decimal, decimal_of, same, same_text, text_of};

verus! {

/// A session as the pill shows it.
#[derive(Debug, PartialEq, Eq)]
pub struct Session {
    pub desc: String,
    pub activity: Activity,
    pub progress: Option<String>,
}

/// A [`Session`] as the contracts speak of it.
pub struct SessionModel {
    pub desc: Seq<char>,
    pub activity: Activity,
    pub progress: Option<Seq<char>>,
}

impl View for Session {
    type V = SessionModel;

    open spec fn view(&self) -> SessionModel {
        SessionModel { desc: self.desc@, activity: self.activity, progress: text_of(self.progress) }
    }
}

/// Everything the pill shows.
#[derive(Debug, PartialEq, Eq)]
pub struct PillView {
    /// 1–4 when this output's visible workspace belongs to a task.
    pub task: Option<u8>,
    pub sessions: Vec<Session>,
    pub manual: Option<String>,
}

/// A [`PillView`] as the contracts speak of it.
#[verifier::ext_equal]
pub struct PillModel {
    pub task: Option<u8>,
    pub sessions: Seq<SessionModel>,
    pub manual: Option<Seq<char>>,
}

impl View for PillView {
    type V = PillModel;

    open spec fn view(&self) -> PillModel {
        PillModel {
            task: self.task,
            sessions: self.sessions@.map_values(|s: Session| s@),
            manual: text_of(self.manual),
        }
    }
}

/// A session as the pill shows it.
pub open spec fn pill_session(s: SessionState) -> SessionModel {
    SessionModel {
        desc: s.desc@,
        activity: s.activity,
        progress: match s.progress {
            Some(p) => Some(p.raw@),
            None => None,
        },
    }
}

/// The pill of a task.
pub open spec fn pill_of(n: u8, task: TaskState) -> PillModel {
    PillModel {
        task: Some(n),
        sessions: task.sessions@.map_values(|s: SessionState| pill_session(s)),
        manual: text_of(task.manual),
    }
}

/// The pill of an output that shows no task.
pub open spec fn no_pill() -> PillModel {
    PillModel { task: None, sessions: Seq::empty(), manual: None }
}

/// What the pill of an output shows.
pub open spec fn pill(
    output: Option<Seq<char>>,
    list: Seq<WorkspaceInfo>,
    snap: TaskSnapshot,
) -> PillModel {
    match task_shown(output, list) {
        Some(n) => pill_of(n, snap.tasks@[n - 1]),
        None => no_pill(),
    }
}

impl PillView {
    /// Whether there is nothing to show.
    pub fn is_empty(&self) -> (r: bool)
        ensures
            r == (self.sessions@.len() == 0 && self.manual is None),
    {
        self.sessions.len() == 0 && self.manual.is_none()
    }
}

/// Reads this output's slice of the tasks.
pub fn read_view(
    output: Option<&str>,
    workspaces: &Vec<WorkspaceInfo>,
    tasks: &TaskSnapshot,
) -> (r: PillView)
    ensures
        r@ == pill(
            match output {
                Some(o) => Some(o@),
                None => None,
            },
            workspaces@,
            *tasks,
        ),
{
    let n: u8 = match local_task(output, workspaces) {
        Some(n) => n,
        None => {
            let r = PillView { task: None, sessions: Vec::new(), manual: None };
            assert(r@ =~= no_pill());
            return r;
        },
    };
    let state = tasks.task(n);
    let list = &state.sessions;
    let mut sessions: Vec<Session> = Vec::new();
    let mut i: usize = 0;
    while i < list.len()
        invariant
            i <= list@.len(),
            sessions@.len() == i,
            forall|j: int| 0 <= j < i ==> (#[trigger] sessions@[j])@ == pill_session(list@[j]),
        decreases list@.len() - i,
    {
        let s = &list[i];
        let progress = match &s.progress {
            Some(p) => Some(p.raw.clone()),
            None => None,
        };
        sessions.push(Session { desc: s.desc.clone(), activity: s.activity, progress });
        i += 1;
    }
    let manual = match &state.manual {
        Some(m) => Some(m.clone()),
        None => None,
    };
    let r = PillView { task: Some(n), sessions, manual };
    assert(r@.sessions =~= pill_of(n, *state).sessions);
    r
}

fn same_session(a: &Session, b: &Session) -> (r: bool)
    ensures
        r == (a@ == b@),
{
    same(a.desc.as_str(), b.desc.as_str()) && a.activity == b.activity && same_text(
        &a.progress,
        &b.progress,
    )
}

/// Whether two pills show the same.
pub fn same_pill(a: &PillView, b: &PillView) -> (r: bool)
    ensures
        r == (a@ == b@),
{
    if a.task != b.task || !same_text(&a.manual, &b.manual) || a.sessions.len() != b.sessions.len() {
        assert(a@.sessions.len() == a.sessions@.len() && b@.sessions.len() == b.sessions@.len());
        return false;
    }
    let mut i: usize = 0;
    while i < a.sessions.len()
        invariant
            i <= a.sessions@.len(),
            a.sessions@.len() == b.sessions@.len(),
            forall|j: int| 0 <= j < i ==> (#[trigger] a.sessions@[j])@ == b.sessions@[j]@,
        decreases a.sessions@.len() - i,
    {
        if !same_session(&a.sessions[i], &b.sessions[i]) {
            assert(a@.sessions[i as int] != b@.sessions[i as int]);
            return false;
        }
        i += 1;
    }
    assert(a@ =~= b@);
    true
}

/// One part of the pill's line.
#[derive(Debug, PartialEq, Eq)]
pub enum Part {
    /// The mark of an activity.
    Dot(Activity),
    /// Text of a session, cut where it grows too long.
    Desc(String),
    /// A separator.
    Dim(&'static str),
}

/// A [`Part`] as the contracts speak of it.
pub enum PartModel {
    Dot(Activity),
    Desc(Seq<char>),
    Dim(&'static str),
}

impl View for Part {
    type V = PartModel;

    open spec fn view(&self) -> PartModel {
        match *self {
            Part::Dot(a) => PartModel::Dot(a),
            Part::Desc(s) => PartModel::Desc(s@),
            Part::Dim(s) => PartModel::Dim(s),
        }
    }
}

/// The parts of a list.
pub open spec fn parts_of(v: Seq<Part>) -> Seq<PartModel> {
    v.map_values(|p: Part| p@)
}

/// The parts of one session.
pub open spec fn session_parts(s: SessionModel) -> Seq<PartModel> {
    let head = seq![PartModel::Dot(s.activity), PartModel::Desc(s.desc)];
    match s.progress {
        Some(p) => head + seq![PartModel::Dim("·"), PartModel::Desc(p)],
        None => head,
    }
}

/// The parts of all sessions, with a bar between them.
pub open spec fn sessions_parts(list: Seq<SessionModel>) -> Seq<PartModel>
    decreases list.len(),
{
    if list.len() == 0 {
        Seq::empty()
    } else if list.len() == 1 {
        session_parts(list.last())
    } else {
        sessions_parts(list.drop_last()) + seq![PartModel::Dim("|")] + session_parts(list.last())
    }
}

/// The line of a pill: its sessions, then the name its owner gave the task.
pub open spec fn pill_parts(p: PillModel) -> Seq<PartModel> {
    match p.manual {
        Some(m) => if p.sessions.len() == 0 {
            seq![PartModel::Desc(m)]
        } else {
            sessions_parts(p.sessions) + seq![PartModel::Dim("|"), PartModel::Desc(m)]
        },
        None => sessions_parts(p.sessions),
    }
}

fn push_part(v: &mut Vec<Part>, p: Part)
    ensures
        parts_of(final(v)@) == parts_of(old(v)@).push(p@),
{
    v.push(p);
    assert(parts_of(v@) =~= parts_of(old(v)@).push(p@));
}

/// What drawing the pill takes.
#[derive(Debug, PartialEq, Eq)]
pub struct Drawing {
    pub parts: Vec<Part>,
    pub visible: bool,
    pub tooltip: Tip,
}

/// What becomes of the pill's tooltip.
#[derive(Debug, PartialEq, Eq)]
pub enum Tip {
    Clear,
    Show(String),
    Keep,
}

/// Draws the pill. With no session and no name there is no pill.
pub fn render(view: &PillView) -> (r: Drawing)
    ensures
        parts_of(r.parts@) == pill_parts(view@),
        r.visible == !(view.sessions@.len() == 0 && view.manual is None),
        match r.tooltip {
            Tip::Clear => !r.visible,
            Tip::Show(t) => {
                &&& r.visible && view.task is Some
                &&& t@ == "Task "@ + decimal(view.task->0 as nat)
            },
            Tip::Keep => r.visible && view.task is None,
        },
{
    let mut parts: Vec<Part> = Vec::new();
    let mut i: usize = 0;
    assert(parts_of(parts@) =~= sessions_parts(view@.sessions.take(0)));
    while i < view.sessions.len()
        invariant
            i <= view.sessions@.len(),
            view@.sessions.len() == view.sessions@.len(),
            parts_of(parts@) == sessions_parts(view@.sessions.take(i as int)),
        decreases view.sessions@.len() - i,
    {
        let s = &view.sessions[i];
        let ghost before = parts_of(parts@);
        let ghost next = view@.sessions.take(i + 1);
        assert(next.drop_last() =~= view@.sessions.take(i as int));
        assert(next.last() == s@);
        if i > 0 {
            push_part(&mut parts, Part::Dim("|"));
        }
        push_part(&mut parts, Part::Dot(s.activity));
        push_part(&mut parts, Part::Desc(s.desc.clone()));
        if let Some(p) = &s.progress {
            push_part(&mut parts, Part::Dim("·"));
            push_part(&mut parts, Part::Desc(p.clone()));
        }
        assert(parts_of(parts@) =~= sessions_parts(next));
        i += 1;
    }
    assert(view@.sessions.take(view@.sessions.len() as int) =~= view@.sessions);
    if let Some(m) = &view.manual {
        if view.sessions.len() > 0 {
            push_part(&mut parts, Part::Dim("|"));
        }
        push_part(&mut parts, Part::Desc(m.clone()));
    }
    assert(parts_of(parts@) =~= pill_parts(view@));
    let visible = !view.is_empty();
    let tooltip = if !visible {
        Tip::Clear
    } else if let Some(n) = view.task {
        let number = decimal_of(n as u64);
        Tip::Show(concat2("Task ", number.as_str()))
    } else {
        Tip::Keep
    };
    Drawing { parts, visible, tooltip }
}

/// The pill of an output that shows a task has that task's number and name and
/// each of its sessions, in order, with its words, activity and progress; an
/// output that shows none has an empty pill.
pub proof fn law_what_a_pill_shows(
    output: Option<Seq<char>>,
    list: Seq<WorkspaceInfo>,
    snap: TaskSnapshot,
    i: int,
)
    ensures
        task_shown(output, list) is None ==> {
            let p = pill(output, list, snap);
            p.task is None && p.sessions.len() == 0 && p.manual is None
        },
        task_shown(output, list) is Some ==> {
            let n = task_shown(output, list)->0;
            let state = snap.tasks@[n - 1];
            let p = pill(output, list, snap);
            &&& p.task == Some(n)
            &&& p.sessions.len() == state.sessions@.len()
            &&& p.manual is Some <==> state.manual is Some
            &&& p.manual is Some ==> p.manual->0 == state.manual->0@
            &&& 0 <= i < p.sessions.len() ==> {
                let s = state.sessions@[i];
                &&& p.sessions[i].desc == s.desc@
                &&& p.sessions[i].activity == s.activity
                &&& p.sessions[i].progress is Some <==> s.progress is Some
                &&& s.progress is Some ==> p.sessions[i].progress->0 == s.progress->0.raw@
            }
        },
{
}

/// A session is drawn as its mark and its words, with its progress behind a dot
/// where it has one; a bar stands before it where another is drawn before.
pub proof fn law_how_sessions_are_drawn(list: Seq<SessionModel>, s: SessionModel)
    ensures
        ({
            let own = if s.progress is Some {
                seq![
                    PartModel::Dot(s.activity),
                    PartModel::Desc(s.desc),
                    PartModel::Dim("·"),
                    PartModel::Desc(s.progress->0),
                ]
            } else {
                seq![PartModel::Dot(s.activity), PartModel::Desc(s.desc)]
            };
            &&& sessions_parts(Seq::empty()).len() == 0
            &&& sessions_parts(seq![s]) == own
            &&& list.len() > 0 ==> sessions_parts(list.push(s)) == sessions_parts(list) + seq![
                PartModel::Dim("|"),
            ] + own
        }),
{
    assert(seq![s].last() == s);
    assert(list.push(s).drop_last() =~= list);
    assert(list.push(s).last() == s);
    if s.progress is Some {
        assert(session_parts(s) =~= seq![
            PartModel::Dot(s.activity),
            PartModel::Desc(s.desc),
            PartModel::Dim("·"),
            PartModel::Desc(s.progress->0),
        ]);
    }
}

/// The name its owner gave the task stands last, behind a bar where sessions
/// stand before it, and alone where none do.
pub proof fn law_the_name_stands_last(p: PillModel)
    ensures
        p.manual is None ==> pill_parts(p) == sessions_parts(p.sessions),
        p.manual is Some && p.sessions.len() == 0 ==> pill_parts(p) == seq![
            PartModel::Desc(p.manual->0),
        ],
        p.manual is Some && p.sessions.len() > 0 ==> pill_parts(p) == sessions_parts(p.sessions)
            + seq![PartModel::Dim("|"), PartModel::Desc(p.manual->0)],
{
}

} // verus!
