//! The decision slot: the bar's center occupant.
//!
//! Empty at nominal, and empty means "nobody needs you". One occupant at a
//! time: a critical battery over the oldest unseen wait over nothing. Between
//! occupants the outgoing collapses first, then the incoming is revealed.

use vstd::prelude::*;
use vstd::string::*;
use crate::bar::battery::CRITICAL_PCT;
use crate::bar::board::{chip, chip_label, session_age, waits_unseen};
use crate::task_state::{age_of, Activity, SessionState, TaskSnapshot, TaskState};
use crate::text::{concat3, decimal, push_decimal, text_of};

verus! {

/// How long a collapse takes, in milliseconds.
pub const SWAP_MS: u64 = 200;

/// The longest description the slot shows, in characters.
pub const DESC_MAX_CHARS: i32 = 40;

/// What the slot knows of the battery.
#[derive(Debug, PartialEq, Eq)]
pub struct BatteryView {
    pub critical: bool,
    /// Charge and time to empty, as in `13% · 1h 5m`.
    pub text: String,
}

/// The battery's charge, with the time to empty where it is known.
pub open spec fn battery_text(capacity: u8, time_to_empty: Option<Seq<char>>) -> Seq<char> {
    match time_to_empty {
        Some(t) => decimal(capacity as nat) + "% · "@ + t,
        None => decimal(capacity as nat) + "%"@,
    }
}

impl BatteryView {
    /// Reads a battery: critical at or below the threshold, unless it charges.
    pub fn read(capacity: u8, charging: bool, time_to_empty: Option<&str>) -> (r: BatteryView)
        ensures
            r.critical == (capacity <= CRITICAL_PCT && !charging),
            r.text@ == battery_text(
                capacity,
                match time_to_empty {
                    Some(t) => Some(t@),
                    None => None,
                },
            ),
    {
        let mut text = String::new();
        push_decimal(&mut text, capacity as u64);
        match time_to_empty {
            Some(t) => {
                text.append("% · ");
                text.append(t);
            },
            None => text.append("%"),
        }
        assert(text@ =~= battery_text(
            capacity,
            match time_to_empty {
                Some(t) => Some(t@),
                None => None,
            },
        ));
        BatteryView { critical: capacity <= CRITICAL_PCT && !charging, text }
    }
}

/// Who holds the slot.
#[derive(Debug, PartialEq, Eq)]
pub enum Occ {
    Battery { text: String },
    Waiting {
        pid: i32,
        /// The number of the session's task.
        task: u8,
        desc: String,
        /// The age chip, and how many more wait.
        meta: Option<String>,
    },
}

/// An [`Occ`] as the contracts speak of it.
#[verifier::ext_equal]
pub enum OccModel {
    Battery { text: Seq<char> },
    Waiting { pid: i32, task: u8, desc: Seq<char>, meta: Option<Seq<char>> },
}

impl View for Occ {
    type V = OccModel;

    open spec fn view(&self) -> OccModel {
        match *self {
            Occ::Battery { text } => OccModel::Battery { text: text@ },
            Occ::Waiting { pid, task, desc, meta } => OccModel::Waiting {
                pid,
                task,
                desc: desc@,
                meta: text_of(meta),
            },
        }
    }
}

/// What tells an update in place from a handover.
#[derive(Debug, Clone, Copy, PartialEq, Eq, Structural)]
pub enum OccKey {
    Battery,
    Waiting(i32),
}

impl OccModel {
    pub open spec fn key(self) -> OccKey {
        match self {
            OccModel::Battery { .. } => OccKey::Battery,
            OccModel::Waiting { pid, .. } => OccKey::Waiting(pid),
        }
    }
}

impl Occ {
    /// Who this is, whatever it says at the moment.
    pub fn key(&self) -> (r: OccKey)
        ensures
            r == self@.key(),
    {
        match self {
            Occ::Battery { .. } => OccKey::Battery,
            Occ::Waiting { pid, .. } => OccKey::Waiting(*pid),
        }
    }
}

impl Clone for Occ {
    fn clone(&self) -> (r: Self)
        ensures
            r == *self,
    {
        match self {
            Occ::Battery { text } => Occ::Battery { text: text.clone() },
            Occ::Waiting { pid, task, desc, meta } => Occ::Waiting {
                pid: *pid,
                task: *task,
                desc: desc.clone(),
                meta: match meta {
                    Some(m) => Some(m.clone()),
                    None => None,
                },
            },
        }
    }
}

/// When a wait began, as the slot counts it: a missing or future time counts
/// as now.
pub open spec fn began(s: SessionState, now: u64) -> u64 {
    if s.status_mtime is Some && s.status_mtime->0 <= now {
        s.status_mtime->0
    } else {
        now
    }
}

/// Whether one wait goes before another: it began earlier, or at the same time
/// with a smaller process number.
pub open spec fn before(a: SessionState, b: SessionState, now: u64) -> bool {
    began(a, now) < began(b, now) || (began(a, now) == began(b, now) && a.pid < b.pid)
}

/// The sessions of the first `k` tasks, each with the number of its task.
pub open spec fn sessions_upto(tasks: Seq<TaskState>, k: nat) -> Seq<(u8, SessionState)>
    decreases k,
{
    if k == 0 {
        Seq::empty()
    } else {
        sessions_upto(tasks, (k - 1) as nat) + tagged(k as u8, tasks[k - 1].sessions@)
    }
}

/// Sessions with the number of their task.
pub open spec fn tagged(task: u8, sessions: Seq<SessionState>) -> Seq<(u8, SessionState)> {
    sessions.map_values(|s: SessionState| (task, s))
}

/// Sessions that wait unseen.
pub open spec fn waiting() -> spec_fn((u8, SessionState)) -> bool {
    |e: (u8, SessionState)| waits_unseen(e.1)
}

/// The unseen waits of all tasks.
pub open spec fn waits(snap: TaskSnapshot) -> Seq<(u8, SessionState)> {
    sessions_upto(snap.tasks@, 4).filter(waiting())
}

/// The wait that goes first; of equal ones the first listed.
pub open spec fn foremost(list: Seq<(u8, SessionState)>, now: u64) -> Option<(u8, SessionState)>
    decreases list.len(),
{
    if list.len() == 0 {
        None
    } else {
        let earlier = foremost(list.drop_last(), now);
        if earlier is None || before(list.last().1, (earlier->0).1, now) {
            Some(list.last())
        } else {
            earlier
        }
    }
}

/// What stands beside the description: the age chip, and how many more wait.
pub open spec fn meta_text(chip: Option<Seq<char>>, waits: nat) -> Option<Seq<char>> {
    if waits <= 1 {
        chip
    } else {
        let more = "+"@ + decimal((waits - 1) as nat);
        match chip {
            Some(c) => Some(c + " "@ + more),
            None => Some(more),
        }
    }
}

/// Who holds the slot: a critical battery, else the foremost unseen wait, else
/// nobody.
pub open spec fn holder(battery: Option<BatteryView>, snap: TaskSnapshot, now: u64) -> Option<
    OccModel,
> {
    if battery is Some && battery->0.critical {
        Some(OccModel::Battery { text: battery->0.text@ })
    } else {
        match foremost(waits(snap), now) {
            Some((task, s)) => Some(
                OccModel::Waiting {
                    pid: s.pid,
                    task,
                    desc: s.desc@,
                    meta: meta_text(chip(age_of(s.status_mtime, now)), waits(snap).len()),
                },
            ),
            None => None,
        }
    }
}

/// The model of a slot that may be empty.
pub open spec fn occ_of(o: Option<Occ>) -> Option<OccModel> {
    match o {
        Some(o) => Some(o@),
        None => None,
    }
}

fn began_at(s: &SessionState, now: u64) -> (r: u64)
    ensures
        r == began(*s, now),
{
    match s.status_mtime {
        Some(at) => if at <= now {
            at
        } else {
            now
        },
        None => now,
    }
}

/// Sessions by task and place.
spec fn named(snap: TaskSnapshot, list: Seq<(u8, usize)>) -> Seq<(u8, SessionState)> {
    list.map_values(|e: (u8, usize)| (e.0, snap.tasks@[e.0 - 1].sessions@[e.1 as int]))
}

spec fn in_place(snap: TaskSnapshot, list: Seq<(u8, usize)>) -> bool {
    forall|i: int|
        0 <= i < list.len() ==> 1 <= (#[trigger] list[i]).0 <= 4 && list[i].1
            < snap.tasks@[list[i].0 - 1].sessions@.len()
}

/// The unseen waits, by task and place.
fn waits_in(snap: &TaskSnapshot) -> (r: Vec<(u8, usize)>)
    ensures
        in_place(*snap, r@),
        named(*snap, r@) == waits(*snap),
{
    let mut r: Vec<(u8, usize)> = Vec::new();
    let mut n: u8 = 1;
    proof {
        reveal(Seq::filter);
        assert(named(*snap, r@) =~= sessions_upto(snap.tasks@, 0).filter(waiting()));
    }
    while n <= 4
        invariant
            1 <= n <= 5,
            in_place(*snap, r@),
            named(*snap, r@) == sessions_upto(snap.tasks@, (n - 1) as nat).filter(waiting()),
        decreases 5 - n,
    {
        let sessions = &snap.task(n).sessions;
        let ghost done = sessions_upto(snap.tasks@, (n - 1) as nat);
        let mut i: usize = 0;
        assert(done + tagged(n, sessions@.take(0)) =~= done);
        while i < sessions.len()
            invariant
                1 <= n <= 4,
                i <= sessions@.len(),
                sessions@ == snap.tasks@[n - 1].sessions@,
                in_place(*snap, r@),
                named(*snap, r@) == (done + tagged(n, sessions@.take(i as int))).filter(waiting()),
            decreases sessions@.len() - i,
        {
            let ghost next = done + tagged(n, sessions@.take(i + 1));
            assert(next.drop_last() =~= done + tagged(n, sessions@.take(i as int)));
            assert(next.last() == (n, sessions@[i as int]));
            proof {
                reveal(Seq::filter);
            }
            let ghost before = r@;
            if sessions[i].activity == Activity::Waiting && !sessions[i].acked {
                r.push((n, i));
                assert(named(*snap, r@) =~= named(*snap, before).push((n, sessions@[i as int])));
            }
            i += 1;
        }
        assert(sessions@.take(sessions@.len() as int) =~= sessions@);
        n += 1;
    }
    r
}

/// The priority mux: a critical battery, else the oldest unseen wait, else
/// nobody. Seen and other sessions never hold the slot.
pub fn occupant(battery: Option<&BatteryView>, snap: &TaskSnapshot, now: u64) -> (r: Option<Occ>)
    ensures
        occ_of(r) == holder(
            match battery {
                Some(b) => Some(*b),
                None => None,
            },
            *snap,
            now,
        ),
        r matches Some(Occ::Waiting { task, .. }) ==> 1 <= task <= 4,
{
    if let Some(b) = battery {
        if b.critical {
            return Some(Occ::Battery { text: b.text.clone() });
        }
    }
    let list = waits_in(snap);
    let mut first: Option<(u8, usize)> = None;
    let mut i: usize = 0;
    while i < list.len()
        invariant
            i <= list@.len(),
            in_place(*snap, list@),
            match first {
                Some(e) => {
                    &&& list@.contains(e)
                    &&& foremost(named(*snap, list@).take(i as int), now) == Some(
                        (e.0, snap.tasks@[e.0 - 1].sessions@[e.1 as int]),
                    )
                },
                None => foremost(named(*snap, list@).take(i as int), now) is None,
            },
        decreases list@.len() - i,
    {
        let (n, at) = list[i];
        assert(named(*snap, list@).take(i + 1).drop_last() =~= named(*snap, list@).take(i as int));
        assert(list@[i as int] == (n, at));
        let ahead = match first {
            Some((m, j)) => {
                assert(exists|k: int| 0 <= k < list@.len() && list@[k] == (m, j));
                let a = &snap.task(n).sessions[at];
                let b = &snap.task(m).sessions[j];
                let x: u64 = began_at(a, now);
                let y: u64 = began_at(b, now);
                x < y || (x == y && a.pid < b.pid)
            },
            None => true,
        };
        if ahead {
            first = Some((n, at));
        }
        i += 1;
    }
    assert(named(*snap, list@).take(list@.len() as int) =~= named(*snap, list@));
    match first {
        None => None,
        Some((n, at)) => {
            assert(exists|k: int| 0 <= k < list@.len() && list@[k] == (n, at));
            let s = &snap.task(n).sessions[at];
            let label = chip_label(session_age(s, now));
            let mut meta = label;
            if list.len() > 1 {
                let mut more = "+".to_owned();
                push_decimal(&mut more, (list.len() - 1) as u64);
                meta = match meta {
                    Some(c) => Some(concat3(c.as_str(), " ", more.as_str())),
                    None => Some(more),
                };
            }
            assert(waits(*snap).len() == list@.len());
            Some(Occ::Waiting { pid: s.pid, task: n, desc: s.desc.clone(), meta })
        },
    }
}

/// What the slot has drawn or has to do next.
#[derive(Debug, PartialEq, Eq)]
pub enum Step {
    /// Draw the occupant in place.
    Render(Occ),
    /// Draw the occupant and reveal it.
    Reveal(Occ),
    /// Collapse, and report when that is done.
    Collapse,
    Nothing,
}

/// A [`Step`] as the contracts speak of it.
pub enum StepModel {
    Render(OccModel),
    Reveal(OccModel),
    Collapse,
    Nothing,
}

impl View for Step {
    type V = StepModel;

    open spec fn view(&self) -> StepModel {
        match *self {
            Step::Render(o) => StepModel::Render(o@),
            Step::Reveal(o) => StepModel::Reveal(o@),
            Step::Collapse => StepModel::Collapse,
            Step::Nothing => StepModel::Nothing,
        }
    }
}

/// The slot: who is on screen, whom it converges toward, and whether a
/// collapse is in flight.
#[derive(Debug)]
pub struct DecisionSlot {
    shown: Option<OccKey>,
    desired: Option<Occ>,
    swapping: bool,
}

/// A [`DecisionSlot`] as the contracts speak of it.
pub struct SlotModel {
    pub shown: Option<OccKey>,
    pub desired: Option<OccModel>,
    pub swapping: bool,
}

impl View for DecisionSlot {
    type V = SlotModel;

    closed spec fn view(&self) -> SlotModel {
        SlotModel { shown: self.shown, desired: occ_of(self.desired), swapping: self.swapping }
    }
}

/// Who an occupant is, if there is one.
pub open spec fn key_of(o: Option<OccModel>) -> Option<OccKey> {
    match o {
        Some(o) => Some(o.key()),
        None => None,
    }
}

impl SlotModel {
    /// Outside a handover the slot shows whom it is meant to show; during one
    /// the outgoing occupant is still the one on screen.
    pub open spec fn inv(self) -> bool {
        if self.swapping {
            self.shown is Some
        } else {
            self.shown == key_of(self.desired)
        }
    }
}

/// The slot with nothing left to hand over.
pub open spec fn settled(desired: Option<OccModel>) -> (SlotModel, StepModel) {
    (
        SlotModel { shown: key_of(desired), desired, swapping: false },
        match desired {
            Some(o) => StepModel::Reveal(o),
            None => StepModel::Nothing,
        },
    )
}

/// The slot told whom to show.
pub open spec fn applied(slot: SlotModel, occ: Option<OccModel>) -> (SlotModel, StepModel) {
    if key_of(occ) == slot.shown {
        (
            SlotModel { desired: occ, ..slot },
            match occ {
                Some(o) => StepModel::Render(o),
                None => StepModel::Nothing,
            },
        )
    } else if slot.swapping {
        (SlotModel { desired: occ, ..slot }, StepModel::Nothing)
    } else if slot.shown is None {
        settled(occ)
    } else {
        (SlotModel { desired: occ, swapping: true, ..slot }, StepModel::Collapse)
    }
}

/// The slot after its collapse.
pub open spec fn collapsed(slot: SlotModel) -> (SlotModel, StepModel) {
    settled(slot.desired)
}

impl DecisionSlot {
    /// An empty slot.
    pub fn new() -> (r: DecisionSlot)
        ensures
            r@ == (SlotModel { shown: None, desired: None, swapping: false }),
            r@.inv(),
    {
        DecisionSlot { shown: None, desired: None, swapping: false }
    }

    /// Shows `occ`: in place where it is on screen already, else by a
    /// handover. During a handover this only changes who comes in.
    pub fn apply(&mut self, occ: Option<Occ>) -> (r: Step)
        requires
            old(self)@.inv(),
        ensures
            (final(self)@, r@) == applied(old(self)@, occ_of(occ)),
            final(self)@.inv(),
    {
        let key = match &occ {
            Some(o) => Some(o.key()),
            None => None,
        };
        let same = match (key, self.shown) {
            (Some(a), Some(b)) => a == b,
            (None, None) => true,
            _ => false,
        };
        if same {
            let r = match &occ {
                Some(o) => Step::Render(o.clone()),
                None => Step::Nothing,
            };
            self.desired = occ;
            return r;
        }
        self.desired = occ;
        if self.swapping {
            return Step::Nothing;
        }
        if self.shown.is_none() {
            return self.finish();
        }
        self.swapping = true;
        Step::Collapse
    }

    /// The collapse is over: reveals whoever is meant to be shown by now.
    pub fn collapse_done(&mut self) -> (r: Step)
        requires
            old(self)@.inv(),
            old(self)@.swapping,
        ensures
            (final(self)@, r@) == collapsed(old(self)@),
            final(self)@.inv(),
    {
        self.swapping = false;
        self.finish()
    }

    fn finish(&mut self) -> (r: Step)
        requires
            !old(self).swapping,
        ensures
            (final(self)@, r@) == settled(old(self)@.desired),
    {
        match &self.desired {
            Some(o) => {
                self.shown = Some(o.key());
                Step::Reveal(o.clone())
            },
            None => {
                self.shown = None;
                Step::Nothing
            },
        }
    }
}

/// What an occupant looks like.
#[derive(Debug, PartialEq, Eq)]
pub struct Face {
    pub critical: bool,
    pub dot: &'static str,
    /// The class of the dot, by the hue of the task.
    pub dot_class: Option<&'static str>,
    pub text: String,
    pub meta: Option<String>,
}

/// The class of the dot of a task.
pub open spec fn dot_class(task: u8) -> &'static str {
    if task == 1 {
        "t1"
    } else if task == 2 {
        "t2"
    } else if task == 3 {
        "t3"
    } else {
        "t4"
    }
}

/// Draws an occupant.
pub fn render(occ: &Occ) -> (r: Face)
    requires
        *occ matches Occ::Waiting { task, .. } ==> 1 <= task <= 4,
    ensures
        match occ@ {
            OccModel::Battery { text } => {
                &&& r.critical
                &&& r.dot == "󰂃"
                &&& r.dot_class is None
                &&& r.text@ == text
                &&& r.meta is None
            },
            OccModel::Waiting { pid: _, task, desc, meta } => {
                &&& !r.critical
                &&& r.dot == "●"
                &&& r.dot_class == Some(dot_class(task))
                &&& r.text@ == desc
                &&& text_of(r.meta) == meta
            },
        },
{
    match occ {
        Occ::Battery { text } => Face {
            critical: true,
            dot: "󰂃",
            dot_class: None,
            text: text.clone(),
            meta: None,
        },
        Occ::Waiting { pid: _, task, desc, meta } => Face {
            critical: false,
            dot: "●",
            dot_class: Some(
                if *task == 1 {
                    "t1"
                } else if *task == 2 {
                    "t2"
                } else if *task == 3 {
                    "t3"
                } else {
                    "t4"
                },
            ),
            text: desc.clone(),
            meta: match meta {
                Some(m) => Some(m.clone()),
                None => None,
            },
        },
    }
}

/// A critical battery holds the slot, whoever waits.
pub proof fn law_critical_battery_outranks_waiting(b: BatteryView, snap: TaskSnapshot, now: u64)
    requires
        b.critical,
    ensures
        holder(Some(b), snap, now) == Some(OccModel::Battery { text: b.text@ }),
{
}

proof fn lemma_foremost(list: Seq<(u8, SessionState)>, now: u64)
    ensures
        list.len() > 0 <==> foremost(list, now) is Some,
        foremost(list, now) is Some ==> list.contains(foremost(list, now)->0) && forall|i: int|
            0 <= i < list.len() ==> !before((#[trigger] list[i]).1, (foremost(list, now)->0).1, now),
    decreases list.len(),
{
    if list.len() > 0 {
        let head = list.drop_last();
        lemma_foremost(head, now);
        assert(list.last() == list[list.len() - 1]);
        if foremost(head, now) is Some {
            let at = choose|k: int| 0 <= k < head.len() && head[k] == foremost(head, now)->0;
            assert(list[at] == head[at]);
        }
        assert forall|i: int| 0 <= i < list.len() implies !before(
            (#[trigger] list[i]).1,
            (foremost(list, now)->0).1,
            now,
        ) by {
            if i < list.len() - 1 {
                assert(list[i] == head[i]);
            }
        }
    }
}

/// With no critical battery the slot is empty exactly when no session waits
/// unseen; otherwise the one who holds it waits unseen, and no unseen wait
/// goes before it.
pub proof fn law_the_oldest_unseen_wait_holds_the_slot(
    battery: Option<BatteryView>,
    snap: TaskSnapshot,
    now: u64,
)
    requires
        battery is Some ==> !battery->0.critical,
    ensures
        holder(battery, snap, now) is None <==> waits(snap).len() == 0,
        holder(battery, snap, now) is Some ==> exists|i: int|
            {
                &&& 0 <= i < waits(snap).len()
                &&& holder(battery, snap, now)->0.key() == OccKey::Waiting(
                    (#[trigger] waits(snap)[i]).1.pid,
                )
                &&& waits_unseen(waits(snap)[i].1)
                &&& forall|j: int|
                    0 <= j < waits(snap).len() ==> !before(
                        (#[trigger] waits(snap)[j]).1,
                        waits(snap)[i].1,
                        now,
                    )
            },
{
    lemma_foremost(waits(snap), now);
    if waits(snap).len() > 0 {
        let list = waits(snap);
        let first = foremost(list, now)->0;
        let i = choose|k: int| 0 <= k < list.len() && list[k] == first;
        sessions_upto(snap.tasks@, 4).lemma_filter_pred(waiting(), i);
        assert(list[i] == first);
    }
}

/// Somebody new is revealed only when nobody is on screen: what is on screen
/// collapses first.
pub proof fn law_never_a_hard_swap(slot: SlotModel, occ: Option<OccModel>)
    requires
        slot.inv(),
    ensures
        applied(slot, occ).1 is Reveal ==> slot.shown is None && !slot.swapping,
        applied(slot, occ).1 matches StepModel::Render(o) ==> slot.shown == Some(o.key()),
        applied(slot, occ).1 is Collapse ==> slot.shown is Some && !slot.swapping && applied(
            slot,
            occ,
        ).0.swapping,
{
}

/// Whatever the slot is told during a handover, it ends with the last of it on
/// screen, in a single step.
pub proof fn law_the_slot_converges(slot: SlotModel, occ: Option<OccModel>)
    requires
        slot.inv(),
    ensures
        applied(slot, occ).0.desired == occ,
        !applied(slot, occ).0.swapping ==> applied(slot, occ).0.shown == key_of(occ),
        applied(slot, occ).0.swapping ==> collapsed(applied(slot, occ).0).0.shown == key_of(occ),
        collapsed(applied(slot, occ).0).0.inv(),
        occ is Some && applied(slot, occ).0.swapping ==> collapsed(applied(slot, occ).0).1
            == StepModel::Reveal(occ->0),
{
}

/// A session of one of the first `k` tasks, with the number of its task.
spec fn of_a_task(tasks: Seq<TaskState>, k: nat, e: (u8, SessionState)) -> bool {
    exists|n: int, i: int|
        {
            &&& 0 <= n < k
            &&& 0 <= i < tasks[n].sessions@.len()
            &&& e == ((n + 1) as u8, #[trigger] tasks[n].sessions@[i])
        }
}

/// The sessions of the first tasks are those of each of them, with the number
/// of their task, and no others.
proof fn lemma_sessions_upto(tasks: Seq<TaskState>, k: nat, e: (u8, SessionState))
    requires
        k <= 4,
    ensures
        sessions_upto(tasks, k).contains(e) <==> of_a_task(tasks, k, e),
    decreases k,
{
    if k > 0 {
        let less = (k - 1) as nat;
        lemma_sessions_upto(tasks, less, e);
        let head = sessions_upto(tasks, less);
        let own = tagged(k as u8, tasks[k - 1].sessions@);
        let all = sessions_upto(tasks, k);
        if of_a_task(tasks, k, e) {
            let (n, i) = choose|n: int, i: int|
                {
                    &&& 0 <= n < k
                    &&& 0 <= i < tasks[n].sessions@.len()
                    &&& e == ((n + 1) as u8, #[trigger] tasks[n].sessions@[i])
                };
            if n < less {
                assert(of_a_task(tasks, less, e));
                let p = choose|p: int| 0 <= p < head.len() && head[p] == e;
                assert(all[p] == e);
            } else {
                assert(own[i] == e);
                assert(all[head.len() + i] == own[i]);
            }
        }
        if all.contains(e) {
            let p = choose|p: int| 0 <= p < all.len() && all[p] == e;
            if p < head.len() {
                assert(head[p] == e);
                assert(of_a_task(tasks, less, e));
            } else {
                let i = p - head.len();
                assert(own[i] == e);
                assert(e == ((less as int + 1) as u8, tasks[less as int].sessions@[i]));
            }
        }
    }
}

/// How many sessions wait and were not seen.
pub open spec fn unseen_among(sessions: Seq<SessionState>) -> nat
    decreases sessions.len(),
{
    if sessions.len() == 0 {
        0
    } else {
        unseen_among(sessions.drop_last()) + (if sessions.last().activity == Activity::Waiting
            && !sessions.last().acked {
            1nat
        } else {
            0nat
        })
    }
}

proof fn lemma_tagged_count(task: u8, sessions: Seq<SessionState>)
    ensures
        tagged(task, sessions).filter(waiting()).len() == unseen_among(sessions),
    decreases sessions.len(),
{
    reveal(Seq::filter);
    if sessions.len() > 0 {
        lemma_tagged_count(task, sessions.drop_last());
        assert(tagged(task, sessions).drop_last() =~= tagged(task, sessions.drop_last()));
    } else {
        assert(tagged(task, sessions) =~= Seq::empty());
    }
}

proof fn lemma_count_upto(tasks: Seq<TaskState>, k: nat)
    ensures
        k == 0 ==> sessions_upto(tasks, k).filter(waiting()).len() == 0,
        k > 0 ==> sessions_upto(tasks, k).filter(waiting()).len() == sessions_upto(
            tasks,
            (k - 1) as nat,
        ).filter(waiting()).len() + unseen_among(tasks[k - 1].sessions@),
{
    reveal(Seq::filter);
    if k > 0 {
        lemma_tagged_count(k as u8, tasks[k - 1].sessions@);
        Seq::filter_distributes_over_add(
            sessions_upto(tasks, (k - 1) as nat),
            tagged(k as u8, tasks[k - 1].sessions@),
            waiting(),
        );
    }
}

proof fn lemma_total(snap: TaskSnapshot)
    ensures
        waits(snap).len() == unseen_among(snap.tasks@[0].sessions@) + unseen_among(
            snap.tasks@[1].sessions@,
        ) + unseen_among(snap.tasks@[2].sessions@) + unseen_among(snap.tasks@[3].sessions@),
{
    lemma_count_upto(snap.tasks@, 0);
    lemma_count_upto(snap.tasks@, 1);
    lemma_count_upto(snap.tasks@, 2);
    lemma_count_upto(snap.tasks@, 3);
    lemma_count_upto(snap.tasks@, 4);
}

proof fn lemma_wait_listed(snap: TaskSnapshot, n: int, i: int)
    requires
        0 <= n < 4,
        0 <= i < snap.tasks@[n].sessions@.len(),
        waits_unseen(snap.tasks@[n].sessions@[i]),
    ensures
        waits(snap).contains(((n + 1) as u8, snap.tasks@[n].sessions@[i])),
{
    let all = sessions_upto(snap.tasks@, 4);
    let e = ((n + 1) as u8, snap.tasks@[n].sessions@[i]);
    lemma_sessions_upto(snap.tasks@, 4, e);
    assert(of_a_task(snap.tasks@, 4, e));
    let p = choose|p: int| 0 <= p < all.len() && all[p] == e;
    all.lemma_filter_contains(waiting(), p);
}

proof fn lemma_first_in_line(snap: TaskSnapshot, now: u64) -> (w: (int, int))
    requires
        waits(snap).len() > 0,
    ensures
        0 <= w.0 < 4,
        0 <= w.1 < snap.tasks@[w.0].sessions@.len(),
        waits_unseen(snap.tasks@[w.0].sessions@[w.1]),
        foremost(waits(snap), now) == Some(
            ((w.0 + 1) as u8, snap.tasks@[w.0].sessions@[w.1]),
        ),
        forall|m: int, j: int|
            #![trigger snap.tasks@[m].sessions@[j]]
            0 <= m < 4 && 0 <= j < snap.tasks@[m].sessions@.len()
                && waits_unseen(snap.tasks@[m].sessions@[j]) ==> !before(
                snap.tasks@[m].sessions@[j],
                snap.tasks@[w.0].sessions@[w.1],
                now,
            ),
{
    let tasks = snap.tasks@;
    let all = sessions_upto(tasks, 4);
    let list = waits(snap);
    lemma_foremost(list, now);
    let first = foremost(list, now)->0;
    let at = choose|k: int| 0 <= k < list.len() && list[k] == first;
    all.lemma_filter_pred(waiting(), at);
    all.lemma_filter_contains_rev(waiting(), first);
    lemma_sessions_upto(tasks, 4, first);
    let (n, i) = choose|n: int, i: int|
        {
            &&& 0 <= n < 4
            &&& 0 <= i < tasks[n].sessions@.len()
            &&& first == ((n + 1) as u8, #[trigger] tasks[n].sessions@[i])
        };
    assert forall|m: int, j: int|
        #![trigger snap.tasks@[m].sessions@[j]]
        0 <= m < 4 && 0 <= j < snap.tasks@[m].sessions@.len()
            && waits_unseen(snap.tasks@[m].sessions@[j]) implies !before(
        snap.tasks@[m].sessions@[j],
        tasks[n].sessions@[i],
        now,
    ) by {
        lemma_wait_listed(snap, m, j);
        let e = ((m + 1) as u8, snap.tasks@[m].sessions@[j]);
        let q = choose|q: int| 0 <= q < list.len() && list[q] == e;
        assert(!before(list[q].1, first.1, now));
    }
    (n, i)
}

proof fn lemma_holder(battery: Option<BatteryView>, snap: TaskSnapshot, now: u64)
    requires
        battery is Some ==> !battery->0.critical,
    ensures
        holder(battery, snap, now) is Some <==> waits(snap).len() > 0,
        waits(snap).len() == 0 <==> forall|n: int, i: int|
            #![trigger snap.tasks@[n].sessions@[i]]
            0 <= n < 4 && 0 <= i < snap.tasks@[n].sessions@.len() ==> !waits_unseen(
                snap.tasks@[n].sessions@[i],
            ),
{
    lemma_foremost(waits(snap), now);
    if waits(snap).len() > 0 {
        let (n, i) = lemma_first_in_line(snap, now);
        assert(waits_unseen(snap.tasks@[n].sessions@[i]));
    } else {
        assert forall|n: int, i: int|
            #![trigger snap.tasks@[n].sessions@[i]]
            0 <= n < 4 && 0 <= i < snap.tasks@[n].sessions@.len() implies !waits_unseen(
            snap.tasks@[n].sessions@[i],
        ) by {
            if waits_unseen(snap.tasks@[n].sessions@[i]) {
                lemma_wait_listed(snap, n, i);
            }
        }
    }
}

/// With no critical battery the slot is empty exactly when no session of any of
/// the four tasks waits unseen. Otherwise it shows such a session, with the
/// number of its task, and none of them began to wait before it; of those that
/// began together it has the smallest process number. Beside it stand its age
/// and how many more wait.
pub proof fn law_nobody_waits_unshown(
    battery: Option<BatteryView>,
    snap: TaskSnapshot,
    now: u64,
)
    requires
        battery is Some ==> !battery->0.critical,
    ensures
        holder(battery, snap, now) is None <==> forall|n: int, i: int|
            #![trigger snap.tasks@[n].sessions@[i]]
            0 <= n < 4 && 0 <= i < snap.tasks@[n].sessions@.len() ==> {
                ||| snap.tasks@[n].sessions@[i].activity != Activity::Waiting
                ||| snap.tasks@[n].sessions@[i].acked
            },
        holder(battery, snap, now) is Some ==> exists|n: int, i: int|
            {
                let s = #[trigger] snap.tasks@[n].sessions@[i];
                let start = |x: SessionState|
                    if x.status_mtime is Some && x.status_mtime->0 <= now {
                        x.status_mtime->0
                    } else {
                        now
                    };
                let total = unseen_among(snap.tasks@[0].sessions@) + unseen_among(
                    snap.tasks@[1].sessions@,
                ) + unseen_among(snap.tasks@[2].sessions@) + unseen_among(
                    snap.tasks@[3].sessions@,
                );
                let age = chip((now - start(s)) as u64);
                &&& 0 <= n < 4
                &&& 0 <= i < snap.tasks@[n].sessions@.len()
                &&& s.activity == Activity::Waiting
                &&& !s.acked
                &&& holder(battery, snap, now)->0 matches OccModel::Waiting {
                    pid,
                    task,
                    desc,
                    meta,
                }
                &&& pid == s.pid
                &&& task == n + 1
                &&& desc == s.desc@
                &&& total > 0
                &&& total == 1 ==> meta == age
                &&& total > 1 && age is None ==> meta == Some(
                    "+"@ + decimal((total - 1) as nat),
                )
                &&& total > 1 && age is Some ==> meta == Some(
                    age->0 + " "@ + ("+"@ + decimal((total - 1) as nat)),
                )
                &&& forall|m: int, j: int|
                    #![trigger snap.tasks@[m].sessions@[j]]
                    0 <= m < 4 && 0 <= j < snap.tasks@[m].sessions@.len() ==> {
                        let t = snap.tasks@[m].sessions@[j];
                        t.activity == Activity::Waiting && !t.acked ==> {
                            ||| start(s) < start(t)
                            ||| start(s) == start(t) && s.pid <= t.pid
                        }
                    }
            },
{
    lemma_holder(battery, snap, now);
    if waits(snap).len() > 0 {
        let (n, i) = lemma_first_in_line(snap, now);
        let s = snap.tasks@[n].sessions@[i];
        lemma_total(snap);
        assert(age_of(s.status_mtime, now) == (now - began(s, now)) as u64);
        assert forall|m: int, j: int|
            #![trigger snap.tasks@[m].sessions@[j]]
            0 <= m < 4 && 0 <= j < snap.tasks@[m].sessions@.len()
                && waits_unseen(snap.tasks@[m].sessions@[j]) implies !before(
            snap.tasks@[m].sessions@[j],
            s,
            now,
        ) by {}
    }
}

/// What the slot does about whom it is told to show. Whoever is on screen
/// already is drawn anew in place; an empty slot reveals at once; anybody else
/// on screen collapses first, once, and stays there until that is over. Then
/// whoever is meant to be shown by that time is revealed.
pub proof fn law_a_handover_is_a_collapse_and_a_reveal(slot: SlotModel, occ: Option<OccModel>)
    requires
        slot.inv(),
    ensures
        ({
            let (after, step) = applied(slot, occ);
            let same = match (occ, slot.shown) {
                (Some(OccModel::Battery { .. }), Some(OccKey::Battery)) => true,
                (Some(OccModel::Waiting { pid, .. }), Some(OccKey::Waiting(p))) => pid == p,
                (None, None) => true,
                _ => false,
            };
            &&& after.desired == occ
            &&& same ==> {
                &&& after.shown == slot.shown
                &&& after.swapping == slot.swapping
                &&& step == match occ {
                    Some(o) => StepModel::Render(o),
                    None => StepModel::Nothing,
                }
            }
            &&& !same && slot.shown is None ==> {
                &&& step == StepModel::Reveal(occ->0)
                &&& !after.swapping
            }
            &&& !same && slot.shown is Some ==> {
                &&& after.shown == slot.shown
                &&& after.swapping
                &&& step == if slot.swapping {
                    StepModel::Nothing
                } else {
                    StepModel::Collapse
                }
            }
        }),
        !collapsed(slot).0.swapping,
        collapsed(slot).0.desired == slot.desired,
        collapsed(slot).1 == match slot.desired {
            Some(o) => StepModel::Reveal(o),
            None => StepModel::Nothing,
        },
        collapsed(slot).0.shown == match slot.desired {
            Some(OccModel::Battery { .. }) => Some(OccKey::Battery),
            Some(OccModel::Waiting { pid, .. }) => Some(OccKey::Waiting(pid)),
            None => None,
        },
{
}

/// The battery's text is its charge in per cent, and the time to empty behind
/// it where that is known; the dot of a task wears the task's number.
pub proof fn law_what_an_occupant_says(capacity: u8, left: Seq<char>, task: u8)
    ensures
        battery_text(capacity, None) == decimal(capacity as nat) + "%"@,
        battery_text(capacity, Some(left)) == battery_text(capacity, None) + " · "@ + left,
        1 <= task <= 4 ==> dot_class(task)@ == "t"@ + decimal(task as nat),
        SWAP_MS == 200,
        DESC_MAX_CHARS == 40,
{
    reveal_strlit("%");
    reveal_strlit("% · ");
    reveal_strlit(" · ");
    reveal_strlit("t");
    reveal_strlit("t1");
    reveal_strlit("t2");
    reveal_strlit("t3");
    reveal_strlit("t4");
    reveal_with_fuel(decimal, 2);
    assert("% · "@ =~= "%"@ + " · "@);
    assert(battery_text(capacity, Some(left)) =~= battery_text(capacity, None) + " · "@ + left);
    if 1 <= task <= 4 {
        assert(dot_class(task)@ =~= "t"@ + decimal(task as nat));
    }
}

} // verus!
