//! The plain agent: one verify loop for each greeter connection, gated on the
//! client's target and session alone.
//!
//! [`Loop::step`] takes what just happened and says what to do next: chores,
//! then an event for the client, then something to wait for. The token it
//! hands out on a match, and the helper that accepts it, are those of
//! [`crate::fp::agent`].

use vstd::prelude::*;
use crate::fp::{parse_verify_status, Enrollment, Lookup, Resolution, Verdict, Verify};
use crate::text::{concat2, concat3, same};

pub use crate::fp::agent::{
    check, ct_eq, mint_token, validate, Cmd, Ev, EvModel, Outcome, StoredToken,
};

verus! {

/// Milliseconds between two attempts to claim a busy reader.
pub const CLAIM_RETRY: u64 = 500;

/// Milliseconds after fprintd or the reader failed.
pub const FAULT_PAUSE: u64 = 1_000;

/// What to do once logind has not resolved the caller's own session: ask by
/// pid where one is known, give up otherwise.
pub fn after_failed_auto(pid: Option<u32>, auto_err: &str) -> (r: Resolution)
    ensures
        match pid {
            Some(p) => r == Resolution::Ask(Lookup::ByPid(p)),
            None => r is Failed && r->Failed_0@ == "GetSession(auto): "@ + auto_err@
                + "; no pid fallback"@,
        },
{
    match pid {
        Some(p) => Resolution::Ask(Lookup::ByPid(p)),
        None => Resolution::Failed(concat3("GetSession(auto): ", auto_err, "; no pid fallback")),
    }
}

/// The inputs that decide whether the reader may be claimed, and whether the
/// loop goes on at all.
#[derive(Debug)]
pub struct Gates {
    /// The user to verify right now, or `None` to stand down.
    pub target: Option<String>,
    /// The client's session is the active one.
    pub active: bool,
    /// The client is gone.
    pub closed: bool,
}

/// Something to do whose outcome does not matter.
#[derive(Debug, Clone, Copy, PartialEq, Eq, Structural)]
pub enum Chore {
    VerifyStop,
    Release,
}

/// What to do last; its outcome is the next [`Signal`].
#[derive(Debug)]
pub enum Wait {
    /// Read the gates, marking the target seen.
    ReadTarget,
    /// Read the gates, marking both seen.
    ReadGates,
    /// Read the gates, marking nothing seen.
    Peek,
    AwaitTarget,
    AwaitGates,
    Resolve,
    /// Subscribe to the device's status stream.
    Subscribe,
    ListEnrolled(String),
    Claim(String),
    BackOff(u64),
    VerifyStart,
    /// Until a status or a gate change.
    Listen,
    /// Pause this many milliseconds: `Paused`.
    Pause(u64),
    /// Mint and store a token for the user: `Minted`.
    Mint(String),
    Finish,
}

/// A [`Wait`] with its texts as sequences of characters.
pub enum WaitModel {
    ReadTarget,
    ReadGates,
    Peek,
    AwaitTarget,
    AwaitGates,
    Resolve,
    Subscribe,
    ListEnrolled(Seq<char>),
    Claim(Seq<char>),
    BackOff(u64),
    VerifyStart,
    Listen,
    Pause(u64),
    Mint(Seq<char>),
    Finish,
}

impl View for Wait {
    type V = WaitModel;

    open spec fn view(&self) -> WaitModel {
        match *self {
            Wait::ReadTarget => WaitModel::ReadTarget,
            Wait::ReadGates => WaitModel::ReadGates,
            Wait::Peek => WaitModel::Peek,
            Wait::AwaitTarget => WaitModel::AwaitTarget,
            Wait::AwaitGates => WaitModel::AwaitGates,
            Wait::Resolve => WaitModel::Resolve,
            Wait::Subscribe => WaitModel::Subscribe,
            Wait::ListEnrolled(user) => WaitModel::ListEnrolled(user@),
            Wait::Claim(user) => WaitModel::Claim(user@),
            Wait::BackOff(ms) => WaitModel::BackOff(ms),
            Wait::VerifyStart => WaitModel::VerifyStart,
            Wait::Listen => WaitModel::Listen,
            Wait::Pause(ms) => WaitModel::Pause(ms),
            Wait::Mint(user) => WaitModel::Mint(user@),
            Wait::Finish => WaitModel::Finish,
        }
    }
}

/// The model of an event that may be none.
pub open spec fn ev_model(ev: Option<Ev>) -> Option<EvModel> {
    match ev {
        None => None,
        Some(ev) => Some(ev@),
    }
}

/// What to do next: the chores in order, then the event for the client, then
/// the wait.
#[derive(Debug)]
pub struct Turn {
    pub todo: Vec<Chore>,
    pub say: Option<Ev>,
    pub wait: Wait,
}

/// A [`Turn`] as the contracts speak of it.
#[verifier::ext_equal]
pub struct TurnModel {
    pub todo: Seq<Chore>,
    pub say: Option<EvModel>,
    pub wait: WaitModel,
}

impl View for Turn {
    type V = TurnModel;

    open spec fn view(&self) -> TurnModel {
        TurnModel { todo: self.todo@, say: ev_model(self.say), wait: self.wait@ }
    }
}

/// What just happened.
#[derive(Debug)]
pub enum Signal {
    Gates(Gates),
    TargetChanged(Gates),
    /// The client is gone.
    TargetClosed,
    ActiveChanged(Gates),
    Resolved,
    ResolveFailed(String),
    Subscribed,
    SubscribeFailed(String),
    Fingers(Enrollment),
    Claimed,
    ClaimFailed,
    BackedOff,
    Status { result: String, done: bool },
    Unreadable,
    StreamEnded,
    Started,
    StartFailed,
    Paused,
    /// The token, where it could be stored.
    Minted(Option<String>),
}

/// Where the loop stands: what it is waiting for.
#[derive(Debug, Clone, Copy, PartialEq, Eq, Structural)]
pub enum Stage {
    Device,
    AwaitingDevice,
    Resolving,
    Subscribing,
    Outer,
    Parked,
    Enrolling,
    Retarget,
    AwaitingRetarget,
    ClaimTop,
    Claiming,
    BackingOff,
    VerifyTop,
    Starting,
    Listening,
    /// Pausing before starting over.
    PausedOuter,
    /// Pausing before the next verify on this claim.
    PausedVerify,
    Minting,
    Finished,
}

/// The verify loop of one client.
#[derive(Debug)]
pub struct Loop {
    stage: Stage,
    user: String,
}

/// A [`Loop`] as the contracts speak of it.
pub struct LoopModel {
    pub stage: Stage,
    pub user: Seq<char>,
}

impl View for Loop {
    type V = LoopModel;

    closed spec fn view(&self) -> LoopModel {
        LoopModel { stage: self.stage, user: self.user@ }
    }
}

/// `stage` next, with these chores, that event and that wait.
pub open spec fn go(
    l: LoopModel,
    stage: Stage,
    todo: Seq<Chore>,
    say: Option<EvModel>,
    wait: WaitModel,
) -> (LoopModel, TurnModel) {
    (LoopModel { stage, ..l }, TurnModel { todo, say, wait })
}

/// `user` is the one to verify, in an active session.
pub open spec fn wanted(gates: Gates, user: Seq<char>) -> bool {
    targets(gates, user) && gates.active
}

/// `user` is the one to verify.
pub open spec fn targets(gates: Gates, user: Seq<char>) -> bool {
    gates.target is Some && gates.target->0@ == user
}

/// A verdict on the running verify.
pub open spec fn on_verdict(l: LoopModel, v: Verdict) -> (LoopModel, TurnModel) {
    match v {
        Verdict::Match => go(
            l,
            Stage::Minting,
            seq![Chore::VerifyStop, Chore::Release],
            None,
            WaitModel::Mint(l.user),
        ),
        Verdict::NoMatch => go(
            l,
            Stage::VerifyTop,
            seq![Chore::VerifyStop],
            Some(EvModel::Hint("Not recognized — try again"@)),
            WaitModel::Peek,
        ),
        Verdict::Disconnected => go(
            l,
            Stage::PausedOuter,
            seq![Chore::Release],
            Some(EvModel::Unavailable("reader disconnected"@)),
            WaitModel::Pause(FAULT_PAUSE),
        ),
        Verdict::Error => go(
            l,
            Stage::PausedVerify,
            seq![Chore::VerifyStop],
            None,
            WaitModel::Pause(FAULT_PAUSE),
        ),
        Verdict::Hint(Some(text)) => go(
            l,
            Stage::Listening,
            Seq::empty(),
            Some(EvModel::Hint(text)),
            WaitModel::Listen,
        ),
        Verdict::Hint(None) => go(l, Stage::Listening, Seq::empty(), None, WaitModel::Listen),
    }
}

/// Something happened while a verify runs.
pub open spec fn on_listening(l: LoopModel, signal: Signal) -> (LoopModel, TurnModel) {
    let still = go(l, Stage::Listening, Seq::empty(), None, WaitModel::Listen);
    let stopped = seq![Chore::VerifyStop, Chore::Release];
    match signal {
        Signal::Status { result, done } => on_verdict(l, crate::fp::verdict(result@, done)),
        Signal::StreamEnded => go(
            l,
            Stage::PausedOuter,
            seq![Chore::Release],
            Some(EvModel::Unavailable("fprintd restarted"@)),
            WaitModel::Pause(FAULT_PAUSE),
        ),
        Signal::TargetClosed => go(l, Stage::Finished, stopped, None, WaitModel::Finish),
        Signal::TargetChanged(gates) => if targets(gates, l.user) {
            still
        } else {
            go(l, Stage::Outer, stopped, None, WaitModel::ReadGates)
        },
        Signal::ActiveChanged(gates) => if gates.active {
            still
        } else {
            go(
                l,
                Stage::Outer,
                stopped,
                Some(EvModel::Unavailable("session inactive"@)),
                WaitModel::ReadGates,
            )
        },
        _ => still,
    }
}

/// Whether a signal is one of the outcomes of what the loop waits for.
pub open spec fn expected(stage: Stage, signal: Signal) -> bool {
    match stage {
        Stage::Device | Stage::Outer | Stage::Retarget | Stage::ClaimTop | Stage::VerifyTop => {
            signal is Gates
        },
        Stage::AwaitingDevice | Stage::AwaitingRetarget => signal is TargetChanged
            || signal is TargetClosed,
        Stage::Resolving => signal is Resolved || signal is ResolveFailed,
        Stage::Subscribing => signal is Subscribed || signal is SubscribeFailed,
        Stage::Parked => signal is TargetChanged || signal is TargetClosed
            || signal is ActiveChanged,
        Stage::Enrolling => signal is Fingers,
        Stage::Claiming => signal is Claimed || signal is ClaimFailed,
        Stage::BackingOff => signal is BackedOff || signal is TargetChanged
            || signal is TargetClosed || signal is ActiveChanged,
        Stage::Starting => signal is Started || signal is StartFailed,
        Stage::Listening => {
            ||| signal is Status
            ||| signal is Unreadable
            ||| signal is StreamEnded
            ||| signal is TargetChanged
            ||| signal is TargetClosed
            ||| signal is ActiveChanged
        },
        Stage::PausedOuter | Stage::PausedVerify => signal is Paused,
        Stage::Minting => signal is Minted,
        Stage::Finished => false,
    }
}

/// What the loop does about a signal it waits for. Once the gates say that the
/// client is gone, a claim goes back and the loop ends.
pub open spec fn advance(l: LoopModel, signal: Signal) -> (LoopModel, TurnModel) {
    if signal is Gates && signal->Gates_0.closed {
        let todo = if l.stage == Stage::VerifyTop {
            seq![Chore::Release]
        } else {
            Seq::empty()
        };
        go(l, Stage::Finished, todo, None, WaitModel::Finish)
    } else {
        open_advance(l, signal)
    }
}

/// What the loop does about a signal it waits for, while the client is there.
pub open spec fn open_advance(l: LoopModel, signal: Signal) -> (LoopModel, TurnModel) {
    match (l.stage, signal) {
        (Stage::Device, Signal::Gates(gates)) => if gates.target is Some {
            go(l, Stage::Resolving, Seq::empty(), None, WaitModel::Resolve)
        } else {
            go(l, Stage::AwaitingDevice, Seq::empty(), None, WaitModel::AwaitTarget)
        },
        (Stage::AwaitingDevice, Signal::TargetChanged(_)) => go(
            l,
            Stage::Device,
            Seq::empty(),
            None,
            WaitModel::ReadTarget,
        ),
        (Stage::Resolving, Signal::Resolved) => go(
            l,
            Stage::Subscribing,
            Seq::empty(),
            None,
            WaitModel::Subscribe,
        ),
        (Stage::Resolving, Signal::ResolveFailed(err)) => go(
            l,
            Stage::AwaitingDevice,
            Seq::empty(),
            Some(EvModel::Unavailable("no fingerprint device: "@ + err@)),
            WaitModel::AwaitTarget,
        ),
        (Stage::Subscribing, Signal::SubscribeFailed(err)) => go(
            l,
            Stage::Finished,
            Seq::empty(),
            Some(EvModel::Unavailable("signal subscribe: "@ + err@)),
            WaitModel::Finish,
        ),
        (Stage::Outer, Signal::Gates(gates)) => if gates.target is Some && gates.active {
            go(
                LoopModel { user: gates.target->0@, ..l },
                Stage::Enrolling,
                Seq::empty(),
                None,
                WaitModel::ListEnrolled(gates.target->0@),
            )
        } else {
            go(l, Stage::Parked, Seq::empty(), None, WaitModel::AwaitGates)
        },
        (Stage::Enrolling, Signal::Fingers(prints)) => if prints == Enrollment::Missing {
            go(
                l,
                Stage::Retarget,
                Seq::empty(),
                Some(EvModel::Unavailable(l.user + ": no enrolled fingerprints"@)),
                WaitModel::ReadTarget,
            )
        } else {
            go(l, Stage::ClaimTop, Seq::empty(), None, WaitModel::Peek)
        },
        (Stage::Retarget, Signal::Gates(gates)) => if targets(gates, l.user) {
            go(l, Stage::AwaitingRetarget, Seq::empty(), None, WaitModel::AwaitTarget)
        } else {
            go(l, Stage::Outer, Seq::empty(), None, WaitModel::ReadGates)
        },
        (Stage::AwaitingRetarget, Signal::TargetChanged(_)) => go(
            l,
            Stage::Retarget,
            Seq::empty(),
            None,
            WaitModel::ReadTarget,
        ),
        (Stage::ClaimTop, Signal::Gates(gates)) => if wanted(gates, l.user) {
            go(l, Stage::Claiming, Seq::empty(), None, WaitModel::Claim(l.user))
        } else {
            go(l, Stage::Outer, Seq::empty(), None, WaitModel::ReadGates)
        },
        (Stage::Claiming, Signal::Claimed) => go(
            l,
            Stage::VerifyTop,
            Seq::empty(),
            Some(EvModel::Ready),
            WaitModel::Peek,
        ),
        (Stage::Claiming, _) => go(
            l,
            Stage::BackingOff,
            Seq::empty(),
            None,
            WaitModel::BackOff(CLAIM_RETRY),
        ),
        (Stage::VerifyTop, Signal::Gates(gates)) => if wanted(gates, l.user) {
            go(l, Stage::Starting, Seq::empty(), None, WaitModel::VerifyStart)
        } else {
            go(l, Stage::Outer, seq![Chore::Release], None, WaitModel::ReadGates)
        },
        (Stage::Starting, Signal::Started) => go(
            l,
            Stage::Listening,
            Seq::empty(),
            None,
            WaitModel::Listen,
        ),
        (Stage::Starting, _) => go(
            l,
            Stage::PausedOuter,
            seq![Chore::Release],
            None,
            WaitModel::Pause(FAULT_PAUSE),
        ),
        (Stage::Listening, _) => on_listening(l, signal),
        (Stage::Minting, Signal::Minted(token)) => go(
            l,
            Stage::Retarget,
            Seq::empty(),
            match token {
                Some(t) => Some(EvModel::Match(l.user, t@)),
                None => Some(EvModel::Unavailable("token mint failed"@)),
            },
            WaitModel::ReadTarget,
        ),
        (Stage::PausedVerify, _) => go(l, Stage::VerifyTop, Seq::empty(), None, WaitModel::Peek),
        (_, Signal::TargetClosed) => go(l, Stage::Finished, Seq::empty(), None, WaitModel::Finish),
        (Stage::BackingOff, _) => go(l, Stage::ClaimTop, Seq::empty(), None, WaitModel::Peek),
        // Subscribed, a gate that changed, a pause that is over.
        _ => go(l, Stage::Outer, Seq::empty(), None, WaitModel::ReadGates),
    }
}

fn targeted(gates: &Gates, user: &String) -> (r: bool)
    ensures
        r == targets(*gates, user@),
{
    match &gates.target {
        Some(target) => same(target.as_str(), user.as_str()),
        None => false,
    }
}

fn stopped() -> (r: Vec<Chore>)
    ensures
        r@ == seq![Chore::VerifyStop, Chore::Release],
{
    let todo = vec![Chore::VerifyStop, Chore::Release];
    assert(todo@ =~= seq![Chore::VerifyStop, Chore::Release]);
    todo
}

fn released() -> (r: Vec<Chore>)
    ensures
        r@ == seq![Chore::Release],
{
    let todo = vec![Chore::Release];
    assert(todo@ =~= seq![Chore::Release]);
    todo
}

fn verify_stopped() -> (r: Vec<Chore>)
    ensures
        r@ == seq![Chore::VerifyStop],
{
    let todo = vec![Chore::VerifyStop];
    assert(todo@ =~= seq![Chore::VerifyStop]);
    todo
}

fn unavailable(msg: &str) -> (r: Option<Ev>)
    ensures
        ev_model(r) == Some(EvModel::Unavailable(msg@)),
{
    Some(Ev::Unavailable { msg: msg.to_owned() })
}

impl Loop {
    /// The loop, and what it does first.
    pub fn start() -> (r: (Loop, Turn))
        ensures
            r.0@ == (LoopModel { stage: Stage::Device, user: Seq::empty() }),
            r.1@ == (TurnModel { todo: Seq::empty(), say: None, wait: WaitModel::ReadTarget }),
    {
        let l = Loop { stage: Stage::Device, user: String::new() };
        (l, Turn { todo: Vec::new(), say: None, wait: Wait::ReadTarget })
    }

    fn go(&mut self, stage: Stage, todo: Vec<Chore>, say: Option<Ev>, wait: Wait) -> (r: Turn)
        ensures
            (final(self)@, r@) == go(old(self)@, stage, todo@, ev_model(say), wait@),
    {
        self.stage = stage;
        Turn { todo, say, wait }
    }

    fn on_verdict(&mut self, verdict: Verify) -> (r: Turn)
        ensures
            (final(self)@, r@) == on_verdict(old(self)@, verdict@),
    {
        match verdict {
            Verify::Match => {
                let user = self.user.clone();
                self.go(Stage::Minting, stopped(), None, Wait::Mint(user))
            },
            Verify::NoMatch => {
                let hint = Ev::Hint { msg: "Not recognized — try again".to_owned() };
                self.go(Stage::VerifyTop, verify_stopped(), Some(hint), Wait::Peek)
            },
            Verify::Disconnected => self.go(
                Stage::PausedOuter,
                released(),
                unavailable("reader disconnected"),
                Wait::Pause(FAULT_PAUSE),
            ),
            Verify::Error => self.go(
                Stage::PausedVerify,
                verify_stopped(),
                None,
                Wait::Pause(FAULT_PAUSE),
            ),
            Verify::Hint(Some(text)) => {
                let hint = Ev::Hint { msg: text.to_owned() };
                self.go(Stage::Listening, Vec::new(), Some(hint), Wait::Listen)
            },
            Verify::Hint(None) => self.go(Stage::Listening, Vec::new(), None, Wait::Listen),
        }
    }

    fn on_listening(&mut self, signal: &Signal) -> (r: Turn)
        ensures
            (final(self)@, r@) == on_listening(old(self)@, *signal),
    {
        match signal {
            Signal::Status { result, done } => {
                let verdict = parse_verify_status(result.as_str(), *done);
                self.on_verdict(verdict)
            },
            Signal::StreamEnded => self.go(
                Stage::PausedOuter,
                released(),
                unavailable("fprintd restarted"),
                Wait::Pause(FAULT_PAUSE),
            ),
            Signal::TargetClosed => self.go(Stage::Finished, stopped(), None, Wait::Finish),
            Signal::TargetChanged(gates) => if targeted(gates, &self.user) {
                self.go(Stage::Listening, Vec::new(), None, Wait::Listen)
            } else {
                self.go(Stage::Outer, stopped(), None, Wait::ReadGates)
            },
            Signal::ActiveChanged(gates) => if gates.active {
                self.go(Stage::Listening, Vec::new(), None, Wait::Listen)
            } else {
                self.go(Stage::Outer, stopped(), unavailable("session inactive"), Wait::ReadGates)
            },
            _ => self.go(Stage::Listening, Vec::new(), None, Wait::Listen),
        }
    }

    fn on_gates(&mut self, gates: &Gates) -> (r: Turn)
        requires
            expected(old(self)@.stage, Signal::Gates(*gates)),
        ensures
            (final(self)@, r@) == advance(old(self)@, Signal::Gates(*gates)),
    {
        if gates.closed {
            let todo = if self.stage == Stage::VerifyTop {
                released()
            } else {
                Vec::new()
            };
            return self.go(Stage::Finished, todo, None, Wait::Finish);
        }
        let still_targeted = targeted(gates, &self.user);
        match self.stage {
            Stage::Device => if gates.target.is_some() {
                self.go(Stage::Resolving, Vec::new(), None, Wait::Resolve)
            } else {
                self.go(Stage::AwaitingDevice, Vec::new(), None, Wait::AwaitTarget)
            },
            Stage::Outer => {
                if gates.active {
                    if let Some(target) = &gates.target {
                        self.user = target.clone();
                        let wait = Wait::ListEnrolled(target.clone());
                        return self.go(Stage::Enrolling, Vec::new(), None, wait);
                    }
                }
                self.go(Stage::Parked, Vec::new(), None, Wait::AwaitGates)
            },
            Stage::Retarget => if still_targeted {
                self.go(Stage::AwaitingRetarget, Vec::new(), None, Wait::AwaitTarget)
            } else {
                self.go(Stage::Outer, Vec::new(), None, Wait::ReadGates)
            },
            Stage::ClaimTop => if still_targeted && gates.active {
                let user = self.user.clone();
                self.go(Stage::Claiming, Vec::new(), None, Wait::Claim(user))
            } else {
                self.go(Stage::Outer, Vec::new(), None, Wait::ReadGates)
            },
            _ => if still_targeted && gates.active {
                self.go(Stage::Starting, Vec::new(), None, Wait::VerifyStart)
            } else {
                self.go(Stage::Outer, released(), None, Wait::ReadGates)
            },
        }
    }

    /// Whether `signal` is one of the outcomes of what the loop waits for.
    pub fn accepts(&self, signal: &Signal) -> (r: bool)
        ensures
            r == expected(self@.stage, *signal),
    {
        let target = matches!(signal, Signal::TargetChanged(_) | Signal::TargetClosed);
        let gate = target || matches!(signal, Signal::ActiveChanged(_));
        match self.stage {
            Stage::Device => matches!(signal, Signal::Gates(_)),
            Stage::Outer => matches!(signal, Signal::Gates(_)),
            Stage::Retarget => matches!(signal, Signal::Gates(_)),
            Stage::ClaimTop => matches!(signal, Signal::Gates(_)),
            Stage::VerifyTop => matches!(signal, Signal::Gates(_)),
            Stage::AwaitingDevice => target,
            Stage::AwaitingRetarget => target,
            Stage::Resolving => matches!(signal, Signal::Resolved | Signal::ResolveFailed(_)),
            Stage::Subscribing => matches!(
                signal,
                Signal::Subscribed | Signal::SubscribeFailed(_)
            ),
            Stage::Parked => gate,
            Stage::Enrolling => matches!(signal, Signal::Fingers(_)),
            Stage::Claiming => matches!(signal, Signal::Claimed | Signal::ClaimFailed),
            Stage::BackingOff => gate || matches!(signal, Signal::BackedOff),
            Stage::Starting => matches!(signal, Signal::Started | Signal::StartFailed),
            Stage::Listening => gate || matches!(
                signal,
                Signal::Status { .. } | Signal::Unreadable | Signal::StreamEnded
            ),
            Stage::PausedOuter => matches!(signal, Signal::Paused),
            Stage::PausedVerify => matches!(signal, Signal::Paused),
            Stage::Minting => matches!(signal, Signal::Minted(_)),
            Stage::Finished => false,
        }
    }

    /// Takes what happened and says what to do next.
    pub fn step(&mut self, signal: Signal) -> (r: Turn)
        requires
            expected(old(self)@.stage, signal),
        ensures
            (final(self)@, r@) == advance(old(self)@, signal),
    {
        if let Stage::Listening = self.stage {
            return self.on_listening(&signal);
        }
        match signal {
            Signal::Gates(gates) => self.on_gates(&gates),
            Signal::Resolved => self.go(Stage::Subscribing, Vec::new(), None, Wait::Subscribe),
            Signal::ResolveFailed(err) => {
                let msg = concat2("no fingerprint device: ", err.as_str());
                let say = Some(Ev::Unavailable { msg });
                self.go(Stage::AwaitingDevice, Vec::new(), say, Wait::AwaitTarget)
            },
            Signal::SubscribeFailed(err) => {
                let msg = concat2("signal subscribe: ", err.as_str());
                self.go(Stage::Finished, Vec::new(), Some(Ev::Unavailable { msg }), Wait::Finish)
            },
            Signal::Fingers(prints) => if prints == Enrollment::Missing {
                let msg = concat2(self.user.as_str(), ": no enrolled fingerprints");
                let say = Some(Ev::Unavailable { msg });
                self.go(Stage::Retarget, Vec::new(), say, Wait::ReadTarget)
            } else {
                self.go(Stage::ClaimTop, Vec::new(), None, Wait::Peek)
            },
            Signal::Claimed => self.go(Stage::VerifyTop, Vec::new(), Some(Ev::Ready), Wait::Peek),
            Signal::ClaimFailed => self.go(
                Stage::BackingOff,
                Vec::new(),
                None,
                Wait::BackOff(CLAIM_RETRY),
            ),
            Signal::Started => self.go(Stage::Listening, Vec::new(), None, Wait::Listen),
            Signal::StartFailed => self.go(
                Stage::PausedOuter,
                released(),
                None,
                Wait::Pause(FAULT_PAUSE),
            ),
            Signal::Minted(token) => {
                let user = self.user.clone();
                let say = crate::fp::agent::minted(user, token);
                self.go(Stage::Retarget, Vec::new(), Some(say), Wait::ReadTarget)
            },
            Signal::TargetClosed => self.go(Stage::Finished, Vec::new(), None, Wait::Finish),
            _ => match self.stage {
                Stage::AwaitingDevice => self.go(
                    Stage::Device,
                    Vec::new(),
                    None,
                    Wait::ReadTarget,
                ),
                Stage::AwaitingRetarget => self.go(
                    Stage::Retarget,
                    Vec::new(),
                    None,
                    Wait::ReadTarget,
                ),
                Stage::BackingOff => self.go(Stage::ClaimTop, Vec::new(), None, Wait::Peek),
                Stage::PausedVerify => self.go(Stage::VerifyTop, Vec::new(), None, Wait::Peek),
                _ => self.go(Stage::Outer, Vec::new(), None, Wait::ReadGates),
            },
        }
    }
}

/// The stages in which the reader is claimed.
pub open spec fn holds_claim(stage: Stage) -> bool {
    match stage {
        Stage::VerifyTop | Stage::Starting | Stage::Listening | Stage::PausedVerify => true,
        _ => false,
    }
}

/// Every claim goes back, whichever way the loop leaves it: a retarget, a
/// deactivation, a disconnect, an fprintd restart or a client that is gone.
pub proof fn law_every_claim_is_released(l: LoopModel, signal: Signal)
    requires
        expected(l.stage, signal),
        holds_claim(l.stage),
        !holds_claim(advance(l, signal).0.stage),
    ensures
        advance(l, signal).1.todo.last() == Chore::Release,
        advance(l, signal).1.todo.len() > 0,
{
}

/// Whether a signal can come once the client is gone: gates that are read say
/// so, and a wait for the target ends with it.
pub open spec fn after_a_drop(stage: Stage, signal: Signal) -> bool {
    &&& expected(stage, signal)
    &&& signal is Gates ==> signal->Gates_0.closed
    &&& expected(stage, Signal::TargetClosed) ==> signal is TargetClosed
}

/// How many signals it takes at most to end the loop once the client is gone.
pub open spec fn signals_left(stage: Stage) -> nat {
    match stage {
        Stage::Finished => 0,
        Stage::Subscribing | Stage::Enrolling | Stage::Claiming | Stage::PausedOuter
        | Stage::PausedVerify | Stage::Minting => 2,
        Stage::Resolving | Stage::Starting => 3,
        _ => 1,
    }
}

/// Wherever the loop stands when its client goes, it ends within three signals.
pub proof fn law_a_client_that_is_gone_ends_the_loop(l: LoopModel, signal: Signal)
    requires
        after_a_drop(l.stage, signal),
    ensures
        signals_left(advance(l, signal).0.stage) < signals_left(l.stage) <= 3,
        signals_left(l.stage) == 0 <==> l.stage == Stage::Finished,
        advance(l, signal).0.stage == Stage::Finished ==> advance(l, signal).1.wait
            == WaitModel::Finish,
{
}

/// The reader is claimed only for the target, in an active session.
pub proof fn law_claims_only_while_wanted(l: LoopModel, signal: Signal)
    requires
        expected(l.stage, signal),
        advance(l, signal).1.wait is Claim,
    ensures
        signal matches Signal::Gates(gates) && wanted(gates, l.user),
        advance(l, signal).1.wait == WaitModel::Claim(l.user),
{
}

/// A token is minted exactly on fprintd's own match, for the claimed user,
/// with the reader free again.
pub proof fn law_token_only_on_a_match(l: LoopModel, signal: Signal)
    requires
        expected(l.stage, signal),
    ensures
        advance(l, signal).1.wait is Mint <==> (l.stage == Stage::Listening && (
        signal matches Signal::Status { result, done } && result@ == "verify-match"@)),
        advance(l, signal).1.wait is Mint ==> {
            &&& advance(l, signal).1.wait == WaitModel::Mint(l.user)
            &&& advance(l, signal).1.todo == seq![Chore::VerifyStop, Chore::Release]
        },
{
    if let Signal::Status { result, done } = signal {
        crate::fp::law_only_a_match_status_unlocks(result@, done);
    }
}

/// What is waited for says where the loop stands, and a call that names a user
/// names the one the claim is for.
pub proof fn law_each_wait_has_its_stage(l: LoopModel, signal: Signal)
    requires
        expected(l.stage, signal),
    ensures
        ({
            let (after, turn) = advance(l, signal);
            match turn.wait {
                WaitModel::ReadTarget => after.stage == Stage::Device || after.stage
                    == Stage::Retarget,
                WaitModel::ReadGates => after.stage == Stage::Outer,
                WaitModel::Peek => after.stage == Stage::ClaimTop || after.stage
                    == Stage::VerifyTop,
                WaitModel::AwaitTarget => after.stage == Stage::AwaitingDevice || after.stage
                    == Stage::AwaitingRetarget,
                WaitModel::AwaitGates => after.stage == Stage::Parked,
                WaitModel::Resolve => after.stage == Stage::Resolving,
                WaitModel::Subscribe => after.stage == Stage::Subscribing,
                WaitModel::ListEnrolled(user) => after.stage == Stage::Enrolling && after.user
                    == user,
                WaitModel::Claim(user) => after.stage == Stage::Claiming && after.user == user,
                WaitModel::BackOff(_) => after.stage == Stage::BackingOff,
                WaitModel::VerifyStart => after.stage == Stage::Starting,
                WaitModel::Listen => after.stage == Stage::Listening,
                WaitModel::Pause(_) => after.stage == Stage::PausedOuter || after.stage
                    == Stage::PausedVerify,
                WaitModel::Mint(user) => after.stage == Stage::Minting && after.user == user,
                WaitModel::Finish => after.stage == Stage::Finished,
            }
        }),
        l.stage != Stage::Outer ==> advance(l, signal).0.user == l.user,
{
}

/// Every outcome of what is waited for is taken, and no other signal.
pub proof fn law_every_outcome_is_taken(l: LoopModel, signal: Signal, next: Signal)
    requires
        expected(l.stage, signal),
    ensures
        expected(advance(l, signal).0.stage, next) <==> match advance(l, signal).1.wait {
            WaitModel::ReadTarget | WaitModel::ReadGates | WaitModel::Peek => next is Gates,
            WaitModel::AwaitTarget => next is TargetChanged || next is TargetClosed,
            WaitModel::AwaitGates => next is TargetChanged || next is TargetClosed
                || next is ActiveChanged,
            WaitModel::Resolve => next is Resolved || next is ResolveFailed,
            WaitModel::Subscribe => next is Subscribed || next is SubscribeFailed,
            WaitModel::ListEnrolled(_) => next is Fingers,
            WaitModel::Claim(_) => next is Claimed || next is ClaimFailed,
            WaitModel::BackOff(_) => next is BackedOff || next is TargetChanged
                || next is TargetClosed || next is ActiveChanged,
            WaitModel::VerifyStart => next is Started || next is StartFailed,
            WaitModel::Listen => next is Status || next is Unreadable || next is StreamEnded
                || next is TargetChanged || next is TargetClosed || next is ActiveChanged,
            WaitModel::Pause(_) => next is Paused,
            WaitModel::Mint(_) => next is Minted,
            WaitModel::Finish => false,
        },
{
}

/// How the device is come by: for a target alone. One that cannot be had is
/// told, and looked for on the next target; one that cannot be listened to ends
/// the loop.
pub proof fn law_how_the_device_is_come_by(l: LoopModel, gates: Gates, err: String)
    requires
        !gates.closed,
    ensures
        l.stage == Stage::Device ==> advance(l, Signal::Gates(gates)).1 == (TurnModel {
            todo: Seq::empty(),
            say: None,
            wait: if gates.target is Some {
                WaitModel::Resolve
            } else {
                WaitModel::AwaitTarget
            },
        }),
        l.stage == Stage::AwaitingDevice ==> advance(l, Signal::TargetChanged(gates)).1 == (
        TurnModel { todo: Seq::empty(), say: None, wait: WaitModel::ReadTarget }),
        l.stage == Stage::Resolving ==> {
            &&& advance(l, Signal::Resolved).1 == (TurnModel {
                todo: Seq::empty(),
                say: None,
                wait: WaitModel::Subscribe,
            })
            &&& advance(l, Signal::ResolveFailed(err)).1 == (TurnModel {
                todo: Seq::empty(),
                say: Some(EvModel::Unavailable("no fingerprint device: "@ + err@)),
                wait: WaitModel::AwaitTarget,
            })
            &&& advance(l, Signal::ResolveFailed(err)).0.stage == Stage::AwaitingDevice
        },
        l.stage == Stage::Subscribing ==> {
            &&& advance(l, Signal::Subscribed).1 == (TurnModel {
                todo: Seq::empty(),
                say: None,
                wait: WaitModel::ReadGates,
            })
            &&& advance(l, Signal::SubscribeFailed(err)).1 == (TurnModel {
                todo: Seq::empty(),
                say: Some(EvModel::Unavailable("signal subscribe: "@ + err@)),
                wait: WaitModel::Finish,
            })
        },
{
}

/// The loop parks unless there is a target in an active session; then it asks
/// for the prints of exactly that user. A user without prints is told and not
/// claimed for: the loop waits until somebody else is the target. Otherwise the
/// reader is claimed for them once the gates were read again.
pub proof fn law_no_prints_no_claim(
    l: LoopModel,
    gates: Gates,
    prints: Enrollment,
    changed: Signal,
)
    requires
        !gates.closed,
        changed is TargetChanged || changed is ActiveChanged,
    ensures
        l.stage == Stage::Outer ==> {
            let (after, turn) = advance(l, Signal::Gates(gates));
            &&& turn.todo == Seq::<Chore>::empty()
            &&& turn.say is None
            &&& if gates.target is Some && gates.active {
                turn.wait == WaitModel::ListEnrolled(gates.target->0@)
            } else {
                turn.wait == WaitModel::AwaitGates && after.user == l.user
            }
        },
        l.stage == Stage::Parked ==> advance(l, changed).1 == (TurnModel {
            todo: Seq::empty(),
            say: None,
            wait: WaitModel::ReadGates,
        }),
        l.stage == Stage::Enrolling ==> {
            let (told, turn) = advance(l, Signal::Fingers(Enrollment::Missing));
            let (after, next) = advance(told, Signal::Gates(gates));
            let (again, look) = advance(after, Signal::TargetChanged(gates));
            &&& turn.todo == Seq::<Chore>::empty()
            &&& turn.say == Some(EvModel::Unavailable(l.user + ": no enrolled fingerprints"@))
            &&& turn.wait == WaitModel::ReadTarget
            &&& next.todo == Seq::<Chore>::empty()
            &&& next.say is None
            &&& if gates.target is Some && gates.target->0@ == l.user {
                &&& next.wait == WaitModel::AwaitTarget
                &&& look.wait == WaitModel::ReadTarget
                &&& again.stage == Stage::Retarget
                &&& look.say is None
            } else {
                next.wait == WaitModel::ReadGates
            }
        },
        l.stage == Stage::Enrolling && prints != Enrollment::Missing ==> {
            let (looking, look) = advance(l, Signal::Fingers(prints));
            let (after, turn) = advance(looking, Signal::Gates(gates));
            &&& look == (TurnModel { todo: Seq::empty(), say: None, wait: WaitModel::Peek })
            &&& turn.todo == Seq::<Chore>::empty()
            &&& turn.say is None
            &&& turn.wait == if gates.target is Some && gates.target->0@ == l.user
                && gates.active {
                WaitModel::Claim(l.user)
            } else {
                WaitModel::ReadGates
            }
        },
        advance(l, Signal::Fingers(Enrollment::Missing)).0.stage == Stage::ClaimTop ==> l.stage
            == Stage::BackingOff,
{
}

/// A claim that is had is told as ready; one that is not is tried again half a
/// second later, after a look at the gates. A verify is started on it for the
/// wanted user, and the reader goes back where nobody is wanted. A verify that
/// cannot be started gives the reader back and starts over a second later.
pub proof fn law_how_a_claim_goes(l: LoopModel, gates: Gates, signal: Signal)
    requires
        !gates.closed,
    ensures
        l.stage == Stage::Claiming ==> {
            &&& advance(l, Signal::Claimed) == (
                LoopModel { stage: Stage::VerifyTop, ..l },
                TurnModel {
                    todo: Seq::empty(),
                    say: Some(EvModel::Ready),
                    wait: WaitModel::Peek,
                },
            )
            &&& advance(l, Signal::ClaimFailed).1 == (TurnModel {
                todo: Seq::empty(),
                say: None,
                wait: WaitModel::BackOff(500),
            })
        },
        l.stage == Stage::BackingOff && expected(l.stage, signal) && !(signal is TargetClosed)
            ==> advance(l, signal) == (
            LoopModel { stage: Stage::ClaimTop, ..l },
            TurnModel { todo: Seq::empty(), say: None, wait: WaitModel::Peek },
        ),
        l.stage == Stage::VerifyTop ==> advance(l, Signal::Gates(gates)).1 == if gates.target
            is Some && gates.target->0@ == l.user && gates.active {
            TurnModel { todo: Seq::empty(), say: None, wait: WaitModel::VerifyStart }
        } else {
            TurnModel { todo: seq![Chore::Release], say: None, wait: WaitModel::ReadGates }
        },
        l.stage == Stage::Starting ==> {
            let (failed, turn) = advance(l, Signal::StartFailed);
            &&& advance(l, Signal::Started).1 == (TurnModel {
                todo: Seq::empty(),
                say: None,
                wait: WaitModel::Listen,
            })
            &&& turn == (TurnModel {
                todo: seq![Chore::Release],
                say: None,
                wait: WaitModel::Pause(1000),
            })
            &&& advance(failed, Signal::Paused).1.wait == WaitModel::ReadGates
        },
{
}

/// What a status of the running verify leads to: a finger that is not
/// recognised is hinted at and tried again on the same claim; an error is tried
/// again a second later; a hint is passed on; a reader that went away is given
/// back, told, and looked for a second later.
pub proof fn law_every_verdict_is_acted_on(l: LoopModel, result: String, done: bool)
    requires
        l.stage == Stage::Listening,
    ensures
        ({
            let (after, turn) = advance(l, Signal::Status { result, done });
            let (then, next) = advance(after, Signal::Paused);
            match crate::fp::verdict(result@, done) {
                Verdict::Match => turn == (TurnModel {
                    todo: seq![Chore::VerifyStop, Chore::Release],
                    say: None,
                    wait: WaitModel::Mint(l.user),
                }),
                Verdict::NoMatch => turn == (TurnModel {
                    todo: seq![Chore::VerifyStop],
                    say: Some(EvModel::Hint("Not recognized — try again"@)),
                    wait: WaitModel::Peek,
                }) && after.stage == Stage::VerifyTop,
                Verdict::Disconnected => turn == (TurnModel {
                    todo: seq![Chore::Release],
                    say: Some(EvModel::Unavailable("reader disconnected"@)),
                    wait: WaitModel::Pause(1000),
                }) && next.wait == WaitModel::ReadGates,
                Verdict::Error => turn == (TurnModel {
                    todo: seq![Chore::VerifyStop],
                    say: None,
                    wait: WaitModel::Pause(1000),
                }) && next == (TurnModel {
                    todo: Seq::empty(),
                    say: None,
                    wait: WaitModel::Peek,
                }) && then.stage == Stage::VerifyTop,
                Verdict::Hint(Some(text)) => turn == (TurnModel {
                    todo: Seq::empty(),
                    say: Some(EvModel::Hint(text)),
                    wait: WaitModel::Listen,
                }),
                Verdict::Hint(None) => turn == (TurnModel {
                    todo: Seq::empty(),
                    say: None,
                    wait: WaitModel::Listen,
                }),
            }
        }),
{
}

/// A running verify ends with its target, its session, fprintd or its client,
/// and with nothing else; a session that went inactive and an fprintd that went
/// away are told.
pub proof fn law_what_ends_a_verify(l: LoopModel, gates: Gates)
    requires
        l.stage == Stage::Listening,
    ensures
        advance(l, Signal::TargetChanged(gates)).1 == if gates.target is Some && gates.target->0@
            == l.user {
            TurnModel { todo: Seq::empty(), say: None, wait: WaitModel::Listen }
        } else {
            TurnModel {
                todo: seq![Chore::VerifyStop, Chore::Release],
                say: None,
                wait: WaitModel::ReadGates,
            }
        },
        advance(l, Signal::ActiveChanged(gates)).1 == if gates.active {
            TurnModel { todo: Seq::empty(), say: None, wait: WaitModel::Listen }
        } else {
            TurnModel {
                todo: seq![Chore::VerifyStop, Chore::Release],
                say: Some(EvModel::Unavailable("session inactive"@)),
                wait: WaitModel::ReadGates,
            }
        },
        advance(l, Signal::StreamEnded) == (
            LoopModel { stage: Stage::PausedOuter, ..l },
            TurnModel {
                todo: seq![Chore::Release],
                say: Some(EvModel::Unavailable("fprintd restarted"@)),
                wait: WaitModel::Pause(1000),
            },
        ),
        advance(l, Signal::TargetClosed).1 == (TurnModel {
            todo: seq![Chore::VerifyStop, Chore::Release],
            say: None,
            wait: WaitModel::Finish,
        }),
        advance(l, Signal::Unreadable).1 == (TurnModel {
            todo: Seq::empty(),
            say: None,
            wait: WaitModel::Listen,
        }),
{
}

/// A match reaches the client with its token and its user; a token that could
/// not be stored is told as a reader that is of no use. Then the loop waits for
/// another target.
pub proof fn law_a_match_carries_its_token(l: LoopModel, token: Option<String>)
    requires
        l.stage == Stage::Minting,
    ensures
        advance(l, Signal::Minted(token)) == (
            LoopModel { stage: Stage::Retarget, ..l },
            TurnModel {
                todo: Seq::empty(),
                say: Some(
                    if token is Some {
                        EvModel::Match(l.user, token->0@)
                    } else {
                        EvModel::Unavailable("token mint failed"@)
                    },
                ),
                wait: WaitModel::ReadTarget,
            },
        ),
{
}

} // verus!
