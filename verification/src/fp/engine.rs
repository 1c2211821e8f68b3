//! The one claim/verify state machine that both the lock screen and the
//! greeter's agent drive.
//!
//! It owns the whole lifecycle: resolve the device, gate on the session being
//! active and the machine awake, claim as the target user, verify, and release
//! on every edge (retarget, deactivate, suspend, fprintd restart, reader
//! disconnect). [`Engine::step`] takes what just happened and says what to do
//! next; the driver performs it and reports back. Times are milliseconds of
//! one monotonic clock.

use vstd::prelude::*;
use crate::text::{concat2, occurs, same};
use super::{
    absorb_echo, is_device_resetting, is_wedged_claim, parse_verify_status, unenrolled_msg,
    EngineEvent, Enrollment, Flow, Report, Verdict, Verify,
};

verus! {

/// Ping fprintd after this long with no status signal. Silence is what an
/// untouched reader sounds like, so silence alone never restarts the verify.
pub const VERIFY_SILENCE_PING: u64 = 40_000;

/// Floor between VerifyStart calls within one claim.
pub const VERIFY_RESTART_FLOOR: u64 = 400;

/// Claim retry cadence while the previous holder is about to release.
pub const CLAIM_RETRY: u64 = 500;

/// Claim retry cadence once the reader is held by something that is not
/// letting go, or while it resets.
pub const CLAIM_RETRY_SLOW: u64 = 2_000;

/// The failed claim at which the reader counts as busy.
pub const CLAIM_QUIET_ATTEMPTS: u32 = 6;

/// Cooldown between fprintd restarts for a device wedged open.
pub const UNWEDGE_COOLDOWN: u64 = 30_000;

/// Pause before fprintd is looked for again.
pub const RESOLVE_PAUSE: u64 = 2_000;

/// Pause after fprintd or the reader failed in some other way.
pub const FAULT_PAUSE: u64 = 1_000;

/// The inputs that decide whether the reader may be claimed, and whether the
/// engine goes on at all.
#[derive(Debug)]
pub struct Gates {
    /// The user to verify right now, or `None` to stand down.
    pub target: Option<String>,
    /// The logind session the claim is for is the active one.
    pub active: bool,
    /// The machine is heading into sleep.
    pub sleeping: bool,
    /// Nobody can send a target any more.
    pub closed: bool,
}

/// Something to do whose outcome does not matter.
#[derive(Debug, Clone, Copy, PartialEq, Eq, Structural)]
pub enum Chore {
    VerifyStop,
    Release,
    /// Close the sleep delay-inhibitor.
    DropInhibitor,
    RestartFprintd,
    /// Pause this many milliseconds.
    Sleep(u64),
}

/// What to do once the chores are done; its outcome is the next [`Signal`].
#[derive(Debug)]
pub enum Wait {
    /// Read the gates, marking the target seen: `Signal::Gates`.
    ReadTarget,
    /// Read the gates, marking all of them seen: `Signal::Gates`.
    ReadGates,
    /// Read the gates, marking nothing seen: `Signal::Gates`.
    Peek,
    /// Until the target changes: `TargetChanged` or `TargetClosed`.
    AwaitTarget,
    /// Until any gate changes.
    AwaitGates,
    /// Resolve the device and subscribe to its status stream.
    Resolve,
    ListEnrolled(String),
    /// Take a sleep delay-inhibitor: `Inhibitor`.
    TakeInhibitor,
    Claim(String),
    /// Until the milliseconds are over (`BackedOff`) or any gate changes.
    BackOff(u64),
    /// The next status that is already buffered: `Status`, `Unreadable` or
    /// `Drained`.
    NextBuffered,
    VerifyStart,
    /// Until a status, [`VERIFY_SILENCE_PING`] of silence (`Quiet`), or a
    /// gate change. The silence is counted anew where `reset` says so.
    Listen { reset: bool },
    /// Ask fprintd for its default device: `Pong`.
    Ping,
    /// Hand the event to the sink: `Sink`.
    Tell(EngineEvent),
    /// Nothing more to do.
    Finish,
}

/// A [`Wait`] with its texts as sequences of characters.
pub enum WaitModel {
    ReadTarget,
    ReadGates,
    Peek,
    AwaitTarget,
    AwaitGates,
    Resolve,
    ListEnrolled(Seq<char>),
    TakeInhibitor,
    Claim(Seq<char>),
    BackOff(u64),
    NextBuffered,
    VerifyStart,
    Listen { reset: bool },
    Ping,
    Tell(Report),
    Finish,
}

impl View for Wait {
    type V = WaitModel;

    open spec fn view(&self) -> WaitModel {
        match *self {
            Wait::ReadTarget => WaitModel::ReadTarget,
            Wait::ReadGates => WaitModel::ReadGates,
            Wait::Peek => WaitModel::Peek,
            Wait::AwaitTarget => WaitModel::AwaitTarget,
            Wait::AwaitGates => WaitModel::AwaitGates,
            Wait::Resolve => WaitModel::Resolve,
            Wait::ListEnrolled(user) => WaitModel::ListEnrolled(user@),
            Wait::TakeInhibitor => WaitModel::TakeInhibitor,
            Wait::Claim(user) => WaitModel::Claim(user@),
            Wait::BackOff(ms) => WaitModel::BackOff(ms),
            Wait::NextBuffered => WaitModel::NextBuffered,
            Wait::VerifyStart => WaitModel::VerifyStart,
            Wait::Listen { reset } => WaitModel::Listen { reset },
            Wait::Ping => WaitModel::Ping,
            Wait::Tell(event) => WaitModel::Tell(event@),
            Wait::Finish => WaitModel::Finish,
        }
    }
}

/// What to do next: the chores in order, then the wait.
#[derive(Debug)]
pub struct Turn {
    pub todo: Vec<Chore>,
    pub wait: Wait,
}

/// A [`Turn`] as the contracts speak of it.
#[verifier::ext_equal]
pub struct TurnModel {
    pub todo: Seq<Chore>,
    pub wait: WaitModel,
}

impl View for Turn {
    type V = TurnModel;

    open spec fn view(&self) -> TurnModel {
        TurnModel { todo: self.todo@, wait: self.wait@ }
    }
}

/// What just happened.
#[derive(Debug)]
pub enum Signal {
    /// The gates as they stand.
    Gates(Gates),
    /// A new target was sent, the same one again included.
    TargetChanged(Gates),
    /// Nobody can send a target any more.
    TargetClosed,
    ActiveChanged(Gates),
    SleepingChanged(Gates),
    Resolved,
    ResolveFailed(String),
    Fingers(Enrollment),
    /// Whether a sleep delay-inhibitor could be had.
    Inhibitor(bool),
    Claimed,
    ClaimFailed(String),
    BackedOff,
    /// A status of fprintd's.
    Status { result: String, done: bool },
    /// A status whose arguments could not be read.
    Unreadable,
    /// No status is buffered.
    Drained,
    /// The status stream is over.
    StreamEnded,
    Started,
    StartFailed,
    /// Silence for the whole of [`VERIFY_SILENCE_PING`].
    Quiet,
    /// Whether fprintd answered a ping.
    Pong(bool),
    /// What the sink made of the last event.
    Sink(Flow),
}

/// Where to go once the sink has heard an event and wants more.
#[derive(Debug, Clone, Copy, PartialEq, Eq, Structural)]
pub enum After {
    /// Pause, then resolve the device anew.
    Link(u64),
    /// Pause, then start over with this device.
    PausedOuter(u64),
    /// Start over with this device.
    Outer,
    /// Wait for the next target command.
    Retarget,
    /// Start the next verify on this claim.
    Verify,
    /// Keep listening to the running verify.
    Listen(bool),
    /// Go on with a failed claim.
    Claim { wedged: bool, resetting: bool },
}

/// Where the engine stands: what it is waiting for.
#[derive(Debug, Clone, Copy, PartialEq, Eq, Structural)]
pub enum Stage {
    Link,
    AwaitingTarget,
    Resolving,
    Outer,
    Parked,
    Enrolling,
    AwaitingRetarget,
    ClaimTop,
    Inhibiting,
    Claiming,
    BackingOff,
    Draining,
    VerifyTop,
    Starting,
    Listening,
    Pinging,
    Telling(After),
    Finished,
}

/// The claim/verify state machine.
#[derive(Debug)]
pub struct Engine {
    stage: Stage,
    /// Who the current claim cycle is for.
    user: String,
    /// Terminal statuses fprintd owes for verify sessions cancelled here.
    echoes: u32,
    /// Failures to resolve the device in a row.
    resolve_fails: u32,
    /// When fprintd was last restarted, whatever became of the claim cycle.
    last_unwedge: Option<u64>,
    /// A sleep delay-inhibitor is held.
    inhibitor: bool,
    /// Failed claims of this cycle.
    attempts: u32,
    /// The sink has heard of this claim.
    armed: bool,
    /// When this claim's verify was last started.
    last_start: Option<u64>,
}

/// An [`Engine`] as the contracts speak of it.
pub struct EngineModel {
    pub stage: Stage,
    pub user: Seq<char>,
    pub echoes: u32,
    pub resolve_fails: u32,
    pub last_unwedge: Option<u64>,
    pub inhibitor: bool,
    pub attempts: u32,
    pub armed: bool,
    pub last_start: Option<u64>,
}

impl View for Engine {
    type V = EngineModel;

    closed spec fn view(&self) -> EngineModel {
        EngineModel {
            stage: self.stage,
            user: self.user@,
            echoes: self.echoes,
            resolve_fails: self.resolve_fails,
            last_unwedge: self.last_unwedge,
            inhibitor: self.inhibitor,
            attempts: self.attempts,
            armed: self.armed,
            last_start: self.last_start,
        }
    }
}

// ── The transitions ────────────────────────────────────────────────────

/// `n` and one more, as far as a counter goes.
pub open spec fn bumped(n: u32) -> u32 {
    if n < u32::MAX {
        (n + 1) as u32
    } else {
        n
    }
}

/// The engine before anything has happened.
pub open spec fn fresh() -> EngineModel {
    EngineModel {
        stage: Stage::Link,
        user: Seq::empty(),
        echoes: 0,
        resolve_fails: 0,
        last_unwedge: None,
        inhibitor: false,
        attempts: 0,
        armed: false,
        last_start: None,
    }
}

/// `user` is the one to verify, in an active session of an awake machine.
pub open spec fn wanted(gates: Gates, user: Seq<char>) -> bool {
    &&& gates.target is Some
    &&& gates.target->0@ == user
    &&& gates.active
    &&& !gates.sleeping
}

/// Somebody is to be verified, in an active session of an awake machine.
pub open spec fn armed_gates(gates: Gates) -> bool {
    gates.target is Some && gates.active && !gates.sleeping
}

/// What letting go of the inhibitor takes.
pub open spec fn letting_go(held: bool) -> Seq<Chore> {
    if held {
        seq![Chore::DropInhibitor]
    } else {
        Seq::empty()
    }
}

/// Stay in the claim cycle: `stage` next, with these chores and that wait.
pub open spec fn keep(
    e: EngineModel,
    stage: Stage,
    todo: Seq<Chore>,
    wait: WaitModel,
) -> (EngineModel, TurnModel) {
    (EngineModel { stage, ..e }, TurnModel { todo, wait })
}

/// Leave the claim cycle: as [`keep`], and let go of the inhibitor last.
pub open spec fn leave(
    e: EngineModel,
    stage: Stage,
    todo: Seq<Chore>,
    wait: WaitModel,
) -> (EngineModel, TurnModel) {
    (
        EngineModel { stage, inhibitor: false, ..e },
        TurnModel { todo: todo + letting_go(e.inhibitor), wait },
    )
}

/// Tell the sink that no reader is usable, then go on with `after`.
pub open spec fn tell_unavailable(
    e: EngineModel,
    todo: Seq<Chore>,
    why: Seq<char>,
    after: After,
) -> (EngineModel, TurnModel) {
    keep(e, Stage::Telling(after), todo, WaitModel::Tell(Report::Unavailable(why)))
}

/// Give up a running verify and its claim: the killed session earns fprintd
/// an echo, the claim goes back, and the sink hears about it.
pub open spec fn stand_down(e: EngineModel, why: Seq<char>) -> (EngineModel, TurnModel) {
    tell_unavailable(
        EngineModel { echoes: bumped(e.echoes), ..e },
        seq![Chore::VerifyStop, Chore::Release],
        why,
        After::Outer,
    )
}

/// Whether fprintd may be restarted for a device wedged open.
pub open spec fn unwedge_due(e: EngineModel, wedged: bool, now: u64) -> bool {
    &&& e.attempts >= 2
    &&& wedged
    &&& e.last_unwedge is None || now - e.last_unwedge->0 >= UNWEDGE_COOLDOWN
}

/// A claim failed and the sink knows what it has to.
pub open spec fn after_failed_claim(
    e: EngineModel,
    wedged: bool,
    resetting: bool,
    now: u64,
) -> (EngineModel, TurnModel) {
    if unwedge_due(e, wedged, now) {
        leave(
            EngineModel { last_unwedge: Some(now), ..e },
            Stage::Link,
            seq![Chore::RestartFprintd, Chore::Sleep(FAULT_PAUSE)],
            WaitModel::ReadTarget,
        )
    } else {
        let ms = if e.attempts < CLAIM_QUIET_ATTEMPTS && !resetting {
            CLAIM_RETRY
        } else {
            CLAIM_RETRY_SLOW
        };
        keep(e, Stage::BackingOff, Seq::empty(), WaitModel::BackOff(ms))
    }
}

/// The sink wants more after an event.
pub open spec fn after_telling(e: EngineModel, after: After, now: u64) -> (EngineModel, TurnModel) {
    match after {
        After::Link(ms) => leave(e, Stage::Link, seq![Chore::Sleep(ms)], WaitModel::ReadTarget),
        After::PausedOuter(ms) => leave(
            e,
            Stage::Outer,
            seq![Chore::Sleep(ms)],
            WaitModel::ReadGates,
        ),
        After::Outer => leave(e, Stage::Outer, Seq::empty(), WaitModel::ReadGates),
        After::Retarget => keep(e, Stage::AwaitingRetarget, Seq::empty(), WaitModel::AwaitTarget),
        After::Verify => keep(e, Stage::VerifyTop, Seq::empty(), WaitModel::Peek),
        After::Listen(reset) => keep(
            e,
            Stage::Listening,
            Seq::empty(),
            WaitModel::Listen { reset },
        ),
        After::Claim { wedged, resetting } => after_failed_claim(e, wedged, resetting, now),
    }
}

/// How long a verify has to wait for the restart floor.
pub open spec fn floor_pause(last_start: Option<u64>, now: u64) -> Seq<Chore> {
    if last_start is Some && now - last_start->0 < VERIFY_RESTART_FLOOR {
        let since = if now >= last_start->0 {
            now - last_start->0
        } else {
            0
        };
        seq![Chore::Sleep((VERIFY_RESTART_FLOOR - since) as u64)]
    } else {
        Seq::empty()
    }
}

/// Whether a verdict is an echo that is owed.
pub open spec fn is_echo(e: EngineModel, v: Verdict) -> bool {
    e.echoes > 0 && super::ends_like_a_cancel(v)
}

/// The ledger after a verdict.
pub open spec fn settled(e: EngineModel, v: Verdict) -> EngineModel {
    if is_echo(e, v) {
        EngineModel { echoes: (e.echoes - 1) as u32, ..e }
    } else {
        e
    }
}

/// A verdict on the running verify.
pub open spec fn on_verdict(e: EngineModel, v: Verdict) -> (EngineModel, TurnModel) {
    let listen = WaitModel::Listen { reset: true };
    if is_echo(e, v) {
        keep(settled(e, v), Stage::Listening, Seq::empty(), listen)
    } else {
        match v {
            Verdict::Match => leave(
                e,
                Stage::Telling(After::Retarget),
                seq![Chore::VerifyStop, Chore::Release],
                WaitModel::Tell(Report::Match(e.user)),
            ),
            Verdict::NoMatch => keep(
                e,
                Stage::Telling(After::Verify),
                seq![Chore::VerifyStop],
                WaitModel::Tell(Report::Hint("Not recognized — try again"@)),
            ),
            Verdict::Disconnected => tell_unavailable(
                e,
                seq![Chore::Release],
                "reader disconnected"@,
                After::Link(FAULT_PAUSE),
            ),
            Verdict::Error => keep(
                e,
                Stage::VerifyTop,
                seq![Chore::VerifyStop, Chore::Sleep(FAULT_PAUSE)],
                WaitModel::Peek,
            ),
            Verdict::Hint(Some(text)) => keep(
                e,
                Stage::Telling(After::Listen(true)),
                Seq::empty(),
                WaitModel::Tell(Report::Hint(text)),
            ),
            Verdict::Hint(None) => keep(e, Stage::Listening, Seq::empty(), listen),
        }
    }
}

/// Something happened while a verify runs.
pub open spec fn on_listening(e: EngineModel, signal: Signal) -> (EngineModel, TurnModel) {
    let still = keep(e, Stage::Listening, Seq::empty(), WaitModel::Listen { reset: false });
    match signal {
        Signal::Status { result, done } => on_verdict(e, super::verdict(result@, done)),
        Signal::Unreadable => keep(
            e,
            Stage::Listening,
            Seq::empty(),
            WaitModel::Listen { reset: true },
        ),
        Signal::Quiet => keep(e, Stage::Pinging, Seq::empty(), WaitModel::Ping),
        Signal::TargetClosed => leave(
            e,
            Stage::Finished,
            seq![Chore::VerifyStop, Chore::Release],
            WaitModel::Finish,
        ),
        Signal::TargetChanged(gates) => if gates.target is Some && gates.target->0@ == e.user {
            keep(
                e,
                Stage::Telling(After::Listen(false)),
                Seq::empty(),
                WaitModel::Tell(Report::Ready),
            )
        } else {
            stand_down(e, "standing down"@)
        },
        Signal::ActiveChanged(gates) => if gates.active {
            still
        } else {
            stand_down(e, "session inactive"@)
        },
        Signal::SleepingChanged(gates) => if gates.sleeping {
            stand_down(e, "suspending"@)
        } else {
            still
        },
        // StreamEnded: fprintd went away and took the claim with it.
        _ => tell_unavailable(e, Seq::empty(), "fprintd restarted"@, After::Link(FAULT_PAUSE)),
    }
}

/// Whether a signal is one of the outcomes of what the engine waits for.
pub open spec fn expected(stage: Stage, signal: Signal) -> bool {
    match stage {
        Stage::Link | Stage::Outer | Stage::ClaimTop | Stage::VerifyTop => signal is Gates,
        Stage::AwaitingTarget | Stage::AwaitingRetarget => signal is TargetChanged
            || signal is TargetClosed,
        Stage::Resolving => signal is Resolved || signal is ResolveFailed,
        Stage::Parked => {
            ||| signal is TargetChanged
            ||| signal is TargetClosed
            ||| signal is ActiveChanged
            ||| signal is SleepingChanged
        },
        Stage::Enrolling => signal is Fingers,
        Stage::Inhibiting => signal is Inhibitor,
        Stage::Claiming => signal is Claimed || signal is ClaimFailed,
        Stage::BackingOff => {
            ||| signal is BackedOff
            ||| signal is TargetChanged
            ||| signal is TargetClosed
            ||| signal is ActiveChanged
            ||| signal is SleepingChanged
        },
        Stage::Draining => signal is Status || signal is Unreadable || signal is Drained,
        Stage::Starting => signal is Started || signal is StartFailed,
        Stage::Listening => {
            ||| signal is Status
            ||| signal is Unreadable
            ||| signal is StreamEnded
            ||| signal is Quiet
            ||| signal is TargetChanged
            ||| signal is TargetClosed
            ||| signal is ActiveChanged
            ||| signal is SleepingChanged
        },
        Stage::Pinging => signal is Pong,
        Stage::Telling(_) => signal is Sink,
        Stage::Finished => false,
    }
}

/// The gates were read and nobody can send a target any more: the claim goes
/// back where there is one, and the engine ends.
pub open spec fn closed_down(e: EngineModel) -> (EngineModel, TurnModel) {
    let todo = if e.stage == Stage::VerifyTop {
        seq![Chore::Release]
    } else {
        Seq::empty()
    };
    leave(e, Stage::Finished, todo, WaitModel::Finish)
}

/// What the engine does about a signal it waits for.
pub open spec fn advance(e: EngineModel, signal: Signal, now: u64) -> (EngineModel, TurnModel) {
    if signal is Gates && signal->Gates_0.closed {
        closed_down(e)
    } else {
        open_advance(e, signal, now)
    }
}

/// What the engine does about a signal it waits for, while somebody can send a
/// target.
pub open spec fn open_advance(e: EngineModel, signal: Signal, now: u64) -> (
    EngineModel,
    TurnModel,
) {
    match (e.stage, signal) {
        // Resolve the device once somebody wants a verify.
        (Stage::Link, Signal::Gates(gates)) => if gates.target is Some {
            keep(e, Stage::Resolving, Seq::empty(), WaitModel::Resolve)
        } else {
            keep(e, Stage::AwaitingTarget, Seq::empty(), WaitModel::AwaitTarget)
        },
        (Stage::AwaitingTarget, Signal::TargetChanged(_)) => keep(
            e,
            Stage::Link,
            Seq::empty(),
            WaitModel::ReadTarget,
        ),
        (Stage::Resolving, Signal::Resolved) => keep(
            EngineModel { resolve_fails: 0, ..e },
            Stage::Outer,
            Seq::empty(),
            WaitModel::ReadGates,
        ),
        (Stage::Resolving, Signal::ResolveFailed(err)) => {
            let f = EngineModel { resolve_fails: bumped(e.resolve_fails), ..e };
            if f.resolve_fails == 1 {
                tell_unavailable(
                    f,
                    Seq::empty(),
                    "no fingerprint device: "@ + err@,
                    After::Link(RESOLVE_PAUSE),
                )
            } else {
                keep(f, Stage::Link, seq![Chore::Sleep(RESOLVE_PAUSE)], WaitModel::ReadTarget)
            }
        },
        // Park until the gates are open, then see whether there are prints.
        (Stage::Outer, Signal::Gates(gates)) => if armed_gates(gates) {
            keep(
                EngineModel { user: gates.target->0@, ..e },
                Stage::Enrolling,
                Seq::empty(),
                WaitModel::ListEnrolled(gates.target->0@),
            )
        } else {
            keep(e, Stage::Parked, Seq::empty(), WaitModel::AwaitGates)
        },
        (Stage::Enrolling, Signal::Fingers(prints)) => if prints == Enrollment::Missing {
            tell_unavailable(e, Seq::empty(), super::unenrolled(e.user), After::Retarget)
        } else {
            keep(
                EngineModel { attempts: 0, ..e },
                Stage::ClaimTop,
                Seq::empty(),
                WaitModel::Peek,
            )
        },
        // Claim as the target user, and again while the reader is busy.
        (Stage::ClaimTop, Signal::Gates(gates)) => if !wanted(gates, e.user) {
            leave(e, Stage::Outer, Seq::empty(), WaitModel::ReadGates)
        } else if e.inhibitor {
            keep(e, Stage::Claiming, Seq::empty(), WaitModel::Claim(e.user))
        } else {
            keep(e, Stage::Inhibiting, Seq::empty(), WaitModel::TakeInhibitor)
        },
        (Stage::Inhibiting, Signal::Inhibitor(got)) => keep(
            EngineModel { inhibitor: got, ..e },
            Stage::Claiming,
            Seq::empty(),
            WaitModel::Claim(e.user),
        ),
        (Stage::Claiming, Signal::Claimed) => keep(
            EngineModel { armed: false, last_start: None, ..e },
            Stage::Draining,
            Seq::empty(),
            WaitModel::NextBuffered,
        ),
        (Stage::Claiming, Signal::ClaimFailed(err)) => {
            let f = EngineModel { attempts: bumped(e.attempts), ..e };
            let wedged = occurs(err@, "already open"@);
            let resetting = occurs(err@, "endpoint stalled"@);
            if f.attempts == CLAIM_QUIET_ATTEMPTS {
                tell_unavailable(
                    f,
                    Seq::empty(),
                    "reader busy"@,
                    After::Claim { wedged, resetting },
                )
            } else {
                after_failed_claim(f, wedged, resetting, now)
            }
        },
        // Settle the echo ledger against what was buffered before the claim.
        (Stage::Draining, Signal::Status { result, done }) => keep(
            settled(e, super::verdict(result@, done)),
            Stage::Draining,
            Seq::empty(),
            WaitModel::NextBuffered,
        ),
        (Stage::Draining, Signal::Unreadable) => keep(
            e,
            Stage::Draining,
            Seq::empty(),
            WaitModel::NextBuffered,
        ),
        (Stage::Draining, Signal::Drained) => keep(
            e,
            Stage::VerifyTop,
            Seq::empty(),
            WaitModel::Peek,
        ),
        // Verify sessions until a match, a retarget, or a gate flip.
        (Stage::VerifyTop, Signal::Gates(gates)) => if !wanted(gates, e.user) {
            tell_unavailable(e, seq![Chore::Release], "standing down"@, After::Outer)
        } else {
            keep(e, Stage::Starting, floor_pause(e.last_start, now), WaitModel::VerifyStart)
        },
        (Stage::Starting, Signal::StartFailed) => tell_unavailable(
            e,
            seq![Chore::Release],
            "reader error, reclaiming"@,
            After::PausedOuter(FAULT_PAUSE),
        ),
        (Stage::Starting, Signal::Started) => {
            let f = EngineModel { last_start: Some(now), armed: true, ..e };
            if e.armed {
                keep(f, Stage::Listening, Seq::empty(), WaitModel::Listen { reset: true })
            } else {
                keep(
                    f,
                    Stage::Telling(After::Listen(true)),
                    Seq::empty(),
                    WaitModel::Tell(Report::Ready),
                )
            }
        },
        (Stage::Listening, _) => on_listening(e, signal),
        (Stage::Pinging, Signal::Pong(answered)) => if answered {
            keep(e, Stage::Listening, Seq::empty(), WaitModel::Listen { reset: true })
        } else {
            keep(
                EngineModel { echoes: bumped(e.echoes), ..e },
                Stage::VerifyTop,
                seq![Chore::VerifyStop],
                WaitModel::Peek,
            )
        },
        (Stage::Telling(after), Signal::Sink(Flow::Continue)) => after_telling(e, after, now),
        // Everything else ends the engine or takes it back to its gates.
        (_, Signal::Sink(_)) => leave(e, Stage::Finished, Seq::empty(), WaitModel::Finish),
        (_, Signal::TargetClosed) => leave(e, Stage::Finished, Seq::empty(), WaitModel::Finish),
        (Stage::BackingOff, _) => keep(e, Stage::ClaimTop, Seq::empty(), WaitModel::Peek),
        _ => keep(e, Stage::Outer, Seq::empty(), WaitModel::ReadGates),
    }
}

// ── The machine ────────────────────────────────────────────────────────

/// Whether `user` is the target.
fn targeted(gates: &Gates, user: &String) -> (r: bool)
    ensures
        r == (gates.target is Some && gates.target->0@ == user@),
{
    match &gates.target {
        Some(target) => same(target.as_str(), user.as_str()),
        None => false,
    }
}

/// `n` and one more, as far as a counter goes.
fn bump(n: u32) -> (r: u32)
    ensures
        r == bumped(n),
{
    if n < u32::MAX {
        n + 1
    } else {
        n
    }
}

impl Engine {
    /// The engine, and what it does first.
    pub fn start() -> (r: (Engine, Turn))
        ensures
            r.0@ == fresh(),
            r.1@ == (TurnModel { todo: Seq::empty(), wait: WaitModel::ReadTarget }),
    {
        let engine = Engine {
            stage: Stage::Link,
            user: String::new(),
            echoes: 0,
            resolve_fails: 0,
            last_unwedge: None,
            inhibitor: false,
            attempts: 0,
            armed: false,
            last_start: None,
        };
        (engine, Turn { todo: Vec::new(), wait: Wait::ReadTarget })
    }

    /// What the engine is waiting for.
    pub fn stage(&self) -> (r: Stage)
        ensures
            r == self@.stage,
    {
        self.stage
    }

    fn keep(&mut self, stage: Stage, todo: Vec<Chore>, wait: Wait) -> (r: Turn)
        ensures
            (final(self)@, r@) == keep(old(self)@, stage, todo@, wait@),
    {
        self.stage = stage;
        Turn { todo, wait }
    }

    fn leave(&mut self, stage: Stage, todo: Vec<Chore>, wait: Wait) -> (r: Turn)
        ensures
            (final(self)@, r@) == leave(old(self)@, stage, todo@, wait@),
    {
        let mut todo = todo;
        let ghost before = todo@;
        if self.inhibitor {
            todo.push(Chore::DropInhibitor);
        }
        assert(todo@ =~= before + letting_go(self.inhibitor));
        self.inhibitor = false;
        self.stage = stage;
        Turn { todo, wait }
    }

    fn tell_unavailable(&mut self, todo: Vec<Chore>, why: String, after: After) -> (r: Turn)
        ensures
            (final(self)@, r@) == tell_unavailable(old(self)@, todo@, why@, after),
    {
        self.keep(Stage::Telling(after), todo, Wait::Tell(EngineEvent::Unavailable(why)))
    }

    fn stand_down(&mut self, why: &str) -> (r: Turn)
        ensures
            (final(self)@, r@) == stand_down(old(self)@, why@),
    {
        self.echoes = bump(self.echoes);
        let todo = vec![Chore::VerifyStop, Chore::Release];
        assert(todo@ =~= seq![Chore::VerifyStop, Chore::Release]);
        self.tell_unavailable(todo, why.to_owned(), After::Outer)
    }

    fn after_failed_claim(&mut self, wedged: bool, resetting: bool, now: u64) -> (r: Turn)
        ensures
            (final(self)@, r@) == after_failed_claim(old(self)@, wedged, resetting, now),
    {
        let rested = match self.last_unwedge {
            None => true,
            Some(at) => now >= at && now - at >= UNWEDGE_COOLDOWN,
        };
        if self.attempts >= 2 && wedged && rested {
            self.last_unwedge = Some(now);
            let todo = vec![Chore::RestartFprintd, Chore::Sleep(FAULT_PAUSE)];
            assert(todo@ =~= seq![Chore::RestartFprintd, Chore::Sleep(FAULT_PAUSE)]);
            self.leave(Stage::Link, todo, Wait::ReadTarget)
        } else {
            let ms: u64 = if self.attempts < CLAIM_QUIET_ATTEMPTS && !resetting {
                CLAIM_RETRY
            } else {
                CLAIM_RETRY_SLOW
            };
            self.keep(Stage::BackingOff, Vec::new(), Wait::BackOff(ms))
        }
    }

    fn after_telling(&mut self, after: After, now: u64) -> (r: Turn)
        ensures
            (final(self)@, r@) == after_telling(old(self)@, after, now),
    {
        match after {
            After::Link(ms) => {
                let todo = vec![Chore::Sleep(ms)];
                assert(todo@ =~= seq![Chore::Sleep(ms)]);
                self.leave(Stage::Link, todo, Wait::ReadTarget)
            },
            After::PausedOuter(ms) => {
                let todo = vec![Chore::Sleep(ms)];
                assert(todo@ =~= seq![Chore::Sleep(ms)]);
                self.leave(Stage::Outer, todo, Wait::ReadGates)
            },
            After::Outer => self.leave(Stage::Outer, Vec::new(), Wait::ReadGates),
            After::Retarget => self.keep(Stage::AwaitingRetarget, Vec::new(), Wait::AwaitTarget),
            After::Verify => self.keep(Stage::VerifyTop, Vec::new(), Wait::Peek),
            After::Listen(reset) => self.keep(
                Stage::Listening,
                Vec::new(),
                Wait::Listen { reset },
            ),
            After::Claim { wedged, resetting } => self.after_failed_claim(wedged, resetting, now),
        }
    }

    fn on_verdict(&mut self, verdict: Verify) -> (r: Turn)
        ensures
            (final(self)@, r@) == on_verdict(old(self)@, verdict@),
    {
        if absorb_echo(&mut self.echoes, &verdict) {
            return self.keep(Stage::Listening, Vec::new(), Wait::Listen { reset: true });
        }
        match verdict {
            Verify::Match => {
                let todo = vec![Chore::VerifyStop, Chore::Release];
                assert(todo@ =~= seq![Chore::VerifyStop, Chore::Release]);
                let matched = EngineEvent::Match(self.user.clone());
                self.leave(Stage::Telling(After::Retarget), todo, Wait::Tell(matched))
            },
            Verify::NoMatch => {
                let todo = vec![Chore::VerifyStop];
                assert(todo@ =~= seq![Chore::VerifyStop]);
                let hint = EngineEvent::Hint("Not recognized — try again".to_owned());
                self.keep(Stage::Telling(After::Verify), todo, Wait::Tell(hint))
            },
            Verify::Disconnected => {
                let todo = vec![Chore::Release];
                assert(todo@ =~= seq![Chore::Release]);
                self.tell_unavailable(
                    todo,
                    "reader disconnected".to_owned(),
                    After::Link(FAULT_PAUSE),
                )
            },
            Verify::Error => {
                let todo = vec![Chore::VerifyStop, Chore::Sleep(FAULT_PAUSE)];
                assert(todo@ =~= seq![Chore::VerifyStop, Chore::Sleep(FAULT_PAUSE)]);
                self.keep(Stage::VerifyTop, todo, Wait::Peek)
            },
            Verify::Hint(Some(text)) => {
                let hint = EngineEvent::Hint(text.to_owned());
                self.keep(Stage::Telling(After::Listen(true)), Vec::new(), Wait::Tell(hint))
            },
            Verify::Hint(None) => self.keep(
                Stage::Listening,
                Vec::new(),
                Wait::Listen { reset: true },
            ),
        }
    }

    fn on_listening(&mut self, signal: &Signal) -> (r: Turn)
        requires
            expected(Stage::Listening, *signal),
            old(self)@.stage == Stage::Listening,
        ensures
            (final(self)@, r@) == on_listening(old(self)@, *signal),
    {
        match signal {
            Signal::Status { result, done } => {
                let verdict = parse_verify_status(result.as_str(), *done);
                self.on_verdict(verdict)
            },
            Signal::Unreadable => self.keep(
                Stage::Listening,
                Vec::new(),
                Wait::Listen { reset: true },
            ),
            Signal::Quiet => self.keep(Stage::Pinging, Vec::new(), Wait::Ping),
            Signal::TargetClosed => {
                let todo = vec![Chore::VerifyStop, Chore::Release];
                assert(todo@ =~= seq![Chore::VerifyStop, Chore::Release]);
                self.leave(Stage::Finished, todo, Wait::Finish)
            },
            Signal::TargetChanged(gates) => if targeted(gates, &self.user) {
                self.keep(
                    Stage::Telling(After::Listen(false)),
                    Vec::new(),
                    Wait::Tell(EngineEvent::Ready),
                )
            } else {
                self.stand_down("standing down")
            },
            Signal::ActiveChanged(gates) => if gates.active {
                self.keep(Stage::Listening, Vec::new(), Wait::Listen { reset: false })
            } else {
                self.stand_down("session inactive")
            },
            Signal::SleepingChanged(gates) => if gates.sleeping {
                self.stand_down("suspending")
            } else {
                self.keep(Stage::Listening, Vec::new(), Wait::Listen { reset: false })
            },
            _ => self.tell_unavailable(
                Vec::new(),
                "fprintd restarted".to_owned(),
                After::Link(FAULT_PAUSE),
            ),
        }
    }

    fn on_gates(&mut self, gates: &Gates, now: u64) -> (r: Turn)
        requires
            expected(old(self)@.stage, Signal::Gates(*gates)),
        ensures
            (final(self)@, r@) == advance(old(self)@, Signal::Gates(*gates), now),
    {
        if gates.closed {
            let mut todo: Vec<Chore> = Vec::new();
            if self.stage == Stage::VerifyTop {
                todo.push(Chore::Release);
                assert(todo@ =~= seq![Chore::Release]);
            }
            return self.leave(Stage::Finished, todo, Wait::Finish);
        }
        let user_wanted = targeted(gates, &self.user) && gates.active && !gates.sleeping;
        match self.stage {
            Stage::Link => if gates.target.is_some() {
                self.keep(Stage::Resolving, Vec::new(), Wait::Resolve)
            } else {
                self.keep(Stage::AwaitingTarget, Vec::new(), Wait::AwaitTarget)
            },
            Stage::Outer => {
                if gates.active && !gates.sleeping {
                    if let Some(target) = &gates.target {
                        self.user = target.clone();
                        return self.keep(
                            Stage::Enrolling,
                            Vec::new(),
                            Wait::ListEnrolled(target.clone()),
                        );
                    }
                }
                self.keep(Stage::Parked, Vec::new(), Wait::AwaitGates)
            },
            Stage::ClaimTop => if !user_wanted {
                self.leave(Stage::Outer, Vec::new(), Wait::ReadGates)
            } else if self.inhibitor {
                let user = self.user.clone();
                self.keep(Stage::Claiming, Vec::new(), Wait::Claim(user))
            } else {
                self.keep(Stage::Inhibiting, Vec::new(), Wait::TakeInhibitor)
            },
            _ => if !user_wanted {
                let todo = vec![Chore::Release];
                assert(todo@ =~= seq![Chore::Release]);
                self.tell_unavailable(todo, "standing down".to_owned(), After::Outer)
            } else {
                let mut todo: Vec<Chore> = Vec::new();
                if let Some(prev) = self.last_start {
                    let since: u64 = if now >= prev { now - prev } else { 0 };
                    if since < VERIFY_RESTART_FLOOR {
                        todo.push(Chore::Sleep(VERIFY_RESTART_FLOOR - since));
                    }
                }
                assert(todo@ =~= floor_pause(self.last_start, now));
                self.keep(Stage::Starting, todo, Wait::VerifyStart)
            },
        }
    }

    fn on_claim(&mut self, signal: &Signal, now: u64) -> (r: Turn)
        requires
            old(self)@.stage == Stage::Claiming,
            expected(Stage::Claiming, *signal),
        ensures
            (final(self)@, r@) == advance(old(self)@, *signal, now),
    {
        match signal {
            Signal::ClaimFailed(err) => {
                self.attempts = bump(self.attempts);
                let wedged = is_wedged_claim(err.as_str());
                let resetting = is_device_resetting(err.as_str());
                if self.attempts == CLAIM_QUIET_ATTEMPTS {
                    self.tell_unavailable(
                        Vec::new(),
                        "reader busy".to_owned(),
                        After::Claim { wedged, resetting },
                    )
                } else {
                    self.after_failed_claim(wedged, resetting, now)
                }
            },
            _ => {
                self.armed = false;
                self.last_start = None;
                self.keep(Stage::Draining, Vec::new(), Wait::NextBuffered)
            },
        }
    }

    fn on_drain(&mut self, signal: &Signal) -> (r: Turn)
        requires
            old(self)@.stage == Stage::Draining,
            expected(Stage::Draining, *signal),
        ensures
            forall|now: u64| (final(self)@, r@) == #[trigger] advance(old(self)@, *signal, now),
    {
        match signal {
            Signal::Status { result, done } => {
                let verdict = parse_verify_status(result.as_str(), *done);
                absorb_echo(&mut self.echoes, &verdict);
                self.keep(Stage::Draining, Vec::new(), Wait::NextBuffered)
            },
            Signal::Unreadable => self.keep(Stage::Draining, Vec::new(), Wait::NextBuffered),
            _ => self.keep(Stage::VerifyTop, Vec::new(), Wait::Peek),
        }
    }

    fn on_start(&mut self, signal: &Signal, now: u64) -> (r: Turn)
        requires
            old(self)@.stage == Stage::Starting,
            expected(Stage::Starting, *signal),
        ensures
            (final(self)@, r@) == advance(old(self)@, *signal, now),
    {
        match signal {
            Signal::Started => {
                self.last_start = Some(now);
                if self.armed {
                    self.keep(Stage::Listening, Vec::new(), Wait::Listen { reset: true })
                } else {
                    self.armed = true;
                    self.keep(
                        Stage::Telling(After::Listen(true)),
                        Vec::new(),
                        Wait::Tell(EngineEvent::Ready),
                    )
                }
            },
            _ => {
                let todo = vec![Chore::Release];
                assert(todo@ =~= seq![Chore::Release]);
                self.tell_unavailable(
                    todo,
                    "reader error, reclaiming".to_owned(),
                    After::PausedOuter(FAULT_PAUSE),
                )
            },
        }
    }

    fn on_resolve(&mut self, signal: &Signal) -> (r: Turn)
        requires
            old(self)@.stage == Stage::Resolving,
            expected(Stage::Resolving, *signal),
        ensures
            forall|now: u64| (final(self)@, r@) == #[trigger] advance(old(self)@, *signal, now),
    {
        match signal {
            Signal::ResolveFailed(err) => {
                self.resolve_fails = bump(self.resolve_fails);
                if self.resolve_fails == 1 {
                    let why = concat2("no fingerprint device: ", err.as_str());
                    self.tell_unavailable(Vec::new(), why, After::Link(RESOLVE_PAUSE))
                } else {
                    let todo = vec![Chore::Sleep(RESOLVE_PAUSE)];
                    assert(todo@ =~= seq![Chore::Sleep(RESOLVE_PAUSE)]);
                    self.keep(Stage::Link, todo, Wait::ReadTarget)
                }
            },
            _ => {
                self.resolve_fails = 0;
                self.keep(Stage::Outer, Vec::new(), Wait::ReadGates)
            },
        }
    }

    /// Whether `signal` is one of the outcomes of what the engine waits for.
    pub fn accepts(&self, signal: &Signal) -> (r: bool)
        ensures
            r == expected(self@.stage, *signal),
    {
        let gate = match signal {
            Signal::TargetChanged(_) => true,
            Signal::TargetClosed => true,
            Signal::ActiveChanged(_) => true,
            Signal::SleepingChanged(_) => true,
            _ => false,
        };
        match self.stage {
            Stage::Link => matches!(signal, Signal::Gates(_)),
            Stage::Outer => matches!(signal, Signal::Gates(_)),
            Stage::ClaimTop => matches!(signal, Signal::Gates(_)),
            Stage::VerifyTop => matches!(signal, Signal::Gates(_)),
            Stage::AwaitingTarget => matches!(
                signal,
                Signal::TargetChanged(_) | Signal::TargetClosed
            ),
            Stage::AwaitingRetarget => matches!(
                signal,
                Signal::TargetChanged(_) | Signal::TargetClosed
            ),
            Stage::Resolving => matches!(signal, Signal::Resolved | Signal::ResolveFailed(_)),
            Stage::Parked => gate,
            Stage::Enrolling => matches!(signal, Signal::Fingers(_)),
            Stage::Inhibiting => matches!(signal, Signal::Inhibitor(_)),
            Stage::Claiming => matches!(signal, Signal::Claimed | Signal::ClaimFailed(_)),
            Stage::BackingOff => gate || matches!(signal, Signal::BackedOff),
            Stage::Draining => matches!(
                signal,
                Signal::Status { .. } | Signal::Unreadable | Signal::Drained
            ),
            Stage::Starting => matches!(signal, Signal::Started | Signal::StartFailed),
            Stage::Listening => gate || matches!(
                signal,
                Signal::Status { .. } | Signal::Unreadable | Signal::StreamEnded | Signal::Quiet
            ),
            Stage::Pinging => matches!(signal, Signal::Pong(_)),
            Stage::Telling(_) => matches!(signal, Signal::Sink(_)),
            Stage::Finished => false,
        }
    }

    /// Takes what happened and says what to do next.
    pub fn step(&mut self, signal: &Signal, now: u64) -> (r: Turn)
        requires
            expected(old(self)@.stage, *signal),
        ensures
            (final(self)@, r@) == advance(old(self)@, *signal, now),
    {
        if let Signal::Gates(gates) = signal {
            return self.on_gates(gates, now);
        }
        match self.stage {
            Stage::Resolving => self.on_resolve(signal),
            Stage::Claiming => self.on_claim(signal, now),
            Stage::Draining => self.on_drain(signal),
            Stage::Starting => self.on_start(signal, now),
            Stage::Listening => self.on_listening(signal),
            _ => match signal {
                Signal::Fingers(prints) => if *prints == Enrollment::Missing {
                    let why = unenrolled_msg(self.user.as_str());
                    self.tell_unavailable(Vec::new(), why, After::Retarget)
                } else {
                    self.attempts = 0;
                    self.keep(Stage::ClaimTop, Vec::new(), Wait::Peek)
                },
                Signal::Inhibitor(got) => {
                    self.inhibitor = *got;
                    let user = self.user.clone();
                    self.keep(Stage::Claiming, Vec::new(), Wait::Claim(user))
                },
                Signal::Pong(answered) => if *answered {
                    self.keep(Stage::Listening, Vec::new(), Wait::Listen { reset: true })
                } else {
                    self.echoes = bump(self.echoes);
                    let todo = vec![Chore::VerifyStop];
                    assert(todo@ =~= seq![Chore::VerifyStop]);
                    self.keep(Stage::VerifyTop, todo, Wait::Peek)
                },
                Signal::Sink(flow) => {
                    if let Stage::Telling(after) = self.stage {
                        if *flow == Flow::Continue {
                            return self.after_telling(after, now);
                        }
                    }
                    self.leave(Stage::Finished, Vec::new(), Wait::Finish)
                },
                Signal::TargetClosed => self.leave(Stage::Finished, Vec::new(), Wait::Finish),
                _ => match self.stage {
                    Stage::AwaitingTarget => self.keep(Stage::Link, Vec::new(), Wait::ReadTarget),
                    Stage::BackingOff => self.keep(Stage::ClaimTop, Vec::new(), Wait::Peek),
                    _ => self.keep(Stage::Outer, Vec::new(), Wait::ReadGates),
                },
            },
        }
    }
}

// ── Laws ───────────────────────────────────────────────────────────────

/// The stages in which the reader is claimed.
pub open spec fn holds_claim(stage: Stage) -> bool {
    match stage {
        Stage::Draining | Stage::VerifyTop | Stage::Starting | Stage::Listening
        | Stage::Pinging => true,
        Stage::Telling(After::Verify) | Stage::Telling(After::Listen(_)) => true,
        _ => false,
    }
}

/// The reader is released on every edge out of a claim. The two exceptions
/// are not the engine's to mend: fprintd that went away took the claim with
/// it, and a sink that says stop ends the engine on the spot.
pub proof fn law_every_claim_is_released(e: EngineModel, signal: Signal, now: u64)
    requires
        expected(e.stage, signal),
        holds_claim(e.stage),
        !holds_claim(advance(e, signal, now).0.stage),
        !(signal is StreamEnded),
        signal != Signal::Sink(Flow::Stop),
    ensures
        advance(e, signal, now).1.todo.contains(Chore::Release),
{
    let todo = advance(e, signal, now).1.todo;
    if todo.len() > 0 && todo[0] == Chore::Release {
    } else {
        assert(todo[1] == Chore::Release);
    }
}

/// Nothing but a successful Claim call enters a stage in which the reader is
/// claimed.
pub proof fn law_only_a_claim_call_claims(e: EngineModel, signal: Signal, now: u64)
    requires
        expected(e.stage, signal),
        !holds_claim(e.stage),
        holds_claim(advance(e, signal, now).0.stage),
    ensures
        e.stage == Stage::Claiming,
        signal is Claimed,
{
}

/// A claim cycle is begun, and every attempt in it made, only for the user
/// who is the target, in an active session of an awake machine.
pub proof fn law_claims_only_while_wanted(e: EngineModel, signal: Signal, now: u64)
    requires
        expected(e.stage, signal),
        ({
            let next = advance(e, signal, now).0.stage;
            ||| next == Stage::Inhibiting
            ||| next == Stage::Claiming && e.stage != Stage::Inhibiting
        }),
    ensures
        signal matches Signal::Gates(gates) && wanted(gates, e.user),
        advance(e, signal, now).1.wait is TakeInhibitor || advance(e, signal, now).1.wait
            == WaitModel::Claim(e.user),
{
}

/// The Claim call is preceded by an attempt to take the sleep inhibitor: it
/// is held, or could not be had a moment ago.
pub proof fn law_no_claim_without_asking_for_the_inhibitor(
    e: EngineModel,
    signal: Signal,
    now: u64,
)
    requires
        expected(e.stage, signal),
        advance(e, signal, now).1.wait is Claim,
    ensures
        advance(e, signal, now).0.inhibitor || signal == Signal::Inhibitor(false),
{
}

/// The inhibitor is held within a claim cycle at most.
pub open spec fn well_kept(e: EngineModel) -> bool {
    match e.stage {
        Stage::Link | Stage::AwaitingTarget | Stage::Resolving | Stage::Outer | Stage::Parked
        | Stage::Enrolling | Stage::AwaitingRetarget | Stage::Finished => !e.inhibitor,
        Stage::Telling(After::Retarget) => !e.inhibitor,
        _ => true,
    }
}

/// However the engine runs, it never keeps the machine awake while it holds
/// no claim and tries for none: the inhibitor is let go with the claim cycle.
pub proof fn law_inhibitor_ends_with_the_claim_cycle(e: EngineModel, signal: Signal, now: u64)
    requires
        expected(e.stage, signal),
        well_kept(e),
    ensures
        well_kept(fresh()),
        well_kept(advance(e, signal, now).0),
        e.inhibitor && !advance(e, signal, now).0.inhibitor && e.stage != Stage::Inhibiting
            ==> advance(e, signal, now).1.todo.last() == Chore::DropInhibitor,
{
}

/// A gate that closes under a running verify takes the claim away in the
/// same turn: the verify is stopped, then the reader released.
pub proof fn law_closing_gate_releases_at_once(e: EngineModel, signal: Signal, now: u64)
    requires
        e.stage == Stage::Listening,
        match signal {
            Signal::TargetChanged(gates) => !(gates.target is Some && gates.target->0@ == e.user),
            Signal::ActiveChanged(gates) => !gates.active,
            Signal::SleepingChanged(gates) => gates.sleeping,
            _ => false,
        },
    ensures
        advance(e, signal, now).1.todo == seq![Chore::VerifyStop, Chore::Release],
        !holds_claim(advance(e, signal, now).0.stage),
        advance(e, signal, now).0.echoes == bumped(e.echoes),
{
}

/// A match is reported exactly when fprintd says so on the running verify,
/// it names the claim's user, and the reader is free by then.
pub proof fn law_match_is_reported_for_the_claimed_user(e: EngineModel, signal: Signal, now: u64)
    requires
        expected(e.stage, signal),
    ensures
        ({
            let (after, turn) = advance(e, signal, now);
            let matched = e.stage == Stage::Listening && (signal matches Signal::Status {
                result,
                done,
            } && result@ == "verify-match"@);
            &&& (turn.wait matches WaitModel::Tell(Report::Match(_))) <==> matched
            &&& matched ==> {
                &&& turn.wait == WaitModel::Tell(Report::Match(e.user))
                &&& turn.todo == seq![Chore::VerifyStop, Chore::Release] + letting_go(e.inhibitor)
                &&& !holds_claim(after.stage)
                &&& after.echoes == e.echoes
            }
        }),
{
    if let Signal::Status { result, done } = signal {
        super::law_only_a_match_status_unlocks(result@, done);
    }
}

/// While an echo is owed, a terminal no-match or error is taken for it: the
/// debt shrinks by one, and the running verify goes on undisturbed.
pub proof fn law_an_owed_echo_is_no_finger(e: EngineModel, signal: Signal, now: u64)
    requires
        e.stage == Stage::Listening,
        e.echoes > 0,
        signal matches Signal::Status { result, done } && super::ends_like_a_cancel(
            super::verdict(result@, done),
        ),
    ensures
        advance(e, signal, now).0 == (EngineModel { echoes: (e.echoes - 1) as u32, ..e }),
        advance(e, signal, now).1.todo == Seq::<Chore>::empty(),
        advance(e, signal, now).1.wait == (WaitModel::Listen { reset: true }),
{
}

/// Statuses that were buffered before the claim reach nobody.
pub proof fn law_stale_statuses_are_discarded(e: EngineModel, signal: Signal, now: u64)
    requires
        e.stage == Stage::Draining,
        expected(e.stage, signal),
    ensures
        !(advance(e, signal, now).1.wait is Tell),
        advance(e, signal, now).1.todo == Seq::<Chore>::empty(),
{
}

/// `Ready` is promised only for a verify that runs: one that just started,
/// or the one that is running when its own user is asked for again.
pub proof fn law_ready_means_scanning(e: EngineModel, signal: Signal, now: u64)
    requires
        expected(e.stage, signal),
        advance(e, signal, now).1.wait == WaitModel::Tell(Report::Ready),
    ensures
        signal is Started || (e.stage == Stage::Listening && signal is TargetChanged),
        holds_claim(advance(e, signal, now).0.stage),
{
}

/// Silence alone never disturbs a verify: it is answered by a ping, and a
/// ping that is answered goes back to listening.
pub proof fn law_silence_restarts_nothing(e: EngineModel, now: u64)
    requires
        e.stage == Stage::Listening,
    ensures
        ({
            let (pinging, ping) = advance(e, Signal::Quiet, now);
            let (after, turn) = advance(pinging, Signal::Pong(true), now);
            &&& ping.todo == Seq::<Chore>::empty()
            &&& ping.wait is Ping
            &&& after == e
            &&& turn.todo == Seq::<Chore>::empty()
            &&& turn.wait == (WaitModel::Listen { reset: true })
        }),
{
}

/// The engine ends when its sink stops it or nobody can send a target any
/// more, and for no other reason; it then asks for nothing but the end, so the
/// sink hears nothing more.
pub proof fn law_it_ends_on_a_stop_or_a_drop(e: EngineModel, signal: Signal, now: u64)
    requires
        expected(e.stage, signal),
    ensures
        advance(e, signal, now).0.stage == Stage::Finished <==> {
            ||| signal == Signal::Sink(Flow::Stop)
            ||| signal is TargetClosed
            ||| signal is Gates && signal->Gates_0.closed
        },
        advance(e, signal, now).0.stage == Stage::Finished <==> advance(e, signal, now).1.wait
            == WaitModel::Finish,
{
}

/// Whether a signal can come once nobody can send a target any more: gates
/// that are read say so, and a wait for the target ends with it.
pub open spec fn after_a_drop(stage: Stage, signal: Signal) -> bool {
    &&& expected(stage, signal)
    &&& signal is Gates ==> signal->Gates_0.closed
    &&& expected(stage, Signal::TargetClosed) ==> signal is TargetClosed
}

/// How many signals a drop takes at most to end the engine, the statuses that
/// are still buffered not counted.
pub open spec fn signals_left(stage: Stage) -> nat {
    match stage {
        Stage::Finished => 0,
        Stage::Draining | Stage::Pinging | Stage::Telling(_) => 2,
        Stage::Resolving | Stage::Enrolling | Stage::Claiming | Stage::Starting => 3,
        Stage::Inhibiting => 4,
        _ => 1,
    }
}

/// How many of the signals are statuses that were buffered before the claim.
pub open spec fn buffered(e: EngineModel, ticks: Seq<Tick>) -> nat
    decreases ticks.len(),
{
    if ticks.len() == 0 {
        0
    } else {
        let earlier = buffered(e, ticks.drop_last());
        let stage = run(e, ticks.drop_last()).stage;
        if stage == Stage::Draining && !(ticks.last().signal is Drained) {
            earlier + 1
        } else {
            earlier
        }
    }
}

/// Wherever the engine stands when the last sender of a target goes, it ends
/// within four signals, those that were buffered not counted: fprintd that
/// cannot be found or a reader that cannot be claimed does not keep it going.
pub proof fn law_a_drop_ends_the_engine(e: EngineModel, ticks: Seq<Tick>)
    requires
        forall|i: int|
            0 <= i < ticks.len() ==> after_a_drop(
                #[trigger] run(e, ticks.take(i)).stage,
                ticks[i].signal,
            ),
    ensures
        ticks.len() + signals_left(run(e, ticks).stage) <= signals_left(e.stage) + buffered(
            e,
            ticks,
        ),
        signals_left(e.stage) <= 4,
        signals_left(run(e, ticks).stage) == 0 <==> run(e, ticks).stage == Stage::Finished,
    decreases ticks.len(),
{
    if ticks.len() > 0 {
        let earlier = ticks.drop_last();
        let n = earlier.len() as int;
        assert(ticks.take(n) =~= earlier);
        assert(after_a_drop(run(e, ticks.take(n)).stage, ticks[n].signal));
        assert forall|i: int| 0 <= i < earlier.len() implies after_a_drop(
            #[trigger] run(e, earlier.take(i)).stage,
            earlier[i].signal,
        ) by {
            assert(earlier.take(i) =~= ticks.take(i));
        }
        law_a_drop_ends_the_engine(e, earlier);
    }
}

/// One signal and when it came.
pub struct Tick {
    pub signal: Signal,
    pub now: u64,
}

/// The engine after a series of signals.
pub open spec fn run(e: EngineModel, ticks: Seq<Tick>) -> EngineModel
    decreases ticks.len(),
{
    if ticks.len() == 0 {
        e
    } else {
        advance(run(e, ticks.drop_last()), ticks.last().signal, ticks.last().now).0
    }
}

/// Whether the `i`-th signal makes the engine restart fprintd.
pub open spec fn restarts_fprintd(e: EngineModel, ticks: Seq<Tick>, i: int) -> bool {
    let turn = advance(run(e, ticks.take(i)), ticks[i].signal, ticks[i].now).1;
    turn.todo.contains(Chore::RestartFprintd)
}

/// A restart is due when it is made, and marks its time.
proof fn lemma_restart_marks_its_time(e: EngineModel, signal: Signal, now: u64)
    ensures
        ({
            let (after, turn) = advance(e, signal, now);
            &&& turn.todo.contains(Chore::RestartFprintd) ==> {
                &&& after.last_unwedge == Some(now)
                &&& e.last_unwedge is None || now - e.last_unwedge->0 >= UNWEDGE_COOLDOWN
            }
            &&& after.last_unwedge == e.last_unwedge || after.last_unwedge == Some(now)
        }),
{
}

/// After a restart the mark is never older than that restart.
proof fn lemma_mark_only_grows(e: EngineModel, ticks: Seq<Tick>, i: int, k: int)
    requires
        0 <= i < k <= ticks.len(),
        forall|a: int, b: int| 0 <= a <= b < ticks.len() ==> ticks[a].now <= ticks[b].now,
        restarts_fprintd(e, ticks, i),
    ensures
        run(e, ticks.take(k)).last_unwedge is Some,
        run(e, ticks.take(k)).last_unwedge->0 >= ticks[i].now,
    decreases k,
{
    assert(ticks.take(k).drop_last() =~= ticks.take(k - 1));
    lemma_restart_marks_its_time(run(e, ticks.take(k - 1)), ticks[k - 1].signal, ticks[k - 1].now);
    if k - 1 > i {
        lemma_mark_only_grows(e, ticks, i, k - 1);
    }
}

/// However long the engine runs and however its claim cycles go, two restarts
/// of fprintd are at least the cooldown apart.
pub proof fn law_restarts_keep_their_distance(e: EngineModel, ticks: Seq<Tick>, i: int, j: int)
    requires
        0 <= i < j < ticks.len(),
        forall|a: int, b: int| 0 <= a <= b < ticks.len() ==> ticks[a].now <= ticks[b].now,
        restarts_fprintd(e, ticks, i),
        restarts_fprintd(e, ticks, j),
    ensures
        ticks[j].now - ticks[i].now >= UNWEDGE_COOLDOWN,
{
    lemma_mark_only_grows(e, ticks, i, j);
    lemma_restart_marks_its_time(run(e, ticks.take(j)), ticks[j].signal, ticks[j].now);
}

/// What is waited for says where the engine stands, and a call that names a
/// user names the one the claim cycle is for.
pub proof fn law_each_wait_has_its_stage(e: EngineModel, signal: Signal, now: u64)
    requires
        expected(e.stage, signal),
    ensures
        ({
            let (after, turn) = advance(e, signal, now);
            match turn.wait {
                WaitModel::ReadTarget => after.stage == Stage::Link,
                WaitModel::ReadGates => after.stage == Stage::Outer,
                WaitModel::Peek => after.stage == Stage::ClaimTop || after.stage
                    == Stage::VerifyTop,
                WaitModel::AwaitTarget => after.stage == Stage::AwaitingTarget || after.stage
                    == Stage::AwaitingRetarget,
                WaitModel::AwaitGates => after.stage == Stage::Parked,
                WaitModel::Resolve => after.stage == Stage::Resolving,
                WaitModel::ListEnrolled(user) => after.stage == Stage::Enrolling && after.user
                    == user,
                WaitModel::TakeInhibitor => after.stage == Stage::Inhibiting,
                WaitModel::Claim(user) => after.stage == Stage::Claiming && after.user == user,
                WaitModel::BackOff(_) => after.stage == Stage::BackingOff,
                WaitModel::NextBuffered => after.stage == Stage::Draining,
                WaitModel::VerifyStart => after.stage == Stage::Starting,
                WaitModel::Listen { .. } => after.stage == Stage::Listening,
                WaitModel::Ping => after.stage == Stage::Pinging,
                WaitModel::Tell(_) => after.stage is Telling,
                WaitModel::Finish => after.stage == Stage::Finished,
            }
        }),
{
}

/// Every outcome of what is waited for is taken, and no other signal.
pub proof fn law_every_outcome_is_taken(e: EngineModel, signal: Signal, now: u64, next: Signal)
    requires
        expected(e.stage, signal),
    ensures
        expected(advance(e, signal, now).0.stage, next) <==> match advance(e, signal, now).1.wait {
            WaitModel::ReadTarget | WaitModel::ReadGates | WaitModel::Peek => next is Gates,
            WaitModel::AwaitTarget => next is TargetChanged || next is TargetClosed,
            WaitModel::AwaitGates => next is TargetChanged || next is TargetClosed
                || next is ActiveChanged || next is SleepingChanged,
            WaitModel::Resolve => next is Resolved || next is ResolveFailed,
            WaitModel::ListEnrolled(_) => next is Fingers,
            WaitModel::TakeInhibitor => next is Inhibitor,
            WaitModel::Claim(_) => next is Claimed || next is ClaimFailed,
            WaitModel::BackOff(_) => next is BackedOff || next is TargetChanged
                || next is TargetClosed || next is ActiveChanged || next is SleepingChanged,
            WaitModel::NextBuffered => next is Status || next is Unreadable || next is Drained,
            WaitModel::VerifyStart => next is Started || next is StartFailed,
            WaitModel::Listen { .. } => next is Status || next is Unreadable || next is StreamEnded
                || next is Quiet || next is TargetChanged || next is TargetClosed
                || next is ActiveChanged || next is SleepingChanged,
            WaitModel::Ping => next is Pong,
            WaitModel::Tell(_) => next is Sink,
            WaitModel::Finish => false,
        },
{
}

/// The reader is never claimed for a user without prints: the sink hears that
/// there are none, and the engine waits for another target command. Where
/// there are prints, or fprintd would not say, the next thing is a claim for
/// that very user, as soon as the gates are seen open.
pub proof fn law_no_prints_no_claim(e: EngineModel, prints: Enrollment, gates: Gates, now: u64)
    requires
        e.stage == Stage::Enrolling,
    ensures
        ({
            let (told, tell) = advance(e, Signal::Fingers(Enrollment::Missing), now);
            let (idle, turn) = advance(told, Signal::Sink(Flow::Continue), now);
            &&& tell.todo == Seq::<Chore>::empty()
            &&& tell.wait == WaitModel::Tell(
                Report::Unavailable(
                    if e.user == Seq::<char>::empty() {
                        "no enrolled fingerprints"@
                    } else {
                        e.user + ": no enrolled fingerprints"@
                    },
                ),
            )
            &&& turn.todo == Seq::<Chore>::empty()
            &&& turn.wait == WaitModel::AwaitTarget
            &&& idle == (EngineModel { stage: Stage::AwaitingRetarget, ..e })
        }),
        prints != Enrollment::Missing && !gates.closed ==> {
            let (looking, look) = advance(e, Signal::Fingers(prints), now);
            let (after, turn) = advance(looking, Signal::Gates(gates), now);
            &&& look.todo == Seq::<Chore>::empty()
            &&& look.wait == WaitModel::Peek
            &&& looking == (EngineModel { stage: Stage::ClaimTop, attempts: 0, ..e })
            &&& gates.target is Some && gates.target->0@ == e.user && gates.active
                && !gates.sleeping ==> turn.todo == Seq::<Chore>::empty() && turn.wait == if e.inhibitor {
                WaitModel::Claim(e.user)
            } else {
                WaitModel::TakeInhibitor
            }
        },
{
    if e.user.len() == 0 {
        assert(e.user =~= Seq::<char>::empty());
    }
}

/// A claim cycle begins with the answer that there are prints, or that nobody
/// can tell; within a cycle claims are tried again after a pause, and nothing
/// else leads to one.
pub proof fn law_a_claim_cycle_begins_with_prints(e: EngineModel, signal: Signal, now: u64)
    requires
        expected(e.stage, signal),
    ensures
        advance(e, signal, now).0.stage == Stage::ClaimTop ==> (e.stage == Stage::Enrolling
            && signal is Fingers && signal->Fingers_0 != Enrollment::Missing) || e.stage
            == Stage::BackingOff,
        advance(e, signal, now).0.stage == Stage::BackingOff ==> e.stage == Stage::Claiming
            || (e.stage matches Stage::Telling(After::Claim { .. })),
        (advance(e, signal, now).0.stage matches Stage::Telling(After::Claim { .. })) ==> e.stage
            == Stage::Claiming,
        advance(e, signal, now).0.stage == Stage::Enrolling ==> e.stage == Stage::Outer,
        advance(e, signal, now).0.user != e.user ==> e.stage == Stage::Outer,
{
}

/// Without a target the device is left alone; with one it is resolved.
pub proof fn law_the_device_is_resolved_for_a_target(e: EngineModel, gates: Gates, now: u64)
    requires
        !gates.closed,
    ensures
        e.stage == Stage::Link ==> {
            let (after, turn) = advance(e, Signal::Gates(gates), now);
            &&& turn.todo == Seq::<Chore>::empty()
            &&& turn.wait == if gates.target is Some {
                WaitModel::Resolve
            } else {
                WaitModel::AwaitTarget
            }
            &&& after == (EngineModel { stage: after.stage, ..e })
        },
        e.stage == Stage::AwaitingTarget ==> {
            let (after, turn) = advance(e, Signal::TargetChanged(gates), now);
            &&& turn.todo == Seq::<Chore>::empty()
            &&& turn.wait == WaitModel::ReadTarget
            &&& after == (EngineModel { stage: after.stage, ..e })
        },
        e.stage == Stage::Resolving ==> {
            let (after, turn) = advance(e, Signal::Resolved, now);
            &&& turn.todo == Seq::<Chore>::empty()
            &&& turn.wait == WaitModel::ReadGates
            &&& after == (EngineModel { stage: after.stage, resolve_fails: 0, ..e })
        },
{
}

/// A device that cannot be resolved is looked for again after two seconds; of
/// the failures in a row the sink hears the first alone.
pub proof fn law_a_missing_device_is_told_once(e: EngineModel, err: String, now: u64)
    requires
        e.stage == Stage::Resolving,
        e.resolve_fails < u32::MAX,
        !e.inhibitor,
    ensures
        ({
            let (failed, turn) = advance(e, Signal::ResolveFailed(err), now);
            let (heard, then) = advance(failed, Signal::Sink(Flow::Continue), now);
            &&& failed.resolve_fails == e.resolve_fails + 1
            &&& if e.resolve_fails == 0 {
                &&& turn.todo == Seq::<Chore>::empty()
                &&& turn.wait == WaitModel::Tell(
                    Report::Unavailable("no fingerprint device: "@ + err@),
                )
                &&& then.todo == seq![Chore::Sleep(2000)]
                &&& then.wait == WaitModel::ReadTarget
                &&& heard.resolve_fails == 1
            } else {
                &&& turn.todo == seq![Chore::Sleep(2000)]
                &&& turn.wait == WaitModel::ReadTarget
            }
        }),
{
}

/// The engine parks unless somebody is to be verified in an active session of
/// an awake machine; then it asks for the prints of exactly that user. Any
/// change of a gate makes it look again.
pub proof fn law_it_parks_until_the_gates_are_open(
    e: EngineModel,
    gates: Gates,
    signal: Signal,
    now: u64,
)
    requires
        !gates.closed,
        signal is TargetChanged || signal is ActiveChanged || signal is SleepingChanged,
    ensures
        e.stage == Stage::Outer ==> {
            let (after, turn) = advance(e, Signal::Gates(gates), now);
            &&& turn.todo == Seq::<Chore>::empty()
            &&& if gates.target is Some && gates.active && !gates.sleeping {
                &&& turn.wait == WaitModel::ListEnrolled(gates.target->0@)
                &&& after == (EngineModel { stage: after.stage, user: gates.target->0@, ..e })
            } else {
                &&& turn.wait == WaitModel::AwaitGates
                &&& after == (EngineModel { stage: after.stage, ..e })
            }
        },
        e.stage == Stage::Parked ==> {
            let (after, turn) = advance(e, signal, now);
            &&& turn.todo == Seq::<Chore>::empty()
            &&& turn.wait == WaitModel::ReadGates
            &&& after == (EngineModel { stage: after.stage, ..e })
        },
        e.stage == Stage::AwaitingRetarget ==> {
            let (after, turn) = advance(e, Signal::TargetChanged(gates), now);
            &&& turn.todo == Seq::<Chore>::empty()
            &&& turn.wait == WaitModel::ReadGates
            &&& after == (EngineModel { stage: after.stage, ..e })
        },
{
}

/// Before a claim the gates are read once more: a user who is not wanted any
/// more is let go, and the inhibitor with them. The claim goes out for the
/// wanted user once the inhibitor was asked for, whatever became of it.
pub proof fn law_a_claim_goes_out_for_the_wanted_user(
    e: EngineModel,
    gates: Gates,
    got: bool,
    now: u64,
)
    requires
        !gates.closed,
    ensures
        e.stage == Stage::ClaimTop ==> {
            let (after, turn) = advance(e, Signal::Gates(gates), now);
            if gates.target is Some && gates.target->0@ == e.user && gates.active && !gates.sleeping {
                &&& turn.todo == Seq::<Chore>::empty()
                &&& turn.wait == if e.inhibitor {
                    WaitModel::Claim(e.user)
                } else {
                    WaitModel::TakeInhibitor
                }
                &&& after == (EngineModel { stage: after.stage, ..e })
            } else {
                &&& turn.wait == WaitModel::ReadGates
                &&& turn.todo == if e.inhibitor {
                    seq![Chore::DropInhibitor]
                } else {
                    Seq::empty()
                }
                &&& after == (EngineModel { stage: after.stage, inhibitor: false, ..e })
            }
        },
        e.stage == Stage::Inhibiting ==> {
            let (after, turn) = advance(e, Signal::Inhibitor(got), now);
            &&& turn.todo == Seq::<Chore>::empty()
            &&& turn.wait == WaitModel::Claim(e.user)
            &&& after == (EngineModel { stage: after.stage, inhibitor: got, ..e })
        },
{
}

/// What a failed claim leads to, once the sink knows what it has to. A reader
/// wedged open since an earlier claim is freed by restarting fprintd, from the
/// second failure on and at most every thirty seconds. Otherwise the claim is
/// tried again: after half a second, or after two where the reader is resetting
/// or has been busy for long.
pub proof fn law_a_failed_claim_is_retried(e: EngineModel, err: String, now: u64)
    requires
        e.stage == Stage::Claiming,
        e.attempts < u32::MAX,
    ensures
        ({
            let n = e.attempts + 1;
            let (failed, first) = advance(e, Signal::ClaimFailed(err), now);
            let told = first.wait is Tell;
            let (after, turn) = if told {
                advance(failed, Signal::Sink(Flow::Continue), now)
            } else {
                (failed, first)
            };
            let restart = {
                &&& n >= 2
                &&& occurs(err@, "already open"@)
                &&& e.last_unwedge is None || now - e.last_unwedge->0 >= 30_000
            };
            &&& told <==> n == 6
            &&& told ==> first.todo == Seq::<Chore>::empty() && first.wait == WaitModel::Tell(
                Report::Unavailable("reader busy"@),
            )
            &&& restart ==> {
                &&& turn.todo.len() >= 2
                &&& turn.todo[0] == Chore::RestartFprintd
                &&& turn.todo[1] == Chore::Sleep(1000)
                &&& turn.todo.skip(2) == if e.inhibitor {
                    seq![Chore::DropInhibitor]
                } else {
                    Seq::empty()
                }
                &&& turn.wait == WaitModel::ReadTarget
                &&& after == (EngineModel {
                    stage: after.stage,
                    attempts: n as u32,
                    last_unwedge: Some(now),
                    inhibitor: false,
                    ..e
                })
            }
            &&& !restart ==> {
                &&& turn.todo == Seq::<Chore>::empty()
                &&& turn.wait == WaitModel::BackOff(
                    if n < 6 && !occurs(err@, "endpoint stalled"@) {
                        500
                    } else {
                        2000
                    },
                )
                &&& after == (EngineModel { stage: after.stage, attempts: n as u32, ..e })
            }
        }),
{
    let (failed, first) = advance(e, Signal::ClaimFailed(err), now);
    let turn = if first.wait is Tell {
        advance(failed, Signal::Sink(Flow::Continue), now).1
    } else {
        first
    };
    if e.inhibitor {
        assert(turn.todo.len() >= 2 ==> turn.todo.skip(2) =~= seq![Chore::DropInhibitor]);
    } else {
        assert(turn.todo.len() >= 2 ==> turn.todo.skip(2) =~= Seq::empty());
    }
}

/// After the pause, or as soon as a gate changes, the gates are read again
/// before the next claim; the failures so far still count.
pub proof fn law_a_pause_ends_at_the_gates(e: EngineModel, signal: Signal, now: u64)
    requires
        e.stage == Stage::BackingOff,
        expected(e.stage, signal),
        !(signal is TargetClosed),
    ensures
        advance(e, signal, now).1.todo == Seq::<Chore>::empty(),
        advance(e, signal, now).1.wait == WaitModel::Peek,
        advance(e, signal, now).0 == (EngineModel { stage: Stage::ClaimTop, ..e }),
{
}

/// A claim starts with nothing told and nothing started: the buffered statuses
/// are drained one by one, then the gates are read.
pub proof fn law_a_claim_starts_afresh(e: EngineModel, result: String, done: bool, now: u64)
    ensures
        e.stage == Stage::Claiming ==> {
            let (after, turn) = advance(e, Signal::Claimed, now);
            &&& turn.todo == Seq::<Chore>::empty()
            &&& turn.wait == WaitModel::NextBuffered
            &&& after == (EngineModel { stage: after.stage, armed: false, last_start: None, ..e })
        },
        e.stage == Stage::Draining ==> {
            let (after, turn) = advance(e, Signal::Status { result, done }, now);
            let (unread, next) = advance(e, Signal::Unreadable, now);
            let (drained, look) = advance(e, Signal::Drained, now);
            let v = super::verdict(result@, done);
            &&& turn.wait == WaitModel::NextBuffered
            &&& after == (EngineModel {
                echoes: if e.echoes > 0 && (v is NoMatch || v is Error) {
                    (e.echoes - 1) as u32
                } else {
                    e.echoes
                },
                ..e
            })
            &&& next.wait == WaitModel::NextBuffered
            &&& unread == e
            &&& look.wait == WaitModel::Peek
            &&& drained == (EngineModel { stage: Stage::VerifyTop, ..e })
        },
{
}

/// A verify is started only for the wanted user, and never sooner than 400 ms
/// after the last one of this claim; else the reader goes back and the sink
/// hears that the engine stands down.
pub proof fn law_a_verify_starts_for_the_wanted_user(e: EngineModel, gates: Gates, now: u64)
    requires
        e.stage == Stage::VerifyTop,
        !gates.closed,
        e.last_start is Some ==> e.last_start->0 <= now,
    ensures
        ({
            let (after, turn) = advance(e, Signal::Gates(gates), now);
            let wait = if turn.todo.len() > 0 && turn.todo[0] is Sleep {
                turn.todo[0]->Sleep_0
            } else {
                0
            };
            if gates.target is Some && gates.target->0@ == e.user && gates.active && !gates.sleeping {
                &&& turn.wait == WaitModel::VerifyStart
                &&& turn.todo.len() == if wait > 0 {
                    1nat
                } else {
                    0nat
                }
                &&& e.last_start is None ==> wait == 0
                &&& e.last_start is Some ==> {
                    &&& now + wait >= e.last_start->0 + 400
                    &&& wait > 0 ==> now + wait == e.last_start->0 + 400
                }
                &&& after == (EngineModel { stage: after.stage, ..e })
            } else {
                let (down, then) = advance(after, Signal::Sink(Flow::Continue), now);
                &&& turn.todo == seq![Chore::Release]
                &&& turn.wait == WaitModel::Tell(Report::Unavailable("standing down"@))
                &&& then.wait == WaitModel::ReadGates
                &&& then.todo == if e.inhibitor {
                    seq![Chore::DropInhibitor]
                } else {
                    Seq::empty()
                }
                &&& down == (EngineModel { stage: down.stage, inhibitor: false, ..e })
            }
        }),
{
}

/// The first verify of a claim is announced as ready, a later one is not;
/// either way it is listened to. A verify that cannot be started gives the
/// reader back, and the engine starts over a second later.
pub proof fn law_a_claim_is_announced_once(e: EngineModel, now: u64)
    requires
        e.stage == Stage::Starting,
    ensures
        ({
            let (started, turn) = advance(e, Signal::Started, now);
            let (after, last) = if e.armed {
                (started, turn)
            } else {
                advance(started, Signal::Sink(Flow::Continue), now)
            };
            &&& turn.todo == Seq::<Chore>::empty()
            &&& !e.armed ==> turn.wait == WaitModel::Tell(Report::Ready)
            &&& last.todo == Seq::<Chore>::empty()
            &&& last.wait == (WaitModel::Listen { reset: true })
            &&& after == (EngineModel {
                stage: Stage::Listening,
                armed: true,
                last_start: Some(now),
                ..e
            })
        }),
        ({
            let (failed, turn) = advance(e, Signal::StartFailed, now);
            let (after, then) = advance(failed, Signal::Sink(Flow::Continue), now);
            &&& turn.todo == seq![Chore::Release]
            &&& turn.wait == WaitModel::Tell(Report::Unavailable("reader error, reclaiming"@))
            &&& then.todo == if e.inhibitor {
                seq![Chore::Sleep(1000), Chore::DropInhibitor]
            } else {
                seq![Chore::Sleep(1000)]
            }
            &&& then.wait == WaitModel::ReadGates
            &&& after == (EngineModel { stage: after.stage, inhibitor: false, ..e })
        }),
{
}

/// What a status of the running verify leads to, where no echo is owed for it.
/// A finger that is not recognised is stopped, hinted at and tried again on the
/// same claim; an error is tried again a second later; a hint is passed on and
/// a status without one is not; a reader that went away is released and looked
/// for again a second later.
pub proof fn law_every_verdict_is_acted_on(e: EngineModel, result: String, done: bool, now: u64)
    requires
        e.stage == Stage::Listening,
        e.echoes == 0,
    ensures
        ({
            let v = super::verdict(result@, done);
            let (after, turn) = advance(e, Signal::Status { result, done }, now);
            let (then, next) = advance(after, Signal::Sink(Flow::Continue), now);
            match v {
                super::Verdict::Match => {
                    &&& turn.wait == WaitModel::Tell(Report::Match(e.user))
                    &&& next.todo == Seq::<Chore>::empty()
                    &&& next.wait == WaitModel::AwaitTarget
                    &&& then == (EngineModel { stage: then.stage, inhibitor: false, ..e })
                },
                super::Verdict::NoMatch => {
                    &&& turn.todo == seq![Chore::VerifyStop]
                    &&& turn.wait == WaitModel::Tell(Report::Hint("Not recognized — try again"@))
                    &&& next.todo == Seq::<Chore>::empty()
                    &&& next.wait == WaitModel::Peek
                    &&& then == (EngineModel { stage: Stage::VerifyTop, ..e })
                },
                super::Verdict::Error => {
                    &&& turn.todo == seq![Chore::VerifyStop, Chore::Sleep(1000)]
                    &&& turn.wait == WaitModel::Peek
                    &&& after == (EngineModel { stage: Stage::VerifyTop, ..e })
                },
                super::Verdict::Disconnected => {
                    &&& turn.todo == seq![Chore::Release]
                    &&& turn.wait == WaitModel::Tell(Report::Unavailable("reader disconnected"@))
                    &&& next.todo == if e.inhibitor {
                        seq![Chore::Sleep(1000), Chore::DropInhibitor]
                    } else {
                        seq![Chore::Sleep(1000)]
                    }
                    &&& next.wait == WaitModel::ReadTarget
                    &&& then == (EngineModel { stage: then.stage, inhibitor: false, ..e })
                },
                super::Verdict::Hint(Some(text)) => {
                    &&& turn.todo == Seq::<Chore>::empty()
                    &&& turn.wait == WaitModel::Tell(Report::Hint(text))
                    &&& next.todo == Seq::<Chore>::empty()
                    &&& next.wait == (WaitModel::Listen { reset: true })
                    &&& then == e
                },
                super::Verdict::Hint(None) => {
                    &&& turn.todo == Seq::<Chore>::empty()
                    &&& turn.wait == (WaitModel::Listen { reset: true })
                    &&& after == e
                },
            }
        }),
{
}

/// While a verify runs, only a gate that closes takes the reader away: its own
/// user asked for again is told that it is ready, and listened to further
/// without counting the silence anew; the other gates opening change nothing.
/// Closing says why, and the engine goes back to its gates.
pub proof fn law_only_a_closing_gate_ends_a_verify(e: EngineModel, signal: Signal, now: u64)
    requires
        e.stage == Stage::Listening,
        signal is TargetChanged || signal is ActiveChanged || signal is SleepingChanged,
        e.echoes < u32::MAX,
    ensures
        ({
            let (after, turn) = advance(e, signal, now);
            let (then, next) = advance(after, Signal::Sink(Flow::Continue), now);
            let closing = match signal {
                Signal::TargetChanged(g) => !(g.target is Some && g.target->0@ == e.user),
                Signal::ActiveChanged(g) => !g.active,
                Signal::SleepingChanged(g) => g.sleeping,
                _ => false,
            };
            if closing {
                &&& turn.todo == seq![Chore::VerifyStop, Chore::Release]
                &&& turn.wait == WaitModel::Tell(
                    Report::Unavailable(
                        if signal is TargetChanged {
                            "standing down"@
                        } else if signal is ActiveChanged {
                            "session inactive"@
                        } else {
                            "suspending"@
                        },
                    ),
                )
                &&& next.wait == WaitModel::ReadGates
                &&& next.todo == if e.inhibitor {
                    seq![Chore::DropInhibitor]
                } else {
                    Seq::empty()
                }
                &&& then == (EngineModel {
                    stage: then.stage,
                    inhibitor: false,
                    echoes: (e.echoes + 1) as u32,
                    ..e
                })
            } else if signal is TargetChanged {
                &&& turn.todo == Seq::<Chore>::empty()
                &&& turn.wait == WaitModel::Tell(Report::Ready)
                &&& next.todo == Seq::<Chore>::empty()
                &&& next.wait == (WaitModel::Listen { reset: false })
                &&& then == e
            } else {
                &&& turn.todo == Seq::<Chore>::empty()
                &&& turn.wait == (WaitModel::Listen { reset: false })
                &&& after == e
            }
        }),
{
}

/// A status that cannot be read is skipped. fprintd that goes away is told, and
/// looked for again a second later, with nothing to release. A ping that is not
/// answered stops the verify, whose end is then owed, and starts another on the
/// same claim.
pub proof fn law_a_dead_fprintd_is_noticed(e: EngineModel, now: u64)
    requires
        e.echoes < u32::MAX,
    ensures
        e.stage == Stage::Listening ==> {
            let (unread, again) = advance(e, Signal::Unreadable, now);
            let (gone, turn) = advance(e, Signal::StreamEnded, now);
            let (then, next) = advance(gone, Signal::Sink(Flow::Continue), now);
            &&& unread == e
            &&& again.todo == Seq::<Chore>::empty()
            &&& again.wait == (WaitModel::Listen { reset: true })
            &&& turn.todo == Seq::<Chore>::empty()
            &&& turn.wait == WaitModel::Tell(Report::Unavailable("fprintd restarted"@))
            &&& next.todo == if e.inhibitor {
                seq![Chore::Sleep(1000), Chore::DropInhibitor]
            } else {
                seq![Chore::Sleep(1000)]
            }
            &&& next.wait == WaitModel::ReadTarget
            &&& then == (EngineModel { stage: then.stage, inhibitor: false, ..e })
        },
        e.stage == Stage::Pinging ==> {
            let (after, turn) = advance(e, Signal::Pong(false), now);
            &&& turn.todo == seq![Chore::VerifyStop]
            &&& turn.wait == WaitModel::Peek
            &&& after == (EngineModel {
                stage: Stage::VerifyTop,
                echoes: (e.echoes + 1) as u32,
                ..e
            })
        },
{
}

/// An engine that ends gives back what it holds: a running verify is stopped,
/// a reader that is claimed is released, and the inhibitor goes last.
pub proof fn law_a_drop_gives_everything_back(e: EngineModel, gates: Gates, now: u64)
    requires
        gates.closed,
    ensures
        e.stage == Stage::VerifyTop ==> advance(e, Signal::Gates(gates), now).1.todo
            == seq![Chore::Release] + letting_go(e.inhibitor),
        e.stage == Stage::ClaimTop ==> advance(e, Signal::Gates(gates), now).1.todo == letting_go(
            e.inhibitor,
        ),
        e.stage == Stage::Listening ==> advance(e, Signal::TargetClosed, now).1.todo
            == seq![Chore::VerifyStop, Chore::Release] + letting_go(e.inhibitor),
        e.stage == Stage::BackingOff ==> advance(e, Signal::TargetClosed, now).1.todo
            == letting_go(e.inhibitor),
        letting_go(true) == seq![Chore::DropInhibitor],
        letting_go(false) == Seq::<Chore>::empty(),
{
}

/// What the sink is told names what happened.
pub proof fn law_what_the_sink_is_told(e: EngineModel, signal: Signal, now: u64)
    requires
        expected(e.stage, signal),
    ensures
        advance(e, signal, now).1.wait matches WaitModel::Tell(report) ==> match report {
            Report::Ready => signal is Started || signal is TargetChanged,
            Report::Hint(_) => signal is Status,
            Report::Match(_) => signal is Status,
            Report::Unavailable(_) => signal is Fingers || signal is ResolveFailed
                || signal is ClaimFailed || signal is StartFailed || signal is Status
                || signal is StreamEnded || signal is Gates || signal is TargetChanged
                || signal is ActiveChanged || signal is SleepingChanged,
            Report::Progress(_) => false,
        },
        VERIFY_SILENCE_PING == 40_000,
{
}

} // verus!
