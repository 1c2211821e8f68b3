//! Greeter-side client of the fingerprint agent.
//!
//! It reconnects with backoff while a verify target is desired, and announces
//! the target after every (re)connect, so an agent that restarts or is not up
//! yet degrades to "fingerprint unavailable" and heals itself.

use vstd::prelude::*;
use crate::fp::agent::{Cmd, Ev, EvModel};
use crate::text::{concat2, text_of};

verus! {

/// Milliseconds before an unreachable agent is tried again.
pub const RETRY_PAUSE: u64 = 2_000;

/// Milliseconds before a lost agent is looked for.
pub const LOST_PAUSE: u64 = 1_000;

/// What to do next; its outcome is the next [`Signal`].
#[derive(Debug)]
pub enum Wait {
    /// Until a command comes: `Command` or `Closed`.
    AwaitCmd,
    Connect,
    /// Send the command to the agent: `Sent`.
    Send(Cmd),
    /// Until the agent says something or a command comes.
    Listen,
    /// Hand the event to the greeter: `Told`.
    Tell(Ev),
    /// Until the milliseconds are over (`Paused`) or a command comes.
    PauseOrCmd(u64),
    /// Pause this many milliseconds: `Paused`.
    Pause(u64),
    Finish,
}

/// A [`Wait`] with its texts as sequences of characters. A command is the
/// user it asks for, or none.
pub enum WaitModel {
    AwaitCmd,
    Connect,
    Send(Option<Seq<char>>),
    Listen,
    Tell(EvModel),
    PauseOrCmd(u64),
    Pause(u64),
    Finish,
}

impl View for Wait {
    type V = WaitModel;

    open spec fn view(&self) -> WaitModel {
        match *self {
            Wait::AwaitCmd => WaitModel::AwaitCmd,
            Wait::Connect => WaitModel::Connect,
            Wait::Send(cmd) => WaitModel::Send(cmd@),
            Wait::Listen => WaitModel::Listen,
            Wait::Tell(ev) => WaitModel::Tell(ev@),
            Wait::PauseOrCmd(ms) => WaitModel::PauseOrCmd(ms),
            Wait::Pause(ms) => WaitModel::Pause(ms),
            Wait::Finish => WaitModel::Finish,
        }
    }
}

/// What just happened.
#[derive(Debug)]
pub enum Signal {
    Command(Cmd),
    /// Nobody can send a command any more.
    Closed,
    Connected,
    ConnectFailed(String),
    /// Whether a command went out.
    Sent(bool),
    /// The agent sent an event.
    Event(Ev),
    /// The agent sent a line that is blank or makes no sense.
    Noise,
    /// The agent went away.
    Lost,
    /// Whether the greeter took an event.
    Told(bool),
    Paused,
}

/// Where the client stands.
#[derive(Debug, Clone, Copy, PartialEq, Eq, Structural)]
pub enum Stage {
    /// Nothing to verify.
    Idle,
    Connecting,
    /// The greeter is told that the agent is unreachable.
    TellingDown,
    /// Waiting before the next connect.
    Retrying,
    /// The target or a command is on its way to the agent.
    Sending,
    Listening,
    /// The greeter is told what the agent said.
    Telling,
    /// The greeter is told that the agent went away.
    TellingLost,
    /// Waiting before the agent is looked for.
    Pausing,
    Finished,
}

/// The client.
#[derive(Debug)]
pub struct Client {
    stage: Stage,
    desired: Option<String>,
    reported_down: bool,
}

/// A [`Client`] as the contracts speak of it.
pub struct ClientModel {
    pub stage: Stage,
    /// Who is to be verified.
    pub desired: Option<Seq<char>>,
    /// The greeter knows that the agent is away.
    pub reported_down: bool,
}

impl View for Client {
    type V = ClientModel;

    closed spec fn view(&self) -> ClientModel {
        ClientModel {
            stage: self.stage,
            desired: text_of(self.desired),
            reported_down: self.reported_down,
        }
    }
}

/// `stage` next, with that wait.
pub open spec fn go(c: ClientModel, stage: Stage, wait: WaitModel) -> (ClientModel, WaitModel) {
    (ClientModel { stage, ..c }, wait)
}

/// Connect where somebody is to be verified, wait for a command otherwise.
pub open spec fn top(c: ClientModel) -> (ClientModel, WaitModel) {
    if c.desired is Some {
        go(c, Stage::Connecting, WaitModel::Connect)
    } else {
        go(c, Stage::Idle, WaitModel::AwaitCmd)
    }
}

/// Whether a signal is one of the outcomes of what the client waits for.
pub open spec fn expected(stage: Stage, signal: Signal) -> bool {
    match stage {
        Stage::Idle => signal is Command || signal is Closed,
        Stage::Connecting => signal is Connected || signal is ConnectFailed,
        Stage::TellingDown | Stage::Telling | Stage::TellingLost => signal is Told,
        Stage::Retrying => signal is Paused || signal is Command || signal is Closed,
        Stage::Sending => signal is Sent,
        Stage::Listening => {
            ||| signal is Event
            ||| signal is Noise
            ||| signal is Lost
            ||| signal is Command
            ||| signal is Closed
        },
        Stage::Pausing => signal is Paused,
        Stage::Finished => false,
    }
}

/// What the client does about a signal it waits for.
pub open spec fn advance(c: ClientModel, signal: Signal) -> (ClientModel, WaitModel) {
    match (c.stage, signal) {
        (_, Signal::Closed) => go(c, Stage::Finished, WaitModel::Finish),
        (_, Signal::Told(false)) => go(c, Stage::Finished, WaitModel::Finish),
        (Stage::Listening, Signal::Command(cmd)) => go(
            ClientModel { desired: cmd@, ..c },
            Stage::Sending,
            WaitModel::Send(cmd@),
        ),
        (_, Signal::Command(cmd)) => top(ClientModel { desired: cmd@, ..c }),
        (Stage::Connecting, Signal::Connected) => go(
            ClientModel { reported_down: false, ..c },
            Stage::Sending,
            // The target is announced, the empty name where it has gone.
            WaitModel::Send(Some(if c.desired is Some { c.desired->0 } else { Seq::empty() })),
        ),
        (Stage::Connecting, Signal::ConnectFailed(err)) => if c.reported_down {
            go(c, Stage::Retrying, WaitModel::PauseOrCmd(RETRY_PAUSE))
        } else {
            go(
                ClientModel { reported_down: true, ..c },
                Stage::TellingDown,
                WaitModel::Tell(EvModel::Unavailable("fp-agent: "@ + err@)),
            )
        },
        (Stage::TellingDown, _) => go(c, Stage::Retrying, WaitModel::PauseOrCmd(RETRY_PAUSE)),
        (Stage::Sending, Signal::Sent(true)) => go(c, Stage::Listening, WaitModel::Listen),
        (Stage::Listening, Signal::Event(ev)) => go(c, Stage::Telling, WaitModel::Tell(ev@)),
        (Stage::Listening, Signal::Noise) => go(c, Stage::Listening, WaitModel::Listen),
        (Stage::Listening, _) => go(
            ClientModel { reported_down: true, ..c },
            Stage::TellingLost,
            WaitModel::Tell(EvModel::Unavailable("fp-agent connection lost"@)),
        ),
        (Stage::Telling, _) => go(c, Stage::Listening, WaitModel::Listen),
        (Stage::TellingLost, _) => go(c, Stage::Pausing, WaitModel::Pause(LOST_PAUSE)),
        _ => top(c),
    }
}

impl Client {
    /// The client, and what it does first.
    pub fn start() -> (r: (Client, Wait))
        ensures
            r.0@ == (ClientModel { stage: Stage::Idle, desired: None, reported_down: false }),
            r.1@ == WaitModel::AwaitCmd,
    {
        (Client { stage: Stage::Idle, desired: None, reported_down: false }, Wait::AwaitCmd)
    }

    fn go(&mut self, stage: Stage, wait: Wait) -> (r: Wait)
        ensures
            (final(self)@, r@) == go(old(self)@, stage, wait@),
    {
        self.stage = stage;
        wait
    }

    fn top(&mut self) -> (r: Wait)
        ensures
            (final(self)@, r@) == top(old(self)@),
    {
        if self.desired.is_some() {
            self.go(Stage::Connecting, Wait::Connect)
        } else {
            self.go(Stage::Idle, Wait::AwaitCmd)
        }
    }

    fn want(&mut self, cmd: &Cmd)
        ensures
            final(self)@ == (ClientModel { desired: cmd@, ..old(self)@ }),
    {
        self.desired = match cmd {
            Cmd::Verify { user } => Some(user.clone()),
            Cmd::Stop => None,
        };
    }

    /// Whether `signal` is one of the outcomes of what the client waits for.
    pub fn accepts(&self, signal: &Signal) -> (r: bool)
        ensures
            r == expected(self@.stage, *signal),
    {
        let cmd = matches!(signal, Signal::Command(_) | Signal::Closed);
        match self.stage {
            Stage::Idle => cmd,
            Stage::Connecting => matches!(signal, Signal::Connected | Signal::ConnectFailed(_)),
            Stage::TellingDown => matches!(signal, Signal::Told(_)),
            Stage::Telling => matches!(signal, Signal::Told(_)),
            Stage::TellingLost => matches!(signal, Signal::Told(_)),
            Stage::Retrying => cmd || matches!(signal, Signal::Paused),
            Stage::Sending => matches!(signal, Signal::Sent(_)),
            Stage::Listening => cmd || matches!(
                signal,
                Signal::Event(_) | Signal::Noise | Signal::Lost
            ),
            Stage::Pausing => matches!(signal, Signal::Paused),
            Stage::Finished => false,
        }
    }

    /// Takes what happened and says what to do next.
    pub fn step(&mut self, signal: Signal) -> (r: Wait)
        requires
            expected(old(self)@.stage, signal),
        ensures
            (final(self)@, r@) == advance(old(self)@, signal),
    {
        match signal {
            Signal::Closed => self.go(Stage::Finished, Wait::Finish),
            Signal::Told(false) => self.go(Stage::Finished, Wait::Finish),
            Signal::Told(true) => match self.stage {
                Stage::TellingDown => self.go(Stage::Retrying, Wait::PauseOrCmd(RETRY_PAUSE)),
                Stage::Telling => self.go(Stage::Listening, Wait::Listen),
                _ => self.go(Stage::Pausing, Wait::Pause(LOST_PAUSE)),
            },
            Signal::Command(cmd) => {
                self.want(&cmd);
                if let Stage::Listening = self.stage {
                    self.go(Stage::Sending, Wait::Send(cmd))
                } else {
                    self.top()
                }
            },
            Signal::Connected => {
                self.reported_down = false;
                let user = match &self.desired {
                    Some(user) => user.clone(),
                    None => String::new(),
                };
                self.go(Stage::Sending, Wait::Send(Cmd::Verify { user }))
            },
            Signal::ConnectFailed(err) => if self.reported_down {
                self.go(Stage::Retrying, Wait::PauseOrCmd(RETRY_PAUSE))
            } else {
                self.reported_down = true;
                let msg = concat2("fp-agent: ", err.as_str());
                self.go(Stage::TellingDown, Wait::Tell(Ev::Unavailable { msg }))
            },
            Signal::Sent(true) => self.go(Stage::Listening, Wait::Listen),
            Signal::Event(ev) => self.go(Stage::Telling, Wait::Tell(ev)),
            Signal::Noise => self.go(Stage::Listening, Wait::Listen),
            Signal::Lost => {
                self.reported_down = true;
                let msg = "fp-agent connection lost".to_owned();
                self.go(Stage::TellingLost, Wait::Tell(Ev::Unavailable { msg }))
            },
            _ => self.top(),
        }
    }
}

/// Every connection begins with the target: whatever was asked for while the
/// agent was away is what it hears first.
pub proof fn law_connect_announces_the_target(c: ClientModel, user: Seq<char>)
    requires
        c.stage == Stage::Connecting,
        c.desired == Some(user),
    ensures
        advance(c, Signal::Connected).1 == WaitModel::Send(Some(user)),
{
}

/// An outage is reported once: an agent that stays unreachable is tried
/// again in silence.
pub proof fn law_outage_is_reported_once(c: ClientModel, signal: Signal)
    requires
        c.stage == Stage::Connecting,
        expected(c.stage, signal),
        signal is ConnectFailed,
    ensures
        advance(c, signal).0.reported_down,
        advance(c, signal).1 is Tell <==> !c.reported_down,
{
}

/// The client tries to connect only while somebody is to be verified.
pub proof fn law_connects_only_for_a_target(c: ClientModel, signal: Signal)
    requires
        expected(c.stage, signal),
        advance(c, signal).1 is Connect,
    ensures
        advance(c, signal).0.desired is Some,
{
}

/// What is waited for says where the client stands.
pub proof fn law_each_wait_has_its_stage(c: ClientModel, signal: Signal)
    requires
        expected(c.stage, signal),
    ensures
        match advance(c, signal).1 {
            WaitModel::AwaitCmd => advance(c, signal).0.stage == Stage::Idle,
            WaitModel::Connect => advance(c, signal).0.stage == Stage::Connecting,
            WaitModel::Send(_) => advance(c, signal).0.stage == Stage::Sending,
            WaitModel::Listen => advance(c, signal).0.stage == Stage::Listening,
            WaitModel::Tell(_) => advance(c, signal).0.stage == Stage::TellingDown || advance(
                c,
                signal,
            ).0.stage == Stage::Telling || advance(c, signal).0.stage == Stage::TellingLost,
            WaitModel::PauseOrCmd(_) => advance(c, signal).0.stage == Stage::Retrying,
            WaitModel::Pause(_) => advance(c, signal).0.stage == Stage::Pausing,
            WaitModel::Finish => advance(c, signal).0.stage == Stage::Finished,
        },
{
}

/// Every outcome of what is waited for is taken, and no other signal.
pub proof fn law_every_outcome_is_taken(c: ClientModel, signal: Signal, next: Signal)
    requires
        expected(c.stage, signal),
    ensures
        expected(advance(c, signal).0.stage, next) <==> match advance(c, signal).1 {
            WaitModel::AwaitCmd => next is Command || next is Closed,
            WaitModel::Connect => next is Connected || next is ConnectFailed,
            WaitModel::Send(_) => next is Sent,
            WaitModel::Listen => next is Event || next is Noise || next is Lost || next is Command
                || next is Closed,
            WaitModel::Tell(_) => next is Told,
            WaitModel::PauseOrCmd(_) => next is Paused || next is Command || next is Closed,
            WaitModel::Pause(_) => next is Paused,
            WaitModel::Finish => false,
        },
{
}

/// A command is never lost: what it asks for is what is wanted from then on. A
/// connected agent hears it at once, as it is; otherwise a target makes the
/// client connect, and none makes it wait.
pub proof fn law_a_command_is_what_is_wanted(c: ClientModel, cmd: Cmd)
    requires
        expected(c.stage, Signal::Command(cmd)),
    ensures
        ({
            let (after, wait) = advance(c, Signal::Command(cmd));
            let wants = match cmd {
                Cmd::Verify { user } => Some(user@),
                Cmd::Stop => None,
            };
            &&& after.desired == wants
            &&& after.reported_down == c.reported_down
            &&& c.stage == Stage::Listening ==> wait == WaitModel::Send(wants)
            &&& c.stage != Stage::Listening ==> wait == if wants is Some {
                WaitModel::Connect
            } else {
                WaitModel::AwaitCmd
            }
        }),
{
}

/// An agent that cannot be reached is tried again after two seconds, or at the
/// next command; one that was lost is told, and looked for after one second.
/// The target is wanted all along.
pub proof fn law_an_outage_heals_itself(c: ClientModel, err: String)
    ensures
        c.stage == Stage::Connecting ==> {
            let (failed, wait) = advance(c, Signal::ConnectFailed(err));
            let (after, then) = if c.reported_down {
                (failed, wait)
            } else {
                advance(failed, Signal::Told(true))
            };
            let (back, again) = advance(after, Signal::Paused);
            &&& !c.reported_down ==> wait == WaitModel::Tell(
                EvModel::Unavailable("fp-agent: "@ + err@),
            )
            &&& then == WaitModel::PauseOrCmd(2000)
            &&& after.reported_down
            &&& back.desired == c.desired
            &&& again == if c.desired is Some {
                WaitModel::Connect
            } else {
                WaitModel::AwaitCmd
            }
        },
        c.stage == Stage::Listening ==> {
            let (lost, wait) = advance(c, Signal::Lost);
            let (after, then) = advance(lost, Signal::Told(true));
            let (back, again) = advance(after, Signal::Paused);
            &&& wait == WaitModel::Tell(EvModel::Unavailable("fp-agent connection lost"@))
            &&& then == WaitModel::Pause(1000)
            &&& lost.reported_down
            &&& back.desired == c.desired
            &&& again == if c.desired is Some {
                WaitModel::Connect
            } else {
                WaitModel::AwaitCmd
            }
        },
{
}

/// A connection is one that works again: the outage is over, the target goes
/// out, and the agent is listened to. What it says reaches the greeter as it
/// is, and what makes no sense does not. A greeter that is gone, and nobody left
/// to command, end the client.
pub proof fn law_how_a_connection_goes(c: ClientModel, ev: Ev)
    ensures
        c.stage == Stage::Connecting ==> !advance(c, Signal::Connected).0.reported_down && advance(
            c,
            Signal::Connected,
        ).0.desired == c.desired,
        c.stage == Stage::Sending ==> {
            &&& advance(c, Signal::Sent(true)) == (
                ClientModel { stage: Stage::Listening, ..c },
                WaitModel::Listen,
            )
            &&& advance(c, Signal::Sent(false)).1 == if c.desired is Some {
                WaitModel::Connect
            } else {
                WaitModel::AwaitCmd
            }
        },
        c.stage == Stage::Listening ==> {
            let (telling, wait) = advance(c, Signal::Event(ev));
            &&& wait == WaitModel::Tell(ev@)
            &&& advance(telling, Signal::Told(true)) == (c, WaitModel::Listen)
            &&& advance(c, Signal::Noise) == (c, WaitModel::Listen)
        },
        expected(c.stage, Signal::Told(false)) ==> advance(c, Signal::Told(false)).1
            == WaitModel::Finish,
        expected(c.stage, Signal::Closed) ==> advance(c, Signal::Closed).1 == WaitModel::Finish,
{
}

} // verus!
