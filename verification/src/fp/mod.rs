//! Fingerprint core: what fprintd and logind say, and what is made of it.
//!
//! The claim/verify lifecycle itself is [`engine`]; the greeter's token
//! protocol is [`agent`]; one bounded verification for a PAM prompt is
//! [`verify`].

use vstd::prelude::*;
use crate::text::{concat2, concat3, contains, occurs, same};

pub mod agent;
pub mod engine;
pub mod verify;

verus! {

/// Interpretation of one fprintd VerifyStatus signal.
#[derive(Debug, PartialEq, Eq)]
pub enum Verify {
    Match,
    NoMatch,
    Disconnected,
    /// done=true with an unknown/error status: stop and restart the verify.
    Error,
    /// done=false: verify session continues; optionally show a hint.
    Hint(Option<&'static str>),
}

/// A [`Verify`] with the hint as a sequence of characters.
pub enum Verdict {
    Match,
    NoMatch,
    Disconnected,
    Error,
    Hint(Option<Seq<char>>),
}

impl View for Verify {
    type V = Verdict;

    open spec fn view(&self) -> Verdict {
        match *self {
            Verify::Match => Verdict::Match,
            Verify::NoMatch => Verdict::NoMatch,
            Verify::Disconnected => Verdict::Disconnected,
            Verify::Error => Verdict::Error,
            Verify::Hint(None) => Verdict::Hint(None),
            Verify::Hint(Some(text)) => Verdict::Hint(Some(text@)),
        }
    }
}

/// What a status string and its done flag mean.
pub open spec fn verdict(result: Seq<char>, done: bool) -> Verdict {
    if result == "verify-match"@ {
        Verdict::Match
    } else if result == "verify-no-match"@ {
        Verdict::NoMatch
    } else if result == "verify-disconnected"@ {
        Verdict::Disconnected
    } else if result == "verify-retry-scan"@ {
        Verdict::Hint(Some("Try again"@))
    } else if result == "verify-swipe-too-short"@ {
        Verdict::Hint(Some("Swipe longer"@))
    } else if result == "verify-finger-not-centered"@ {
        Verdict::Hint(Some("Center your finger"@))
    } else if result == "verify-remove-and-retry"@ {
        Verdict::Hint(Some("Remove and try again"@))
    } else if done {
        Verdict::Error
    } else {
        Verdict::Hint(None)
    }
}

/// Pure mapping from fprintd's (result, done) to what we do about it.
/// Statuses per fprintd docs; unknown strings fail toward restart/ignore,
/// never toward unlock.
pub fn parse_verify_status(result: &str, done: bool) -> (r: Verify)
    ensures
        r@ == verdict(result@, done),
{
    if same(result, "verify-match") {
        Verify::Match
    } else if same(result, "verify-no-match") {
        Verify::NoMatch
    } else if same(result, "verify-disconnected") {
        Verify::Disconnected
    } else if same(result, "verify-retry-scan") {
        Verify::Hint(Some("Try again"))
    } else if same(result, "verify-swipe-too-short") {
        Verify::Hint(Some("Swipe longer"))
    } else if same(result, "verify-finger-not-centered") {
        Verify::Hint(Some("Center your finger"))
    } else if same(result, "verify-remove-and-retry") {
        Verify::Hint(Some("Remove and try again"))
    } else if done {
        Verify::Error
    } else {
        Verify::Hint(None)
    }
}

/// Only fprintd's own match status is read as a match, whatever the done
/// flag says.
pub proof fn law_only_a_match_status_unlocks(result: Seq<char>, done: bool)
    ensures
        verdict(result, done) is Match <==> result == "verify-match"@,
{
    reveal_strlit("verify-match");
    reveal_strlit("verify-no-match");
    reveal_strlit("verify-disconnected");
}

/// A D-Bus call that failed: the error's name, where the peer sent one, and
/// the whole error as text.
#[derive(Debug)]
pub struct BusError {
    pub name: Option<String>,
    pub text: String,
}

/// Whether an error name is fprintd's "this user has no enrolled prints".
pub open spec fn names_no_enrolled_prints(name: Option<String>) -> bool {
    name is Some && name->0@ == "net.reactivated.Fprint.Error.NoEnrolledPrints"@
}

/// True when the D-Bus error is fprintd's "this user has no enrolled prints".
pub fn is_no_enrolled_prints(e: &BusError) -> (r: bool)
    ensures
        r == names_no_enrolled_prints(e.name),
{
    match &e.name {
        Some(name) => same(name.as_str(), "net.reactivated.Fprint.Error.NoEnrolledPrints"),
        None => false,
    }
}

/// Which logind session a verify loop gates on.
#[derive(Debug, Clone, Copy, PartialEq, Eq, Structural)]
pub enum SessionGate {
    /// The caller's *own* session (GetSession("auto"), then the pid as a
    /// fallback). Used by the lock, which runs inside the user's session.
    Own(u32),
    /// A specific *client's* session by pid, never "auto". Used by the
    /// fp-agent: it's a root daemon with no session of its own, so it must
    /// gate each greeter on that greeter's session, not the daemon's.
    Client(u32),
}

/// One way of asking logind for a session.
#[derive(Debug, Clone, Copy, PartialEq, Eq, Structural)]
pub enum Lookup {
    /// GetSession("auto"): the caller's own.
    Auto,
    /// GetSessionByPID.
    ByPid(u32),
}

/// What became of asking logind for a session.
#[derive(Debug)]
pub enum Resolution {
    /// Ask again, this way.
    Ask(Lookup),
    /// Every way failed; the text says how.
    Failed(String),
}

/// The first way to ask for the session of `gate`.
pub fn first_lookup(gate: SessionGate) -> (r: Lookup)
    ensures
        r == match gate {
            SessionGate::Own(_) => Lookup::Auto,
            SessionGate::Client(pid) => Lookup::ByPid(pid),
        },
{
    match gate {
        SessionGate::Own(_) => Lookup::Auto,
        SessionGate::Client(pid) => Lookup::ByPid(pid),
    }
}

/// What to do once a way failed: a caller's own session is asked for by pid
/// after "auto" has failed, a client's session has no second way. `auto_err`
/// is what "auto" answered, where it was asked before.
pub fn after_failed_lookup(
    gate: SessionGate,
    tried: Lookup,
    err: &str,
    auto_err: &str,
) -> (r: Resolution)
    ensures
        match (gate, tried) {
            (SessionGate::Own(pid), Lookup::Auto) => r == Resolution::Ask(Lookup::ByPid(pid)),
            (SessionGate::Own(_), Lookup::ByPid(_)) => {
                &&& r is Failed
                &&& r->Failed_0@ == "GetSession(auto): "@ + auto_err@ + "; GetSessionByPID: "@
                    + err@
            },
            (SessionGate::Client(_), _) => r is Failed && r->Failed_0@ == err@,
        },
{
    match gate {
        SessionGate::Own(pid) => match tried {
            Lookup::Auto => Resolution::Ask(Lookup::ByPid(pid)),
            Lookup::ByPid(_) => {
                let head = concat3("GetSession(auto): ", auto_err, "; GetSessionByPID: ");
                Resolution::Failed(concat2(head.as_str(), err))
            },
        },
        SessionGate::Client(_) => Resolution::Failed(err.to_owned()),
    }
}

/// How often a session is asked for before its gate is taken for open.
pub const RESOLVE_ATTEMPTS: u32 = 5;

/// Milliseconds between two of those attempts.
pub const RESOLVE_BACKOFF: u64 = 500;

/// The pause after the `attempt`-th failure to resolve a session, counted
/// from zero; `None` once the attempts are used up; the session then counts
/// as active.
pub fn resolve_retry(attempt: u32) -> (r: Option<u64>)
    ensures
        r == if attempt + 1 < RESOLVE_ATTEMPTS {
            Some(RESOLVE_BACKOFF)
        } else {
            None
        },
{
    if attempt < RESOLVE_ATTEMPTS - 1 {
        Some(RESOLVE_BACKOFF)
    } else {
        None
    }
}

/// The first value of a session gate: what the session says of itself, and
/// active where it says nothing (or there is no session to ask).
pub fn seed_active(read: Option<bool>) -> (r: bool)
    ensures
        r == (read != Some(false)),
{
    match read {
        Some(v) => v,
        None => true,
    }
}

/// Deadline of any single fprintd call, in milliseconds.
pub const CALL_TIMEOUT: u64 = 3000;

/// The outcome of a call under [`CALL_TIMEOUT`]: what came back, or, where
/// nothing did (`None`), an error that names the call.
pub fn timed<T>(what: &str, reply: Option<Result<T, String>>) -> (r: Result<T, String>)
    ensures
        match reply {
            Some(answer) => r == answer,
            None => r is Err && r->Err_0@ == what@ + ": no reply in 3s"@,
        },
{
    match reply {
        Some(answer) => answer,
        None => Err(concat2(what, ": no reply in 3s")),
    }
}

/// fprintd's Claim error when libfprint's device object is still open from a
/// claim that was never released. Distinct from ordinary contention ("already
/// claimed", a release is coming): here no release is coming and only an
/// fprintd restart clears the device.
pub fn is_wedged_claim(err: &str) -> (r: bool)
    ensures
        r == occurs(err@, "already open"@),
{
    contains(err, "already open")
}

/// fprintd's Claim error while the reader's USB endpoint is mid-reset.
/// Claims are doomed until it settles, and an Open raced against the reset
/// can leave the device wedged open.
pub fn is_device_resetting(err: &str) -> (r: bool)
    ensures
        r == occurs(err@, "endpoint stalled"@),
{
    contains(err, "endpoint stalled")
}

/// Progress reported by the engine to its caller's sink.
#[derive(Debug)]
pub enum EngineEvent {
    /// Device claimed and scanning: show the pill.
    Ready,
    /// Transient guidance ("not recognized", "center your finger", …).
    Hint(String),
    /// Face verification progress, streamed while a burst runs. The
    /// fingerprint engine never emits this.
    Progress(crate::face::Progress),
    /// No usable reader right now: hide the pill. `Ready` may follow later.
    Unavailable(String),
    /// `user`'s finger matched. The sink performs the terminal action (unlock
    /// / mint a token) and returns [`Flow`] to say whether the engine keeps
    /// running.
    Match(String),
}

/// An [`EngineEvent`] with its text as a sequence of characters.
pub enum Report {
    Ready,
    Hint(Seq<char>),
    Progress(crate::face::Progress),
    Unavailable(Seq<char>),
    Match(Seq<char>),
}

impl View for EngineEvent {
    type V = Report;

    open spec fn view(&self) -> Report {
        match *self {
            EngineEvent::Ready => Report::Ready,
            EngineEvent::Hint(text) => Report::Hint(text@),
            EngineEvent::Progress(stage) => Report::Progress(stage),
            EngineEvent::Unavailable(text) => Report::Unavailable(text@),
            EngineEvent::Match(user) => Report::Match(user@),
        }
    }
}

/// A sink's answer to the engine after handling an event.
#[derive(Debug, Clone, Copy, PartialEq, Eq, Structural)]
pub enum Flow {
    /// Keep the engine running (verify again after a retarget on a match).
    Continue,
    /// Tear the engine down and return (unlock done, or the caller's channel
    /// closed).
    Stop,
}

/// Whether a verdict ends a verify session the way a cancelled one ends.
pub open spec fn ends_like_a_cancel(v: Verdict) -> bool {
    v is NoMatch || v is Error
}

/// Whether a terminal status is the echo of a verify session we cancelled
/// ourselves, and consume the debt if so.
///
/// fprintd completes a *running* verify that is stopped with a terminal
/// no-match or error. The engine counts the terminal statuses it is owed by
/// sessions it killed and absorbs exactly that many. A `Match` is never an
/// echo, so a finger that landed just before the stop still unlocks.
pub fn absorb_echo(owed: &mut u32, verdict: &Verify) -> (r: bool)
    ensures
        r == (*old(owed) > 0 && ends_like_a_cancel(verdict@)),
        *final(owed) == still_owed(*old(owed) as nat, seq![verdict@]),
        *final(owed) == if r {
            *old(owed) - 1
        } else {
            *old(owed) as int
        },
{
    proof {
        reveal_with_fuel(still_owed, 2);
        assert(seq![verdict@].drop_last() =~= Seq::empty());
    }
    let terminal = match verdict {
        Verify::NoMatch => true,
        Verify::Error => true,
        _ => false,
    };
    if *owed > 0 && terminal {
        *owed -= 1;
        true
    } else {
        false
    }
}

/// What is still owed after a run of verdicts.
pub open spec fn still_owed(owed: nat, verdicts: Seq<Verdict>) -> nat
    decreases verdicts.len(),
{
    if verdicts.len() == 0 {
        owed
    } else {
        let before = still_owed(owed, verdicts.drop_last());
        if before > 0 && ends_like_a_cancel(verdicts.last()) {
            (before - 1) as nat
        } else {
            before
        }
    }
}

/// Whether the `i`-th of a run of verdicts is absorbed.
pub open spec fn absorbs(owed: nat, verdicts: Seq<Verdict>, i: int) -> bool {
    still_owed(owed, verdicts.take(i)) > 0 && ends_like_a_cancel(verdicts[i])
}

/// How many of the verdicts end a session the way a cancelled one ends.
pub open spec fn cancel_ends(verdicts: Seq<Verdict>) -> nat
    decreases verdicts.len(),
{
    if verdicts.len() == 0 {
        0
    } else {
        cancel_ends(verdicts.drop_last()) + (if ends_like_a_cancel(verdicts.last()) {
            1nat
        } else {
            0nat
        })
    }
}

/// How many of a run of verdicts are absorbed.
pub open spec fn absorbed(owed: nat, verdicts: Seq<Verdict>) -> nat
    decreases verdicts.len(),
{
    if verdicts.len() == 0 {
        0
    } else {
        absorbed(owed, verdicts.drop_last()) + (if absorbs(owed, verdicts, verdicts.len() - 1) {
            1nat
        } else {
            0nat
        })
    }
}

/// Over a run of verdicts exactly as many are absorbed as are owed, or as end
/// like a cancelled session where those are fewer: the first of these, and
/// nothing else. A match, a disconnect and a hint never are.
pub proof fn law_as_many_echoes_are_absorbed_as_are_owed(owed: nat, verdicts: Seq<Verdict>)
    ensures
        absorbed(owed, verdicts) == if owed <= cancel_ends(verdicts) {
            owed
        } else {
            cancel_ends(verdicts)
        },
        still_owed(owed, verdicts) + absorbed(owed, verdicts) == owed,
        forall|i: int|
            0 <= i < verdicts.len() ==> (#[trigger] absorbs(owed, verdicts, i) <==> {
                &&& ends_like_a_cancel(verdicts[i])
                &&& cancel_ends(verdicts.take(i)) < owed
            }),
    decreases verdicts.len(),
{
    if verdicts.len() > 0 {
        let head = verdicts.drop_last();
        let n = head.len() as int;
        law_as_many_echoes_are_absorbed_as_are_owed(owed, head);
        assert(verdicts.take(n) =~= head);
        assert forall|i: int| 0 <= i < verdicts.len() implies (#[trigger] absorbs(
            owed,
            verdicts,
            i,
        ) <==> {
            &&& ends_like_a_cancel(verdicts[i])
            &&& cancel_ends(verdicts.take(i)) < owed
        }) by {
            if i < n {
                assert(head.take(i) =~= verdicts.take(i));
                assert(absorbs(owed, head, i) == absorbs(owed, verdicts, i));
            }
        }
    }
}

/// Whether a user has usable enrolled prints, distinguishing an authoritative
/// "none" from a transient read failure.
#[derive(Debug, Clone, Copy, PartialEq, Eq, Structural)]
pub enum Enrollment {
    Enrolled,
    Missing,
    /// The query itself failed (device busy, fprintd restarting): nothing is
    /// concluded, the claim loop retries.
    Unknown,
}

/// What fprintd's answer to ListEnrolledFingers says; no answer within
/// [`CALL_TIMEOUT`] is `None`.
pub open spec fn enrolled(reply: Option<Result<Vec<String>, BusError>>) -> Enrollment {
    match reply {
        Some(Ok(fingers)) => if fingers@.len() == 0 {
            Enrollment::Missing
        } else {
            Enrollment::Enrolled
        },
        Some(Err(e)) => if names_no_enrolled_prints(e.name) {
            Enrollment::Missing
        } else {
            Enrollment::Unknown
        },
        None => Enrollment::Unknown,
    }
}

/// Reads fprintd's answer to ListEnrolledFingers.
pub fn enrollment(reply: &Option<Result<Vec<String>, BusError>>) -> (r: Enrollment)
    ensures
        r == enrolled(*reply),
{
    match reply {
        Some(Ok(fingers)) => if fingers.len() == 0 {
            Enrollment::Missing
        } else {
            Enrollment::Enrolled
        },
        Some(Err(e)) => if is_no_enrolled_prints(e) {
            Enrollment::Missing
        } else {
            Enrollment::Unknown
        },
        None => Enrollment::Unknown,
    }
}

/// Does the calling user have enrolled fingerprints? `None` means fprintd
/// would not say.
pub fn self_enrolled(e: Enrollment) -> (r: Option<bool>)
    ensures
        r == match e {
            Enrollment::Enrolled => Some(true),
            Enrollment::Missing => Some(false),
            Enrollment::Unknown => None,
        },
{
    match e {
        Enrollment::Enrolled => Some(true),
        Enrollment::Missing => Some(false),
        Enrollment::Unknown => None,
    }
}

/// The message for a user without prints: the agent names the target user;
/// the lock (own user, empty string) just states the fact.
pub open spec fn unenrolled(user: Seq<char>) -> Seq<char> {
    if user.len() == 0 {
        "no enrolled fingerprints"@
    } else {
        user + ": no enrolled fingerprints"@
    }
}

/// The message for a user without prints.
pub fn unenrolled_msg(user: &str) -> (r: String)
    ensures
        r@ == unenrolled(user@),
{
    if user.is_empty() {
        "no enrolled fingerprints".to_owned()
    } else {
        concat2(user, ": no enrolled fingerprints")
    }
}

/// What fprintd says of a verify, and what a user is told of it. The statuses
/// that ask for another touch say how; one that is not known is an error where
/// it ends the verify and nothing otherwise.
pub proof fn law_what_each_status_means(done: bool, other: Seq<char>)
    ensures
        verdict("verify-match"@, done) == Verdict::Match,
        verdict("verify-no-match"@, done) == Verdict::NoMatch,
        verdict("verify-disconnected"@, done) == Verdict::Disconnected,
        verdict("verify-retry-scan"@, done) == Verdict::Hint(Some("Try again"@)),
        verdict("verify-swipe-too-short"@, done) == Verdict::Hint(Some("Swipe longer"@)),
        verdict("verify-finger-not-centered"@, done) == Verdict::Hint(
            Some("Center your finger"@),
        ),
        verdict("verify-remove-and-retry"@, done) == Verdict::Hint(
            Some("Remove and try again"@),
        ),
        other != "verify-match"@ && other != "verify-no-match"@ && other
            != "verify-disconnected"@ && other != "verify-retry-scan"@ && other
            != "verify-swipe-too-short"@ && other != "verify-finger-not-centered"@ && other
            != "verify-remove-and-retry"@ ==> verdict(other, done) == if done {
            Verdict::Error
        } else {
            Verdict::Hint(None)
        },
{
    reveal_strlit("verify-match");
    reveal_strlit("verify-no-match");
    reveal_strlit("verify-disconnected");
    reveal_strlit("verify-retry-scan");
    reveal_strlit("verify-swipe-too-short");
    reveal_strlit("verify-finger-not-centered");
    reveal_strlit("verify-remove-and-retry");
    assert("verify-retry-scan"@[7] != "verify-no-match"@[7]);
    assert("verify-match"@.len() == 12);
    assert("verify-no-match"@.len() == 15);
    assert("verify-disconnected"@.len() == 19);
    assert("verify-retry-scan"@.len() == 17);
    assert("verify-swipe-too-short"@.len() == 22);
    assert("verify-finger-not-centered"@.len() == 26);
    assert("verify-remove-and-retry"@.len() == 23);
}

/// A user has no prints where fprintd lists none or says so; has some where it
/// lists any; and nothing is concluded from a call that failed in another way or
/// was not answered.
pub proof fn law_when_prints_are_missing(reply: Option<Result<Vec<String>, BusError>>)
    ensures
        enrolled(reply) == Enrollment::Enrolled <==> (reply matches Some(Ok(fingers))
            && fingers@.len() > 0),
        enrolled(reply) == Enrollment::Missing <==> (reply matches Some(Ok(fingers))
            && fingers@.len() == 0) || (reply matches Some(Err(e)) && e.name is Some
            && e.name->0@ == "net.reactivated.Fprint.Error.NoEnrolledPrints"@),
        reply is None ==> enrolled(reply) == Enrollment::Unknown,
        RESOLVE_ATTEMPTS == 5,
        RESOLVE_BACKOFF == 500,
        CALL_TIMEOUT == 3000,
{
}

/// Only a verify that ended without a match or with an error ends like one that
/// was cancelled; a user without prints is named, but for the own one.
pub proof fn law_what_ends_like_a_cancel(v: Verdict, user: Seq<char>)
    ensures
        ends_like_a_cancel(v) <==> v == Verdict::NoMatch || v == Verdict::Error,
        user.len() > 0 ==> unenrolled(user) == user + ": no enrolled fingerprints"@,
        user.len() == 0 ==> unenrolled(user) == "no enrolled fingerprints"@,
{
}

} // verus!
