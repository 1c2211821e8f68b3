use swaypplet::fp::engine::{
    Chore, Engine, Gates, Signal, Stage, Turn, Wait, CLAIM_QUIET_ATTEMPTS, CLAIM_RETRY,
    CLAIM_RETRY_SLOW, FAULT_PAUSE, RESOLVE_PAUSE, UNWEDGE_COOLDOWN, VERIFY_RESTART_FLOOR,
};
use swaypplet::fp::{EngineEvent, Enrollment, Flow};

fn gates(user: Option<&str>, active: bool, sleeping: bool) -> Gates {
    Gates {
        target: user.map(Into::into),
        active,
        sleeping,
        closed: false,
    }
}

fn open() -> Gates {
    gates(Some("meros"), true, false)
}

fn status(result: &str) -> Signal {
    Signal::Status {
        result: result.into(),
        done: true,
    }
}

/// The engine on its way to a claim, at the time `now`.
fn claiming(now: u64) -> Engine {
    let (mut e, turn) = Engine::start();
    assert!(matches!(turn.wait, Wait::ReadTarget));
    let turn = e.step(&Signal::Gates(open()), now);
    assert!(matches!(turn.wait, Wait::Resolve));
    let turn = e.step(&Signal::Resolved, now);
    assert!(matches!(turn.wait, Wait::ReadGates));
    let turn = e.step(&Signal::Gates(open()), now);
    assert!(matches!(turn.wait, Wait::ListEnrolled(user) if user == "meros"));
    let turn = e.step(&Signal::Fingers(Enrollment::Enrolled), now);
    assert!(matches!(turn.wait, Wait::Peek));
    let turn = e.step(&Signal::Gates(open()), now);
    assert!(matches!(turn.wait, Wait::TakeInhibitor));
    let turn = e.step(&Signal::Inhibitor(true), now);
    assert!(matches!(turn.wait, Wait::Claim(user) if user == "meros"));
    e
}

/// The engine with a verify running since `now`.
fn listening(now: u64) -> Engine {
    let mut e = claiming(now);
    let turn = e.step(&Signal::Claimed, now);
    assert!(matches!(turn.wait, Wait::NextBuffered));
    let turn = e.step(&Signal::Drained, now);
    assert!(matches!(turn.wait, Wait::Peek));
    let turn = e.step(&Signal::Gates(open()), now);
    assert!(matches!(turn.wait, Wait::VerifyStart));
    assert!(turn.todo.is_empty());
    let turn = e.step(&Signal::Started, now);
    assert!(matches!(turn.wait, Wait::Tell(EngineEvent::Ready)));
    let turn = e.step(&Signal::Sink(Flow::Continue), now);
    assert!(matches!(turn.wait, Wait::Listen { reset: true }));
    e
}

fn unavailable(turn: &Turn, why: &str) -> bool {
    matches!(&turn.wait, Wait::Tell(EngineEvent::Unavailable(t)) if t == why)
}

#[test]
fn a_match_gives_everything_back_before_it_is_told() {
    let mut e = listening(0);
    let turn = e.step(&status("verify-match"), 10);
    assert_eq!(
        turn.todo,
        [Chore::VerifyStop, Chore::Release, Chore::DropInhibitor]
    );
    assert!(matches!(turn.wait, Wait::Tell(EngineEvent::Match(user)) if user == "meros"));
    let turn = e.step(&Signal::Sink(Flow::Stop), 10);
    assert!(matches!(turn.wait, Wait::Finish));
    assert_eq!(e.stage(), Stage::Finished);
}

#[test]
fn a_no_match_never_ends_the_verify() {
    let mut e = listening(0);
    let turn = e.step(&status("verify-no-match"), 100);
    assert_eq!(turn.todo, [Chore::VerifyStop]);
    assert!(matches!(turn.wait, Wait::Tell(EngineEvent::Hint(t)) if t == "Not recognized — try again"));
    let turn = e.step(&Signal::Sink(Flow::Continue), 100);
    assert!(matches!(turn.wait, Wait::Peek));
    // The next verify waits for the floor since the last one was started.
    let turn = e.step(&Signal::Gates(open()), 150);
    assert_eq!(turn.todo, [Chore::Sleep(VERIFY_RESTART_FLOOR - 150)]);
    assert!(matches!(turn.wait, Wait::VerifyStart));
    // The sink has heard of this claim already.
    let turn = e.step(&Signal::Started, 400);
    assert!(matches!(turn.wait, Wait::Listen { reset: true }));
}

#[test]
fn the_reader_is_given_back_before_sleep() {
    let mut e = listening(0);
    let turn = e.step(&Signal::SleepingChanged(gates(Some("meros"), true, true)), 5);
    assert_eq!(turn.todo, [Chore::VerifyStop, Chore::Release]);
    assert!(unavailable(&turn, "suspending"));
    // The inhibitor goes once the claim is back.
    let turn = e.step(&Signal::Sink(Flow::Continue), 5);
    assert_eq!(turn.todo, [Chore::DropInhibitor]);
    let turn = e.step(&Signal::Gates(gates(Some("meros"), true, true)), 5);
    assert!(matches!(turn.wait, Wait::AwaitGates));
}

#[test]
fn the_echo_of_a_cancelled_verify_is_not_a_finger() {
    let mut e = listening(0);
    e.step(&Signal::ActiveChanged(gates(Some("meros"), false, false)), 5);
    e.step(&Signal::Sink(Flow::Continue), 5);
    e.step(&Signal::Gates(open()), 6);
    e.step(&Signal::Fingers(Enrollment::Enrolled), 6);
    e.step(&Signal::Gates(open()), 6);
    e.step(&Signal::Inhibitor(true), 6);
    e.step(&Signal::Claimed, 6);
    e.step(&Signal::Drained, 6);
    e.step(&Signal::Gates(open()), 6);
    e.step(&Signal::Started, 6);
    e.step(&Signal::Sink(Flow::Continue), 6);
    // The first no-match settles what the stop is owed; the second is real.
    let turn = e.step(&status("verify-no-match"), 7);
    assert!(turn.todo.is_empty());
    assert!(matches!(turn.wait, Wait::Listen { reset: true }));
    let turn = e.step(&status("verify-no-match"), 8);
    assert!(matches!(turn.wait, Wait::Tell(EngineEvent::Hint(_))));
}

#[test]
fn silence_alone_never_restarts_the_verify() {
    let mut e = listening(0);
    let turn = e.step(&Signal::Quiet, 40_000);
    assert!(matches!(turn.wait, Wait::Ping));
    let turn = e.step(&Signal::Pong(true), 40_001);
    assert!(turn.todo.is_empty());
    assert!(matches!(turn.wait, Wait::Listen { reset: true }));
    e.step(&Signal::Quiet, 80_000);
    let turn = e.step(&Signal::Pong(false), 80_001);
    assert_eq!(turn.todo, [Chore::VerifyStop]);
    assert!(matches!(turn.wait, Wait::Peek));
}

#[test]
fn a_busy_reader_is_retried_and_reported_once() {
    let mut e = claiming(0);
    for attempt in 1..=8 {
        let mut turn = e.step(&Signal::ClaimFailed("already claimed".into()), 0);
        if attempt == CLAIM_QUIET_ATTEMPTS {
            assert!(unavailable(&turn, "reader busy"));
            turn = e.step(&Signal::Sink(Flow::Continue), 0);
        }
        let want = if attempt < CLAIM_QUIET_ATTEMPTS {
            CLAIM_RETRY
        } else {
            CLAIM_RETRY_SLOW
        };
        assert!(matches!(turn.wait, Wait::BackOff(ms) if ms == want));
        e.step(&Signal::BackedOff, 0);
        // The inhibitor is still held, so the claim comes at once.
        let turn = e.step(&Signal::Gates(open()), 0);
        assert!(matches!(turn.wait, Wait::Claim(_)));
    }
}

#[test]
fn a_wedged_reader_gets_fprintd_restarted_but_not_time_and_again() {
    let wedged = || Signal::ClaimFailed("Device 06cb:019d is already open".into());
    let mut e = claiming(0);
    let turn = e.step(&wedged(), 0);
    assert!(matches!(turn.wait, Wait::BackOff(CLAIM_RETRY)));
    e.step(&Signal::BackedOff, 0);
    e.step(&Signal::Gates(open()), 0);
    let turn = e.step(&wedged(), 1);
    assert_eq!(
        turn.todo,
        [
            Chore::RestartFprintd,
            Chore::Sleep(FAULT_PAUSE),
            Chore::DropInhibitor
        ]
    );
    assert!(matches!(turn.wait, Wait::ReadTarget));
    // Within the cooldown the same failure only waits.
    for (now, restarts) in [(2, false), (1 + UNWEDGE_COOLDOWN, true)] {
        e.step(&Signal::Gates(open()), now);
        e.step(&Signal::Resolved, now);
        e.step(&Signal::Gates(open()), now);
        e.step(&Signal::Fingers(Enrollment::Unknown), now);
        e.step(&Signal::Gates(open()), now);
        e.step(&Signal::Inhibitor(false), now);
        e.step(&wedged(), now);
        e.step(&Signal::BackedOff, now);
        e.step(&Signal::Gates(open()), now);
        e.step(&Signal::Inhibitor(false), now);
        let turn = e.step(&wedged(), now);
        assert_eq!(turn.todo.contains(&Chore::RestartFprintd), restarts);
        if !restarts {
            // The target goes away, and the engine starts over.
            e.step(&Signal::TargetChanged(gates(None, true, false)), now);
            e.step(&Signal::Gates(gates(None, true, false)), now);
            e.step(&Signal::Gates(gates(None, true, false)), now);
            e.step(&Signal::TargetChanged(open()), now);
            // Back to the device: a stream that ended resolves it anew.
            e.step(&Signal::Gates(open()), now);
            e.step(&Signal::Fingers(Enrollment::Unknown), now);
            e.step(&Signal::Gates(open()), now);
            e.step(&Signal::Inhibitor(false), now);
            e.step(&Signal::Claimed, now);
            e.step(&Signal::Drained, now);
            e.step(&Signal::Gates(open()), now);
            e.step(&Signal::Started, now);
            e.step(&Signal::Sink(Flow::Continue), now);
            e.step(&Signal::StreamEnded, now);
            e.step(&Signal::Sink(Flow::Continue), now);
        }
    }
}

#[test]
fn a_missing_device_is_reported_once() {
    let (mut e, _) = Engine::start();
    e.step(&Signal::Gates(open()), 0);
    let turn = e.step(&Signal::ResolveFailed("none".into()), 0);
    assert!(unavailable(&turn, "no fingerprint device: none"));
    let turn = e.step(&Signal::Sink(Flow::Continue), 0);
    assert_eq!(turn.todo, [Chore::Sleep(RESOLVE_PAUSE)]);
    e.step(&Signal::Gates(open()), 0);
    let turn = e.step(&Signal::ResolveFailed("none".into()), 0);
    assert_eq!(turn.todo, [Chore::Sleep(RESOLVE_PAUSE)]);
    assert!(matches!(turn.wait, Wait::ReadTarget));
}

#[test]
fn only_what_is_waited_for_is_accepted() {
    let (e, _) = Engine::start();
    assert!(e.accepts(&Signal::Gates(open())));
    assert!(!e.accepts(&Signal::Claimed));
    assert!(!e.accepts(&status("verify-match")));
}

#[test]
fn a_dropped_sender_ends_the_engine_while_fprintd_is_away() {
    let (mut e, _) = Engine::start();
    let mut fails = 0;
    loop {
        let turn = e.step(&Signal::Gates(open()), fails);
        assert!(matches!(turn.wait, Wait::Resolve));
        let turn = e.step(&Signal::ResolveFailed("gone".into()), fails);
        if matches!(turn.wait, Wait::Tell(_)) {
            e.step(&Signal::Sink(Flow::Continue), fails);
        }
        fails += 1;
        if fails == 3 {
            break;
        }
    }
    let turn = e.step(&Signal::Gates(Gates { closed: true, ..open() }), 9);
    assert!(turn.todo.is_empty());
    assert!(matches!(turn.wait, Wait::Finish));
    assert_eq!(e.stage(), Stage::Finished);
}

#[test]
fn a_dropped_sender_gives_the_claim_back() {
    let mut e = listening(0);
    e.step(&status("verify-no-match"), 100);
    e.step(&Signal::Sink(Flow::Continue), 100);
    let turn = e.step(&Signal::Gates(Gates { closed: true, ..open() }), 150);
    assert_eq!(turn.todo, [Chore::Release, Chore::DropInhibitor]);
    assert!(matches!(turn.wait, Wait::Finish));
    let mut e = listening(0);
    let turn = e.step(&Signal::TargetClosed, 5);
    assert_eq!(
        turn.todo,
        [Chore::VerifyStop, Chore::Release, Chore::DropInhibitor]
    );
    assert_eq!(e.stage(), Stage::Finished);
}
