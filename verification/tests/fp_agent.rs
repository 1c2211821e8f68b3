use swaypplet::fp::{Enrollment, Lookup, Resolution};
use swaypplet::fp_agent::{
    after_failed_auto, ct_eq, validate, Chore, Ev, Gates, Loop, Signal, StoredToken, Turn, Wait,
};

fn stored() -> StoredToken {
    StoredToken {
        user: "meros".into(),
        token: "aa".repeat(32),
        expires: 1_000,
    }
}

#[test]
fn fp_agent_valid_token_passes() {
    assert!(validate(&stored(), "meros", "aa".repeat(32).as_bytes(), 999));
    assert!(validate(&stored(), "meros", "aa".repeat(32).as_bytes(), 1_000));
}

#[test]
fn fp_agent_expired_token_fails() {
    assert!(!validate(&stored(), "meros", "aa".repeat(32).as_bytes(), 1_001));
}

#[test]
fn fp_agent_wrong_user_fails() {
    assert!(!validate(&stored(), "melvin", "aa".repeat(32).as_bytes(), 999));
}

#[test]
fn fp_agent_wrong_or_truncated_token_fails() {
    assert!(!validate(&stored(), "meros", "ab".repeat(32).as_bytes(), 999));
    assert!(!validate(&stored(), "meros", b"aa", 999));
    assert!(!validate(&stored(), "meros", b"", 999));
}

#[test]
fn fp_agent_ct_eq_basics() {
    assert!(ct_eq(b"abc", b"abc"));
    assert!(!ct_eq(b"abc", b"abd"));
    assert!(!ct_eq(b"abc", b"ab"));
    assert!(ct_eq(b"", b""));
}

fn gates(user: Option<&str>, active: bool) -> Gates {
    Gates {
        target: user.map(Into::into),
        active,
        closed: false,
    }
}

fn status(result: &str) -> Signal {
    Signal::Status {
        result: result.into(),
        done: true,
    }
}

/// A loop that listens to a verify of `meros`.
fn listening() -> Loop {
    let (mut l, turn) = Loop::start();
    assert!(matches!(turn.wait, Wait::ReadTarget));
    let turn = l.step(Signal::Gates(gates(Some("meros"), true)));
    assert!(matches!(turn.wait, Wait::Resolve));
    let turn = l.step(Signal::Resolved);
    assert!(matches!(turn.wait, Wait::Subscribe));
    let turn = l.step(Signal::Subscribed);
    assert!(matches!(turn.wait, Wait::ReadGates));
    let turn = l.step(Signal::Gates(gates(Some("meros"), true)));
    assert!(matches!(turn.wait, Wait::ListEnrolled(user) if user == "meros"));
    let turn = l.step(Signal::Fingers(Enrollment::Enrolled));
    assert!(matches!(turn.wait, Wait::Peek));
    let turn = l.step(Signal::Gates(gates(Some("meros"), true)));
    assert!(matches!(turn.wait, Wait::Claim(user) if user == "meros"));
    let turn = l.step(Signal::Claimed);
    assert!(matches!(turn.say, Some(Ev::Ready)));
    let turn = l.step(Signal::Gates(gates(Some("meros"), true)));
    assert!(matches!(turn.wait, Wait::VerifyStart));
    let turn = l.step(Signal::Started);
    assert!(matches!(turn.wait, Wait::Listen));
    l
}

fn chores(turn: &Turn) -> &[Chore] {
    &turn.todo
}

#[test]
fn a_match_lets_go_of_the_reader_and_sends_the_token() {
    let mut l = listening();
    let turn = l.step(status("verify-match"));
    assert_eq!(chores(&turn), [Chore::VerifyStop, Chore::Release]);
    assert!(matches!(turn.wait, Wait::Mint(user) if user == "meros"));
    let turn = l.step(Signal::Minted(Some("t".into())));
    assert!(matches!(turn.say, Some(Ev::Match { user, token }) if user == "meros" && token == "t"));
    // The same target is not verified again until another command comes.
    let turn = l.step(Signal::Gates(gates(Some("meros"), true)));
    assert!(matches!(turn.wait, Wait::AwaitTarget));
}

#[test]
fn a_no_match_starts_the_next_verify_on_the_same_claim() {
    let mut l = listening();
    let turn = l.step(status("verify-no-match"));
    assert_eq!(chores(&turn), [Chore::VerifyStop]);
    assert!(matches!(turn.say, Some(Ev::Hint { msg }) if msg == "Not recognized — try again"));
    let turn = l.step(Signal::Gates(gates(Some("meros"), true)));
    assert!(matches!(turn.wait, Wait::VerifyStart));
}

#[test]
fn an_inactive_session_gives_the_reader_back() {
    let mut l = listening();
    let turn = l.step(Signal::ActiveChanged(gates(Some("meros"), false)));
    assert_eq!(chores(&turn), [Chore::VerifyStop, Chore::Release]);
    assert!(matches!(turn.say, Some(Ev::Unavailable { msg }) if msg == "session inactive"));
    let turn = l.step(Signal::Gates(gates(Some("meros"), false)));
    assert!(matches!(turn.wait, Wait::AwaitGates));
}

#[test]
fn a_client_that_goes_takes_its_claim_along() {
    let mut l = listening();
    let turn = l.step(Signal::TargetClosed);
    assert_eq!(chores(&turn), [Chore::VerifyStop, Chore::Release]);
    assert!(matches!(turn.wait, Wait::Finish));
    assert!(!l.accepts(&Signal::Started));
}

#[test]
fn a_user_without_prints_is_named() {
    let (mut l, _) = Loop::start();
    l.step(Signal::Gates(gates(Some("melvin"), true)));
    l.step(Signal::Resolved);
    l.step(Signal::Subscribed);
    l.step(Signal::Gates(gates(Some("melvin"), true)));
    let turn = l.step(Signal::Fingers(Enrollment::Missing));
    assert!(
        matches!(turn.say, Some(Ev::Unavailable { msg }) if msg == "melvin: no enrolled fingerprints")
    );
}

#[test]
fn a_session_without_a_pid_is_given_up() {
    assert!(matches!(
        after_failed_auto(Some(3), "e"),
        Resolution::Ask(Lookup::ByPid(3))
    ));
    assert!(matches!(
        after_failed_auto(None, "e"),
        Resolution::Failed(t) if t == "GetSession(auto): e; no pid fallback"
    ));
}

#[test]
fn a_client_that_is_gone_ends_the_loop_while_the_reader_fails() {
    let gone = || Gates {
        closed: true,
        ..gates(Some("meros"), true)
    };
    let mut l = listening();
    let turn = l.step(status("verify-no-match"));
    assert!(matches!(turn.wait, Wait::Peek));
    let turn = l.step(Signal::Gates(gates(Some("meros"), true)));
    assert!(matches!(turn.wait, Wait::VerifyStart));
    let turn = l.step(Signal::StartFailed);
    assert_eq!(chores(&turn), [Chore::Release]);
    let turn = l.step(Signal::Paused);
    assert!(matches!(turn.wait, Wait::ReadGates));
    let turn = l.step(Signal::Gates(gone()));
    assert!(turn.todo.is_empty());
    assert!(matches!(turn.wait, Wait::Finish));

    let mut l = listening();
    l.step(status("verify-no-match"));
    let turn = l.step(Signal::Gates(gone()));
    assert_eq!(chores(&turn), [Chore::Release]);
    assert!(matches!(turn.wait, Wait::Finish));
}
