use swaypplet::fp::agent::{Cmd, Ev as FpEv};
use swaypplet::greet::agent::{Client, Signal, Wait, LOST_PAUSE, RETRY_PAUSE};
use swaypplet::greet::fpblock::{Handle, Step, ATTEMPTS, RETRY_PAUSE as CLAIM_PAUSE};
use swaypplet::greet::ipc::{event, is_last, wire, Asked, AuthKind, Ev, Reply, Req, Wire};
use swaypplet::greet::{
    default_user, parse_env, parse_users, session_command, Effect, Greeter, Known, StatusKind,
    UserInfo,
    EXIT_ERROR, EXIT_STARTED,
};

fn greeter() -> Greeter {
    Greeter::new(
        "meros".into(),
        "niri".into(),
        vec!["LANG=C".into()],
        true,
    )
}

fn secret() -> Ev {
    Ev::AuthMessage {
        kind: AuthKind::Secret,
        text: "Password:".into(),
    }
}

fn user(name: &str, fingerprint: Option<bool>, logged_in: bool) -> UserInfo {
    UserInfo {
        user: name.into(),
        fingerprint,
        logged_in,
    }
}

/// What the effects ask of greetd.
fn sent(effects: &[Effect]) -> Vec<&Req> {
    effects
        .iter()
        .filter_map(|e| match e {
            Effect::Send(req) => Some(req),
            _ => None,
        })
        .collect()
}

#[test]
fn the_card_begins_with_the_prefilled_user() {
    let mut g = greeter();
    let out = g.start(&None);
    assert!(matches!(sent(&out)[..], [Req::Create { username }] if username == "meros"));
    assert!(matches!(&out[1], Effect::FpArmed(false)));
    assert!(matches!(&out[2], Effect::Fp(Cmd::Verify { user }) if user == "meros"));
}

#[test]
fn a_password_answers_the_open_prompt() {
    let mut g = greeter();
    g.start(&None);
    let out = g.handle_event(&None, secret());
    assert!(matches!(out[..], [Effect::Verifying(false)]));
    let out = g.submit(&None, "hunter2".into());
    assert!(matches!(sent(&out)[..], [Req::Respond(Some(p))] if p == "hunter2"));
    let out = g.handle_event(&None, Ev::SessionReady);
    assert!(matches!(&out[0], Effect::Fp(Cmd::Stop)));
    assert!(
        matches!(sent(&out)[..], [Req::Start { cmd, env }] if cmd == "niri" && env == &["LANG=C"])
    );
    let out = g.handle_event(&None, Ev::SessionStarted);
    assert!(matches!(out[..], [Effect::Quit(EXIT_STARTED)]));
}

#[test]
fn a_password_before_the_prompt_waits_for_it() {
    let mut g = greeter();
    g.start(&None);
    // greetd has not replied yet: nothing more goes out.
    let out = g.submit(&None, "hunter2".into());
    assert!(sent(&out).is_empty());
    let out = g.handle_event(&None, secret());
    assert!(matches!(sent(&out)[..], [Req::Respond(Some(p))] if p == "hunter2"));
}

#[test]
fn a_wrong_password_shakes_and_starts_over() {
    let mut g = greeter();
    g.start(&None);
    g.handle_event(&None, secret());
    g.submit(&None, "wrong".into());
    let out = g.handle_event(
        &None,
        Ev::Error {
            auth: true,
            text: "denied".into(),
        },
    );
    assert!(
        matches!(&out[1], Effect::Status(t, StatusKind::Error) if t == "Wrong password")
    );
    assert!(matches!(&out[2], Effect::Shake));
    assert!(matches!(sent(&out)[..], [Req::Create { username }] if username == "meros"));
}

#[test]
fn another_error_is_told_in_its_own_words() {
    let mut g = greeter();
    g.start(&None);
    let out = g.handle_event(
        &None,
        Ev::Error {
            auth: false,
            text: "no such service".into(),
        },
    );
    assert!(
        matches!(&out[1], Effect::Status(t, StatusKind::Error) if t == "no such service")
    );
}

#[test]
fn a_chip_click_during_a_request_waits_for_the_reply() {
    let mut g = greeter();
    g.start(&None);
    let out = g.switch_user(&None, "melvin".into());
    assert!(sent(&out).is_empty());
    assert!(matches!(&out[0], Effect::SetUsername(u) if u == "melvin"));
    let typed = Some("melvin".to_string());
    let out = g.handle_event(&typed, secret());
    assert!(matches!(sent(&out)[..], [Req::Cancel]));
    let out = g.handle_event(&typed, Ev::Canceled);
    assert!(matches!(sent(&out)[..], [Req::Create { username }] if username == "melvin"));
}

#[test]
fn a_conversation_that_is_being_canceled_says_nothing() {
    let mut g = greeter();
    g.start(&None);
    g.handle_event(&None, secret());
    g.switch_user(&None, "melvin".into());
    let typed = Some("melvin".to_string());
    assert!(g.handle_event(&typed, secret()).is_empty());
    let out = g.handle_event(
        &typed,
        Ev::Error {
            auth: true,
            text: "late".into(),
        },
    );
    assert!(out.is_empty());
}

#[test]
fn a_user_with_a_session_is_handed_over_to_it() {
    let mut g = greeter();
    g.set_list(&None, &vec![user("meros", Some(true), false), user("melvin", None, true)]);
    assert!(g.has_session("melvin"));
    assert!(!g.has_session("meros"));
    let out = g.switch_user(&None, "melvin".into());
    assert!(matches!(&out[..], [Effect::Status(t, StatusKind::Info), Effect::Handoff(u)]
        if t == "Switching…" && u == "melvin"));
}

#[test]
fn the_reader_is_armed_only_for_those_it_could_log_in() {
    let mut g = greeter();
    assert!(g.fp_enrolled("anyone"));
    let out = g.set_list(&None, &vec![user("meros", Some(false), false)]);
    assert!(!g.fp_enrolled("meros"));
    assert!(matches!(out[..], [Effect::Fp(Cmd::Stop), Effect::FpArmed(false)]));
    // An empty list says nothing.
    assert!(g.set_list(&None, &vec![]).is_empty());
}

#[test]
fn a_match_for_another_user_is_ignored() {
    let mut g = greeter();
    g.start(&None);
    g.handle_event(&None, secret());
    let matched = |user: &str| FpEv::Match {
        user: user.into(),
        token: "t0ken".into(),
    };
    assert!(g.handle_fp_event(&None, matched("melvin")).is_empty());
    let out = g.handle_fp_event(&None, matched("meros"));
    assert!(matches!(&out[0], Effect::FpHint(t) if t == "Fingerprint OK"));
    assert!(matches!(sent(&out)[..], [Req::Respond(Some(p))] if p == "t0ken"));
}

#[test]
fn without_a_user_nothing_is_asked() {
    let mut g = Greeter::new(String::new(), "sh".into(), vec![], false);
    assert!(sent(&g.start(&None)).is_empty());
    let out = g.submit(&None, "pw".into());
    assert!(
        matches!(&out[..], [Effect::Status(t, StatusKind::Error)] if t == "Enter a username")
    );
    assert!(g.submit(&None, String::new()).is_empty());
}

#[test]
fn messages_of_pam_are_shown_and_acknowledged() {
    let mut g = greeter();
    g.start(&None);
    let out = g.handle_event(
        &None,
        Ev::AuthMessage {
            kind: AuthKind::Info,
            text: "Touch the key".into(),
        },
    );
    assert!(matches!(&out[0], Effect::Status(t, StatusKind::Info) if t == "Touch the key"));
    assert!(matches!(sent(&out)[..], [Req::Respond(None)]));
    let out = g.handle_event(&None, Ev::Fatal("gone".into()));
    assert!(matches!(out[..], [Effect::Quit(EXIT_ERROR)]));
}

#[test]
fn settings_are_read_leniently() {
    assert_eq!(parse_users(" meros , ,melvin"), ["meros", "melvin"]);
    assert_eq!(default_user(None, &vec!["a".into()]), "a");
    assert_eq!(default_user(Some("b".into()), &vec!["a".into()]), "b");
    assert_eq!(parse_env("A=1  B=2 nonsense"), ["A=1", "B=2"]);
    assert_eq!(session_command(Some("niri".into())), "niri");
    assert_eq!(session_command(None), "sway");
}

#[test]
fn requests_take_greetd_s_form() {
    assert!(matches!(
        wire(Req::Create { username: "m".into() }),
        (Wire::CreateSession { username }, Asked::Talk) if username == "m"
    ));
    assert!(matches!(
        wire(Req::Start { cmd: "niri".into(), env: vec![] }),
        (Wire::StartSession { cmd, .. }, Asked::Start) if cmd == ["niri"]
    ));
    assert!(matches!(
        wire(Req::Cancel),
        (Wire::CancelSession, Asked::Cancel)
    ));
    assert!(matches!(
        wire(Req::Respond(None)),
        (Wire::PostAuthMessageResponse { response: None }, Asked::Talk)
    ));
}

#[test]
fn a_reply_is_read_against_what_was_asked() {
    assert!(matches!(event(Asked::Talk, Reply::Success), Ev::SessionReady));
    assert!(matches!(event(Asked::Start, Reply::Success), Ev::SessionStarted));
    assert!(matches!(event(Asked::Cancel, Reply::Success), Ev::Canceled));
    let refused = || Reply::Refused {
        auth: true,
        text: "no".into(),
    };
    // A cancel that races a dead session ends where it should.
    assert!(matches!(event(Asked::Cancel, refused()), Ev::Canceled));
    assert!(matches!(event(Asked::Talk, refused()), Ev::Error { auth: true, .. }));
    assert!(is_last(&event(Asked::Talk, Reply::Broken("eof".into()))));
    assert!(is_last(&Ev::SessionStarted));
    assert!(!is_last(&Ev::Canceled));
}

#[test]
fn the_reader_s_client_heals_itself() {
    let (mut c, wait) = Client::start();
    assert!(matches!(wait, Wait::AwaitCmd));
    let verify = || Cmd::Verify { user: "meros".into() };
    assert!(matches!(c.step(Signal::Command(verify())), Wait::Connect));
    let wait = c.step(Signal::ConnectFailed("refused".into()));
    assert!(matches!(wait, Wait::Tell(FpEv::Unavailable { msg }) if msg == "fp-agent: refused"));
    assert!(matches!(c.step(Signal::Told(true)), Wait::PauseOrCmd(RETRY_PAUSE)));
    assert!(matches!(c.step(Signal::Paused), Wait::Connect));
    // Told once, it is not told again.
    assert!(matches!(
        c.step(Signal::ConnectFailed("refused".into())),
        Wait::PauseOrCmd(RETRY_PAUSE)
    ));
    assert!(matches!(c.step(Signal::Paused), Wait::Connect));
    // The target is announced anew.
    assert!(matches!(
        c.step(Signal::Connected),
        Wait::Send(Cmd::Verify { user }) if user == "meros"
    ));
    assert!(matches!(c.step(Signal::Sent(true)), Wait::Listen));
    assert!(matches!(c.step(Signal::Noise), Wait::Listen));
    assert!(matches!(c.step(Signal::Event(FpEv::Ready)), Wait::Tell(FpEv::Ready)));
    assert!(matches!(c.step(Signal::Told(true)), Wait::Listen));
    let wait = c.step(Signal::Lost);
    assert!(
        matches!(wait, Wait::Tell(FpEv::Unavailable { msg }) if msg == "fp-agent connection lost")
    );
    assert!(matches!(c.step(Signal::Told(true)), Wait::Pause(LOST_PAUSE)));
    assert!(matches!(c.step(Signal::Paused), Wait::Connect));
    assert!(!c.accepts(&Signal::Noise));
}

#[test]
fn a_reader_that_is_not_released_is_left_alone() {
    let (mut h, step) = Handle::claim();
    assert_eq!(step, Step::Claim);
    for _ in 1..ATTEMPTS {
        assert_eq!(h.attempted(false, true), Step::Retry(CLAIM_PAUSE));
    }
    assert_eq!(h.attempted(false, true), Step::GiveUp);
    let (mut h, _) = Handle::claim();
    assert_eq!(h.attempted(false, false), Step::GiveUp);
    let (mut h, _) = Handle::claim();
    assert_eq!(h.attempted(true, true), Step::Hold);
}

#[test]
fn a_later_answer_replaces_an_earlier_one() {
    let mut k = Known::nothing();
    assert!(k.ask("meros", true));
    assert!(!k.ask("meros", false));
    k.learn("meros".into(), true);
    k.learn("melvin".into(), true);
    k.learn("meros".into(), false);
    assert!(!k.ask("meros", true));
    assert!(k.ask("melvin", false));
    assert!(k.ask("nobody", true));
}
