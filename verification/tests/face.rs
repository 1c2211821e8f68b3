use swaypplet::face::{
    field, framed, next_backoff, number, read_request, register_message, reply, Agent, Frame,
    Progress, Request, Stage,
};
use swaypplet::face_ring::{apply, pill_class, ring_class, state_of, states};
use swaypplet::face_ui::{key_answer, summarise, Confirm, Key, Show, Window};

const SAMPLE: &str = r#"{"parameters":{"id":"q7","stage":"confirm","purpose":"elevate","target_user":"meros","peer":{"uid":0,"pid":31844,"exe":"/run/wrappers/bin/sudo","cmdline":"sudo systemctl restart foo"},"expires_ms":6000},"continues":true}"#;

#[test]
fn a_confirm_request_is_read_off_the_stream() {
    assert_eq!(field(SAMPLE, "id"), Some("q7"));
    assert_eq!(field(SAMPLE, "stage"), Some("confirm"));
    assert_eq!(field(SAMPLE, "target_user"), Some("meros"));
    assert_eq!(field(SAMPLE, "exe"), Some("/run/wrappers/bin/sudo"));
    assert_eq!(number(SAMPLE, "expires_ms"), Some(6000));
}

#[test]
fn the_asking_process_survives_escaping() {
    // A cmdline can contain quotes, and the attribution shown to the user
    // is the thing an attacker most wants to corrupt.
    let msg = r#"{"cmdline":"sudo sh -c \"echo hi\"","id":"z1"}"#;
    assert_eq!(field(msg, "cmdline"), Some(r#"sudo sh -c \"echo hi\""#));
    assert_eq!(field(msg, "id"), Some("z1"));
}

#[test]
fn an_unknown_stage_is_ignored_rather_than_guessed() {
    assert_eq!(Stage::parse("allow"), None);
    assert_eq!(Stage::parse("confirm"), Some(Stage::Confirm));
}

#[test]
fn a_short_command_is_shown_whole() {
    assert_eq!(
        summarise("sudo systemctl restart foo", "/run/wrappers/bin/sudo"),
        "sudo systemctl restart foo"
    );
}

#[test]
fn a_long_command_keeps_both_ends() {
    let long = format!("sudo sh -c '{}' && systemctl restart foo", "x".repeat(90));
    let out = summarise(&long, "");
    assert!(out.contains('…'), "expected elision, got {out}");
    assert!(out.starts_with("sudo sh -c"), "lost the head: {out}");
    assert!(out.ends_with("systemctl restart foo"), "lost the tail: {out}");
}

#[test]
fn an_empty_cmdline_falls_back_to_the_binary() {
    assert_eq!(summarise("   ", "/run/wrappers/bin/pkexec"), "/run/wrappers/bin/pkexec");
}

fn asked(stage: Stage, id: &str) -> Request {
    Request {
        id: id.into(),
        stage,
        purpose: "elevate".into(),
        target_user: "meros".into(),
        peer_exe: "/run/wrappers/bin/sudo".into(),
        peer_cmdline: "sudo ls".into(),
        expires_ms: 6000,
    }
}

#[test]
fn a_message_is_read_whole_or_not_at_all() {
    let mut want = asked(Stage::Confirm, "q7");
    want.peer_cmdline = "sudo systemctl restart foo".into();
    assert_eq!(read_request(SAMPLE), Some(want));
    assert_eq!(read_request(r#"{"stage":"confirm"}"#), None);
    assert_eq!(read_request(r#"{"id":"a","stage":"allow"}"#), None);
    let bare = read_request(r#"{"id":"a","stage":"announce"}"#).unwrap();
    assert_eq!(bare.purpose, "elevate");
    assert_eq!(bare.expires_ms, 0);
}

#[test]
fn nothing_is_shown_before_the_daemon_accepts() {
    let mut agent = Agent::new();
    assert_eq!(agent.frame(&b" \n\0".to_vec()), Frame::Ignored);
    // The first message is the acceptance, whatever it holds.
    assert_eq!(agent.frame(&framed(SAMPLE)), Frame::Registered);
    assert!(matches!(agent.frame(&framed(SAMPLE)), Frame::Asked(r) if r.id == "q7"));
    assert_eq!(agent.frame(&framed("{}")), Frame::Ignored);
    assert_eq!(agent.frame(&vec![0xff, 0x00]), Frame::Ignored);
    assert_eq!(agent.frame(&framed(r#"{"error":"no"}"#)), Frame::Refused);
    let mut refused = Agent::new();
    assert_eq!(refused.frame(&framed(r#"{"error":"no"}"#)), Frame::Refused);
    assert!(!refused.registered);
}

#[test]
fn messages_end_in_a_zero() {
    assert_eq!(framed("ab"), b"ab\0");
    assert!(register_message().contains("\"more\":true"));
    assert_eq!(
        reply("q7", true),
        r#"{"method":"se.meros.Face1.ConfirmReply","parameters":{"id":"q7","decision":"allow"}}"#
    );
    assert_eq!(field(&reply("q7", false), "decision"), Some("deny"));
}

#[test]
fn a_failing_daemon_is_asked_less_and_less_often() {
    assert_eq!(next_backoff(500, false), 1000);
    assert_eq!(next_backoff(20_000, false), 30_000);
    assert_eq!(next_backoff(30_000, false), 30_000);
    assert_eq!(next_backoff(30_000, true), 500);
}

#[test]
fn a_press_allows_only_what_has_matched() {
    let mut c = Confirm::new();
    assert!(matches!(
        c.request(&asked(Stage::Announce, "a")),
        Show::Announce { command } if command == "sudo ls"
    ));
    // Nothing to agree to yet: the press is dropped.
    assert_eq!(c.answer(true), None);
    assert_eq!(
        c.request(&asked(Stage::Confirm, "a")),
        Show::Confirm {
            window: Some(Window {
                after_ms: 6000,
                epoch: 2
            })
        }
    );
    assert_eq!(c.answer(true), Some("a".into()));
    assert_eq!(c.answer(true), None);
    assert_eq!(c.answer(false), None);
}

#[test]
fn time_running_out_refuses_and_a_cancelled_request_is_not_answered() {
    let mut c = Confirm::new();
    c.request(&asked(Stage::Confirm, "a"));
    assert_eq!(c.expire(0), None);
    assert_eq!(c.expire(1), Some("a".into()));
    assert_eq!(c.expire(1), None);
    assert_eq!(c.answer(true), None);
    c.request(&asked(Stage::Announce, "b"));
    assert_eq!(c.request(&asked(Stage::Cancel, "other")), Show::Nothing);
    assert_eq!(c.request(&asked(Stage::Cancel, "b")), Show::Hide);
    assert_eq!(c.answer(false), None);
}

#[test]
fn the_ring_wears_one_state_at_a_time() {
    assert_eq!(state_of(Progress::Looking), "looking");
    assert_eq!(state_of(Progress::Recognised), "ok");
    assert_eq!(state_of(Progress::Rejected), "fail");
    assert_eq!(ring_class("dark"), "face-ring-dark");
    assert_eq!(pill_class("dark"), "face-pill-dark");
    assert_eq!(apply("ok").ring, Some("face-ring-ok".into()));
    assert_eq!(apply("").ring, None);
    assert!(states().contains(&state_of(Progress::Found)));
}

#[test]
fn enter_and_space_allow_and_escape_refuses() {
    assert_eq!(key_answer(Key::Return), Some(true));
    assert_eq!(key_answer(Key::KeypadEnter), Some(true));
    assert_eq!(key_answer(Key::Space), Some(true));
    assert_eq!(key_answer(Key::Escape), Some(false));
    assert_eq!(key_answer(Key::Other), None);
}

fn epoch(shown: Show) -> u64 {
    match shown {
        Show::Confirm { window: Some(w) } => w.epoch,
        other => panic!("no window: {other:?}"),
    }
}

#[test]
fn the_end_of_an_earlier_window_changes_nothing() {
    let mut c = Confirm::new();
    c.request(&asked(Stage::Announce, "a"));
    // An announcement has no window of its own.
    for e in 0..4 {
        assert_eq!(c.expire(e), None);
    }
    let first = epoch(c.request(&asked(Stage::Confirm, "a")));
    let second = epoch(c.request(&asked(Stage::Confirm, "a")));
    assert_eq!(c.expire(first), None);
    assert_eq!(c.answer(true), Some("a".into()));
    assert_eq!(c.expire(second), None);
    // Nor does it take an announcement of the same request away.
    let third = epoch(c.request(&asked(Stage::Confirm, "a")));
    c.request(&asked(Stage::Announce, "a"));
    assert_eq!(c.expire(third), None);
    assert_eq!(c.answer(false), Some("a".into()));
}

#[test]
fn a_request_without_an_expiry_stays_on_screen() {
    let mut c = Confirm::new();
    let bare = Request {
        expires_ms: 0,
        ..asked(Stage::Confirm, "a")
    };
    assert_eq!(c.request(&bare), Show::Confirm { window: None });
    for e in 0..4 {
        assert_eq!(c.expire(e), None);
    }
    assert_eq!(c.answer(true), Some("a".into()));
}
