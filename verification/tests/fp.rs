use swaypplet::fp::agent::{
    admits_client, asks_for_auth, check, ct_eq, hex_of, lock_path, mint_token, minted, relay,
    sock_path, strip_tail, target_of, tmp_path, token_path, validate, Cmd, Ev, Outcome, Relay,
    StoredToken, TokenFile, MAX_CLIENTS, TOKEN_TTL_SECS,
};
use swaypplet::fp::verify::{named_user, Attempt, EXIT_MATCH, EXIT_NO_READER};
use swaypplet::fp::{
    absorb_echo, after_failed_lookup, enrollment, first_lookup, is_device_resetting,
    is_no_enrolled_prints, is_wedged_claim, parse_verify_status, resolve_retry, seed_active,
    self_enrolled, timed, unenrolled_msg, BusError, EngineEvent, Enrollment, Flow, Lookup,
    Resolution, SessionGate, Verify, RESOLVE_ATTEMPTS, RESOLVE_BACKOFF,
};

#[test]
fn match_unlocks_regardless_of_done_flag() {
    assert_eq!(parse_verify_status("verify-match", true), Verify::Match);
    assert_eq!(parse_verify_status("verify-match", false), Verify::Match);
}

#[test]
fn no_match_retries() {
    assert_eq!(parse_verify_status("verify-no-match", true), Verify::NoMatch);
}

#[test]
fn disconnect_reported() {
    assert_eq!(
        parse_verify_status("verify-disconnected", true),
        Verify::Disconnected
    );
}

#[test]
fn retry_statuses_map_to_hints() {
    for s in [
        "verify-retry-scan",
        "verify-swipe-too-short",
        "verify-finger-not-centered",
        "verify-remove-and-retry",
    ] {
        assert!(matches!(
            parse_verify_status(s, false),
            Verify::Hint(Some(_))
        ));
    }
}

#[test]
fn unknown_status_never_unlocks() {
    // Unknown terminal status → restart the verify session.
    assert_eq!(
        parse_verify_status("verify-unknown-error", true),
        Verify::Error
    );
    assert_eq!(parse_verify_status("something-new", true), Verify::Error);
    // Unknown non-terminal status → ignore, keep waiting.
    assert_eq!(
        parse_verify_status("something-new", false),
        Verify::Hint(None)
    );
    // Empty string → safe fallthrough.
    assert_eq!(parse_verify_status("", true), Verify::Error);
    assert_eq!(parse_verify_status("", false), Verify::Hint(None));
}

#[test]
fn cancel_echo_absorbs_one_terminal_status_per_stop() {
    let mut owed = 1;
    // The cancelled session's no-match is ours, not the user's.
    assert!(absorb_echo(&mut owed, &Verify::NoMatch));
    assert_eq!(owed, 0);
    // The next one is a real finger.
    assert!(!absorb_echo(&mut owed, &Verify::NoMatch));
}

#[test]
fn cancel_echo_never_swallows_a_match() {
    // A finger that landed just before the stop still unlocks.
    let mut owed = 1;
    assert!(!absorb_echo(&mut owed, &Verify::Match));
    assert_eq!(owed, 1);
}

#[test]
fn cancel_echo_covers_error_and_leaves_disconnect_alone() {
    let mut owed = 1;
    assert!(absorb_echo(&mut owed, &Verify::Error));
    let mut owed = 1;
    // A reader that vanished needs the reclaim path, echo or not.
    assert!(!absorb_echo(&mut owed, &Verify::Disconnected));
}

#[test]
fn wedged_claim_is_distinct_from_ordinary_contention() {
    assert!(is_wedged_claim(
        "org.freedesktop.DBus.Error.Failed: Device 06cb:019d is already open"
    ));
    // Ordinary contention: a release is coming; never restart for this.
    assert!(!is_wedged_claim("the device is already claimed"));
    assert!(!is_wedged_claim("Claim: no reply in 3s"));
}

#[test]
fn resetting_endpoint_is_neither_wedged_nor_contention() {
    let e = "net.reactivated.Fprint.Error.Internal: Open failed with \
             error: endpoint stalled or request not supported";
    assert!(is_device_resetting(e));
    assert!(!is_wedged_claim(e));
    // The wedge signature is not a reset: restart cures it, waiting won't.
    assert!(!is_device_resetting(
        "org.freedesktop.DBus.Error.Failed: Device 06cb:019d is already open"
    ));
}

#[test]
fn unenrolled_msg_names_target_but_not_own_user() {
    assert_eq!(unenrolled_msg(""), "no enrolled fingerprints");
    assert_eq!(unenrolled_msg("melvin"), "melvin: no enrolled fingerprints");
}

fn stored() -> StoredToken {
    StoredToken {
        user: "meros".into(),
        token: "aa".repeat(32),
        expires: 1_000,
    }
}

#[test]
fn agent_valid_token_passes() {
    assert!(validate(&stored(), "meros", "aa".repeat(32).as_bytes(), 999));
    assert!(validate(&stored(), "meros", "aa".repeat(32).as_bytes(), 1_000));
}

#[test]
fn agent_expired_token_fails() {
    assert!(!validate(&stored(), "meros", "aa".repeat(32).as_bytes(), 1_001));
}

#[test]
fn agent_wrong_user_fails() {
    assert!(!validate(&stored(), "melvin", "aa".repeat(32).as_bytes(), 999));
}

#[test]
fn agent_wrong_or_truncated_token_fails() {
    assert!(!validate(&stored(), "meros", "ab".repeat(32).as_bytes(), 999));
    assert!(!validate(&stored(), "meros", b"aa", 999));
    assert!(!validate(&stored(), "meros", b"", 999));
}

#[test]
fn agent_ct_eq_basics() {
    assert!(ct_eq(b"abc", b"abc"));
    assert!(!ct_eq(b"abc", b"abd"));
    assert!(!ct_eq(b"abc", b"ab"));
    assert!(ct_eq(b"", b""));
}

#[test]
fn a_token_is_accepted_once_minted_and_only_until_it_expires() {
    let random = [0x5au8; 32];
    let minted = mint_token("meros", &random, 1_000);
    assert_eq!(minted.token, "5a".repeat(32));
    assert_eq!(minted.expires, 1_000 + TOKEN_TTL_SECS);
    let token = minted.token.clone();
    assert!(validate(&minted, "meros", token.as_bytes(), 1_000 + TOKEN_TTL_SECS));
    assert!(!validate(&minted, "meros", token.as_bytes(), 1_001 + TOKEN_TTL_SECS));
}

#[test]
fn bytes_are_written_in_lowercase_hex() {
    assert_eq!(hex_of(&[0x00, 0x0f, 0xa9, 0xff]), "000fa9ff");
    assert_eq!(hex_of(&[]), "");
}

#[test]
fn the_helper_takes_the_current_token_and_consumes_it() {
    let good = Some("aa".repeat(32).into_bytes());
    let taken = check(Some("auth"), Some("meros"), good, &TokenFile::Holds(stored()), 999);
    assert_eq!(taken, Outcome { code: 0, consume: true });
    // pam_exec may append a NUL or a newline.
    let mut padded = "aa".repeat(32).into_bytes();
    padded.extend_from_slice(b"\r\n\0");
    let taken = check(Some("auth"), Some("meros"), Some(padded), &TokenFile::Holds(stored()), 999);
    assert_eq!(taken, Outcome { code: 0, consume: true });
}

#[test]
fn the_helper_leaves_the_token_after_a_wrong_guess_but_not_after_its_time() {
    let wrong = || Some(b"guess".to_vec());
    let kept = check(Some("auth"), Some("meros"), wrong(), &TokenFile::Holds(stored()), 1_000);
    assert_eq!(kept, Outcome { code: 1, consume: false });
    let gone = check(Some("auth"), Some("meros"), wrong(), &TokenFile::Holds(stored()), 1_001);
    assert_eq!(gone, Outcome { code: 1, consume: true });
}

#[test]
fn the_helper_refuses_without_a_token_a_user_or_an_authtok() {
    let any = || Some(b"x".to_vec());
    let refused = Outcome { code: 1, consume: false };
    assert_eq!(check(Some("auth"), Some("meros"), any(), &TokenFile::Absent, 0), refused);
    assert_eq!(check(Some("auth"), None, any(), &TokenFile::Holds(stored()), 0), refused);
    assert_eq!(check(Some("auth"), Some("meros"), None, &TokenFile::Holds(stored()), 0), refused);
    assert_eq!(
        check(Some("auth"), Some("meros"), any(), &TokenFile::Garbled, 0),
        Outcome { code: 1, consume: true }
    );
}

#[test]
fn only_the_tail_of_an_authtok_is_stripped() {
    let mut a = b"\n to\nk\0\n\r".to_vec();
    strip_tail(&mut a);
    assert_eq!(a, b"\n to\nk");
    let mut b = b"\0\0".to_vec();
    strip_tail(&mut b);
    assert!(b.is_empty());
}

#[test]
fn paths_can_be_overridden_but_not_by_nothing() {
    assert_eq!(sock_path(None), "/run/swaypplet-fp/agent.sock");
    assert_eq!(sock_path(Some(String::new())), "/run/swaypplet-fp/agent.sock");
    assert_eq!(sock_path(Some("/tmp/s".into())), "/tmp/s");
    assert_eq!(token_path(None), "/run/swaypplet-fp/token.json");
    assert_eq!(lock_path("/run/t"), "/run/t.lock");
    assert_eq!(tmp_path("/run/t", 417), "/run/t.tmp.417");
}

#[test]
fn the_agent_serves_so_many_clients_and_no_more() {
    assert!(admits_client(MAX_CLIENTS - 1));
    assert!(!admits_client(MAX_CLIENTS));
}

#[test]
fn only_auth_is_answered() {
    assert!(asks_for_auth(Some("auth")));
    assert!(!asks_for_auth(Some("account")));
    assert!(!asks_for_auth(None));
}

#[test]
fn a_match_takes_a_token_before_the_client_hears_of_it() {
    assert!(matches!(relay(EngineEvent::Ready), Relay::Send(Ev::Ready)));
    assert!(matches!(
        relay(EngineEvent::Hint("h".into())),
        Relay::Send(Ev::Hint { msg }) if msg == "h"
    ));
    assert!(matches!(
        relay(EngineEvent::Unavailable("gone".into())),
        Relay::Send(Ev::Unavailable { msg }) if msg == "gone"
    ));
    assert!(matches!(
        relay(EngineEvent::Match("meros".into())),
        Relay::Mint(user) if user == "meros"
    ));
    assert!(matches!(
        minted("meros".into(), Some("t".into())),
        Ev::Match { user, token } if user == "meros" && token == "t"
    ));
    assert!(matches!(
        minted("meros".into(), None),
        Ev::Unavailable { msg } if msg == "token mint failed"
    ));
}

#[test]
fn commands_name_a_target_or_none() {
    assert_eq!(
        target_of(Cmd::Verify { user: "meros".into() }),
        Some("meros".into())
    );
    assert_eq!(target_of(Cmd::Stop), None);
}

fn bus(name: Option<&str>) -> BusError {
    BusError {
        name: name.map(Into::into),
        text: "failed".into(),
    }
}

#[test]
fn no_prints_is_known_from_a_failed_question() {
    let none = Some("net.reactivated.Fprint.Error.NoEnrolledPrints");
    assert!(is_no_enrolled_prints(&bus(none)));
    assert!(!is_no_enrolled_prints(&bus(None)));
    assert_eq!(enrollment(&Some(Err(bus(none)))), Enrollment::Missing);
    assert_eq!(enrollment(&Some(Ok(vec![]))), Enrollment::Missing);
    assert_eq!(
        enrollment(&Some(Ok(vec!["right-index-finger".into()]))),
        Enrollment::Enrolled
    );
    assert_eq!(enrollment(&Some(Err(bus(None)))), Enrollment::Unknown);
    assert_eq!(enrollment(&None), Enrollment::Unknown);
    assert_eq!(self_enrolled(Enrollment::Enrolled), Some(true));
    assert_eq!(self_enrolled(Enrollment::Missing), Some(false));
    assert_eq!(self_enrolled(Enrollment::Unknown), None);
}

#[test]
fn a_client_is_never_gated_on_the_daemon_s_own_session() {
    assert_eq!(first_lookup(SessionGate::Own(7)), Lookup::Auto);
    assert_eq!(first_lookup(SessionGate::Client(7)), Lookup::ByPid(7));
    assert!(matches!(
        after_failed_lookup(SessionGate::Own(7), Lookup::Auto, "e", ""),
        Resolution::Ask(Lookup::ByPid(7))
    ));
    assert!(matches!(
        after_failed_lookup(SessionGate::Own(7), Lookup::ByPid(7), "b", "a"),
        Resolution::Failed(e) if e == "GetSession(auto): a; GetSessionByPID: b"
    ));
    assert!(matches!(
        after_failed_lookup(SessionGate::Client(7), Lookup::ByPid(7), "b", ""),
        Resolution::Failed(e) if e == "b"
    ));
}

#[test]
fn a_session_that_cannot_be_found_counts_as_active() {
    for attempt in 0..RESOLVE_ATTEMPTS - 1 {
        assert_eq!(resolve_retry(attempt), Some(RESOLVE_BACKOFF));
    }
    assert_eq!(resolve_retry(RESOLVE_ATTEMPTS - 1), None);
    assert!(seed_active(None));
    assert!(seed_active(Some(true)));
    assert!(!seed_active(Some(false)));
}

#[test]
fn a_call_without_an_answer_names_itself() {
    assert_eq!(timed("Claim", Some(Ok(3))), Ok(3));
    assert_eq!(timed::<u8>("Claim", Some(Err("no".into()))), Err("no".into()));
    assert_eq!(
        timed::<u8>("Claim", None),
        Err("Claim: no reply in 3s".into())
    );
}

#[test]
fn one_verification_ends_at_a_match_or_without_a_reader() {
    let mut a = Attempt::new();
    assert_eq!(a.sink(&EngineEvent::Ready), Flow::Continue);
    assert_eq!(a.sink(&EngineEvent::Hint("again".into())), Flow::Continue);
    assert_eq!(a.exit_code(), EXIT_NO_READER);
    assert_eq!(a.sink(&EngineEvent::Match("meros".into())), Flow::Stop);
    assert_eq!(a.exit_code(), EXIT_MATCH);
    let mut b = Attempt::new();
    assert_eq!(b.sink(&EngineEvent::Unavailable("gone".into())), Flow::Stop);
    assert_eq!(b.exit_code(), EXIT_NO_READER);
    assert_eq!(named_user(Some(String::new())), None);
    assert_eq!(named_user(Some("meros".into())), Some("meros".into()));
}

#[test]
fn the_helper_answers_authentication_alone() {
    let good = || Some("aa".repeat(32).into_bytes());
    let refused = Outcome { code: 1, consume: false };
    for asked in [None, Some("session"), Some("auth "), Some("")] {
        let r = check(asked, Some("meros"), good(), &TokenFile::Holds(stored()), 999);
        assert_eq!(r, refused, "{asked:?}");
        assert_eq!(check(asked, Some("meros"), good(), &TokenFile::Garbled, 999), refused);
    }
    let r = check(Some("auth"), Some("meros"), good(), &TokenFile::Holds(stored()), 999);
    assert_eq!(r, Outcome { code: 0, consume: true });
}

#[test]
fn as_many_echoes_are_absorbed_as_are_owed() {
    let mut owed = 2;
    let run = [
        Verify::NoMatch,
        Verify::Match,
        Verify::Hint(None),
        Verify::Error,
        Verify::Disconnected,
        Verify::NoMatch,
    ];
    let absorbed: Vec<bool> = run.iter().map(|v| absorb_echo(&mut owed, v)).collect();
    assert_eq!(absorbed, [true, false, false, true, false, false]);
    assert_eq!(owed, 0);
}
