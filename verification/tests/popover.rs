use swaypplet::bar::popover::{fmt_age, focus_command, is_own_message, meta_line, task_section};
use swaypplet::task_state::{Activity, Progress, SessionState, TaskState, SECOND};

/// Some point in time, in nanoseconds.
const NOW: u64 = 1_790_000_000 * SECOND;

fn session(activity: Activity, age: Option<u64>, now: u64) -> SessionState {
    SessionState {
        pid: 7,
        desc: "fix flaky auth retry".into(),
        activity,
        progress: None,
        workspace: "5:t2a".into(),
        status_mtime: age.map(|a| now - a),
        acked: false,
    }
}

#[test]
fn ages_format_as_prose() {
    assert_eq!(fmt_age(0), "<1m");
    assert_eq!(fmt_age(59 * SECOND), "<1m");
    assert_eq!(fmt_age((12 * 60) * SECOND), "12m");
    assert_eq!(fmt_age((65 * 60) * SECOND), "1h 5m");
    assert_eq!(fmt_age((9 * 3600) * SECOND), "9h");
}

#[test]
fn meta_line_carries_state_age_and_raw_progress() {
    let now = NOW;
    let mut s = session(Activity::Working, Some((12 * 60) * SECOND), now);
    s.progress = Some(Progress {
        raw: "1/5 ETA ~15m".into(),
        fraction: Some((1, 5)),
    });
    assert_eq!(meta_line(&s, now, None), "working 12m · 1/5 ETA ~15m");

    let s = session(Activity::Waiting, Some(30 * SECOND), now);
    assert_eq!(meta_line(&s, now, None), "waiting <1m");

    // Stale carries no age: dating an invalid write dresses it up.
    let s = session(Activity::Stale, Some(600 * SECOND), now);
    assert_eq!(meta_line(&s, now, None), "status unknown");
}

#[test]
fn suspend_skewed_ages_read_approximate() {
    let now = NOW;
    // Status written before the detected suspend: the age straddles it.
    let s = session(Activity::Waiting, Some((9 * 3600) * SECOND), now);
    let boundary = Some(now - 3600 * SECOND);
    assert_eq!(meta_line(&s, now, boundary), "waiting ~9h");
    // Written after the last suspend: the age is clean.
    let s = session(Activity::Waiting, Some(60 * SECOND), now);
    assert_eq!(meta_line(&s, now, boundary), "waiting 1m");
    // No suspend ever detected: never approximate.
    let s = session(Activity::Waiting, Some((9 * 3600) * SECOND), now);
    assert_eq!(meta_line(&s, now, None), "waiting 9h");
}

#[test]
fn focus_command_matches_the_keybinding_path() {
    assert_eq!(focus_command("5:t2a"), "workspace number 5");
    assert_eq!(focus_command("19:wb"), "workspace number 19");
    assert_eq!(focus_command("mail"), "workspace \"mail\"");
}

#[test]
fn a_task_without_sessions_says_so() {
    let s = task_section(2, &TaskState::default(), NOW, None);
    assert_eq!(s.title, "TASK 2");
    assert_eq!(s.empty, Some("No session".into()));
    assert!(s.rows.is_empty());
}

#[test]
fn a_row_leads_to_its_session() {
    let task = TaskState {
        sessions: vec![session(Activity::Waiting, Some(60 * SECOND), NOW)],
        manual: Some("auth".into()),
    };
    let s = task_section(2, &task, NOW, None);
    assert_eq!(s.title, "TASK 2 · auth");
    assert_eq!(s.empty, None);
    assert_eq!(s.rows[0].desc, "fix flaky auth retry");
    assert_eq!(s.rows[0].meta, "waiting 1m");
    assert_eq!(s.rows[0].command, "workspace number 5");
}

#[test]
fn a_message_older_than_its_process_is_not_its_own() {
    assert!(!is_own_message(99, Some(100)));
    assert!(is_own_message(100, Some(100)));
    assert!(is_own_message(1, None));
}
