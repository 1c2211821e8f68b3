use swaypplet::bar::board::{
    accent_class, bay_view, chip_label, state_classes, state_marker, Bay, BayState, Redraw,
};
use swaypplet::task_state::{Activity, Progress, SessionState, TaskState, SECOND};

/// Some point in time, in nanoseconds.
const NOW: u64 = 1_790_000_000 * SECOND;

fn session(
    activity: Activity,
    acked: bool,
    age: Option<u64>,
    now: u64,
) -> SessionState {
    SessionState {
        pid: 1,
        desc: "fix flaky auth retry".into(),
        activity,
        progress: None,
        workspace: "5:t2a".into(),
        status_mtime: age.map(|a| now - a),
        acked,
    }
}

fn task_of(sessions: Vec<SessionState>) -> TaskState {
    TaskState {
        sessions,
        manual: None,
    }
}

#[test]
fn empty_bay_is_a_socket() {
    let now = NOW;
    let view = bay_view(1, &TaskState::default(), false, now);
    assert_eq!(view.state, BayState::Socket);
    assert_eq!(view.chip, None);
    assert_eq!(view.fill, None);
}

#[test]
fn waiting_outranks_working_and_stale_outranks_stopped() {
    let now = NOW;
    let task = task_of(vec![
        session(Activity::Working, false, None, now),
        session(Activity::Waiting, false, Some(0), now),
    ]);
    assert!(matches!(
        bay_view(1, &task, false, now).state,
        BayState::Waiting { acked: false, .. }
    ));

    let task = task_of(vec![
        session(Activity::Stopped, false, None, now),
        session(Activity::Stale, false, None, now),
    ]);
    assert_eq!(bay_view(1, &task, false, now).state, BayState::Stale);
    let task = task_of(vec![session(Activity::Stopped, false, None, now)]);
    assert_eq!(bay_view(1, &task, false, now).state, BayState::Stopped);
}

#[test]
fn ack_needs_every_waiting_session() {
    let now = NOW;
    let task = task_of(vec![
        session(Activity::Waiting, true, Some(0), now),
        session(Activity::Waiting, false, Some(0), now),
    ]);
    assert!(bay_view(1, &task, false, now).is_unacked());
    let task = task_of(vec![session(
        Activity::Waiting,
        true,
        Some(0),
        now,
    )]);
    assert!(!bay_view(1, &task, false, now).is_unacked());
}

#[test]
fn overdue_steps_at_ten_minutes_unacked_only() {
    let now = NOW;
    let old = Some((11 * 60) * SECOND);
    let task = task_of(vec![session(Activity::Waiting, false, old, now)]);
    assert_eq!(
        bay_view(1, &task, false, now).state,
        BayState::Waiting {
            acked: false,
            overdue: true
        }
    );
    // Ack drops the escalation with the luminance.
    let task = task_of(vec![session(Activity::Waiting, true, old, now)]);
    assert_eq!(
        bay_view(1, &task, false, now).state,
        BayState::Waiting {
            acked: true,
            overdue: false
        }
    );
}

#[test]
fn chip_appears_at_two_minutes_and_survives_ack() {
    assert_eq!(chip_label(90 * SECOND), None);
    assert_eq!(chip_label((12 * 60) * SECOND), Some("12m".into()));
    assert_eq!(chip_label((61 * 60) * SECOND), Some("1h".into()));

    let now = NOW;
    let age = Some((12 * 60) * SECOND);
    let task = task_of(vec![session(Activity::Waiting, true, age, now)]);
    assert_eq!(bay_view(1, &task, false, now).chip, Some("12m".into()));
}

#[test]
fn fill_draws_only_for_single_session_tasks() {
    let now = NOW;
    let with_progress = |acked| {
        let mut s = session(Activity::Working, acked, None, now);
        s.progress = Some(Progress {
            raw: "1/5 ETA ~15m".into(),
            fraction: Some((1, 5)),
        });
        s
    };
    let task = task_of(vec![with_progress(false)]);
    assert_eq!(bay_view(1, &task, false, now).fill, Some((1, 5)));
    let task = task_of(vec![with_progress(false), with_progress(false)]);
    assert_eq!(bay_view(1, &task, false, now).fill, None);
}

#[test]
fn every_state_keeps_a_grayscale_shape() {
    // Stopped and stale have no fill/border luminance of their own, so
    // they carry the shape glyph; stale is hollow, never filled.
    assert_eq!(state_marker(BayState::Stopped), "·");
    assert_eq!(state_marker(BayState::Stale), "○");
    assert_eq!(state_marker(BayState::Socket), "");
    assert_eq!(
        state_classes(BayState::Waiting {
            acked: false,
            overdue: true
        }),
        ["waiting", "unacked", "overdue"]
    );
    assert_eq!(
        state_classes(BayState::Waiting {
            acked: true,
            overdue: false
        }),
        ["waiting"]
    );
}

#[test]
fn a_bay_nudges_once_when_a_wait_sets_in() {
    let now = NOW;
    let working = || task_of(vec![session(Activity::Working, false, None, now)]);
    let waiting = || task_of(vec![session(Activity::Waiting, false, Some(0), now)]);
    let mut bay = Bay::new();
    // What is waiting at startup is no onset.
    assert_eq!(
        bay.apply(bay_view(1, &waiting(), false, now)),
        Redraw::Draw { nudge: false }
    );
    assert_eq!(
        bay.apply(bay_view(1, &waiting(), false, now)),
        Redraw::Nothing
    );
    bay.apply(bay_view(1, &working(), false, now));
    assert_eq!(
        bay.apply(bay_view(1, &waiting(), false, now)),
        Redraw::Draw { nudge: true }
    );
}

#[test]
fn a_bar_wears_the_accent_of_its_task() {
    assert_eq!(accent_class(Some(1)), Some("bar-task1"));
    assert_eq!(accent_class(Some(4)), Some("bar-task4"));
    assert_eq!(accent_class(Some(5)), None);
    assert_eq!(accent_class(None), None);
}
