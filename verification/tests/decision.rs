use swaypplet::bar::decision::{occupant, render, BatteryView, DecisionSlot, Occ, Step};
use swaypplet::task_state::{Activity, SessionState, TaskSnapshot, SECOND};

/// Some point in time, in nanoseconds.
const NOW: u64 = 1_790_000_000 * SECOND;

fn waiting(pid: i32, acked: bool, age: Option<u64>, now: u64) -> SessionState {
    SessionState {
        pid,
        desc: format!("task for {pid}"),
        activity: Activity::Waiting,
        progress: None,
        workspace: "5:t2a".into(),
        status_mtime: age.map(|a| now - a),
        acked,
    }
}

fn battery(critical: bool) -> BatteryView {
    BatteryView {
        critical,
        text: "13% · 1h 5m".into(),
    }
}

#[test]
fn empty_when_nothing_needs_the_owner() {
    let now = NOW;
    assert_eq!(occupant(None, &TaskSnapshot::default(), now), None);
    // A healthy battery is not an occupant.
    assert_eq!(
        occupant(Some(&battery(false)), &TaskSnapshot::default(), now),
        None
    );
}

#[test]
fn battery_critical_outranks_waiting() {
    let now = NOW;
    let mut snap = TaskSnapshot::default();
    snap.tasks[0].sessions = vec![waiting(1, false, Some(0), now)];
    assert_eq!(
        occupant(Some(&battery(true)), &snap, now),
        Some(Occ::Battery {
            text: "13% · 1h 5m".into()
        })
    );
    // Charger connect (no longer critical) stands the battery down and
    // the waiting session takes the slot.
    assert!(matches!(
        occupant(Some(&battery(false)), &snap, now),
        Some(Occ::Waiting { pid: 1, .. })
    ));
}

#[test]
fn oldest_unacked_wait_holds_the_slot_with_a_more_suffix() {
    let now = NOW;
    let mut snap = TaskSnapshot::default();
    snap.tasks[0].sessions = vec![waiting(1, false, Some(60 * SECOND), now)];
    snap.tasks[2].sessions = vec![
        waiting(2, false, Some((12 * 60) * SECOND), now),
        waiting(3, false, None, now), // no mtime = age zero, never oldest
    ];
    let occ = occupant(None, &snap, now).unwrap();
    assert_eq!(
        occ,
        Occ::Waiting {
            pid: 2,
            task: 3,
            desc: "task for 2".into(),
            meta: Some("12m +2".into()),
        }
    );
}

#[test]
fn meta_is_chip_or_suffix_alone_when_the_other_is_absent() {
    let now = NOW;
    // Young wait (< 2 min chip threshold), alone: no meta at all.
    let mut snap = TaskSnapshot::default();
    snap.tasks[0].sessions = vec![waiting(1, false, Some(30 * SECOND), now)];
    assert!(matches!(
        occupant(None, &snap, now),
        Some(Occ::Waiting { meta: None, .. })
    ));
    // Young wait with company: suffix only.
    snap.tasks[1].sessions = vec![waiting(2, false, Some(10 * SECOND), now)];
    assert!(matches!(
        occupant(None, &snap, now),
        Some(Occ::Waiting { meta: Some(m), .. }) if m == "+1"
    ));
}

#[test]
fn acked_sessions_never_occupy_the_slot() {
    let now = NOW;
    let mut snap = TaskSnapshot::default();
    snap.tasks[0].sessions = vec![waiting(1, true, Some((12 * 60) * SECOND), now)];
    assert_eq!(occupant(None, &snap, now), None);

    // Two waiting, oldest acked: the younger unacked one owns the
    // slot with no suffix (the suffix counts unacked waits only).
    snap.tasks[1].sessions = vec![waiting(2, false, Some(60 * SECOND), now)];
    assert!(matches!(
        occupant(None, &snap, now),
        Some(Occ::Waiting {
            pid: 2,
            meta: None,
            ..
        })
    ));
}

#[test]
fn future_mtime_counts_as_age_zero_for_oldest_pick() {
    let now = NOW;
    let mut snap = TaskSnapshot::default();
    let mut skewed = waiting(1, false, None, now);
    skewed.status_mtime = Some(now + 3600 * SECOND); // suspend skew
    snap.tasks[0].sessions = vec![
        skewed,
        waiting(2, false, Some(60 * SECOND), now),
    ];
    assert!(matches!(
        occupant(None, &snap, now),
        Some(Occ::Waiting { pid: 2, .. })
    ));
}

fn occ(pid: i32, meta: Option<&str>) -> Option<Occ> {
    Some(Occ::Waiting {
        pid,
        task: 1,
        desc: "d".into(),
        meta: meta.map(Into::into),
    })
}

#[test]
fn a_handover_collapses_before_the_next_one_shows() {
    let mut slot = DecisionSlot::new();
    assert_eq!(slot.apply(occ(1, None)), Step::Reveal(occ(1, None).unwrap()));
    // The same wait, older, is drawn in place.
    assert_eq!(
        slot.apply(occ(1, Some("2m"))),
        Step::Render(occ(1, Some("2m")).unwrap())
    );
    assert_eq!(slot.apply(occ(2, None)), Step::Collapse);
    // What comes while it collapses only replaces whom it converges toward.
    assert_eq!(slot.apply(occ(3, None)), Step::Nothing);
    assert_eq!(slot.collapse_done(), Step::Reveal(occ(3, None).unwrap()));
    assert_eq!(slot.apply(None), Step::Collapse);
    assert_eq!(slot.collapse_done(), Step::Nothing);
    assert_eq!(slot.apply(None), Step::Nothing);
}

#[test]
fn the_battery_is_read_as_charge_and_time() {
    let low = BatteryView::read(13, false, Some("1h 5m"));
    assert_eq!(low, battery(true));
    assert!(!BatteryView::read(13, true, None).critical);
    assert_eq!(BatteryView::read(100, true, None).text, "100%");
}

#[test]
fn a_wait_is_drawn_in_the_hue_of_its_task() {
    let face = render(&occ(7, Some("12m")).unwrap());
    assert_eq!(face.dot, "●");
    assert_eq!(face.dot_class, Some("t1"));
    assert_eq!(face.text, "d");
    assert_eq!(face.meta, Some("12m".into()));
    let face = render(&Occ::Battery { text: "5%".into() });
    assert!(face.critical);
    assert_eq!(face.text, "5%");
    assert_eq!(face.meta, None);
}
