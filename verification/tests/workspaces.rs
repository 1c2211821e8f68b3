use swaypplet::bar::workspaces::{
    generic_label, group_by_output, matches_layout, ribbon_for, ribbon_plans, seg_view,
    segment_classes, sort_workspaces, switch_command, task_label, ws_state, Group, Ribbon, SegView,
    TaskRibbon, WsState,
};
use swaypplet::sway_ipc::{OutputInfo, WorkspaceInfo};
use swaypplet::task_state::{Activity, SessionState, TaskSnapshot};

fn ws(num: i32, name: &str) -> WorkspaceInfo {
    WorkspaceInfo {
        num,
        name: name.into(),
        output: "eDP-1".into(),
        focused: false,
        urgent: false,
        visible: false,
    }
}

fn on(num: i32, name: &str, output: &str) -> WorkspaceInfo {
    WorkspaceInfo {
        output: output.into(),
        ..ws(num, name)
    }
}

fn out(name: &str, x: i32, y: i32) -> OutputInfo {
    OutputInfo {
        name: name.into(),
        x,
        y,
    }
}

fn shown(num: i32, name: &str, output: &str, focused: bool) -> WorkspaceInfo {
    WorkspaceInfo {
        visible: true,
        focused,
        ..on(num, name, output)
    }
}

fn shape(groups: &[Group]) -> Vec<(&str, Vec<i32>)> {
    groups
        .iter()
        .map(|g| {
            (
                g.output.as_str(),
                g.workspaces.iter().map(|w| w.num).collect(),
            )
        })
        .collect()
}

#[test]
fn one_screen_is_one_pill() {
    let list = [on(1, "1:t1a", "eDP-1"), on(17, "17:wb", "eDP-1")];
    let groups = group_by_output(&list, &[out("eDP-1", 0, 0)]);
    assert_eq!(shape(&groups), [("eDP-1", vec![1, 17])]);
}

#[test]
fn groups_follow_the_screens_left_to_right_then_top_to_bottom() {
    let list = [
        on(1, "1:t1a", "right"),
        on(5, "5:t2a", "left"),
        on(9, "9:t3a", "below"),
        on(17, "17:wb", "left"),
    ];
    let outputs = [
        // Declared in a deliberately unhelpful order: placement
        // decides, not the order sway happened to report them.
        out("below", 0, 1440),
        out("right", 2560, 0),
        out("left", 0, 0),
    ];
    assert_eq!(
        shape(&group_by_output(&list, &outputs)),
        [
            ("left", vec![5, 17]),
            ("below", vec![9]),
            ("right", vec![1]),
        ]
    );
}

#[test]
fn no_output_info_collapses_to_a_single_pill() {
    let list = [on(1, "1:t1a", "DP-3"), on(5, "5:t2a", "eDP-1")];
    let groups = group_by_output(&list, &[]);
    assert_eq!(groups.len(), 1);
    assert_eq!(shape(&groups), [("", vec![1, 5])]);
}

#[test]
fn workspaces_on_an_unreported_output_trail_instead_of_vanishing() {
    let list = [on(1, "1:t1a", "DP-3"), on(5, "5:t2a", "ghost")];
    assert_eq!(
        shape(&group_by_output(&list, &[out("DP-3", 0, 0)])),
        [("DP-3", vec![1]), ("ghost", vec![5])]
    );
}

#[test]
fn exactly_the_screen_holding_input_stays_undimmed() {
    let list = [
        shown(1, "1:t1a", "left", false),
        on(2, "2:t1b", "left"),
        shown(5, "5:t2a", "right", true),
    ];
    let groups = group_by_output(&list, &[out("left", 0, 0), out("right", 2560, 0)]);
    let active: Vec<(&str, bool)> = groups
        .iter()
        .map(|g| (g.output.as_str(), g.active))
        .collect();
    assert_eq!(active, [("left", false), ("right", true)]);
}

#[test]
fn one_current_segment_per_screen_and_one_focused_overall() {
    let left = shown(1, "1:t1a", "left", false);
    let right = shown(5, "5:t2a", "right", true);
    // Each screen's shown workspace is its selected segment; only the
    // one on the focused screen steps up. Both read the same on every
    // bar — the group says which screen they belong to.
    assert_eq!(ws_state(&left), WsState::Current);
    assert_eq!(ws_state(&right), WsState::Focused);
    assert_eq!(ws_state(&ws(9, "9:t3a")), WsState::Idle);
}

#[test]
fn task_workspaces_carry_task_index_and_superscript() {
    assert_eq!(task_label(1), Some((1, "1¹".into())));
    assert_eq!(task_label(16), Some((4, "4⁴".into())));
    // Task boundary: num 5 is task 2, screen 1.
    assert_eq!(task_label(5), Some((2, "2¹".into())));
    assert_eq!(task_label(17), None);
    assert_eq!(task_label(-1), None);
}

#[test]
fn generic_labels_come_from_the_table() {
    assert_eq!(generic_label(17, "17:wb"), "󰖟 b");
    assert_eq!(generic_label(29, "29:wy"), "󰗃 y");
}

#[test]
fn unknown_workspaces_fall_back_to_the_name() {
    assert_eq!(generic_label(-1, "mail"), "mail");
    assert_eq!(generic_label(42, "42"), "42");
}

#[test]
fn switch_command_targets_number_or_quoted_name() {
    assert_eq!(switch_command(5, "5:t2a"), "workspace number 5");
    assert_eq!(switch_command(-1, "mail"), "workspace \"mail\"");
    assert_eq!(
        switch_command(-1, "we\"ird\\ws"),
        "workspace \"we\\\"ird\\\\ws\""
    );
}

fn session(activity: Activity, workspace: &str) -> SessionState {
    SessionState {
        pid: 1,
        desc: "d".into(),
        activity,
        progress: None,
        workspace: workspace.into(),
        status_mtime: None,
        acked: false,
    }
}

/// Task 2's four workspaces, in strip order.
const T2: [&str; 4] = ["5:t2a", "6:t2b", "7:t2c", "8:t2d"];

fn lane(plan: &TaskRibbon) -> Vec<Ribbon> {
    T2.iter().map(|w| ribbon_for(plan, w)).collect()
}

#[test]
fn stopped_and_stale_tasks_draw_no_ribbon() {
    let mut snap = TaskSnapshot::default();
    snap.tasks[1].sessions = vec![
        session(Activity::Stopped, "5:t2a"),
        session(Activity::Stale, "6:t2b"),
    ];
    assert_eq!(lane(&ribbon_plans(&snap)[1]), [Ribbon::Off; 4]);
}

#[test]
fn working_draws_the_dim_lane_across_the_whole_task() {
    let mut snap = TaskSnapshot::default();
    snap.tasks[1].sessions = vec![session(Activity::Working, "7:t2c")];
    assert_eq!(lane(&ribbon_plans(&snap)[1]), [Ribbon::Working; 4]);
}

#[test]
fn waiting_lights_only_the_workspace_holding_it() {
    let mut snap = TaskSnapshot::default();
    snap.tasks[1].sessions = vec![
        session(Activity::Working, "5:t2a"),
        session(Activity::Waiting, "7:t2c"),
    ];
    // The lane says task 2 is live; the hue says press 7:t2c.
    assert_eq!(
        lane(&ribbon_plans(&snap)[1]),
        [
            Ribbon::Working,
            Ribbon::Working,
            Ribbon::Waiting,
            Ribbon::Working
        ]
    );
}

#[test]
fn two_waits_in_one_task_light_both_segments() {
    let mut snap = TaskSnapshot::default();
    snap.tasks[1].sessions = vec![
        session(Activity::Waiting, "5:t2a"),
        session(Activity::Waiting, "8:t2d"),
    ];
    assert_eq!(
        lane(&ribbon_plans(&snap)[1]),
        [
            Ribbon::Waiting,
            Ribbon::Working,
            Ribbon::Working,
            Ribbon::Waiting
        ]
    );
}

#[test]
fn a_wait_parked_outside_its_task_keeps_the_whole_lane_hued() {
    let mut snap = TaskSnapshot::default();
    // Session moved to the browser workspace: no segment can point at
    // it, so the signal degrades to the old group-wide hue.
    snap.tasks[1].sessions = vec![session(Activity::Waiting, "17:wb")];
    assert_eq!(lane(&ribbon_plans(&snap)[1]), [Ribbon::Waiting; 4]);
}

#[test]
fn tasks_do_not_bleed_into_each_other() {
    let mut snap = TaskSnapshot::default();
    snap.tasks[1].sessions = vec![session(Activity::Waiting, "5:t2a")];
    let plans = ribbon_plans(&snap);
    assert_eq!(lane(&plans[0]), [Ribbon::Off; 4]);
    assert_eq!(ribbon_for(&plans[0], "1:t1a"), Ribbon::Off);
}

#[test]
fn sort_is_numeric_with_named_last() {
    let mut list = vec![
        ws(10, "10:t3b"),
        ws(-1, "mail"),
        ws(2, "2:t1b"),
        ws(-1, "chat"),
    ];
    sort_workspaces(&mut list);
    let order: Vec<&str> = list.iter().map(|w| w.name.as_str()).collect();
    assert_eq!(order, ["2:t1b", "10:t3b", "chat", "mail"]);
}

#[test]
fn a_segment_wears_what_it_shows() {
    let plans = {
        let mut snap = TaskSnapshot::default();
        snap.tasks[1].sessions = vec![session(Activity::Waiting, "5:t2a")];
        ribbon_plans(&snap)
    };
    let mut five = shown(5, "5:t2a", "left", true);
    five.urgent = true;
    let view = seg_view(&five, Some(2), &plans);
    assert_eq!(
        segment_classes(Some(2), view),
        ["current", "focused", "urgent", "ribbon-waiting", "task2"]
    );
    let view = seg_view(&ws(6, "6:t2b"), Some(2), &plans);
    assert_eq!(segment_classes(Some(2), view), ["ribbon-working"]);
    assert!(segment_classes(None, SegView::unwritten()).is_empty());
    // No real segment equals one that was never written.
    assert_ne!(seg_view(&ws(9, "9:t3a"), None, &plans), SegView::unwritten());
}

#[test]
fn the_strip_is_raised_anew_only_when_its_shape_changes() {
    let outputs = [out("eDP-1", 0, 0)];
    let groups = group_by_output(&[ws(1, "1:t1a"), ws(17, "17:wb")], &outputs);
    assert!(matches_layout(&vec![vec!["1:t1a".into(), "17:wb".into()]], &groups));
    assert!(!matches_layout(&vec![vec!["1:t1a".into()]], &groups));
    assert!(!matches_layout(&vec![], &groups));
}
