use swaypplet::bar::media::{
    pill_text, popover_artist, popover_title, Art, MediaMark, MediaState, PlaybackStatus, Pop,
};
use swaypplet::bar::pins::{rows, tuck_label, update, Opener, Row};
use swaypplet::bar::presence::{Event, Readout};
use swaypplet::bar::start::{is_panel, panel_pid, pid_in};
use swaypplet::bar::task::{read_view, render, same_pill, Part, Tip};
use swaypplet::bar::BarManager;
use swaypplet::sway_ipc::WorkspaceInfo;
use swaypplet::task_state::{Activity, Progress, SessionState, TaskSnapshot};

#[test]
fn every_output_has_one_bar() {
    let mut bars = BarManager::new();
    let r = bars.sync(&vec![1, 2, 2]);
    assert!(r.destroy.is_empty());
    assert_eq!(r.build, [1, 2]);
    let r = bars.sync(&vec![2, 3]);
    assert_eq!(r.destroy, [1]);
    assert_eq!(r.build, [3]);
    let r = bars.sync(&vec![3, 2]);
    assert!(r.destroy.is_empty() && r.build.is_empty());
}

fn media(title: &str, artist: &str, art: Option<&str>) -> MediaState {
    MediaState {
        title: title.into(),
        artist: artist.into(),
        status: PlaybackStatus::Playing,
        art_path: art.map(Into::into),
    }
}

#[test]
fn the_media_line_is_whichever_half_exists() {
    assert_eq!(pill_text(&media(" So What ", "Miles Davis", None)), "So What · Miles Davis");
    assert_eq!(pill_text(&media("So What", " ", None)), "So What");
    assert_eq!(pill_text(&media("", "Miles Davis", None)), "Miles Davis");
    assert_eq!(pill_text(&media("", "", None)), "♪");
    assert_eq!(popover_title(&media("", "", None)), "Unknown track");
    assert_eq!(popover_title(&media("So What", "", None)), "So What");
    assert_eq!(popover_artist(&media("", "", None)), None);
    assert_eq!(popover_artist(&media("", "M", None)), Some("M".into()));
}

#[test]
fn album_art_is_read_once_for_each_file() {
    let mut mark = MediaMark::new();
    let c = mark.apply(Some(media("a", "b", Some("/art/1"))), false).unwrap();
    assert!(c.visible && c.playing);
    assert_eq!(c.art, Art::Load("/art/1".into()));
    assert_eq!(c.popover, Pop::Leave);
    let c = mark.apply(Some(media("c", "b", Some("/art/1"))), true).unwrap();
    assert_eq!(c.art, Art::Show);
    assert_eq!(c.text, Some("c · b".into()));
    assert_eq!(c.popover, Pop::Redraw);
    assert!(mark.apply(Some(media("c", "b", Some("/art/1"))), true).is_none());
    assert_eq!(mark.apply(Some(media("c", "b", None)), false).unwrap().art, Art::Hide);
    let c = mark.apply(None, true).unwrap();
    assert!(!c.visible && !c.playing);
    assert_eq!(c.art, Art::Keep);
    assert_eq!(c.text, None);
    assert_eq!(c.popover, Pop::Close);
}

#[test]
fn pins_are_counted_from_two_up() {
    assert!(!update(0, false).revealed);
    let one = update(1, true);
    assert!(one.revealed && one.tucked && !one.counted);
    let two = update(2, false);
    assert!(two.counted);
    assert_eq!(two.count, "2");
    assert_ne!(one.glyph, two.glyph);
    assert_eq!(tuck_label(true), "Show pins on screen");
    assert_eq!(tuck_label(false), "Tuck pins into the bar");
}

#[test]
fn what_the_sensor_does_not_say_counts_as_away() {
    let mut r = Readout::new();
    let shown = r.draw();
    assert!(shown.away);
    assert_eq!(shown.tooltip, "Presence sensor unreadable");
    r.take(Event::Changed(true));
    r.take(Event::Attention(-3));
    let shown = r.draw();
    assert!(!shown.away);
    assert_eq!(shown.tooltip, "Present, attention -3");
    r.take(Event::Changed(false));
    assert_eq!(r.draw().tooltip, "Away, attention -3");
}

#[test]
fn a_pid_is_trusted_only_while_it_is_the_panel_s() {
    assert_eq!(pid_in(" 4711\n"), Some(4711));
    assert_eq!(pid_in("x"), None);
    assert!(is_panel("swaypplet\n"));
    // The wrapped program, its name cut by the kernel.
    assert!(is_panel(".swaypplet-wrap"));
    assert!(!is_panel("swaybar"));
    assert_eq!(panel_pid("4711", Some("swaypplet")), Some(4711));
    assert_eq!(panel_pid("4711", Some("bash")), None);
    assert_eq!(panel_pid("4711", None), None);
}

fn workspace(name: &str, output: &str, visible: bool) -> WorkspaceInfo {
    WorkspaceInfo {
        num: 5,
        name: name.into(),
        output: output.into(),
        focused: false,
        urgent: false,
        visible,
    }
}

fn session(desc: &str, progress: Option<&str>) -> SessionState {
    SessionState {
        pid: 1,
        desc: desc.into(),
        activity: Activity::Working,
        progress: progress.map(|raw| Progress {
            raw: raw.into(),
            fraction: None,
        }),
        workspace: "5:t2a".into(),
        status_mtime: None,
        acked: false,
    }
}

#[test]
fn the_pill_shows_the_task_of_its_own_screen() {
    let mut snap = TaskSnapshot::default();
    snap.tasks[1].sessions = vec![session("one", Some("1/5")), session("two", None)];
    snap.tasks[1].manual = Some("auth".into());
    let list = vec![
        workspace("1:t1a", "left", false),
        workspace("5:t2a", "left", true),
        workspace("9:t3a", "right", true),
    ];
    let view = read_view(Some("left"), &list, &snap);
    assert_eq!(view.task, Some(2));
    let drawn = render(&view);
    assert!(drawn.visible);
    assert_eq!(drawn.tooltip, Tip::Show("Task 2".into()));
    assert_eq!(
        drawn.parts,
        [
            Part::Dot(Activity::Working),
            Part::Desc("one".into()),
            Part::Dim("·"),
            Part::Desc("1/5".into()),
            Part::Dim("|"),
            Part::Dot(Activity::Working),
            Part::Desc("two".into()),
            Part::Dim("|"),
            Part::Desc("auth".into()),
        ]
    );
    assert!(same_pill(&view, &read_view(Some("left"), &list, &snap)));
    let right = read_view(Some("right"), &list, &snap);
    assert_eq!(right.task, Some(3));
    assert!(right.is_empty());
    assert!(!render(&right).visible);
    assert!(!same_pill(&view, &right));
}

#[test]
fn every_pin_has_its_row() {
    let names = vec!["5:t2a".to_string(), "web".to_string()];
    assert_eq!(
        rows(&names),
        [
            Row { num: 5, name: "5:t2a".into() },
            Row { num: -1, name: "web".into() }
        ]
    );
    assert!(rows(&vec![]).is_empty());
}

#[test]
fn the_pins_popover_opens_by_itself_once() {
    let mut opener = Opener::new(Some("1"));
    assert!(!opener.changed(0));
    assert!(opener.changed(2));
    assert!(!opener.changed(2));
    assert!(!Opener::new(Some("")).changed(1));
    assert!(!Opener::new(None).changed(1));
}
