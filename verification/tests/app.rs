use swaypplet::app::{
    defers_to_service, hosts_bar, panel_listening, parse_command, pid_file_path, sliders_after,
    task_ref, Command, Keybinds, OsdCommand, Sliders, TaskRef,
};
use swaypplet::sway_ipc::WorkspaceInfo;

fn parse(words: &[&str]) -> Command {
    parse_command(&words.iter().map(|w| w.to_string()).collect())
}

#[test]
fn a_command_line_is_a_request_to_the_shell() {
    assert_eq!(parse(&["swaypplet"]), Command::Activate);
    assert_eq!(parse(&["swaypplet", "launcher"]), Command::Launcher);
    assert_eq!(parse(&["swaypplet", "switcher"]), Command::Switcher);
    assert_eq!(parse(&["swaypplet", "screenshot"]), Command::Screenshot(None));
    assert_eq!(
        parse(&["swaypplet", "screenshot", "area"]),
        Command::Screenshot(Some("area".into()))
    );
    assert_eq!(parse(&["swaypplet", "keybinds", "show"]), Command::Keybinds(Keybinds::Show));
    assert_eq!(parse(&["swaypplet", "keybinds", "hide"]), Command::Keybinds(Keybinds::Hide));
    assert_eq!(parse(&["swaypplet", "keybinds", "reload"]), Command::Keybinds(Keybinds::Reload));
    assert_eq!(parse(&["swaypplet", "keybinds"]), Command::Keybinds(Keybinds::Toggle));
    assert_eq!(
        parse(&["swaypplet", "osd", "--output-volume", "raise"]),
        Command::Osd(vec!["--output-volume".into(), "raise".into()])
    );
    assert_eq!(parse(&["swaypplet", "else"]), Command::Activate);
}

#[test]
fn a_client_never_becomes_a_second_panel() {
    assert!(panel_listening(None));
    assert!(!panel_listening(Some(false)));
    assert!(defers_to_service(true, false));
    assert!(!defers_to_service(true, true));
    assert!(!defers_to_service(false, false));
}

#[test]
fn the_bar_can_be_left_to_another() {
    assert!(hosts_bar(None));
    assert!(hosts_bar(Some("0")));
    assert!(!hosts_bar(Some("1")));
}

#[test]
fn the_pid_file_lies_in_the_runtime_directory() {
    assert_eq!(pid_file_path(Some("/run/user/1000")), "/run/user/1000/swaypplet.pid");
    assert_eq!(pid_file_path(None), "/tmp/swaypplet.pid");
}

#[test]
fn sliders_follow_what_the_keys_changed() {
    assert_eq!(sliders_after(OsdCommand::OutputVolumeRaise), Sliders::Audio);
    assert_eq!(sliders_after(OsdCommand::InputVolumeMuteToggle), Sliders::Audio);
    assert_eq!(sliders_after(OsdCommand::BrightnessLower), Sliders::Brightness);
    assert_eq!(sliders_after(OsdCommand::Other), Sliders::Nothing);
}

#[test]
fn a_notification_belongs_to_the_task_of_its_workspace() {
    let list = vec![WorkspaceInfo {
        num: 5,
        name: "5:t2a".into(),
        output: "left".into(),
        focused: false,
        urgent: false,
        visible: true,
    }];
    assert_eq!(task_ref("5:t2a", &list), Some(TaskRef { task: 2, visible: true }));
    assert_eq!(task_ref("6:t2b", &list), Some(TaskRef { task: 2, visible: false }));
    assert_eq!(task_ref("17:wb", &list), None);
}
