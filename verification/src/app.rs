//! The shell process: who may be the panel, and what a command line asks of
//! it.

use vstd::prelude::*;
use vstd::string::*;
use crate::sway_ipc::WorkspaceInfo;
use crate::task_state::{task_named, task_of_name};
use crate::text::{join_path, path_below, push_text, same, text_of, texts};

verus! {

pub const APP_ID: &'static str = "dev.swaypplet.panel";

/// The unit that owns the panel process. Nothing else may start one.
pub const PANEL_UNIT: &'static str = "swaypplet.service";

/// Where the panel leaves its process number: in the runtime directory of the
/// user, so that no other user can forge it.
pub fn pid_file_path(runtime_dir: Option<&str>) -> (r: String)
    ensures
        r@ == path_below(
            match runtime_dir {
                Some(dir) => dir@,
                None => "/tmp"@,
            },
            "swaypplet.pid"@,
        ),
{
    match runtime_dir {
        Some(dir) => join_path(dir, "swaypplet.pid"),
        None => join_path("/tmp", "swaypplet.pid"),
    }
}

/// Whether a panel listens, given the bus's answer. Without one it counts as
/// listening: a client that cannot reach the bus must not start a second
/// panel.
pub fn panel_listening(owned: Option<bool>) -> (r: bool)
    ensures
        r == (owned != Some(false)),
{
    match owned {
        Some(owned) => owned,
        None => true,
    }
}

/// Whether this process asks for the panel's unit and leaves. A subcommand is
/// a request to the running shell, never a way to start one.
pub fn defers_to_service(has_subcommand: bool, listening: bool) -> (r: bool)
    ensures
        r == (has_subcommand && !listening),
{
    has_subcommand && !listening
}

/// Whether the panel hosts the bar; `SWAYPPLET_NO_BAR=1` leaves the strip to
/// another.
pub fn hosts_bar(no_bar: Option<&str>) -> (r: bool)
    ensures
        r == !(no_bar is Some && no_bar->0@ == "1"@),
{
    match no_bar {
        Some(v) => !same(v, "1"),
        None => true,
    }
}

/// What the keybinding sheet is asked. It is driven by press and release, so
/// the client says which edge it saw.
#[derive(Debug, Clone, Copy, PartialEq, Eq, Structural)]
pub enum Keybinds {
    Show,
    Hide,
    Reload,
    Toggle,
}

/// What a command line asks of the shell.
#[derive(Debug, PartialEq, Eq)]
pub enum Command {
    Launcher,
    Switcher,
    Screenshot(Option<String>),
    Keybinds(Keybinds),
    Osd(Vec<String>),
    Activate,
}

/// A [`Command`] as the contracts speak of it.
#[verifier::ext_equal]
pub enum CommandModel {
    Launcher,
    Switcher,
    Screenshot(Option<Seq<char>>),
    Keybinds(Keybinds),
    Osd(Seq<Seq<char>>),
    Activate,
}

impl View for Command {
    type V = CommandModel;

    open spec fn view(&self) -> CommandModel {
        match *self {
            Command::Launcher => CommandModel::Launcher,
            Command::Switcher => CommandModel::Switcher,
            Command::Screenshot(s) => CommandModel::Screenshot(text_of(s)),
            Command::Keybinds(k) => CommandModel::Keybinds(k),
            Command::Osd(args) => CommandModel::Osd(texts(args@)),
            Command::Activate => CommandModel::Activate,
        }
    }
}

/// What a word asks of the keybinding sheet.
pub open spec fn sheet(word: Option<Seq<char>>) -> Keybinds {
    match word {
        Some(w) => if w == "show"@ {
            Keybinds::Show
        } else if w == "hide"@ {
            Keybinds::Hide
        } else if w == "reload"@ {
            Keybinds::Reload
        } else {
            Keybinds::Toggle
        },
        None => Keybinds::Toggle,
    }
}

/// What arguments ask of the shell; the first is the program.
pub open spec fn asked(args: Seq<Seq<char>>) -> CommandModel {
    let word = if args.len() > 2 {
        Some(args[2])
    } else {
        None
    };
    if args.len() <= 1 {
        CommandModel::Activate
    } else if args[1] == "launcher"@ {
        CommandModel::Launcher
    } else if args[1] == "switcher"@ {
        CommandModel::Switcher
    } else if args[1] == "screenshot"@ {
        CommandModel::Screenshot(word)
    } else if args[1] == "keybinds"@ {
        CommandModel::Keybinds(sheet(word))
    } else if args[1] == "osd"@ {
        CommandModel::Osd(args.skip(2))
    } else {
        CommandModel::Activate
    }
}

/// Reads a command line; its first word is the program.
pub fn parse_command(args: &Vec<String>) -> (r: Command)
    ensures
        r@ == asked(texts(args@)),
{
    let ghost all = texts(args@);
    if args.len() <= 1 {
        return Command::Activate;
    }
    assert(all[1] == args@[1]@);
    let name = args[1].as_str();
    let mut word: Option<String> = None;
    if args.len() > 2 {
        assert(all[2] == args@[2]@);
        word = Some(args[2].clone());
    }
    if same(name, "launcher") {
        Command::Launcher
    } else if same(name, "switcher") {
        Command::Switcher
    } else if same(name, "screenshot") {
        Command::Screenshot(word)
    } else if same(name, "keybinds") {
        let k = match &word {
            Some(w) => if same(w.as_str(), "show") {
                Keybinds::Show
            } else if same(w.as_str(), "hide") {
                Keybinds::Hide
            } else if same(w.as_str(), "reload") {
                Keybinds::Reload
            } else {
                Keybinds::Toggle
            },
            None => Keybinds::Toggle,
        };
        Command::Keybinds(k)
    } else if same(name, "osd") {
        let mut rest: Vec<String> = Vec::new();
        let mut i: usize = 2;
        assert(texts(rest@) =~= all.subrange(2, 2));
        while i < args.len()
            invariant
                2 <= i <= args@.len(),
                all == texts(args@),
                texts(rest@) == all.subrange(2, i as int),
            decreases args@.len() - i,
        {
            push_text(&mut rest, args[i].clone());
            assert(all.subrange(2, i + 1) =~= all.subrange(2, i as int).push(all[i as int]));
            i += 1;
        }
        assert(texts(rest@) =~= all.skip(2));
        Command::Osd(rest)
    } else {
        Command::Activate
    }
}

/// What the on-screen display was asked.
#[derive(Debug, Clone, Copy, PartialEq, Eq, Structural)]
pub enum OsdCommand {
    OutputVolumeRaise,
    OutputVolumeLower,
    OutputVolumeMuteToggle,
    InputVolumeMuteToggle,
    BrightnessRaise,
    BrightnessLower,
    Other,
}

/// The sliders of the panel that follow.
#[derive(Debug, Clone, Copy, PartialEq, Eq, Structural)]
pub enum Sliders {
    Audio,
    Brightness,
    Nothing,
}

/// The sliders of the panel that follow a command of the on-screen display.
pub fn sliders_after(cmd: OsdCommand) -> (r: Sliders)
    ensures
        r == match cmd {
            OsdCommand::OutputVolumeRaise
            | OsdCommand::OutputVolumeLower
            | OsdCommand::OutputVolumeMuteToggle
            | OsdCommand::InputVolumeMuteToggle => Sliders::Audio,
            OsdCommand::BrightnessRaise | OsdCommand::BrightnessLower => Sliders::Brightness,
            OsdCommand::Other => Sliders::Nothing,
        },
{
    match cmd {
        OsdCommand::OutputVolumeRaise
        | OsdCommand::OutputVolumeLower
        | OsdCommand::OutputVolumeMuteToggle
        | OsdCommand::InputVolumeMuteToggle => Sliders::Audio,
        OsdCommand::BrightnessRaise | OsdCommand::BrightnessLower => Sliders::Brightness,
        OsdCommand::Other => Sliders::Nothing,
    }
}

/// The task a notification belongs to, and whether its workspace is on screen.
#[derive(Debug, Clone, Copy, PartialEq, Eq, Structural)]
pub struct TaskRef {
    pub task: u8,
    pub visible: bool,
}

/// Whether a workspace is on screen.
pub open spec fn on_screen(list: Seq<WorkspaceInfo>, name: Seq<char>) -> bool {
    exists|i: int| 0 <= i < list.len() && (#[trigger] list[i]).name@ == name && list[i].visible
}

/// The task of the workspace that a process runs on, if it is one of a task.
pub fn task_ref(workspace: &str, list: &Vec<WorkspaceInfo>) -> (r: Option<TaskRef>)
    ensures
        r == match task_named(workspace@) {
            Some(task) => Some(TaskRef { task, visible: on_screen(list@, workspace@) }),
            None => None,
        },
{
    let task: u8 = match task_of_name(workspace) {
        Some(task) => task,
        None => return None,
    };
    let mut i: usize = 0;
    while i < list.len()
        invariant
            i <= list@.len(),
            task_named(workspace@) == Some(task),
            forall|j: int|
                0 <= j < i ==> !((#[trigger] list@[j]).name@ == workspace@ && list@[j].visible),
        decreases list@.len() - i,
    {
        if list[i].visible && same(list[i].name.as_str(), workspace) {
            return Some(TaskRef { task, visible: true });
        }
        i += 1;
    }
    Some(TaskRef { task, visible: false })
}

/// What a command line asks for: its second word names it, and its third goes
/// with it. What is not known, and nothing at all, bring up the panel.
pub proof fn law_the_second_word_names_the_command(args: Seq<Seq<char>>)
    ensures
        args.len() <= 1 ==> asked(args) == CommandModel::Activate,
        args.len() > 1 && args[1] == "launcher"@ ==> asked(args) == CommandModel::Launcher,
        args.len() > 1 && args[1] == "switcher"@ ==> asked(args) == CommandModel::Switcher,
        args.len() == 2 && args[1] == "screenshot"@ ==> asked(args) == CommandModel::Screenshot(
            None,
        ),
        args.len() > 2 && args[1] == "screenshot"@ ==> asked(args) == CommandModel::Screenshot(
            Some(args[2]),
        ),
        args.len() > 1 && args[1] == "osd"@ ==> asked(args) == CommandModel::Osd(args.skip(2)),
        args.len() == 2 && args[1] == "keybinds"@ ==> asked(args) == CommandModel::Keybinds(
            Keybinds::Toggle,
        ),
        args.len() > 2 && args[1] == "keybinds"@ ==> asked(args) == CommandModel::Keybinds(
            if args[2] == "show"@ {
                Keybinds::Show
            } else if args[2] == "hide"@ {
                Keybinds::Hide
            } else if args[2] == "reload"@ {
                Keybinds::Reload
            } else {
                Keybinds::Toggle
            },
        ),
        args.len() > 1 && args[1] != "launcher"@ && args[1] != "switcher"@ && args[1]
            != "screenshot"@ && args[1] != "osd"@ && args[1] != "keybinds"@ ==> asked(args)
            == CommandModel::Activate,
{
    reveal_strlit("launcher");
    reveal_strlit("switcher");
    reveal_strlit("screenshot");
    reveal_strlit("osd");
    reveal_strlit("keybinds");
    reveal_strlit("show");
    reveal_strlit("hide");
    reveal_strlit("reload");
    assert("launcher"@[0] == 'l' && "switcher"@[0] == 's' && "keybinds"@[0] == 'k');
    assert("screenshot"@.len() == 10 && "osd"@.len() == 3 && "launcher"@.len() == 8);
    assert("switcher"@.len() == 8 && "keybinds"@.len() == 8);
    assert("show"@[0] == 's' && "hide"@[0] == 'h' && "reload"@.len() == 6);
}

/// A workspace is on screen exactly where one of its name is listed as visible.
pub proof fn law_what_is_on_screen(list: Seq<WorkspaceInfo>, name: Seq<char>, i: int)
    ensures
        0 <= i < list.len() && list[i].name@ == name && list[i].visible ==> on_screen(list, name),
        on_screen(list, name) ==> exists|k: int|
            0 <= k < list.len() && (#[trigger] list[k]).visible && list[k].name@ == name,
{
    if on_screen(list, name) {
        let k = choose|k: int|
            0 <= k < list.len() && (#[trigger] list[k]).name@ == name && list[k].visible;
        assert(list[k].visible);
    }
}

} // verus!
