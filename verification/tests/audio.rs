use swaypplet::audio::commands::{
    resolve_default_sink, resolve_default_source, Batch, Command, Target, Write,
};
use swaypplet::audio::pump::{wait, Pump, Query, Wait};
use swaypplet::audio::{
    clean_device_name, from_level, read, same_state, stream_name, to_level, Answers, AudioState, DeviceInfo,
    Stream, StreamInfo, VolumeState, VOLUME_NORMAL,
};

const SILENT: VolumeState = VolumeState {
    volume: 0,
    muted: false,
};

/// A level in the units of the server.
fn raw_of(level: f64) -> i64 {
    (level * f64::from(VOLUME_NORMAL)).round() as i64
}

fn level_of(raw: u32) -> f64 {
    f64::from(raw) / f64::from(VOLUME_NORMAL)
}

#[test]
fn a_level_survives_the_round_trip_to_the_server_and_back() {
    for channels in [1, 2, 6] {
        for level in [0.0, 0.25, 0.5, 1.0, 1.5] {
            let back = level_of(to_level(&from_level(raw_of(level), channels)));
            assert!(
                (back - level).abs() < 0.001,
                "{level} on {channels}ch came back as {back}"
            );
        }
    }
}

#[test]
fn a_write_carries_the_device_s_own_channel_count() {
    // A mismatch is not a rounding error: the server takes the volume
    // as written, and a stereo pair aimed at a 5.1 sink leaves four
    // channels untouched.
    for channels in [1, 2, 6, 8] {
        assert_eq!(from_level(raw_of(0.5), channels).len(), channels as usize);
    }
    assert_eq!(from_level(raw_of(0.5), 0).len(), 1, "a device has at least one");
}

#[test]
fn a_level_above_the_over_amplification_ceiling_is_clamped() {
    assert!((level_of(to_level(&from_level(raw_of(9.0), 2))) - 1.5).abs() < 0.001);
}

#[test]
fn controller_names_are_stripped_from_device_descriptions() {
    assert_eq!(
        clean_device_name("Lunar Lake-M HD Audio Controller Speaker"),
        "Speaker"
    );
    assert_eq!(clean_device_name("  Jabra Evolve 65  "), "Jabra Evolve 65");
}

#[test]
fn a_name_that_is_only_a_prefix_keeps_the_original() {
    // Stripping would leave nothing, and an unnamed row is worse than a
    // long one.
    assert_eq!(clean_device_name("Intel HD Audio "), "Intel HD Audio");
}

#[test]
fn the_microphone_indicator_follows_the_recorder_list() {
    let mut state = AudioState::default();
    assert!(!state.microphone_in_use());

    state.recorders.push(Stream {
        index: 1,
        channels: 1,
        name: "Google Chrome".into(),
        volume: SILENT,
        recording: true,
    });
    assert!(state.microphone_in_use());
    assert_eq!(state.recorder_names(), vec!["Google Chrome"]);
}

#[test]
fn one_application_recording_twice_is_named_once() {
    let stream = |name: &str, index| Stream {
        index,
        channels: 1,
        name: name.into(),
        volume: SILENT,
        recording: true,
    };
    let state = AudioState {
        recorders: vec![stream("Chrome", 1), stream("Chrome", 2), stream("Zoom", 3)],
        ..Default::default()
    };
    assert_eq!(state.recorder_names(), vec!["Chrome", "Zoom"]);
}

fn device(name: &str, description: Option<&str>, volumes: &[u32]) -> DeviceInfo {
    DeviceInfo {
        name: Some(name.into()),
        description: description.map(Into::into),
        index: 4,
        volumes: volumes.to_vec(),
        mute: false,
        monitor: false,
    }
}

fn stream(index: u32, application: Option<&str>, media_class: Option<&str>) -> StreamInfo {
    StreamInfo {
        index,
        application: application.map(Into::into),
        binary: Some("bin".into()),
        name: Some("own".into()),
        media_class: media_class.map(Into::into),
        volumes: vec![100, 300],
        mute: true,
    }
}

#[test]
fn the_answers_become_one_state() {
    let mut monitor = device("loop", None, &[1]);
    monitor.monitor = true;
    let answers = Answers {
        default_sink: "spk".into(),
        default_source: "mic".into(),
        sinks: vec![
            device("hdmi", None, &[10, 20]),
            device("spk", Some("Lunar Lake-M HD Audio Controller Speaker"), &[30, 40]),
        ],
        sources: vec![monitor, device("mic", None, &[5])],
        inputs: vec![stream(1, Some("mpv"), None)],
        outputs: vec![
            stream(2, None, Some("Stream/Input/Audio")),
            stream(3, Some("meter"), Some("Stream/Input/Audio/Monitor")),
        ],
    };
    let state = read(&answers);
    assert!(state.connected);
    assert_eq!(state.sink, Some(VolumeState { volume: 40, muted: false }));
    assert_eq!(state.source, Some(VolumeState { volume: 5, muted: false }));
    assert_eq!(state.sinks.len(), 2);
    assert_eq!(state.sinks[1].name, "Speaker");
    assert!(state.sinks[1].is_default && !state.sinks[0].is_default);
    assert_eq!(state.sinks[1].channels, 2);
    // An output looped back is no microphone.
    assert_eq!(state.sources.len(), 1);
    assert_eq!(state.streams[0].name, "mpv");
    assert_eq!(state.streams[0].volume, VolumeState { volume: 300, muted: true });
    assert_eq!(state.recorders.len(), 1);
    assert_eq!(state.recorder_names(), ["bin"]);
}

#[test]
fn a_stream_is_called_by_the_first_name_it_has() {
    let s = |t: &str| Some(t.to_string());
    assert_eq!(stream_name(&s("app"), &s("bin"), &s("own")), "app");
    assert_eq!(stream_name(&None, &s("bin"), &s("own")), "bin");
    assert_eq!(stream_name(&None, &None, &s("own")), "own");
    assert_eq!(stream_name(&None, &None, &None), "Unknown");
}

fn target(level: u32) -> Target {
    Target {
        index: 9,
        channels: 2,
        level,
        muted: false,
    }
}

#[test]
fn a_burst_is_one_write() {
    let step = VOLUME_NORMAL as i32 / 20;
    let ten: Vec<Command> = (0..10).map(|_| Command::AdjustSinkVolume(step)).collect();
    let batch = Batch::collect(&ten);
    assert!(batch.touches_sink() && !batch.touches_source() && !batch.is_empty());
    let last = AudioState::default();
    let level = 1000 + 10 * step as u32;
    assert_eq!(
        batch.apply(Some(target(1000)), None, &last),
        [Write::SinkVolume { index: 9, volumes: vec![level, level] }]
    );
}

#[test]
fn an_absolute_level_supersedes_what_came_before_it() {
    let batch = Batch::collect(&vec![
        Command::AdjustSinkVolume(5000),
        Command::SetSinkVolume(200),
        Command::AdjustSinkVolume(30),
    ]);
    assert_eq!(
        batch.apply(Some(target(1000)), None, &AudioState::default()),
        [Write::SinkVolume { index: 9, volumes: vec![230, 230] }]
    );
}

#[test]
fn toggles_cancel_in_pairs() {
    let twice = Batch::collect(&vec![Command::ToggleSinkMute, Command::ToggleSinkMute]);
    assert!(twice.is_empty());
    let once = Batch::collect(&vec![Command::ToggleSourceMute]);
    assert_eq!(
        once.apply(None, Some(target(0)), &AudioState::default()),
        [Write::SourceMute { index: 9, mute: true }]
    );
    // Without a device there is nothing to write to.
    assert!(once.apply(None, None, &AudioState::default()).is_empty());
}

#[test]
fn defaults_move_first_and_streams_keep_their_channels() {
    let batch = Batch::collect(&vec![
        Command::SetStreamVolume { index: 7, level: 1 },
        Command::SetDefaultSink("a".into()),
        Command::SetDefaultSink("b".into()),
        Command::SetDefaultSource("m".into()),
        Command::SetStreamVolume { index: 7, level: 50 },
    ]);
    assert_eq!(
        batch.default_writes(),
        [
            Write::DefaultSink("b".into()),
            Write::DefaultSource("m".into())
        ]
    );
    let mut last = AudioState::default();
    last.streams.push(Stream {
        index: 7,
        name: "mpv".into(),
        channels: 6,
        volume: SILENT,
        recording: false,
    });
    assert_eq!(
        batch.apply(None, None, &last),
        [Write::StreamVolume { index: 7, volumes: vec![50; 6] }]
    );
}

#[test]
fn a_default_that_is_not_there_is_an_error() {
    assert_eq!(resolve_default_sink("spk", Some(target(3))), Ok(target(3)));
    assert_eq!(
        resolve_default_sink("", None),
        Err("the server names no default sink".into())
    );
    assert_eq!(
        resolve_default_sink("spk", None),
        Err("no sink named spk".into())
    );
    assert_eq!(
        resolve_default_source("", Some(target(3))),
        Err("the server names no default source".into())
    );
    assert_eq!(
        resolve_default_source("mic", None),
        Err("no source named mic".into())
    );
}

#[test]
fn the_thread_blocks_only_with_nothing_pending() {
    let mut p = Pump::new();
    assert!(!p.may_block());
    assert!(p.drained(false));
    assert!(p.may_block());
    p.wake();
    assert!(!p.may_block());
    // A wake without a command reads nothing.
    assert!(!p.drained(false));
    p.wake();
    assert!(p.drained(true));
    p.mark();
    assert!(!p.may_block());
    assert!(p.drained(false));
}

#[test]
fn a_query_ends_fails_or_goes_on() {
    assert_eq!(wait(0, false, Query::Running), Wait::Turn);
    assert_eq!(wait(3, true, Query::Running), Wait::Finished);
    assert_eq!(wait(3, false, Query::Done), Wait::Finished);
    assert_eq!(wait(3, false, Query::Cancelled), Wait::Failed("query cancelled"));
    assert_eq!(wait(200, true, Query::Done), Wait::Failed("query never finished"));
}

#[test]
fn only_a_change_makes_another_state() {
    let mut a = AudioState::default();
    let b = AudioState::default();
    assert!(same_state(&a, &b));
    a.recorders.push(Stream {
        index: 1,
        channels: 1,
        name: "Zoom".into(),
        volume: SILENT,
        recording: true,
    });
    assert!(!same_state(&a, &b));
}
