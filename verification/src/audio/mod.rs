//! Audio: what the sound server says, and what is asked of it.
//!
//! A loudness is a whole number in the server's own unit, of which
//! [`VOLUME_NORMAL`] is full volume.

use vstd::prelude::*;
use vstd::string::*;
use crate::order::{
    alphabetic, is_sorted, lemma_alphabetic_antisymmetric, lemma_sorted_contains,
    lemma_sorted_exists, sort, sorted, Ranked,
};
use crate::text::{
    chars_of, contains, matches_at, occurs, occurs_at, same, string_of, text_of, texts,
    trim, trim_chars, trimmed,
};

pub mod commands;
pub mod pump;

verus! {

/// Full volume.
pub const VOLUME_NORMAL: u32 = 65_536;

/// The loudest a device may be set to. Above full volume is software
/// amplification.
pub const VOLUME_CEILING: u32 = 98_304;

/// The most channels a device can have.
pub const CHANNELS_MAX: u8 = 32;

// ── Names ──────────────────────────────────────────────────────────────

/// What audio controllers call themselves, in front of the name of a device.
pub open spec fn controller_prefixes() -> Seq<&'static str> {
    seq![
        "Alder Lake PCH-P High Definition Audio ",
        "Alder Lake-S PCH High Definition Audio ",
        "Alderlake-S HD Audio ",
        "Broadwell-U Audio Controller ",
        "Cannon Lake PCH cAVS ",
        "Comet Lake PCH cAVS ",
        "Ice Lake-LP Smart Sound Technology Audio Controller ",
        "Jasper Lake HD Audio ",
        "Lunar Lake-M HD Audio Controller ",
        "Meteor Lake-P HD Audio Controller ",
        "Raptor Lake-P/U/H cAVS ",
        "Skylake Audio Controller ",
        "Tiger Lake-LP Smart Sound Technology Audio Controller ",
        "Tiger Lake-H HD Audio Controller ",
        "Wildcat Point-LP High Definition Audio Controller ",
        "Intel High Definition Audio ",
        "Intel HD Audio ",
        "AMD Rembrandt Radeon High Definition Audio ",
        "AMD Renoir Radeon High Definition Audio ",
        "AMD Navi 21/23 HDMI/DP Audio ",
        "AMD Navi 31 HDMI/DP Audio ",
        "Raven/Raven2/Fenghuang HDMI/DP Audio ",
        "Starship/Matisse HD Audio Controller ",
        "AMD High Definition Audio ",
        "AMD HD Audio ",
        "NVIDIA High Definition Audio ",
        "NVIDIA HD Audio ",
    ]
}

fn prefixes() -> (r: Vec<&'static str>)
    ensures
        r@ == controller_prefixes(),
{
    let r: Vec<&'static str> = vec![
        "Alder Lake PCH-P High Definition Audio ",
        "Alder Lake-S PCH High Definition Audio ",
        "Alderlake-S HD Audio ",
        "Broadwell-U Audio Controller ",
        "Cannon Lake PCH cAVS ",
        "Comet Lake PCH cAVS ",
        "Ice Lake-LP Smart Sound Technology Audio Controller ",
        "Jasper Lake HD Audio ",
        "Lunar Lake-M HD Audio Controller ",
        "Meteor Lake-P HD Audio Controller ",
        "Raptor Lake-P/U/H cAVS ",
        "Skylake Audio Controller ",
        "Tiger Lake-LP Smart Sound Technology Audio Controller ",
        "Tiger Lake-H HD Audio Controller ",
        "Wildcat Point-LP High Definition Audio Controller ",
        "Intel High Definition Audio ",
        "Intel HD Audio ",
        "AMD Rembrandt Radeon High Definition Audio ",
        "AMD Renoir Radeon High Definition Audio ",
        "AMD Navi 21/23 HDMI/DP Audio ",
        "AMD Navi 31 HDMI/DP Audio ",
        "Raven/Raven2/Fenghuang HDMI/DP Audio ",
        "Starship/Matisse HD Audio Controller ",
        "AMD High Definition Audio ",
        "AMD HD Audio ",
        "NVIDIA High Definition Audio ",
        "NVIDIA HD Audio ",
    ];
    assert(r@ =~= controller_prefixes());
    r
}

/// A name behind a prefix, without white space at either end.
pub open spec fn behind(name: Seq<char>, prefix: Seq<char>) -> Seq<char> {
    trimmed(name.skip(prefix.len() as int))
}

/// A name behind the first of the prefixes that leaves something of it.
pub open spec fn stripped(name: Seq<char>, prefixes: Seq<&'static str>) -> Seq<char>
    decreases prefixes.len(),
{
    if prefixes.len() == 0 {
        trimmed(name)
    } else if occurs_at(name, prefixes[0]@, 0) && behind(name, prefixes[0]@).len() > 0 {
        behind(name, prefixes[0]@)
    } else {
        stripped(name, prefixes.drop_first())
    }
}

/// Strips the audio controller's model name off a device description. Where
/// that would leave nothing the name stays.
pub fn clean_device_name(name: &str) -> (r: String)
    ensures
        r@ == stripped(name@, controller_prefixes()),
{
    let list = prefixes();
    let v = chars_of(name);
    let mut i: usize = 0;
    assert(list@.skip(0) =~= list@);
    while i < list.len()
        invariant
            i <= list@.len(),
            v@ == name@,
            stripped(name@, list@) == stripped(name@, list@.skip(i as int)),
            list@ == controller_prefixes(),
        decreases list@.len() - i,
    {
        assert(list@.skip(i as int).drop_first() =~= list@.skip(i + 1));
        let p = chars_of(list[i]);
        if matches_at(v.as_slice(), p.as_slice(), 0) {
            let rest = after(&v, p.len());
            let cleaned = trim_chars(rest.as_slice());
            if cleaned.len() > 0 {
                return string_of(cleaned.as_slice());
            }
        }
        i += 1;
    }
    trim(name)
}

fn after(v: &Vec<char>, n: usize) -> (r: Vec<char>)
    requires
        n <= v@.len(),
    ensures
        r@ == v@.skip(n as int),
{
    let mut r: Vec<char> = Vec::new();
    let mut i: usize = n;
    while i < v.len()
        invariant
            n <= i <= v@.len(),
            r@ == v@.subrange(n as int, i as int),
        decreases v@.len() - i,
    {
        r.push(v[i]);
        assert(v@.subrange(n as int, i + 1) =~= v@.subrange(n as int, i as int).push(v@[i as int]));
        i += 1;
    }
    assert(r@ =~= v@.skip(n as int));
    r
}

/// The most human name a stream has: what its application calls itself, its
/// program, or its own name; what it plays would change with every track.
pub open spec fn stream_named(
    application: Option<Seq<char>>,
    binary: Option<Seq<char>>,
    own: Option<Seq<char>>,
) -> Seq<char> {
    if application is Some {
        application->0
    } else if binary is Some {
        binary->0
    } else if own is Some {
        own->0
    } else {
        "Unknown"@
    }
}

/// The most human name a stream has.
pub fn stream_name(
    application: &Option<String>,
    binary: &Option<String>,
    own: &Option<String>,
) -> (r: String)
    ensures
        r@ == stream_named(text_of(*application), text_of(*binary), text_of(*own)),
{
    match (application, binary, own) {
        (Some(a), _, _) => a.clone(),
        (None, Some(b), _) => b.clone(),
        (None, None, Some(o)) => o.clone(),
        (None, None, None) => "Unknown".to_owned(),
    }
}

// ── Loudness ───────────────────────────────────────────────────────────

/// The loudest of the channels.
pub open spec fn loudest(volumes: Seq<u32>) -> u32
    decreases volumes.len(),
{
    if volumes.len() == 0 {
        0
    } else if volumes.last() > loudest(volumes.drop_last()) {
        volumes.last()
    } else {
        loudest(volumes.drop_last())
    }
}

/// The volumes of the channels as one: the loudest, so that a balance set
/// off-centre does not read as quieter than it is.
pub fn to_level(volumes: &Vec<u32>) -> (r: u32)
    ensures
        r == loudest(volumes@),
{
    let mut max: u32 = 0;
    let mut i: usize = 0;
    while i < volumes.len()
        invariant
            i <= volumes@.len(),
            max == loudest(volumes@.take(i as int)),
        decreases volumes@.len() - i,
    {
        assert(volumes@.take(i + 1).drop_last() =~= volumes@.take(i as int));
        if volumes[i] > max {
            max = volumes[i];
        }
        i += 1;
    }
    assert(volumes@.take(volumes@.len() as int) =~= volumes@);
    max
}

/// A loudness within what a device may be set to.
pub open spec fn limited(level: int) -> u32 {
    if level < 0 {
        0
    } else if level > VOLUME_CEILING {
        VOLUME_CEILING
    } else {
        level as u32
    }
}

/// How many channels a write carries: those of its device, at least one.
pub open spec fn carried(channels: u8) -> nat {
    if channels < 1 {
        1
    } else if channels > CHANNELS_MAX {
        CHANNELS_MAX as nat
    } else {
        channels as nat
    }
}

/// The same volume on `n` channels.
pub open spec fn on_all(n: nat, v: u32) -> Seq<u32> {
    Seq::new(n, |i: int| v)
}

pub(crate) fn limit(level: i128) -> (r: u32)
    ensures
        r == limited(level as int),
{
    if level < 0 {
        0
    } else if level > VOLUME_CEILING as i128 {
        VOLUME_CEILING
    } else {
        level as u32
    }
}

/// One loudness as the volumes of all the channels of a device. A volume for
/// two channels is not the volume that was asked for on a device with one or
/// six.
pub fn from_level(level: i64, channels: u8) -> (r: Vec<u32>)
    ensures
        r@ == on_all(carried(channels), limited(level as int)),
{
    let n: u8 = if channels < 1 {
        1
    } else if channels > CHANNELS_MAX {
        CHANNELS_MAX
    } else {
        channels
    };
    let raw: u32 = limit(level as i128);
    let mut r: Vec<u32> = Vec::new();
    while r.len() < n as usize
        invariant
            r@.len() <= n,
            n == carried(channels),
            raw == limited(level as int),
            forall|j: int| 0 <= j < r@.len() ==> r@[j] == raw,
        decreases n - r@.len(),
    {
        r.push(raw);
    }
    assert(r@ =~= on_all(carried(channels), limited(level as int)));
    r
}

proof fn lemma_loudest_of_equal(n: nat, v: u32)
    requires
        n > 0,
    ensures
        loudest(on_all(n, v)) == v,
    decreases n,
{
    let s = on_all(n, v);
    assert(s.drop_last() =~= on_all((n - 1) as nat, v));
    assert(s.last() == v);
    if n > 1 {
        lemma_loudest_of_equal((n - 1) as nat, v);
    } else {
        assert(s.drop_last().len() == 0);
        assert(loudest(s.drop_last()) == 0);
    }
}

/// A loudness that a device may be set to survives the way to the server and
/// back, on any number of channels; a louder one comes back as the ceiling.
pub proof fn law_levels_survive_the_round_trip(level: int, channels: u8)
    ensures
        loudest(on_all(carried(channels), limited(level))) == limited(level),
        0 <= level <= VOLUME_CEILING ==> limited(level) == level,
        level > VOLUME_CEILING ==> limited(level) == VOLUME_CEILING,
{
    lemma_loudest_of_equal(carried(channels), limited(level));
}

// ── State ──────────────────────────────────────────────────────────────

/// How loud a device or a stream is.
#[derive(Debug, Clone, Copy, PartialEq, Eq, Structural)]
pub struct VolumeState {
    pub volume: u32,
    pub muted: bool,
}

/// A sink or a source.
#[derive(Debug, PartialEq, Eq)]
pub struct Device {
    /// What selecting it as the default takes; stable across a reconnect.
    pub id: String,
    /// What writing to it takes.
    pub index: u32,
    pub name: String,
    pub is_default: bool,
    /// A write carries exactly this many.
    pub channels: u8,
    pub volume: VolumeState,
}

/// One application's audio, playing or recording.
#[derive(Debug, PartialEq, Eq)]
pub struct Stream {
    pub index: u32,
    pub name: String,
    pub channels: u8,
    pub volume: VolumeState,
    /// It reads a microphone.
    pub recording: bool,
}

/// Everything the panel and the bar read.
#[derive(Debug, PartialEq, Eq)]
pub struct AudioState {
    pub sink: Option<VolumeState>,
    pub source: Option<VolumeState>,
    pub sinks: Vec<Device>,
    pub sources: Vec<Device>,
    /// What plays.
    pub streams: Vec<Stream>,
    /// What records.
    pub recorders: Vec<Stream>,
    /// The server has answered.
    pub connected: bool,
}

/// A [`Device`] as the contracts speak of it.
#[verifier::ext_equal]
pub struct DeviceModel {
    pub id: Seq<char>,
    pub index: u32,
    pub name: Seq<char>,
    pub is_default: bool,
    pub channels: u8,
    pub volume: VolumeState,
}

/// A [`Stream`] as the contracts speak of it.
#[verifier::ext_equal]
pub struct StreamModel {
    pub index: u32,
    pub name: Seq<char>,
    pub channels: u8,
    pub volume: VolumeState,
    pub recording: bool,
}

/// An [`AudioState`] as the contracts speak of it.
#[verifier::ext_equal]
pub struct AudioModel {
    pub sink: Option<VolumeState>,
    pub source: Option<VolumeState>,
    pub sinks: Seq<DeviceModel>,
    pub sources: Seq<DeviceModel>,
    pub streams: Seq<StreamModel>,
    pub recorders: Seq<StreamModel>,
    pub connected: bool,
}

impl View for Device {
    type V = DeviceModel;

    open spec fn view(&self) -> DeviceModel {
        DeviceModel {
            id: self.id@,
            index: self.index,
            name: self.name@,
            is_default: self.is_default,
            channels: self.channels,
            volume: self.volume,
        }
    }
}

impl View for Stream {
    type V = StreamModel;

    open spec fn view(&self) -> StreamModel {
        StreamModel {
            index: self.index,
            name: self.name@,
            channels: self.channels,
            volume: self.volume,
            recording: self.recording,
        }
    }
}

/// Devices as the contracts speak of them.
pub open spec fn devices(v: Seq<Device>) -> Seq<DeviceModel> {
    v.map_values(|d: Device| d@)
}

/// Streams as the contracts speak of them.
pub open spec fn streams(v: Seq<Stream>) -> Seq<StreamModel> {
    v.map_values(|s: Stream| s@)
}

impl View for AudioState {
    type V = AudioModel;

    open spec fn view(&self) -> AudioModel {
        AudioModel {
            sink: self.sink,
            source: self.source,
            sinks: devices(self.sinks@),
            sources: devices(self.sources@),
            streams: streams(self.streams@),
            recorders: streams(self.recorders@),
            connected: self.connected,
        }
    }
}

impl Default for AudioState {
    /// Before the server has answered.
    fn default() -> (r: AudioState)
        ensures
            r@ == (AudioModel {
                sink: None,
                source: None,
                sinks: Seq::empty(),
                sources: Seq::empty(),
                streams: Seq::empty(),
                recorders: Seq::empty(),
                connected: false,
            }),
    {
        let r = AudioState {
            sink: None,
            source: None,
            sinks: Vec::new(),
            sources: Vec::new(),
            streams: Vec::new(),
            recorders: Vec::new(),
            connected: false,
        };
        assert(r@ =~= (AudioModel {
            sink: None,
            source: None,
            sinks: Seq::empty(),
            sources: Seq::empty(),
            streams: Seq::empty(),
            recorders: Seq::empty(),
            connected: false,
        }));
        r
    }
}

/// A list without what repeats the one before it.
pub open spec fn without_repeats(list: Seq<Seq<char>>) -> Seq<Seq<char>>
    decreases list.len(),
{
    if list.len() <= 1 {
        list
    } else {
        let before = without_repeats(list.drop_last());
        if list[list.len() - 2] == list.last() {
            before
        } else {
            before.push(list.last())
        }
    }
}

/// The names of streams.
pub open spec fn names_of(v: Seq<Stream>) -> Seq<String> {
    v.map_values(|s: Stream| s.name)
}

impl AudioState {
    /// Whether something records right now.
    pub fn microphone_in_use(&self) -> (r: bool)
        ensures
            r == (self.recorders@.len() > 0),
    {
        self.recorders.len() > 0
    }

    /// What records, alphabetically, each name once.
    pub fn recorder_names(&self) -> (r: Vec<String>)
        ensures
            texts(r@) == without_repeats(texts(sorted(names_of(self.recorders@)))),
    {
        let mut names: Vec<String> = Vec::new();
        let mut i: usize = 0;
        assert(names@ =~= names_of(self.recorders@).take(0));
        while i < self.recorders.len()
            invariant
                i <= self.recorders@.len(),
                names@ == names_of(self.recorders@).take(i as int),
            decreases self.recorders@.len() - i,
        {
            names.push(self.recorders[i].name.clone());
            assert(names@ =~= names_of(self.recorders@).take(i + 1));
            i += 1;
        }
        assert(names@ =~= names_of(self.recorders@));
        let all = sort(names);
        let mut r: Vec<String> = Vec::new();
        let mut k: usize = 0;
        assert(texts(r@) =~= without_repeats(texts(all@).take(0)));
        while k < all.len()
            invariant
                k <= all@.len(),
                texts(r@) == without_repeats(texts(all@).take(k as int)),
            decreases all@.len() - k,
        {
            let ghost next = texts(all@).take(k + 1);
            assert(next.drop_last() =~= texts(all@).take(k as int));
            assert(next.last() == all@[k as int]@);
            if k > 0 {
                assert(next[next.len() - 2] == all@[k - 1]@);
            }
            let repeats = k > 0 && same(all[k - 1].as_str(), all[k].as_str());
            if !repeats {
                crate::text::push_text(&mut r, all[k].clone());
            }
            assert(texts(r@) =~= without_repeats(next));
            k += 1;
        }
        assert(texts(all@).take(all@.len() as int) =~= texts(all@));
        r
    }
}

proof fn lemma_without_repeats(list: Seq<Seq<char>>, x: Seq<char>)
    requires
        forall|i: int, j: int|
            #![trigger list[i], list[j]]
            0 <= i < j < list.len() ==> alphabetic(list[i], list[j]),
    ensures
        without_repeats(list).contains(x) <==> list.contains(x),
        without_repeats(list).no_duplicates(),
        list.len() > 0 ==> without_repeats(list).len() > 0 && without_repeats(list).last()
            == list.last(),
    decreases list.len(),
{
    if list.len() == 1 {
        assert(list.no_duplicates());
    }
    if list.len() > 1 {
        let head = list.drop_last();
        let before = without_repeats(head);
        let y = list.last();
        assert(forall|i: int| 0 <= i < head.len() ==> #[trigger] head[i] == list[i]);
        lemma_without_repeats(head, x);
        lemma_without_repeats(head, y);
        assert(list[list.len() - 1] == y);
        if list.contains(x) && x != y {
            let i = choose|i: int| 0 <= i < list.len() && list[i] == x;
            assert(head[i] == x);
        }
        if head.contains(x) {
            let i = choose|i: int| 0 <= i < head.len() && head[i] == x;
            assert(list[i] == x);
        }
        if list[list.len() - 2] != y {
            if head.contains(y) {
                let i = choose|i: int| 0 <= i < head.len() && head[i] == y;
                assert(list[i] == y);
                let n = list.len() - 2;
                if i < n {
                    assert(alphabetic(list[i], list[n]));
                    assert(alphabetic(list[n], list[list.len() - 1]));
                    lemma_alphabetic_antisymmetric(y, list[n]);
                }
            }
            assert(!before.contains(y));
            assert(before.push(y)[before.len() as int] == y);
            if before.contains(x) {
                let i = choose|i: int| 0 <= i < before.len() && before[i] == x;
                assert(before.push(y)[i] == x);
            }
        } else {
            assert(head.last() == y);
            assert(head.contains(y)) by {
                assert(head[head.len() - 1] == y);
            }
        }
    }
}

/// Every application that records is named, and none is named twice.
pub proof fn law_each_recorder_is_named_once(recorders: Seq<Stream>, i: int)
    requires
        0 <= i < recorders.len(),
    ensures
        without_repeats(texts(sorted(names_of(recorders)))).contains(recorders[i].name@),
        without_repeats(texts(sorted(names_of(recorders)))).no_duplicates(),
{
    let names = names_of(recorders);
    let all = sorted(names);
    lemma_sorted_exists(names);
    lemma_sorted_contains(all, names, recorders[i].name);
    assert(names[i] == recorders[i].name);
    let k = choose|k: int| 0 <= k < all.len() && all[k] == recorders[i].name;
    assert(texts(all)[k] == recorders[i].name@);
    assert forall|p: int, q: int|
        #![trigger texts(all)[p], texts(all)[q]]
        0 <= p < q < texts(all).len() implies alphabetic(texts(all)[p], texts(all)[q]) by {
        assert(is_sorted(all));
        assert(all[p].leq(&all[q]));
    }
    lemma_without_repeats(texts(all), recorders[i].name@);
}

// ── Reading ────────────────────────────────────────────────────────────

/// A sink or source as the server describes it.
#[derive(Debug, PartialEq, Eq)]
pub struct DeviceInfo {
    pub name: Option<String>,
    pub description: Option<String>,
    pub index: u32,
    pub volumes: Vec<u32>,
    pub mute: bool,
    /// It is an output looped back, not a microphone.
    pub monitor: bool,
}

/// A stream as the server describes it.
#[derive(Debug, PartialEq, Eq)]
pub struct StreamInfo {
    pub index: u32,
    pub application: Option<String>,
    pub binary: Option<String>,
    pub name: Option<String>,
    pub media_class: Option<String>,
    pub volumes: Vec<u32>,
    pub mute: bool,
}

/// What the server answers.
#[derive(Debug, PartialEq, Eq)]
pub struct Answers {
    pub default_sink: String,
    pub default_source: String,
    pub sinks: Vec<DeviceInfo>,
    pub sources: Vec<DeviceInfo>,
    pub inputs: Vec<StreamInfo>,
    pub outputs: Vec<StreamInfo>,
}

/// The id of a device: its name, or nothing.
pub open spec fn id_of(info: DeviceInfo) -> Seq<char> {
    match info.name {
        Some(n) => n@,
        None => Seq::empty(),
    }
}

/// How loud something is.
pub open spec fn volume_of(volumes: Seq<u32>, mute: bool) -> VolumeState {
    VolumeState { volume: loudest(volumes), muted: mute }
}

/// A device as the server describes it.
pub open spec fn device_of(info: DeviceInfo, default: Seq<char>) -> DeviceModel {
    DeviceModel {
        id: id_of(info),
        index: info.index,
        name: stripped(
            match info.description {
                Some(d) => d@,
                None => id_of(info),
            },
            controller_prefixes(),
        ),
        is_default: id_of(info) == default,
        channels: info.volumes@.len() as u8,
        volume: volume_of(info.volumes@, info.mute),
    }
}

/// A stream as the server describes it.
pub open spec fn stream_of(info: StreamInfo, recording: bool) -> StreamModel {
    StreamModel {
        index: info.index,
        name: stream_named(text_of(info.application), text_of(info.binary), text_of(info.name)),
        channels: info.volumes@.len() as u8,
        volume: volume_of(info.volumes@, info.mute),
        recording,
    }
}

/// Devices that are not an output looped back.
pub open spec fn no_monitor() -> spec_fn(DeviceInfo) -> bool {
    |i: DeviceInfo| !i.monitor
}

/// Streams that listen to a room, not to the server's own output.
pub open spec fn listens() -> spec_fn(StreamInfo) -> bool {
    |i: StreamInfo| !(i.media_class is Some && occurs(i.media_class->0@, "Monitor"@))
}

/// All devices of a list.
pub open spec fn devices_of(list: Seq<DeviceInfo>, default: Seq<char>) -> Seq<DeviceModel> {
    list.map_values(|i: DeviceInfo| device_of(i, default))
}

/// All streams of a list.
pub open spec fn streams_of(list: Seq<StreamInfo>, recording: bool) -> Seq<StreamModel> {
    list.map_values(|i: StreamInfo| stream_of(i, recording))
}

/// The volume of the first default device.
pub open spec fn default_volume(list: Seq<DeviceModel>) -> Option<VolumeState>
    decreases list.len(),
{
    if list.len() == 0 {
        None
    } else if list[0].is_default {
        Some(list[0].volume)
    } else {
        default_volume(list.drop_first())
    }
}

/// The answers as one state.
pub open spec fn heard(a: Answers) -> AudioModel {
    let sinks = devices_of(a.sinks@, a.default_sink@);
    let sources = devices_of(a.sources@.filter(no_monitor()), a.default_source@);
    AudioModel {
        sink: default_volume(sinks),
        source: default_volume(sources),
        sinks,
        sources,
        streams: streams_of(a.inputs@, false),
        recorders: streams_of(a.outputs@.filter(listens()), true),
        connected: true,
    }
}

/// The server sends at most this many channels for each volume.
pub open spec fn countable(a: Answers) -> bool {
    &&& forall|i: int| 0 <= i < a.sinks@.len() ==> (#[trigger] a.sinks@[i]).volumes@.len() <= 255
    &&& forall|i: int|
        0 <= i < a.sources@.len() ==> (#[trigger] a.sources@[i]).volumes@.len() <= 255
    &&& forall|i: int| 0 <= i < a.inputs@.len() ==> (#[trigger] a.inputs@[i]).volumes@.len() <= 255
    &&& forall|i: int|
        0 <= i < a.outputs@.len() ==> (#[trigger] a.outputs@[i]).volumes@.len() <= 255
}

fn device(info: &DeviceInfo, default: &str) -> (r: Device)
    requires
        info.volumes@.len() <= 255,
    ensures
        r@ == device_of(*info, default@),
{
    let id = match &info.name {
        Some(n) => n.clone(),
        None => String::new(),
    };
    assert(id@ =~= id_of(*info));
    let name = match &info.description {
        Some(d) => clean_device_name(d.as_str()),
        None => clean_device_name(id.as_str()),
    };
    let is_default = same(id.as_str(), default);
    Device {
        is_default,
        index: info.index,
        channels: info.volumes.len() as u8,
        name,
        id,
        volume: VolumeState { volume: to_level(&info.volumes), muted: info.mute },
    }
}

fn stream(info: &StreamInfo, recording: bool) -> (r: Stream)
    requires
        info.volumes@.len() <= 255,
    ensures
        r@ == stream_of(*info, recording),
{
    Stream {
        index: info.index,
        channels: info.volumes.len() as u8,
        name: stream_name(&info.application, &info.binary, &info.name),
        volume: VolumeState { volume: to_level(&info.volumes), muted: info.mute },
        recording,
    }
}

fn push_device(v: &mut Vec<Device>, d: Device)
    ensures
        devices(final(v)@) == devices(old(v)@).push(d@),
{
    v.push(d);
    assert(devices(v@) =~= devices(old(v)@).push(d@));
}

fn push_stream(v: &mut Vec<Stream>, s: Stream)
    ensures
        streams(final(v)@) == streams(old(v)@).push(s@),
{
    v.push(s);
    assert(streams(v@) =~= streams(old(v)@).push(s@));
}

fn read_sinks(list: &Vec<DeviceInfo>, default: &str) -> (r: Vec<Device>)
    requires
        forall|i: int| 0 <= i < list@.len() ==> (#[trigger] list@[i]).volumes@.len() <= 255,
    ensures
        devices(r@) == devices_of(list@, default@),
{
    let mut r: Vec<Device> = Vec::new();
    let mut i: usize = 0;
    assert(devices(r@) =~= devices_of(list@, default@).take(0));
    while i < list.len()
        invariant
            i <= list@.len(),
            forall|j: int| 0 <= j < list@.len() ==> (#[trigger] list@[j]).volumes@.len() <= 255,
            devices(r@) == devices_of(list@, default@).take(i as int),
        decreases list@.len() - i,
    {
        push_device(&mut r, device(&list[i], default));
        assert(devices(r@) =~= devices_of(list@, default@).take(i + 1));
        i += 1;
    }
    assert(devices(r@) =~= devices_of(list@, default@));
    r
}

fn read_sources(list: &Vec<DeviceInfo>, default: &str) -> (r: Vec<Device>)
    requires
        forall|i: int| 0 <= i < list@.len() ==> (#[trigger] list@[i]).volumes@.len() <= 255,
    ensures
        devices(r@) == devices_of(list@.filter(no_monitor()), default@),
{
    let mut r: Vec<Device> = Vec::new();
    let mut i: usize = 0;
    proof {
        reveal(Seq::filter);
        assert(devices(r@) =~= devices_of(list@.take(0).filter(no_monitor()), default@));
    }
    while i < list.len()
        invariant
            i <= list@.len(),
            forall|j: int| 0 <= j < list@.len() ==> (#[trigger] list@[j]).volumes@.len() <= 255,
            devices(r@) == devices_of(list@.take(i as int).filter(no_monitor()), default@),
        decreases list@.len() - i,
    {
        let ghost kept = list@.take(i as int).filter(no_monitor());
        assert(list@.take(i + 1).drop_last() =~= list@.take(i as int));
        assert(list@.take(i + 1).last() == list@[i as int]);
        proof {
            reveal(Seq::filter);
        }
        if !list[i].monitor {
            push_device(&mut r, device(&list[i], default));
            assert(devices_of(kept.push(list@[i as int]), default@) =~= devices_of(
                kept,
                default@,
            ).push(device_of(list@[i as int], default@)));
        }
        i += 1;
    }
    assert(list@.take(list@.len() as int) =~= list@);
    r
}

fn read_inputs(list: &Vec<StreamInfo>) -> (r: Vec<Stream>)
    requires
        forall|i: int| 0 <= i < list@.len() ==> (#[trigger] list@[i]).volumes@.len() <= 255,
    ensures
        streams(r@) == streams_of(list@, false),
{
    let mut r: Vec<Stream> = Vec::new();
    let mut i: usize = 0;
    assert(streams(r@) =~= streams_of(list@, false).take(0));
    while i < list.len()
        invariant
            i <= list@.len(),
            forall|j: int| 0 <= j < list@.len() ==> (#[trigger] list@[j]).volumes@.len() <= 255,
            streams(r@) == streams_of(list@, false).take(i as int),
        decreases list@.len() - i,
    {
        push_stream(&mut r, stream(&list[i], false));
        assert(streams(r@) =~= streams_of(list@, false).take(i + 1));
        i += 1;
    }
    assert(streams(r@) =~= streams_of(list@, false));
    r
}

fn read_outputs(list: &Vec<StreamInfo>) -> (r: Vec<Stream>)
    requires
        forall|i: int| 0 <= i < list@.len() ==> (#[trigger] list@[i]).volumes@.len() <= 255,
    ensures
        streams(r@) == streams_of(list@.filter(listens()), true),
{
    let mut r: Vec<Stream> = Vec::new();
    let mut i: usize = 0;
    proof {
        reveal(Seq::filter);
        assert(streams(r@) =~= streams_of(list@.take(0).filter(listens()), true));
    }
    while i < list.len()
        invariant
            i <= list@.len(),
            forall|j: int| 0 <= j < list@.len() ==> (#[trigger] list@[j]).volumes@.len() <= 255,
            streams(r@) == streams_of(list@.take(i as int).filter(listens()), true),
        decreases list@.len() - i,
    {
        let ghost kept = list@.take(i as int).filter(listens());
        assert(list@.take(i + 1).drop_last() =~= list@.take(i as int));
        assert(list@.take(i + 1).last() == list@[i as int]);
        proof {
            reveal(Seq::filter);
        }
        let monitor = match &list[i].media_class {
            Some(c) => contains(c.as_str(), "Monitor"),
            None => false,
        };
        if !monitor {
            push_stream(&mut r, stream(&list[i], true));
            assert(streams_of(kept.push(list@[i as int]), true) =~= streams_of(kept, true).push(
                stream_of(list@[i as int], true),
            ));
        }
        i += 1;
    }
    assert(list@.take(list@.len() as int) =~= list@);
    r
}

fn first_default(list: &Vec<Device>) -> (r: Option<VolumeState>)
    ensures
        r == default_volume(devices(list@)),
{
    let mut i: usize = 0;
    assert(devices(list@).skip(0) =~= devices(list@));
    while i < list.len()
        invariant
            i <= list@.len(),
            default_volume(devices(list@)) == default_volume(devices(list@).skip(i as int)),
        decreases list@.len() - i,
    {
        assert(devices(list@).skip(i as int).drop_first() =~= devices(list@).skip(i + 1));
        assert(devices(list@).skip(i as int)[0] == list@[i as int]@);
        if list[i].is_default {
            return Some(list[i].volume);
        }
        i += 1;
    }
    None
}

/// The answers of the server as one state. Outputs looped back are no
/// microphones, and the server's own meters do not record.
pub fn read(a: &Answers) -> (r: AudioState)
    requires
        countable(*a),
    ensures
        r@ == heard(*a),
{
    let sinks = read_sinks(&a.sinks, a.default_sink.as_str());
    let sources = read_sources(&a.sources, a.default_source.as_str());
    AudioState {
        sink: first_default(&sinks),
        source: first_default(&sources),
        sinks,
        sources,
        streams: read_inputs(&a.inputs),
        recorders: read_outputs(&a.outputs),
        connected: true,
    }
}

fn same_device(a: &Device, b: &Device) -> (r: bool)
    ensures
        r == (a@ == b@),
{
    same(a.id.as_str(), b.id.as_str()) && a.index == b.index && same(
        a.name.as_str(),
        b.name.as_str(),
    ) && a.is_default == b.is_default && a.channels == b.channels && a.volume == b.volume
}

fn same_stream(a: &Stream, b: &Stream) -> (r: bool)
    ensures
        r == (a@ == b@),
{
    a.index == b.index && same(a.name.as_str(), b.name.as_str()) && a.channels == b.channels
        && a.volume == b.volume && a.recording == b.recording
}

fn same_devices(a: &Vec<Device>, b: &Vec<Device>) -> (r: bool)
    ensures
        r == (devices(a@) == devices(b@)),
{
    if a.len() != b.len() {
        assert(devices(a@).len() != devices(b@).len());
        return false;
    }
    let mut i: usize = 0;
    while i < a.len()
        invariant
            i <= a@.len(),
            a@.len() == b@.len(),
            forall|j: int| 0 <= j < i ==> (#[trigger] a@[j])@ == b@[j]@,
        decreases a@.len() - i,
    {
        if !same_device(&a[i], &b[i]) {
            assert(devices(a@)[i as int] != devices(b@)[i as int]);
            return false;
        }
        i += 1;
    }
    assert(devices(a@) =~= devices(b@));
    true
}

fn same_streams(a: &Vec<Stream>, b: &Vec<Stream>) -> (r: bool)
    ensures
        r == (streams(a@) == streams(b@)),
{
    if a.len() != b.len() {
        assert(streams(a@).len() != streams(b@).len());
        return false;
    }
    let mut i: usize = 0;
    while i < a.len()
        invariant
            i <= a@.len(),
            a@.len() == b@.len(),
            forall|j: int| 0 <= j < i ==> (#[trigger] a@[j])@ == b@[j]@,
        decreases a@.len() - i,
    {
        if !same_stream(&a[i], &b[i]) {
            assert(streams(a@)[i as int] != streams(b@)[i as int]);
            return false;
        }
        i += 1;
    }
    assert(streams(a@) =~= streams(b@));
    true
}

/// Whether two states are the same; only a change is passed on.
pub fn same_state(a: &AudioState, b: &AudioState) -> (r: bool)
    ensures
        r == (a@ == b@),
{
    let r = a.sink == b.sink && a.source == b.source && same_devices(&a.sinks, &b.sinks)
        && same_devices(&a.sources, &b.sources) && same_streams(&a.streams, &b.streams)
        && same_streams(&a.recorders, &b.recorders) && a.connected == b.connected;
    r
}

/// How loud something counts as: as its loudest channel, and silent without
/// one.
pub proof fn law_the_loudest_channel_counts(volumes: Seq<u32>)
    ensures
        forall|i: int| 0 <= i < volumes.len() ==> #[trigger] volumes[i] <= loudest(volumes),
        volumes.len() > 0 ==> volumes.contains(loudest(volumes)),
        volumes.len() == 0 ==> loudest(volumes) == 0,
    decreases volumes.len(),
{
    if volumes.len() > 0 {
        let head = volumes.drop_last();
        law_the_loudest_channel_counts(head);
        assert forall|i: int| 0 <= i < volumes.len() implies #[trigger] volumes[i] <= loudest(
            volumes,
        ) by {
            if i < head.len() {
                assert(head[i] == volumes[i]);
            }
        }
        if loudest(volumes) == volumes.last() {
            assert(volumes[volumes.len() - 1] == loudest(volumes));
        } else {
            assert(head.contains(loudest(head)));
            let i = choose|i: int| 0 <= i < head.len() && head[i] == loudest(head);
            assert(volumes[i] == loudest(volumes));
        }
    }
}

/// A level is bounded by silence and one and a half times full volume, and a
/// write has a volume for each channel of its device, one at least and 32 at
/// most.
pub proof fn law_what_a_write_carries(level: int, channels: u8, i: int)
    ensures
        level <= 0 ==> limited(level) == 0,
        0 <= level <= 98_304 ==> limited(level) == level,
        level >= 98_304 ==> limited(level) == 98_304,
        1 <= channels <= 32 ==> carried(channels) == channels,
        channels == 0 ==> carried(channels) == 1,
        channels >= 32 ==> carried(channels) == 32,
        on_all(carried(channels), limited(level)).len() == carried(channels),
        0 <= i < carried(channels) ==> on_all(carried(channels), limited(level))[i] == limited(
            level,
        ),
        VOLUME_NORMAL == 65_536,
{
}

proof fn lemma_default_volume(list: Seq<DeviceModel>, k: int)
    ensures
        0 <= k < list.len() && list[k].is_default && (forall|j: int|
            0 <= j < k ==> !(#[trigger] list[j]).is_default) ==> default_volume(list) == Some(
            list[k].volume,
        ),
        (forall|j: int| 0 <= j < list.len() ==> !(#[trigger] list[j]).is_default)
            ==> default_volume(list) is None,
    decreases list.len(),
{
    if list.len() > 0 && !list[0].is_default {
        let rest = list.drop_first();
        assert(forall|j: int| 0 <= j < rest.len() ==> #[trigger] rest[j] == list[j + 1]);
        lemma_default_volume(rest, k - 1);
    }
}

/// Every sink is listed, in the server's order and as the server describes it:
/// the one whose name the server gives as the default is the default, it is as
/// loud as its loudest channel, and muted where the server says so. The volume
/// on show is that of the default sink.
pub proof fn law_every_sink_is_listed(a: Answers, i: int)
    requires
        countable(a),
        0 <= i < a.sinks@.len(),
    ensures
        ({
            let r = heard(a);
            let info = a.sinks@[i];
            let d = r.sinks[i];
            &&& r.connected
            &&& r.sinks.len() == a.sinks@.len()
            &&& d.index == info.index
            &&& d.id == if info.name is Some {
                info.name->0@
            } else {
                Seq::empty()
            }
            &&& d.is_default <==> d.id == a.default_sink@
            &&& d.channels == info.volumes@.len()
            &&& d.volume.muted == info.mute
            &&& d.volume.volume == loudest(info.volumes@)
            &&& d.name == stripped(
                if info.description is Some {
                    info.description->0@
                } else {
                    d.id
                },
                controller_prefixes(),
            )
            &&& d.is_default && (forall|j: int|
                0 <= j < i ==> !(#[trigger] r.sinks[j]).is_default) ==> r.sink == Some(d.volume)
            &&& (forall|j: int| 0 <= j < r.sinks.len() ==> !(#[trigger] r.sinks[j]).is_default)
                ==> r.sink is None
        }),
{
    lemma_default_volume(heard(a).sinks, i);
}

proof fn lemma_kept_sources(list: Seq<DeviceInfo>)
    ensures
        forall|i: int|
            0 <= i < list.filter(no_monitor()).len() ==> !(#[trigger] list.filter(
                no_monitor(),
            )[i]).monitor && list.contains(list.filter(no_monitor())[i]),
{
    let kept = list.filter(no_monitor());
    assert forall|i: int| 0 <= i < kept.len() implies !(#[trigger] kept[i]).monitor
        && list.contains(kept[i]) by {
        list.lemma_filter_pred(no_monitor(), i);
        assert(kept.contains(kept[i]));
        list.lemma_filter_contains_rev(no_monitor(), kept[i]);
    }
}

/// The sources are the microphones: every source that is not an output looped
/// back is listed as the server describes it, and no other. The volume on show
/// is that of the default one.
pub proof fn law_only_microphones_are_sources(a: Answers, i: int, k: int)
    requires
        countable(a),
    ensures
        0 <= k < heard(a).sources.len() ==> exists|j: int|
            {
                &&& 0 <= j < a.sources@.len()
                &&& !(#[trigger] a.sources@[j]).monitor
                &&& heard(a).sources[k] == device_of(a.sources@[j], a.default_source@)
            },
        0 <= i < a.sources@.len() && !a.sources@[i].monitor ==> heard(a).sources.contains(
            device_of(a.sources@[i], a.default_source@),
        ),
        0 <= k < heard(a).sources.len() && heard(a).sources[k].is_default && (forall|j: int|
            0 <= j < k ==> !(#[trigger] heard(a).sources[j]).is_default) ==> heard(a).source
            == Some(heard(a).sources[k].volume),
{
    let list = a.sources@;
    let kept = list.filter(no_monitor());
    lemma_kept_sources(list);
    lemma_default_volume(heard(a).sources, k);
    if 0 <= k < heard(a).sources.len() {
        let j = list.index_of(kept[k]);
        assert(list[j] == kept[k]);
        assert(heard(a).sources[k] == device_of(list[j], a.default_source@));
    }
    if 0 <= i < list.len() && !list[i].monitor {
        list.lemma_filter_contains(no_monitor(), i);
        let p = kept.index_of(list[i]);
        assert(heard(a).sources[p] == device_of(list[i], a.default_source@));
    }
}

/// What plays is every input of the server's. What records is every output that
/// does not listen to the server's own: one whose class speaks of a monitor.
pub proof fn law_meters_do_not_record(a: Answers, i: int, k: int)
    requires
        countable(a),
    ensures
        heard(a).streams.len() == a.inputs@.len(),
        0 <= i < a.inputs@.len() ==> {
            let s = heard(a).streams[i];
            &&& s == stream_of(a.inputs@[i], false)
            &&& s.index == a.inputs@[i].index
            &&& !s.recording
            &&& s.channels == a.inputs@[i].volumes@.len()
            &&& s.volume.volume == loudest(a.inputs@[i].volumes@)
            &&& s.volume.muted == a.inputs@[i].mute
        },
        0 <= i < a.outputs@.len() && !(a.outputs@[i].media_class is Some && occurs(
            a.outputs@[i].media_class->0@,
            "Monitor"@,
        )) ==> heard(a).recorders.contains(stream_of(a.outputs@[i], true)),
        0 <= k < heard(a).recorders.len() ==> heard(a).recorders[k].recording && exists|j: int|
            {
                &&& 0 <= j < a.outputs@.len()
                &&& !((#[trigger] a.outputs@[j]).media_class is Some && occurs(
                    a.outputs@[j].media_class->0@,
                    "Monitor"@,
                ))
                &&& heard(a).recorders[k].index == a.outputs@[j].index
            },
{
    let list = a.outputs@;
    let kept = list.filter(listens());
    if 0 <= k < heard(a).recorders.len() {
        list.lemma_filter_pred(listens(), k);
        assert(kept.contains(kept[k]));
        list.lemma_filter_contains_rev(listens(), kept[k]);
        let j = list.index_of(kept[k]);
        assert(list[j] == kept[k]);
        assert(heard(a).recorders[k] == stream_of(list[j], true));
    }
    if 0 <= i < list.len() && listens()(list[i]) {
        list.lemma_filter_contains(listens(), i);
        let p = kept.index_of(list[i]);
        assert(heard(a).recorders[p] == stream_of(list[i], true));
    }
}

/// A stream is called by its application, else its program, else its own name.
pub proof fn law_the_first_name_counts(
    application: Option<Seq<char>>,
    binary: Option<Seq<char>>,
    own: Option<Seq<char>>,
)
    ensures
        application is Some ==> stream_named(application, binary, own) == application->0,
        application is None && binary is Some ==> stream_named(application, binary, own)
            == binary->0,
        application is None && binary is None && own is Some ==> stream_named(
            application,
            binary,
            own,
        ) == own->0,
        application is None && binary is None && own is None ==> stream_named(
            application,
            binary,
            own,
        ) == "Unknown"@,
{
}

/// The first prefix that a name begins with and that leaves something of it is
/// taken off; a name without one stays. Either way no white space is left at its
/// ends.
pub proof fn law_the_first_prefix_is_taken_off(
    name: Seq<char>,
    prefixes: Seq<&'static str>,
    k: int,
)
    ensures
        0 <= k < prefixes.len() && prefixes[k]@.len() <= name.len() && name.take(
            prefixes[k]@.len() as int,
        ) == prefixes[k]@ && trimmed(name.skip(prefixes[k]@.len() as int)).len() > 0 && (forall|
            j: int,
        |
            0 <= j < k ==> !((#[trigger] prefixes[j])@.len() <= name.len() && name.take(
                prefixes[j]@.len() as int,
            ) == prefixes[j]@)) ==> stripped(name, prefixes) == trimmed(
            name.skip(prefixes[k]@.len() as int),
        ),
        (forall|j: int|
            0 <= j < prefixes.len() ==> !((#[trigger] prefixes[j])@.len() <= name.len() && name.take(
                prefixes[j]@.len() as int,
            ) == prefixes[j]@)) ==> stripped(name, prefixes) == trimmed(name),
    decreases prefixes.len(),
{
    if prefixes.len() > 0 {
        let p = prefixes[0]@;
        let rest = prefixes.drop_first();
        assert(forall|j: int| 0 <= j < rest.len() ==> #[trigger] rest[j] == prefixes[j + 1]);
        if p.len() <= name.len() {
            assert(name.subrange(0, p.len() as int) =~= name.take(p.len() as int));
        }
        if k > 0 && k < prefixes.len() {
            assert(rest[k - 1] == prefixes[k]);
        }
        law_the_first_prefix_is_taken_off(name, rest, k - 1);
    }
}

/// Only applications that record are named, in alphabetical order.
pub proof fn law_recorders_are_named_in_order(recorders: Seq<Stream>, i: int, j: int)
    ensures
        ({
            let names = without_repeats(texts(sorted(names_of(recorders))));
            &&& 0 <= i < names.len() ==> exists|k: int|
                0 <= k < recorders.len() && (#[trigger] recorders[k]).name@ == names[i]
            &&& 0 <= i < j < names.len() ==> alphabetic(names[i], names[j])
        }),
{
    let names = names_of(recorders);
    let all = sorted(names);
    lemma_sorted_exists(names);
    assert forall|p: int, q: int|
        #![trigger texts(all)[p], texts(all)[q]]
        0 <= p < q < texts(all).len() implies alphabetic(texts(all)[p], texts(all)[q]) by {
        assert(all[p].leq(&all[q]));
    }
    let out = without_repeats(texts(all));
    lemma_repeats_in_order(texts(all));
    if 0 <= i < out.len() {
        lemma_without_repeats(texts(all), out[i]);
        assert(out.contains(out[i]));
        let p = texts(all).index_of(out[i]);
        assert(texts(all)[p] == all[p]@);
        assert(all.contains(all[p]));
        lemma_sorted_contains(all, names, all[p]);
        let k = names.index_of(all[p]);
        assert(recorders[k].name == names[k]);
    }
}

proof fn lemma_repeats_in_order(list: Seq<Seq<char>>)
    requires
        forall|i: int, j: int|
            #![trigger list[i], list[j]]
            0 <= i < j < list.len() ==> alphabetic(list[i], list[j]),
    ensures
        forall|i: int, j: int|
            #![trigger without_repeats(list)[i], without_repeats(list)[j]]
            0 <= i < j < without_repeats(list).len() ==> alphabetic(
                without_repeats(list)[i],
                without_repeats(list)[j],
            ),
    decreases list.len(),
{
    if list.len() > 1 {
        let head = list.drop_last();
        assert(forall|i: int| 0 <= i < head.len() ==> #[trigger] head[i] == list[i]);
        lemma_repeats_in_order(head);
        let before = without_repeats(head);
        let out = without_repeats(list);
        assert forall|i: int, j: int|
            #![trigger out[i], out[j]]
            0 <= i < j < out.len() implies alphabetic(out[i], out[j]) by {
            if j < before.len() {
                assert(out[i] == before[i] && out[j] == before[j]);
            } else {
                lemma_without_repeats(head, before[i]);
                assert(before.contains(before[i]));
                let p = head.index_of(before[i]);
                assert(list[p] == before[i]);
                assert(list[list.len() - 1] == list.last());
            }
        }
    }
}

} // verus!
