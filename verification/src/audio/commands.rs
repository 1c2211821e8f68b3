//! What is asked of the sound server: commands folded into writes.

use vstd::prelude::*;
use vstd::string::*;
use crate::audio::{carried, from_level, limit, limited, on_all, AudioState, Stream};
use crate::text::{concat2, same, text_of};

verus! {

/// What can be asked of the server.
#[derive(Debug, PartialEq, Eq)]
pub enum Command {
    SetSinkVolume(i32),
    /// Relative to what the default sink is at when this is applied, which
    /// only the one who applies it knows.
    AdjustSinkVolume(i32),
    SetSourceVolume(i32),
    ToggleSinkMute,
    ToggleSourceMute,
    SetDefaultSink(String),
    SetDefaultSource(String),
    SetStreamVolume { index: u32, level: i32 },
}

/// A [`Command`] as the contracts speak of it.
pub enum CommandModel {
    SetSinkVolume(i32),
    AdjustSinkVolume(i32),
    SetSourceVolume(i32),
    ToggleSinkMute,
    ToggleSourceMute,
    SetDefaultSink(Seq<char>),
    SetDefaultSource(Seq<char>),
    SetStreamVolume { index: u32, level: i32 },
}

impl View for Command {
    type V = CommandModel;

    open spec fn view(&self) -> CommandModel {
        match *self {
            Command::SetSinkVolume(l) => CommandModel::SetSinkVolume(l),
            Command::AdjustSinkVolume(d) => CommandModel::AdjustSinkVolume(d),
            Command::SetSourceVolume(l) => CommandModel::SetSourceVolume(l),
            Command::ToggleSinkMute => CommandModel::ToggleSinkMute,
            Command::ToggleSourceMute => CommandModel::ToggleSourceMute,
            Command::SetDefaultSink(id) => CommandModel::SetDefaultSink(id@),
            Command::SetDefaultSource(id) => CommandModel::SetDefaultSource(id@),
            Command::SetStreamVolume { index, level } => CommandModel::SetStreamVolume {
                index,
                level,
            },
        }
    }
}

/// Commands as the contracts speak of them.
pub open spec fn commands_of(v: Seq<Command>) -> Seq<CommandModel> {
    v.map_values(|c: Command| c@)
}

/// One turn's commands, folded into a single intent. A held key repeats faster
/// than the server answers; folded, a burst is one write.
#[derive(Debug)]
pub struct Batch {
    sink_level: Option<i32>,
    sink_delta: i128,
    sink_mute_toggle: bool,
    source_level: Option<i32>,
    source_mute_toggle: bool,
    default_sink: Option<String>,
    default_source: Option<String>,
    stream_levels: Vec<(u32, i32)>,
}

/// A [`Batch`] as the contracts speak of it.
#[verifier::ext_equal]
pub struct BatchModel {
    /// An absolute level supersedes what was queued before it.
    pub sink_level: Option<i32>,
    /// What is added to the level.
    pub sink_delta: int,
    /// Toggles cancel in pairs.
    pub sink_mute_toggle: bool,
    pub source_level: Option<i32>,
    pub source_mute_toggle: bool,
    pub default_sink: Option<Seq<char>>,
    pub default_source: Option<Seq<char>>,
    /// The last write for a stream wins.
    pub stream_levels: Seq<(u32, i32)>,
}

impl View for Batch {
    type V = BatchModel;

    closed spec fn view(&self) -> BatchModel {
        BatchModel {
            sink_level: self.sink_level,
            sink_delta: self.sink_delta as int,
            sink_mute_toggle: self.sink_mute_toggle,
            source_level: self.source_level,
            source_mute_toggle: self.source_mute_toggle,
            default_sink: text_of(self.default_sink),
            default_source: text_of(self.default_source),
            stream_levels: self.stream_levels@,
        }
    }
}

/// Nothing is asked.
pub open spec fn no_batch() -> BatchModel {
    BatchModel {
        sink_level: None,
        sink_delta: 0,
        sink_mute_toggle: false,
        source_level: None,
        source_mute_toggle: false,
        default_sink: None,
        default_source: None,
        stream_levels: Seq::empty(),
    }
}

/// The place of the first level for a stream, or the length.
pub open spec fn slot(levels: Seq<(u32, i32)>, index: u32) -> int
    decreases levels.len(),
{
    if levels.len() == 0 || levels[0].0 == index {
        0
    } else {
        1 + slot(levels.drop_first(), index)
    }
}

/// Levels with one more.
pub open spec fn leveled(levels: Seq<(u32, i32)>, index: u32, level: i32) -> Seq<(u32, i32)> {
    if slot(levels, index) < levels.len() {
        levels.update(slot(levels, index), (index, level))
    } else {
        levels.push((index, level))
    }
}

/// A batch with one more command.
pub open spec fn folded(b: BatchModel, c: CommandModel) -> BatchModel {
    match c {
        CommandModel::SetSinkVolume(l) => BatchModel { sink_level: Some(l), sink_delta: 0, ..b },
        CommandModel::AdjustSinkVolume(d) => BatchModel { sink_delta: b.sink_delta + d, ..b },
        CommandModel::SetSourceVolume(l) => BatchModel { source_level: Some(l), ..b },
        CommandModel::ToggleSinkMute => BatchModel { sink_mute_toggle: !b.sink_mute_toggle, ..b },
        CommandModel::ToggleSourceMute => BatchModel {
            source_mute_toggle: !b.source_mute_toggle,
            ..b
        },
        CommandModel::SetDefaultSink(id) => BatchModel { default_sink: Some(id), ..b },
        CommandModel::SetDefaultSource(id) => BatchModel { default_source: Some(id), ..b },
        CommandModel::SetStreamVolume { index, level } => BatchModel {
            stream_levels: leveled(b.stream_levels, index, level),
            ..b
        },
    }
}

/// Commands folded, first to last.
pub open spec fn collected(commands: Seq<CommandModel>) -> BatchModel
    decreases commands.len(),
{
    if commands.len() == 0 {
        no_batch()
    } else {
        folded(collected(commands.drop_last()), commands.last())
    }
}

impl BatchModel {
    /// The volume of the sink changes.
    pub open spec fn moves_sink(self) -> bool {
        self.sink_level is Some || self.sink_delta != 0
    }

    pub open spec fn sink_touched(self) -> bool {
        self.moves_sink() || self.sink_mute_toggle
    }

    pub open spec fn source_touched(self) -> bool {
        self.source_level is Some || self.source_mute_toggle
    }

    pub open spec fn nothing(self) -> bool {
        !self.sink_touched() && !self.source_touched() && self.default_sink is None
            && self.default_source is None && self.stream_levels.len() == 0
    }
}

proof fn lemma_slot(levels: Seq<(u32, i32)>, index: u32, i: int)
    requires
        0 <= i <= levels.len(),
        forall|j: int| 0 <= j < i ==> (#[trigger] levels[j]).0 != index,
        i < levels.len() ==> levels[i].0 == index,
    ensures
        slot(levels, index) == i,
    decreases levels.len(),
{
    if i > 0 {
        let rest = levels.drop_first();
        assert(levels[0].0 != index);
        assert forall|j: int| 0 <= j < i - 1 implies (#[trigger] rest[j]).0 != index by {
            assert(rest[j] == levels[j + 1]);
        }
        lemma_slot(rest, index, i - 1);
    }
}

fn put_level(levels: &mut Vec<(u32, i32)>, index: u32, level: i32)
    ensures
        final(levels)@ == leveled(old(levels)@, index, level),
{
    let mut i: usize = 0;
    while i < levels.len() && levels[i].0 != index
        invariant
            i <= levels@.len(),
            levels@ == old(levels)@,
            forall|j: int| 0 <= j < i ==> (#[trigger] levels@[j]).0 != index,
        decreases levels@.len() - i,
    {
        i += 1;
    }
    proof {
        lemma_slot(levels@, index, i as int);
    }
    if i < levels.len() {
        levels.set(i, (index, level));
    } else {
        levels.push((index, level));
    }
}

impl Batch {
    /// Folds the commands of one turn.
    pub fn collect(commands: &Vec<Command>) -> (r: Batch)
        ensures
            r@ == collected(commands_of(commands@)),
    {
        let mut sink_level: Option<i32> = None;
        let mut sink_delta: i128 = 0;
        let mut sink_mute_toggle = false;
        let mut source_level: Option<i32> = None;
        let mut source_mute_toggle = false;
        let mut default_sink: Option<String> = None;
        let mut default_source: Option<String> = None;
        let mut stream_levels: Vec<(u32, i32)> = Vec::new();
        let mut i: usize = 0;
        let ghost all = commands_of(commands@);
        assert(stream_levels@ =~= Seq::empty());
        while i < commands.len()
            invariant
                i <= commands@.len(),
                all == commands_of(commands@),
                -0x8000_0000 * i <= sink_delta <= 0x8000_0000 * i,
                collected(all.take(i as int)) == (BatchModel {
                    sink_level,
                    sink_delta: sink_delta as int,
                    sink_mute_toggle,
                    source_level,
                    source_mute_toggle,
                    default_sink: text_of(default_sink),
                    default_source: text_of(default_source),
                    stream_levels: stream_levels@,
                }),
            decreases commands@.len() - i,
        {
            assert(all.take(i + 1).drop_last() =~= all.take(i as int));
            assert(all.take(i + 1).last() == commands@[i as int]@);
            match &commands[i] {
                Command::SetSinkVolume(level) => {
                    sink_level = Some(*level);
                    sink_delta = 0;
                },
                Command::AdjustSinkVolume(delta) => {
                    sink_delta = sink_delta + *delta as i128;
                },
                Command::SetSourceVolume(level) => {
                    source_level = Some(*level);
                },
                Command::ToggleSinkMute => {
                    sink_mute_toggle = !sink_mute_toggle;
                },
                Command::ToggleSourceMute => {
                    source_mute_toggle = !source_mute_toggle;
                },
                Command::SetDefaultSink(id) => {
                    default_sink = Some(id.clone());
                },
                Command::SetDefaultSource(id) => {
                    default_source = Some(id.clone());
                },
                Command::SetStreamVolume { index, level } => {
                    put_level(&mut stream_levels, *index, *level);
                },
            }
            i += 1;
        }
        assert(all.take(all.len() as int) =~= all);
        Batch {
            sink_level,
            sink_delta,
            sink_mute_toggle,
            source_level,
            source_mute_toggle,
            default_sink,
            default_source,
            stream_levels,
        }
    }

    /// Whether the default sink has to be found.
    pub fn touches_sink(&self) -> (r: bool)
        ensures
            r == self@.sink_touched(),
    {
        self.sink_level.is_some() || self.sink_delta != 0 || self.sink_mute_toggle
    }

    /// Whether the default source has to be found.
    pub fn touches_source(&self) -> (r: bool)
        ensures
            r == self@.source_touched(),
    {
        self.source_level.is_some() || self.source_mute_toggle
    }

    /// Whether nothing is asked.
    pub fn is_empty(&self) -> (r: bool)
        ensures
            r == self@.nothing(),
    {
        !self.touches_sink() && !self.touches_source() && self.default_sink.is_none()
            && self.default_source.is_none() && self.stream_levels.len() == 0
    }
}

/// A device found at the moment a command is applied to it. The default can
/// move without a snapshot telling.
#[derive(Debug, Clone, Copy, PartialEq, Eq, Structural)]
pub struct Target {
    pub index: u32,
    pub channels: u8,
    pub level: u32,
    pub muted: bool,
}

/// The default sink, from the name that the server gives it and what the server
/// found under that name.
pub fn resolve_default_sink(name: &str, found: Option<Target>) -> (r: Result<Target, String>)
    ensures
        match r {
            Ok(t) => name@.len() > 0 && found == Some(t),
            Err(e) => if name@.len() == 0 {
                e@ == "the server names no default sink"@
            } else {
                found is None && e@ == "no sink named "@ + name@
            },
        },
{
    proof {
        reveal_strlit("");
        if name@.len() == 0 {
            assert(name@ =~= ""@);
        }
    }
    if same(name, "") {
        return Err("the server names no default sink".to_owned());
    }
    match found {
        Some(t) => Ok(t),
        None => Err(concat2("no sink named ", name)),
    }
}

/// The default source, from the name that the server gives it and what the server
/// found under that name.
pub fn resolve_default_source(name: &str, found: Option<Target>) -> (r: Result<Target, String>)
    ensures
        match r {
            Ok(t) => name@.len() > 0 && found == Some(t),
            Err(e) => if name@.len() == 0 {
                e@ == "the server names no default source"@
            } else {
                found is None && e@ == "no source named "@ + name@
            },
        },
{
    proof {
        reveal_strlit("");
        if name@.len() == 0 {
            assert(name@ =~= ""@);
        }
    }
    if same(name, "") {
        return Err("the server names no default source".to_owned());
    }
    match found {
        Some(t) => Ok(t),
        None => Err(concat2("no source named ", name)),
    }
}

/// One write to the server.
#[derive(Debug, PartialEq, Eq)]
pub enum Write {
    DefaultSink(String),
    DefaultSource(String),
    SinkVolume { index: u32, volumes: Vec<u32> },
    SinkMute { index: u32, mute: bool },
    SourceVolume { index: u32, volumes: Vec<u32> },
    SourceMute { index: u32, mute: bool },
    StreamVolume { index: u32, volumes: Vec<u32> },
}

/// A [`Write`] as the contracts speak of it.
#[verifier::ext_equal]
pub enum WriteModel {
    DefaultSink(Seq<char>),
    DefaultSource(Seq<char>),
    SinkVolume { index: u32, volumes: Seq<u32> },
    SinkMute { index: u32, mute: bool },
    SourceVolume { index: u32, volumes: Seq<u32> },
    SourceMute { index: u32, mute: bool },
    StreamVolume { index: u32, volumes: Seq<u32> },
}

impl View for Write {
    type V = WriteModel;

    open spec fn view(&self) -> WriteModel {
        match *self {
            Write::DefaultSink(id) => WriteModel::DefaultSink(id@),
            Write::DefaultSource(id) => WriteModel::DefaultSource(id@),
            Write::SinkVolume { index, volumes } => WriteModel::SinkVolume {
                index,
                volumes: volumes@,
            },
            Write::SinkMute { index, mute } => WriteModel::SinkMute { index, mute },
            Write::SourceVolume { index, volumes } => WriteModel::SourceVolume {
                index,
                volumes: volumes@,
            },
            Write::SourceMute { index, mute } => WriteModel::SourceMute { index, mute },
            Write::StreamVolume { index, volumes } => WriteModel::StreamVolume {
                index,
                volumes: volumes@,
            },
        }
    }
}

/// Writes as the contracts speak of them.
pub open spec fn writes_of(v: Seq<Write>) -> Seq<WriteModel> {
    v.map_values(|w: Write| w@)
}

fn push_write(v: &mut Vec<Write>, w: Write)
    ensures
        writes_of(final(v)@) == writes_of(old(v)@).push(w@),
{
    v.push(w);
    assert(writes_of(v@) =~= writes_of(old(v)@).push(w@));
}

/// A single write, where there is one.
pub open spec fn maybe(on: bool, w: WriteModel) -> Seq<WriteModel> {
    if on {
        seq![w]
    } else {
        Seq::empty()
    }
}

/// The writes that pick the default devices.
pub open spec fn default_picks(b: BatchModel) -> Seq<WriteModel> {
    maybe(b.default_sink is Some, WriteModel::DefaultSink(b.default_sink->0)) + maybe(
        b.default_source is Some,
        WriteModel::DefaultSource(b.default_source->0),
    )
}

/// The volume a sink is set to.
pub open spec fn sink_target(b: BatchModel, t: Target) -> u32 {
    limited((if b.sink_level is Some {
        b.sink_level->0 as int
    } else {
        t.level as int
    }) + b.sink_delta)
}

/// The writes to the default sink.
pub open spec fn sink_writes(b: BatchModel, t: Target) -> Seq<WriteModel> {
    maybe(
        b.moves_sink(),
        WriteModel::SinkVolume {
            index: t.index,
            volumes: on_all(carried(t.channels), sink_target(b, t)),
        },
    ) + maybe(b.sink_mute_toggle, WriteModel::SinkMute { index: t.index, mute: !t.muted })
}

/// The writes to the default source.
pub open spec fn source_writes(b: BatchModel, t: Target) -> Seq<WriteModel> {
    maybe(
        b.source_level is Some,
        WriteModel::SourceVolume {
            index: t.index,
            volumes: on_all(carried(t.channels), limited(b.source_level->0 as int)),
        },
    ) + maybe(b.source_mute_toggle, WriteModel::SourceMute { index: t.index, mute: !t.muted })
}

/// How many channels the first stream with an index has.
pub open spec fn stream_channels(list: Seq<Stream>, index: u32) -> Option<u8>
    decreases list.len(),
{
    if list.len() == 0 {
        None
    } else if list[0].index == index {
        Some(list[0].channels)
    } else {
        stream_channels(list.drop_first(), index)
    }
}

/// The writes to streams; one that is gone gets none.
pub open spec fn stream_writes(levels: Seq<(u32, i32)>, last: Seq<Stream>) -> Seq<WriteModel>
    decreases levels.len(),
{
    if levels.len() == 0 {
        Seq::empty()
    } else {
        let (index, level) = levels.last();
        let channels = stream_channels(last, index);
        stream_writes(levels.drop_last(), last) + maybe(
            channels is Some,
            WriteModel::StreamVolume {
                index,
                volumes: on_all(carried(channels->0), limited(level as int)),
            },
        )
    }
}

/// All writes to devices and streams.
pub open spec fn device_writes(
    b: BatchModel,
    sink: Option<Target>,
    source: Option<Target>,
    last: Seq<Stream>,
) -> Seq<WriteModel> {
    (match sink {
        Some(t) => sink_writes(b, t),
        None => Seq::empty(),
    }) + (match source {
        Some(t) => source_writes(b, t),
        None => Seq::empty(),
    }) + stream_writes(b.stream_levels, last)
}

fn channels_of(list: &Vec<Stream>, index: u32) -> (r: Option<u8>)
    ensures
        r == stream_channels(list@, index),
{
    let mut i: usize = 0;
    assert(list@.skip(0) =~= list@);
    while i < list.len()
        invariant
            i <= list@.len(),
            stream_channels(list@, index) == stream_channels(list@.skip(i as int), index),
        decreases list@.len() - i,
    {
        assert(list@.skip(i as int).drop_first() =~= list@.skip(i + 1));
        if list[i].index == index {
            return Some(list[i].channels);
        }
        i += 1;
    }
    None
}

impl Batch {
    /// The writes that pick the default devices. They come first: whatever
    /// else is asked means the device that was just chosen.
    pub fn default_writes(&self) -> (r: Vec<Write>)
        ensures
            writes_of(r@) == default_picks(self@),
    {
        let mut r: Vec<Write> = Vec::new();
        if let Some(id) = &self.default_sink {
            push_write(&mut r, Write::DefaultSink(id.clone()));
        }
        if let Some(id) = &self.default_source {
            push_write(&mut r, Write::DefaultSource(id.clone()));
        }
        assert(writes_of(r@) =~= default_picks(self@));
        r
    }

    /// The writes to devices and streams, given the default devices as found
    /// after [`Batch::default_writes`].
    pub fn apply(&self, sink: Option<Target>, source: Option<Target>, last: &AudioState) -> (r: Vec<
        Write,
    >)
        ensures
            writes_of(r@) == device_writes(self@, sink, source, last.streams@),
    {
        let mut r: Vec<Write> = Vec::new();
        assert(writes_of(r@) =~= Seq::empty());
        if let Some(t) = sink {
            if self.sink_level.is_some() || self.sink_delta != 0 {
                let base: i128 = match self.sink_level {
                    Some(l) => l as i128,
                    None => t.level as i128,
                };
                let delta: i128 = if self.sink_delta > 0x100_0000_0000 {
                    0x100_0000_0000
                } else if self.sink_delta < -0x100_0000_0000 {
                    -0x100_0000_0000
                } else {
                    self.sink_delta
                };
                let level: u32 = limit(base + delta);
                assert(level == sink_target(self@, t));
                push_write(
                    &mut r,
                    Write::SinkVolume {
                        index: t.index,
                        volumes: from_level(level as i64, t.channels),
                    },
                );
            }
            if self.sink_mute_toggle {
                push_write(&mut r, Write::SinkMute { index: t.index, mute: !t.muted });
            }
            assert(writes_of(r@) =~= sink_writes(self@, t));
        }
        let ghost first = writes_of(r@);
        if let Some(t) = source {
            if let Some(l) = self.source_level {
                push_write(
                    &mut r,
                    Write::SourceVolume {
                        index: t.index,
                        volumes: from_level(l as i64, t.channels),
                    },
                );
            }
            if self.source_mute_toggle {
                push_write(&mut r, Write::SourceMute { index: t.index, mute: !t.muted });
            }
            assert(writes_of(r@) =~= first + source_writes(self@, t));
        }
        let ghost second = writes_of(r@);
        let levels = &self.stream_levels;
        let mut i: usize = 0;
        assert(writes_of(r@) =~= second + stream_writes(levels@.take(0), last.streams@));
        while i < levels.len()
            invariant
                i <= levels@.len(),
                writes_of(r@) == second + stream_writes(levels@.take(i as int), last.streams@),
            decreases levels@.len() - i,
        {
            assert(levels@.take(i + 1).drop_last() =~= levels@.take(i as int));
            let (index, level) = levels[i];
            if let Some(channels) = channels_of(&last.streams, index) {
                push_write(
                    &mut r,
                    Write::StreamVolume { index, volumes: from_level(level as i64, channels) },
                );
            }
            assert(writes_of(r@) =~= second + stream_writes(levels@.take(i + 1), last.streams@));
            i += 1;
        }
        assert(levels@.take(levels@.len() as int) =~= levels@);
        assert(writes_of(r@) =~= device_writes(self@, sink, source, last.streams@));
        r
    }
}

/// An absolute volume supersedes every volume asked for before it in the same
/// turn.
pub proof fn law_an_absolute_level_supersedes(
    before: Seq<CommandModel>,
    level: i32,
    later: Seq<CommandModel>,
)
    ensures
        collected(before.push(CommandModel::SetSinkVolume(level)) + later).sink_level == collected(
            seq![CommandModel::SetSinkVolume(level)] + later,
        ).sink_level,
        collected(before.push(CommandModel::SetSinkVolume(level)) + later).sink_delta == collected(
            seq![CommandModel::SetSinkVolume(level)] + later,
        ).sink_delta,
    decreases later.len(),
{
    let a = before.push(CommandModel::SetSinkVolume(level)) + later;
    let b = seq![CommandModel::SetSinkVolume(level)] + later;
    if later.len() == 0 {
        assert(a =~= before.push(CommandModel::SetSinkVolume(level)));
        assert(a.drop_last() =~= before);
        assert(b =~= seq![CommandModel::SetSinkVolume(level)]);
        assert(b.drop_last() =~= Seq::empty());
    } else {
        law_an_absolute_level_supersedes(before, level, later.drop_last());
        assert(a.drop_last() =~= before.push(CommandModel::SetSinkVolume(level))
            + later.drop_last());
        assert(b.drop_last() =~= seq![CommandModel::SetSinkVolume(level)] + later.drop_last());
        assert(a.last() == later.last() && b.last() == later.last());
    }
}

/// How often the sink's mute is toggled.
pub open spec fn sink_toggles(commands: Seq<CommandModel>) -> nat
    decreases commands.len(),
{
    if commands.len() == 0 {
        0
    } else {
        sink_toggles(commands.drop_last()) + (if commands.last() is ToggleSinkMute {
            1nat
        } else {
            0nat
        })
    }
}

/// Toggles cancel in pairs.
pub proof fn law_toggles_cancel_in_pairs(commands: Seq<CommandModel>)
    ensures
        collected(commands).sink_mute_toggle == (sink_toggles(commands) % 2 == 1),
    decreases commands.len(),
{
    if commands.len() > 0 {
        law_toggles_cancel_in_pairs(commands.drop_last());
    }
}

/// The sum of what is to be added to the sink's volume.
pub open spec fn total_delta(commands: Seq<CommandModel>) -> int
    decreases commands.len(),
{
    if commands.len() == 0 {
        0
    } else {
        total_delta(commands.drop_last()) + match commands.last() {
            CommandModel::AdjustSinkVolume(d) => d as int,
            _ => 0,
        }
    }
}

/// A burst of relative changes is one write, of their sum: the volume lands
/// where the last press asked for.
pub proof fn law_a_burst_is_one_write(commands: Seq<CommandModel>, t: Target)
    requires
        forall|i: int|
            0 <= i < commands.len() ==> #[trigger] commands[i] is AdjustSinkVolume,
    ensures
        collected(commands).sink_level is None,
        collected(commands).sink_delta == total_delta(commands),
        sink_writes(collected(commands), t).len() <= 1,
        sink_target(collected(commands), t) == limited(t.level + total_delta(commands)),
    decreases commands.len(),
{
    lemma_only_adjusts(commands);
}

proof fn lemma_only_adjusts(commands: Seq<CommandModel>)
    requires
        forall|i: int|
            0 <= i < commands.len() ==> #[trigger] commands[i] is AdjustSinkVolume,
    ensures
        collected(commands) == (BatchModel { sink_delta: total_delta(commands), ..no_batch() }),
    decreases commands.len(),
{
    if commands.len() > 0 {
        assert(commands[commands.len() - 1] is AdjustSinkVolume);
        assert forall|i: int| 0 <= i < commands.drop_last().len() implies #[trigger]
            commands.drop_last()[i] is AdjustSinkVolume by {
            assert(commands[i] is AdjustSinkVolume);
        }
        lemma_only_adjusts(commands.drop_last());
    }
}

/// No stream has two levels.
pub open spec fn one_level_each(levels: Seq<(u32, i32)>) -> bool {
    forall|i: int, j: int|
        #![trigger levels[i], levels[j]]
        0 <= i < j < levels.len() ==> levels[i].0 != levels[j].0
}

proof fn lemma_slot_found(levels: Seq<(u32, i32)>, index: u32)
    ensures
        0 <= slot(levels, index) <= levels.len(),
        slot(levels, index) < levels.len() ==> levels[slot(levels, index)].0 == index,
        forall|j: int| 0 <= j < slot(levels, index) ==> (#[trigger] levels[j]).0 != index,
    decreases levels.len(),
{
    if levels.len() > 0 && levels[0].0 != index {
        let rest = levels.drop_first();
        lemma_slot_found(rest, index);
        assert(forall|j: int| 0 <= j < rest.len() ==> #[trigger] rest[j] == levels[j + 1]);
        assert forall|j: int| 0 <= j < slot(levels, index) implies (#[trigger] levels[j]).0
            != index by {
            if j > 0 {
                assert(rest[j - 1] == levels[j]);
            }
        }
    }
}

/// The last write for a stream wins, and each stream is written once.
pub proof fn law_the_last_write_for_a_stream_wins(
    commands: Seq<CommandModel>,
    index: u32,
    level: i32,
)
    ensures
        collected(
            commands.push(CommandModel::SetStreamVolume { index, level }),
        ).stream_levels.contains((index, level)),
        one_level_each(
            collected(
                commands.push(CommandModel::SetStreamVolume { index, level }),
            ).stream_levels,
        ),
{
    let all = commands.push(CommandModel::SetStreamVolume { index, level });
    assert(all.drop_last() =~= commands);
    lemma_one_level_each(all);
    let levels = collected(commands).stream_levels;
    lemma_slot_found(levels, index);
    let at = slot(levels, index);
    if at < levels.len() {
        assert(levels.update(at, (index, level))[at] == (index, level));
    } else {
        assert(levels.push((index, level))[levels.len() as int] == (index, level));
    }
}

proof fn lemma_one_level_each(commands: Seq<CommandModel>)
    ensures
        one_level_each(collected(commands).stream_levels),
    decreases commands.len(),
{
    if commands.len() > 0 {
        lemma_one_level_each(commands.drop_last());
        if let CommandModel::SetStreamVolume { index, level } = commands.last() {
            let levels = collected(commands.drop_last()).stream_levels;
            lemma_slot_found(levels, index);
        }
    }
}

/// How often the source's mute is toggled.
pub open spec fn source_toggles(commands: Seq<CommandModel>) -> nat
    decreases commands.len(),
{
    if commands.len() == 0 {
        0
    } else {
        source_toggles(commands.drop_last()) + (if commands.last() is ToggleSourceMute {
            1nat
        } else {
            0nat
        })
    }
}

proof fn lemma_toggles(commands: Seq<CommandModel>)
    ensures
        collected(commands).sink_mute_toggle == (sink_toggles(commands) % 2 == 1),
        collected(commands).source_mute_toggle == (source_toggles(commands) % 2 == 1),
    decreases commands.len(),
{
    if commands.len() > 0 {
        lemma_toggles(commands.drop_last());
    }
}

proof fn lemma_stream_writes_are_of_streams(
    levels: Seq<(u32, i32)>,
    last: Seq<Stream>,
    keep: spec_fn(WriteModel) -> bool,
)
    requires
        forall|w: WriteModel| #[trigger] keep(w) ==> !(w is StreamVolume),
    ensures
        stream_writes(levels, last).filter(keep) == Seq::<WriteModel>::empty(),
    decreases levels.len(),
{
    reveal(Seq::filter);
    if levels.len() > 0 {
        let rest = stream_writes(levels.drop_last(), last);
        lemma_stream_writes_are_of_streams(levels.drop_last(), last, keep);
        let all = stream_writes(levels, last);
        if all.len() > rest.len() {
            assert(all.drop_last() =~= rest);
            assert(all.last() is StreamVolume);
            assert(!keep(all.last()));
        } else {
            assert(all =~= rest);
        }
    }
}

/// Writes that set the mute of a sink.
pub open spec fn sink_mutes() -> spec_fn(WriteModel) -> bool {
    |w: WriteModel| w is SinkMute
}

/// Writes that set the mute of a source.
pub open spec fn source_mutes() -> spec_fn(WriteModel) -> bool {
    |w: WriteModel| w is SourceMute
}

/// Writes that set the volume of a sink.
pub open spec fn sink_volumes() -> spec_fn(WriteModel) -> bool {
    |w: WriteModel| w is SinkVolume
}

/// Writes that set the volume of a source.
pub open spec fn source_volumes() -> spec_fn(WriteModel) -> bool {
    |w: WriteModel| w is SourceVolume
}

proof fn lemma_pair_filter(
    a: bool,
    x: WriteModel,
    c: bool,
    y: WriteModel,
    keep: spec_fn(WriteModel) -> bool,
)
    ensures
        (maybe(a, x) + maybe(c, y)).filter(keep) == maybe(a && keep(x), x) + maybe(
            c && keep(y),
            y,
        ),
{
    Seq::filter_distributes_over_add(maybe(a, x), maybe(c, y), keep);
    reveal(Seq::filter);
    reveal_with_fuel(Seq::filter, 3);
    assert(maybe(true, x).drop_last() =~= Seq::empty());
    assert(maybe(true, y).drop_last() =~= Seq::empty());
    assert(maybe(a, x).filter(keep) =~= maybe(a && keep(x), x));
    assert(maybe(c, y).filter(keep) =~= maybe(c && keep(y), y));
}

spec fn kept_of_sink(
    b: BatchModel,
    sink: Option<Target>,
    keep: spec_fn(WriteModel) -> bool,
) -> Seq<WriteModel> {
    match sink {
        Some(t) => {
            let v = WriteModel::SinkVolume {
                index: t.index,
                volumes: on_all(carried(t.channels), sink_target(b, t)),
            };
            let m = WriteModel::SinkMute { index: t.index, mute: !t.muted };
            maybe(b.moves_sink() && keep(v), v) + maybe(b.sink_mute_toggle && keep(m), m)
        },
        None => Seq::empty(),
    }
}

spec fn kept_of_source(
    b: BatchModel,
    source: Option<Target>,
    keep: spec_fn(WriteModel) -> bool,
) -> Seq<WriteModel> {
    match source {
        Some(t) => {
            let v = WriteModel::SourceVolume {
                index: t.index,
                volumes: on_all(carried(t.channels), limited(b.source_level->0 as int)),
            };
            let m = WriteModel::SourceMute { index: t.index, mute: !t.muted };
            maybe(b.source_level is Some && keep(v), v) + maybe(
                b.source_mute_toggle && keep(m),
                m,
            )
        },
        None => Seq::empty(),
    }
}

proof fn lemma_sink_filter(b: BatchModel, t: Target, keep: spec_fn(WriteModel) -> bool)
    ensures
        sink_writes(b, t).filter(keep) == kept_of_sink(b, Some(t), keep),
{
    lemma_pair_filter(
        b.moves_sink(),
        WriteModel::SinkVolume {
            index: t.index,
            volumes: on_all(carried(t.channels), sink_target(b, t)),
        },
        b.sink_mute_toggle,
        WriteModel::SinkMute { index: t.index, mute: !t.muted },
        keep,
    );
}

proof fn lemma_source_filter(b: BatchModel, t: Target, keep: spec_fn(WriteModel) -> bool)
    ensures
        source_writes(b, t).filter(keep) == kept_of_source(b, Some(t), keep),
{
    lemma_pair_filter(
        b.source_level is Some,
        WriteModel::SourceVolume {
            index: t.index,
            volumes: on_all(carried(t.channels), limited(b.source_level->0 as int)),
        },
        b.source_mute_toggle,
        WriteModel::SourceMute { index: t.index, mute: !t.muted },
        keep,
    );
}

/// The writes of one kind are those to the sink, then those to the source.
proof fn lemma_kept_writes(
    b: BatchModel,
    sink: Option<Target>,
    source: Option<Target>,
    last: Seq<Stream>,
    keep: spec_fn(WriteModel) -> bool,
)
    requires
        forall|w: WriteModel| #[trigger] keep(w) ==> !(w is StreamVolume),
    ensures
        device_writes(b, sink, source, last).filter(keep) == kept_of_sink(b, sink, keep)
            + kept_of_source(b, source, keep),
{
    let a = match sink {
        Some(t) => sink_writes(b, t),
        None => Seq::<WriteModel>::empty(),
    };
    let c = match source {
        Some(t) => source_writes(b, t),
        None => Seq::<WriteModel>::empty(),
    };
    let d = stream_writes(b.stream_levels, last);
    lemma_stream_writes_are_of_streams(b.stream_levels, last, keep);
    Seq::filter_distributes_over_add(a + c, d, keep);
    Seq::filter_distributes_over_add(a, c, keep);
    if let Some(t) = sink {
        lemma_sink_filter(b, t, keep);
    }
    if let Some(t) = source {
        lemma_source_filter(b, t, keep);
    }
    reveal(Seq::filter);
    assert(a.filter(keep) == kept_of_sink(b, sink, keep));
    assert(c.filter(keep) == kept_of_source(b, source, keep));
    assert(a.filter(keep) + c.filter(keep) + Seq::<WriteModel>::empty() =~= a.filter(keep)
        + c.filter(keep));
}

proof fn lemma_sink_mutes(
    b: BatchModel,
    sink: Option<Target>,
    source: Option<Target>,
    last: Seq<Stream>,
)
    ensures
        device_writes(b, sink, source, last).filter(sink_mutes()) == if sink is Some
            && b.sink_mute_toggle {
            seq![WriteModel::SinkMute { index: sink->0.index, mute: !sink->0.muted }]
        } else {
            Seq::empty()
        },
{
    lemma_kept_writes(b, sink, source, last, sink_mutes());
    let m = WriteModel::SinkMute { index: sink->0.index, mute: !sink->0.muted };
    assert(kept_of_source(b, source, sink_mutes()) =~= Seq::empty());
    assert(kept_of_sink(b, sink, sink_mutes()) =~= maybe(sink is Some && b.sink_mute_toggle, m));
}

proof fn lemma_source_mutes(
    b: BatchModel,
    sink: Option<Target>,
    source: Option<Target>,
    last: Seq<Stream>,
)
    ensures
        device_writes(b, sink, source, last).filter(source_mutes()) == if source is Some
            && b.source_mute_toggle {
            seq![WriteModel::SourceMute { index: source->0.index, mute: !source->0.muted }]
        } else {
            Seq::empty()
        },
{
    lemma_kept_writes(b, sink, source, last, source_mutes());
    let m = WriteModel::SourceMute { index: source->0.index, mute: !source->0.muted };
    assert(kept_of_sink(b, sink, source_mutes()) =~= Seq::empty());
    assert(kept_of_source(b, source, source_mutes()) =~= maybe(
        source is Some && b.source_mute_toggle,
        m,
    ));
}

/// An odd number of toggles turns the mute of its device around, in exactly one
/// write to that device; an even number, or no device, writes nothing. So two
/// turns of one toggle each bring the device back to where it was.
pub proof fn law_a_toggle_turns_the_mute_around(
    commands: Seq<CommandModel>,
    sink: Option<Target>,
    source: Option<Target>,
    last: Seq<Stream>,
)
    ensures
        device_writes(collected(commands), sink, source, last).filter(sink_mutes()) == if sink is Some && sink_toggles(commands) % 2 == 1 {
            seq![
                WriteModel::SinkMute {
                    index: sink->0.index,
                    mute: if sink->0.muted {
                        false
                    } else {
                        true
                    },
                },
            ]
        } else {
            Seq::empty()
        },
        device_writes(collected(commands), sink, source, last).filter(source_mutes()) == if source is Some && source_toggles(commands) % 2 == 1 {
            seq![
                WriteModel::SourceMute {
                    index: source->0.index,
                    mute: if source->0.muted {
                        false
                    } else {
                        true
                    },
                },
            ]
        } else {
            Seq::empty()
        },
{
    let b = collected(commands);
    lemma_toggles(commands);
    lemma_sink_mutes(b, sink, source, last);
    lemma_source_mutes(b, sink, source, last);
}

proof fn lemma_no_absolute_level(b: Seq<CommandModel>, later: Seq<CommandModel>)
    requires
        forall|i: int| 0 <= i < later.len() ==> !(#[trigger] later[i] is SetSinkVolume),
    ensures
        collected(b + later).sink_level == collected(b).sink_level,
        collected(b + later).sink_delta == collected(b).sink_delta + total_delta(later),
    decreases later.len(),
{
    if later.len() == 0 {
        assert(b + later =~= b);
    } else {
        let head = later.drop_last();
        assert forall|i: int| 0 <= i < head.len() implies !(#[trigger] head[i] is SetSinkVolume) by {
            assert(head[i] == later[i]);
        }
        lemma_no_absolute_level(b, head);
        assert((b + later).drop_last() =~= b + head);
        assert((b + later).last() == later[later.len() - 1]);
    }
}

/// Where the sink ends up: at the last volume asked for, or else at what it is
/// at, with everything added that was asked for since; never below silence nor
/// above one and a half times full volume. It takes one write, which carries
/// that volume for each channel of the sink, one at least and 32 at most.
pub proof fn law_where_the_sink_ends_up(
    before: Seq<CommandModel>,
    level: Option<i32>,
    later: Seq<CommandModel>,
    t: Target,
    source: Option<Target>,
    last: Seq<Stream>,
)
    requires
        forall|i: int| 0 <= i < later.len() ==> !(#[trigger] later[i] is SetSinkVolume),
    ensures
        ({
            let commands = if level is Some {
                before.push(CommandModel::SetSinkVolume(level->0)) + later
            } else {
                later
            };
            let sum = (if level is Some {
                level->0 as int
            } else {
                t.level as int
            }) + total_delta(later);
            let end: u32 = if sum < 0 {
                0
            } else if sum > 98_304 {
                98_304
            } else {
                sum as u32
            };
            let n: nat = if t.channels == 0 {
                1
            } else if t.channels > 32 {
                32
            } else {
                t.channels as nat
            };
            device_writes(collected(commands), Some(t), source, last).filter(sink_volumes()) == if level is Some || total_delta(later) != 0 {
                seq![WriteModel::SinkVolume { index: t.index, volumes: Seq::new(n, |i: int| end) }]
            } else {
                Seq::empty()
            }
        }),
{
    let commands = if level is Some {
        before.push(CommandModel::SetSinkVolume(level->0)) + later
    } else {
        later
    };
    if level is Some {
        let head = before.push(CommandModel::SetSinkVolume(level->0));
        lemma_no_absolute_level(head, later);
        assert(head.drop_last() =~= before);
    } else {
        lemma_no_absolute_level(Seq::empty(), later);
        assert(Seq::<CommandModel>::empty() + later =~= later);
    }
    let b = collected(commands);
    lemma_kept_writes(b, Some(t), source, last, sink_volumes());
}

proof fn lemma_kept_source_level(b: Seq<CommandModel>, later: Seq<CommandModel>)
    requires
        forall|i: int| 0 <= i < later.len() ==> !(#[trigger] later[i] is SetSourceVolume),
    ensures
        collected(b + later).source_level == collected(b).source_level,
    decreases later.len(),
{
    if later.len() == 0 {
        assert(b + later =~= b);
    } else {
        let head = later.drop_last();
        assert forall|i: int| 0 <= i < head.len() implies !(
        #[trigger] head[i] is SetSourceVolume) by {
            assert(head[i] == later[i]);
        }
        lemma_kept_source_level(b, head);
        assert((b + later).drop_last() =~= b + head);
        assert((b + later).last() == later[later.len() - 1]);
    }
}

/// The source is set to the last volume asked for, within the same bounds and
/// for each of its channels, and left alone where none was asked for. Without a
/// device nothing is written to one.
pub proof fn law_where_the_source_ends_up(
    before: Seq<CommandModel>,
    level: Option<i32>,
    later: Seq<CommandModel>,
    sink: Option<Target>,
    t: Target,
    last: Seq<Stream>,
)
    requires
        forall|i: int| 0 <= i < later.len() ==> !(#[trigger] later[i] is SetSourceVolume),
    ensures
        ({
            let commands = if level is Some {
                before.push(CommandModel::SetSourceVolume(level->0)) + later
            } else {
                later
            };
            let end: u32 = if level->0 < 0 {
                0
            } else if level->0 > 98_304 {
                98_304
            } else {
                level->0 as u32
            };
            let n: nat = if t.channels == 0 {
                1
            } else if t.channels > 32 {
                32
            } else {
                t.channels as nat
            };
            &&& device_writes(collected(commands), sink, Some(t), last).filter(source_volumes()) == if level is Some {
                seq![
                    WriteModel::SourceVolume { index: t.index, volumes: Seq::new(n, |i: int| end) },
                ]
            } else {
                Seq::empty()
            }
            &&& device_writes(collected(commands), None, None, last) == stream_writes(
                collected(commands).stream_levels,
                last,
            )
        }),
{
    let commands = if level is Some {
        before.push(CommandModel::SetSourceVolume(level->0)) + later
    } else {
        later
    };
    if level is Some {
        let head = before.push(CommandModel::SetSourceVolume(level->0));
        lemma_kept_source_level(head, later);
        assert(head.drop_last() =~= before);
    } else {
        lemma_kept_source_level(Seq::empty(), later);
        assert(Seq::<CommandModel>::empty() + later =~= later);
    }
    let b = collected(commands);
    lemma_kept_writes(b, sink, Some(t), last, source_volumes());
    assert(device_writes(b, None, None, last) =~= stream_writes(b.stream_levels, last));
}

proof fn lemma_kept_defaults(b: Seq<CommandModel>, later: Seq<CommandModel>)
    ensures
        (forall|i: int| 0 <= i < later.len() ==> !(#[trigger] later[i] is SetDefaultSink))
            ==> collected(b + later).default_sink == collected(b).default_sink,
        (forall|i: int| 0 <= i < later.len() ==> !(#[trigger] later[i] is SetDefaultSource))
            ==> collected(b + later).default_source == collected(b).default_source,
    decreases later.len(),
{
    if later.len() == 0 {
        assert(b + later =~= b);
    } else {
        let head = later.drop_last();
        assert(forall|i: int| 0 <= i < head.len() ==> #[trigger] head[i] == later[i]);
        lemma_kept_defaults(b, head);
        assert((b + later).drop_last() =~= b + head);
        assert((b + later).last() == later[later.len() - 1]);
    }
}

/// The default device becomes the last one asked for; a default that nobody
/// asked about stays. The sink is picked before the source.
pub proof fn law_the_last_default_wins(
    before: Seq<CommandModel>,
    id: Seq<char>,
    later: Seq<CommandModel>,
)
    ensures
        (forall|i: int| 0 <= i < later.len() ==> !(#[trigger] later[i] is SetDefaultSink)) ==> {
            let picks = default_picks(
                collected(before.push(CommandModel::SetDefaultSink(id)) + later),
            );
            &&& picks.len() > 0
            &&& picks[0] == WriteModel::DefaultSink(id)
            &&& !(default_picks(collected(later)).len() > 0 && default_picks(
                collected(later),
            )[0] is DefaultSink)
        },
        (forall|i: int| 0 <= i < later.len() ==> !(#[trigger] later[i] is SetDefaultSource)) ==> {
            let picks = default_picks(
                collected(before.push(CommandModel::SetDefaultSource(id)) + later),
            );
            &&& picks.len() > 0
            &&& picks.last() == WriteModel::DefaultSource(id)
            &&& picks.len() <= 2
            &&& !(default_picks(collected(later)).len() > 0 && default_picks(
                collected(later),
            ).last() is DefaultSource)
        },
{
    let empty = Seq::<CommandModel>::empty();
    let a = before.push(CommandModel::SetDefaultSink(id));
    let b = before.push(CommandModel::SetDefaultSource(id));
    assert(a.drop_last() =~= before && b.drop_last() =~= before);
    assert(empty + later =~= later);
    lemma_kept_defaults(a, later);
    lemma_kept_defaults(b, later);
    lemma_kept_defaults(empty, later);
}

proof fn lemma_leveled(levels: Seq<(u32, i32)>, index: u32, level: i32, x: (u32, i32))
    requires
        one_level_each(levels),
    ensures
        leveled(levels, index, level).contains(x) <==> (x == (index, level) || (x.0 != index
            && levels.contains(x))),
{
    lemma_slot_found(levels, index);
    let at = slot(levels, index);
    let next = leveled(levels, index, level);
    if at < levels.len() {
        assert(next[at] == (index, level));
    } else {
        assert(next[levels.len() as int] == (index, level));
    }
    if next.contains(x) && x != (index, level) {
        let i = choose|i: int| 0 <= i < next.len() && next[i] == x;
        assert(levels[i] == x);
        assert(i != at);
        if at < levels.len() {
            assert(levels[at].0 == index);
        } else {
            assert(levels[i].0 != index);
        }
    }
    if x.0 != index && levels.contains(x) {
        let i = choose|i: int| 0 <= i < levels.len() && levels[i] == x;
        assert(next[i] == x);
    }
}

proof fn lemma_kept_stream_level(
    b: Seq<CommandModel>,
    later: Seq<CommandModel>,
    x: (u32, i32),
)
    requires
        forall|i: int|
            0 <= i < later.len() ==> !(#[trigger] later[i] matches CommandModel::SetStreamVolume {
                index,
                ..
            } && index == x.0),
    ensures
        collected(b + later).stream_levels.contains(x) <==> collected(b).stream_levels.contains(x),
    decreases later.len(),
{
    if later.len() == 0 {
        assert(b + later =~= b);
    } else {
        let head = later.drop_last();
        assert forall|i: int| 0 <= i < head.len() implies !(
        #[trigger] head[i] matches CommandModel::SetStreamVolume { index, .. } && index == x.0) by {
            assert(head[i] == later[i]);
        }
        lemma_kept_stream_level(b, head, x);
        assert((b + later).drop_last() =~= b + head);
        assert((b + later).last() == later[later.len() - 1]);
        lemma_one_level_each(b + head);
        if let CommandModel::SetStreamVolume { index, level } = later[later.len() - 1] {
            lemma_leveled(collected(b + head).stream_levels, index, level, x);
        }
    }
}

/// Each stream is asked to be at the last level asked for it, and a stream that
/// nobody asked about is not asked anything.
pub proof fn law_a_stream_is_asked_for_its_last_level(
    before: Seq<CommandModel>,
    index: u32,
    level: i32,
    later: Seq<CommandModel>,
    other: i32,
)
    requires
        forall|i: int|
            0 <= i < later.len() ==> !(#[trigger] later[i] matches CommandModel::SetStreamVolume {
                index: at,
                ..
            } && at == index),
    ensures
        ({
            let commands = before.push(CommandModel::SetStreamVolume { index, level }) + later;
            collected(commands).stream_levels.contains((index, other)) <==> other == level
        }),
        !collected(later).stream_levels.contains((index, other)),
{
    let head = before.push(CommandModel::SetStreamVolume { index, level });
    let empty = Seq::<CommandModel>::empty();
    assert(head.drop_last() =~= before);
    lemma_one_level_each(before);
    lemma_leveled(collected(before).stream_levels, index, level, (index, other));
    lemma_kept_stream_level(head, later, (index, other));
    assert(empty + later =~= later);
    lemma_kept_stream_level(empty, later, (index, other));
}

proof fn lemma_stream_channels(list: Seq<Stream>, index: u32, k: int)
    ensures
        0 <= k < list.len() && list[k].index == index && (forall|j: int|
            0 <= j < k ==> (#[trigger] list[j]).index != index) ==> stream_channels(list, index)
            == Some(list[k].channels),
        (forall|j: int| 0 <= j < list.len() ==> (#[trigger] list[j]).index != index)
            ==> stream_channels(list, index) is None,
    decreases list.len(),
{
    if list.len() > 0 && list[0].index != index {
        let rest = list.drop_first();
        assert(forall|j: int| 0 <= j < rest.len() ==> #[trigger] rest[j] == list[j + 1]);
        lemma_stream_channels(rest, index, k - 1);
    }
}

/// The write for the `i`-th level, where its stream is there.
spec fn write_for(levels: Seq<(u32, i32)>, last: Seq<Stream>, i: int) -> WriteModel {
    WriteModel::StreamVolume {
        index: levels[i].0,
        volumes: on_all(
            carried(stream_channels(last, levels[i].0)->0),
            limited(levels[i].1 as int),
        ),
    }
}

proof fn lemma_stream_written(levels: Seq<(u32, i32)>, last: Seq<Stream>, i: int)
    requires
        0 <= i < levels.len(),
        stream_channels(last, levels[i].0) is Some,
    ensures
        stream_writes(levels, last).contains(write_for(levels, last, i)),
    decreases levels.len(),
{
    let head = levels.drop_last();
    let rest = stream_writes(head, last);
    let all = stream_writes(levels, last);
    let w = write_for(levels, last, i);
    if i < head.len() {
        lemma_stream_written(head, last, i);
        assert(head[i] == levels[i]);
        assert(write_for(head, last, i) == w);
        let p = choose|p: int| 0 <= p < rest.len() && rest[p] == w;
        assert(all[p] == w);
    } else {
        assert(levels.last() == levels[i]);
        assert(all[rest.len() as int] == w);
    }
}

proof fn lemma_written_streams(levels: Seq<(u32, i32)>, last: Seq<Stream>, p: int)
    requires
        0 <= p < stream_writes(levels, last).len(),
    ensures
        stream_writes(levels, last)[p] matches WriteModel::StreamVolume { index, .. }
            && stream_channels(last, index) is Some,
    decreases levels.len(),
{
    let rest = stream_writes(levels.drop_last(), last);
    if p < rest.len() {
        lemma_written_streams(levels.drop_last(), last, p);
        assert(stream_writes(levels, last)[p] == rest[p]);
    }
}

/// A stream that is there gets its level on each of its channels, within the
/// bounds of a device; one that is gone gets no write.
pub proof fn law_a_stream_gets_its_level(
    levels: Seq<(u32, i32)>,
    last: Seq<Stream>,
    i: int,
    k: int,
)
    requires
        0 <= i < levels.len(),
        one_level_each(levels),
    ensures
        0 <= k < last.len() && last[k].index == levels[i].0 && (forall|j: int|
            0 <= j < k ==> (#[trigger] last[j]).index != levels[i].0) ==> {
            let end: u32 = if levels[i].1 < 0 {
                0
            } else if levels[i].1 > 98_304 {
                98_304
            } else {
                levels[i].1 as u32
            };
            let n: nat = if last[k].channels == 0 {
                1
            } else if last[k].channels > 32 {
                32
            } else {
                last[k].channels as nat
            };
            stream_writes(levels, last).contains(
                WriteModel::StreamVolume {
                    index: levels[i].0,
                    volumes: Seq::new(n, |c: int| end),
                },
            )
        },
        (forall|j: int| 0 <= j < last.len() ==> (#[trigger] last[j]).index != levels[i].0)
            ==> forall|v: Seq<u32>|
            !(#[trigger] stream_writes(levels, last).contains(
                WriteModel::StreamVolume { index: levels[i].0, volumes: v },
            )),
{
    lemma_stream_channels(last, levels[i].0, k);
    if stream_channels(last, levels[i].0) is Some {
        lemma_stream_written(levels, last, i);
    }
    let all = stream_writes(levels, last);
    if forall|j: int| 0 <= j < last.len() ==> (#[trigger] last[j]).index != levels[i].0 {
        assert forall|v: Seq<u32>|
            !(#[trigger] all.contains(
                WriteModel::StreamVolume { index: levels[i].0, volumes: v },
            )) by {
            let w = WriteModel::StreamVolume { index: levels[i].0, volumes: v };
            if all.contains(w) {
                let p = choose|p: int| 0 <= p < all.len() && all[p] == w;
                lemma_written_streams(levels, last, p);
            }
        }
    }
}

/// A batch touches a device exactly when applying it to one writes something,
/// and is empty exactly when no device, no default and no stream is asked
/// anything.
pub proof fn law_what_a_batch_touches(b: BatchModel, t: Target)
    ensures
        b.sink_touched() <==> sink_writes(b, t).len() > 0,
        b.source_touched() <==> source_writes(b, t).len() > 0,
        b.nothing() <==> {
            &&& sink_writes(b, t).len() == 0
            &&& source_writes(b, t).len() == 0
            &&& default_picks(b).len() == 0
            &&& b.stream_levels.len() == 0
        },
        default_picks(b).len() == (if b.default_sink is Some {
            1nat
        } else {
            0nat
        }) + (if b.default_source is Some {
            1nat
        } else {
            0nat
        }),
{
}

} // verus!
