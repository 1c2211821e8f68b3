//! The caption of the authentication card: which of the things that could be
//! said is said.
//!
//! The order is total: a status outranks the Caps Lock edge, which outranks a
//! fingerprint hint, which outranks the resting sentence.

use vstd::prelude::*;
use vstd::string::*;
use vstd::utf8::*;
use crate::text::same;

verus! {

/// How long a transient caption holds, in milliseconds.
pub const DWELL_MS: u64 = 2000;

/// Caps Lock's mark.
pub const CAPS_GLYPH: &'static str = "\u{f0632}";

/// The words for Caps Lock.
pub const CAPS_TEXT: &'static str = "Caps Lock is on";

/// A status longer than this, in bytes, stays reachable as a tooltip.
pub const TOOLTIP_OVER: usize = 80;

/// What the caption says, the quietest first.
#[derive(Debug, Clone, Copy, PartialEq, Eq, Structural)]
pub enum Rank {
    Resting,
    FpHint,
    Caps,
    Status,
}

impl Rank {
    /// How loud it is.
    pub open spec fn loudness(self) -> int {
        match self {
            Rank::Resting => 0,
            Rank::FpHint => 1,
            Rank::Caps => 2,
            Rank::Status => 3,
        }
    }

    fn level(self) -> (r: u8)
        ensures
            r == self.loudness(),
    {
        match self {
            Rank::Resting => 0,
            Rank::FpHint => 1,
            Rank::Caps => 2,
            Rank::Status => 3,
        }
    }
}

/// How a line is coloured. A status can be an error or an ordinary note.
#[derive(Debug, Clone, Copy, PartialEq, Eq, Structural)]
pub enum Tone {
    Info,
    Error,
    Success,
}

impl Tone {
    /// The class of a tone.
    pub fn class(self) -> (r: &'static str)
        ensures
            r == tone_class(self),
    {
        match self {
            Tone::Info => "auth-caption-info",
            Tone::Error => "auth-caption-error",
            Tone::Success => "auth-caption-success",
        }
    }
}

/// The class of a tone.
pub open spec fn tone_class(t: Tone) -> &'static str {
    match t {
        Tone::Info => "auth-caption-info",
        Tone::Error => "auth-caption-error",
        Tone::Success => "auth-caption-success",
    }
}

/// The class of a hint from the fingerprint reader.
pub const FP_CLASS: &'static str = "auth-caption-fp";

/// The class of the Caps Lock edge.
pub const CAPS_CLASS: &'static str = "auth-caption-caps";

/// A line to paint: all other classes come off.
#[derive(Debug, PartialEq, Eq)]
pub struct Line {
    pub text: String,
    /// The Caps Lock warning stands behind it.
    pub caps: bool,
    pub class: &'static str,
}

/// A [`Line`] as the contracts speak of it.
#[verifier::ext_equal]
pub struct LineModel {
    pub text: Seq<char>,
    pub caps: bool,
    pub class: &'static str,
}

impl View for Line {
    type V = LineModel;

    open spec fn view(&self) -> LineModel {
        LineModel { text: self.text@, caps: self.caps, class: self.class }
    }
}

/// What becomes of the tooltip.
#[derive(Debug, PartialEq, Eq)]
pub enum Tip {
    Keep,
    Clear,
    Show(String),
}

/// A [`Tip`] as the contracts speak of it.
pub enum TipModel {
    Keep,
    Clear,
    Show(Seq<char>),
}

impl View for Tip {
    type V = TipModel;

    open spec fn view(&self) -> TipModel {
        match *self {
            Tip::Keep => TipModel::Keep,
            Tip::Clear => TipModel::Clear,
            Tip::Show(s) => TipModel::Show(s@),
        }
    }
}

/// What a change of the caption takes.
#[derive(Debug, PartialEq, Eq)]
pub struct Paint {
    pub line: Option<Line>,
    pub tooltip: Tip,
    /// Report back after [`DWELL_MS`] with this epoch and rank.
    pub dwell: Option<(u64, Rank)>,
}

/// A [`Paint`] as the contracts speak of it.
#[verifier::ext_equal]
pub struct PaintModel {
    pub line: Option<LineModel>,
    pub tooltip: TipModel,
    pub dwell: Option<(u64, Rank)>,
}

impl View for Paint {
    type V = PaintModel;

    open spec fn view(&self) -> PaintModel {
        PaintModel {
            line: match self.line {
                Some(l) => Some(l@),
                None => None,
            },
            tooltip: self.tooltip@,
            dwell: self.dwell,
        }
    }
}

/// Nothing to paint.
pub open spec fn no_paint() -> PaintModel {
    PaintModel { line: None, tooltip: TipModel::Keep, dwell: None }
}

fn nothing() -> (r: Paint)
    ensures
        r@ == no_paint(),
{
    Paint { line: None, tooltip: Tip::Keep, dwell: None }
}

/// The caption.
#[derive(Debug)]
pub struct Caption {
    resting: String,
    shown: Rank,
    epoch: u64,
}

/// A [`Caption`] as the contracts speak of it.
#[verifier::ext_equal]
pub struct CaptionModel {
    /// What it says when there is nothing else to say.
    pub resting: Seq<char>,
    pub shown: Rank,
    /// Changes with everything that is said, so that a dwell that was armed
    /// for something else expires without doing anything.
    pub epoch: u64,
}

impl View for Caption {
    type V = CaptionModel;

    closed spec fn view(&self) -> CaptionModel {
        CaptionModel { resting: self.resting@, shown: self.shown, epoch: self.epoch }
    }
}

/// The epoch after another.
pub open spec fn epoch_after(e: u64) -> u64 {
    if e == u64::MAX {
        0
    } else {
        (e + 1) as u64
    }
}

/// The resting sentence as a line.
pub open spec fn resting_line(text: Seq<char>) -> LineModel {
    LineModel { text, caps: false, class: tone_class(Tone::Info) }
}

/// The caption with another resting sentence.
pub open spec fn rested(c: CaptionModel, text: Seq<char>) -> (CaptionModel, PaintModel) {
    if c.resting == text {
        (c, no_paint())
    } else {
        (
            CaptionModel { resting: text, ..c },
            if c.shown == Rank::Resting {
                PaintModel { line: Some(resting_line(text)), ..no_paint() }
            } else {
                no_paint()
            },
        )
    }
}

/// The caption told something that holds for a while.
pub open spec fn hinted(c: CaptionModel, rank: Rank, text: Seq<char>, class: &'static str) -> (
    CaptionModel,
    PaintModel,
) {
    if c.shown.loudness() > rank.loudness() {
        (c, no_paint())
    } else {
        (
            CaptionModel { shown: rank, epoch: epoch_after(c.epoch), ..c },
            PaintModel {
                line: Some(LineModel { text, caps: false, class }),
                tooltip: TipModel::Keep,
                dwell: Some((epoch_after(c.epoch), rank)),
            },
        )
    }
}

/// The caption back at rest, where that is what it says.
pub open spec fn cleared(c: CaptionModel, rank: Rank) -> (CaptionModel, PaintModel) {
    if c.shown != rank {
        (c, no_paint())
    } else {
        (
            CaptionModel { shown: Rank::Resting, epoch: epoch_after(c.epoch), ..c },
            PaintModel {
                line: Some(resting_line(c.resting)),
                tooltip: TipModel::Clear,
                dwell: None,
            },
        )
    }
}

/// The caption told a status. The Caps Lock warning is composed onto an error
/// rather than evicting it.
pub open spec fn told(c: CaptionModel, text: Seq<char>, tone: Tone, caps: bool) -> (
    CaptionModel,
    PaintModel,
) {
    if text.len() == 0 {
        cleared(c, Rank::Status)
    } else {
        (
            CaptionModel { shown: Rank::Status, epoch: epoch_after(c.epoch), ..c },
            PaintModel {
                line: Some(
                    LineModel { text, caps: caps && tone == Tone::Error, class: tone_class(tone) },
                ),
                tooltip: if encode_utf8(text).len() > TOOLTIP_OVER {
                    TipModel::Show(text)
                } else {
                    TipModel::Clear
                },
                dwell: None,
            },
        )
    }
}

/// The caption after a dwell: back at rest, unless somebody else has spoken
/// since.
pub open spec fn dwelt(c: CaptionModel, epoch: u64, rank: Rank) -> (CaptionModel, PaintModel) {
    if c.epoch == epoch {
        cleared(c, rank)
    } else {
        (c, no_paint())
    }
}

impl Caption {
    /// A caption that has nothing to say yet.
    pub fn new() -> (r: Caption)
        ensures
            r@ == (CaptionModel { resting: Seq::empty(), shown: Rank::Resting, epoch: 0 }),
    {
        let r = Caption { resting: String::new(), shown: Rank::Resting, epoch: 0 };
        assert(r@.resting =~= Seq::empty());
        r
    }

    /// Sets the sentence the caption falls back to. Callers pass the wording
    /// for the methods that accept input right now.
    pub fn set_resting(&mut self, text: &str) -> (r: Paint)
        ensures
            (final(self)@, r@) == rested(old(self)@, text@),
    {
        if same(self.resting.as_str(), text) {
            return nothing();
        }
        self.resting = text.to_owned();
        if self.shown == Rank::Resting {
            Paint {
                line: Some(
                    Line { text: text.to_owned(), caps: false, class: Tone::Info.class() },
                ),
                tooltip: Tip::Keep,
                dwell: None,
            }
        } else {
            nothing()
        }
    }

    fn transient(&mut self, rank: Rank, text: &str, class: &'static str) -> (r: Paint)
        ensures
            (final(self)@, r@) == hinted(old(self)@, rank, text@, class),
    {
        if self.shown.level() > rank.level() {
            return nothing();
        }
        self.epoch = self.epoch.wrapping_add(1);
        self.shown = rank;
        Paint {
            line: Some(Line { text: text.to_owned(), caps: false, class }),
            tooltip: Tip::Keep,
            dwell: Some((self.epoch, rank)),
        }
    }

    /// A fingerprint hint.
    pub fn fp_hint(&mut self, text: &str) -> (r: Paint)
        ensures
            (final(self)@, r@) == hinted(old(self)@, Rank::FpHint, text@, FP_CLASS),
    {
        self.transient(Rank::FpHint, text, FP_CLASS)
    }

    /// Caps Lock just changed.
    pub fn caps_edge(&mut self) -> (r: Paint)
        ensures
            (final(self)@, r@) == hinted(old(self)@, Rank::Caps, CAPS_TEXT@, CAPS_CLASS),
    {
        self.transient(Rank::Caps, CAPS_TEXT, CAPS_CLASS)
    }

    /// A status; it holds until it is cleared. The empty one clears it.
    pub fn status(&mut self, text: &str, tone: Tone, caps: bool) -> (r: Paint)
        ensures
            (final(self)@, r@) == told(old(self)@, text@, tone, caps),
    {
        proof {
            reveal_strlit("");
            if text@.len() == 0 {
                assert(text@ =~= ""@);
            }
        }
        if same(text, "") {
            return self.clear(Rank::Status);
        }
        self.epoch = self.epoch.wrapping_add(1);
        self.shown = Rank::Status;
        let tooltip = if text.as_bytes().len() > TOOLTIP_OVER {
            Tip::Show(text.to_owned())
        } else {
            Tip::Clear
        };
        Paint {
            line: Some(
                Line {
                    text: text.to_owned(),
                    caps: caps && tone == Tone::Error,
                    class: tone.class(),
                },
            ),
            tooltip,
            dwell: None,
        }
    }

    fn clear(&mut self, rank: Rank) -> (r: Paint)
        ensures
            (final(self)@, r@) == cleared(old(self)@, rank),
    {
        if self.shown != rank {
            return nothing();
        }
        self.epoch = self.epoch.wrapping_add(1);
        self.shown = Rank::Resting;
        Paint {
            line: Some(
                Line { text: self.resting.clone(), caps: false, class: Tone::Info.class() },
            ),
            tooltip: Tip::Clear,
            dwell: None,
        }
    }

    /// Clears a status: the next keypress means that the user has chosen the
    /// password.
    pub fn clear_status(&mut self) -> (r: Paint)
        ensures
            (final(self)@, r@) == cleared(old(self)@, Rank::Status),
    {
        self.clear(Rank::Status)
    }

    /// A dwell is over.
    pub fn dwell_over(&mut self, epoch: u64, rank: Rank) -> (r: Paint)
        ensures
            (final(self)@, r@) == dwelt(old(self)@, epoch, rank),
    {
        if self.epoch == epoch {
            self.clear(rank)
        } else {
            nothing()
        }
    }
}

/// Neither a hint nor the Caps Lock edge, nor the end of their dwell, takes a
/// status off the line.
pub proof fn law_nothing_preempts_a_status(
    c: CaptionModel,
    rank: Rank,
    text: Seq<char>,
    class: &'static str,
    epoch: u64,
)
    requires
        c.shown == Rank::Status,
        rank != Rank::Status,
    ensures
        hinted(c, rank, text, class) == (c, no_paint()),
        dwelt(c, epoch, rank) == (c, no_paint()),
{
}

/// A dwell that was armed for something that was replaced since does nothing.
pub proof fn law_a_stale_dwell_does_nothing(
    c: CaptionModel,
    first: Seq<char>,
    second: Seq<char>,
    rank: Rank,
    class: &'static str,
)
    requires
        c.shown.loudness() <= rank.loudness(),
    ensures
        ({
            let (once, paint) = hinted(c, rank, first, class);
            let (twice, _) = hinted(once, rank, second, class);
            paint.dwell is Some && dwelt(twice, (paint.dwell->0).0, (paint.dwell->0).1) == (
                twice,
                no_paint(),
            )
        }),
{
}

/// When its dwell ends undisturbed, a hint gives way to the resting sentence.
pub proof fn law_a_hint_gives_way_to_the_resting_sentence(
    c: CaptionModel,
    text: Seq<char>,
    rank: Rank,
    class: &'static str,
)
    requires
        c.shown.loudness() <= rank.loudness(),
    ensures
        ({
            let (once, paint) = hinted(c, rank, text, class);
            let (after, back) = dwelt(once, epoch_after(c.epoch), rank);
            paint.dwell == Some((epoch_after(c.epoch), rank)) && after.shown == Rank::Resting
                && back.line == Some(resting_line(c.resting))
        }),
{
}

/// What holds for a while takes the line over from anything as quiet or
/// quieter, with its own text and colour, and asks to be reminded; a louder line
/// stays, and so does all else. Caps Lock is louder than a fingerprint hint, a
/// status than either, and anything than the resting sentence.
pub proof fn law_the_louder_line_stays(
    c: CaptionModel,
    rank: Rank,
    text: Seq<char>,
    class: &'static str,
)
    ensures
        ({
            let (after, paint) = hinted(c, rank, text, class);
            let louder = match rank {
                Rank::Resting => c.shown != Rank::Resting,
                Rank::FpHint => c.shown == Rank::Caps || c.shown == Rank::Status,
                Rank::Caps => c.shown == Rank::Status,
                Rank::Status => false,
            };
            &&& louder ==> after == c && paint.line is None && paint.dwell is None && paint.tooltip
                == TipModel::Keep
            &&& !louder ==> {
                &&& after.shown == rank
                &&& after.resting == c.resting
                &&& after.epoch != c.epoch
                &&& paint.line == Some(LineModel { text, caps: false, class })
                &&& paint.dwell == Some((after.epoch, rank))
                &&& paint.tooltip == TipModel::Keep
            }
        }),
        DWELL_MS == 2000,
        TOOLTIP_OVER == 80,
{
}

/// A status takes the line whatever is on it, in its tone, and holds: nothing
/// asks for it to end. The Caps Lock warning stands behind an error alone, and a
/// long status is kept in full as a tooltip. The empty status takes the last one
/// off.
pub proof fn law_a_status_holds(c: CaptionModel, text: Seq<char>, tone: Tone, caps: bool)
    ensures
        text.len() > 0 ==> {
            let (after, paint) = told(c, text, tone, caps);
            &&& after.shown == Rank::Status
            &&& after.resting == c.resting
            &&& after.epoch != c.epoch
            &&& paint.dwell is None
            &&& paint.line == Some(
                LineModel {
                    text,
                    caps: caps && tone == Tone::Error,
                    class: match tone {
                        Tone::Info => "auth-caption-info",
                        Tone::Error => "auth-caption-error",
                        Tone::Success => "auth-caption-success",
                    },
                },
            )
            &&& paint.tooltip == if encode_utf8(text).len() > 80 {
                TipModel::Show(text)
            } else {
                TipModel::Clear
            }
        },
        text.len() == 0 && c.shown == Rank::Status ==> {
            let (after, paint) = told(c, text, tone, caps);
            &&& after.shown == Rank::Resting
            &&& after.epoch != c.epoch
            &&& paint.line == Some(
                LineModel { text: c.resting, caps: false, class: "auth-caption-info" },
            )
            &&& paint.tooltip == TipModel::Clear
            &&& paint.dwell is None
        },
        text.len() == 0 && c.shown != Rank::Status ==> told(c, text, tone, caps).0 == c && told(
            c,
            text,
            tone,
            caps,
        ).1.line is None,
{
}

/// Clearing brings back the resting sentence where that is what is on the line,
/// and leaves anything else alone; a reminder does so only for what it was asked
/// for.
pub proof fn law_clearing_takes_off_only_its_own(c: CaptionModel, rank: Rank, epoch: u64)
    ensures
        c.shown == rank ==> {
            let (after, paint) = cleared(c, rank);
            &&& after.shown == Rank::Resting
            &&& after.resting == c.resting
            &&& after.epoch != c.epoch
            &&& paint.line == Some(
                LineModel { text: c.resting, caps: false, class: "auth-caption-info" },
            )
            &&& paint.dwell is None
        },
        c.shown != rank ==> cleared(c, rank).0 == c && cleared(c, rank).1.line is None,
        c.epoch == epoch ==> dwelt(c, epoch, rank) == cleared(c, rank),
        c.epoch != epoch ==> dwelt(c, epoch, rank).0 == c && dwelt(c, epoch, rank).1.line is None,
{
}

/// A new resting sentence is what the caption falls back to; it is painted at
/// once where the caption rests, and not twice.
pub proof fn law_the_resting_sentence_waits(c: CaptionModel, text: Seq<char>)
    ensures
        rested(c, text).0 == (CaptionModel { resting: text, ..c }),
        rested(c, text).1.line == if c.shown == Rank::Resting && c.resting != text {
            Some(LineModel { text, caps: false, class: "auth-caption-info" })
        } else {
            None
        },
        rested(c, text).1.dwell is None,
{
}

} // verus!
