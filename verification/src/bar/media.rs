//! The media mark: what plays, and what a change of it redraws.

use vstd::prelude::*;
use vstd::string::*;
use crate::text::{concat3, same, same_text, text_of, trim, trimmed};

verus! {

#[derive(Debug, Clone, Copy, PartialEq, Eq, Structural)]
pub enum PlaybackStatus {
    Playing,
    Paused,
    Stopped,
}

/// What a player says of itself.
#[derive(Debug, PartialEq, Eq)]
pub struct MediaState {
    pub title: String,
    pub artist: String,
    pub status: PlaybackStatus,
    /// Where its album art lies on disk, if it does.
    pub art_path: Option<String>,
}

/// A [`MediaState`] as the contracts speak of it.
pub struct MediaModel {
    pub title: Seq<char>,
    pub artist: Seq<char>,
    pub status: PlaybackStatus,
    pub art_path: Option<Seq<char>>,
}

impl View for MediaState {
    type V = MediaModel;

    open spec fn view(&self) -> MediaModel {
        MediaModel {
            title: self.title@,
            artist: self.artist@,
            status: self.status,
            art_path: text_of(self.art_path),
        }
    }
}

/// The model of a player that may be missing.
pub open spec fn media_of(m: Option<MediaState>) -> Option<MediaModel> {
    match m {
        Some(m) => Some(m@),
        None => None,
    }
}

/// One line for the mark: title and artist, or whichever half exists.
pub open spec fn pill(title: Seq<char>, artist: Seq<char>) -> Seq<char> {
    let t = trimmed(title);
    let a = trimmed(artist);
    if t.len() == 0 && a.len() == 0 {
        "♪"@
    } else if a.len() == 0 {
        t
    } else if t.len() == 0 {
        a
    } else {
        t + " · "@ + a
    }
}

fn is_blank(s: &str) -> (r: bool)
    ensures
        r == (s@.len() == 0),
{
    proof {
        reveal_strlit("");
        if s@.len() == 0 {
            assert(s@ =~= ""@);
        }
    }
    same(s, "")
}

/// One line for the mark: title and artist, or whichever half exists.
pub fn pill_text(ms: &MediaState) -> (r: String)
    ensures
        r@ == pill(ms.title@, ms.artist@),
{
    let title = trim(ms.title.as_str());
    let artist = trim(ms.artist.as_str());
    let untitled = is_blank(title.as_str());
    let unsung = is_blank(artist.as_str());
    if untitled && unsung {
        "♪".to_owned()
    } else if unsung {
        title
    } else if untitled {
        artist
    } else {
        concat3(title.as_str(), " · ", artist.as_str())
    }
}

fn same_media(a: &Option<MediaState>, b: &Option<MediaState>) -> (r: bool)
    ensures
        r == (media_of(*a) == media_of(*b)),
{
    match (a, b) {
        (Some(x), Some(y)) => same(x.title.as_str(), y.title.as_str()) && same(
            x.artist.as_str(),
            y.artist.as_str(),
        ) && x.status == y.status && same_text(&x.art_path, &y.art_path),
        (None, None) => true,
        _ => false,
    }
}

/// What becomes of the album art.
#[derive(Debug, PartialEq, Eq)]
pub enum Art {
    /// Read it from this file, and show it.
    Load(String),
    /// It is there already: show it.
    Show,
    Hide,
    /// Leave it as it is.
    Keep,
}

/// What becomes of the popover.
#[derive(Debug, Clone, Copy, PartialEq, Eq, Structural)]
pub enum Pop {
    Close,
    Redraw,
    Leave,
}

/// What a change of player redraws.
#[derive(Debug, PartialEq, Eq)]
pub struct Change {
    pub visible: bool,
    pub playing: bool,
    pub art: Art,
    /// The new line; without a player it stays as it was.
    pub text: Option<String>,
    pub popover: Pop,
}

/// What becomes of the art, from what was shown to what is played. The art is
/// read anew only where it is another file.
pub open spec fn art_step(before: Option<MediaModel>, after: Option<MediaModel>, art: Art) -> bool {
    match after {
        None => art is Keep,
        Some(m) => match m.art_path {
            None => art is Hide,
            Some(path) => if before is Some && before->0.art_path == Some(path) {
                art is Show
            } else {
                art matches Art::Load(p) && p@ == path
            },
        },
    }
}

/// Whether a change redraws what a player says, with the popover open or not.
pub open spec fn redraws(
    before: Option<MediaModel>,
    after: Option<MediaModel>,
    open: bool,
    c: Change,
) -> bool {
    &&& c.visible == (after is Some)
    &&& c.playing == (after is Some && after->0.status == PlaybackStatus::Playing)
    &&& art_step(before, after, c.art)
    &&& text_of(c.text) == match after {
        Some(m) => Some(pill(m.title, m.artist)),
        None => None,
    }
    &&& c.popover == if after is None {
        Pop::Close
    } else if open {
        Pop::Redraw
    } else {
        Pop::Leave
    }
}

/// The mark: what it shows. Without a player it is hidden.
#[derive(Debug)]
pub struct MediaMark {
    state: Option<MediaState>,
}

impl View for MediaMark {
    type V = Option<MediaModel>;

    closed spec fn view(&self) -> Option<MediaModel> {
        media_of(self.state)
    }
}

impl MediaMark {
    /// A hidden mark.
    pub fn new() -> (r: MediaMark)
        ensures
            r@ is None,
    {
        MediaMark { state: None }
    }

    /// Shows a player; `None` for a state that is on screen already.
    pub fn apply(&mut self, state: Option<MediaState>, open: bool) -> (r: Option<Change>)
        ensures
            final(self)@ == media_of(state),
            r is None <==> old(self)@ == media_of(state),
            r is Some ==> redraws(old(self)@, media_of(state), open, r->0),
    {
        if same_media(&self.state, &state) {
            return None;
        }
        let mut change = Change {
            visible: false,
            playing: false,
            art: Art::Keep,
            text: None,
            popover: Pop::Close,
        };
        if let Some(ms) = &state {
            let art = match &ms.art_path {
                None => Art::Hide,
                Some(path) => {
                    let known = match &self.state {
                        Some(shown) => same_text(&shown.art_path, &ms.art_path),
                        None => false,
                    };
                    if known {
                        Art::Show
                    } else {
                        Art::Load(path.clone())
                    }
                },
            };
            change = Change {
                visible: true,
                playing: ms.status == PlaybackStatus::Playing,
                art,
                text: Some(pill_text(ms)),
                popover: if open {
                    Pop::Redraw
                } else {
                    Pop::Leave
                },
            };
        }
        self.state = state;
        Some(change)
    }
}

/// The title in the popover.
pub fn popover_title(ms: &MediaState) -> (r: String)
    ensures
        r@ == if ms.title@.len() == 0 {
            "Unknown track"@
        } else {
            ms.title@
        },
{
    if is_blank(ms.title.as_str()) {
        "Unknown track".to_owned()
    } else {
        ms.title.clone()
    }
}

/// The artist in the popover, where there is one.
pub fn popover_artist(ms: &MediaState) -> (r: Option<String>)
    ensures
        text_of(r) == if ms.artist@.len() == 0 {
            None
        } else {
            Some(ms.artist@)
        },
{
    if is_blank(ms.artist.as_str()) {
        None
    } else {
        Some(ms.artist.clone())
    }
}

/// The line has title and artist, trimmed, with a dot between; where one is
/// blank it is the other alone, and a note where both are.
pub proof fn law_what_the_mark_reads(title: Seq<char>, artist: Seq<char>)
    ensures
        ({
            let t = trimmed(title);
            let a = trimmed(artist);
            let line = pill(title, artist);
            &&& t.len() > 0 && a.len() > 0 ==> line == t + " · "@ + a
            &&& t.len() > 0 && a.len() == 0 ==> line == t
            &&& t.len() == 0 && a.len() > 0 ==> line == a
            &&& t.len() == 0 && a.len() == 0 ==> line == "♪"@
        }),
{
}

/// The art follows the file it lies in: another file is loaded, the same one
/// shown, none hidden; without a player nothing happens to it.
pub proof fn law_the_art_follows_its_file(
    before: Option<MediaModel>,
    after: Option<MediaModel>,
    art: Art,
)
    requires
        art_step(before, after, art),
    ensures
        after is None ==> art is Keep,
        after is Some && after->0.art_path is None ==> art is Hide,
        after is Some && after->0.art_path is Some && before is Some && before->0.art_path
            == after->0.art_path ==> art is Show,
        after is Some && after->0.art_path is Some && (before is None || before->0.art_path
            != after->0.art_path) ==> art is Load && art->Load_0@ == after->0.art_path->0,
{
}

/// A change shows the player that there is now: the mark is there with it and
/// gone without, marked as playing only while it plays, and reads as it does;
/// an open popover is redrawn, and closed where the player is gone.
pub proof fn law_a_change_shows_the_player(
    before: Option<MediaModel>,
    after: MediaModel,
    open: bool,
    c: Change,
)
    ensures
        redraws(before, Some(after), open, c) ==> {
            &&& c.visible
            &&& c.playing <==> after.status is Playing
            &&& text_of(c.text) == Some(pill(after.title, after.artist))
            &&& open ==> c.popover is Redraw
            &&& !open ==> c.popover is Leave
        },
        redraws(before, None, open, c) ==> {
            &&& !c.visible
            &&& !c.playing
            &&& c.text is None
            &&& c.popover is Close
            &&& c.art is Keep
        },
{
}

} // verus!
