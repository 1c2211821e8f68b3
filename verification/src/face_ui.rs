//! The confirm surface: what it shows, and when a press authorises.
//!
//! The announcement names the process that asks, before any decision can be
//! made. Only once the face has matched does a press mean anything. A matched
//! request whose window is over without a press is refused.

use vstd::prelude::*;
use vstd::string::*;
use crate::face::{Request, RequestModel, Stage};
use crate::text::{
    chars_of, grouped, joined, matches_at, occurs_at, same, split_words, string_of, text_of, trim,
    trimmed, words,
};

verus! {

/// How long a command may be to be shown whole, in characters.
pub const COMMAND_LEN: usize = 72;

/// How much of the beginning of a longer one is shown.
pub const COMMAND_HEAD: usize = 40;

/// How much of the end of a longer one is shown.
pub const COMMAND_TAIL: usize = 28;

// ── The command ────────────────────────────────────────────────────────

/// The place of the last slash.
pub open spec fn last_slash(word: Seq<char>) -> Option<int>
    decreases word.len(),
{
    if word.len() == 0 {
        None
    } else if word.last() == '/' {
        Some(word.len() - 1)
    } else {
        last_slash(word.drop_last())
    }
}

/// A word, without the store path in front of a program.
pub open spec fn pretty(word: Seq<char>) -> Seq<char> {
    match last_slash(word) {
        Some(at) => if occurs_at(word.take(at), "/nix/store/"@, 0) && at + 1 < word.len() {
            word.skip(at + 1)
        } else {
            word
        },
        None => word,
    }
}

/// Copies what stands between two places.
fn part(v: &Vec<char>, from: usize, to: usize) -> (r: Vec<char>)
    requires
        from <= to <= v@.len(),
    ensures
        r@ == v@.subrange(from as int, to as int),
{
    let mut r: Vec<char> = Vec::new();
    let mut i: usize = from;
    while i < to
        invariant
            from <= i <= to <= v@.len(),
            r@ == v@.subrange(from as int, i as int),
        decreases to - i,
    {
        r.push(v[i]);
        assert(v@.subrange(from as int, i + 1) =~= v@.subrange(from as int, i as int).push(
            v@[i as int],
        ));
        i += 1;
    }
    r
}

/// A word, without the store path in front of a program: sixty characters of
/// hash distinguish nothing.
pub fn prettify(word: &Vec<char>) -> (r: Vec<char>)
    ensures
        r@ == pretty(word@),
{
    let mut n: usize = word.len();
    assert(word@.take(n as int) =~= word@);
    while n > 0 && word[n - 1] != '/'
        invariant
            n <= word@.len(),
            last_slash(word@) == last_slash(word@.take(n as int)),
        decreases n,
    {
        assert(word@.take(n as int).drop_last() =~= word@.take(n - 1));
        assert(word@.take(n as int).last() == word@[n - 1]);
        n -= 1;
    }
    if n > 0 {
        assert(word@.take(n as int).last() == word@[n - 1]);
        let head = part(word, 0, n - 1);
        assert(head@ =~= word@.take(n - 1));
        let store = chars_of("/nix/store/");
        if n < word.len() && matches_at(head.as_slice(), store.as_slice(), 0) {
            let tail = part(word, n, word.len());
            assert(tail@ =~= word@.skip(n as int));
            return tail;
        }
    }
    let all = part(word, 0, word.len());
    assert(all@ =~= word@);
    all
}

/// Words without store paths.
pub open spec fn pretties(list: Seq<Seq<char>>) -> Seq<Seq<char>> {
    list.map_values(|w: Seq<char>| pretty(w))
}

/// A command on one line.
pub open spec fn command_line(cmdline: Seq<char>, exe: Seq<char>) -> Seq<char> {
    let raw = if trimmed(cmdline).len() == 0 {
        exe
    } else {
        cmdline
    };
    trimmed(joined(pretties(words(raw)), seq![' ']))
}

/// A command as it is shown: whole, or both its ends.
pub open spec fn summary(cmdline: Seq<char>, exe: Seq<char>) -> Seq<char> {
    let text = command_line(cmdline, exe);
    if text.len() <= COMMAND_LEN {
        text
    } else {
        text.take(COMMAND_HEAD as int).push('…') + text.skip(text.len() - COMMAND_TAIL)
    }
}

/// A command as it is shown: whole, or both its ends, since the program in
/// front matters and so does what it is told to do.
pub fn summarise(cmdline: &str, exe: &str) -> (r: String)
    ensures
        r@ == summary(cmdline@, exe@),
{
    let t = trim(cmdline);
    proof {
        reveal_strlit("");
        if t@.len() == 0 {
            assert(t@ =~= ""@);
        }
    }
    let raw = if same(t.as_str(), "") {
        exe
    } else {
        cmdline
    };
    let v = chars_of(raw);
    let list = split_words(v.as_slice());
    let mut line: Vec<char> = Vec::new();
    let mut i: usize = 0;
    let ghost want = pretties(words(raw@));
    assert(line@ =~= joined(want.take(0), seq![' ']));
    while i < list.len()
        invariant
            i <= list@.len(),
            grouped(list@) == words(raw@),
            want == pretties(words(raw@)),
            line@ == joined(want.take(i as int), seq![' ']),
        decreases list@.len() - i,
    {
        let ghost next = want.take(i + 1);
        let ghost before = line@;
        assert(next.drop_last() =~= want.take(i as int));
        assert(words(raw@)[i as int] == list@[i as int]@);
        assert(next.last() == pretty(list@[i as int]@));
        let mut word = prettify(&list[i]);
        let ghost w = word@;
        if i > 0 {
            line.push(' ');
        }
        line.append(&mut word);
        assert(line@ =~= joined(next, seq![' ']));
        i += 1;
    }
    assert(want.take(want.len() as int) =~= want);
    let text = crate::text::trim_chars(line.as_slice());
    if text.len() <= COMMAND_LEN {
        return string_of(text.as_slice());
    }
    let mut out = part(&text, 0, COMMAND_HEAD);
    out.push('…');
    let mut tail = part(&text, text.len() - COMMAND_TAIL, text.len());
    out.append(&mut tail);
    assert(out@ =~= text@.take(COMMAND_HEAD as int).push('…') + text@.skip(
        text@.len() - COMMAND_TAIL,
    ));
    string_of(out.as_slice())
}

/// A long command keeps both its ends, and no command is shown longer than
/// what is shown whole.
pub proof fn law_a_long_command_keeps_both_ends(cmdline: Seq<char>, exe: Seq<char>)
    requires
        command_line(cmdline, exe).len() > COMMAND_LEN,
    ensures
        summary(cmdline, exe).len() <= COMMAND_LEN,
        summary(cmdline, exe).take(COMMAND_HEAD as int) == command_line(cmdline, exe).take(
            COMMAND_HEAD as int,
        ),
        summary(cmdline, exe).skip(COMMAND_HEAD + 1) == command_line(cmdline, exe).skip(
            command_line(cmdline, exe).len() - COMMAND_TAIL,
        ),
{
    let text = command_line(cmdline, exe);
    let s = summary(cmdline, exe);
    assert(s.take(COMMAND_HEAD as int) =~= text.take(COMMAND_HEAD as int));
    assert(s.skip(COMMAND_HEAD + 1) =~= text.skip(text.len() - COMMAND_TAIL));
}

// ── The surface ────────────────────────────────────────────────────────

/// A report that is asked for: when so many milliseconds have passed, with the
/// epoch it was asked for in.
#[derive(Debug, Clone, Copy, PartialEq, Eq, Structural)]
pub struct Window {
    pub after_ms: u64,
    pub epoch: u64,
}

/// What the surface is asked to do.
#[derive(Debug, PartialEq, Eq)]
pub enum Show {
    /// Name what asks. Nothing can be allowed yet.
    Announce { command: String },
    /// Let a press allow it. Report back when its window is over, where it has
    /// one.
    Confirm { window: Option<Window> },
    Hide,
    Nothing,
}

/// The words beside the ring while the camera looks.
pub const STATUS_LOOKING: &'static str = "Checking your face…";

/// The words beside the ring once the face has matched.
pub const STATUS_MATCHED: &'static str = "Recognised you. Enter to allow, Esc to cancel.";

/// A key, as far as the surface cares.
#[derive(Debug, Clone, Copy, PartialEq, Eq, Structural)]
pub enum Key {
    Return,
    KeypadEnter,
    Space,
    Escape,
    Other,
}

/// What a key answers: Enter and Space allow, Escape refuses, any other key
/// says nothing.
pub fn key_answer(key: Key) -> (r: Option<bool>)
    ensures
        r == match key {
            Key::Return | Key::KeypadEnter | Key::Space => Some(true),
            Key::Escape => Some(false),
            Key::Other => None,
        },
{
    match key {
        Key::Return | Key::KeypadEnter | Key::Space => Some(true),
        Key::Escape => Some(false),
        Key::Other => None,
    }
}

/// The surface: the request on screen, whether a press would allow it, and
/// whether its window is running.
#[derive(Debug)]
pub struct Confirm {
    pending: Option<String>,
    armed: bool,
    epoch: u64,
    running: bool,
}

/// A [`Confirm`] as the contracts speak of it.
#[verifier::ext_equal]
pub struct ConfirmModel {
    pub pending: Option<Seq<char>>,
    pub armed: bool,
    /// Changes with every stage that is shown, so that the window of an earlier
    /// one ends without doing anything.
    pub epoch: u64,
    /// The end of this epoch's window is waited for.
    pub running: bool,
}

impl View for Confirm {
    type V = ConfirmModel;

    closed spec fn view(&self) -> ConfirmModel {
        ConfirmModel {
            pending: text_of(self.pending),
            armed: self.armed,
            epoch: self.epoch,
            running: self.running,
        }
    }
}

impl ConfirmModel {
    /// A press can allow only something that is on screen, and only what a
    /// press can allow has a window.
    pub open spec fn inv(self) -> bool {
        &&& self.armed ==> self.pending is Some
        &&& self.running ==> self.armed
    }
}

/// The epoch after another.
pub open spec fn epoch_after(e: u64) -> u64 {
    if e == u64::MAX {
        0
    } else {
        (e + 1) as u64
    }
}

/// The surface with nothing on it.
pub open spec fn emptied(c: ConfirmModel) -> ConfirmModel {
    ConfirmModel { pending: None, armed: false, running: false, ..c }
}

/// The surface after a request. Only a match opens a window, and only where the
/// request says how long it lasts: zero is none.
pub open spec fn requested(c: ConfirmModel, r: RequestModel) -> ConfirmModel {
    match r.stage {
        Stage::Announce => ConfirmModel {
            pending: Some(r.id),
            armed: false,
            epoch: epoch_after(c.epoch),
            running: false,
        },
        Stage::Confirm => ConfirmModel {
            pending: Some(r.id),
            armed: true,
            epoch: epoch_after(c.epoch),
            running: r.expires_ms > 0,
        },
        Stage::Cancel => if c.pending == Some(r.id) {
            emptied(c)
        } else {
            c
        },
    }
}

/// The surface after an answer, and the request that is answered. An early
/// press is dropped: there was nothing to agree to yet.
pub open spec fn answered(c: ConfirmModel, allow: bool) -> (ConfirmModel, Option<Seq<char>>) {
    if c.pending is None || (allow && !c.armed) {
        (c, None)
    } else {
        (emptied(c), c.pending)
    }
}

/// The surface after the window of an epoch is over: the request is refused
/// where that window is still running.
pub open spec fn ran_out(c: ConfirmModel, epoch: u64) -> (ConfirmModel, Option<Seq<char>>) {
    if c.running && c.epoch == epoch {
        answered(c, false)
    } else {
        (c, None)
    }
}

impl Confirm {
    /// Nothing is on screen.
    pub fn new() -> (r: Confirm)
        ensures
            r@ == (ConfirmModel { pending: None, armed: false, epoch: 0, running: false }),
    {
        Confirm { pending: None, armed: false, epoch: 0, running: false }
    }

    /// Takes a request from the daemon. A cancelled one is dropped without an
    /// answer: it is gone on the other side.
    pub fn request(&mut self, req: &Request) -> (r: Show)
        requires
            old(self)@.inv(),
        ensures
            final(self)@ == requested(old(self)@, req@),
            final(self)@.inv(),
            match r {
                Show::Announce { command } => {
                    &&& req.stage == Stage::Announce
                    &&& command@ == summary(req.peer_cmdline@, req.peer_exe@)
                },
                Show::Confirm { window } => {
                    &&& req.stage == Stage::Confirm
                    &&& window == if req.expires_ms > 0 {
                        Some(Window { after_ms: req.expires_ms, epoch: final(self)@.epoch })
                    } else {
                        None
                    }
                },
                Show::Hide => req.stage == Stage::Cancel && old(self)@.pending == Some(req.id@),
                Show::Nothing => req.stage == Stage::Cancel && old(self)@.pending != Some(req.id@),
            },
    {
        match req.stage {
            Stage::Announce => {
                self.pending = Some(req.id.clone());
                self.armed = false;
                self.epoch = self.epoch.wrapping_add(1);
                self.running = false;
                Show::Announce {
                    command: summarise(req.peer_cmdline.as_str(), req.peer_exe.as_str()),
                }
            },
            Stage::Confirm => {
                self.pending = Some(req.id.clone());
                self.armed = true;
                self.epoch = self.epoch.wrapping_add(1);
                self.running = req.expires_ms > 0;
                Show::Confirm {
                    window: if self.running {
                        Some(Window { after_ms: req.expires_ms, epoch: self.epoch })
                    } else {
                        None
                    },
                }
            },
            Stage::Cancel => {
                let ours = match &self.pending {
                    Some(id) => same(id.as_str(), req.id.as_str()),
                    None => false,
                };
                if ours {
                    self.pending = None;
                    self.armed = false;
                    self.running = false;
                    Show::Hide
                } else {
                    Show::Nothing
                }
            },
        }
    }

    /// A press, or a refusal: the request that is answered with it. Closing
    /// the surface in any way is a refusal.
    pub fn answer(&mut self, allow: bool) -> (r: Option<String>)
        requires
            old(self)@.inv(),
        ensures
            (final(self)@, text_of(r)) == answered(old(self)@, allow),
            final(self)@.inv(),
    {
        if self.pending.is_none() || (allow && !self.armed) {
            return None;
        }
        self.armed = false;
        self.running = false;
        self.pending.take()
    }

    /// The window of an epoch is over: the request that is refused.
    pub fn expire(&mut self, epoch: u64) -> (r: Option<String>)
        requires
            old(self)@.inv(),
        ensures
            (final(self)@, text_of(r)) == ran_out(old(self)@, epoch),
            final(self)@.inv(),
    {
        if self.running && self.epoch == epoch {
            self.answer(false)
        } else {
            None
        }
    }
}

/// A press allows a request only after its face has matched: one that is only
/// announced stays on screen.
pub proof fn law_a_press_during_the_announcement_allows_nothing(
    c: ConfirmModel,
    r: RequestModel,
)
    requires
        r.stage == Stage::Announce,
    ensures
        answered(requested(c, r), true) == (requested(c, r), None::<Seq<char>>),
        answered(requested(c, r), false).1 == Some(r.id),
{
}

/// After the match a press allows exactly the request that is on screen, once.
pub proof fn law_a_press_after_the_match_allows_it_once(c: ConfirmModel, r: RequestModel)
    requires
        r.stage == Stage::Confirm,
    ensures
        answered(requested(c, r), true).1 == Some(r.id),
        answered(answered(requested(c, r), true).0, true).1 is None,
        answered(answered(requested(c, r), true).0, false).1 is None,
{
}

/// A matched request whose window is over without a press is refused;
/// afterwards nothing answers it.
pub proof fn law_time_running_out_is_a_refusal(c: ConfirmModel, r: RequestModel)
    requires
        r.stage == Stage::Confirm,
        r.expires_ms > 0,
    ensures
        ({
            let shown = requested(c, r);
            let (after, refused) = ran_out(shown, shown.epoch);
            &&& refused == Some(r.id)
            &&& answered(after, true).1 is None
            &&& answered(after, false).1 is None
            &&& ran_out(after, shown.epoch) == (after, None::<Seq<char>>)
        }),
{
}

/// A request without a window stays on screen, as an announcement does: no
/// window's end takes it away.
pub proof fn law_without_a_window_a_request_stays(c: ConfirmModel, r: RequestModel, epoch: u64)
    requires
        r.stage == Stage::Announce || (r.stage == Stage::Confirm && r.expires_ms == 0),
    ensures
        ran_out(requested(c, r), epoch) == (requested(c, r), None::<Seq<char>>),
{
}

/// The surface after a series of requests.
pub open spec fn requested_all(c: ConfirmModel, list: Seq<RequestModel>) -> ConfirmModel
    decreases list.len(),
{
    if list.len() == 0 {
        c
    } else {
        requested(requested_all(c, list.drop_last()), list.last())
    }
}

/// How many of the requests show a stage.
pub open spec fn stages_shown(list: Seq<RequestModel>) -> nat
    decreases list.len(),
{
    if list.len() == 0 {
        0
    } else {
        stages_shown(list.drop_last()) + (if list.last().stage == Stage::Cancel {
            0nat
        } else {
            1nat
        })
    }
}

proof fn lemma_epoch_counts_stages(c: ConfirmModel, list: Seq<RequestModel>)
    requires
        stages_shown(list) <= u64::MAX,
    ensures
        requested_all(c, list).epoch == if c.epoch + stages_shown(list) <= u64::MAX {
            c.epoch + stages_shown(list)
        } else {
            c.epoch + stages_shown(list) - u64::MAX - 1
        },
    decreases list.len(),
{
    if list.len() > 0 {
        lemma_epoch_counts_stages(c, list.drop_last());
    }
}

/// The end of an earlier stage's window changes nothing: once another stage was
/// shown, of the same request or of another, and until the epochs come round.
pub proof fn law_the_end_of_an_earlier_window_changes_nothing(
    c: ConfirmModel,
    list: Seq<RequestModel>,
)
    requires
        0 < stages_shown(list) <= u64::MAX,
    ensures
        ran_out(requested_all(c, list), c.epoch) == (requested_all(c, list), None::<Seq<char>>),
{
    lemma_epoch_counts_stages(c, list);
}

/// A request that the daemon gave up is not answered any more.
pub proof fn law_a_cancelled_request_is_not_answered(c: ConfirmModel, r: RequestModel)
    requires
        c.inv(),
        r.stage == Stage::Cancel,
        c.pending == Some(r.id),
    ensures
        answered(requested(c, r), true).1 is None,
        answered(requested(c, r), false).1 is None,
        ran_out(requested(c, r), c.epoch).1 is None,
{
}

proof fn lemma_last_slash(word: Seq<char>)
    ensures
        match last_slash(word) {
            Some(at) => {
                &&& 0 <= at < word.len()
                &&& word[at] == '/'
                &&& forall|i: int| at < i < word.len() ==> word[i] != '/'
            },
            None => forall|i: int| 0 <= i < word.len() ==> word[i] != '/',
        },
    decreases word.len(),
{
    if word.len() > 0 && word.last() != '/' {
        let head = word.drop_last();
        lemma_last_slash(head);
        match last_slash(word) {
            Some(at) => {
                assert forall|i: int| at < i < word.len() implies word[i] != '/' by {
                    if i < head.len() {
                        assert(head[i] == word[i]);
                    }
                }
            },
            None => {
                assert forall|i: int| 0 <= i < word.len() implies word[i] != '/' by {
                    if i < head.len() {
                        assert(head[i] == word[i]);
                    }
                }
            },
        }
    }
}

/// A program out of the store goes by its name: what stands behind its last
/// slash. Any other word is shown as it is.
pub proof fn law_a_program_goes_by_its_name(path: Seq<char>, name: Seq<char>, word: Seq<char>)
    requires
        name.len() > 0,
        forall|i: int| 0 <= i < name.len() ==> name[i] != '/',
        word.len() < 11 || word.take(11) != "/nix/store/"@,
    ensures
        pretty("/nix/store/"@ + path + seq!['/'] + name) == name,
        pretty(word) == word,
{
    reveal_strlit("/nix/store/");
    let store = "/nix/store/"@;
    let all = store + path + seq!['/'] + name;
    let at: int = store.len() as int + path.len();
    lemma_last_slash(all);
    assert(all[at] == '/');
    assert forall|i: int| at < i < all.len() implies all[i] != '/' by {
        assert(all[i] == name[i - at - 1]);
    }
    assert(last_slash(all) == Some(at));
    assert(all.take(at).subrange(0, store.len() as int) =~= store);
    assert(all.skip(at + 1) =~= name);
    if last_slash(word) is Some {
        lemma_last_slash(word);
        let k = last_slash(word)->0;
        if occurs_at(word.take(k), store, 0) {
            assert(word.take(k).subrange(0, store.len() as int) =~= word.take(11));
        }
    }
}

/// A command is its words with one space between them, each shown as a program
/// is; where there is none, that of the program. It is shown whole up to 72
/// characters, and else by its first 40 and its last 28.
pub proof fn law_how_a_command_is_shown(cmdline: Seq<char>, exe: Seq<char>, other: Seq<char>)
    ensures
        trimmed(cmdline).len() > 0 ==> command_line(cmdline, exe) == command_line(cmdline, other)
            && command_line(cmdline, exe) == trimmed(
            joined(pretties(words(cmdline)), seq![' ']),
        ),
        trimmed(cmdline).len() == 0 ==> command_line(cmdline, exe) == trimmed(
            joined(pretties(words(exe)), seq![' ']),
        ),
        command_line(cmdline, exe).len() <= 72 ==> summary(cmdline, exe) == command_line(
            cmdline,
            exe,
        ),
        command_line(cmdline, exe).len() > 72 ==> {
            let text = command_line(cmdline, exe);
            let s = summary(cmdline, exe);
            &&& s.len() == 69
            &&& s.take(40) == text.take(40)
            &&& s[40] == '…'
            &&& s.skip(41) == text.skip(text.len() - 28)
        },
{
    let text = command_line(cmdline, exe);
    let s = summary(cmdline, exe);
    if text.len() > 72 {
        assert(s.take(40) =~= text.take(40));
        assert(s.skip(41) =~= text.skip(text.len() - 28));
    }
}

/// What a request does to the surface. An announcement is shown and cannot be
/// allowed; a match can, and has a window where the request says how long; the
/// end of a request clears the surface where it is the one on it, and is nothing
/// to any other.
pub proof fn law_what_a_request_does(c: ConfirmModel, r: RequestModel)
    ensures
        r.stage == Stage::Announce ==> requested(c, r).pending == Some(r.id) && !requested(
            c,
            r,
        ).armed && !requested(c, r).running,
        r.stage == Stage::Confirm ==> requested(c, r).pending == Some(r.id) && requested(
            c,
            r,
        ).armed && (requested(c, r).running <==> r.expires_ms > 0),
        r.stage != Stage::Cancel ==> requested(c, r).epoch != c.epoch,
        r.stage == Stage::Cancel && c.pending == Some(r.id) ==> requested(c, r).pending is None
            && !requested(c, r).armed && !requested(c, r).running,
        r.stage == Stage::Cancel && c.pending != Some(r.id) ==> requested(c, r) == c,
{
}

/// What an answer does: it answers the request on the surface and clears it. A
/// refusal does so at any time, a press only after the match.
pub proof fn law_what_an_answer_does(c: ConfirmModel, allow: bool)
    requires
        c.inv(),
    ensures
        ({
            let (after, who) = answered(c, allow);
            let counts = c.pending is Some && (c.armed || !allow);
            &&& counts ==> who == c.pending && after.pending is None && !after.armed
                && !after.running
            &&& !counts ==> who is None && after == c
        }),
{
}

} // verus!
