//! The greetd greeter: which request goes to greetd next, whom the
//! fingerprint reader is armed for, and what the login card shows.
//!
//! All password auth flows through greetd's PAM conversation. Fingerprint is
//! out-of-band: on a match the agent hands over a single-use token, which is
//! submitted as the password answer. Selecting a user who already has a live
//! session skips greetd and jumps to that session.

use vstd::prelude::*;
use crate::fp::agent::{Cmd as FpCmd, Ev as FpEv};
use crate::text::{
    at_char, chars_of, contains_char, grouped, non_empty, pieces, push_text, same, split_at_char,
    split_words, string_of, text_of, texts, trim_chars, trimmed, words,
};
use self::ipc::{AuthKind, Ev, Req};

pub mod agent;
pub mod fpblock;
pub mod ipc;

verus! {

pub const EXIT_STARTED: i32 = 0;

pub const EXIT_ERROR: i32 = 1;

/// How a status line is meant.
#[derive(Debug, Clone, Copy, PartialEq, Eq, Structural)]
pub enum StatusKind {
    Info,
    Error,
}

/// One thing to do to the card, greetd, the fingerprint agent or the process.
#[derive(Debug)]
pub enum Effect {
    Status(String, StatusKind),
    Verifying(bool),
    FpArmed(bool),
    FpHint(String),
    SetUsername(String),
    /// Jump to the user's running session.
    Handoff(String),
    FlashSuccess,
    Shake,
    Send(Req),
    Fp(FpCmd),
    Quit(i32),
}

/// A request with its texts as sequences of characters.
pub enum ReqModel {
    Create(Seq<char>),
    Respond(Option<Seq<char>>),
    Cancel,
    Start(Seq<char>, Seq<Seq<char>>),
}

/// An effect with its texts as sequences of characters.
pub enum EffectModel {
    Status(Seq<char>, StatusKind),
    Verifying(bool),
    FpArmed(bool),
    FpHint(Seq<char>),
    SetUsername(Seq<char>),
    Handoff(Seq<char>),
    FlashSuccess,
    Shake,
    Send(ReqModel),
    FpVerify(Seq<char>),
    FpStop,
    Quit(i32),
}

impl View for Req {
    type V = ReqModel;

    open spec fn view(&self) -> ReqModel {
        match *self {
            Req::Create { username } => ReqModel::Create(username@),
            Req::Respond(None) => ReqModel::Respond(None),
            Req::Respond(Some(text)) => ReqModel::Respond(Some(text@)),
            Req::Cancel => ReqModel::Cancel,
            Req::Start { cmd, env } => ReqModel::Start(cmd@, texts(env@)),
        }
    }
}

impl View for Effect {
    type V = EffectModel;

    open spec fn view(&self) -> EffectModel {
        match *self {
            Effect::Status(text, kind) => EffectModel::Status(text@, kind),
            Effect::Verifying(on) => EffectModel::Verifying(on),
            Effect::FpArmed(on) => EffectModel::FpArmed(on),
            Effect::FpHint(text) => EffectModel::FpHint(text@),
            Effect::SetUsername(user) => EffectModel::SetUsername(user@),
            Effect::Handoff(user) => EffectModel::Handoff(user@),
            Effect::FlashSuccess => EffectModel::FlashSuccess,
            Effect::Shake => EffectModel::Shake,
            Effect::Send(req) => EffectModel::Send(req@),
            Effect::Fp(FpCmd::Verify { user }) => EffectModel::FpVerify(user@),
            Effect::Fp(FpCmd::Stop) => EffectModel::FpStop,
            Effect::Quit(code) => EffectModel::Quit(code),
        }
    }
}

/// The models of a list of effects.
pub open spec fn effects(v: Seq<Effect>) -> Seq<EffectModel> {
    v.map_values(|e: Effect| e@)
}

fn put(out: &mut Vec<Effect>, e: Effect)
    ensures
        effects(final(out)@) == effects(old(out)@).push(e@),
{
    out.push(e);
    assert(effects(out@) =~= effects(old(out)@).push(e@));
}

// ── Settings ───────────────────────────────────────────────────────────

/// Each piece without the white space around it.
pub open spec fn each_trimmed(v: Seq<Seq<char>>) -> Seq<Seq<char>> {
    v.map_values(|p: Seq<char>| trimmed(p))
}

/// The users in a comma-separated list: the trimmed pieces that hold
/// something.
pub open spec fn users_in(list: Seq<char>) -> Seq<Seq<char>> {
    each_trimmed(pieces(list, at_char(','))).filter(non_empty())
}

/// The users shown as chips, out of a comma-separated list.
pub fn parse_users(list: &str) -> (r: Vec<String>)
    ensures
        texts(r@) == users_in(list@),
{
    let v = chars_of(list);
    let parts = split_at_char(v.as_slice(), ',');
    let ghost all = each_trimmed(grouped(parts@));
    let mut r: Vec<String> = Vec::new();
    let mut i: usize = 0;
    proof {
        reveal(Seq::filter);
        assert(texts(r@) =~= all.take(0).filter(non_empty()));
    }
    while i < parts.len()
        invariant
            i <= parts@.len(),
            all == each_trimmed(grouped(parts@)),
            texts(r@) == all.take(i as int).filter(non_empty()),
        decreases parts@.len() - i,
    {
        let t = trim_chars(parts[i].as_slice());
        proof {
            reveal(Seq::filter);
            assert(all.take(i + 1).drop_last() =~= all.take(i as int));
            assert(all.take(i + 1).last() == t@);
        }
        if t.len() > 0 {
            push_text(&mut r, string_of(t.as_slice()));
        }
        i += 1;
    }
    assert(all.take(all.len() as int) =~= all);
    r
}

/// Who the card is prefilled for: the given user, or the first of the list.
pub fn default_user(given: Option<String>, users: &Vec<String>) -> (r: String)
    ensures
        r@ == if given is Some && given->0@.len() > 0 {
            given->0@
        } else if users@.len() > 0 {
            users@[0]@
        } else {
            Seq::empty()
        },
{
    if let Some(user) = given {
        if !user.as_str().is_empty() {
            return user;
        }
    }
    if users.len() > 0 {
        users[0].clone()
    } else {
        String::new()
    }
}

/// The session command: `sway` where none is given.
pub fn session_command(given: Option<String>) -> (r: String)
    ensures
        r@ == match given {
            Some(cmd) => cmd@,
            None => "sway"@,
        },
{
    match given {
        Some(cmd) => cmd,
        None => "sway".to_owned(),
    }
}

/// Words that assign something.
pub open spec fn assigns() -> spec_fn(Seq<char>) -> bool {
    |w: Seq<char>| w.contains('=')
}

/// The KEY=VALUE pairs in a whitespace-separated list.
pub fn parse_env(list: &str) -> (r: Vec<String>)
    ensures
        texts(r@) == words(list@).filter(assigns()),
{
    let v = chars_of(list);
    let parts = split_words(v.as_slice());
    let ghost all = words(list@);
    let mut r: Vec<String> = Vec::new();
    let mut i: usize = 0;
    proof {
        reveal(Seq::filter);
        assert(texts(r@) =~= all.take(0).filter(assigns()));
    }
    while i < parts.len()
        invariant
            i <= parts@.len(),
            all == grouped(parts@),
            texts(r@) == all.take(i as int).filter(assigns()),
        decreases parts@.len() - i,
    {
        proof {
            reveal(Seq::filter);
            assert(all.take(i + 1).drop_last() =~= all.take(i as int));
            assert(all.take(i + 1).last() == parts@[i as int]@);
        }
        if contains_char(parts[i].as_slice(), '=') {
            push_text(&mut r, string_of(parts[i].as_slice()));
        }
        i += 1;
    }
    assert(all.take(all.len() as int) =~= all);
    r
}

/// What is known of users: at most one answer for each.
#[derive(Debug)]
pub struct Known {
    entries: Vec<(String, bool)>,
}

/// No user occurs twice.
pub open spec fn one_each(entries: Seq<(String, bool)>) -> bool {
    forall|i: int, j: int|
        #![trigger entries[i], entries[j]]
        0 <= i < j < entries.len() ==> entries[i].0@ != entries[j].0@
}

/// The answers in a list of entries.
pub open spec fn answers(entries: Seq<(String, bool)>) -> Map<Seq<char>, bool>
    decreases entries.len(),
{
    if entries.len() == 0 {
        Map::empty()
    } else {
        answers(entries.drop_last()).insert(entries.last().0@, entries.last().1)
    }
}

impl View for Known {
    type V = Map<Seq<char>, bool>;

    closed spec fn view(&self) -> Map<Seq<char>, bool> {
        answers(self.entries@)
    }
}

/// Each entry is an answer, and every answer is of an entry.
proof fn lemma_answers(entries: Seq<(String, bool)>, user: Seq<char>)
    requires
        one_each(entries),
    ensures
        forall|i: int|
            0 <= i < entries.len() ==> {
                &&& answers(entries).dom().contains((#[trigger] entries[i]).0@)
                &&& answers(entries)[entries[i].0@] == entries[i].1
            },
        (forall|i: int| 0 <= i < entries.len() ==> (#[trigger] entries[i]).0@ != user) ==> !answers(
            entries,
        ).dom().contains(user),
    decreases entries.len(),
{
    if entries.len() > 0 {
        let head = entries.drop_last();
        assert forall|i: int, j: int|
            #![trigger head[i], head[j]]
            0 <= i < j < head.len() implies head[i].0@ != head[j].0@ by {
            assert(head[i] == entries[i] && head[j] == entries[j]);
        }
        lemma_answers(head, user);
        assert forall|i: int| 0 <= i < entries.len() implies {
            &&& answers(entries).dom().contains((#[trigger] entries[i]).0@)
            &&& answers(entries)[entries[i].0@] == entries[i].1
        } by {
            if i < head.len() {
                assert(head[i] == entries[i]);
                assert(entries[i].0@ != entries[entries.len() - 1].0@);
            }
        }
        if forall|i: int| 0 <= i < entries.len() ==> (#[trigger] entries[i]).0@ != user {
            assert(entries[entries.len() - 1].0@ != user);
            assert forall|i: int| 0 <= i < head.len() implies (#[trigger] head[i]).0@ != user by {
                assert(head[i] == entries[i]);
            }
        }
    }
}

/// Another answer in place of one for the same user.
proof fn lemma_answer_replaced(entries: Seq<(String, bool)>, at: int, entry: (String, bool))
    requires
        one_each(entries),
        0 <= at < entries.len(),
        entries[at].0@ == entry.0@,
    ensures
        one_each(entries.update(at, entry)),
        answers(entries.update(at, entry)) == answers(entries).insert(entry.0@, entry.1),
    decreases entries.len(),
{
    let next = entries.update(at, entry);
    assert forall|i: int, j: int|
        #![trigger next[i], next[j]]
        0 <= i < j < next.len() implies next[i].0@ != next[j].0@ by {
        assert(entries[i].0@ != entries[j].0@);
    }
    let head = entries.drop_last();
    if at == entries.len() - 1 {
        assert(next.drop_last() =~= head);
        assert(answers(next) =~= answers(entries).insert(entry.0@, entry.1));
    } else {
        assert forall|i: int, j: int|
            #![trigger head[i], head[j]]
            0 <= i < j < head.len() implies head[i].0@ != head[j].0@ by {
            assert(head[i] == entries[i] && head[j] == entries[j]);
        }
        lemma_answer_replaced(head, at, entry);
        assert(next.drop_last() =~= head.update(at, entry));
        assert(next.last() == entries.last());
        assert(entries[at].0@ != entries[entries.len() - 1].0@);
        assert(answers(next) =~= answers(entries).insert(entry.0@, entry.1));
    }
}

impl Known {
    #[verifier::type_invariant]
    spec fn has_one_each(self) -> bool {
        one_each(self.entries@)
    }

    /// Nothing is known of anybody.
    pub fn nothing() -> (r: Known)
        ensures
            r@ == Map::<Seq<char>, bool>::empty(),
    {
        Known { entries: Vec::new() }
    }

    /// The place of a user, or the length where there is none.
    fn place(&self, user: &str) -> (r: usize)
        ensures
            r <= self.entries@.len(),
            r < self.entries@.len() ==> self.entries@[r as int].0@ == user@,
            r == self.entries@.len() ==> forall|j: int|
                0 <= j < self.entries@.len() ==> (#[trigger] self.entries@[j]).0@ != user@,
    {
        let mut i: usize = 0;
        while i < self.entries.len()
            invariant
                i <= self.entries@.len(),
                forall|j: int| 0 <= j < i ==> (#[trigger] self.entries@[j]).0@ != user@,
            decreases self.entries@.len() - i,
        {
            if same(self.entries[i].0.as_str(), user) {
                return i;
            }
            i += 1;
        }
        i
    }

    /// Adds an answer, in place of an earlier one for the same user.
    pub fn learn(&mut self, user: String, answer: bool)
        ensures
            final(self)@ == old(self)@.insert(user@, answer),
    {
        proof {
            use_type_invariant(&*self);
        }
        let at = self.place(user.as_str());
        let mut entries: Vec<(String, bool)> = Vec::new();
        std::mem::swap(&mut entries, &mut self.entries);
        let ghost before = entries@;
        if at < entries.len() {
            proof {
                lemma_answer_replaced(before, at as int, (user, answer));
            }
            entries.set(at, (user, answer));
        } else {
            entries.push((user, answer));
            assert(entries@.drop_last() =~= before);
        }
        self.entries = entries;
    }

    /// The answer for `user`, or `unknown` where there is none.
    pub fn ask(&self, user: &str, unknown: bool) -> (r: bool)
        ensures
            r == if self@.dom().contains(user@) {
                self@[user@]
            } else {
                unknown
            },
    {
        proof {
            use_type_invariant(self);
            lemma_answers(self.entries@, user@);
        }
        let at = self.place(user);
        if at < self.entries.len() {
            assert(self.entries@[at as int].0@ == user@);
            self.entries[at].1
        } else {
            unknown
        }
    }
}

/// What the host knows of one user.
#[derive(Debug)]
pub struct UserInfo {
    pub user: String,
    /// `None` where the host could not tell.
    pub fingerprint: Option<bool>,
    pub logged_in: bool,
}

/// The definite enrollment verdicts in a list.
pub open spec fn verdicts(list: Seq<UserInfo>) -> Map<Seq<char>, bool>
    decreases list.len(),
{
    if list.len() == 0 {
        Map::empty()
    } else {
        let before = verdicts(list.drop_last());
        match list.last().fingerprint {
            Some(fp) => before.insert(list.last().user@, fp),
            None => before,
        }
    }
}

/// Who in a list has a live session.
pub open spec fn presence(list: Seq<UserInfo>) -> Map<Seq<char>, bool>
    decreases list.len(),
{
    if list.len() == 0 {
        Map::empty()
    } else {
        presence(list.drop_last()).insert(list.last().user@, list.last().logged_in)
    }
}

/// A secret waiting for its user's next prompt.
#[derive(Debug)]
pub struct Pending {
    pub user: String,
    pub password: String,
}

/// The greeter.
#[derive(Debug)]
pub struct Greeter {
    default_user: String,
    session_cmd: String,
    /// KEY=VALUE pairs for start_session.
    session_env: Vec<String>,
    /// User the live greetd session was created for.
    session_user: Option<String>,
    /// Secret/Visible question outstanding: Enter answers it directly.
    prompt_open: bool,
    /// A request is in flight; greetd hears nothing new until it replies.
    blocked: bool,
    /// cancel_session sent: conversation events are dropped until Canceled.
    canceling: bool,
    pending: Option<Pending>,
    recreate_user: Option<String>,
    /// Chip click that landed while a request was in flight: the
    /// conversation restarts for this user once greetd replies.
    switch_pending: Option<String>,
    /// Fingerprint enrollment, where the host gave a verdict.
    enrolled: Known,
    /// Live graphical sessions.
    logged_in: Known,
    /// Whether this host does user switching at all.
    can_switch: bool,
}

/// A [`Greeter`] as the contracts speak of it.
#[verifier::ext_equal]
pub struct GreeterModel {
    pub default_user: Seq<char>,
    pub session_cmd: Seq<char>,
    pub session_env: Seq<Seq<char>>,
    pub session_user: Option<Seq<char>>,
    pub prompt_open: bool,
    pub blocked: bool,
    pub canceling: bool,
    /// The user and the secret.
    pub pending: Option<(Seq<char>, Seq<char>)>,
    pub recreate_user: Option<Seq<char>>,
    pub switch_pending: Option<Seq<char>>,
    pub enrolled: Map<Seq<char>, bool>,
    pub logged_in: Map<Seq<char>, bool>,
    pub can_switch: bool,
}

impl View for Greeter {
    type V = GreeterModel;

    closed spec fn view(&self) -> GreeterModel {
        GreeterModel {
            default_user: self.default_user@,
            session_cmd: self.session_cmd@,
            session_env: texts(self.session_env@),
            session_user: text_of(self.session_user),
            prompt_open: self.prompt_open,
            blocked: self.blocked,
            canceling: self.canceling,
            pending: match self.pending {
                Some(p) => Some((p.user@, p.password@)),
                None => None,
            },
            recreate_user: text_of(self.recreate_user),
            switch_pending: text_of(self.switch_pending),
            enrolled: self.enrolled@,
            logged_in: self.logged_in@,
            can_switch: self.can_switch,
        }
    }
}

// ── What the greeter does ──────────────────────────────────────────────

/// Whom the card is about: the typed name, or the default user where nothing
/// is typed and there is one.
pub open spec fn selected(g: GreeterModel, typed: Option<Seq<char>>) -> Option<Seq<char>> {
    if typed is Some {
        typed
    } else if g.default_user.len() > 0 {
        Some(g.default_user)
    } else {
        None
    }
}

/// Whether `user` has an enrolled fingerprint; an unknown one counts as
/// enrolled, the agent checks again anyway.
pub open spec fn fp_enrolled(g: GreeterModel, user: Seq<char>) -> bool {
    g.enrolled.dom().contains(user) ==> g.enrolled[user]
}

/// Whether `user` has a live graphical session; an unknown one has none.
pub open spec fn has_session(g: GreeterModel, user: Seq<char>) -> bool {
    g.logged_in.dom().contains(user) && g.logged_in[user]
}

/// Whether `user` is handed off to a running session.
pub open spec fn jumps(g: GreeterModel, user: Seq<char>) -> bool {
    has_session(g, user) && g.can_switch
}

/// What a handoff shows.
pub open spec fn handoff(user: Seq<char>) -> Seq<EffectModel> {
    seq![EffectModel::Status("Switching…"@, StatusKind::Info), EffectModel::Handoff(user)]
}

/// Points the reader at the selected user, or stands it down for one it
/// could not log in.
pub open spec fn retargeting(g: GreeterModel, typed: Option<Seq<char>>) -> Seq<EffectModel> {
    let user = selected(g, typed);
    if user is Some && fp_enrolled(g, user->0) && !has_session(g, user->0) {
        seq![EffectModel::FpArmed(false), EffectModel::FpVerify(user->0)]
    } else {
        seq![EffectModel::FpStop, EffectModel::FpArmed(false)]
    }
}

/// The greeter with a request in flight.
pub open spec fn asking(g: GreeterModel) -> GreeterModel {
    GreeterModel { blocked: true, ..g }
}

/// Cancels the conversation, to begin it anew for `user`.
pub open spec fn restarting(g: GreeterModel, user: Seq<char>) -> GreeterModel {
    asking(
        GreeterModel { prompt_open: false, canceling: true, recreate_user: Some(user), ..g },
    )
}

/// Begins a conversation for `user`.
pub open spec fn creating(g: GreeterModel, user: Seq<char>) -> GreeterModel {
    asking(GreeterModel { session_user: Some(user), ..g })
}

/// The card while PAM works on an answer.
pub open spec fn working() -> Seq<EffectModel> {
    seq![EffectModel::Status(""@, StatusKind::Info), EffectModel::Verifying(true)]
}

/// Enter was pressed on `password`.
pub open spec fn submitted(g: GreeterModel, typed: Option<Seq<char>>, password: Seq<char>) -> (
    GreeterModel,
    Seq<EffectModel>,
) {
    let who = selected(g, typed);
    if password.len() == 0 && !g.prompt_open {
        (g, Seq::empty())
    } else if who is None {
        (g, seq![EffectModel::Status("Enter a username"@, StatusKind::Error)])
    } else {
        let user = who->0;
        let parked = GreeterModel { pending: Some((user, password)), ..g };
        if jumps(g, user) {
            (g, handoff(user))
        } else if g.canceling {
            (GreeterModel { recreate_user: Some(user), ..parked }, Seq::empty())
        } else if g.prompt_open && g.session_user == Some(user) {
            (
                asking(GreeterModel { prompt_open: false, ..g }),
                working().push(EffectModel::Send(ReqModel::Respond(Some(password)))),
            )
        } else if g.blocked {
            (parked, working())
        } else {
            (
                restarting(parked, user),
                working().push(EffectModel::Send(ReqModel::Cancel)),
            )
        }
    }
}

/// The chip of `user` was clicked.
pub open spec fn switched(g: GreeterModel, typed: Option<Seq<char>>, user: Seq<char>) -> (
    GreeterModel,
    Seq<EffectModel>,
) {
    if jumps(g, user) {
        (g, handoff(user))
    } else if g.session_user == Some(user) && selected(g, typed) == Some(user) {
        (g, Seq::empty())
    } else {
        let chosen = GreeterModel { default_user: user, pending: None, ..g };
        let shown = seq![
            EffectModel::SetUsername(user),
            EffectModel::Status(""@, StatusKind::Info),
            EffectModel::Verifying(false),
        ] + retargeting(chosen, if user.len() > 0 { Some(user) } else { None });
        if g.canceling {
            (GreeterModel { recreate_user: Some(user), ..chosen }, shown)
        } else if g.blocked {
            (GreeterModel { switch_pending: Some(user), ..chosen }, shown)
        } else {
            (restarting(chosen, user), shown.push(EffectModel::Send(ReqModel::Cancel)))
        }
    }
}

/// PAM asks for an answer.
pub open spec fn prompted(g: GreeterModel, kind: AuthKind, text: Seq<char>) -> (
    GreeterModel,
    Seq<EffectModel>,
) {
    let shown = if kind == AuthKind::Visible {
        seq![EffectModel::Status(text, StatusKind::Info)]
    } else {
        Seq::empty()
    };
    match g.pending {
        Some((user, password)) => if g.session_user == Some(user) {
            (
                asking(GreeterModel { pending: None, ..g }),
                shown.push(EffectModel::Send(ReqModel::Respond(Some(password)))),
            )
        } else {
            (restarting(g, user), shown.push(EffectModel::Send(ReqModel::Cancel)))
        },
        None => (
            GreeterModel { prompt_open: true, ..g },
            shown.push(EffectModel::Verifying(false)),
        ),
    }
}

/// greetd rejected the request: the session is gone, a fresh one is begun.
pub open spec fn rejected(g: GreeterModel, typed: Option<Seq<char>>, auth: bool, text: Seq<char>) -> (
    GreeterModel,
    Seq<EffectModel>,
) {
    let reset = GreeterModel { session_user: None, prompt_open: false, pending: None, ..g };
    let shown = if auth {
        seq![
            EffectModel::Verifying(false),
            EffectModel::Status("Wrong password"@, StatusKind::Error),
            EffectModel::Shake,
        ]
    } else {
        seq![EffectModel::Verifying(false), EffectModel::Status(text, StatusKind::Error)]
    };
    match selected(reset, typed) {
        Some(user) => (
            creating(reset, user),
            shown.push(EffectModel::Send(ReqModel::Create(user))) + retargeting(reset, typed),
        ),
        None => (reset, shown + retargeting(reset, typed)),
    }
}

/// greetd replied.
pub open spec fn answered(g: GreeterModel, typed: Option<Seq<char>>, ev: Ev) -> (
    GreeterModel,
    Seq<EffectModel>,
) {
    let heard = GreeterModel { blocked: false, switch_pending: None, ..g };
    if g.switch_pending is Some && (ev is AuthMessage || ev is SessionReady) {
        (
            restarting(heard, g.switch_pending->0),
            seq![EffectModel::Send(ReqModel::Cancel)],
        )
    } else {
        match ev {
            Ev::AuthMessage { kind, text } => if g.canceling {
                (heard, Seq::empty())
            } else if kind == AuthKind::Secret || kind == AuthKind::Visible {
                prompted(heard, kind, text@)
            } else {
                let tone = if kind == AuthKind::Info {
                    StatusKind::Info
                } else {
                    StatusKind::Error
                };
                (
                    asking(heard),
                    seq![
                        EffectModel::Status(text@, tone),
                        EffectModel::Send(ReqModel::Respond(None)),
                    ],
                )
            },
            Ev::SessionReady => (
                asking(heard),
                seq![
                    EffectModel::FpStop,
                    EffectModel::FlashSuccess,
                    EffectModel::Send(ReqModel::Start(g.session_cmd, g.session_env)),
                ],
            ),
            Ev::SessionStarted => (heard, seq![EffectModel::Quit(EXIT_STARTED)]),
            Ev::Canceled => {
                let done = GreeterModel { canceling: false, recreate_user: None, ..heard };
                match g.recreate_user {
                    Some(user) => (
                        creating(done, user),
                        seq![EffectModel::Send(ReqModel::Create(user))],
                    ),
                    None => (done, Seq::empty()),
                }
            },
            Ev::Error { auth, text } => if g.canceling {
                (heard, Seq::empty())
            } else {
                rejected(heard, typed, auth, text@)
            },
            Ev::Fatal(_) => (heard, seq![EffectModel::Quit(EXIT_ERROR)]),
        }
    }
}

/// The fingerprint agent reported.
pub open spec fn fp_reported(g: GreeterModel, typed: Option<Seq<char>>, ev: FpEv) -> (
    GreeterModel,
    Seq<EffectModel>,
) {
    match ev {
        FpEv::Ready => (g, seq![EffectModel::FpArmed(true)]),
        FpEv::Hint { msg } => (g, seq![EffectModel::FpHint(msg@)]),
        FpEv::Unavailable { .. } => (g, seq![EffectModel::FpArmed(false)]),
        FpEv::Match { user, token } => if selected(g, typed) == Some(user@) {
            let (next, then_shown) = submitted(g, typed, token@);
            (next, seq![EffectModel::FpHint("Fingerprint OK"@)] + then_shown)
        } else {
            (g, Seq::empty())
        },
    }
}

/// The card is up: the conversation of the prefilled user begins, and the
/// reader is armed for them.
pub open spec fn begun(g: GreeterModel, typed: Option<Seq<char>>) -> (
    GreeterModel,
    Seq<EffectModel>,
) {
    match selected(g, typed) {
        Some(user) => (
            creating(g, user),
            seq![EffectModel::Send(ReqModel::Create(user))] + retargeting(g, typed),
        ),
        None => (g, retargeting(g, typed)),
    }
}

/// The host's user list arrived.
pub open spec fn listed(g: GreeterModel, typed: Option<Seq<char>>, list: Seq<UserInfo>) -> (
    GreeterModel,
    Seq<EffectModel>,
) {
    if list.len() == 0 {
        (g, Seq::empty())
    } else {
        let known = GreeterModel { enrolled: verdicts(list), logged_in: presence(list), ..g };
        (known, retargeting(known, typed))
    }
}

// ── The machine ────────────────────────────────────────────────────────

/// Whether an optional name is `user`.
fn is(name: &Option<String>, user: &str) -> (r: bool)
    ensures
        r == (text_of(*name) == Some(user@)),
{
    match name {
        Some(name) => same(name.as_str(), user),
        None => false,
    }
}

fn copy_of(v: &Vec<String>) -> (r: Vec<String>)
    ensures
        texts(r@) == texts(v@),
{
    let mut r: Vec<String> = Vec::new();
    let mut i: usize = 0;
    while i < v.len()
        invariant
            i <= v@.len(),
            r@.len() == i,
            forall|j: int| 0 <= j < i ==> r@[j]@ == v@[j]@,
        decreases v@.len() - i,
    {
        r.push(v[i].clone());
        i += 1;
    }
    assert(texts(r@) =~= texts(v@));
    r
}

impl Greeter {
    /// A greeter that has asked nothing yet and knows nothing of the users.
    pub fn new(
        default_user: String,
        session_cmd: String,
        session_env: Vec<String>,
        can_switch: bool,
    ) -> (r: Greeter)
        ensures
            r@ == (GreeterModel {
                default_user: default_user@,
                session_cmd: session_cmd@,
                session_env: texts(session_env@),
                session_user: None,
                prompt_open: false,
                blocked: false,
                canceling: false,
                pending: None,
                recreate_user: None,
                switch_pending: None,
                enrolled: Map::empty(),
                logged_in: Map::empty(),
                can_switch,
            }),
    {
        Greeter {
            default_user,
            session_cmd,
            session_env,
            session_user: None,
            prompt_open: false,
            blocked: false,
            canceling: false,
            pending: None,
            recreate_user: None,
            switch_pending: None,
            enrolled: Known::nothing(),
            logged_in: Known::nothing(),
            can_switch,
        }
    }

    /// Whom the card is about.
    pub fn username(&self, typed: &Option<String>) -> (r: Option<String>)
        ensures
            text_of(r) == selected(self@, text_of(*typed)),
    {
        match typed {
            Some(user) => Some(user.clone()),
            None => if self.default_user.as_str().is_empty() {
                None
            } else {
                Some(self.default_user.clone())
            },
        }
    }

    /// Whether `user` has an enrolled fingerprint.
    pub fn fp_enrolled(&self, user: &str) -> (r: bool)
        ensures
            r == fp_enrolled(self@, user@),
    {
        self.enrolled.ask(user, true)
    }

    /// Whether `user` already has a live graphical session.
    pub fn has_session(&self, user: &str) -> (r: bool)
        ensures
            r == has_session(self@, user@),
    {
        self.logged_in.ask(user, false)
    }

    fn send(&mut self, out: &mut Vec<Effect>, req: Req)
        ensures
            final(self)@ == asking(old(self)@),
            effects(final(out)@) == effects(old(out)@).push(EffectModel::Send(req@)),
    {
        self.blocked = true;
        put(out, Effect::Send(req));
    }

    fn jump_to_session(&self, out: &mut Vec<Effect>, user: &str) -> (r: bool)
        ensures
            r == jumps(self@, user@),
            effects(final(out)@) == if r {
                effects(old(out)@) + handoff(user@)
            } else {
                effects(old(out)@)
            },
    {
        if !self.has_session(user) || !self.can_switch {
            return false;
        }
        put(out, Effect::Status("Switching…".to_owned(), StatusKind::Info));
        put(out, Effect::Handoff(user.to_owned()));
        assert(effects(out@) =~= effects(old(out)@) + handoff(user@));
        true
    }

    fn retarget_fp(&self, out: &mut Vec<Effect>, typed: &Option<String>)
        ensures
            effects(final(out)@) == effects(old(out)@) + retargeting(self@, text_of(*typed)),
    {
        if let Some(user) = self.username(typed) {
            if self.fp_enrolled(user.as_str()) && !self.has_session(user.as_str()) {
                put(out, Effect::FpArmed(false));
                put(out, Effect::Fp(FpCmd::Verify { user }));
                assert(effects(out@) =~= effects(old(out)@) + retargeting(self@, text_of(*typed)));
                return;
            }
        }
        put(out, Effect::Fp(FpCmd::Stop));
        put(out, Effect::FpArmed(false));
        assert(effects(out@) =~= effects(old(out)@) + retargeting(self@, text_of(*typed)));
    }

    fn restart_conversation(&mut self, out: &mut Vec<Effect>, user: String)
        ensures
            final(self)@ == restarting(old(self)@, user@),
            effects(final(out)@) == effects(old(out)@).push(EffectModel::Send(ReqModel::Cancel)),
    {
        self.prompt_open = false;
        self.canceling = true;
        self.recreate_user = Some(user);
        self.send(out, Req::Cancel);
    }

    fn create(&mut self, out: &mut Vec<Effect>, user: String)
        ensures
            final(self)@ == creating(old(self)@, user@),
            effects(final(out)@) == effects(old(out)@).push(
                EffectModel::Send(ReqModel::Create(user@)),
            ),
    {
        self.session_user = Some(user.clone());
        self.send(out, Req::Create { username: user });
    }

    fn show_working(&self, out: &mut Vec<Effect>)
        ensures
            effects(final(out)@) == effects(old(out)@) + working(),
    {
        put(out, Effect::Status("".to_owned(), StatusKind::Info));
        put(out, Effect::Verifying(true));
        assert(effects(out@) =~= effects(old(out)@) + working());
    }

    /// The card is up.
    pub fn start(&mut self, typed: &Option<String>) -> (r: Vec<Effect>)
        ensures
            (final(self)@, effects(r@)) == begun(old(self)@, text_of(*typed)),
    {
        let mut out: Vec<Effect> = Vec::new();
        if let Some(user) = self.username(typed) {
            self.create(&mut out, user);
        }
        self.retarget_fp(&mut out, typed);
        assert(effects(out@) =~= begun(old(self)@, text_of(*typed)).1);
        out
    }

    /// The host's user list arrived.
    pub fn set_list(&mut self, typed: &Option<String>, list: &Vec<UserInfo>) -> (r: Vec<Effect>)
        ensures
            (final(self)@, effects(r@)) == listed(old(self)@, text_of(*typed), list@),
    {
        let mut out: Vec<Effect> = Vec::new();
        assert(effects(out@) =~= Seq::empty());
        if list.len() == 0 {
            return out;
        }
        let mut enrolled = Known::nothing();
        let mut logged_in = Known::nothing();
        let mut i: usize = 0;
        while i < list.len()
            invariant
                i <= list@.len(),
                enrolled@ == verdicts(list@.take(i as int)),
                logged_in@ == presence(list@.take(i as int)),
            decreases list@.len() - i,
        {
            let u = &list[i];
            assert(list@.take(i + 1).drop_last() =~= list@.take(i as int));
            if let Some(fp) = u.fingerprint {
                enrolled.learn(u.user.clone(), fp);
            }
            logged_in.learn(u.user.clone(), u.logged_in);
            i += 1;
        }
        assert(list@.take(list@.len() as int) =~= list@);
        self.enrolled = enrolled;
        self.logged_in = logged_in;
        self.retarget_fp(&mut out, typed);
        assert(effects(out@) =~= listed(old(self)@, text_of(*typed), list@).1);
        out
    }

    /// Enter was pressed on `password`.
    pub fn submit(&mut self, typed: &Option<String>, password: String) -> (r: Vec<Effect>)
        ensures
            (final(self)@, effects(r@)) == submitted(old(self)@, text_of(*typed), password@),
    {
        let ghost want = submitted(old(self)@, text_of(*typed), password@);
        let mut out: Vec<Effect> = Vec::new();
        assert(effects(out@) =~= Seq::empty());
        if password.as_str().is_empty() && !self.prompt_open {
            return out;
        }
        let user = match self.username(typed) {
            Some(user) => user,
            None => {
                put(&mut out, Effect::Status("Enter a username".to_owned(), StatusKind::Error));
                assert(effects(out@) =~= want.1);
                return out;
            },
        };
        if self.jump_to_session(&mut out, user.as_str()) {
            assert(effects(out@) =~= want.1);
            return out;
        }
        if self.canceling {
            self.pending = Some(Pending { user: user.clone(), password });
            self.recreate_user = Some(user);
            return out;
        }
        if self.prompt_open && is(&self.session_user, user.as_str()) {
            self.prompt_open = false;
            self.show_working(&mut out);
            self.send(&mut out, Req::Respond(Some(password)));
            assert(effects(out@) =~= want.1);
            return out;
        }
        self.pending = Some(Pending { user: user.clone(), password });
        self.show_working(&mut out);
        if !self.blocked {
            self.restart_conversation(&mut out, user);
        }
        assert(effects(out@) =~= want.1);
        out
    }

    /// A user chip was clicked. A user with a live session gets jumped to
    /// directly; anyone else gets the conversation restarted for them and the
    /// reader retargeted.
    pub fn switch_user(&mut self, typed: &Option<String>, user: String) -> (r: Vec<Effect>)
        ensures
            (final(self)@, effects(r@)) == switched(old(self)@, text_of(*typed), user@),
    {
        let ghost want = switched(old(self)@, text_of(*typed), user@);
        let mut out: Vec<Effect> = Vec::new();
        assert(effects(out@) =~= Seq::empty());
        if self.jump_to_session(&mut out, user.as_str()) {
            assert(effects(out@) =~= want.1);
            return out;
        }
        let current = self.username(typed);
        if is(&self.session_user, user.as_str()) && is(&current, user.as_str()) {
            return out;
        }
        self.default_user = user.clone();
        put(&mut out, Effect::SetUsername(user.clone()));
        self.pending = None;
        put(&mut out, Effect::Status("".to_owned(), StatusKind::Info));
        put(&mut out, Effect::Verifying(false));
        let shown = if user.as_str().is_empty() {
            None
        } else {
            Some(user.clone())
        };
        self.retarget_fp(&mut out, &shown);
        if self.canceling {
            self.recreate_user = Some(user);
        } else if self.blocked {
            self.switch_pending = Some(user);
        } else {
            self.restart_conversation(&mut out, user);
        }
        assert(effects(out@) =~= want.1);
        out
    }

    /// The fingerprint agent reported.
    pub fn handle_fp_event(&mut self, typed: &Option<String>, ev: FpEv) -> (r: Vec<Effect>)
        ensures
            (final(self)@, effects(r@)) == fp_reported(old(self)@, text_of(*typed), ev),
    {
        let ghost want = fp_reported(old(self)@, text_of(*typed), ev);
        let mut out: Vec<Effect> = Vec::new();
        match ev {
            FpEv::Ready => put(&mut out, Effect::FpArmed(true)),
            FpEv::Hint { msg } => put(&mut out, Effect::FpHint(msg)),
            FpEv::Unavailable { .. } => put(&mut out, Effect::FpArmed(false)),
            FpEv::Match { user, token } => {
                let current = self.username(typed);
                if is(&current, user.as_str()) {
                    put(&mut out, Effect::FpHint("Fingerprint OK".to_owned()));
                    let mut more = self.submit(typed, token);
                    let ghost shown = effects(out@);
                    let ghost rest = effects(more@);
                    out.append(&mut more);
                    assert(effects(out@) =~= shown + rest);
                }
            },
        }
        assert(effects(out@) =~= want.1);
        out
    }

    fn prompt(&mut self, out: &mut Vec<Effect>, kind: AuthKind, text: String)
        requires
            effects(old(out)@) == Seq::<EffectModel>::empty(),
        ensures
            (final(self)@, effects(final(out)@)) == prompted(old(self)@, kind, text@),
    {
        if kind == AuthKind::Visible {
            put(out, Effect::Status(text, StatusKind::Info));
        }
        match self.pending.take() {
            Some(p) => if is(&self.session_user, p.user.as_str()) {
                self.send(out, Req::Respond(Some(p.password)));
            } else {
                let user = p.user.clone();
                self.pending = Some(p);
                self.restart_conversation(out, user);
            },
            None => {
                self.prompt_open = true;
                put(out, Effect::Verifying(false));
            },
        }
        assert(effects(out@) =~= prompted(old(self)@, kind, text@).1);
    }

    fn reject(&mut self, out: &mut Vec<Effect>, typed: &Option<String>, auth: bool, text: String)
        requires
            effects(old(out)@) == Seq::<EffectModel>::empty(),
        ensures
            (final(self)@, effects(final(out)@)) == rejected(
                old(self)@,
                text_of(*typed),
                auth,
                text@,
            ),
    {
        let ghost want = rejected(old(self)@, text_of(*typed), auth, text@);
        self.session_user = None;
        self.prompt_open = false;
        self.pending = None;
        put(out, Effect::Verifying(false));
        if auth {
            put(out, Effect::Status("Wrong password".to_owned(), StatusKind::Error));
            put(out, Effect::Shake);
        } else {
            put(out, Effect::Status(text, StatusKind::Error));
        }
        if let Some(user) = self.username(typed) {
            self.create(out, user);
        }
        self.retarget_fp(out, typed);
        assert(effects(out@) =~= want.1);
    }

    /// greetd replied.
    pub fn handle_event(&mut self, typed: &Option<String>, ev: Ev) -> (r: Vec<Effect>)
        ensures
            (final(self)@, effects(r@)) == answered(old(self)@, text_of(*typed), ev),
    {
        let ghost want = answered(old(self)@, text_of(*typed), ev);
        let mut out: Vec<Effect> = Vec::new();
        assert(effects(out@) =~= Seq::empty());
        self.blocked = false;
        // A chip click landed while the previous request was in flight; greetd
        // can hear a cancel again only now. A completed auth of the old user
        // is discarded: the card already shows the new one.
        if let Some(user) = self.switch_pending.take() {
            if matches!(&ev, Ev::AuthMessage { .. } | Ev::SessionReady) {
                self.restart_conversation(&mut out, user);
                assert(effects(out@) =~= want.1);
                return out;
            }
        }
        match ev {
            Ev::AuthMessage { kind, text } => {
                if self.canceling {
                    return out;
                }
                if kind == AuthKind::Secret || kind == AuthKind::Visible {
                    self.prompt(&mut out, kind, text);
                } else {
                    let tone = if kind == AuthKind::Info {
                        StatusKind::Info
                    } else {
                        StatusKind::Error
                    };
                    put(&mut out, Effect::Status(text, tone));
                    self.send(&mut out, Req::Respond(None));
                }
            },
            Ev::SessionReady => {
                put(&mut out, Effect::Fp(FpCmd::Stop));
                put(&mut out, Effect::FlashSuccess);
                let cmd = self.session_cmd.clone();
                let env = copy_of(&self.session_env);
                self.send(&mut out, Req::Start { cmd, env });
            },
            Ev::SessionStarted => put(&mut out, Effect::Quit(EXIT_STARTED)),
            Ev::Canceled => {
                self.canceling = false;
                if let Some(user) = self.recreate_user.take() {
                    self.create(&mut out, user);
                }
            },
            Ev::Error { auth, text } => {
                if self.canceling {
                    return out;
                }
                self.reject(&mut out, typed, auth, text);
            },
            Ev::Fatal(_) => put(&mut out, Effect::Quit(EXIT_ERROR)),
        }
        assert(effects(out@) =~= want.1);
        out
    }
}

// ── Laws ───────────────────────────────────────────────────────────────

/// Everything that can happen to a greeter.
pub enum Input {
    /// The card is up.
    Start,
    /// The host's user list arrived.
    List(Seq<UserInfo>),
    /// Enter was pressed on a secret.
    Submit(Seq<char>),
    /// A user chip was clicked.
    Switch(Seq<char>),
    Fp(FpEv),
    Greetd(Ev),
}

/// What the greeter does about an input.
pub open spec fn react(g: GreeterModel, typed: Option<Seq<char>>, input: Input) -> (
    GreeterModel,
    Seq<EffectModel>,
) {
    match input {
        Input::Start => begun(g, typed),
        Input::List(list) => listed(g, typed, list),
        Input::Submit(password) => submitted(g, typed, password),
        Input::Switch(user) => switched(g, typed, user),
        Input::Fp(ev) => fp_reported(g, typed, ev),
        Input::Greetd(ev) => answered(g, typed, ev),
    }
}

/// No question is open while a request is in flight.
pub open spec fn orderly(g: GreeterModel) -> bool {
    g.prompt_open ==> !g.blocked
}

/// Inputs that come when they can: the start before anything was asked, a
/// reply only to a request. A socket that breaks may say so at any time.
pub open spec fn timely(g: GreeterModel, input: Input) -> bool {
    match input {
        Input::Start => !g.blocked && !g.prompt_open,
        Input::Greetd(Ev::Fatal(_)) => true,
        Input::Greetd(_) => g.blocked,
        _ => true,
    }
}

/// Whether the greeter talks to greetd.
pub open spec fn asks_greetd(es: Seq<EffectModel>) -> bool {
    exists|i: int| 0 <= i < es.len() && #[trigger] es[i] is Send
}

/// At most one of the effects is a request.
pub open spec fn at_most_one_request(es: Seq<EffectModel>) -> bool {
    forall|i: int, j: int|
        0 <= i < es.len() && 0 <= j < es.len() && #[trigger] es[i] is Send && #[trigger] es[j] is Send
            ==> i == j
}

/// What [`law_one_request_at_a_time`] says of one input.
pub open spec fn disciplined(
    g: GreeterModel,
    after: GreeterModel,
    es: Seq<EffectModel>,
    reply: bool,
) -> bool {
    &&& orderly(after)
    &&& at_most_one_request(es)
    &&& asks_greetd(es) ==> after.blocked && (!g.blocked || reply)
    &&& !reply && g.blocked ==> after.blocked
}

proof fn lemma_reply_is_disciplined(g: GreeterModel, typed: Option<Seq<char>>, ev: Ev)
    requires
        orderly(g),
        timely(g, Input::Greetd(ev)),
    ensures
        disciplined(g, answered(g, typed, ev).0, answered(g, typed, ev).1, true),
{
    let (after, es) = answered(g, typed, ev);
    if g.switch_pending is None || !(ev is AuthMessage || ev is SessionReady) {
        match ev {
            Ev::Error { auth, text } => {
                let at: int = if auth { 3 } else { 2 };
                assert(forall|i: int| 0 <= i < es.len() && #[trigger] es[i] is Send ==> i == at);
            },
            _ => {
                assert(forall|i: int|
                    0 <= i < es.len() && #[trigger] es[i] is Send ==> i == es.len() - 1);
            },
        }
    }
}

proof fn lemma_submit_is_disciplined(g: GreeterModel, typed: Option<Seq<char>>, password: Seq<char>)
    requires
        orderly(g),
    ensures
        disciplined(
            g,
            submitted(g, typed, password).0,
            submitted(g, typed, password).1,
            false,
        ),
        forall|i: int|
            0 <= i < submitted(g, typed, password).1.len()
                && #[trigger] submitted(g, typed, password).1[i] is Send ==> i
                == submitted(g, typed, password).1.len() - 1,
{
    let es = submitted(g, typed, password).1;
    assert(forall|i: int| 0 <= i < es.len() && #[trigger] es[i] is Send ==> i == es.len() - 1);
}

proof fn lemma_switch_is_disciplined(g: GreeterModel, typed: Option<Seq<char>>, user: Seq<char>)
    requires
        orderly(g),
    ensures
        disciplined(g, switched(g, typed, user).0, switched(g, typed, user).1, false),
{
    let es = switched(g, typed, user).1;
    assert(forall|i: int| 0 <= i < es.len() && #[trigger] es[i] is Send ==> i == es.len() - 1);
}

/// greetd hears one request at a time: nothing is sent while a request is in
/// flight, and one input makes at most one request, which is then the one in
/// flight.
pub proof fn law_one_request_at_a_time(g: GreeterModel, typed: Option<Seq<char>>, input: Input)
    requires
        orderly(g),
        timely(g, input),
    ensures
        disciplined(
            g,
            react(g, typed, input).0,
            react(g, typed, input).1,
            input is Greetd,
        ),
{
    let es = react(g, typed, input).1;
    match input {
        Input::Start => {
            assert(forall|i: int| 0 <= i < es.len() && #[trigger] es[i] is Send ==> i == 0);
        },
        Input::List(list) => {},
        Input::Submit(password) => lemma_submit_is_disciplined(g, typed, password),
        Input::Switch(user) => lemma_switch_is_disciplined(g, typed, user),
        Input::Fp(ev) => {
            if let FpEv::Match { user, token } = ev {
                lemma_submit_is_disciplined(g, typed, token@);
                let rest = submitted(g, typed, token@).1;
                if selected(g, typed) == Some(user@) {
                    assert forall|i: int| 0 <= i < es.len() && #[trigger] es[i] is Send implies i
                        == es.len() - 1 by {
                        assert(i > 0 && es[i] == rest[i - 1]);
                    }
                }
            }
        },
        Input::Greetd(ev) => lemma_reply_is_disciplined(g, typed, ev),
    }
}

/// The effect answers PAM with this secret.
pub open spec fn answers_with(e: EffectModel, secret: Seq<char>) -> bool {
    e == EffectModel::Send(ReqModel::Respond(Some(secret)))
}

proof fn lemma_submit_answers_its_own(
    g: GreeterModel,
    typed: Option<Seq<char>>,
    password: Seq<char>,
    secret: Seq<char>,
    i: int,
)
    requires
        0 <= i < submitted(g, typed, password).1.len(),
        answers_with(submitted(g, typed, password).1[i], secret),
    ensures
        secret == password,
        g.session_user is Some,
        g.session_user == selected(g, typed),
{
}

proof fn lemma_reply_answers_the_parked(
    g: GreeterModel,
    typed: Option<Seq<char>>,
    ev: Ev,
    secret: Seq<char>,
    i: int,
)
    requires
        0 <= i < answered(g, typed, ev).1.len(),
        answers_with(answered(g, typed, ev).1[i], secret),
    ensures
        g.session_user is Some,
        g.pending == Some((g.session_user->0, secret)),
{
}

/// An answer reaches only the conversation of the user it was given for: the
/// secret that was just entered, or the one that was parked for that user.
pub proof fn law_secrets_reach_their_own_user(
    g: GreeterModel,
    typed: Option<Seq<char>>,
    input: Input,
    secret: Seq<char>,
    i: int,
)
    requires
        0 <= i < react(g, typed, input).1.len(),
        answers_with(react(g, typed, input).1[i], secret),
    ensures
        match input {
            Input::Submit(password) => secret == password && g.session_user is Some
                && g.session_user == selected(g, typed),
            Input::Fp(FpEv::Match { user, token }) => secret == token@ && g.session_user == Some(
                user@,
            ) && selected(g, typed) == Some(user@),
            Input::Greetd(_) => g.session_user is Some && g.pending == Some(
                (g.session_user->0, secret),
            ),
            _ => false,
        },
{
    let es = react(g, typed, input).1;
    match input {
        Input::Submit(password) => lemma_submit_answers_its_own(g, typed, password, secret, i),
        Input::Fp(ev) => {
            if let FpEv::Match { user, token } = ev {
                assert(i > 0);
                assert(es[i] == submitted(g, typed, token@).1[i - 1]);
                lemma_submit_answers_its_own(g, typed, token@, secret, i - 1);
            }
        },
        Input::Greetd(ev) => lemma_reply_answers_the_parked(g, typed, ev, secret, i),
        _ => {},
    }
}

/// Auth that completes after someone else was selected opens no session: it
/// is cancelled in favour of the selected user.
pub proof fn law_the_person_at_the_keyboard_wins(
    g: GreeterModel,
    typed: Option<Seq<char>>,
    user: Seq<char>,
)
    requires
        g.switch_pending == Some(user),
    ensures
        answered(g, typed, Ev::SessionReady).1 == seq![EffectModel::Send(ReqModel::Cancel)],
        answered(g, typed, Ev::SessionReady).0.recreate_user == Some(user),
        answered(g, typed, Ev::SessionReady).0.canceling,
{
}

/// The effect asks greetd to start a session.
pub open spec fn starts(e: EffectModel) -> bool {
    e matches EffectModel::Send(ReqModel::Start(_, _))
}

proof fn lemma_submit_starts_nothing(
    g: GreeterModel,
    typed: Option<Seq<char>>,
    password: Seq<char>,
    i: int,
)
    requires
        0 <= i < submitted(g, typed, password).1.len(),
    ensures
        !starts(submitted(g, typed, password).1[i]),
{
}

proof fn lemma_switch_starts_nothing(
    g: GreeterModel,
    typed: Option<Seq<char>>,
    user: Seq<char>,
    i: int,
)
    requires
        0 <= i < switched(g, typed, user).1.len(),
    ensures
        !starts(switched(g, typed, user).1[i]),
{
}

proof fn lemma_prompt_starts_nothing(g: GreeterModel, kind: AuthKind, text: Seq<char>, i: int)
    requires
        0 <= i < prompted(g, kind, text).1.len(),
    ensures
        !starts(prompted(g, kind, text).1[i]),
{
}

proof fn lemma_rejection_starts_nothing(
    g: GreeterModel,
    typed: Option<Seq<char>>,
    auth: bool,
    text: Seq<char>,
    i: int,
)
    requires
        0 <= i < rejected(g, typed, auth, text).1.len(),
    ensures
        !starts(rejected(g, typed, auth, text).1[i]),
{
}

/// A session is started only on greetd's word that the conversation is
/// complete, with the configured command and environment, and after the
/// reader was stood down.
pub proof fn law_sessions_start_on_completed_auth(
    g: GreeterModel,
    typed: Option<Seq<char>>,
    input: Input,
    i: int,
)
    requires
        0 <= i < react(g, typed, input).1.len(),
        starts(react(g, typed, input).1[i]),
    ensures
        input == Input::Greetd(Ev::SessionReady),
        g.switch_pending is None,
        react(g, typed, input).1[i] == EffectModel::Send(
            ReqModel::Start(g.session_cmd, g.session_env),
        ),
        i > 0,
        react(g, typed, input).1[0] is FpStop,
{
    let es = react(g, typed, input).1;
    match input {
        Input::Start => {},
        Input::List(list) => {},
        Input::Submit(password) => lemma_submit_starts_nothing(g, typed, password, i),
        Input::Switch(user) => lemma_switch_starts_nothing(g, typed, user, i),
        Input::Fp(ev) => {
            if let FpEv::Match { user, token } = ev {
                if i > 0 {
                    assert(es[i] == submitted(g, typed, token@).1[i - 1]);
                    lemma_submit_starts_nothing(g, typed, token@, i - 1);
                }
            }
        },
        Input::Greetd(ev) => {
            let heard = GreeterModel { blocked: false, switch_pending: None, ..g };
            match ev {
                Ev::AuthMessage { kind, text } => {
                    if g.switch_pending is None && !g.canceling && (kind == AuthKind::Secret || kind
                        == AuthKind::Visible) {
                        lemma_prompt_starts_nothing(heard, kind, text@, i);
                    }
                },
                Ev::Error { auth, text } => {
                    if !g.canceling {
                        lemma_rejection_starts_nothing(heard, typed, auth, text@, i);
                    }
                },
                _ => {},
            }
        },
    }
}

/// A match for a user who is no longer the selected one is discarded.
pub proof fn law_stale_match_is_discarded(g: GreeterModel, typed: Option<Seq<char>>, ev: FpEv)
    requires
        ev matches FpEv::Match { user, token } && selected(g, typed) != Some(user@),
    ensures
        fp_reported(g, typed, ev) == (g, Seq::<EffectModel>::empty()),
{
}

/// A switch is never lost: clicked while a request is in flight, it reaches
/// greetd as a conversation for that user once greetd has replied, and the
/// old user's parked secret is gone.
pub proof fn law_switch_reaches_greetd(
    g: GreeterModel,
    typed: Option<Seq<char>>,
    user: Seq<char>,
    reply: Ev,
)
    requires
        g.blocked,
        !g.canceling,
        !jumps(g, user),
        g.session_user != Some(user) || selected(g, typed) != Some(user),
        reply is AuthMessage || reply is SessionReady,
    ensures
        ({
            let clicked = switched(g, typed, user).0;
            let (cancelling, cancel) = answered(clicked, Some(user), reply);
            let (recreated, create) = answered(cancelling, Some(user), Ev::Canceled);
            &&& cancel == seq![EffectModel::Send(ReqModel::Cancel)]
            &&& create == seq![EffectModel::Send(ReqModel::Create(user))]
            &&& recreated.session_user == Some(user)
            &&& recreated.pending is None
        }),
{
}

/// A secret entered for a user without a conversation waits for it: once the
/// old conversation is cancelled and PAM asks, it is the answer.
pub proof fn law_parked_secret_answers_the_next_prompt(
    g: GreeterModel,
    typed: Option<Seq<char>>,
    password: Seq<char>,
    ask: Ev,
)
    requires
        password.len() > 0,
        selected(g, typed) is Some,
        !jumps(g, selected(g, typed)->0),
        !g.blocked,
        !g.canceling,
        !g.prompt_open,
        g.switch_pending is None,
        ask matches Ev::AuthMessage { kind, text } && kind == AuthKind::Secret,
    ensures
        ({
            let (parked, cancel) = submitted(g, typed, password);
            let (created, create) = answered(parked, typed, Ev::Canceled);
            let (done, answer) = answered(created, typed, ask);
            &&& cancel.last() == EffectModel::Send(ReqModel::Cancel)
            &&& create == seq![EffectModel::Send(ReqModel::Create(selected(g, typed)->0))]
            &&& answer == seq![EffectModel::Send(ReqModel::Respond(Some(password)))]
            &&& done.pending is None
        }),
{
    let (parked, cancel) = submitted(g, typed, password);
    let (created, create) = answered(parked, typed, Ev::Canceled);
    let (done, answer) = answered(created, typed, ask);
    assert(answer =~= seq![EffectModel::Send(ReqModel::Respond(Some(password)))]);
}

/// A rejected answer leaves no trace of the failed conversation: the secret
/// is gone, and a fresh conversation begins for the selected user.
pub proof fn law_rejection_starts_over(
    g: GreeterModel,
    typed: Option<Seq<char>>,
    ev: Ev,
)
    requires
        ev is Error,
        !g.canceling,
    ensures
        ({
            let (after, es) = answered(g, typed, ev);
            &&& after.pending is None
            &&& !after.prompt_open
            &&& after.session_user == selected(g, typed)
            &&& asks_greetd(es) <==> selected(g, typed) is Some
        }),
{
    let (after, es) = answered(g, typed, ev);
    if let Ev::Error { auth, text } = ev {
        let at: int = if auth { 3 } else { 2 };
        if selected(g, typed) is Some {
            assert(es[at] is Send);
        }
    }
}

/// The card is about the name that is typed, else about the default user where
/// there is one. A user is handed off exactly where the host can switch and says
/// that they have a live session. Fingers are tried for anybody whom the host
/// did not say to be without prints.
pub proof fn law_whom_the_card_is_about(
    g: GreeterModel,
    typed: Option<Seq<char>>,
    user: Seq<char>,
)
    ensures
        typed is Some ==> selected(g, typed) == typed,
        typed is None && g.default_user != Seq::<char>::empty() ==> selected(g, typed) == Some(
            g.default_user,
        ),
        typed is None && g.default_user == Seq::<char>::empty() ==> selected(g, typed) is None,
        jumps(g, user) <==> g.can_switch && g.logged_in.contains_pair(user, true),
        has_session(g, user) <==> g.logged_in.contains_pair(user, true),
        fp_enrolled(g, user) <==> !g.enrolled.contains_pair(user, false),
{
    if g.default_user.len() == 0 {
        assert(g.default_user =~= Seq::empty());
    }
}

/// The reader waits for the selected user, unless the host says that they have
/// no prints or are logged in already; then, and without a selected user, it
/// stands down. Either way it counts as unarmed until it reports.
pub proof fn law_whom_the_reader_waits_for(g: GreeterModel, typed: Option<Seq<char>>)
    ensures
        ({
            let es = retargeting(g, typed);
            let user = selected(g, typed);
            if user is Some && !g.enrolled.contains_pair(user->0, false)
                && !g.logged_in.contains_pair(user->0, true) {
                es == seq![EffectModel::FpArmed(false), EffectModel::FpVerify(user->0)]
            } else {
                es == seq![EffectModel::FpStop, EffectModel::FpArmed(false)]
            }
        }),
{
}

/// A chip that is clicked while the card is idle reaches greetd: the running
/// conversation is cancelled, and the one that is begun in its place is for the
/// clicked user, with no secret left over. While a cancel is under way already,
/// it is that one which begins anew for them.
pub proof fn law_a_switch_on_an_idle_card_reaches_greetd(
    g: GreeterModel,
    typed: Option<Seq<char>>,
    user: Seq<char>,
)
    requires
        !g.blocked || g.canceling,
        !(g.can_switch && g.logged_in.contains_pair(user, true)),
        g.session_user != Some(user) || selected(g, typed) != Some(user),
    ensures
        ({
            let (clicked, shown) = switched(g, typed, user);
            let (after, es) = answered(clicked, Some(user), Ev::Canceled);
            &&& clicked.blocked == (g.blocked || !g.canceling)
            &&& !g.canceling ==> shown.last() == EffectModel::Send(ReqModel::Cancel)
            &&& g.canceling ==> !asks_greetd(shown)
            &&& clicked.canceling
            &&& clicked.pending is None
            &&& !g.canceling ==> !clicked.prompt_open
            &&& clicked.default_user == user
            &&& es == seq![EffectModel::Send(ReqModel::Create(user))]
            &&& after.session_user == Some(user)
            &&& after.pending is None
            &&& after.recreate_user is None
            &&& after.blocked
            &&& !after.canceling
        }),
{
    let es = answered(switched(g, typed, user).0, Some(user), Ev::Canceled).1;
    assert(es =~= seq![EffectModel::Send(ReqModel::Create(user))]);
}

/// What a click on a chip shows, where the user is neither jumped to nor the
/// current one: their name, a card at rest, and the reader pointed at them.
pub proof fn law_a_switch_shows_the_user(
    g: GreeterModel,
    typed: Option<Seq<char>>,
    user: Seq<char>,
)
    requires
        user.len() > 0,
        !(g.can_switch && g.logged_in.contains_pair(user, true)),
        g.session_user != Some(user) || selected(g, typed) != Some(user),
    ensures
        ({
            let (after, es) = switched(g, typed, user);
            let armed = !g.enrolled.contains_pair(user, false) && !g.logged_in.contains_pair(
                user,
                true,
            );
            &&& es.len() >= 5
            &&& es[0] == EffectModel::SetUsername(user)
            &&& es[1] == EffectModel::Status(Seq::empty(), StatusKind::Info)
            &&& es[2] == EffectModel::Verifying(false)
            &&& armed ==> es[3] == EffectModel::FpArmed(false) && es[4] == EffectModel::FpVerify(
                user,
            )
            &&& !armed ==> es[3] == EffectModel::FpStop && es[4] == EffectModel::FpArmed(false)
            &&& es.len() > 5 ==> es.len() == 6 && es[5] == EffectModel::Send(ReqModel::Cancel)
            &&& es.len() > 5 <==> !g.canceling && !g.blocked
            &&& after.default_user == user
            &&& after.enrolled == g.enrolled
            &&& after.logged_in == g.logged_in
            &&& after.session_user == g.session_user
            &&& after.session_cmd == g.session_cmd
            &&& after.session_env == g.session_env
            &&& !g.canceling && g.blocked ==> after.switch_pending == Some(user)
        }),
{
    reveal_strlit("");
    assert(""@ =~= Seq::empty());
}

/// The user who is current already is left alone, and one with a live session
/// is jumped to without a word to greetd, from a chip as from a secret.
pub proof fn law_a_live_session_is_jumped_to(
    g: GreeterModel,
    typed: Option<Seq<char>>,
    user: Seq<char>,
    password: Seq<char>,
)
    ensures
        g.can_switch && g.logged_in.contains_pair(user, true) ==> switched(g, typed, user) == (
            g,
            seq![
                EffectModel::Status("Switching…"@, StatusKind::Info),
                EffectModel::Handoff(user),
            ],
        ),
        g.can_switch && g.logged_in.contains_pair(user, true) && selected(g, typed) == Some(user)
            && (password.len() > 0 || g.prompt_open) ==> submitted(g, typed, password) == (
            g,
            seq![
                EffectModel::Status("Switching…"@, StatusKind::Info),
                EffectModel::Handoff(user),
            ],
        ),
        !(g.can_switch && g.logged_in.contains_pair(user, true)) && g.session_user == Some(user)
            && selected(g, typed) == Some(user) ==> switched(g, typed, user) == (
            g,
            Seq::<EffectModel>::empty(),
        ),
{
}

/// What becomes of a secret. Nothing at all on an empty one that nobody asked
/// for, and an error without a user. An open question of the user's own is
/// answered at once. Otherwise the secret is parked for that user: until the
/// cancel that is under way is through, until greetd replies, or behind a cancel
/// of its own.
pub proof fn law_what_becomes_of_a_secret(
    g: GreeterModel,
    typed: Option<Seq<char>>,
    password: Seq<char>,
)
    ensures
        password.len() == 0 && !g.prompt_open ==> submitted(g, typed, password) == (
            g,
            Seq::<EffectModel>::empty(),
        ),
        (password.len() > 0 || g.prompt_open) && selected(g, typed) is None ==> submitted(
            g,
            typed,
            password,
        ) == (g, seq![EffectModel::Status("Enter a username"@, StatusKind::Error)]),
        (password.len() > 0 || g.prompt_open) && selected(g, typed) is Some && !(g.can_switch
            && g.logged_in.contains_pair(selected(g, typed)->0, true)) ==> {
            let user = selected(g, typed)->0;
            let (after, es) = submitted(g, typed, password);
            if g.canceling {
                &&& es == Seq::<EffectModel>::empty()
                &&& after == (GreeterModel {
                    pending: Some((user, password)),
                    recreate_user: Some(user),
                    ..g
                })
            } else if g.prompt_open && g.session_user == Some(user) {
                &&& es == seq![
                    EffectModel::Status(""@, StatusKind::Info),
                    EffectModel::Verifying(true),
                    EffectModel::Send(ReqModel::Respond(Some(password))),
                ]
                &&& after == (GreeterModel { prompt_open: false, blocked: true, ..g })
            } else if g.blocked {
                &&& es == seq![
                    EffectModel::Status(""@, StatusKind::Info),
                    EffectModel::Verifying(true),
                ]
                &&& after == (GreeterModel { pending: Some((user, password)), ..g })
            } else {
                &&& es == seq![
                    EffectModel::Status(""@, StatusKind::Info),
                    EffectModel::Verifying(true),
                    EffectModel::Send(ReqModel::Cancel),
                ]
                &&& after == (GreeterModel {
                    pending: Some((user, password)),
                    prompt_open: false,
                    canceling: true,
                    recreate_user: Some(user),
                    blocked: true,
                    ..g
                })
            }
        },
{
}

/// What a question of PAM's leads to: without a parked secret it is left open
/// for the user, with its text where it is a visible one; a parked secret of
/// this conversation's user answers it; one of another user's has the
/// conversation begun anew for them. Questions of a conversation that is being
/// cancelled are dropped.
pub proof fn law_what_a_question_leads_to(
    g: GreeterModel,
    typed: Option<Seq<char>>,
    kind: AuthKind,
    text: String,
)
    requires
        g.switch_pending is None,
        kind == AuthKind::Secret || kind == AuthKind::Visible,
    ensures
        ({
            let (after, es) = answered(g, typed, Ev::AuthMessage { kind, text });
            let n: int = if kind == AuthKind::Visible {
                1
            } else {
                0
            };
            if g.canceling {
                &&& es == Seq::<EffectModel>::empty()
                &&& after == (GreeterModel { blocked: false, ..g })
            } else {
                &&& es.len() == n + 1
                &&& kind == AuthKind::Visible ==> es[0] == EffectModel::Status(
                    text@,
                    StatusKind::Info,
                )
                &&& match g.pending {
                    None => {
                        &&& es[n] == EffectModel::Verifying(false)
                        &&& after == (GreeterModel { blocked: false, prompt_open: true, ..g })
                    },
                    Some((user, secret)) => if g.session_user == Some(user) {
                        &&& es[n] == EffectModel::Send(ReqModel::Respond(Some(secret)))
                        &&& after == (GreeterModel { blocked: true, pending: None, ..g })
                    } else {
                        &&& es[n] == EffectModel::Send(ReqModel::Cancel)
                        &&& after == (GreeterModel {
                            blocked: true,
                            prompt_open: false,
                            canceling: true,
                            recreate_user: Some(user),
                            ..g
                        })
                    },
                }
            }
        }),
{
}

/// What PAM merely says is shown in its tone and acknowledged.
pub proof fn law_what_pam_says_is_shown(
    g: GreeterModel,
    typed: Option<Seq<char>>,
    kind: AuthKind,
    text: String,
)
    requires
        g.switch_pending is None,
        !g.canceling,
        kind != AuthKind::Secret,
        kind != AuthKind::Visible,
    ensures
        answered(g, typed, Ev::AuthMessage { kind, text }) == (
            GreeterModel { blocked: true, ..g },
            seq![
                EffectModel::Status(
                    text@,
                    if kind == AuthKind::Info {
                        StatusKind::Info
                    } else {
                        StatusKind::Error
                    },
                ),
                EffectModel::Send(ReqModel::Respond(None)),
            ],
        ),
{
}

/// How a conversation ends. A completed one stands the reader down, flashes and
/// starts the configured session; a started session ends the greeter with
/// success, a broken socket with failure. A cancelled one is begun anew for the
/// user it was cancelled for, and for nobody else.
pub proof fn law_how_a_conversation_ends(
    g: GreeterModel,
    typed: Option<Seq<char>>,
    why: String,
)
    ensures
        g.switch_pending is None ==> answered(g, typed, Ev::SessionReady) == (
            GreeterModel { blocked: true, ..g },
            seq![
                EffectModel::FpStop,
                EffectModel::FlashSuccess,
                EffectModel::Send(ReqModel::Start(g.session_cmd, g.session_env)),
            ],
        ),
        answered(g, typed, Ev::SessionStarted).1 == seq![EffectModel::Quit(0)],
        answered(g, typed, Ev::Fatal(why)).1 == seq![EffectModel::Quit(1)],
        g.recreate_user is None ==> answered(g, typed, Ev::Canceled) == (
            GreeterModel { blocked: false, switch_pending: None, canceling: false, ..g },
            Seq::<EffectModel>::empty(),
        ),
        g.recreate_user is Some ==> answered(g, typed, Ev::Canceled) == (
            GreeterModel {
                blocked: true,
                switch_pending: None,
                canceling: false,
                recreate_user: None,
                session_user: g.recreate_user,
                ..g
            },
            seq![EffectModel::Send(ReqModel::Create(g.recreate_user->0))],
        ),
{
}

/// What a rejection shows: a wrong password shakes the card, any other error
/// says what it is. Then the selected user's conversation is begun anew, and the
/// reader pointed at them. Rejections of a conversation that is being cancelled
/// are dropped.
pub proof fn law_what_a_rejection_shows(
    g: GreeterModel,
    typed: Option<Seq<char>>,
    auth: bool,
    text: String,
)
    ensures
        ({
            let (after, es) = answered(g, typed, Ev::Error { auth, text });
            let n: int = if auth {
                3
            } else {
                2
            };
            if g.canceling {
                &&& es == Seq::<EffectModel>::empty()
                &&& after == (GreeterModel { blocked: false, switch_pending: None, ..g })
            } else {
                &&& es.len() >= n
                &&& es[0] == EffectModel::Verifying(false)
                &&& es[1] == EffectModel::Status(
                    if auth {
                        "Wrong password"@
                    } else {
                        text@
                    },
                    StatusKind::Error,
                )
                &&& auth ==> es[2] == EffectModel::Shake
                &&& after == (GreeterModel {
                    blocked: selected(g, typed) is Some,
                    switch_pending: None,
                    session_user: selected(g, typed),
                    prompt_open: false,
                    pending: None,
                    ..g
                })
                &&& match selected(g, typed) {
                    Some(user) => es.skip(n) == seq![EffectModel::Send(ReqModel::Create(user))]
                        + retargeting(g, typed),
                    None => es.skip(n) == retargeting(g, typed),
                }
            }
        }),
{
    let (after, es) = answered(g, typed, Ev::Error { auth, text });
    let n: int = if auth {
        3
    } else {
        2
    };
    if !g.canceling {
        match selected(g, typed) {
            Some(user) => {
                assert(es.skip(n) =~= seq![EffectModel::Send(ReqModel::Create(user))]
                    + retargeting(g, typed));
            },
            None => {
                assert(es.skip(n) =~= retargeting(g, typed));
            },
        }
    }
}

/// What the reader reports is shown as it is; a match for the selected user is
/// their secret.
pub proof fn law_what_the_reader_reports(
    g: GreeterModel,
    typed: Option<Seq<char>>,
    ev: FpEv,
)
    ensures
        match ev {
            FpEv::Ready => fp_reported(g, typed, ev) == (g, seq![EffectModel::FpArmed(true)]),
            FpEv::Hint { msg } => fp_reported(g, typed, ev) == (
                g,
                seq![EffectModel::FpHint(msg@)],
            ),
            FpEv::Unavailable { msg } => fp_reported(g, typed, ev) == (
                g,
                seq![EffectModel::FpArmed(false)],
            ),
            FpEv::Match { user, token } => if selected(g, typed) == Some(user@) {
                &&& fp_reported(g, typed, ev).0 == submitted(g, typed, token@).0
                &&& fp_reported(g, typed, ev).1.len() > 0
                &&& fp_reported(g, typed, ev).1[0] == EffectModel::FpHint("Fingerprint OK"@)
                &&& fp_reported(g, typed, ev).1.drop_first() == submitted(g, typed, token@).1
            } else {
                fp_reported(g, typed, ev) == (g, Seq::<EffectModel>::empty())
            },
        },
{
    if let FpEv::Match { user, token } = ev {
        if selected(g, typed) == Some(user@) {
            assert(fp_reported(g, typed, ev).1.drop_first() =~= submitted(g, typed, token@).1);
        }
    }
}

/// The card comes up with a conversation for the selected user, where there is
/// one, and with the reader pointed at them. The host's user list points the
/// reader anew and changes nothing else of the conversation; an empty one says
/// nothing.
pub proof fn law_how_the_card_comes_up(
    g: GreeterModel,
    typed: Option<Seq<char>>,
    list: Seq<UserInfo>,
)
    ensures
        selected(g, typed) is None ==> begun(g, typed) == (g, retargeting(g, typed)),
        selected(g, typed) is Some ==> begun(g, typed) == (
            GreeterModel { session_user: selected(g, typed), blocked: true, ..g },
            seq![EffectModel::Send(ReqModel::Create(selected(g, typed)->0))] + retargeting(
                g,
                typed,
            ),
        ),
        list.len() == 0 ==> listed(g, typed, list) == (g, Seq::<EffectModel>::empty()),
        list.len() > 0 ==> {
            let (after, es) = listed(g, typed, list);
            &&& after == (GreeterModel {
                enrolled: after.enrolled,
                logged_in: after.logged_in,
                ..g
            })
            &&& es == retargeting(after, typed)
        },
{
}

/// What the host's list says of a user is what its last entry for them says; of
/// their prints, what the last entry says that can tell.
pub proof fn law_the_last_entry_for_a_user_counts(
    g: GreeterModel,
    typed: Option<Seq<char>>,
    list: Seq<UserInfo>,
    k: int,
)
    requires
        0 <= k < list.len(),
    ensures
        (forall|j: int| k < j < list.len() ==> (#[trigger] list[j]).user@ != list[k].user@)
            ==> listed(g, typed, list).0.logged_in.contains_pair(
            list[k].user@,
            list[k].logged_in,
        ),
        list[k].fingerprint is Some && (forall|j: int|
            k < j < list.len() ==> (#[trigger] list[j]).user@ != list[k].user@
                || list[j].fingerprint is None) ==> listed(
            g,
            typed,
            list,
        ).0.enrolled.contains_pair(list[k].user@, list[k].fingerprint->0),
{
    lemma_last_entry(list, k);
}

proof fn lemma_last_entry(list: Seq<UserInfo>, k: int)
    requires
        0 <= k < list.len(),
    ensures
        (forall|j: int| k < j < list.len() ==> (#[trigger] list[j]).user@ != list[k].user@)
            ==> presence(list).contains_pair(list[k].user@, list[k].logged_in),
        list[k].fingerprint is Some && (forall|j: int|
            k < j < list.len() ==> (#[trigger] list[j]).user@ != list[k].user@
                || list[j].fingerprint is None) ==> verdicts(list).contains_pair(
            list[k].user@,
            list[k].fingerprint->0,
        ),
    decreases list.len(),
{
    let head = list.drop_last();
    let n = list.len() - 1;
    assert(list[n] == list.last());
    if k < n {
        assert(forall|j: int| 0 <= j < head.len() ==> #[trigger] head[j] == list[j]);
        lemma_last_entry(head, k);
    }
}

/// The host's list says nothing of a user who is not in it.
pub proof fn law_nothing_is_said_of_strangers(list: Seq<UserInfo>, user: Seq<char>)
    requires
        forall|j: int| 0 <= j < list.len() ==> (#[trigger] list[j]).user@ != user,
    ensures
        !presence(list).dom().contains(user),
        !verdicts(list).dom().contains(user),
    decreases list.len(),
{
    if list.len() > 0 {
        let head = list.drop_last();
        assert(list[list.len() - 1] == list.last());
        assert forall|j: int| 0 <= j < head.len() implies (#[trigger] head[j]).user@ != user by {
            assert(head[j] == list[j]);
        }
        law_nothing_is_said_of_strangers(head, user);
    }
}

} // verus!
