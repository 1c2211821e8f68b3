//! Out-of-band fingerprint auth for the greeter: the wire protocol between
//! greeter and agent, and the single-use token that carries a match into PAM.
//!
//! On a match the agent mints a short-lived random token into a root-only
//! file and hands it to the greeter, which submits it as the password answer.
//! A pam_exec helper compares the submitted authtok against the file, consumes
//! it, and passes auth on a match. A real password sails through unharmed.

use vstd::prelude::*;
use vstd::string::*;
use vstd::utf8::*;
use crate::text::{concat2, concat3, decimal, decimal_of, same};
use super::EngineEvent;

verus! {

/// Seconds a token is good for.
pub const TOKEN_TTL_SECS: u64 = 20;

/// Cap on concurrent client connections.
pub const MAX_CLIENTS: usize = 8;

/// Cap on bytes read from one connection.
pub const MAX_CLIENT_BYTES: u64 = 65_536;

/// `given` where it says anything, `default` otherwise.
pub open spec fn overridden(given: Option<String>, default: Seq<char>) -> Seq<char> {
    if given is Some && given->0@.len() > 0 {
        given->0@
    } else {
        default
    }
}

fn or_default(given: Option<String>, default: &str) -> (r: String)
    ensures
        r@ == overridden(given, default@),
{
    match given {
        Some(path) => if path.as_str().is_empty() {
            default.to_owned()
        } else {
            path
        },
        None => default.to_owned(),
    }
}

/// The agent's socket, for a value of SWAYPPLET_FP_SOCK.
pub fn sock_path(given: Option<String>) -> (r: String)
    ensures
        r@ == overridden(given, "/run/swaypplet-fp/agent.sock"@),
{
    or_default(given, "/run/swaypplet-fp/agent.sock")
}

/// The token file, for a value of SWAYPPLET_FP_TOKEN.
pub fn token_path(given: Option<String>) -> (r: String)
    ensures
        r@ == overridden(given, "/run/swaypplet-fp/token.json"@),
{
    or_default(given, "/run/swaypplet-fp/token.json")
}

/// The lock file beside a token file.
pub fn lock_path(token_path: &str) -> (r: String)
    ensures
        r@ == token_path@ + ".lock"@,
{
    concat2(token_path, ".lock")
}

/// The file a token is written to before it is renamed into place.
pub fn tmp_path(token_path: &str, pid: u32) -> (r: String)
    ensures
        r@ == token_path@ + ".tmp."@ + decimal(pid as nat),
{
    let n = decimal_of(pid as u64);
    concat3(token_path, ".tmp.", n.as_str())
}

/// Whether one more client may be served beside the ones there are.
pub fn admits_client(serving: usize) -> (r: bool)
    ensures
        r == (serving < MAX_CLIENTS),
{
    serving < MAX_CLIENTS
}

/// Client → agent.
#[derive(Debug)]
pub enum Cmd {
    /// Verify `user`'s fingerprint (replaces any previous target).
    Verify { user: String },
    /// Stop verifying and release the reader.
    Stop,
}

/// Agent → client.
#[derive(Debug)]
pub enum Ev {
    /// Device claimed and scanning: show the pill.
    Ready,
    /// Transient guidance ("not recognized", "center your finger", …).
    Hint { msg: String },
    /// Fingerprint matched for `user`; submit `token` as the password.
    Match { user: String, token: String },
    /// No usable reader right now: hide the pill. `Ready` may follow later.
    Unavailable { msg: String },
}

impl View for Cmd {
    type V = Option<Seq<char>>;

    /// The user to verify, or none to stop.
    open spec fn view(&self) -> Option<Seq<char>> {
        match *self {
            Cmd::Verify { user } => Some(user@),
            Cmd::Stop => None,
        }
    }
}

/// An [`Ev`] with its texts as sequences of characters.
pub enum EvModel {
    Ready,
    Hint(Seq<char>),
    Match(Seq<char>, Seq<char>),
    Unavailable(Seq<char>),
}

impl View for Ev {
    type V = EvModel;

    open spec fn view(&self) -> EvModel {
        match *self {
            Ev::Ready => EvModel::Ready,
            Ev::Hint { msg } => EvModel::Hint(msg@),
            Ev::Match { user, token } => EvModel::Match(user@, token@),
            Ev::Unavailable { msg } => EvModel::Unavailable(msg@),
        }
    }
}

/// The verify target that a command asks for.
pub fn target_of(cmd: Cmd) -> (r: Option<String>)
    ensures
        r == match cmd {
            Cmd::Verify { user } => Some(user),
            Cmd::Stop => None,
        },
{
    match cmd {
        Cmd::Verify { user } => Some(user),
        Cmd::Stop => None,
    }
}

/// What becomes of an engine event on its way to the client.
#[derive(Debug)]
pub enum Relay {
    Send(Ev),
    /// Mint a token for this user, then send what [`minted`] makes of it.
    Mint(String),
    Ignore,
}

/// Passes an engine event on: as it is, but for a match, which first takes a
/// token.
pub fn relay(event: EngineEvent) -> (r: Relay)
    ensures
        r == match event {
            EngineEvent::Ready => Relay::Send(Ev::Ready),
            EngineEvent::Hint(msg) => Relay::Send(Ev::Hint { msg }),
            EngineEvent::Unavailable(msg) => Relay::Send(Ev::Unavailable { msg }),
            EngineEvent::Match(user) => Relay::Mint(user),
            EngineEvent::Progress(_) => Relay::Ignore,
        },
{
    match event {
        EngineEvent::Ready => Relay::Send(Ev::Ready),
        EngineEvent::Hint(msg) => Relay::Send(Ev::Hint { msg }),
        EngineEvent::Unavailable(msg) => Relay::Send(Ev::Unavailable { msg }),
        EngineEvent::Match(user) => Relay::Mint(user),
        EngineEvent::Progress(_) => Relay::Ignore,
    }
}

/// What the client hears of a match once its token is stored, or is not.
pub fn minted(user: String, token: Option<String>) -> (r: Ev)
    ensures
        match token {
            Some(t) => r == (Ev::Match { user, token: t }),
            None => r is Unavailable && r->Unavailable_msg@ == "token mint failed"@,
        },
{
    match token {
        Some(token) => Ev::Match { user, token },
        None => Ev::Unavailable { msg: "token mint failed".to_owned() },
    }
}

// ── The token ──────────────────────────────────────────────────────────

/// A minted token as it lies in the token file.
#[derive(Debug)]
pub struct StoredToken {
    pub user: String,
    pub token: String,
    /// Unix seconds.
    pub expires: u64,
}

/// The lowercase hexadecimal digit for `d`, which is below sixteen.
pub open spec fn hex_digit(d: int) -> char {
    if d < 10 {
        (48 + d) as char
    } else {
        (87 + d) as char
    }
}

/// Two lowercase hexadecimal digits for each byte.
pub open spec fn hex(bytes: Seq<u8>) -> Seq<char> {
    Seq::new(
        2 * bytes.len(),
        |i: int|
            if i % 2 == 0 {
                hex_digit(bytes[i / 2] as int / 16)
            } else {
                hex_digit(bytes[i / 2] as int % 16)
            },
    )
}

fn hex_char(d: u8) -> (r: char)
    requires
        d < 16,
    ensures
        r == hex_digit(d as int),
{
    if d < 10 {
        (48 + d) as char
    } else {
        (87 + d) as char
    }
}

/// Two lowercase hexadecimal digits for each byte.
pub fn hex_of(bytes: &[u8]) -> (r: String)
    ensures
        r@ == hex(bytes@),
{
    let mut s = String::new();
    let mut i: usize = 0;
    while i < bytes.len()
        invariant
            i <= bytes@.len(),
            s@ == hex(bytes@.take(i as int)),
        decreases bytes@.len() - i,
    {
        s.push(hex_char(bytes[i] / 16));
        s.push(hex_char(bytes[i] % 16));
        assert(s@ =~= hex(bytes@.take(i + 1))) by {
            assert forall|k: int| 0 <= k < 2 * i + 2 implies s@[k] == hex(bytes@.take(i + 1))[k] by {
                if k < 2 * i {
                    assert(bytes@.take(i as int)[k / 2] == bytes@.take(i + 1)[k / 2]);
                } else {
                    assert(k / 2 == i);
                }
            }
        }
        i += 1;
    }
    assert(bytes@.take(bytes@.len() as int) =~= bytes@);
    s
}

/// The token for `user` out of 32 random bytes, minted at `now` (Unix
/// seconds).
pub fn mint_token(user: &str, random: &[u8; 32], now: u64) -> (r: StoredToken)
    requires
        now <= u64::MAX - TOKEN_TTL_SECS,
    ensures
        r.user@ == user@,
        r.token@ == hex(random@),
        r.expires == now + TOKEN_TTL_SECS,
{
    StoredToken {
        user: user.to_owned(),
        token: hex_of(random.as_slice()),
        expires: now + TOKEN_TTL_SECS,
    }
}

/// Constant-time byte equality (for equal lengths; length itself is public:
/// minted tokens are always 64 hex chars).
pub fn ct_eq(a: &[u8], b: &[u8]) -> (r: bool)
    ensures
        r == (a@ == b@),
{
    if a.len() != b.len() {
        return false;
    }
    let mut d: u8 = 0;
    let mut i: usize = 0;
    while i < a.len()
        invariant
            i <= a@.len(),
            a@.len() == b@.len(),
            d == 0 <==> forall|j: int| 0 <= j < i ==> a@[j] == b@[j],
        decreases a@.len() - i,
    {
        let x: u8 = a[i];
        let y: u8 = b[i];
        assert(d | (x ^ y) == 0 <==> d == 0 && x == y) by (bit_vector);
        d = d | (x ^ y);
        i += 1;
    }
    if d == 0 {
        assert(a@ =~= b@);
    }
    d == 0
}

/// Whether `authtok` is the stored token, for its user, in its time.
pub open spec fn accepted(stored: StoredToken, user: Seq<char>, authtok: Seq<u8>, now: u64) -> bool {
    &&& now <= stored.expires
    &&& stored.user@ == user
    &&& encode_utf8(stored.token@) == authtok
}

/// Pure validation: right user, unexpired, constant-time token equality.
pub fn validate(stored: &StoredToken, user: &str, authtok: &[u8], now: u64) -> (r: bool)
    ensures
        r == accepted(*stored, user@, authtok@, now),
{
    if now > stored.expires || !same(stored.user.as_str(), user) {
        return false;
    }
    ct_eq(stored.token.as_str().as_bytes(), authtok)
}

/// What lies where the token file should be.
#[derive(Debug)]
pub enum TokenFile {
    /// Nothing that can be read.
    Absent,
    /// Something, but no token.
    Garbled,
    Holds(StoredToken),
}

/// How the PAM helper ends, and whether the token file goes.
#[derive(Debug, Clone, Copy, PartialEq, Eq, Structural)]
pub struct Outcome {
    pub code: i32,
    pub consume: bool,
}

/// Whether `b` is one of the bytes pam_exec may append to an authtok.
pub open spec fn is_tail(b: u8) -> bool {
    b == 0 || b == 10 || b == 13
}

/// An authtok without the NULs and newlines it ends with.
pub open spec fn without_tail(authtok: Seq<u8>) -> Seq<u8>
    decreases authtok.len(),
{
    if authtok.len() > 0 && is_tail(authtok.last()) {
        without_tail(authtok.drop_last())
    } else {
        authtok
    }
}

/// Takes the NULs and newlines off the end of an authtok.
pub fn strip_tail(authtok: &mut Vec<u8>)
    ensures
        final(authtok)@ == without_tail(old(authtok)@),
{
    while authtok.len() > 0
        invariant_except_break
            without_tail(authtok@) == without_tail(old(authtok)@),
        ensures
            authtok@ == without_tail(old(authtok)@),
        decreases authtok@.len(),
    {
        let b: u8 = authtok[authtok.len() - 1];
        if b != 0 && b != 10 && b != 13 {
            break;
        }
        authtok.pop();
    }
}

/// Whether PAM asks the helper for authentication.
pub fn asks_for_auth(pam_type: Option<&str>) -> (r: bool)
    ensures
        r == (pam_type is Some && pam_type->0@ == "auth"@),
{
    match pam_type {
        Some(kind) => same(kind, "auth"),
        None => false,
    }
}

/// How the helper ends for `user` with an authtok, which may be unknown.
pub open spec fn checked(
    user: Option<Seq<char>>,
    authtok: Option<Seq<u8>>,
    file: TokenFile,
    now: u64,
) -> Outcome {
    let refused = Outcome { code: 1, consume: false };
    if user is None || authtok is None {
        refused
    } else {
        match file {
            TokenFile::Absent => refused,
            TokenFile::Garbled => Outcome { code: 1, consume: true },
            TokenFile::Holds(stored) => if accepted(
                stored,
                user->0,
                without_tail(authtok->0),
                now,
            ) {
                Outcome { code: 0, consume: true }
            } else {
                Outcome { code: 1, consume: now > stored.expires }
            },
        }
    }
}

/// How the helper ends for what PAM asks of it: anything but authentication is
/// refused, and touches nothing.
pub open spec fn helped(
    pam_type: Option<Seq<char>>,
    user: Option<Seq<char>>,
    authtok: Option<Seq<u8>>,
    file: TokenFile,
    now: u64,
) -> Outcome {
    if pam_type == Some("auth"@) {
        checked(user, authtok, file, now)
    } else {
        Outcome { code: 1, consume: false }
    }
}

/// The PAM helper: exit 0 ⇔ PAM asks for authentication and the authtok is the
/// current, unexpired token for the user. The token goes on success (single
/// use) and on expiry; a wrong guess leaves it in place.
pub fn check(
    pam_type: Option<&str>,
    user: Option<&str>,
    authtok: Option<Vec<u8>>,
    file: &TokenFile,
    now: u64,
) -> (r: Outcome)
    ensures
        r == helped(
            match pam_type {
                Some(t) => Some(t@),
                None => None,
            },
            match user {
                Some(u) => Some(u@),
                None => None,
            },
            match authtok {
                Some(a) => Some(a@),
                None => None,
            },
            *file,
            now,
        ),
{
    let refused = Outcome { code: 1, consume: false };
    if !asks_for_auth(pam_type) {
        return refused;
    }
    let user = match user {
        Some(user) => user,
        None => return refused,
    };
    let mut authtok = match authtok {
        Some(authtok) => authtok,
        None => return refused,
    };
    strip_tail(&mut authtok);
    match file {
        TokenFile::Absent => refused,
        TokenFile::Garbled => Outcome { code: 1, consume: true },
        TokenFile::Holds(stored) => if validate(stored, user, authtok.as_slice(), now) {
            Outcome { code: 0, consume: true }
        } else {
            Outcome { code: 1, consume: now > stored.expires }
        },
    }
}

// ── Laws ───────────────────────────────────────────────────────────────

/// A minted token is 64 lowercase hexadecimal characters.
pub proof fn law_tokens_are_64_hex_characters(random: Seq<u8>)
    requires
        random.len() == 32,
    ensures
        hex(random).len() == 64,
        forall|i: int|
            0 <= i < 64 ==> {
                let c = #[trigger] hex(random)[i];
                '0' <= c <= '9' || 'a' <= c <= 'f'
            },
{
}

proof fn lemma_hex_digit(x: int, y: int)
    requires
        0 <= x < 16,
        0 <= y < 16,
        hex_digit(x) == hex_digit(y),
    ensures
        x == y,
{
    let cx: int = if x < 10 { 48 + x } else { 87 + x };
    let cy: int = if y < 10 { 48 + y } else { 87 + y };
    assert(hex_digit(x) as int == cx && hex_digit(y) as int == cy);
}

/// Different random bytes make different tokens.
pub proof fn law_tokens_tell_their_bytes_apart(a: Seq<u8>, b: Seq<u8>)
    requires
        hex(a) == hex(b),
    ensures
        a == b,
{
    assert(hex(a).len() == 2 * a.len());
    assert(hex(b).len() == 2 * b.len());
    assert(a.len() == b.len());
    assert forall|i: int| 0 <= i < a.len() implies a[i] == b[i] by {
        assert((2 * i) / 2 == i && (2 * i + 1) / 2 == i);
        assert((2 * i) % 2 == 0 && (2 * i + 1) % 2 == 1);
        assert(hex(a)[2 * i] == hex_digit(a[i] as int / 16));
        assert(hex(b)[2 * i] == hex_digit(b[i] as int / 16));
        assert(hex(a)[2 * i + 1] == hex_digit(a[i] as int % 16));
        assert(hex(b)[2 * i + 1] == hex_digit(b[i] as int % 16));
        lemma_hex_digit(a[i] as int / 16, b[i] as int / 16);
        lemma_hex_digit(a[i] as int % 16, b[i] as int % 16);
    }
    assert(a =~= b);
}

/// A token that was just minted passes for its own user until it expires,
/// whatever pam_exec appends to it, and is gone after that one use.
pub proof fn law_minted_token_passes_once(
    stored: StoredToken,
    random: Seq<u8>,
    minted: u64,
    tail: Seq<u8>,
    now: u64,
)
    requires
        random.len() == 32,
        stored.token@ == hex(random),
        stored.expires == minted + TOKEN_TTL_SECS,
        forall|i: int| 0 <= i < tail.len() ==> is_tail(#[trigger] tail[i]),
    ensures
        ({
            let answer = encode_utf8(stored.token@) + tail;
            let file = TokenFile::Holds(stored);
            let outcome = checked(Some(stored.user@), Some(answer), file, now);
            &&& outcome.code == 0 <==> now <= minted + TOKEN_TTL_SECS
            &&& outcome.consume
            &&& checked(Some(stored.user@), Some(answer), TokenFile::Absent, now).code == 1
        }),
{
    let bytes = encode_utf8(stored.token@);
    law_tokens_are_64_hex_characters(random);
    assert(is_ascii_chars(stored.token@)) by {
        assert forall|i: int| 0 <= i < stored.token@.len() implies '\0' <= #[trigger] stored.token@[i]
            <= '\u{7f}' by {
            assert(hex(random)[i] == stored.token@[i]);
        }
    }
    is_ascii_chars_encode_utf8(stored.token@);
    assert(bytes.last() == hex(random)[63] as u8);
    lemma_without_tail(bytes, tail);
}

proof fn lemma_without_tail(bytes: Seq<u8>, tail: Seq<u8>)
    requires
        bytes.len() == 0 || !is_tail(bytes.last()),
        forall|i: int| 0 <= i < tail.len() ==> is_tail(#[trigger] tail[i]),
    ensures
        without_tail(bytes + tail) == bytes,
    decreases tail.len(),
{
    if tail.len() == 0 {
        assert(bytes + tail =~= bytes);
    } else {
        assert((bytes + tail).drop_last() =~= bytes + tail.drop_last());
        assert((bytes + tail).last() == tail.last());
        lemma_without_tail(bytes, tail.drop_last());
    }
}

/// A wrong answer to a token in its time changes nothing: it is refused and
/// the token stays.
pub proof fn law_wrong_guess_leaves_the_token(
    stored: StoredToken,
    user: Seq<char>,
    answer: Seq<u8>,
    now: u64,
)
    requires
        now <= stored.expires,
        user != stored.user@ || without_tail(answer) != encode_utf8(stored.token@),
    ensures
        checked(Some(user), Some(answer), TokenFile::Holds(stored), now) == (Outcome {
            code: 1,
            consume: false,
        }),
{
}

/// Two hexadecimal digits spell a byte: the first its upper half, the second its
/// lower.
pub proof fn law_hex_spells_the_bytes(bytes: Seq<u8>, i: int)
    requires
        0 <= i < bytes.len(),
    ensures
        ({
            let digits = seq![
                '0',
                '1',
                '2',
                '3',
                '4',
                '5',
                '6',
                '7',
                '8',
                '9',
                'a',
                'b',
                'c',
                'd',
                'e',
                'f',
            ];
            &&& hex(bytes).len() == 2 * bytes.len()
            &&& hex(bytes)[2 * i] == digits[bytes[i] as int / 16]
            &&& hex(bytes)[2 * i + 1] == digits[bytes[i] as int % 16]
        }),
{
    assert((2 * i) / 2 == i && (2 * i + 1) / 2 == i);
    assert((2 * i) % 2 == 0 && (2 * i + 1) % 2 == 1);
}

/// The helper lets somebody in exactly where PAM asks for authentication, and
/// the user answers with the stored token of their own, not yet expired, behind
/// which only zeros and line ends may stand. The file goes with a use, with the
/// expiry, and where it makes no sense; never otherwise.
pub proof fn law_who_is_let_in(
    pam_type: Option<Seq<char>>,
    user: Option<Seq<char>>,
    authtok: Option<Seq<u8>>,
    file: TokenFile,
    now: u64,
)
    ensures
        ({
            let r = helped(pam_type, user, authtok, file, now);
            let asked = pam_type == Some("auth"@) && user is Some && authtok is Some;
            let passes = {
                &&& asked
                &&& file matches TokenFile::Holds(stored)
                &&& now <= stored.expires
                &&& stored.user@ == user->0
                &&& without_tail(authtok->0) == encode_utf8(stored.token@)
            };
            &&& r.code == 0 <==> passes
            &&& r.code == 0 || r.code == 1
            &&& r.consume <==> passes || (asked && file is Garbled) || (asked && file is Holds
                && file->Holds_0.expires < now)
        }),
        TOKEN_TTL_SECS == 20,
        MAX_CLIENTS == 8,
        MAX_CLIENT_BYTES == 65_536,
{
}

/// What is taken off an answer is all that it ends with of zeros and line ends,
/// and nothing else.
pub proof fn law_only_the_tail_is_taken_off(authtok: Seq<u8>)
    ensures
        ({
            let n = without_tail(authtok).len() as int;
            &&& n <= authtok.len()
            &&& without_tail(authtok) == authtok.take(n)
            &&& n > 0 ==> authtok[n - 1] != 0 && authtok[n - 1] != 10 && authtok[n - 1] != 13
            &&& forall|i: int|
                n <= i < authtok.len() ==> #[trigger] authtok[i] == 0 || authtok[i] == 10
                    || authtok[i] == 13
        }),
    decreases authtok.len(),
{
    if authtok.len() > 0 && is_tail(authtok.last()) {
        let head = authtok.drop_last();
        law_only_the_tail_is_taken_off(head);
        let n = without_tail(authtok).len() as int;
        assert(authtok.take(n) =~= head.take(n));
        assert forall|i: int| n <= i < authtok.len() implies #[trigger] authtok[i] == 0
            || authtok[i] == 10 || authtok[i] == 13 by {
            if i < head.len() {
                assert(head[i] == authtok[i]);
            }
        }
    } else {
        assert(authtok.take(authtok.len() as int) =~= authtok);
    }
}

/// A path is the one that is given, where that says anything.
pub proof fn law_a_given_path_wins(given: String, default: Seq<char>)
    ensures
        given@.len() > 0 ==> overridden(Some(given), default) == given@,
        given@.len() == 0 ==> overridden(Some(given), default) == default,
        overridden(None, default) == default,
{
}

} // verus!
