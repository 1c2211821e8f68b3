//! The confirm agent: the human half of face authentication for elevation.
//!
//! The daemon sends two stages. `announce` when the camera opens, so that the
//! user learns at once what asks; `confirm` once the face has matched, which is
//! when a press becomes meaningful; `cancel` where the attempt ends first.

use vstd::prelude::*;
use vstd::string::*;
use vstd::utf8::*;
use crate::text::{
    chars_of, concat3, contains, digits_number, find_from, first_from, occurs,
    parse_digits, same, trim, trimmed, utf8_text,
};

verus! {

/// Where the daemon listens.
pub const SOCKET: &'static str = "/run/faced/session.sock";

/// The daemon's interface.
pub const INTERFACE: &'static str = "se.meros.Face1";

/// What one frame of a face verification found.
#[derive(Debug, Clone, Copy, PartialEq, Eq, Structural)]
pub enum Progress {
    Looking,
    Dark,
    Found,
    Recognised,
    Rejected,
}

/// How far a request for elevation has come.
#[derive(Debug, Clone, Copy, PartialEq, Eq, Structural)]
pub enum Stage {
    /// The camera has opened. Tell the user what asks; no press yet.
    Announce,
    /// The face matched. A press now authorises.
    Confirm,
    /// The attempt ended without a decision.
    Cancel,
}

/// The stage with a name. A name that is not known is no stage.
pub open spec fn stage_named(s: Seq<char>) -> Option<Stage> {
    if s == "announce"@ {
        Some(Stage::Announce)
    } else if s == "confirm"@ {
        Some(Stage::Confirm)
    } else if s == "cancel"@ {
        Some(Stage::Cancel)
    } else {
        None
    }
}

impl Stage {
    /// The stage with a name.
    pub fn parse(s: &str) -> (r: Option<Stage>)
        ensures
            r == stage_named(s@),
    {
        if same(s, "announce") {
            Some(Stage::Announce)
        } else if same(s, "confirm") {
            Some(Stage::Confirm)
        } else if same(s, "cancel") {
            Some(Stage::Cancel)
        } else {
            None
        }
    }
}

/// What the panel is asked to show.
#[derive(Debug, PartialEq, Eq)]
pub struct Request {
    pub id: String,
    pub stage: Stage,
    pub purpose: String,
    pub target_user: String,
    pub peer_exe: String,
    pub peer_cmdline: String,
    pub expires_ms: u64,
}

/// A [`Request`] as the contracts speak of it.
#[verifier::ext_equal]
pub struct RequestModel {
    pub id: Seq<char>,
    pub stage: Stage,
    pub purpose: Seq<char>,
    pub target_user: Seq<char>,
    pub peer_exe: Seq<char>,
    pub peer_cmdline: Seq<char>,
    pub expires_ms: u64,
}

impl View for Request {
    type V = RequestModel;

    open spec fn view(&self) -> RequestModel {
        RequestModel {
            id: self.id@,
            stage: self.stage,
            purpose: self.purpose@,
            target_user: self.target_user@,
            peer_exe: self.peer_exe@,
            peer_cmdline: self.peer_cmdline@,
            expires_ms: self.expires_ms,
        }
    }
}

// ── Fields ─────────────────────────────────────────────────────────────

/// The place of the quote that ends a string, from a place in it on. A
/// backslash takes the character behind it with it.
pub open spec fn closing(s: Seq<char>, from: int) -> Option<int>
    decreases s.len() + 1 - from,
{
    if from < 0 || from >= s.len() {
        None
    } else if s[from] == '\\' {
        closing(s, from + 2)
    } else if s[from] == '"' {
        Some(from)
    } else {
        closing(s, from + 1)
    }
}

/// What stands in front of the value of a string field.
pub open spec fn string_needle(key: Seq<char>) -> Seq<char> {
    "\""@ + key + "\":\""@
}

/// What stands in front of the value of a number field.
pub open spec fn number_needle(key: Seq<char>) -> Seq<char> {
    "\""@ + key + "\":"@
}

/// Where the value of a string field begins and ends, at its first mention.
pub open spec fn field_range(json: Seq<char>, key: Seq<char>) -> Option<(int, int)> {
    match first_from(json, string_needle(key), 0) {
        Some(at) => {
            let start = at + string_needle(key).len();
            match closing(json, start) {
                Some(end) => Some((start, end)),
                None => None,
            }
        },
        None => None,
    }
}

/// The value of a string field, as it is written.
pub open spec fn field_text(json: Seq<char>, key: Seq<char>) -> Option<Seq<char>> {
    match field_range(json, key) {
        Some((start, end)) => Some(json.subrange(start, end)),
        None => None,
    }
}

proof fn lemma_closing(s: Seq<char>, from: int)
    requires
        0 <= from,
    ensures
        closing(s, from) matches Some(end) ==> from <= end < s.len(),
    decreases s.len() + 1 - from,
{
    if from < s.len() {
        if s[from] == '\\' {
            lemma_closing(s, from + 2);
        } else if s[from] != '"' {
            lemma_closing(s, from + 1);
        }
    }
}

/// The value of a string field, as it is written. The daemon's messages are
/// flat and machine generated.
pub fn field<'a>(json: &'a str, key: &str) -> (r: Option<&'a str>)
    ensures
        match r {
            Some(s) => field_text(json@, key@) == Some(s@),
            None => field_text(json@, key@) is None,
        },
{
    let needle = concat3("\"", key, "\":\"");
    let v = chars_of(json);
    let n = chars_of(needle.as_str());
    let total: usize = v.len();
    let start: usize = match find_from(v.as_slice(), n.as_slice(), 0) {
        Some(at) => {
            assert(at + n@.len() <= total);
            at + n.len()
        },
        None => return None,
    };
    let mut end: usize = start;
    proof {
        lemma_closing(json@, start as int);
    }
    while end < v.len()
        invariant
            start <= end,
            v@ == json@,
            start <= v@.len(),
            closing(json@, start as int) == closing(json@, end as int),
            field_range(json@, key@) == match closing(json@, start as int) {
                Some(e) => Some((start as int, e)),
                None => None,
            },
        decreases v@.len() - end,
    {
        if v[end] == '\\' {
            if end + 1 >= v.len() {
                assert(closing(json@, end + 2) is None);
                return None;
            }
            end += 2;
        } else if v[end] == '"' {
            return Some(json.substring_char(start, end));
        } else {
            end += 1;
        }
    }
    None
}

/// The place of the first character that is no digit, from a place on.
pub open spec fn digits_end(s: Seq<char>, from: int) -> Option<int>
    decreases s.len() - from,
{
    if from < 0 || from >= s.len() {
        None
    } else if '0' <= s[from] <= '9' {
        digits_end(s, from + 1)
    } else {
        Some(from)
    }
}

/// The value of a number field, where it is followed by anything.
pub open spec fn field_number(json: Seq<char>, key: Seq<char>) -> Option<u64> {
    match first_from(json, number_needle(key), 0) {
        Some(at) => {
            let start = at + number_needle(key).len();
            match digits_end(json, start) {
                Some(end) => digits_number(json.subrange(start, end)),
                None => None,
            }
        },
        None => None,
    }
}

/// The value of a number field.
pub fn number(json: &str, key: &str) -> (r: Option<u64>)
    ensures
        r == field_number(json@, key@),
{
    let needle = concat3("\"", key, "\":");
    let v = chars_of(json);
    let n = chars_of(needle.as_str());
    let total: usize = v.len();
    let start: usize = match find_from(v.as_slice(), n.as_slice(), 0) {
        Some(at) => {
            assert(at + n@.len() <= total);
            at + n.len()
        },
        None => return None,
    };
    let mut digits: Vec<char> = Vec::new();
    let mut end: usize = start;
    while end < v.len()
        invariant
            start <= end <= v@.len(),
            v@ == json@,
            digits@ == v@.subrange(start as int, end as int),
            digits_end(json@, start as int) == digits_end(json@, end as int),
            field_number(json@, key@) == match digits_end(json@, start as int) {
                Some(e) => digits_number(json@.subrange(start as int, e)),
                None => None,
            },
        decreases v@.len() - end,
    {
        if v[end] < '0' || v[end] > '9' {
            return parse_digits(digits.as_slice());
        }
        digits.push(v[end]);
        assert(v@.subrange(start as int, end + 1) =~= v@.subrange(start as int, end as int).push(
            v@[end as int],
        ));
        end += 1;
    }
    None
}

// ── Messages ───────────────────────────────────────────────────────────

/// The answer to a request.
pub open spec fn reply_text(id: Seq<char>, allow: bool) -> Seq<char> {
    "{\"method\":\"se.meros.Face1.ConfirmReply\",\"parameters\":{\"id\":\""@ + id
        + "\",\"decision\":\""@ + (if allow {
        "allow"@
    } else {
        "deny"@
    }) + "\"}}"@
}

/// The answer to a request.
pub fn reply(id: &str, allow: bool) -> (r: String)
    ensures
        r@ == reply_text(id@, allow),
{
    let head = concat3(
        "{\"method\":\"se.meros.Face1.ConfirmReply\",\"parameters\":{\"id\":\"",
        id,
        "\",\"decision\":\"",
    );
    let decision = if allow {
        "allow"
    } else {
        "deny"
    };
    concat3(head.as_str(), decision, "\"}}")
}

/// The message that registers the agent.
pub fn register_message() -> (r: &'static str)
    ensures
        r == "{\"method\":\"se.meros.Face1.RegisterAgent\",\"more\":true,\"parameters\":{\"role\":\"confirm\"}}",
{
    "{\"method\":\"se.meros.Face1.RegisterAgent\",\"more\":true,\"parameters\":{\"role\":\"confirm\"}}"
}

/// A message on the wire: its bytes and a zero, which cannot stand in JSON.
pub fn framed(message: &str) -> (r: Vec<u8>)
    ensures
        r@ == encode_utf8(message@).push(0u8),
{
    let bytes = message.as_bytes();
    let mut r: Vec<u8> = Vec::new();
    let mut i: usize = 0;
    while i < bytes.len()
        invariant
            i <= bytes@.len(),
            r@ == bytes@.take(i as int),
        decreases bytes@.len() - i,
    {
        r.push(bytes[i]);
        assert(bytes@.take(i + 1) =~= bytes@.take(i as int).push(bytes@[i as int]));
        i += 1;
    }
    assert(bytes@.take(bytes@.len() as int) =~= bytes@);
    r.push(0);
    r
}

/// A field, or what stands for it where it is missing.
pub open spec fn field_or(json: Seq<char>, key: Seq<char>, other: Seq<char>) -> Seq<char> {
    match field_text(json, key) {
        Some(s) => s,
        None => other,
    }
}

/// The request in a message: it has a stage that is known, and an id.
pub open spec fn request_in(text: Seq<char>) -> Option<RequestModel> {
    match field_text(text, "stage"@) {
        Some(name) => match (stage_named(name), field_text(text, "id"@)) {
            (Some(stage), Some(id)) => Some(
                RequestModel {
                    id,
                    stage,
                    purpose: field_or(text, "purpose"@, "elevate"@),
                    target_user: field_or(text, "target_user"@, ""@),
                    peer_exe: field_or(text, "exe"@, ""@),
                    peer_cmdline: field_or(text, "cmdline"@, ""@),
                    expires_ms: match field_number(text, "expires_ms"@) {
                        Some(n) => n,
                        None => 0,
                    },
                },
            ),
            _ => None,
        },
        None => None,
    }
}

fn owned_or(s: Option<&str>, other: &str) -> (r: String)
    ensures
        r@ == match s {
            Some(s) => s@,
            None => other@,
        },
{
    match s {
        Some(s) => s.to_owned(),
        None => other.to_owned(),
    }
}

/// The model of a request that may be missing.
pub open spec fn request_of(r: Option<Request>) -> Option<RequestModel> {
    match r {
        Some(r) => Some(r@),
        None => None,
    }
}

/// Reads the request in a message. An unknown stage is ignored rather than
/// guessed.
pub fn read_request(text: &str) -> (r: Option<Request>)
    ensures
        request_of(r) == request_in(text@),
{
    let stage = match field(text, "stage") {
        Some(name) => match Stage::parse(name) {
            Some(stage) => stage,
            None => return None,
        },
        None => return None,
    };
    let id = match field(text, "id") {
        Some(id) => id,
        None => return None,
    };
    let expires_ms: u64 = match number(text, "expires_ms") {
        Some(n) => n,
        None => 0,
    };
    Some(
        Request {
            id: id.to_owned(),
            stage,
            purpose: owned_or(field(text, "purpose"), "elevate"),
            target_user: owned_or(field(text, "target_user"), ""),
            peer_exe: owned_or(field(text, "exe"), ""),
            peer_cmdline: owned_or(field(text, "cmdline"), ""),
            expires_ms,
        },
    )
}

// ── The agent ──────────────────────────────────────────────────────────

/// What a frame from the daemon takes.
#[derive(Debug, PartialEq, Eq)]
pub enum Frame {
    /// Read the next one.
    Ignored,
    /// The registration was refused: stop.
    Refused,
    /// The registration was accepted.
    Registered,
    /// Show a request.
    Asked(Request),
}

/// A [`Frame`] as the contracts speak of it.
pub enum FrameModel {
    Ignored,
    Refused,
    Registered,
    Asked(RequestModel),
}

impl View for Frame {
    type V = FrameModel;

    open spec fn view(&self) -> FrameModel {
        match *self {
            Frame::Ignored => FrameModel::Ignored,
            Frame::Refused => FrameModel::Refused,
            Frame::Registered => FrameModel::Registered,
            Frame::Asked(r) => FrameModel::Asked(r@),
        }
    }
}

/// What a text from the daemon takes, before or after the registration.
pub open spec fn framed_text(registered: bool, text: Seq<char>) -> FrameModel {
    if trimmed(text).len() == 0 {
        FrameModel::Ignored
    } else if occurs(text, "\"error\""@) {
        FrameModel::Refused
    } else if !registered {
        FrameModel::Registered
    } else {
        match request_in(text) {
            Some(r) => FrameModel::Asked(r),
            None => FrameModel::Ignored,
        }
    }
}

/// The bytes of a frame without the zero that ends it.
pub open spec fn unframed(bytes: Seq<u8>) -> Seq<u8> {
    if bytes.len() > 0 && bytes.last() == 0 {
        bytes.drop_last()
    } else {
        bytes
    }
}

/// What a frame takes; one that is not UTF-8 is ignored.
pub open spec fn taken(registered: bool, bytes: Seq<u8>) -> FrameModel {
    if valid_utf8(unframed(bytes)) {
        framed_text(registered, decode_utf8(unframed(bytes)))
    } else {
        FrameModel::Ignored
    }
}

/// The agent on one connection: whether the daemon has accepted it.
#[derive(Debug, Clone, Copy, PartialEq, Eq, Structural)]
pub struct Agent {
    pub registered: bool,
}

impl Agent {
    /// An agent that has asked to be registered.
    pub fn new() -> (r: Agent)
        ensures
            !r.registered,
    {
        Agent { registered: false }
    }

    /// Takes a frame as it was read, with the zero that ends it.
    pub fn frame(&mut self, bytes: &Vec<u8>) -> (r: Frame)
        ensures
            r@ == taken(old(self).registered, bytes@),
            final(self).registered == (old(self).registered || r@ is Registered),
    {
        let mut body: Vec<u8> = Vec::new();
        let mut n: usize = bytes.len();
        if n > 0 && bytes[n - 1] == 0 {
            n -= 1;
        }
        let mut i: usize = 0;
        while i < n
            invariant
                i <= n <= bytes@.len(),
                body@ == bytes@.take(i as int),
            decreases n - i,
        {
            body.push(bytes[i]);
            assert(bytes@.take(i + 1) =~= bytes@.take(i as int).push(bytes@[i as int]));
            i += 1;
        }
        assert(body@ =~= unframed(bytes@));
        let text = match utf8_text(body.as_slice()) {
            Some(text) => text,
            None => return Frame::Ignored,
        };
        let t = trim(text);
        proof {
            reveal_strlit("");
            if t@.len() == 0 {
                assert(t@ =~= ""@);
            }
        }
        if same(t.as_str(), "") {
            return Frame::Ignored;
        }
        if contains(text, "\"error\"") {
            return Frame::Refused;
        }
        if !self.registered {
            self.registered = true;
            return Frame::Registered;
        }
        match read_request(text) {
            Some(r) => Frame::Asked(r),
            None => Frame::Ignored,
        }
    }
}

/// The first wait before reconnecting, in milliseconds.
pub const BACKOFF_MS: u64 = 500;

/// The longest wait before reconnecting, in milliseconds.
pub const BACKOFF_MAX_MS: u64 = 30_000;

/// How long to wait before reconnecting. A connection that ended in order
/// starts over; one that failed doubles the wait.
pub fn next_backoff(backoff: u64, ended_in_order: bool) -> (r: u64)
    ensures
        r == if ended_in_order {
            BACKOFF_MS as int
        } else if backoff >= BACKOFF_MAX_MS / 2 {
            BACKOFF_MAX_MS as int
        } else {
            2 * backoff
        },
{
    if ended_in_order {
        BACKOFF_MS
    } else if backoff >= BACKOFF_MAX_MS / 2 {
        BACKOFF_MAX_MS
    } else {
        backoff * 2
    }
}

/// Nothing is shown to the user before the daemon has accepted the agent, and
/// what is shown carries the id under which it is answered.
pub proof fn law_nothing_is_shown_before_registration(bytes: Seq<u8>)
    ensures
        taken(false, bytes) !is Asked,
        taken(true, bytes) matches FrameModel::Asked(r) ==> field_text(
            decode_utf8(unframed(bytes)),
            "id"@,
        ) == Some(r.id),
{
}

proof fn lemma_plain_closing(s: Seq<char>, from: int, end: int)
    requires
        0 <= from <= end < s.len(),
        s[end] == '"',
        forall|i: int| from <= i < end ==> s[i] != '"' && s[i] != '\\',
    ensures
        closing(s, from) == Some(end),
    decreases end - from,
{
    if from < end {
        lemma_plain_closing(s, from + 1, end);
    }
}

proof fn lemma_digits_end(s: Seq<char>, from: int, end: int)
    requires
        0 <= from <= end < s.len(),
        !('0' <= s[end] <= '9'),
        forall|i: int| from <= i < end ==> '0' <= #[trigger] s[i] <= '9',
    ensures
        digits_end(s, from) == Some(end),
    decreases end - from,
{
    if from < end {
        lemma_digits_end(s, from + 1, end);
    }
}

/// A field is read as it was written: a value without quotes and backslashes,
/// in quotes behind its key, comes back whole, whatever stands around it, where
/// the key is not mentioned before it. A key that is not mentioned has no value.
pub proof fn law_a_field_is_read_as_written(
    before: Seq<char>,
    key: Seq<char>,
    value: Seq<char>,
    after: Seq<char>,
)
    requires
        forall|i: int| 0 <= i < value.len() ==> value[i] != '"' && value[i] != '\\',
    ensures
        ({
            let needle = "\""@ + key + "\":\""@;
            let json = before + needle + value + "\""@ + after;
            (forall|k: int| 0 <= k < before.len() ==> !#[trigger] crate::text::occurs_at(
                json,
                needle,
                k,
            )) ==> field_text(json, key) == Some(value)
        }),
        !occurs(before, "\""@ + key + "\":\""@) ==> field_text(before, key) is None,
{
    let needle = string_needle(key);
    let json = before + needle + value + "\""@ + after;
    reveal_strlit("\"");
    let at = before.len() as int;
    let start = at + needle.len();
    let end = start + value.len();
    assert(json.subrange(at, at + needle.len()) =~= needle);
    crate::text::lemma_first_from(json, needle, 0);
    assert(json[end] == '"');
    assert forall|i: int| start <= i < end implies json[i] != '"' && json[i] != '\\' by {
        assert(json[i] == value[i - start]);
    }
    lemma_plain_closing(json, start, end);
    assert(json.subrange(start, end) =~= value);
    if forall|k: int| 0 <= k < at ==> !#[trigger] crate::text::occurs_at(json, needle, k) {
        assert(crate::text::occurs_at(json, needle, at));
        assert(first_from(json, needle, 0) == Some(at));
    }
    crate::text::lemma_first_from(before, needle, 0);
}

/// A number is read as it was written, up to the first character that is no
/// digit.
pub proof fn law_a_number_is_read_as_written(
    before: Seq<char>,
    key: Seq<char>,
    digits: Seq<char>,
    after: Seq<char>,
)
    requires
        forall|i: int| 0 <= i < digits.len() ==> '0' <= #[trigger] digits[i] <= '9',
        after.len() > 0,
        !('0' <= after[0] <= '9'),
    ensures
        ({
            let needle = "\""@ + key + "\":"@;
            let json = before + needle + digits + after;
            (forall|k: int| 0 <= k < before.len() ==> !#[trigger] crate::text::occurs_at(
                json,
                needle,
                k,
            )) ==> field_number(json, key) == digits_number(digits)
        }),
{
    let needle = number_needle(key);
    let json = before + needle + digits + after;
    let at = before.len() as int;
    let start = at + needle.len();
    let end = start + digits.len();
    assert(json.subrange(at, at + needle.len()) =~= needle);
    crate::text::lemma_first_from(json, needle, 0);
    assert(json[end] == after[0]);
    assert forall|i: int| start <= i < end implies '0' <= #[trigger] json[i] <= '9' by {
        assert(json[i] == digits[i - start]);
    }
    lemma_digits_end(json, start, end);
    assert(json.subrange(start, end) =~= digits);
    if forall|k: int| 0 <= k < at ==> !#[trigger] crate::text::occurs_at(json, needle, k) {
        assert(crate::text::occurs_at(json, needle, at));
        assert(first_from(json, needle, 0) == Some(at));
    }
}

/// A message is a request exactly when it names a stage that is known and an id;
/// it then carries what the message says, and stands for what it leaves out: an
/// elevation of nobody in particular, by nothing in particular, without a time.
pub proof fn law_what_makes_a_request(text: Seq<char>)
    ensures
        ({
            let stage = field_text(text, "stage"@);
            let known = stage == Some("announce"@) || stage == Some("confirm"@) || stage == Some(
                "cancel"@,
            );
            let r = request_in(text);
            &&& r is Some <==> known && field_text(text, "id"@) is Some
            &&& r is Some ==> {
                &&& field_text(text, "id"@) == Some(r->0.id)
                &&& r->0.stage == Stage::Announce <==> stage == Some("announce"@)
                &&& r->0.stage == Stage::Confirm <==> stage == Some("confirm"@)
                &&& r->0.stage == Stage::Cancel <==> stage == Some("cancel"@)
                &&& r->0.purpose == if field_text(text, "purpose"@) is Some {
                    field_text(text, "purpose"@)->0
                } else {
                    "elevate"@
                }
                &&& r->0.target_user == if field_text(text, "target_user"@) is Some {
                    field_text(text, "target_user"@)->0
                } else {
                    ""@
                }
                &&& r->0.peer_exe == if field_text(text, "exe"@) is Some {
                    field_text(text, "exe"@)->0
                } else {
                    ""@
                }
                &&& r->0.peer_cmdline == if field_text(text, "cmdline"@) is Some {
                    field_text(text, "cmdline"@)->0
                } else {
                    ""@
                }
                &&& r->0.expires_ms == if field_number(text, "expires_ms"@) is Some {
                    field_number(text, "expires_ms"@)->0
                } else {
                    0
                }
            }
        }),
{
    reveal_strlit("announce");
    reveal_strlit("confirm");
    reveal_strlit("cancel");
    assert("announce"@.len() == 8 && "confirm"@.len() == 7 && "cancel"@.len() == 6);
}

/// What a frame means: nothing where it is blank or no text; a refusal where it
/// speaks of an error; the registration where that is still awaited; and then a
/// request, where it holds one. The zero at its end is not part of it.
pub proof fn law_what_a_frame_means(registered: bool, bytes: Seq<u8>)
    ensures
        ({
            let body = if bytes.len() > 0 && bytes[bytes.len() - 1] == 0 {
                bytes.take(bytes.len() - 1)
            } else {
                bytes
            };
            let text = decode_utf8(body);
            let blank = !valid_utf8(body) || trimmed(text).len() == 0;
            let m = taken(registered, bytes);
            &&& m is Refused <==> !blank && occurs(text, "\"error\""@)
            &&& m is Registered <==> !blank && !occurs(text, "\"error\""@) && !registered
            &&& m is Asked <==> !blank && !occurs(text, "\"error\""@) && registered && request_in(
                text,
            ) is Some
            &&& m matches FrameModel::Asked(r) ==> request_in(text) == Some(r)
        }),
        BACKOFF_MS == 500,
        BACKOFF_MAX_MS == 30_000,
{
    if bytes.len() > 0 {
        assert(bytes.drop_last() =~= bytes.take(bytes.len() - 1));
    }
}

/// The answer names the request it answers, and says which of the two it is.
pub proof fn law_an_answer_names_its_request(id: Seq<char>, allow: bool)
    ensures
        reply_text(id, allow)
            == "{\"method\":\"se.meros.Face1.ConfirmReply\",\"parameters\":{\"id\":\""@ + id
            + "\",\"decision\":\""@ + (if allow {
            "allow"@
        } else {
            "deny"@
        }) + "\"}}"@,
{
}

} // verus!
