//! The greetd side of the greeter: what is put on the wire for a request, and
//! what its reply means.
//!
//! The greetd protocol is strictly synchronous: one request on the wire, then
//! nothing until its reply.

use vstd::prelude::*;

verus! {

/// A request of the greeter's.
#[derive(Debug)]
pub enum Req {
    Create { username: String },
    Respond(Option<String>),
    Cancel,
    Start { cmd: String, env: Vec<String> },
}

/// A request as greetd takes it.
#[derive(Debug)]
pub enum Wire {
    CreateSession { username: String },
    PostAuthMessageResponse { response: Option<String> },
    CancelSession,
    StartSession { cmd: Vec<String>, env: Vec<String> },
}

/// What a reply has to be read against.
#[derive(Debug, Clone, Copy, PartialEq, Eq, Structural)]
pub enum Asked {
    Talk,
    Cancel,
    Start,
}

/// The kinds of message PAM sends in a conversation.
#[derive(Debug, Clone, Copy, PartialEq, Eq, Structural)]
pub enum AuthKind {
    Visible,
    Secret,
    Info,
    Error,
}

/// What greetd answered, or that nothing could be read.
#[derive(Debug)]
pub enum Reply {
    Success,
    AuthMessage { kind: AuthKind, text: String },
    Refused { auth: bool, text: String },
    Broken(String),
}

/// What the greeter hears.
#[derive(Debug)]
pub enum Ev {
    /// PAM conversation message (reply to Create/Respond).
    AuthMessage { kind: AuthKind, text: String },
    /// Conversation complete: the session may be started.
    SessionReady,
    /// start_session succeeded; the greeter must exit so greetd hands over.
    SessionStarted,
    /// cancel_session acknowledged. An error reply counts too: cancel racing
    /// an already-dead session lands in the same "no session" state.
    Canceled,
    /// greetd rejected the request; the session (if any) is gone.
    Error { auth: bool, text: String },
    /// Socket-level failure: the worker has exited.
    Fatal(String),
}

/// What a request is read against once its reply is there.
pub open spec fn asked(req: Req) -> Asked {
    match req {
        Req::Cancel => Asked::Cancel,
        Req::Start { .. } => Asked::Start,
        _ => Asked::Talk,
    }
}

/// Puts a request on the wire.
pub fn wire(req: Req) -> (r: (Wire, Asked))
    ensures
        r.1 == asked(req),
        match req {
            Req::Create { username } => r.0 == (Wire::CreateSession { username }),
            Req::Respond(response) => r.0 == (Wire::PostAuthMessageResponse { response }),
            Req::Cancel => r.0 == Wire::CancelSession,
            Req::Start { cmd, env } => r.0 matches Wire::StartSession { cmd: line, env: e }
                && line@ == seq![cmd] && e == env,
        },
{
    match req {
        Req::Create { username } => (Wire::CreateSession { username }, Asked::Talk),
        Req::Respond(response) => (Wire::PostAuthMessageResponse { response }, Asked::Talk),
        Req::Cancel => (Wire::CancelSession, Asked::Cancel),
        Req::Start { cmd, env } => {
            let mut line: Vec<String> = Vec::new();
            line.push(cmd);
            (Wire::StartSession { cmd: line, env }, Asked::Start)
        },
    }
}

/// What a reply means, read against what was asked.
pub open spec fn meant(asked: Asked, reply: Reply) -> Ev {
    match reply {
        Reply::Success => match asked {
            Asked::Cancel => Ev::Canceled,
            Asked::Start => Ev::SessionStarted,
            Asked::Talk => Ev::SessionReady,
        },
        Reply::AuthMessage { kind, text } => Ev::AuthMessage { kind, text },
        Reply::Refused { auth, text } => if asked == Asked::Cancel {
            Ev::Canceled
        } else {
            Ev::Error { auth, text }
        },
        Reply::Broken(text) => Ev::Fatal(text),
    }
}

/// Reads a reply against what was asked.
pub fn event(asked: Asked, reply: Reply) -> (r: Ev)
    ensures
        r == meant(asked, reply),
{
    match reply {
        Reply::Success => match asked {
            Asked::Cancel => Ev::Canceled,
            Asked::Start => Ev::SessionStarted,
            Asked::Talk => Ev::SessionReady,
        },
        Reply::AuthMessage { kind, text } => Ev::AuthMessage { kind, text },
        Reply::Refused { auth, text } => if asked == Asked::Cancel {
            Ev::Canceled
        } else {
            Ev::Error { auth, text }
        },
        Reply::Broken(text) => Ev::Fatal(text),
    }
}

/// Whether the worker ends with this event.
pub fn is_last(ev: &Ev) -> (r: bool)
    ensures
        r == (ev is Fatal || ev is SessionStarted),
{
    match ev {
        Ev::Fatal(_) => true,
        Ev::SessionStarted => true,
        _ => false,
    }
}

/// A cancel that greetd answers, with success or an error, leaves no session.
pub proof fn law_an_answered_cancel_is_done(reply: Reply)
    ensures
        reply is Success || reply is Refused ==> meant(asked(Req::Cancel), reply) is Canceled,
{
}

/// Success ends what was asked: a conversation is ready to start, a start has
/// started, and a cancelled session is gone.
pub proof fn law_what_success_means(req: Req)
    ensures
        req is Create || req is Respond ==> meant(asked(req), Reply::Success) is SessionReady,
        req is Start ==> meant(asked(req), Reply::Success) is SessionStarted,
        req is Cancel ==> meant(asked(req), Reply::Success) is Canceled,
{
}

/// What PAM says reaches the greeter word for word, and so does a refusal of
/// anything but a cancel and what broke the socket.
pub proof fn law_words_pass_unchanged(req: Req, kind: AuthKind, auth: bool, text: String)
    ensures
        meant(asked(req), Reply::AuthMessage { kind, text }) == (Ev::AuthMessage { kind, text }),
        !(req is Cancel) ==> meant(asked(req), Reply::Refused { auth, text }) == (Ev::Error {
            auth,
            text,
        }),
        meant(asked(req), Reply::Broken(text)) == Ev::Fatal(text),
{
}

} // verus!
