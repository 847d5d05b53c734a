//! A connection to the service: its handshake, and which requests are let through.

use vstd::prelude::*;

use crate::capture::{random_id, uuid_shape};
use crate::text::{opt_text, same};

verus! {

pub const SYSTEM_HELLO: &'static str = "system.hello";

pub const SYSTEM_SHUTDOWN: &'static str = "system.shutdown";

/// The name under which the agent of this machine connects.
pub const LOCAL_AGENT_NAME: &'static str = "fluxdown-agent";

/// A request that came in, after it was read.
#[derive(Debug)]
pub struct RpcRequest {
    pub id: String,
    pub method: String,
    /// Whether it is of the right version of the protocol.
    pub valid: bool,
}

/// What came of a handshake: the name of the other side, where its first request is one that this
/// side can go along with, and what this side answers, where it can be written.
#[derive(Debug)]
pub enum Handshake {
    /// The first request is no handshake, or not one for this side.
    Rejected,
    /// The answer could not be written.
    AnswerFailed(String),
    Accepted { client_name: String },
}

/// What is done about a request.
#[derive(Debug, PartialEq, Eq)]
pub enum Disposition {
    /// Answer that it could not be read.
    ParseFailure(String),
    /// Answer that the service goes down, and have it do so.
    Shutdown,
    /// Answer to the handshake; the connection is ready from now on.
    Welcome,
    /// Answer that the handshake was turned down.
    HelloRejected,
    /// Answer that the handshake failed here.
    Internal(String),
    /// Answer that the request is of the wrong version.
    InvalidVersion,
    /// Answer that a handshake comes first or not at all.
    HelloConflict,
    /// Hand it on to the service; `local_agent` says who asks.
    Call { local_agent: bool },
}

impl Disposition {
    /// The message of an answer that says no; nothing for the others.
    pub open spec fn refusal(self) -> Option<Seq<char>> {
        match self {
            Disposition::ParseFailure(why) => Some(why@),
            Disposition::HelloRejected => Some("hello rejected"@),
            Disposition::Internal(why) => Some(why@),
            Disposition::InvalidVersion => Some("invalid JSON-RPC version"@),
            Disposition::HelloConflict => Some("system.hello is only valid as the first frame"@),
            _ => None,
        }
    }

    /// The message of an answer that says no; nothing for the others.
    pub fn refusal_message(&self) -> (r: Option<String>)
        ensures
            opt_text(r) == self.refusal(),
    {
        match self {
            Disposition::ParseFailure(why) | Disposition::Internal(why) => Some(why.clone()),
            Disposition::HelloRejected => Some("hello rejected".to_owned()),
            Disposition::InvalidVersion => Some("invalid JSON-RPC version".to_owned()),
            Disposition::HelloConflict => Some(
                "system.hello is only valid as the first frame".to_owned(),
            ),
            Disposition::Shutdown | Disposition::Welcome | Disposition::Call { .. } => None,
        }
    }
}

/// What is done about a request, and what it changes.
#[derive(Debug, PartialEq, Eq)]
pub struct SessionReply {
    pub response: Disposition,
    /// Whether the connection became ready.
    pub became_ready: bool,
    /// Whether the service is to go down once the answer is sent.
    pub shutdown_requested: bool,
}

impl SessionReply {
    pub open spec fn of(response: Disposition) -> SessionReply {
        SessionReply {
            response,
            became_ready: response == Disposition::Welcome,
            shutdown_requested: response == Disposition::Shutdown,
        }
    }

    fn reply(response: Disposition) -> (r: SessionReply)
        ensures
            r == SessionReply::of(response),
    {
        let became_ready: bool = matches!(response, Disposition::Welcome);
        let shutdown_requested: bool = matches!(response, Disposition::Shutdown);
        SessionReply { response, became_ready, shutdown_requested }
    }
}

/// One connection.
#[derive(Debug)]
pub struct RpcSession {
    pub connection_id: String,
    pub ready: bool,
    pub is_local_agent: bool,
}

pub open spec fn is_shutdown(request: RpcRequest) -> bool {
    request.method@ == SYSTEM_SHUTDOWN@ && request.valid
}

/// What is answered to the first request.
pub open spec fn hello_answer(handshake: Handshake) -> Disposition {
    match handshake {
        Handshake::Rejected => Disposition::HelloRejected,
        Handshake::AnswerFailed(why) => Disposition::Internal(why),
        Handshake::Accepted { .. } => Disposition::Welcome,
    }
}

impl RpcSession {
    /// The connection after its first request.
    pub open spec fn welcomed(self, handshake: Handshake) -> RpcSession {
        match handshake {
            Handshake::Accepted { client_name } => RpcSession {
                ready: true,
                is_local_agent: client_name@ == LOCAL_AGENT_NAME@,
                ..self
            },
            _ => self,
        }
    }

    /// What is done about a request, read or not.
    pub open spec fn answer(self, request: Result<RpcRequest, String>, handshake: Handshake) -> Disposition {
        match request {
            Err(why) => Disposition::ParseFailure(why),
            Ok(request) => if is_shutdown(request) {
                Disposition::Shutdown
            } else if !self.ready {
                hello_answer(handshake)
            } else if !request.valid {
                Disposition::InvalidVersion
            } else if request.method@ == SYSTEM_HELLO@ {
                Disposition::HelloConflict
            } else {
                Disposition::Call { local_agent: self.is_local_agent }
            },
        }
    }

    /// The connection after a request.
    pub open spec fn after(self, request: Result<RpcRequest, String>, handshake: Handshake) -> RpcSession {
        match request {
            Err(_) => self,
            Ok(request) => if is_shutdown(request) || self.ready {
                self
            } else {
                self.welcomed(handshake)
            },
        }
    }

    /// A connection with a new identifier.
    pub fn new() -> (r: RpcSession)
        ensures
            uuid_shape(r.connection_id@),
            !r.ready,
            !r.is_local_agent,
    {
        RpcSession::with_id(random_id())
    }

    /// A connection with the given identifier.
    pub fn with_id(connection_id: String) -> (r: RpcSession)
        ensures
            r == (RpcSession { connection_id, ready: false, is_local_agent: false }),
    {
        RpcSession { connection_id, ready: false, is_local_agent: false }
    }

    pub fn connection_id(&self) -> (r: &str)
        ensures
            r@ == self.connection_id@,
    {
        self.connection_id.as_str()
    }

    pub fn is_ready(&self) -> (r: bool)
        ensures
            r == self.ready,
    {
        self.ready
    }

    /// Whose choices the service need no longer ask for once the connection is gone.
    pub fn disconnect(&self) -> (r: &str)
        ensures
            r@ == self.connection_id@,
    {
        self.connection_id.as_str()
    }

    /// Takes a request, read or not. Before the handshake, only a handshake and the request to go
    /// down are let through; the latter so that an agent of another version can replace the
    /// service. `handshake` is what comes of the request as a handshake.
    pub fn handle_text(&mut self, request: Result<RpcRequest, String>, handshake: Handshake) -> (r:
        SessionReply)
        ensures
            r == SessionReply::of(old(self).answer(request, handshake)),
            *final(self) == old(self).after(request, handshake),
    {
        let request = match request {
            Ok(request) => request,
            Err(why) => {
                return SessionReply::reply(Disposition::ParseFailure(why));
            },
        };
        if same(request.method.as_str(), SYSTEM_SHUTDOWN) && request.valid {
            return SessionReply::reply(Disposition::Shutdown);
        }
        if !self.ready {
            return SessionReply::reply(self.handle_hello(handshake));
        }
        if !request.valid {
            return SessionReply::reply(Disposition::InvalidVersion);
        }
        if same(request.method.as_str(), SYSTEM_HELLO) {
            return SessionReply::reply(Disposition::HelloConflict);
        }
        SessionReply::reply(Disposition::Call { local_agent: self.is_local_agent })
    }

    fn handle_hello(&mut self, handshake: Handshake) -> (r: Disposition)
        ensures
            r == hello_answer(handshake),
            *final(self) == old(self).welcomed(handshake),
    {
        match handshake {
            Handshake::Rejected => Disposition::HelloRejected,
            Handshake::AnswerFailed(why) => Disposition::Internal(why),
            Handshake::Accepted { client_name } => {
                self.ready = true;
                self.is_local_agent = same(client_name.as_str(), LOCAL_AGENT_NAME);
                Disposition::Welcome
            },
        }
    }
}

/// Nothing reaches the service before the handshake but the request that it go down, which is
/// taken at any time.
pub proof fn law_nothing_passes_before_the_handshake(
    session: RpcSession,
    request: Result<RpcRequest, String>,
    handshake: Handshake,
)
    ensures
        !session.ready ==> !(session.answer(request, handshake) is Call),
        (request is Ok && is_shutdown(request->Ok_0)) ==> session.answer(request, handshake)
            == Disposition::Shutdown,
{
}

/// A connection becomes ready by an accepted handshake alone, once, and stays so; who is at its
/// other end does not change afterwards.
pub proof fn law_handshake_happens_once(
    session: RpcSession,
    request: Result<RpcRequest, String>,
    handshake: Handshake,
)
    ensures
        session.ready ==> session.after(request, handshake) == session,
        session.ready ==> session.answer(request, handshake) != Disposition::Welcome,
        !session.ready ==> (session.after(request, handshake).ready <==> session.answer(
            request,
            handshake,
        ) == Disposition::Welcome),
        session.after(request, handshake).connection_id == session.connection_id,
{
}

/// A request to go down is answered by going down, before the handshake and after, where it is of
/// the right version; it changes nothing else.
pub proof fn law_shutdown_is_always_taken(
    session: &mut RpcSession,
    request: RpcRequest,
    handshake: Handshake,
    reply: SessionReply,
)
    requires
        request.method@ == "system.shutdown"@,
        request.valid,
        call_ensures(RpcSession::handle_text, (session, Ok(request), handshake), reply),
    ensures
        reply.response is Shutdown,
        reply.shutdown_requested,
        !reply.became_ready,
        *final(session) == *old(session),
{
}

/// The first request has to be a handshake that is accepted: then the connection is ready, and knows
/// whether the local agent is at its other end; else it is not, and the refusal says why.
pub proof fn law_first_request_is_the_handshake(
    session: &mut RpcSession,
    request: RpcRequest,
    name: String,
    why: String,
    handshake: Handshake,
    reply: SessionReply,
)
    requires
        !old(session).ready,
        request.method@ != "system.shutdown"@,
        call_ensures(RpcSession::handle_text, (session, Ok(request), handshake), reply),
    ensures
        handshake == (Handshake::Accepted { client_name: name }) ==> {
            &&& reply.response is Welcome
            &&& reply.became_ready
            &&& final(session).ready
            &&& final(session).is_local_agent <==> name@ == "fluxdown-agent"@
        },
        handshake is Rejected ==> reply.response is HelloRejected && !reply.became_ready && !final(
            session).ready,
        handshake == Handshake::AnswerFailed(why) ==> reply.response == Disposition::Internal(why)
            && !reply.became_ready && !final(session).ready,
        !reply.shutdown_requested,
        final(session).connection_id@ == old(session).connection_id@,
{
}

/// After the handshake a request of the right version is passed on, with who sent it; one of another
/// version and a second handshake are refused, each for its own reason.
pub proof fn law_ready_connection_passes_requests_on(
    session: &mut RpcSession,
    request: RpcRequest,
    handshake: Handshake,
    reply: SessionReply,
)
    requires
        old(session).ready,
        request.method@ != "system.shutdown"@,
        call_ensures(RpcSession::handle_text, (session, Ok(request), handshake), reply),
    ensures
        !request.valid ==> reply.response is InvalidVersion,
        request.valid && request.method@ == "system.hello"@ ==> reply.response is HelloConflict,
        request.valid && request.method@ != "system.hello"@ ==> reply.response == (
        Disposition::Call { local_agent: old(session).is_local_agent }),
        !reply.became_ready && !reply.shutdown_requested,
        *final(session) == *old(session),
{
}

/// What cannot be read is answered by why it cannot, and changes nothing.
pub proof fn law_unreadable_request_changes_nothing(
    session: &mut RpcSession,
    why: String,
    handshake: Handshake,
    reply: SessionReply,
    message: Option<String>,
)
    requires
        call_ensures(RpcSession::handle_text, (session, Err(why), handshake), reply),
        call_ensures(Disposition::refusal_message, (&reply.response,), message),
    ensures
        opt_text(message) == Some(why@),
        !reply.became_ready && !reply.shutdown_requested,
        *final(session) == *old(session),
{
}

/// A refusal says why; what is done is no refusal.
pub proof fn law_refusals_say_why(answer: Disposition, message: Option<String>)
    requires
        call_ensures(Disposition::refusal_message, (&answer,), message),
    ensures
        message is None <==> answer is Shutdown || answer is Welcome || answer is Call,
        answer is HelloRejected ==> opt_text(message) == Some("hello rejected"@),
        answer is InvalidVersion ==> opt_text(message) == Some("invalid JSON-RPC version"@),
        answer is HelloConflict ==> opt_text(message) == Some(
            "system.hello is only valid as the first frame"@,
        ),
{
}

/// A connection keeps its identifier from beginning to end, and is not ready at first.
pub proof fn law_connection_keeps_its_identifier(
    id: String,
    session: RpcSession,
    seen: &str,
    ended: &str,
    ready: bool,
)
    requires
        call_ensures(RpcSession::with_id, (id,), session),
        call_ensures(RpcSession::connection_id, (&session,), seen),
        call_ensures(RpcSession::disconnect, (&session,), ended),
        call_ensures(RpcSession::is_ready, (&session,), ready),
    ensures
        seen@ == id@ && ended@ == id@,
        !ready,
        !session.is_local_agent,
{
}

} // verus!
