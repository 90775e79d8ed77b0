//! The connection's protocol state machine. It owns the slab of pending
//! calls; whoever drives it hands it each inbound frame and each request,
//! and performs the reaction it returns, in order.

use vstd::prelude::*;
use serde_json::Value;
use crate::json::{json_is_null, json_text, null_value, to_text};
use crate::protocol::{ClientMessage, DecodeError, MethodResponse, ServerMessage};
use crate::randomslab::{is_label, lookup, Slab};
use crate::text::{split_token, token_text};

verus! {

/// RPC method calls may fail with a JSON error; it is wrapped in this.
#[derive(Debug, PartialEq, Eq)]
pub struct RPCError(pub Value);

impl RPCError {
    /// The error as text: `RPC Error: ` and the error's JSON text.
    pub fn message(&self) -> (r: String)
        ensures
            r@ == "RPC Error: "@ + json_text(self.0),
    {
        let mut s = "RPC Error: ".to_owned();
        let t = to_text(&self.0);
        s.append(t.as_str());
        s
    }
}

/// DDP RPC calls return either a value or an error. Both can be arbitrary
/// JSON values.
pub type MethodResult = Result<Value, RPCError>;

/// Whether `r` is what the reply `resp` tells its caller: its error if it
/// carries one, else its result, `null` when it has none.
pub open spec fn delivers(resp: MethodResponse, r: MethodResult) -> bool {
    match resp.error {
        Some(e) => r == Err::<Value, RPCError>(RPCError(e)),
        None => match resp.result {
            Some(x) => r == Ok::<Value, RPCError>(x),
            None => r matches Ok(x) && json_is_null(x),
        },
    }
}

impl MethodResponse {
    /// What the reply tells its caller.
    pub fn into_result(self) -> (r: MethodResult)
        ensures
            delivers(self, r),
    {
        match self.error {
            Some(e) => Err(RPCError(e)),
            None => match self.result {
                Some(x) => Ok(x),
                None => Ok(null_value()),
            },
        }
    }
}

/// A request of the connection's users. `T` is the channel on which the
/// reply to a method call goes back to its caller.
pub enum Request<T> {
    Method { name: String, params: Vec<Value>, reply: T },
    Subscribe { name: String, id: String, params: Vec<Value> },
    Unsubscribe { id: String },
}

/// Why the connection ended.
#[derive(Debug, Clone, Copy, PartialEq, Eq, Structural)]
pub enum Termination {
    /// The inbound side of the transport ended or failed.
    TransportClosed,
    /// A frame could not be sent.
    SendFailed,
    /// An inbound frame was not a server message.
    Undecodable(DecodeError),
    /// A method result named no pending call.
    UnknownCallId,
    /// Every handle on the connection is gone.
    RequestsClosed,
    /// The consumer of inbound events is gone.
    EventsClosed,
}

/// The phases of a connection.
#[derive(Debug, Clone, Copy, PartialEq, Eq, Structural)]
pub enum Phase {
    /// The transport is open; nothing was sent yet.
    Connecting,
    /// The connect message went out; `frames` inbound frames have come back.
    Handshaking { frames: u8 },
    /// Frames and requests are routed.
    Ready,
    /// Nothing is processed any more.
    Terminated(Termination),
}

/// What the driver of the state machine must do next.
pub enum Reaction<T> {
    /// Nothing.
    Nothing,
    /// Send this message on the transport.
    Send(ClientMessage),
    /// Hand this message to the consumer of inbound events.
    Forward(ServerMessage),
    /// Hand this result to the caller waiting on this reply channel.
    Deliver(T, MethodResult),
    /// Stop: close the transport and the event stream.
    Stop(Termination),
}

/// The state of a connection: its phase, and the pending calls by slot,
/// each with its label and its reply channel.
pub struct ActorView<T> {
    pub phase: Phase,
    pub pending: Map<nat, (Seq<char>, T)>,
}

/// Whether `s` is the state after ending for `why`: no call is pending any
/// more, so every reply channel is closed.
pub open spec fn terminated<T>(s: ActorView<T>, why: Termination) -> bool {
    &&& s.phase == Phase::Terminated(why)
    &&& s.pending.dom() =~= Set::empty()
}

/// The connect message that opens the handshake.
pub open spec fn is_connect_request(m: ClientMessage) -> bool {
    m matches ClientMessage::Connect { version, support, session } && version@ == "1"@
        && support@.len() == 1 && support@[0]@ == "1"@ && session is None
}

/// How a ready connection handles a server message: a ping is answered
/// with a pong that echoes its id; a method result goes to the call that it
/// names, whose slot is freed, and a result that names no pending call ends
/// the connection; anything else goes to the consumer as it is.
pub open spec fn message_step<T>(
    s0: ActorView<T>,
    m: ServerMessage,
    s1: ActorView<T>,
    r: Reaction<T>,
) -> bool {
    match m {
        ServerMessage::Ping { id } => s1 == s0 && r == Reaction::<T>::Send(
            ClientMessage::Pong { id },
        ),
        ServerMessage::Result(resp) => match lookup(s0.pending, resp.id@) {
            Some(t) => {
                &&& s1.phase == s0.phase
                &&& s1.pending == s0.pending.remove(split_token(resp.id@)->Some_0.0)
                &&& r matches Reaction::Deliver(t2, res) && t2 == t && delivers(resp, res)
            },
            None => terminated(s1, Termination::UnknownCallId) && r == Reaction::<T>::Stop(
                Termination::UnknownCallId,
            ),
        },
        _ => s1 == s0 && r == Reaction::<T>::Forward(m),
    }
}

/// How a connection handles an inbound frame (a message, or why it is
/// none). While handshaking, the first two frames are taken whatever they
/// hold, and the second makes the connection ready. When ready, a frame
/// that is no server message ends the connection. In any other phase the
/// frame is ignored.
pub open spec fn frame_step<T>(
    s0: ActorView<T>,
    f: Result<ServerMessage, DecodeError>,
    s1: ActorView<T>,
    r: Reaction<T>,
) -> bool {
    match s0.phase {
        Phase::Handshaking { frames } => {
            &&& s1.pending == s0.pending
            &&& s1.phase == if frames >= 1 {
                Phase::Ready
            } else {
                Phase::Handshaking { frames: (frames + 1) as u8 }
            }
            &&& r is Nothing
        },
        Phase::Ready => match f {
            Err(e) => terminated(s1, Termination::Undecodable(e)) && r == Reaction::<T>::Stop(
                Termination::Undecodable(e),
            ),
            Ok(m) => message_step(s0, m, s1, r),
        },
        _ => s1 == s0 && r is Nothing,
    }
}

/// How a connection handles a request. When ready: a method call gets a
/// fresh token `index:label` as its id, under which its reply channel is
/// kept, and goes out as a `method` message; a subscription goes out as a
/// `sub` message under the id its caller chose; an unsubscription goes out
/// as an `unsub` message. In any other phase the request is dropped.
pub open spec fn request_step<T>(
    s0: ActorView<T>,
    q: Request<T>,
    s1: ActorView<T>,
    r: Reaction<T>,
) -> bool {
    if s0.phase is Ready {
        match q {
            Request::Method { name, params, reply } => {
                &&& s1.phase == s0.phase
                &&& r matches Reaction::Send(ClientMessage::Method { id, method, params: p })
                    && method == name && p == params && (split_token(id@) matches Some((n, label))
                    && id@ == token_text(n, label) && is_label(label) && !s0.pending.contains_key(n)
                    && s1.pending == s0.pending.insert(n, (label, reply)))
            },
            Request::Subscribe { name, id, params } => s1 == s0 && r == Reaction::<T>::Send(
                ClientMessage::Sub { id, name, params },
            ),
            Request::Unsubscribe { id } => s1 == s0 && r == Reaction::<T>::Send(
                ClientMessage::Unsub { id },
            ),
        }
    } else {
        s1 == s0 && r is Nothing
    }
}

/// The protocol state machine of one connection.
pub struct Actor<T> {
    phase: Phase,
    pending: Slab<T>,
}

impl<T> View for Actor<T> {
    type V = ActorView<T>;

    closed spec fn view(&self) -> ActorView<T> {
        ActorView { phase: self.phase, pending: self.pending@ }
    }
}

impl<T> Actor<T> {
    /// The state machine's internal consistency.
    pub closed spec fn wf(&self) -> bool {
        self.pending.wf()
    }

    /// A connection whose transport is open, before anything was sent.
    pub fn new() -> (r: Self)
        ensures
            r.wf(),
            r@.phase == Phase::Connecting,
            r@.pending.dom() =~= Set::empty(),
    {
        Actor { phase: Phase::Connecting, pending: Slab::new() }
    }

    /// The current phase.
    pub fn phase(&self) -> (r: Phase)
        ensures
            r == self@.phase,
    {
        self.phase
    }

    /// Opens the handshake: the connect message goes out first. Only a
    /// connection that has not started yet starts.
    pub fn start(&mut self) -> (r: Reaction<T>)
        requires
            old(self).wf(),
        ensures
            final(self).wf(),
            old(self)@.phase is Connecting ==> (final(self)@.phase == (Phase::Handshaking {
                frames: 0,
            }) && final(self)@.pending == old(self)@.pending && (r matches Reaction::Send(m)
                && is_connect_request(m))),
            !(old(self)@.phase is Connecting) ==> (final(self)@ == old(self)@ && (r is Nothing)),
    {
        match self.phase {
            Phase::Connecting => {
                self.phase = Phase::Handshaking { frames: 0 };
                let one = "1".to_owned();
                let m = ClientMessage::Connect {
                    version: "1".to_owned(),
                    support: vec![one],
                    session: None,
                };
                Reaction::Send(m)
            },
            _ => Reaction::Nothing,
        }
    }

    /// Ends the connection for `why`, dropping every pending call. An ended
    /// connection stays as it is.
    pub fn stop(&mut self, why: Termination) -> (r: Reaction<T>)
        requires
            old(self).wf(),
        ensures
            final(self).wf(),
            old(self)@.phase is Terminated ==> (final(self)@ == old(self)@ && (r is Nothing)),
            !(old(self)@.phase is Terminated) ==> terminated(final(self)@, why) && r
                == Reaction::<T>::Stop(why),
    {
        match self.phase {
            Phase::Terminated(_) => Reaction::Nothing,
            _ => {
                self.phase = Phase::Terminated(why);
                self.pending = Slab::new();
                Reaction::Stop(why)
            },
        }
    }

    /// Handles an inbound frame, as `frame_step` describes.
    pub fn on_frame(&mut self, f: Result<ServerMessage, DecodeError>) -> (r: Reaction<T>)
        requires
            old(self).wf(),
        ensures
            final(self).wf(),
            frame_step(old(self)@, f, final(self)@, r),
    {
        match self.phase {
            Phase::Handshaking { frames } => {
                if frames >= 1 {
                    self.phase = Phase::Ready;
                } else {
                    self.phase = Phase::Handshaking { frames: frames + 1 };
                }
                Reaction::Nothing
            },
            Phase::Ready => match f {
                Err(e) => self.stop(Termination::Undecodable(e)),
                Ok(ServerMessage::Ping { id }) => Reaction::Send(ClientMessage::Pong { id }),
                Ok(ServerMessage::Result(resp)) => match self.pending.remove(resp.id.as_str()) {
                    Some(reply) => Reaction::Deliver(reply, resp.into_result()),
                    None => self.stop(Termination::UnknownCallId),
                },
                Ok(m) => Reaction::Forward(m),
            },
            _ => Reaction::Nothing,
        }
    }

    /// Handles a request, as `request_step` describes.
    pub fn on_request(&mut self, q: Request<T>) -> (r: Reaction<T>)
        requires
            old(self).wf(),
        ensures
            final(self).wf(),
            request_step(old(self)@, q, final(self)@, r),
    {
        match self.phase {
            Phase::Ready => match q {
                Request::Method { name, params, reply } => {
                    let id = self.pending.insert(reply);
                    Reaction::Send(ClientMessage::Method { id, method: name, params })
                },
                Request::Subscribe { name, id, params } => Reaction::Send(
                    ClientMessage::Sub { id, name, params },
                ),
                Request::Unsubscribe { id } => Reaction::Send(ClientMessage::Unsub { id }),
            },
            _ => Reaction::Nothing,
        }
    }
}

/// A reply reaches its caller at most once: once a method result has been
/// delivered, a second result under the same id names no pending call, and
/// ends the connection.
pub proof fn lemma_reply_delivered_once<T>(
    s0: ActorView<T>,
    first: MethodResponse,
    s1: ActorView<T>,
    r1: Reaction<T>,
    second: MethodResponse,
    s2: ActorView<T>,
    r2: Reaction<T>,
)
    requires
        s0.phase is Ready,
        frame_step(s0, Ok(ServerMessage::Result(first)), s1, r1),
        r1 is Deliver,
        second.id@ == first.id@,
        frame_step(s1, Ok(ServerMessage::Result(second)), s2, r2),
    ensures
        terminated(s2, Termination::UnknownCallId),
        r2 == Reaction::<T>::Stop(Termination::UnknownCallId),
{
    assert(lookup(s0.pending, first.id@) is Some);
    assert(lookup(s1.pending, second.id@) is None);
}

/// Calls go out in the order in which they were made: two method calls
/// handled one after the other yield their `method` messages in that order,
/// each with its own name and parameters, under two different ids.
pub proof fn lemma_calls_in_order<T>(
    s0: ActorView<T>,
    a: Request<T>,
    s1: ActorView<T>,
    ra: Reaction<T>,
    b: Request<T>,
    s2: ActorView<T>,
    rb: Reaction<T>,
)
    requires
        s0.phase is Ready,
        a is Method,
        b is Method,
        request_step(s0, a, s1, ra),
        request_step(s1, b, s2, rb),
    ensures
        (ra matches Reaction::Send(ClientMessage::Method { id: ida, method: ma, params: pa })
            && ma == a->Method_name && pa == a->Method_params && (rb matches Reaction::Send(
            ClientMessage::Method { id: idb, method: mb, params: pb },
        ) && mb == b->Method_name && pb == b->Method_params && ida@ != idb@)),
{
    let ida = ra->Send_0->Method_id;
    let idb = rb->Send_0->Method_id;
    let (na, la) = split_token(ida@)->Some_0;
    let (nb, lb) = split_token(idb@)->Some_0;
    assert(s1.pending.contains_key(na));
    assert(!s1.pending.contains_key(nb));
}

/// Keep-alive: a ready connection answers each ping with exactly one pong
/// that echoes the ping's id, absent or not, and changes nothing else.
pub proof fn lemma_ping_answered<T>(
    s0: ActorView<T>,
    id: Option<String>,
    s1: ActorView<T>,
    r: Reaction<T>,
)
    requires
        s0.phase is Ready,
        frame_step(s0, Ok(ServerMessage::Ping { id }), s1, r),
    ensures
        s1 == s0,
        r == Reaction::<T>::Send(ClientMessage::Pong { id }),
{
}

} // verus!
