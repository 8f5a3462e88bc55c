//! The client side of the gossip protocol.
//!
//! A client talks to one node over one connection. This module decides what
//! is sent and what each outcome means; moving bytes is left to the caller,
//! who reports back what the transport did. A connection is used for one
//! attempt: nothing is retried, and a failed connection stays failed.

use vstd::prelude::*;
use crate::codec::{
    borsh_take_bytes, borsh_take_text, bytes_encoding, bytes_fit, lemma_parse_bytes_encoding,
    lemma_parse_bytes_sound, lemma_parse_text_encoding, lemma_parse_text_sound, parse_bytes,
    parse_text, put_bytes, put_text, text_encoding, text_fits,
};
use crate::encoder::Canonical;
use crate::error::Error;

verus! {

/// An intent on its way into the network: the encoded signed intent and the
/// topic it is gossiped under.
#[derive(Clone, Debug, PartialEq, Eq)]
pub struct Intent {
    /// The canonical encoding of a signed intent.
    pub data: Vec<u8>,
    /// The name of the topic.
    pub topic: String,
}

impl Intent {
    /// The envelope for the given bytes and topic.
    pub fn new(data: Vec<u8>, topic: String) -> (intent: Intent)
        ensures
            intent.data@ == data@,
            intent.topic@ == topic@,
    {
        Intent { data, topic }
    }
}

/// A request to the node.
#[derive(Clone, Debug, PartialEq, Eq)]
pub enum RpcMessage {
    /// Gossip an intent under a topic.
    IntentMessage { payload: Vec<u8>, topic: String },
    /// Subscribe to a topic.
    TopicMessage { topic: String },
}

/// A request as plain values.
pub enum RpcMessageView {
    IntentMessage { payload: Seq<u8>, topic: Seq<char> },
    TopicMessage { topic: Seq<char> },
}

impl View for RpcMessage {
    type V = RpcMessageView;

    open spec fn view(&self) -> RpcMessageView {
        match self {
            RpcMessage::IntentMessage { payload, topic } => RpcMessageView::IntentMessage {
                payload: payload@,
                topic: topic@,
            },
            RpcMessage::TopicMessage { topic } => RpcMessageView::TopicMessage { topic: topic@ },
        }
    }
}

impl RpcMessage {
    /// The request that gossips an intent.
    pub fn new_intent(intent: Intent) -> (message: RpcMessage)
        ensures
            message@ == (RpcMessageView::IntentMessage {
                payload: intent.data@,
                topic: intent.topic@,
            }),
    {
        RpcMessage::IntentMessage { payload: intent.data, topic: intent.topic }
    }

    /// The request that subscribes to a topic.
    pub fn new_topic(topic: String) -> (message: RpcMessage)
        ensures
            message@ == (RpcMessageView::TopicMessage { topic: topic@ }),
    {
        RpcMessage::TopicMessage { topic }
    }
}

/// The byte that opens the encoding of a request and tells its kind.
pub open spec fn tag(v: RpcMessageView) -> u8 {
    match v {
        RpcMessageView::IntentMessage { .. } => 0,
        RpcMessageView::TopicMessage { .. } => 1,
    }
}

impl Canonical for RpcMessage {
    open spec fn fits(v: RpcMessageView) -> bool {
        match v {
            RpcMessageView::IntentMessage { payload, topic } => bytes_fit(payload) && text_fits(
                topic,
            ),
            RpcMessageView::TopicMessage { topic } => text_fits(topic),
        }
    }

    open spec fn encoding(v: RpcMessageView) -> Seq<u8> {
        match v {
            RpcMessageView::IntentMessage { payload, topic } => seq![tag(v)] + bytes_encoding(
                payload,
            ) + text_encoding(topic),
            RpcMessageView::TopicMessage { topic } => seq![tag(v)] + text_encoding(topic),
        }
    }

    open spec fn parse(s: Seq<u8>) -> Option<(RpcMessageView, Seq<u8>)> {
        if s.len() == 0 {
            None
        } else if s[0] == 0 {
            match parse_bytes(s.skip(1)) {
                Some((payload, s1)) => match parse_text(s1) {
                    Some((topic, s2)) => Some(
                        (RpcMessageView::IntentMessage { payload, topic }, s2),
                    ),
                    None => None,
                },
                None => None,
            }
        } else if s[0] == 1 {
            match parse_text(s.skip(1)) {
                Some((topic, s1)) => Some((RpcMessageView::TopicMessage { topic }, s1)),
                None => None,
            }
        } else {
            None
        }
    }

    proof fn lemma_parse_encoding(v: RpcMessageView, rest: Seq<u8>) {
        let s = Self::encoding(v) + rest;
        match v {
            RpcMessageView::IntentMessage { payload, topic } => {
                let s1 = text_encoding(topic) + rest;
                assert(s.skip(1) =~= bytes_encoding(payload) + s1);
                lemma_parse_bytes_encoding(payload, s1);
                lemma_parse_text_encoding(topic, rest);
            },
            RpcMessageView::TopicMessage { topic } => {
                assert(s.skip(1) =~= text_encoding(topic) + rest);
                lemma_parse_text_encoding(topic, rest);
            },
        }
    }

    proof fn lemma_parse_sound(s: Seq<u8>) {
        if let Some((v, rest)) = Self::parse(s) {
            assert(s =~= seq![s[0]] + s.skip(1));
            if s[0] == 0 {
                lemma_parse_bytes_sound(s.skip(1));
                let (_, s1) = parse_bytes(s.skip(1)).unwrap();
                lemma_parse_text_sound(s1);
                assert(s =~= Self::encoding(v) + rest);
            } else {
                lemma_parse_text_sound(s.skip(1));
                assert(s =~= Self::encoding(v) + rest);
            }
        }
    }

    fn write(&self, out: &mut Vec<u8>) -> (ok: bool) {
        match self {
            RpcMessage::IntentMessage { payload, topic } => {
                out.push(0u8);
                if !put_bytes(out, payload.as_slice()) {
                    return false;
                }
                if !put_text(out, topic.as_str()) {
                    return false;
                }
                assert(out@ =~= old(out)@ + Self::encoding(self@));
                true
            },
            RpcMessage::TopicMessage { topic } => {
                out.push(1u8);
                if !put_text(out, topic.as_str()) {
                    return false;
                }
                assert(out@ =~= old(out)@ + Self::encoding(self@));
                true
            },
        }
    }

    fn read<'a>(buf: &'a [u8]) -> (r: Option<(Self, &'a [u8])>) {
        if buf.len() == 0 {
            return None;
        }
        let (kind, body) = buf.split_at(1);
        assert(body@ =~= buf@.skip(1));
        if kind[0] == 0u8 {
            let (payload, s1) = match borsh_take_bytes(body) {
                Some(found) => found,
                None => return None,
            };
            let (topic, s2) = match borsh_take_text(s1) {
                Some(found) => found,
                None => return None,
            };
            Some((RpcMessage::IntentMessage { payload, topic }, s2))
        } else if kind[0] == 1u8 {
            let (topic, s1) = match borsh_take_text(body) {
                Some(found) => found,
                None => return None,
            };
            Some((RpcMessage::TopicMessage { topic }, s1))
        } else {
            None
        }
    }
}

/// The node's acknowledgement of a request. This layer hands it to the
/// caller as it came and reads nothing in it.
#[derive(Clone, Debug, PartialEq, Eq)]
pub struct Response {
    /// The acknowledgement as received.
    pub ack: Vec<u8>,
}

/// The states of a connection.
#[derive(Clone, Copy, Debug, PartialEq, Eq, Structural)]
pub enum ConnState {
    /// Nothing has been attempted yet.
    Disconnected,
    /// The one attempt to reach the node is under way.
    Connecting,
    /// The node was reached; requests can be made.
    Connected,
    /// The connection was closed by the client.
    Closed,
    /// The attempt to connect or a request failed.
    Errored,
}

/// What a client can do with a connection, as plain values: the calls of
/// [`Connection`], each with what the transport reported where the call
/// takes a report.
pub enum Call {
    BeginConnect,
    FinishConnect { reached: bool },
    SubmitIntent { payload: Seq<u8>, topic: Seq<char> },
    Subscribe { topic: Seq<char> },
    Receive { delivered: bool },
    Close,
}

/// The state in which a call leaves a connection.
pub open spec fn next_state(state: ConnState, call: Call) -> ConnState {
    match (state, call) {
        (ConnState::Disconnected, Call::BeginConnect) => ConnState::Connecting,
        (ConnState::Connecting, Call::FinishConnect { reached }) => if reached {
            ConnState::Connected
        } else {
            ConnState::Errored
        },
        (ConnState::Connected, Call::Receive { delivered }) => if delivered {
            ConnState::Connected
        } else {
            ConnState::Errored
        },
        (ConnState::Connected, Call::Close) => ConnState::Closed,
        _ => state,
    }
}

/// The message that a call hands to the transport, if it hands over any.
pub open spec fn sent(state: ConnState, call: Call) -> Option<RpcMessageView> {
    match (state, call) {
        (ConnState::Connected, Call::SubmitIntent { payload, topic }) => Some(
            RpcMessageView::IntentMessage { payload, topic },
        ),
        (ConnState::Connected, Call::Subscribe { topic }) => Some(
            RpcMessageView::TopicMessage { topic },
        ),
        _ => None,
    }
}

/// The failure that a call reports, if it fails.
pub open spec fn failure(state: ConnState, call: Call) -> Option<Error> {
    match call {
        Call::BeginConnect => if state == ConnState::Disconnected {
            None
        } else {
            Some(Error::ConnectionError)
        },
        Call::FinishConnect { reached } => if state == ConnState::Connecting && reached {
            None
        } else {
            Some(Error::ConnectionError)
        },
        Call::SubmitIntent { .. } | Call::Subscribe { .. } => if state == ConnState::Connected {
            None
        } else {
            Some(Error::NotConnected)
        },
        Call::Receive { delivered } => if state != ConnState::Connected {
            Some(Error::NotConnected)
        } else if delivered {
            None
        } else {
            Some(Error::TransportError)
        },
        Call::Close => None,
    }
}

/// The state after a series of calls, made in order.
pub open spec fn state_after(state: ConnState, calls: Seq<Call>) -> ConnState
    decreases calls.len(),
{
    if calls.len() == 0 {
        state
    } else {
        next_state(state_after(state, calls.drop_last()), calls.last())
    }
}

/// The messages handed to the transport during a series of calls, in order.
pub open spec fn sent_during(state: ConnState, calls: Seq<Call>) -> Seq<RpcMessageView>
    decreases calls.len(),
{
    if calls.len() == 0 {
        Seq::empty()
    } else {
        let before = sent_during(state, calls.drop_last());
        match sent(state_after(state, calls.drop_last()), calls.last()) {
            Some(message) => before.push(message),
            None => before,
        }
    }
}

/// A connection to a node. Its view is its state.
#[derive(Debug)]
pub struct Connection {
    state: ConnState,
}

impl View for Connection {
    type V = ConnState;

    closed spec fn view(&self) -> ConnState {
        self.state
    }
}

impl Connection {
    /// A connection on which nothing has been attempted.
    pub fn new() -> (connection: Connection)
        ensures
            connection@ == ConnState::Disconnected,
    {
        Connection { state: ConnState::Disconnected }
    }

    /// The current state.
    pub fn state(&self) -> (state: ConnState)
        ensures
            state == self@,
    {
        self.state
    }

    /// Starts the one attempt to connect. On `Ok` the caller dials the node
    /// and reports the outcome with [`Connection::finish_connect`]. A
    /// connection that has been used before cannot be connected again.
    pub fn begin_connect(&mut self) -> (r: Result<(), Error>)
        ensures
            final(self)@ == next_state(old(self)@, Call::BeginConnect),
            match r {
                Ok(_) => failure(old(self)@, Call::BeginConnect) is None,
                Err(e) => failure(old(self)@, Call::BeginConnect) == Some(e),
            },
    {
        match self.state {
            ConnState::Disconnected => {
                self.state = ConnState::Connecting;
                Ok(())
            },
            _ => Err(Error::ConnectionError),
        }
    }

    /// Ends the attempt to connect: `reached` says whether the transport
    /// reached the node and agreed on the protocol. A failed attempt leaves
    /// the connection in `Errored` and is reported as `ConnectionError`.
    pub fn finish_connect(&mut self, reached: bool) -> (r: Result<(), Error>)
        ensures
            final(self)@ == next_state(old(self)@, Call::FinishConnect { reached }),
            match r {
                Ok(_) => failure(old(self)@, Call::FinishConnect { reached }) is None,
                Err(e) => failure(old(self)@, Call::FinishConnect { reached }) == Some(e),
            },
    {
        match self.state {
            ConnState::Connecting => {
                if reached {
                    self.state = ConnState::Connected;
                    Ok(())
                } else {
                    self.state = ConnState::Errored;
                    Err(Error::ConnectionError)
                }
            },
            _ => Err(Error::ConnectionError),
        }
    }

    /// The request that gossips `intent_bytes` under `topic`, to be sent as
    /// one message; the node's answer is reported with
    /// [`Connection::receive`]. Outside `Connected` there is no request and
    /// the call fails with `NotConnected`.
    pub fn submit_intent(&self, intent_bytes: Vec<u8>, topic: String) -> (r: Result<
        RpcMessage,
        Error,
    >)
        ensures
            match r {
                Ok(message) => sent(
                    self@,
                    Call::SubmitIntent { payload: intent_bytes@, topic: topic@ },
                ) == Some(message@),
                Err(e) => sent(self@, Call::SubmitIntent { payload: intent_bytes@, topic: topic@ })
                    is None && failure(
                    self@,
                    Call::SubmitIntent { payload: intent_bytes@, topic: topic@ },
                ) == Some(e),
            },
    {
        match self.state {
            ConnState::Connected => Ok(RpcMessage::new_intent(Intent::new(intent_bytes, topic))),
            _ => Err(Error::NotConnected),
        }
    }

    /// The request that subscribes to `topic`, to be sent as one message;
    /// the node's answer is reported with [`Connection::receive`]. Outside
    /// `Connected` there is no request and the call fails with
    /// `NotConnected`.
    pub fn subscribe(&self, topic: String) -> (r: Result<RpcMessage, Error>)
        ensures
            match r {
                Ok(message) => sent(self@, Call::Subscribe { topic: topic@ }) == Some(message@),
                Err(e) => sent(self@, Call::Subscribe { topic: topic@ }) is None && failure(
                    self@,
                    Call::Subscribe { topic: topic@ },
                ) == Some(e),
            },
    {
        match self.state {
            ConnState::Connected => Ok(RpcMessage::new_topic(topic)),
            _ => Err(Error::NotConnected),
        }
    }

    /// Takes the transport's report on a request: the node's answer, or
    /// nothing when the transport failed. An answer is handed on unchanged.
    /// A failure leaves the connection in `Errored` and is reported as
    /// `TransportError`.
    pub fn receive(&mut self, reply: Option<Vec<u8>>) -> (r: Result<Response, Error>)
        ensures
            final(self)@ == next_state(old(self)@, Call::Receive { delivered: reply is Some }),
            match r {
                Ok(response) => {
                    &&& failure(old(self)@, Call::Receive { delivered: reply is Some }) is None
                    &&& reply matches Some(ack)
                    &&& response.ack@ == ack@
                },
                Err(e) => failure(old(self)@, Call::Receive { delivered: reply is Some }) == Some(
                    e,
                ),
            },
    {
        match self.state {
            ConnState::Connected => match reply {
                Some(ack) => Ok(Response { ack }),
                None => {
                    self.state = ConnState::Errored;
                    Err(Error::TransportError)
                },
            },
            _ => Err(Error::NotConnected),
        }
    }

    /// Closes a connected connection. In any other state nothing changes.
    pub fn close(&mut self)
        ensures
            final(self)@ == next_state(old(self)@, Call::Close),
    {
        match self.state {
            ConnState::Connected => {
                self.state = ConnState::Closed;
            },
            _ => {},
        }
    }
}

/// A message is handed to the transport only by a request on a connected
/// connection, and then it is the message the request describes.
pub proof fn law_requests_need_connection(state: ConnState, call: Call)
    ensures
        sent(state, call) is Some ==> state == ConnState::Connected,
        state != ConnState::Connected ==> sent(state, call) is None,
        (call is SubmitIntent || call is Subscribe) && state != ConnState::Connected ==> failure(
            state,
            call,
        ) == Some(Error::NotConnected),
{
}

/// Nothing leads out of `Errored` or `Closed`, and nothing is sent from
/// there: whatever is called afterwards, the state stays and no message
/// reaches the transport.
pub proof fn law_failed_connection_stays_silent(state: ConnState, calls: Seq<Call>)
    requires
        state == ConnState::Errored || state == ConnState::Closed,
    ensures
        state_after(state, calls) == state,
        sent_during(state, calls) == Seq::<RpcMessageView>::empty(),
    decreases calls.len(),
{
    if calls.len() > 0 {
        law_failed_connection_stays_silent(state, calls.drop_last());
    }
}

/// Containment of a failed connect: when the node is not reached, the
/// attempt is reported as `ConnectionError`, the connection is `Errored`,
/// and no message is ever sent on it, whatever is called afterwards.
pub proof fn law_connect_failure_is_contained(calls: Seq<Call>)
    ensures
        ({
            let dialing = next_state(ConnState::Disconnected, Call::BeginConnect);
            let failed = next_state(dialing, Call::FinishConnect { reached: false });
            &&& failure(ConnState::Disconnected, Call::BeginConnect) is None
            &&& sent(ConnState::Disconnected, Call::BeginConnect) is None
            &&& failure(dialing, Call::FinishConnect { reached: false }) == Some(
                Error::ConnectionError,
            )
            &&& sent(dialing, Call::FinishConnect { reached: false }) is None
            &&& failed == ConnState::Errored
            &&& state_after(failed, calls) == ConnState::Errored
            &&& sent_during(failed, calls) == Seq::<RpcMessageView>::empty()
        }),
{
    law_failed_connection_stays_silent(ConnState::Errored, calls);
}

/// A failed request ends the connection: once the transport fails while a
/// request is in flight, the state is `Errored` and every later request is
/// refused with `NotConnected`.
pub proof fn law_transport_failure_ends_connection(call: Call)
    ensures
        next_state(ConnState::Connected, Call::Receive { delivered: false }) == ConnState::Errored,
        failure(ConnState::Connected, Call::Receive { delivered: false }) == Some(
            Error::TransportError,
        ),
        (call is SubmitIntent || call is Subscribe) ==> failure(ConnState::Errored, call) == Some(
            Error::NotConnected,
        ) && sent(ConnState::Errored, call) is None,
{
}

} // verus!
