//! The per-connection state machine: the decisions of a connection's handler,
//! from its state and one received buffer to its next state and output.
//! Reading from and writing to the socket is left to the caller.

use vstd::prelude::*;
use crate::action::{Action, ActionView};
use crate::join::{
    JoinResponse, Session, admit_step, encode_reply, lemma_registered_name_taken, registry_wf,
    reject_token, reply_bytes,
};
use crate::wire::{DecodeError, Message, MessageView, decode, decode_spec};

verus! {

/// Where a connection stands in the join handshake.
#[derive(Clone, Debug, PartialEq, Eq)]
pub enum ConnState {
    /// Connected; only a `JOIN` is acted on.
    AwaitingJoin,
    /// Admitted under the given name.
    Joined(String),
    /// The socket failed or was closed; nothing more is processed.
    Closed,
}

pub enum ConnStateView {
    AwaitingJoin,
    Joined(Seq<char>),
    Closed,
}

impl View for ConnState {
    type V = ConnStateView;

    open spec fn view(&self) -> ConnStateView {
        match self {
            ConnState::AwaitingJoin => ConnStateView::AwaitingJoin,
            ConnState::Joined(n) => ConnStateView::Joined(n@),
            ConnState::Closed => ConnStateView::Closed,
        }
    }
}

/// What the handler does after one buffer.
#[derive(Clone, Debug, PartialEq, Eq)]
pub enum Output {
    /// Nothing arrived, or the connection is closed.
    Nothing,
    /// A message arrived that is malformed or not expected in this state.
    Ignored,
    /// These bytes are written back to the peer.
    Reply(Vec<u8>),
    /// This action goes on to the game.
    Forward(Action),
}

pub enum OutputView {
    Nothing,
    Ignored,
    Reply(Seq<u8>),
    Forward(ActionView),
}

impl View for Output {
    type V = OutputView;

    open spec fn view(&self) -> OutputView {
        match self {
            Output::Nothing => OutputView::Nothing,
            Output::Ignored => OutputView::Ignored,
            Output::Reply(b) => OutputView::Reply(b@),
            Output::Forward(a) => OutputView::Forward(a@),
        }
    }
}

/// One step of a connection: its next state, the session's names afterwards,
/// and the output, for a received buffer.
pub open spec fn receive_step(st: ConnStateView, names: Seq<Seq<char>>, b: Seq<u8>) -> (
    ConnStateView,
    Seq<Seq<char>>,
    OutputView,
) {
    if st is Closed {
        (st, names, OutputView::Nothing)
    } else {
        match decode_spec(b) {
            Ok(MessageView::Idle) => (st, names, OutputView::Nothing),
            Err(_) => (st, names, OutputView::Ignored),
            Ok(MessageView::Join(n)) => if st is AwaitingJoin {
                let (after, resp) = admit_step(names, n);
                let next = if resp == JoinResponse::Accepted {
                    ConnStateView::Joined(n)
                } else {
                    ConnStateView::AwaitingJoin
                };
                (next, after, OutputView::Reply(reply_bytes(resp)))
            } else {
                (st, names, OutputView::Ignored)
            },
            Ok(MessageView::Act(a)) => if st is Joined {
                (st, names, OutputView::Forward(a))
            } else {
                (st, names, OutputView::Ignored)
            },
        }
    }
}

/// The handler state of one accepted connection.
pub struct Connection {
    pub state: ConnState,
}

impl Connection {
    /// A freshly accepted connection, waiting for its `JOIN`.
    pub fn new() -> (r: Self)
        ensures
            r.state@ == ConnStateView::AwaitingJoin,
    {
        Connection { state: ConnState::AwaitingJoin }
    }

    /// Processes one received buffer against the shared session.
    pub fn on_receive(&mut self, session: &mut Session, buf: &[u8]) -> (r: Output)
        requires
            old(session).wf(),
        ensures
            final(session).wf(),
            (final(self).state@, final(session)@, r@) == receive_step(
                old(self).state@,
                old(session)@,
                buf@,
            ),
    {
        if let ConnState::Closed = self.state {
            return Output::Nothing;
        }
        match decode(buf) {
            Ok(Message::Idle) => Output::Nothing,
            Err(DecodeError::MalformedMessage) => Output::Ignored,
            Ok(Message::Join(name)) => {
                if let ConnState::AwaitingJoin = self.state {
                    let resp = session.admit_name(name.as_str());
                    if let JoinResponse::Accepted = resp {
                        self.state = ConnState::Joined(name);
                    }
                    Output::Reply(encode_reply(resp))
                } else {
                    Output::Ignored
                }
            },
            Ok(Message::Act(action)) => {
                if let ConnState::Joined(_) = self.state {
                    Output::Forward(action)
                } else {
                    Output::Ignored
                }
            },
        }
    }

    /// The socket failed or was closed by the peer.
    pub fn on_disconnect(&mut self)
        ensures
            final(self).state@ == ConnStateView::Closed,
    {
        self.state = ConnState::Closed;
    }

    /// Whether the handler has stopped.
    pub fn is_closed(&self) -> (r: bool)
        ensures
            r == (self.state@ is Closed),
    {
        if let ConnState::Closed = self.state {
            true
        } else {
            false
        }
    }
}

/// A closed connection never touches the session again and produces
/// nothing, so connections that remain go on against the same registry.
pub proof fn lemma_closed_connection_is_inert(names: Seq<Seq<char>>, b: Seq<u8>)
    ensures
        receive_step(ConnStateView::Closed, names, b) == (
            ConnStateView::Closed,
            names,
            OutputView::Nothing,
        ),
{
}

/// Zero-byte buffers change nothing and are not dispatched, in any state.
pub proof fn lemma_zero_buffer_dispatches_nothing(st: ConnStateView, names: Seq<Seq<char>>, b: Seq<u8>)
    requires
        crate::wire::all_zero(b),
    ensures
        receive_step(st, names, b) == (st, names, OutputView::Nothing),
{
    crate::wire::lemma_zero_buffer_is_idle(b);
}

/// A waiting connection that asks for a name already admitted is answered
/// `REJECT`, keeps waiting, and leaves the registry as it was.
pub proof fn lemma_taken_name_answered_reject(names: Seq<Seq<char>>, n: Seq<char>, b: Seq<u8>)
    requires
        registry_wf(names),
        names.contains(n),
        decode_spec(b) == Ok::<MessageView, DecodeError>(MessageView::Join(n)),
    ensures
        receive_step(ConnStateView::AwaitingJoin, names, b) == (
            ConnStateView::AwaitingJoin,
            names,
            OutputView::Reply(reject_token()),
        ),
{
    lemma_registered_name_taken(names, n);
}

/// A joined connection forwards every action it receives, in the order
/// received: its step depends on its own state, its own buffer and the
/// registry only, so another connection closing cannot interrupt it.
pub proof fn lemma_joined_forwards_actions(
    n: Seq<char>,
    names: Seq<Seq<char>>,
    b: Seq<u8>,
    a: ActionView,
)
    requires
        decode_spec(b) == Ok::<MessageView, DecodeError>(MessageView::Act(a)),
    ensures
        receive_step(ConnStateView::Joined(n), names, b) == (
            ConnStateView::Joined(n),
            names,
            OutputView::Forward(a),
        ),
{
}

} // verus!
