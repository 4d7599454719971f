//! The inbound handler of one framed socket.
//!
//! A socket is greeted as soon as it is accepted, so that the remote side
//! learns who this node is before it commits to an identity of its own. The
//! first frame that the remote side sends tells who it is, under its
//! signature; from then on its frames go to the inbox as they come.

use crate::dispatch::{
    closed, closed_keeps_invariant, opened, opened_keeps_invariant, Node, NodeView,
};
use crate::envelope::{envelope_of_text, sealed, verified};
use crate::messages::{FullMessage, FullMessageView, MessageView, RoutableView};
use crate::routing::Route;
use vstd::prelude::*;

verus! {

/// What arrived on a socket.
#[derive(Debug, PartialEq, Eq)]
pub enum Frame {
    /// A text frame.
    Text(String),
    /// A close frame.
    Close,
    /// Any other frame.
    Other,
}

impl Clone for Frame {
    fn clone(&self) -> (r: Self)
        ensures
            frame_text(r) == frame_text(*self),
            r is Close == self is Close,
    {
        match self {
            Frame::Text(text) => Frame::Text(text.clone()),
            Frame::Close => Frame::Close,
            Frame::Other => Frame::Other,
        }
    }
}

/// How far a socket has come.
#[derive(Debug, Clone, Copy, PartialEq, Eq, Structural)]
pub enum SessionState {
    /// The greeting is out; the remote side has not said who it is.
    AwaitingIdentity,
    /// The remote side is known and has its route; frames go to the inbox.
    Pumping,
    /// The socket is done.
    Closed,
}

/// The inbound handler of one socket.
#[derive(Debug, Clone, Copy, PartialEq, Eq, Structural)]
pub struct Session {
    /// The handle of the socket.
    pub transport: u64,
    /// How far the socket has come.
    pub state: SessionState,
}

/// What is to be done with a frame.
#[derive(Debug, PartialEq, Eq)]
pub enum Outcome {
    /// Put the envelope into the inbox.
    Enqueue(FullMessage),
    /// Close the socket and stop both of its pumps.
    Terminate,
    /// Nothing: the socket is done already.
    Ignored,
}

/// The value of an [`Outcome`].
pub enum OutcomeView {
    Enqueue(FullMessageView),
    Terminate,
    Ignored,
}

impl View for Outcome {
    type V = OutcomeView;

    open spec fn view(&self) -> OutcomeView {
        match self {
            Outcome::Enqueue(envelope) => OutcomeView::Enqueue(envelope@),
            Outcome::Terminate => OutcomeView::Terminate,
            Outcome::Ignored => OutcomeView::Ignored,
        }
    }
}

/// The greeting of a node.
pub open spec fn greeting_of(node: NodeView) -> MessageView {
    MessageView::Routable(RoutableView::Addresses { addresses: node.addresses })
}

/// What the end of a socket does: a socket that had a route loses it.
pub open spec fn end_step(session: Session, node: NodeView) -> (Session, NodeView, OutcomeView) {
    match session.state {
        SessionState::AwaitingIdentity => (
            Session { state: SessionState::Closed, ..session },
            node,
            OutcomeView::Terminate,
        ),
        SessionState::Pumping => (
            Session { state: SessionState::Closed, ..session },
            closed(node, session.transport),
            OutcomeView::Terminate,
        ),
        SessionState::Closed => (session, node, OutcomeView::Ignored),
    }
}

/// What a text frame does, from the envelope that it was read as and
/// whether that envelope verifies. The first frame must hold an envelope
/// that verifies: its origin gets this socket as its route, and the envelope
/// goes to the inbox. A later frame must hold an envelope, which goes to the
/// inbox unverified. A frame that fails ends the socket.
pub open spec fn envelope_step(
    session: Session,
    node: NodeView,
    envelope: Option<FullMessageView>,
    verifies: bool,
) -> (Session, NodeView, OutcomeView) {
    match session.state {
        SessionState::AwaitingIdentity => match envelope {
            Some(env) => if verifies {
                (
                    Session { state: SessionState::Pumping, ..session },
                    opened(node, env.origin, Route::WS(session.transport)),
                    OutcomeView::Enqueue(env),
                )
            } else {
                end_step(session, node)
            },
            None => end_step(session, node),
        },
        SessionState::Pumping => match envelope {
            Some(env) => (session, node, OutcomeView::Enqueue(env)),
            None => end_step(session, node),
        },
        SessionState::Closed => (session, node, OutcomeView::Ignored),
    }
}

/// Whether a text holds an envelope that verifies.
pub open spec fn text_verifies(text: Seq<char>) -> bool {
    match envelope_of_text(text) {
        Some(env) => verified(env) is Ok,
        None => false,
    }
}

/// The value of a frame: its text, if it is a text frame.
pub open spec fn frame_text(frame: Frame) -> Option<Seq<char>> {
    match frame {
        Frame::Text(text) => Some(text@),
        _ => None,
    }
}

/// What a frame does: a text frame is read as an envelope, any other frame
/// ends the socket.
pub open spec fn frame_step(session: Session, node: NodeView, frame: Option<Seq<char>>) -> (
    Session,
    NodeView,
    OutcomeView,
) {
    match frame {
        Some(text) => envelope_step(session, node, envelope_of_text(text), text_verifies(text)),
        None => end_step(session, node),
    }
}

/// Whatever arrives on a socket, every route of the node uses an open
/// transport afterwards; and a socket that ends while it pumps leaves no
/// route behind.
pub proof fn frame_keeps_invariant(session: Session, node: NodeView, frame: Option<Seq<char>>)
    requires
        node.wf(),
    ensures
        frame_step(session, node, frame).1.wf(),
        session.state is Pumping && frame_step(session, node, frame).2 is Terminate ==> ({
            let after = frame_step(session, node, frame).1;
            &&& !after.open.contains(session.transport)
            &&& forall|i: int|
                0 <= i < after.routes.len() ==> (#[trigger] after.routes[i]).1.transport_of()
                    != session.transport
        }),
{
    closed_keeps_invariant(node, session.transport);
    if let Some(text) = frame {
        if let Some(env) = envelope_of_text(text) {
            opened_keeps_invariant(node, env.origin, Route::WS(session.transport));
        }
    }
}

impl Session {
    /// Accepts a socket: the greeting is to be sent on it at once. Where the
    /// greeting cannot be signed the socket is done before it began.
    pub fn accept(transport: u64, node: &Node) -> (r: (Session, Option<FullMessage>))
        ensures
            r.0.transport == transport,
            match sealed(node@.secret, node@.id, greeting_of(node@)) {
                Ok(greeting) => r.0.state == SessionState::AwaitingIdentity && r.1.deep_view()
                    == Some(greeting),
                Err(_) => r.0.state == SessionState::Closed && r.1 is None,
            },
    {
        match node.greeting() {
            Ok(greeting) => (
                Session { transport, state: SessionState::AwaitingIdentity },
                Some(greeting),
            ),
            Err(_) => (Session { transport, state: SessionState::Closed }, None),
        }
    }

    /// The socket has closed, or one of its pumps has failed.
    pub fn on_end(&mut self, node: &mut Node) -> (r: Outcome)
        ensures
            (*final(self), final(node)@, r@) == end_step(*old(self), old(node)@),
            final(node).wf(),
    {
        proof {
            use_type_invariant(&*node);
        }
        match self.state {
            SessionState::AwaitingIdentity => {
                self.state = SessionState::Closed;
                Outcome::Terminate
            },
            SessionState::Pumping => {
                self.state = SessionState::Closed;
                node.transport_closed(self.transport);
                Outcome::Terminate
            },
            SessionState::Closed => Outcome::Ignored,
        }
    }

    /// Acts on a text frame, given the envelope that it was read as and
    /// whether that envelope verifies.
    pub fn on_envelope(&mut self, node: &mut Node, envelope: Option<FullMessage>, verifies: bool) -> (r:
        Outcome)
        ensures
            (*final(self), final(node)@, r@) == envelope_step(
                *old(self),
                old(node)@,
                envelope.deep_view(),
                verifies,
            ),
            final(node).wf(),
    {
        proof {
            use_type_invariant(&*node);
        }
        match self.state {
            SessionState::AwaitingIdentity => match envelope {
                Some(env) => {
                    if verifies {
                        self.state = SessionState::Pumping;
                        node.route_opened(env.origin.clone(), Route::WS(self.transport));
                        Outcome::Enqueue(env)
                    } else {
                        self.on_end(node)
                    }
                },
                None => self.on_end(node),
            },
            SessionState::Pumping => match envelope {
                Some(env) => Outcome::Enqueue(env),
                None => self.on_end(node),
            },
            SessionState::Closed => Outcome::Ignored,
        }
    }

    /// Acts on a frame.
    pub fn on_frame(&mut self, node: &mut Node, frame: Frame) -> (r: Outcome)
        ensures
            (*final(self), final(node)@, r@) == frame_step(
                *old(self),
                old(node)@,
                frame_text(frame),
            ),
            final(node).wf(),
    {
        match frame {
            Frame::Text(text) => {
                let envelope = FullMessage::from_text(text.as_str());
                let verifies = match (&self.state, &envelope) {
                    (SessionState::AwaitingIdentity, Some(env)) => env.clone().verify().is_ok(),
                    _ => false,
                };
                self.on_envelope(node, envelope, verifies)
            },
            _ => self.on_end(node),
        }
    }
}

} // verus!
