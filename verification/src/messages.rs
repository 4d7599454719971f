//! The messages that peers exchange, and the signed envelope that carries
//! them.

pub use crate::identity::{PeerId, Signature};

use crate::identity::peer_on_wire;
use vstd::prelude::*;

verus! {

/// A copy of a list of ids.
pub(crate) fn copy_peers(peers: &Vec<PeerId>) -> (r: Vec<PeerId>)
    ensures
        r.deep_view() == peers.deep_view(),
{
    let mut out: Vec<PeerId> = Vec::new();
    let mut i: usize = 0;
    while i < peers.len()
        invariant
            i <= peers.len(),
            out@.len() == i,
            forall|k: int| 0 <= k < i ==> (#[trigger] out@[k])@ == peers@[k]@,
        decreases peers.len() - i,
    {
        out.push(peers[i].clone());
        i += 1;
    }
    assert(out.deep_view() =~= peers.deep_view());
    out
}

/// A copy of a list of texts.
pub(crate) fn copy_texts(texts: &Vec<String>) -> (r: Vec<String>)
    ensures
        r.deep_view() == texts.deep_view(),
{
    let mut out: Vec<String> = Vec::new();
    let mut i: usize = 0;
    while i < texts.len()
        invariant
            i <= texts.len(),
            out@.len() == i,
            forall|k: int| 0 <= k < i ==> (#[trigger] out@[k])@ == texts@[k]@,
        decreases texts.len() - i,
    {
        out.push(texts[i].clone());
        i += 1;
    }
    assert(out.deep_view() =~= texts.deep_view());
    out
}

/// A copy of a list of pairs of texts.
pub(crate) fn copy_pairs(pairs: &Vec<(String, String)>) -> (r: Vec<(String, String)>)
    ensures
        r.deep_view() == pairs.deep_view(),
{
    let mut out: Vec<(String, String)> = Vec::new();
    let mut i: usize = 0;
    while i < pairs.len()
        invariant
            i <= pairs.len(),
            out@.len() == i,
            forall|k: int|
                0 <= k < i ==> (#[trigger] out@[k]).0@ == pairs@[k].0@ && out@[k].1@ == pairs@[k].1@,
        decreases pairs.len() - i,
    {
        out.push((pairs[i].0.clone(), pairs[i].1.clone()));
        i += 1;
    }
    assert(out.deep_view() =~= pairs.deep_view());
    out
}

/// A copy of an optional text.
pub(crate) fn copy_optional(text: &Option<String>) -> (r: Option<String>)
    ensures
        r.deep_view() == text.deep_view(),
{
    match text {
        Some(s) => Some(s.clone()),
        None => None,
    }
}

/// The kind of a session description.
#[derive(Debug, Clone, Copy, PartialEq, Eq, Structural)]
pub enum SdpType {
    Unspecified,
    Offer,
    Pranswer,
    Answer,
    Rollback,
}

/// An SDP session description: an offer or an answer of a WebRTC handshake.
#[derive(Debug, PartialEq, Eq)]
pub struct SessionDescription {
    pub sdp_type: SdpType,
    pub sdp: String,
}

/// The value of a [`SessionDescription`].
pub struct SessionDescriptionView {
    pub sdp_type: SdpType,
    pub sdp: Seq<char>,
}

impl DeepView for SessionDescription {
    type V = SessionDescriptionView;

    open spec fn deep_view(&self) -> SessionDescriptionView {
        SessionDescriptionView { sdp_type: self.sdp_type, sdp: self.sdp@ }
    }
}

impl Clone for SessionDescription {
    fn clone(&self) -> (r: Self)
        ensures
            r@ == self@,
    {
        SessionDescription { sdp_type: self.sdp_type, sdp: self.sdp.clone() }
    }
}

impl View for SessionDescription {
    type V = SessionDescriptionView;

    open spec fn view(&self) -> SessionDescriptionView {
        self.deep_view()
    }
}

/// One trickled ICE candidate.
#[derive(Debug, PartialEq, Eq)]
pub struct IceCandidate {
    pub candidate: String,
    pub sdp_mid: Option<String>,
    pub sdp_mline_index: Option<u16>,
    pub username_fragment: Option<String>,
}

/// The value of an [`IceCandidate`].
pub struct IceCandidateView {
    pub candidate: Seq<char>,
    pub sdp_mid: Option<Seq<char>>,
    pub sdp_mline_index: Option<u16>,
    pub username_fragment: Option<Seq<char>>,
}

impl DeepView for IceCandidate {
    type V = IceCandidateView;

    open spec fn deep_view(&self) -> IceCandidateView {
        IceCandidateView {
            candidate: self.candidate@,
            sdp_mid: self.sdp_mid.deep_view(),
            sdp_mline_index: self.sdp_mline_index,
            username_fragment: self.username_fragment.deep_view(),
        }
    }
}

impl Clone for IceCandidate {
    fn clone(&self) -> (r: Self)
        ensures
            r@ == self@,
    {
        IceCandidate {
            candidate: self.candidate.clone(),
            sdp_mid: copy_optional(&self.sdp_mid),
            sdp_mline_index: self.sdp_mline_index,
            username_fragment: copy_optional(&self.username_fragment),
        }
    }
}

impl View for IceCandidate {
    type V = IceCandidateView;

    open spec fn view(&self) -> IceCandidateView {
        self.deep_view()
    }
}

/// A message that may be targeted through the network along a source route.
#[derive(Debug, PartialEq, Eq)]
#[allow(inconsistent_fields)]
pub enum RoutableMessage {
    /// An offer, an answer, or one trickled ICE candidate.
    Connect { sdp: Option<SessionDescription>, ice: Option<IceCandidate> },
    /// The endpoints at which the sender can be dialled.
    Addresses { addresses: Vec<String> },
    /// The peers that the sender is directly connected to.
    RoutingTable { peers: Vec<PeerId> },
    /// A request for the receiver's addresses, its routing table, or both.
    Query { addresses: bool, routing_table: bool },
    /// A failure, with free-form details under distinct keys.
    Error { msg: String, data: Vec<(String, String)> },
    /// A message of a kind that this peer does not know.
    UnknownMessage,
}

/// The value of a [`RoutableMessage`].
#[allow(inconsistent_fields)]
pub enum RoutableView {
    Connect { sdp: Option<SessionDescriptionView>, ice: Option<IceCandidateView> },
    Addresses { addresses: Seq<Seq<char>> },
    RoutingTable { peers: Seq<Seq<u8>> },
    Query { addresses: bool, routing_table: bool },
    Error { msg: Seq<char>, data: Seq<(Seq<char>, Seq<char>)> },
    UnknownMessage,
}

impl DeepView for RoutableMessage {
    type V = RoutableView;

    open spec fn deep_view(&self) -> RoutableView {
        match self {
            RoutableMessage::Connect { sdp, ice } => RoutableView::Connect {
                sdp: sdp.deep_view(),
                ice: ice.deep_view(),
            },
            RoutableMessage::Addresses { addresses } => RoutableView::Addresses {
                addresses: addresses.deep_view(),
            },
            RoutableMessage::RoutingTable { peers } => RoutableView::RoutingTable {
                peers: peers.deep_view(),
            },
            RoutableMessage::Query { addresses, routing_table } => RoutableView::Query {
                addresses: *addresses,
                routing_table: *routing_table,
            },
            RoutableMessage::Error { msg, data } => RoutableView::Error {
                msg: msg@,
                data: data.deep_view(),
            },
            RoutableMessage::UnknownMessage => RoutableView::UnknownMessage,
        }
    }
}

impl Clone for RoutableMessage {
    fn clone(&self) -> (r: Self)
        ensures
            r@ == self@,
    {
        match self {
            RoutableMessage::Connect { sdp, ice } => RoutableMessage::Connect {
                sdp: match sdp {
                    Some(d) => Some(d.clone()),
                    None => None,
                },
                ice: match ice {
                    Some(c) => Some(c.clone()),
                    None => None,
                },
            },
            RoutableMessage::Addresses { addresses } => RoutableMessage::Addresses {
                addresses: copy_texts(addresses),
            },
            RoutableMessage::RoutingTable { peers } => RoutableMessage::RoutingTable {
                peers: copy_peers(peers),
            },
            RoutableMessage::Query { addresses, routing_table } => RoutableMessage::Query {
                addresses: *addresses,
                routing_table: *routing_table,
            },
            RoutableMessage::Error { msg, data } => RoutableMessage::Error {
                msg: msg.clone(),
                data: copy_pairs(data),
            },
            RoutableMessage::UnknownMessage => RoutableMessage::UnknownMessage,
        }
    }
}

impl View for RoutableMessage {
    type V = RoutableView;

    open spec fn view(&self) -> RoutableView {
        self.deep_view()
    }
}

/// A message that only makes sense on a direct hop.
#[derive(Debug, PartialEq, Eq)]
#[allow(inconsistent_fields)]
pub enum UnRoutableMessage {
    /// An instruction to pass `content` on along `path`, whose last peer is
    /// the one that `content` is for.
    SourceRoute { path: Vec<PeerId>, content: RoutableMessage },
    /// Application data for the receiving peer.
    AppData { content: String },
}

/// The value of an [`UnRoutableMessage`].
#[allow(inconsistent_fields)]
pub enum UnRoutableView {
    SourceRoute { path: Seq<Seq<u8>>, content: RoutableView },
    AppData { content: Seq<char> },
}

impl DeepView for UnRoutableMessage {
    type V = UnRoutableView;

    open spec fn deep_view(&self) -> UnRoutableView {
        match self {
            UnRoutableMessage::SourceRoute { path, content } => UnRoutableView::SourceRoute {
                path: path.deep_view(),
                content: content.deep_view(),
            },
            UnRoutableMessage::AppData { content } => UnRoutableView::AppData { content: content@ },
        }
    }
}

impl Clone for UnRoutableMessage {
    fn clone(&self) -> (r: Self)
        ensures
            r@ == self@,
    {
        match self {
            UnRoutableMessage::SourceRoute { path, content } => UnRoutableMessage::SourceRoute {
                path: copy_peers(path),
                content: content.clone(),
            },
            UnRoutableMessage::AppData { content } => UnRoutableMessage::AppData {
                content: content.clone(),
            },
        }
    }
}

impl View for UnRoutableMessage {
    type V = UnRoutableView;

    open spec fn view(&self) -> UnRoutableView {
        self.deep_view()
    }
}

/// Any message.
#[derive(Debug, PartialEq, Eq)]
pub enum Message {
    Routable(RoutableMessage),
    UnRoutable(UnRoutableMessage),
}

/// The value of a [`Message`].
pub enum MessageView {
    Routable(RoutableView),
    UnRoutable(UnRoutableView),
}

impl DeepView for Message {
    type V = MessageView;

    open spec fn deep_view(&self) -> MessageView {
        match self {
            Message::Routable(m) => MessageView::Routable(m.deep_view()),
            Message::UnRoutable(m) => MessageView::UnRoutable(m.deep_view()),
        }
    }
}

impl Clone for Message {
    fn clone(&self) -> (r: Self)
        ensures
            r@ == self@,
    {
        match self {
            Message::Routable(m) => Message::Routable(m.clone()),
            Message::UnRoutable(m) => Message::UnRoutable(m.clone()),
        }
    }
}

impl View for Message {
    type V = MessageView;

    open spec fn view(&self) -> MessageView {
        self.deep_view()
    }
}

/// The envelope on the wire: who sent it, the exact text that was signed,
/// and the signature.
#[derive(Debug, PartialEq, Eq)]
pub struct FullMessage {
    pub origin: PeerId,
    pub body: String,
    pub signature: Signature,
}

/// The value of a [`FullMessage`].
pub struct FullMessageView {
    pub origin: Seq<u8>,
    pub body: Seq<char>,
    pub signature: Seq<u8>,
}

impl View for FullMessage {
    type V = FullMessageView;

    open spec fn view(&self) -> FullMessageView {
        FullMessageView { origin: self.origin@, body: self.body@, signature: self.signature@ }
    }
}

impl Clone for FullMessage {
    fn clone(&self) -> (r: Self)
        ensures
            r@ == self@,
    {
        FullMessage {
            origin: self.origin.clone(),
            body: self.body.clone(),
            signature: self.signature.clone(),
        }
    }
}

impl DeepView for FullMessage {
    type V = FullMessageView;

    open spec fn deep_view(&self) -> FullMessageView {
        self@
    }
}

/// A message whose envelope has been verified, with the peer that signed it.
#[derive(Debug, PartialEq, Eq)]
pub struct VerifiedMessage {
    pub origin: PeerId,
    pub message: Message,
}

/// The value of a [`VerifiedMessage`].
pub struct VerifiedView {
    pub origin: Seq<u8>,
    pub message: MessageView,
}

impl View for VerifiedMessage {
    type V = VerifiedView;

    open spec fn view(&self) -> VerifiedView {
        VerifiedView { origin: self.origin@, message: self.message@ }
    }
}

impl Clone for VerifiedMessage {
    fn clone(&self) -> (r: Self)
        ensures
            r@ == self@,
    {
        VerifiedMessage { origin: self.origin.clone(), message: self.message.clone() }
    }
}

impl DeepView for VerifiedMessage {
    type V = VerifiedView;

    open spec fn deep_view(&self) -> VerifiedView {
        self@
    }
}

/// Whether each id of a sequence is read back from its own text.
pub open spec fn peers_on_wire(peers: Seq<Seq<u8>>) -> bool {
    forall|i: int| 0 <= i < peers.len() ==> peer_on_wire(#[trigger] peers[i])
}

} // verus!
