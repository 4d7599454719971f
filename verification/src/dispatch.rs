//! The dispatcher's decisions.
//!
//! A node owns no socket and no peer connection. It is told what happened
//! (a transport opened or closed, an envelope arrived) and says what is to be
//! done: which envelope to send on which route, which peer connection to
//! create, what to hand to it. Whoever owns the transports carries that out.

use crate::codec::decode_message;
use crate::envelope::{sealed, verified, SignError, VerifyError};
use crate::identity::{peer_wf, signature_valid, Identity, PeerId};
use crate::inbox::{Inbox, InboundView};
use crate::json::parsed_json;
use crate::messages::{
    copy_pairs, copy_peers, copy_texts, FullMessage, FullMessageView, IceCandidate,
    IceCandidateView, Message, MessageView, RoutableMessage, RoutableView, SdpType,
    SessionDescription, SessionDescriptionView, UnRoutableMessage, UnRoutableView,
    VerifiedMessage, VerifiedView,
};
use crate::routing::{
    distinct, inserted, keys, last_writer_wins, lemma_position_from, lemma_without_transport,
    lookup, position, removed, without_transport, ConnectionTable, Route, RoutingTable,
};
use vstd::prelude::*;

verus! {

/// Where a reply goes.
#[derive(Debug, PartialEq, Eq)]
pub enum ReplyHandle {
    /// Straight to the peer, on its route.
    Direct(PeerId),
    /// Along the path, to its last peer.
    Path(Vec<PeerId>),
}

/// The value of a [`ReplyHandle`].
pub enum ReplyView {
    Direct(Seq<u8>),
    Path(Seq<Seq<u8>>),
}

impl DeepView for ReplyHandle {
    type V = ReplyView;

    open spec fn deep_view(&self) -> ReplyView {
        match self {
            ReplyHandle::Direct(peer) => ReplyView::Direct(peer@),
            ReplyHandle::Path(path) => ReplyView::Path(path.deep_view()),
        }
    }
}

impl View for ReplyHandle {
    type V = ReplyView;

    open spec fn view(&self) -> ReplyView {
        self.deep_view()
    }
}

impl Clone for ReplyHandle {
    fn clone(&self) -> (r: Self)
        ensures
            r@ == self@,
    {
        match self {
            ReplyHandle::Direct(peer) => ReplyHandle::Direct(peer.clone()),
            ReplyHandle::Path(path) => ReplyHandle::Path(copy_peers(path)),
        }
    }
}

/// Why no reply went out.
#[derive(Debug, Clone, Copy, PartialEq, Eq, Structural)]
pub enum ReplyError {
    /// No peer that the reply could go to has a route.
    NoRoute,
    /// The reply could not be signed.
    Unsigned(SignError),
}

/// What is to be done after an envelope has been dispatched.
#[derive(Debug, PartialEq, Eq)]
pub enum Action {
    /// Send the envelope on the route.
    Send { route: Route, envelope: FullMessage },
    /// Create a peer connection with `peer` and know it as `conn`. What the
    /// connection has to say later (an offer when negotiation is needed, a
    /// candidate when one is found) goes out through `reply`.
    CreateConnection { conn: u64, peer: PeerId, reply: ReplyHandle },
    /// Set the offer as the remote description of `conn`, create an answer,
    /// set it as the local description, and send it through `reply`.
    AcceptOffer { conn: u64, offer: SessionDescription, reply: ReplyHandle },
    /// Set the answer as the remote description of `conn`.
    AcceptAnswer { conn: u64, answer: SessionDescription },
    /// Add the candidate as a remote ICE candidate of `conn`.
    AddIceCandidate { conn: u64, candidate: IceCandidate },
    /// Record the endpoints at which `origin` can be dialled.
    KnownAddresses { origin: PeerId, addresses: Vec<String> },
    /// Record the neighbours of `origin`.
    KnownPeers { origin: PeerId, peers: Vec<PeerId> },
    /// Record the failure that `origin` reports.
    Report { origin: PeerId, msg: String, data: Vec<(String, String)> },
    /// Record that a reply found no way out.
    ReplyFailed { error: ReplyError },
}

/// The value of an [`Action`].
pub enum ActionView {
    Send { route: Route, envelope: FullMessageView },
    CreateConnection { conn: u64, peer: Seq<u8>, reply: ReplyView },
    AcceptOffer { conn: u64, offer: SessionDescriptionView, reply: ReplyView },
    AcceptAnswer { conn: u64, answer: SessionDescriptionView },
    AddIceCandidate { conn: u64, candidate: IceCandidateView },
    KnownAddresses { origin: Seq<u8>, addresses: Seq<Seq<char>> },
    KnownPeers { origin: Seq<u8>, peers: Seq<Seq<u8>> },
    Report { origin: Seq<u8>, msg: Seq<char>, data: Seq<(Seq<char>, Seq<char>)> },
    ReplyFailed { error: ReplyError },
}

impl DeepView for Action {
    type V = ActionView;

    open spec fn deep_view(&self) -> ActionView {
        match self {
            Action::Send { route, envelope } => ActionView::Send {
                route: *route,
                envelope: envelope@,
            },
            Action::CreateConnection { conn, peer, reply } => ActionView::CreateConnection {
                conn: *conn,
                peer: peer@,
                reply: reply@,
            },
            Action::AcceptOffer { conn, offer, reply } => ActionView::AcceptOffer {
                conn: *conn,
                offer: offer@,
                reply: reply@,
            },
            Action::AcceptAnswer { conn, answer } => ActionView::AcceptAnswer {
                conn: *conn,
                answer: answer@,
            },
            Action::AddIceCandidate { conn, candidate } => ActionView::AddIceCandidate {
                conn: *conn,
                candidate: candidate@,
            },
            Action::KnownAddresses { origin, addresses } => ActionView::KnownAddresses {
                origin: origin@,
                addresses: addresses.deep_view(),
            },
            Action::KnownPeers { origin, peers } => ActionView::KnownPeers {
                origin: origin@,
                peers: peers.deep_view(),
            },
            Action::Report { origin, msg, data } => ActionView::Report {
                origin: origin@,
                msg: msg@,
                data: data.deep_view(),
            },
            Action::ReplyFailed { error } => ActionView::ReplyFailed { error: *error },
        }
    }
}

impl View for Action {
    type V = ActionView;

    open spec fn view(&self) -> ActionView {
        self.deep_view()
    }
}

impl Clone for Action {
    fn clone(&self) -> (r: Self)
        ensures
            r@ == self@,
    {
        match self {
            Action::Send { route, envelope } => Action::Send {
                route: *route,
                envelope: envelope.clone(),
            },
            Action::CreateConnection { conn, peer, reply } => Action::CreateConnection {
                conn: *conn,
                peer: peer.clone(),
                reply: reply.clone(),
            },
            Action::AcceptOffer { conn, offer, reply } => Action::AcceptOffer {
                conn: *conn,
                offer: offer.clone(),
                reply: reply.clone(),
            },
            Action::AcceptAnswer { conn, answer } => Action::AcceptAnswer {
                conn: *conn,
                answer: answer.clone(),
            },
            Action::AddIceCandidate { conn, candidate } => Action::AddIceCandidate {
                conn: *conn,
                candidate: candidate.clone(),
            },
            Action::KnownAddresses { origin, addresses } => Action::KnownAddresses {
                origin: origin.clone(),
                addresses: copy_texts(addresses),
            },
            Action::KnownPeers { origin, peers } => Action::KnownPeers {
                origin: origin.clone(),
                peers: copy_peers(peers),
            },
            Action::Report { origin, msg, data } => Action::Report {
                origin: origin.clone(),
                msg: msg.clone(),
                data: copy_pairs(data),
            },
            Action::ReplyFailed { error } => Action::ReplyFailed { error: *error },
        }
    }
}

/// The peer to pass an envelope on to, looking only at the first `n` peers
/// of the path, from the last of them to the first: the scan ends without a
/// peer where it meets this node's own id, and with the first peer that has
/// a route otherwise.
pub open spec fn hop_below(
    path: Seq<Seq<u8>>,
    own: Seq<u8>,
    routes: Seq<(Seq<u8>, Route)>,
    n: int,
) -> Option<int>
    decreases n,
{
    if n <= 0 || n > path.len() {
        None
    } else if path[n - 1] == own {
        None
    } else if lookup(routes, path[n - 1]) is Some {
        Some(n - 1)
    } else {
        hop_below(path, own, routes, n - 1)
    }
}

/// The position in the path of the peer to pass an envelope on to.
pub open spec fn next_hop(path: Seq<Seq<u8>>, own: Seq<u8>, routes: Seq<(Seq<u8>, Route)>) -> Option<
    int,
> {
    hop_below(path, own, routes, path.len() as int)
}

/// Whether the path ends at this node, so that what it carries is for this
/// node.
pub open spec fn ends_here(path: Seq<Seq<u8>>, own: Seq<u8>) -> bool {
    path.len() > 0 && path.last() == own
}

/// The way back along a path: the path reversed, then the peer that the
/// envelope came from.
pub open spec fn way_back(path: Seq<Seq<u8>>, origin: Seq<u8>) -> Seq<Seq<u8>> {
    path.reverse().push(origin)
}

/// Source-route forwarding, among the first `n` peers of a path: the peer
/// that an envelope is passed on to stands in the path, has a route, is not
/// this node, and stands after every occurrence of this node; and every peer
/// after it is without a route.
pub proof fn forwarding_law(
    path: Seq<Seq<u8>>,
    own: Seq<u8>,
    routes: Seq<(Seq<u8>, Route)>,
    n: int,
)
    requires
        0 <= n <= path.len(),
    ensures
        match hop_below(path, own, routes, n) {
            Some(i) => {
                &&& 0 <= i < n
                &&& path[i] != own
                &&& lookup(routes, path[i]) is Some
                &&& forall|j: int| i <= j < n ==> #[trigger] path[j] != own
                &&& forall|j: int| i < j < n ==> lookup(routes, #[trigger] path[j]) is None
            },
            None => forall|i: int|
                0 <= i < n && lookup(routes, #[trigger] path[i]) is Some ==> exists|j: int|
                    i <= j < n && path[j] == own,
        },
    decreases n,
{
    if n > 0 && path[n - 1] != own && lookup(routes, path[n - 1]) is None {
        forwarding_law(path, own, routes, n - 1);
        if hop_below(path, own, routes, n) is None {
            assert forall|i: int|
                0 <= i < n && lookup(routes, #[trigger] path[i]) is Some implies exists|j: int|
                i <= j < n && path[j] == own by {
                let j = choose|j: int| i <= j < n - 1 && path[j] == own;
                assert(i <= j < n && path[j] == own);
            }
        }
    } else if n > 0 && path[n - 1] == own {
        assert forall|i: int|
            0 <= i < n && lookup(routes, #[trigger] path[i]) is Some implies exists|j: int|
            i <= j < n && path[j] == own by {
            assert(i <= n - 1 < n && path[n - 1] == own);
        }
    }
}

/// What a node knows.
pub struct Node {
    identity: Identity,
    addresses: Vec<String>,
    routes: RoutingTable,
    connections: ConnectionTable,
    next_conn: u64,
    open: Ghost<Set<u64>>,
}

/// The value of a [`Node`].
pub struct NodeView {
    /// The id of this node.
    pub id: Seq<u8>,
    /// The secret scalar of this node.
    pub secret: Seq<u8>,
    /// The endpoints that this node advertises.
    pub addresses: Seq<Seq<char>>,
    /// The routing table.
    pub routes: Seq<(Seq<u8>, Route)>,
    /// The connection table.
    pub connections: Seq<(Seq<u8>, u64)>,
    /// The handle that the next peer connection gets.
    pub next_conn: u64,
    /// The transports that have opened and not closed.
    pub open: Set<u64>,
}

impl View for Node {
    type V = NodeView;

    closed spec fn view(&self) -> NodeView {
        NodeView {
            id: self.identity.id(),
            secret: self.identity.secret(),
            addresses: self.addresses.deep_view(),
            routes: self.routes@,
            connections: self.connections@,
            next_conn: self.next_conn,
            open: self.open@,
        }
    }
}

impl NodeView {
    /// The invariant of a node: its id belongs to its secret; neither table
    /// holds a peer twice; every route in the routing table uses a transport
    /// that is open; and every peer connection has a handle of its own, below
    /// the next one.
    pub open spec fn wf(self) -> bool {
        &&& crate::identity::peer_of_secret(self.secret) == Some(self.id)
        &&& peer_wf(self.id)
        &&& distinct(self.routes)
        &&& distinct(self.connections)
        &&& forall|i: int|
            0 <= i < self.routes.len() ==> self.open.contains(
                (#[trigger] self.routes[i]).1.transport_of(),
            )
        &&& forall|i: int|
            0 <= i < self.connections.len() ==> (#[trigger] self.connections[i]).1 < self.next_conn
    }
}

impl Node {
    /// The invariant of a node holds of every node that the program holds.
    #[verifier::type_invariant]
    pub open spec fn sound(self) -> bool {
        self@.wf()
    }

    /// The invariant of a node: see [`NodeView::wf`].
    pub open spec fn wf(&self) -> bool {
        self@.wf()
    }
}

/// The node after a route to `peer` has opened.
pub open spec fn opened(node: NodeView, peer: Seq<u8>, route: Route) -> NodeView {
    NodeView {
        routes: inserted(node.routes, peer, route),
        open: node.open.insert(route.transport_of()),
        ..node
    }
}

/// The node after a transport has closed.
pub open spec fn closed(node: NodeView, transport: u64) -> NodeView {
    NodeView {
        routes: without_transport(node.routes, transport),
        open: node.open.remove(transport),
        ..node
    }
}

/// The node after the peer connection `conn` with `peer` has been torn
/// down.
pub open spec fn torn_down(node: NodeView, peer: Seq<u8>, conn: u64) -> NodeView {
    if lookup(node.connections, peer) == Some(conn) {
        NodeView { connections: removed(node.connections, peer), ..node }
    } else {
        node
    }
}

/// The action that sends a message on a route: the message signed by this
/// node, or the report that it could not be signed.
pub open spec fn sent(node: NodeView, route: Route, m: MessageView) -> ActionView {
    match sealed(node.secret, node.id, m) {
        Ok(envelope) => ActionView::Send { route, envelope },
        Err(e) => ActionView::ReplyFailed { error: ReplyError::Unsigned(e) },
    }
}

/// The action that a reply becomes. A direct reply goes on the route of its
/// peer. A reply along a path goes to the next hop of the path, wrapped as a
/// source route whose path is what is left from that hop on.
pub open spec fn reply_action(node: NodeView, handle: ReplyView, message: RoutableView) -> ActionView {
    match handle {
        ReplyView::Direct(peer) => match lookup(node.routes, peer) {
            Some(route) => sent(node, route, MessageView::Routable(message)),
            None => ActionView::ReplyFailed { error: ReplyError::NoRoute },
        },
        ReplyView::Path(path) => match next_hop(path, node.id, node.routes) {
            Some(i) => match lookup(node.routes, path[i]) {
                Some(route) => sent(
                    node,
                    route,
                    MessageView::UnRoutable(
                        UnRoutableView::SourceRoute { path: path.skip(i), content: message },
                    ),
                ),
                None => ActionView::ReplyFailed { error: ReplyError::NoRoute },
            },
            None => ActionView::ReplyFailed { error: ReplyError::NoRoute },
        },
    }
}

/// What a session description asks of the peer connection `conn`: an offer
/// is accepted and answered, an answer is accepted, any other kind is passed
/// over.
pub open spec fn description_actions(
    conn: u64,
    handle: ReplyView,
    sdp: Option<SessionDescriptionView>,
) -> Seq<ActionView> {
    match sdp {
        Some(d) => if d.sdp_type == SdpType::Offer {
            seq![ActionView::AcceptOffer { conn, offer: d, reply: handle }]
        } else if d.sdp_type == SdpType::Answer {
            seq![ActionView::AcceptAnswer { conn, answer: d }]
        } else {
            Seq::empty()
        },
        None => Seq::empty(),
    }
}

/// What a candidate asks of the peer connection `conn`.
pub open spec fn candidate_actions(conn: u64, ice: Option<IceCandidateView>) -> Seq<ActionView> {
    match ice {
        Some(c) => seq![ActionView::AddIceCandidate { conn, candidate: c }],
        None => Seq::empty(),
    }
}

/// What a `Connect` from `origin` does. The peer connection with `origin` is
/// the one in the connection table; where there is none, one is created
/// first. Where no handle is left for a new one, nothing is done.
pub open spec fn connect_step(
    node: NodeView,
    origin: Seq<u8>,
    handle: ReplyView,
    sdp: Option<SessionDescriptionView>,
    ice: Option<IceCandidateView>,
) -> (NodeView, Seq<ActionView>) {
    match lookup(node.connections, origin) {
        Some(conn) => (
            node,
            description_actions(conn, handle, sdp) + candidate_actions(conn, ice),
        ),
        None => if node.next_conn == u64::MAX {
            (node, Seq::empty())
        } else {
            let conn = node.next_conn;
            (
                NodeView {
                    connections: inserted(node.connections, origin, conn),
                    next_conn: (conn + 1) as u64,
                    ..node
                },
                seq![ActionView::CreateConnection { conn, peer: origin, reply: handle }]
                    + description_actions(conn, handle, sdp) + candidate_actions(conn, ice),
            )
        },
    }
}

/// The replies to a query: the addresses of this node where they are asked
/// for, then the peers of its routing table where they are asked for.
pub open spec fn query_replies(
    node: NodeView,
    handle: ReplyView,
    addresses: bool,
    routing_table: bool,
) -> Seq<ActionView> {
    (if addresses {
        seq![reply_action(node, handle, RoutableView::Addresses { addresses: node.addresses })]
    } else {
        Seq::empty()
    }) + (if routing_table {
        seq![reply_action(node, handle, RoutableView::RoutingTable { peers: keys(node.routes) })]
    } else {
        Seq::empty()
    })
}

/// What a routable message from `origin` does, with replies going through
/// `handle`.
pub open spec fn routable_step(
    node: NodeView,
    origin: Seq<u8>,
    handle: ReplyView,
    m: RoutableView,
) -> (NodeView, Seq<ActionView>) {
    match m {
        RoutableView::Connect { sdp, ice } => connect_step(node, origin, handle, sdp, ice),
        RoutableView::Addresses { addresses } => (
            node,
            seq![ActionView::KnownAddresses { origin, addresses }],
        ),
        RoutableView::RoutingTable { peers } => (
            node,
            seq![ActionView::KnownPeers { origin, peers }],
        ),
        RoutableView::Query { addresses, routing_table } => (
            node,
            query_replies(node, handle, addresses, routing_table),
        ),
        RoutableView::Error { msg, data } => (node, seq![ActionView::Report { origin, msg, data }]),
        RoutableView::UnknownMessage => (node, Seq::empty()),
    }
}

/// The message that reports a routing failure.
pub open spec fn routing_failed() -> RoutableView {
    RoutableView::Error { msg: "Routing failed"@, data: Seq::empty() }
}

/// What a source route that does not end here does: the envelope goes to the
/// next hop as it arrived. Where there is no next hop, a routing failure goes
/// back along the path, unless what was carried is itself an error.
pub open spec fn forward_actions(
    node: NodeView,
    envelope: FullMessageView,
    origin: Seq<u8>,
    path: Seq<Seq<u8>>,
    content: RoutableView,
) -> Seq<ActionView> {
    match next_hop(path, node.id, node.routes) {
        Some(i) => match lookup(node.routes, path[i]) {
            Some(route) => seq![ActionView::Send { route, envelope }],
            None => Seq::empty(),
        },
        None => if content is Error {
            Seq::empty()
        } else {
            seq![reply_action(node, ReplyView::Path(way_back(path, origin)), routing_failed())]
        },
    }
}

/// What a verified message does.
pub open spec fn verified_step(
    node: NodeView,
    envelope: FullMessageView,
    origin: Seq<u8>,
    message: MessageView,
) -> (NodeView, Seq<ActionView>) {
    match message {
        MessageView::Routable(m) => routable_step(node, origin, ReplyView::Direct(origin), m),
        MessageView::UnRoutable(UnRoutableView::AppData { content }) => (node, Seq::empty()),
        MessageView::UnRoutable(UnRoutableView::SourceRoute { path, content }) => if ends_here(
            path,
            node.id,
        ) {
            routable_step(node, origin, ReplyView::Path(way_back(path, origin)), content)
        } else {
            (node, forward_actions(node, envelope, origin, path, content))
        },
    }
}

/// What an envelope does: nothing where it does not verify, and what its
/// message does where it does.
pub open spec fn dispatch_step(node: NodeView, envelope: FullMessageView) -> (
    NodeView,
    Seq<ActionView>,
) {
    match verified(envelope) {
        Ok(v) => verified_step(node, envelope, v.origin, v.message),
        Err(_) => (node, Seq::empty()),
    }
}

/// Only what is signed acts: an envelope that verifies carries a signature
/// of its exact body under the key of its origin, and its message is the one
/// that its body holds.
pub proof fn verified_is_signed(envelope: FullMessageView)
    requires
        verified(envelope) is Ok,
    ensures
        signature_valid(envelope.origin, envelope.body, envelope.signature),
        verified(envelope)->Ok_0.origin == envelope.origin,
        parsed_json(envelope.body) matches Some(doc) && decode_message(doc) == Some(
            verified(envelope)->Ok_0.message,
        ),
{
}

/// An envelope that does not verify changes nothing and asks for nothing.
pub proof fn unverified_is_ignored(node: NodeView, envelope: FullMessageView)
    requires
        verified(envelope) is Err,
    ensures
        dispatch_step(node, envelope) == (node, Seq::<ActionView>::empty()),
{
}

/// Every route uses an open transport, also after a route has opened.
pub proof fn opened_keeps_invariant(node: NodeView, peer: Seq<u8>, route: Route)
    requires
        node.wf(),
    ensures
        opened(node, peer, route).wf(),
        lookup(opened(node, peer, route).routes, peer) == Some(route),
{
    let next = opened(node, peer, route);
    last_writer_wins(node.routes, peer, route, peer);
    lemma_position_from(node.routes, peer, 0);
    assert forall|i: int| 0 <= i < next.routes.len() implies next.open.contains(
        (#[trigger] next.routes[i]).1.transport_of(),
    ) by {
        if next.routes[i] != (peer, route) {
            assert(next.routes[i] == node.routes[i]);
        }
    }
}

/// Every route uses an open transport, also after a transport has closed:
/// no route that used it is left.
pub proof fn closed_keeps_invariant(node: NodeView, transport: u64)
    requires
        node.wf(),
    ensures
        closed(node, transport).wf(),
        !closed(node, transport).open.contains(transport),
        forall|i: int|
            0 <= i < closed(node, transport).routes.len() ==> (#[trigger] closed(
                node,
                transport,
            ).routes[i]).1.transport_of() != transport,
{
    let next = closed(node, transport);
    lemma_without_transport(node.routes, transport);
    assert forall|i: int| 0 <= i < next.routes.len() implies next.open.contains(
        (#[trigger] next.routes[i]).1.transport_of(),
    ) && next.routes[i].1.transport_of() != transport by {
        assert(node.routes.contains(without_transport(node.routes, transport)[i]));
    }
}

/// The invariant holds after a peer connection has been torn down.
pub proof fn torn_down_keeps_invariant(node: NodeView, peer: Seq<u8>, conn: u64)
    requires
        node.wf(),
    ensures
        torn_down(node, peer, conn).wf(),
{
    let next = torn_down(node, peer, conn);
    crate::routing::lemma_removed(node.connections, peer, peer);
    lemma_position_from(node.connections, peer, 0);
    if lookup(node.connections, peer) == Some(conn) {
        let i = position(node.connections, peer)->0;
        assert forall|k: int| 0 <= k < next.connections.len() implies (
        #[trigger] next.connections[k]).1 < next.next_conn by {
            let k2 = if k < i { k } else { k + 1 };
            assert(next.connections[k] == node.connections[k2]);
        }
    }
}

/// One peer connection per peer: a `Connect` creates a peer connection only
/// for a peer that has none, at most one, under a handle that no other peer
/// connection has; the connection table holds it afterwards, and still holds
/// no peer twice.
pub proof fn one_connection_per_peer(
    node: NodeView,
    origin: Seq<u8>,
    handle: ReplyView,
    sdp: Option<SessionDescriptionView>,
    ice: Option<IceCandidateView>,
)
    requires
        node.wf(),
    ensures
        connect_step(node, origin, handle, sdp, ice).0.wf(),
        lookup(node.connections, origin) is Some ==> connect_step(node, origin, handle, sdp, ice).0
            == node,
        forall|k: int|
            0 <= k < connect_step(node, origin, handle, sdp, ice).1.len() && (
            #[trigger] connect_step(node, origin, handle, sdp, ice).1[k]) is CreateConnection ==> {
                let next = connect_step(node, origin, handle, sdp, ice).0;
                let action = connect_step(node, origin, handle, sdp, ice).1[k];
                &&& k == 0
                &&& lookup(node.connections, origin) is None
                &&& action->CreateConnection_peer == origin
                &&& lookup(next.connections, origin) == Some(action->CreateConnection_conn)
                &&& forall|j: int|
                    0 <= j < node.connections.len() ==> (#[trigger] node.connections[j]).1
                        != action->CreateConnection_conn
            },
{
    let (next, actions) = connect_step(node, origin, handle, sdp, ice);
    lemma_position_from(node.connections, origin, 0);
    match lookup(node.connections, origin) {
        Some(conn) => {
            assert forall|k: int| 0 <= k < actions.len() implies !(
            #[trigger] actions[k] is CreateConnection) by {}
        },
        None => {
            if node.next_conn != u64::MAX {
                let conn = node.next_conn;
                last_writer_wins(node.connections, origin, conn, origin);
                assert forall|k: int| 0 <= k < next.connections.len() implies (
                #[trigger] next.connections[k]).1 < next.next_conn by {
                    if k < node.connections.len() {
                        assert(next.connections[k] == node.connections[k]);
                    }
                }
                let tail = description_actions(conn, handle, sdp) + candidate_actions(conn, ice);
                assert forall|k: int| 0 <= k < actions.len() && (
                #[trigger] actions[k]) is CreateConnection implies k == 0 by {
                    if k > 0 {
                        assert(actions[k] == tail[k - 1]);
                    }
                }
            }
        },
    }
}

/// Dispatching an envelope keeps the invariant, and leaves the routing table
/// and the open transports as they are.
pub proof fn dispatch_keeps_invariant(node: NodeView, envelope: FullMessageView)
    requires
        node.wf(),
    ensures
        dispatch_step(node, envelope).0.wf(),
        dispatch_step(node, envelope).0.routes == node.routes,
        dispatch_step(node, envelope).0.open == node.open,
{
    if let Ok(v) = verified(envelope) {
        match v.message {
            MessageView::Routable(RoutableView::Connect { sdp, ice }) => {
                one_connection_per_peer(node, v.origin, ReplyView::Direct(v.origin), sdp, ice);
            },
            MessageView::UnRoutable(
                UnRoutableView::SourceRoute { path, content: RoutableView::Connect { sdp, ice } },
            ) => {
                one_connection_per_peer(
                    node,
                    v.origin,
                    ReplyView::Path(way_back(path, v.origin)),
                    sdp,
                    ice,
                );
            },
            _ => {},
        }
    }
}

/// A source route that ends at this node is handled here; one that does not
/// leaves the node as it is and, where a next hop is found, sends the
/// envelope as it arrived to a peer of the path that is not this node and
/// stands after every occurrence of this node in the path.
pub proof fn source_route_law(
    node: NodeView,
    envelope: FullMessageView,
    origin: Seq<u8>,
    path: Seq<Seq<u8>>,
    content: RoutableView,
)
    ensures
        ends_here(path, node.id) ==> verified_step(
            node,
            envelope,
            origin,
            MessageView::UnRoutable(UnRoutableView::SourceRoute { path, content }),
        ) == routable_step(node, origin, ReplyView::Path(way_back(path, origin)), content),
        !ends_here(path, node.id) ==> verified_step(
            node,
            envelope,
            origin,
            MessageView::UnRoutable(UnRoutableView::SourceRoute { path, content }),
        ) == (node, forward_actions(node, envelope, origin, path, content)),
        !ends_here(path, node.id) ==> match next_hop(path, node.id, node.routes) {
            Some(i) => {
                &&& 0 <= i < path.len()
                &&& path[i] != node.id
                &&& forall|j: int| i <= j < path.len() ==> #[trigger] path[j] != node.id
                &&& lookup(node.routes, path[i]) matches Some(route) && forward_actions(
                    node,
                    envelope,
                    origin,
                    path,
                    content,
                ) == seq![ActionView::Send { route, envelope }]
            },
            None => content is Error ==> forward_actions(node, envelope, origin, path, content)
                == Seq::<ActionView>::empty(),
        },
{
    forwarding_law(path, node.id, node.routes, path.len() as int);
}

/// What taking the next envelope out of the inbox does: the envelope that
/// has waited longest is dispatched, and the others wait on in their order.
pub open spec fn next_step(node: NodeView, inbox: Seq<InboundView>) -> (
    NodeView,
    Seq<InboundView>,
    Option<Seq<ActionView>>,
) {
    if inbox.len() == 0 {
        (node, inbox, None)
    } else {
        let (next, actions) = dispatch_step(node, inbox[0].envelope);
        (next, inbox.skip(1), Some(actions))
    }
}

/// What the outcome of a verification does.
pub open spec fn outcome_step(
    node: NodeView,
    envelope: FullMessageView,
    outcome: Result<VerifiedView, VerifyError>,
) -> (NodeView, Seq<ActionView>) {
    match outcome {
        Ok(v) => verified_step(node, envelope, v.origin, v.message),
        Err(_) => (node, Seq::empty()),
    }
}

/// The copy of a path from position `from` on.
fn rest_of_path(path: &Vec<PeerId>, from: usize) -> (r: Vec<PeerId>)
    requires
        from <= path@.len(),
    ensures
        r.deep_view() == path.deep_view().skip(from as int),
{
    let mut out: Vec<PeerId> = Vec::new();
    let mut i: usize = from;
    while i < path.len()
        invariant
            from <= i <= path.len(),
            out@.len() == i - from,
            forall|k: int| 0 <= k < i - from ==> (#[trigger] out@[k])@ == path@[k + from]@,
        decreases path.len() - i,
    {
        out.push(path[i].clone());
        i += 1;
    }
    assert(out.deep_view() =~= path.deep_view().skip(from as int));
    out
}

/// The way back along a path: the path reversed, then `origin`.
fn reversed_with(path: &Vec<PeerId>, origin: &PeerId) -> (r: Vec<PeerId>)
    ensures
        r.deep_view() == way_back(path.deep_view(), origin@),
{
    let mut out: Vec<PeerId> = Vec::new();
    let mut n: usize = path.len();
    while n > 0
        invariant
            n <= path.len(),
            out@.len() == path.len() - n,
            forall|k: int|
                0 <= k < path.len() - n ==> (#[trigger] out@[k])@ == path@[path.len() - 1 - k]@,
        decreases n,
    {
        n -= 1;
        out.push(path[n].clone());
    }
    out.push(origin.clone());
    assert(out.deep_view() =~= way_back(path.deep_view(), origin@));
    out
}

impl Node {
    /// A node with this identity, which advertises these endpoints; it has no
    /// route and no peer connection yet.
    pub fn new(identity: Identity, addresses: Vec<String>) -> (r: Node)
        ensures
            r@ == (NodeView {
                id: identity.id(),
                secret: identity.secret(),
                addresses: addresses.deep_view(),
                routes: Seq::empty(),
                connections: Seq::empty(),
                next_conn: 0,
                open: Set::empty(),
            }),
            r.wf(),
    {
        proof {
            use_type_invariant(&identity);
        }
        Node {
            identity,
            addresses,
            routes: RoutingTable::new(),
            connections: ConnectionTable::new(),
            next_conn: 0,
            open: Ghost(Set::empty()),
        }
    }

    /// The id of this node.
    pub fn peer_id(&self) -> (r: &PeerId)
        ensures
            r@ == self@.id,
            self.wf(),
    {
        proof {
            use_type_invariant(self);
        }
        self.identity.peer_id()
    }

    /// The route to `peer`, if it has one.
    pub fn route_to(&self, peer: &PeerId) -> (r: Option<Route>)
        ensures
            r == lookup(self@.routes, peer@),
            r matches Some(route) ==> self@.open.contains(route.transport_of()),
    {
        proof {
            use_type_invariant(self);
            lemma_position_from(self@.routes, peer@, 0);
        }
        self.routes.get(peer)
    }

    /// The handle of the peer connection with `peer`, if there is one.
    pub fn connection_with(&self, peer: &PeerId) -> (r: Option<u64>)
        ensures
            r == lookup(self@.connections, peer@),
    {
        self.connections.get(peer)
    }

    /// The peers that have a route, in the order in which they came in.
    pub fn peers(&self) -> (r: Vec<PeerId>)
        ensures
            r.deep_view() == keys(self@.routes),
    {
        self.routes.peers()
    }

    /// A route to `peer` has opened: it takes the place of the route that
    /// `peer` had, if it had one.
    pub fn route_opened(&mut self, peer: PeerId, route: Route)
        ensures
            final(self)@ == opened(old(self)@, peer@, route),
            final(self).wf(),
    {
        proof {
            use_type_invariant(&*self);
            lemma_position_from(self@.routes, peer@, 0);
        }
        let ghost before = self@;
        self.open = Ghost(self.open@.insert(route.transport_of()));
        // The table is taken out while it changes: the invariant of the node is
        // asked for again when the table is put back.
        let mut routes = RoutingTable::new();
        core::mem::swap(&mut routes, &mut self.routes);
        routes.insert(peer, route);
        proof {
            let after = routes@;
            assert forall|i: int| 0 <= i < after.len() implies self@.open.contains(
                (#[trigger] after[i]).1.transport_of(),
            ) by {
                if after[i] != (peer@, route) {
                    assert(after[i] == before.routes[i]);
                }
            }
        }
        self.routes = routes;
    }

    /// A transport has closed: every route that uses it leaves the routing
    /// table.
    pub fn transport_closed(&mut self, transport: u64)
        ensures
            final(self)@ == closed(old(self)@, transport),
            final(self).wf(),
    {
        proof {
            use_type_invariant(&*self);
            lemma_without_transport(self@.routes, transport);
        }
        let ghost before = self@;
        let mut routes = RoutingTable::new();
        core::mem::swap(&mut routes, &mut self.routes);
        routes.remove_transport(transport);
        proof {
            let after = routes@;
            assert forall|i: int| 0 <= i < after.len() implies before.open.remove(
                transport,
            ).contains((#[trigger] after[i]).1.transport_of()) by {
                assert(before.routes.contains(without_transport(before.routes, transport)[i]));
            }
        }
        self.open = Ghost(self.open@.remove(transport));
        self.routes = routes;
    }

    /// The peer connection `conn` with `peer` has been torn down: it leaves
    /// the connection table, unless the table holds a later one.
    pub fn connection_closed(&mut self, peer: &PeerId, conn: u64)
        ensures
            final(self)@ == torn_down(old(self)@, peer@, conn),
            final(self).wf(),
    {
        proof {
            use_type_invariant(&*self);
            lemma_position_from(self@.connections, peer@, 0);
        }
        let ghost before = self@;
        match self.connections.get(peer) {
            Some(found) => {
                if found == conn {
                    let mut connections = ConnectionTable::new();
                    core::mem::swap(&mut connections, &mut self.connections);
                    connections.remove(peer);
                    proof {
                        let i = position(before.connections, peer@)->0;
                        let after = connections@;
                        assert forall|k: int| 0 <= k < after.len() implies (#[trigger] after[k]).1
                            < before.next_conn by {
                            let k2 = if k < i { k } else { k + 1 };
                            assert(after[k] == before.connections[k2]);
                        }
                    }
                    self.connections = connections;
                }
            },
            None => {},
        }
    }

    /// The greeting: the signed message that tells a peer that has just
    /// connected who this node is and where it can be dialled.
    pub fn greeting(&self) -> (r: Result<FullMessage, SignError>)
        ensures
            crate::envelope::envelope_view(r) == sealed(
                self@.secret,
                self@.id,
                MessageView::Routable(RoutableView::Addresses { addresses: self@.addresses }),
            ),
    {
        let message = Message::Routable(
            RoutableMessage::Addresses { addresses: copy_texts(&self.addresses) },
        );
        self.identity.sign(&message)
    }

    /// The position in `path` of the peer to pass an envelope on to, with
    /// its route.
    pub fn next_hop(&self, path: &Vec<PeerId>) -> (r: Option<(usize, Route)>)
        ensures
            r matches Some(hop) ==> hop.0 < path@.len() && next_hop(
                path.deep_view(),
                self@.id,
                self@.routes,
            ) == Some(hop.0 as int) && lookup(self@.routes, path.deep_view()[hop.0 as int]) == Some(
                hop.1,
            ),
            r is None ==> next_hop(path.deep_view(), self@.id, self@.routes) is None,
    {
        let mut n: usize = path.len();
        while n > 0
            invariant
                n <= path.len(),
                next_hop(path.deep_view(), self@.id, self@.routes) == hop_below(
                    path.deep_view(),
                    self@.id,
                    self@.routes,
                    n as int,
                ),
            decreases n,
        {
            let peer = &path[n - 1];
            assert(path.deep_view()[n - 1] == peer@);
            if peer.same_as(self.identity.peer_id()) {
                return None;
            }
            match self.routes.get(peer) {
                Some(route) => {
                    return Some((n - 1, route));
                },
                None => {},
            }
            n -= 1;
        }
        None
    }

    /// Signs a message and asks for it to be sent on a route.
    pub fn send(&self, route: Route, message: Message) -> (r: Action)
        ensures
            r@ == sent(self@, route, message@),
    {
        match self.identity.sign(&message) {
            Ok(envelope) => Action::Send { route, envelope },
            Err(e) => Action::ReplyFailed { error: ReplyError::Unsigned(e) },
        }
    }

    /// The action that a reply becomes: the envelope to send and its route,
    /// or the report that the reply found no way out.
    pub fn reply(&self, handle: &ReplyHandle, message: RoutableMessage) -> (r: Action)
        ensures
            r@ == reply_action(self@, handle@, message@),
    {
        match handle {
            ReplyHandle::Direct(peer) => match self.routes.get(peer) {
                Some(route) => self.send(route, Message::Routable(message)),
                None => Action::ReplyFailed { error: ReplyError::NoRoute },
            },
            ReplyHandle::Path(path) => match self.next_hop(path) {
                Some(hop) => {
                    let rest = rest_of_path(path, hop.0);
                    self.send(
                        hop.1,
                        Message::UnRoutable(
                            UnRoutableMessage::SourceRoute { path: rest, content: message },
                        ),
                    )
                },
                None => Action::ReplyFailed { error: ReplyError::NoRoute },
            },
        }
    }
}

/// The message that carries a local description to the peer.
pub open spec fn description_message(description: SessionDescriptionView) -> RoutableView {
    RoutableView::Connect { sdp: Some(description), ice: None }
}

/// The message that carries a local candidate to the peer.
pub open spec fn candidate_message(candidate: IceCandidateView) -> RoutableView {
    RoutableView::Connect { sdp: None, ice: Some(candidate) }
}

impl Node {
    /// A peer connection has a local description for its peer: the offer
    /// that it made when negotiation was needed, or the answer that it made
    /// to an offer. The description goes out through the reply handle of the
    /// connection.
    pub fn description_ready(&self, reply: &ReplyHandle, description: SessionDescription) -> (r:
        Action)
        ensures
            r@ == reply_action(self@, reply@, description_message(description@)),
    {
        self.reply(reply, RoutableMessage::Connect { sdp: Some(description), ice: None })
    }

    /// A peer connection has found a local candidate, or has come to the end
    /// of its candidates (`None`). A candidate goes out through the reply
    /// handle of the connection; the end of the candidates is not told.
    pub fn candidate_found(&self, reply: &ReplyHandle, candidate: Option<IceCandidate>) -> (r:
        Option<Action>)
        ensures
            r.deep_view() == match candidate.deep_view() {
                Some(c) => Some(reply_action(self@, reply@, candidate_message(c))),
                None => None,
            },
    {
        match candidate {
            Some(c) => Some(self.reply(reply, RoutableMessage::Connect { sdp: None, ice: Some(c) })),
            None => None,
        }
    }

    /// The data channel with `peer` has opened: it takes the place of the
    /// route that `peer` had.
    pub fn channel_opened(&mut self, peer: PeerId, transport: u64)
        ensures
            final(self)@ == opened(old(self)@, peer@, Route::DC(transport)),
            final(self).wf(),
    {
        self.route_opened(peer, Route::DC(transport))
    }

    /// A message has arrived on a data channel: the envelope that it holds
    /// is for the inbox; a message that holds none is dropped.
    pub fn channel_message(text: &str) -> (r: Option<FullMessage>)
        ensures
            r.deep_view() == crate::envelope::envelope_of_text(text@),
    {
        FullMessage::from_text(text)
    }

    /// Acts on a `Connect` from `origin`: makes sure that there is a peer
    /// connection with `origin`, then hands it the description and the
    /// candidate that the message carries.
    pub fn connect(
        &mut self,
        origin: &PeerId,
        handle: &ReplyHandle,
        sdp: Option<SessionDescription>,
        ice: Option<IceCandidate>,
    ) -> (r: Vec<Action>)
        ensures
            (final(self)@, r.deep_view()) == connect_step(
                old(self)@,
                origin@,
                handle@,
                sdp.deep_view(),
                ice.deep_view(),
            ),
            final(self).wf(),
    {
        proof {
            use_type_invariant(&*self);
            lemma_position_from(self@.connections, origin@, 0);
        }
        let ghost before = self@;
        let mut actions: Vec<Action> = Vec::new();
        let conn = match self.connections.get(origin) {
            Some(conn) => conn,
            None => {
                if self.next_conn == u64::MAX {
                    assert(actions.deep_view() =~= Seq::<ActionView>::empty());
                    return actions;
                }
                let conn = self.next_conn;
                self.next_conn = conn + 1;
                let mut connections = ConnectionTable::new();
                core::mem::swap(&mut connections, &mut self.connections);
                connections.insert(origin.clone(), conn);
                proof {
                    let after = connections@;
                    assert forall|k: int| 0 <= k < after.len() implies (#[trigger] after[k]).1
                        < self.next_conn by {
                        if k < before.connections.len() {
                            assert(after[k] == before.connections[k]);
                        }
                    }
                }
                self.connections = connections;
                actions.push(
                    Action::CreateConnection { conn, peer: origin.clone(), reply: handle.clone() },
                );
                conn
            },
        };
        let ghost created = actions.deep_view();
        match sdp {
            Some(d) => {
                if d.sdp_type == SdpType::Offer {
                    actions.push(Action::AcceptOffer { conn, offer: d, reply: handle.clone() });
                } else if d.sdp_type == SdpType::Answer {
                    actions.push(Action::AcceptAnswer { conn, answer: d });
                }
            },
            None => {},
        }
        let ghost described = actions.deep_view();
        assert(described =~= created + description_actions(conn, handle@, sdp.deep_view()));
        match ice {
            Some(c) => {
                actions.push(Action::AddIceCandidate { conn, candidate: c });
            },
            None => {},
        }
        assert(actions.deep_view() =~= described + candidate_actions(conn, ice.deep_view()));
        assert(actions.deep_view() =~= connect_step(
            before,
            origin@,
            handle@,
            sdp.deep_view(),
            ice.deep_view(),
        ).1);
        actions
    }

    /// The replies to a query.
    pub fn answer_query(&self, handle: &ReplyHandle, addresses: bool, routing_table: bool) -> (r:
        Vec<Action>)
        ensures
            r.deep_view() == query_replies(self@, handle@, addresses, routing_table),
    {
        let mut actions: Vec<Action> = Vec::new();
        if addresses {
            let message = RoutableMessage::Addresses { addresses: copy_texts(&self.addresses) };
            actions.push(self.reply(handle, message));
        }
        if routing_table {
            let message = RoutableMessage::RoutingTable { peers: self.routes.peers() };
            actions.push(self.reply(handle, message));
        }
        assert(actions.deep_view() =~= query_replies(self@, handle@, addresses, routing_table));
        actions
    }

    /// Acts on a routable message from `origin`, with replies going through
    /// `handle`.
    pub fn handle_routable(&mut self, origin: PeerId, handle: ReplyHandle, m: RoutableMessage) -> (r:
        Vec<Action>)
        ensures
            (final(self)@, r.deep_view()) == routable_step(old(self)@, origin@, handle@, m@),
            final(self).wf(),
    {
        proof {
            use_type_invariant(&*self);
        }
        let mut actions: Vec<Action> = Vec::new();
        match m {
            RoutableMessage::Connect { sdp, ice } => {
                return self.connect(&origin, &handle, sdp, ice);
            },
            RoutableMessage::Addresses { addresses } => {
                actions.push(Action::KnownAddresses { origin, addresses });
            },
            RoutableMessage::RoutingTable { peers } => {
                actions.push(Action::KnownPeers { origin, peers });
            },
            RoutableMessage::Query { addresses, routing_table } => {
                return self.answer_query(&handle, addresses, routing_table);
            },
            RoutableMessage::Error { msg, data } => {
                actions.push(Action::Report { origin, msg, data });
            },
            RoutableMessage::UnknownMessage => {},
        }
        assert(actions.deep_view() =~= routable_step(self@, origin@, handle@, m@).1);
        actions
    }

    /// Acts on a source route that does not end at this node.
    pub fn forward(
        &self,
        envelope: FullMessage,
        origin: &PeerId,
        path: &Vec<PeerId>,
        content: &RoutableMessage,
    ) -> (r: Vec<Action>)
        ensures
            r.deep_view() == forward_actions(
                self@,
                envelope@,
                origin@,
                path.deep_view(),
                content@,
            ),
    {
        let mut actions: Vec<Action> = Vec::new();
        match self.next_hop(path) {
            Some(hop) => {
                actions.push(Action::Send { route: hop.1, envelope });
            },
            None => {
                let silent = match content {
                    RoutableMessage::Error { .. } => true,
                    _ => false,
                };
                if !silent {
                    let data: Vec<(String, String)> = Vec::new();
                    assert(data.deep_view() =~= Seq::<(Seq<char>, Seq<char>)>::empty());
                    let failure = RoutableMessage::Error {
                        msg: String::from_str("Routing failed"),
                        data,
                    };
                    let handle = ReplyHandle::Path(reversed_with(path, origin));
                    actions.push(self.reply(&handle, failure));
                }
            },
        }
        assert(actions.deep_view() =~= forward_actions(
            self@,
            envelope@,
            origin@,
            path.deep_view(),
            content@,
        ));
        actions
    }

    /// Whether `path` ends at this node.
    pub fn ends_here(&self, path: &Vec<PeerId>) -> (r: bool)
        ensures
            r == ends_here(path.deep_view(), self@.id),
    {
        if path.len() == 0 {
            false
        } else {
            assert(path.deep_view().last() == path@[path@.len() - 1]@);
            path[path.len() - 1].same_as(self.identity.peer_id())
        }
    }

    /// Acts on the outcome of verifying `envelope`: does nothing where the
    /// envelope did not verify, and what its message asks where it did.
    pub fn dispatch_outcome(
        &mut self,
        envelope: FullMessage,
        outcome: Result<VerifiedMessage, VerifyError>,
    ) -> (r: Vec<Action>)
        ensures
            (final(self)@, r.deep_view()) == outcome_step(
                old(self)@,
                envelope@,
                crate::envelope::outcome_view(outcome),
            ),
            final(self).wf(),
    {
        proof {
            use_type_invariant(&*self);
        }
        let verified = match outcome {
            Ok(verified) => verified,
            Err(_) => {
                let actions: Vec<Action> = Vec::new();
                assert(actions.deep_view() =~= Seq::<ActionView>::empty());
                return actions;
            },
        };
        let origin = verified.origin;
        match verified.message {
            Message::Routable(m) => {
                let handle = ReplyHandle::Direct(origin.clone());
                self.handle_routable(origin, handle, m)
            },
            Message::UnRoutable(UnRoutableMessage::AppData { content }) => {
                let actions: Vec<Action> = Vec::new();
                assert(actions.deep_view() =~= Seq::<ActionView>::empty());
                actions
            },
            Message::UnRoutable(UnRoutableMessage::SourceRoute { path, content }) => {
                if self.ends_here(&path) {
                    let handle = ReplyHandle::Path(reversed_with(&path, &origin));
                    self.handle_routable(origin, handle, content)
                } else {
                    self.forward(envelope, &origin, &path, &content)
                }
            },
        }
    }

    /// Dispatches an envelope: verifies it, and acts on its message. An
    /// envelope that does not verify changes nothing and asks for nothing.
    pub fn dispatch(&mut self, envelope: FullMessage) -> (r: Vec<Action>)
        ensures
            (final(self)@, r.deep_view()) == dispatch_step(old(self)@, envelope@),
            final(self).wf(),
    {
        let outcome = envelope.clone().verify();
        self.dispatch_outcome(envelope, outcome)
    }

    /// Takes the envelope that has waited longest out of the inbox and
    /// dispatches it. `None` where nothing waits.
    pub fn dispatch_next(&mut self, inbox: &mut Inbox) -> (r: Option<Vec<Action>>)
        ensures
            final(inbox).capacity() == old(inbox).capacity(),
            final(self).wf(),
            (final(self)@, final(inbox)@, r.deep_view()) == next_step(old(self)@, old(inbox)@),
    {
        proof {
            use_type_invariant(&*self);
        }
        match inbox.pop() {
            Some(item) => Some(self.dispatch(item.envelope)),
            None => None,
        }
    }
}

} // verus!
