use public_peer::dispatch::{Action, Node, ReplyError, ReplyHandle};
use public_peer::envelope::{SignError, VerifyError};
use public_peer::identity::{Identity, PeerId};
use public_peer::inbox::{Inbound, Inbox};
use public_peer::messages::{
    FullMessage, IceCandidate, Message, RoutableMessage, SdpType, SessionDescription,
    UnRoutableMessage,
};
use public_peer::routing::Route;

fn identity(fill: u8) -> Identity {
    let mut bytes = vec![0u8; 32];
    bytes[31] = fill;
    Identity::from_secret_bytes(bytes).expect("a small scalar is a secret key")
}

fn node(fill: u8) -> Node {
    Node::new(identity(fill), vec!["ws://localhost:3030".to_string()])
}

fn id(fill: u8) -> PeerId {
    identity(fill).peer_id().clone()
}

fn offer() -> SessionDescription {
    SessionDescription { sdp_type: SdpType::Offer, sdp: "v=0\r\n".to_string() }
}

fn answer() -> SessionDescription {
    SessionDescription { sdp_type: SdpType::Answer, sdp: "v=0\r\n".to_string() }
}

fn candidate() -> IceCandidate {
    IceCandidate {
        candidate: "candidate:1 1 udp 1 127.0.0.1 9 typ host".to_string(),
        sdp_mid: Some("0".to_string()),
        sdp_mline_index: Some(0),
        username_fragment: None,
    }
}

fn signed(by: u8, message: Message) -> FullMessage {
    identity(by).sign(&message).expect("the message can be signed")
}

fn sent(action: &Action) -> (Route, &FullMessage) {
    match action {
        Action::Send { route, envelope } => (*route, envelope),
        other => panic!("a send was expected, not {:?}", other),
    }
}

const N: u8 = 1;
const A: u8 = 2;
const B: u8 = 3;
const C: u8 = 4;

#[test]
fn greeting_is_signed_addresses() {
    let n = node(N);
    let greeting = n.greeting().expect("the greeting can be signed");
    assert_eq!(&greeting.origin, n.peer_id());
    assert_eq!(
        greeting.body,
        "{\"type\":\"addresses\",\"addresses\":[\"ws://localhost:3030\"]}"
    );
    let verified = greeting.verify().expect("the greeting verifies");
    assert_eq!(
        verified.message,
        Message::Routable(RoutableMessage::Addresses {
            addresses: vec!["ws://localhost:3030".to_string()]
        })
    );
}

#[test]
fn offer_creates_one_connection_and_asks_for_an_answer() {
    let mut n = node(N);
    n.route_opened(id(A), Route::WS(7));
    let connect = Message::Routable(RoutableMessage::Connect { sdp: Some(offer()), ice: None });
    let actions = n.dispatch(signed(A, connect.clone()));
    assert_eq!(
        actions,
        vec![
            Action::CreateConnection { conn: 0, peer: id(A), reply: ReplyHandle::Direct(id(A)) },
            Action::AcceptOffer { conn: 0, offer: offer(), reply: ReplyHandle::Direct(id(A)) },
        ]
    );
    assert_eq!(n.connection_with(&id(A)), Some(0));

    let again = n.dispatch(signed(A, connect));
    assert_eq!(
        again,
        vec![Action::AcceptOffer { conn: 0, offer: offer(), reply: ReplyHandle::Direct(id(A)) }]
    );
    assert_eq!(n.connection_with(&id(A)), Some(0));
}

#[test]
fn answer_goes_back_on_the_socket_and_the_channel_takes_the_route() {
    let mut n = node(N);
    n.route_opened(id(A), Route::WS(7));
    let reply = n.reply(
        &ReplyHandle::Direct(id(A)),
        RoutableMessage::Connect { sdp: Some(answer()), ice: None },
    );
    let (route, envelope) = sent(&reply);
    assert_eq!(route, Route::WS(7));
    assert_eq!(&envelope.origin, n.peer_id());
    assert_eq!(
        envelope.clone().verify().unwrap().message,
        Message::Routable(RoutableMessage::Connect { sdp: Some(answer()), ice: None })
    );

    let trickled = n.reply(
        &ReplyHandle::Direct(id(A)),
        RoutableMessage::Connect { sdp: None, ice: Some(candidate()) },
    );
    assert_eq!(
        sent(&trickled).1.body,
        "{\"type\":\"connect\",\"sdp\":null,\"ice\":{\"candidate\":\"candidate:1 1 udp 1 127.0.0.1 9 typ host\",\"sdpMid\":\"0\",\"sdpMLineIndex\":0,\"usernameFragment\":null}}"
    );

    n.route_opened(id(A), Route::DC(8));
    assert_eq!(n.route_to(&id(A)), Some(Route::DC(8)));
    assert_eq!(n.peers(), vec![id(A)]);
}

#[test]
fn answer_and_candidate_are_handed_to_the_connection() {
    let mut n = node(N);
    let first = n.dispatch(signed(
        A,
        Message::Routable(RoutableMessage::Connect { sdp: Some(answer()), ice: Some(candidate()) }),
    ));
    assert_eq!(
        first,
        vec![
            Action::CreateConnection { conn: 0, peer: id(A), reply: ReplyHandle::Direct(id(A)) },
            Action::AcceptAnswer { conn: 0, answer: answer() },
            Action::AddIceCandidate { conn: 0, candidate: candidate() },
        ]
    );
    let other = n.dispatch(signed(
        B,
        Message::Routable(RoutableMessage::Connect { sdp: None, ice: Some(candidate()) }),
    ));
    assert_eq!(
        other,
        vec![
            Action::CreateConnection { conn: 1, peer: id(B), reply: ReplyHandle::Direct(id(B)) },
            Action::AddIceCandidate { conn: 1, candidate: candidate() },
        ]
    );
}

#[test]
fn a_description_that_is_neither_offer_nor_answer_is_passed_over() {
    let mut n = node(N);
    let rollback = SessionDescription { sdp_type: SdpType::Rollback, sdp: String::new() };
    let actions = n.dispatch(signed(
        A,
        Message::Routable(RoutableMessage::Connect { sdp: Some(rollback), ice: None }),
    ));
    assert_eq!(
        actions,
        vec![Action::CreateConnection { conn: 0, peer: id(A), reply: ReplyHandle::Direct(id(A)) }]
    );
}

#[test]
fn a_closed_connection_leaves_the_table_and_the_next_one_is_new() {
    let mut n = node(N);
    let connect = Message::Routable(RoutableMessage::Connect { sdp: None, ice: None });
    n.dispatch(signed(A, connect.clone()));
    n.connection_closed(&id(A), 5);
    assert_eq!(n.connection_with(&id(A)), Some(0));
    n.connection_closed(&id(A), 0);
    assert_eq!(n.connection_with(&id(A)), None);
    let actions = n.dispatch(signed(A, connect));
    assert_eq!(
        actions,
        vec![Action::CreateConnection { conn: 1, peer: id(A), reply: ReplyHandle::Direct(id(A)) }]
    );
}

#[test]
fn source_route_is_forwarded_unmodified() {
    let mut n = node(N);
    n.route_opened(id(B), Route::WS(1));
    n.route_opened(id(C), Route::WS(2));
    let wrapped = Message::UnRoutable(UnRoutableMessage::SourceRoute {
        path: vec![id(N), id(C)],
        content: RoutableMessage::Connect { sdp: Some(offer()), ice: None },
    });
    let envelope = signed(B, wrapped);
    let actions = n.dispatch(envelope.clone());
    assert_eq!(actions, vec![Action::Send { route: Route::WS(2), envelope }]);
    assert_eq!(n.connection_with(&id(B)), None);
}

#[test]
fn routing_failure_goes_back_along_the_path() {
    let mut n = node(N);
    n.route_opened(id(B), Route::WS(1));
    let wrapped = Message::UnRoutable(UnRoutableMessage::SourceRoute {
        path: vec![id(N), id(C)],
        content: RoutableMessage::Connect { sdp: Some(offer()), ice: None },
    });
    let actions = n.dispatch(signed(B, wrapped));
    assert_eq!(actions.len(), 1);
    let (route, envelope) = sent(&actions[0]);
    assert_eq!(route, Route::WS(1));
    assert_eq!(&envelope.origin, n.peer_id());
    let verified = envelope.clone().verify().expect("the node signed the failure");
    assert_eq!(
        verified.message,
        Message::UnRoutable(UnRoutableMessage::SourceRoute {
            path: vec![id(B)],
            content: RoutableMessage::Error { msg: "Routing failed".to_string(), data: vec![] },
        })
    );
}

#[test]
fn a_failed_error_is_not_answered() {
    let mut n = node(N);
    n.route_opened(id(B), Route::WS(1));
    let wrapped = Message::UnRoutable(UnRoutableMessage::SourceRoute {
        path: vec![id(N), id(C)],
        content: RoutableMessage::Error { msg: "Routing failed".to_string(), data: vec![] },
    });
    assert_eq!(n.dispatch(signed(B, wrapped)), vec![]);
}

#[test]
fn no_hop_is_looked_for_in_front_of_this_node() {
    let mut n = node(N);
    n.route_opened(id(A), Route::WS(1));
    assert_eq!(n.next_hop(&vec![id(A), id(N), id(C)]), None);
    assert_eq!(n.next_hop(&vec![id(N), id(A), id(C)]), Some((1, Route::WS(1))));
    assert_eq!(n.next_hop(&vec![id(C), id(A)]), Some((1, Route::WS(1))));
    assert_eq!(n.next_hop(&vec![]), None);
    n.route_opened(id(N), Route::WS(9));
    assert_eq!(n.next_hop(&vec![id(A), id(N)]), None);
}

#[test]
fn a_source_route_that_ends_here_is_handled_here() {
    let mut n = node(N);
    n.route_opened(id(B), Route::WS(1));
    let wrapped = Message::UnRoutable(UnRoutableMessage::SourceRoute {
        path: vec![id(B), id(N)],
        content: RoutableMessage::Query { addresses: true, routing_table: false },
    });
    let actions = n.dispatch(signed(A, wrapped));
    assert_eq!(actions.len(), 1);
    let (route, envelope) = sent(&actions[0]);
    assert_eq!(route, Route::WS(1));
    assert_eq!(
        envelope.clone().verify().unwrap().message,
        Message::UnRoutable(UnRoutableMessage::SourceRoute {
            path: vec![id(B), id(A)],
            content: RoutableMessage::Addresses {
                addresses: vec!["ws://localhost:3030".to_string()]
            },
        })
    );
}

#[test]
fn bad_signature_does_nothing() {
    let mut n = node(N);
    n.route_opened(id(A), Route::WS(7));
    let honest = signed(A, Message::Routable(RoutableMessage::Connect { sdp: Some(offer()), ice: None }));
    let forged = FullMessage { origin: id(B), body: honest.body.clone(), signature: honest.signature.clone() };
    assert_eq!(forged.clone().verify().err(), Some(VerifyError::InvalidSignature));
    assert_eq!(n.dispatch(forged), vec![]);
    assert_eq!(n.connection_with(&id(A)), None);
    assert_eq!(n.connection_with(&id(B)), None);
    assert_eq!(n.route_to(&id(A)), Some(Route::WS(7)));
    assert_eq!(n.dispatch(honest).len(), 2);
}

#[test]
fn query_is_answered_with_addresses_and_peers() {
    let mut n = node(N);
    n.route_opened(id(A), Route::WS(7));
    n.route_opened(id(B), Route::DC(8));
    let actions = n.dispatch(signed(
        A,
        Message::Routable(RoutableMessage::Query { addresses: true, routing_table: true }),
    ));
    assert_eq!(actions.len(), 2);
    let (route, first) = sent(&actions[0]);
    assert_eq!(route, Route::WS(7));
    assert_eq!(
        first.clone().verify().unwrap().message,
        Message::Routable(RoutableMessage::Addresses {
            addresses: vec!["ws://localhost:3030".to_string()]
        })
    );
    let (route, second) = sent(&actions[1]);
    assert_eq!(route, Route::WS(7));
    assert_eq!(
        second.clone().verify().unwrap().message,
        Message::Routable(RoutableMessage::RoutingTable { peers: vec![id(A), id(B)] })
    );

    let only_peers = n.dispatch(signed(
        A,
        Message::Routable(RoutableMessage::Query { addresses: false, routing_table: true }),
    ));
    assert_eq!(only_peers.len(), 1);
    let none = n.dispatch(signed(
        A,
        Message::Routable(RoutableMessage::Query { addresses: false, routing_table: false }),
    ));
    assert_eq!(none, vec![]);
}

#[test]
fn a_reply_without_a_route_fails() {
    let mut n = node(N);
    let actions = n.dispatch(signed(
        A,
        Message::Routable(RoutableMessage::Query { addresses: true, routing_table: false }),
    ));
    assert_eq!(actions, vec![Action::ReplyFailed { error: ReplyError::NoRoute }]);
    let path = n.reply(&ReplyHandle::Path(vec![id(B), id(C)]), RoutableMessage::UnknownMessage);
    assert_eq!(path, Action::ReplyFailed { error: ReplyError::NoRoute });
}

#[test]
fn what_is_known_is_recorded_and_the_rest_is_dropped() {
    let mut n = node(N);
    let addresses = n.dispatch(signed(
        A,
        Message::Routable(RoutableMessage::Addresses { addresses: vec!["ws://a".to_string()] }),
    ));
    assert_eq!(
        addresses,
        vec![Action::KnownAddresses { origin: id(A), addresses: vec!["ws://a".to_string()] }]
    );
    let peers = n.dispatch(signed(
        A,
        Message::Routable(RoutableMessage::RoutingTable { peers: vec![id(B)] }),
    ));
    assert_eq!(peers, vec![Action::KnownPeers { origin: id(A), peers: vec![id(B)] }]);
    let error = n.dispatch(signed(
        A,
        Message::Routable(RoutableMessage::Error {
            msg: "m".to_string(),
            data: vec![("k".to_string(), "v".to_string())],
        }),
    ));
    assert_eq!(
        error,
        vec![Action::Report {
            origin: id(A),
            msg: "m".to_string(),
            data: vec![("k".to_string(), "v".to_string())]
        }]
    );
    let unknown = n.dispatch(signed(A, Message::Routable(RoutableMessage::UnknownMessage)));
    assert_eq!(unknown, vec![]);
    let data = n.dispatch(signed(
        A,
        Message::UnRoutable(UnRoutableMessage::AppData { content: "hello".to_string() }),
    ));
    assert_eq!(data, vec![]);
}

#[test]
fn a_closed_transport_takes_its_routes_along() {
    let mut n = node(N);
    n.route_opened(id(A), Route::WS(7));
    n.route_opened(id(B), Route::WS(7));
    n.route_opened(id(C), Route::DC(8));
    n.transport_closed(7);
    assert_eq!(n.route_to(&id(A)), None);
    assert_eq!(n.route_to(&id(B)), None);
    assert_eq!(n.route_to(&id(C)), Some(Route::DC(8)));
    assert_eq!(n.peers(), vec![id(C)]);

    n.route_opened(id(A), Route::WS(1));
    n.route_opened(id(A), Route::DC(2));
    n.transport_closed(1);
    assert_eq!(n.route_to(&id(A)), Some(Route::DC(2)));
}

#[test]
fn opening_the_same_route_twice_is_opening_it_once() {
    let mut n = node(N);
    n.route_opened(id(A), Route::WS(7));
    n.route_opened(id(A), Route::WS(7));
    assert_eq!(n.peers(), vec![id(A)]);
    assert_eq!(n.route_to(&id(A)), Some(Route::WS(7)));
}

#[test]
fn a_reply_that_cannot_be_signed_fails() {
    let mut n = node(N);
    n.route_opened(id(A), Route::WS(7));
    let twice = RoutableMessage::Error {
        msg: "m".to_string(),
        data: vec![("k".to_string(), "1".to_string()), ("k".to_string(), "2".to_string())],
    };
    assert_eq!(
        n.reply(&ReplyHandle::Direct(id(A)), twice),
        Action::ReplyFailed { error: ReplyError::Unsigned(SignError::Serialization) }
    );
}

#[test]
fn a_path_that_ends_here_is_told_from_one_that_does_not() {
    let n = node(N);
    assert!(n.ends_here(&vec![id(A), id(N)]));
    assert!(n.ends_here(&vec![id(N)]));
    assert!(!n.ends_here(&vec![id(N), id(A)]));
    assert!(!n.ends_here(&vec![]));
}

#[test]
fn an_empty_path_fails_back_to_its_origin() {
    let mut n = node(N);
    n.route_opened(id(B), Route::WS(1));
    let wrapped = Message::UnRoutable(UnRoutableMessage::SourceRoute {
        path: vec![],
        content: RoutableMessage::UnknownMessage,
    });
    let actions = n.dispatch(signed(B, wrapped));
    assert_eq!(actions.len(), 1);
    let (route, envelope) = sent(&actions[0]);
    assert_eq!(route, Route::WS(1));
    assert_eq!(
        envelope.clone().verify().unwrap().message,
        Message::UnRoutable(UnRoutableMessage::SourceRoute {
            path: vec![id(B)],
            content: RoutableMessage::Error { msg: "Routing failed".to_string(), data: vec![] },
        })
    );
}

#[test]
fn a_connection_over_a_path_replies_along_the_way_back() {
    let mut n = node(N);
    let wrapped = Message::UnRoutable(UnRoutableMessage::SourceRoute {
        path: vec![id(B), id(N)],
        content: RoutableMessage::Connect { sdp: Some(offer()), ice: None },
    });
    let way_back = ReplyHandle::Path(vec![id(N), id(B), id(A)]);
    assert_eq!(
        n.dispatch(signed(A, wrapped)),
        vec![
            Action::CreateConnection { conn: 0, peer: id(A), reply: way_back.clone() },
            Action::AcceptOffer { conn: 0, offer: offer(), reply: way_back },
        ]
    );
}

#[test]
fn dispatch_outcome_goes_by_the_outcome_that_it_is_given() {
    let mut n = node(N);
    let envelope = signed(A, Message::Routable(RoutableMessage::UnknownMessage));
    assert_eq!(
        n.dispatch_outcome(envelope.clone(), Err(VerifyError::InvalidSignature)),
        vec![]
    );
    assert_eq!(n.dispatch_outcome(envelope.clone(), Err(VerifyError::MalformedBody)), vec![]);
    let verified = public_peer::messages::VerifiedMessage {
        origin: id(A),
        message: Message::Routable(RoutableMessage::Addresses { addresses: vec![] }),
    };
    assert_eq!(
        n.dispatch_outcome(envelope, Ok(verified)),
        vec![Action::KnownAddresses { origin: id(A), addresses: vec![] }]
    );
}

#[test]
fn what_a_peer_connection_has_to_say_goes_through_its_reply_handle() {
    let mut n = node(N);
    n.route_opened(id(A), Route::WS(7));
    let handle = ReplyHandle::Direct(id(A));

    let described = n.description_ready(&handle, offer());
    let (route, envelope) = sent(&described);
    assert_eq!(route, Route::WS(7));
    assert_eq!(
        envelope.clone().verify().unwrap().message,
        Message::Routable(RoutableMessage::Connect { sdp: Some(offer()), ice: None })
    );

    let found = n.candidate_found(&handle, Some(candidate())).expect("a candidate is told");
    assert_eq!(
        sent(&found).1.clone().verify().unwrap().message,
        Message::Routable(RoutableMessage::Connect { sdp: None, ice: Some(candidate()) })
    );
    assert_eq!(n.candidate_found(&handle, None), None);

    n.channel_opened(id(A), 8);
    assert_eq!(n.route_to(&id(A)), Some(Route::DC(8)));
    let on_channel = n.description_ready(&handle, answer());
    assert_eq!(sent(&on_channel).0, Route::DC(8));

    let arrived = Node::channel_message(&envelope.to_text().unwrap());
    assert_eq!(arrived.as_ref(), Some(envelope));
    assert_eq!(Node::channel_message("{\"origin\":1}"), None);
    assert_eq!(Node::channel_message("not json"), None);
}

#[test]
fn send_signs_for_the_route_that_it_is_given() {
    let n = node(N);
    let action = n.send(Route::DC(3), Message::Routable(RoutableMessage::UnknownMessage));
    let (route, envelope) = sent(&action);
    assert_eq!(route, Route::DC(3));
    assert_eq!(envelope.body, "{\"type\":\"unknown\"}");
    assert!(envelope.signature.verifies(n.peer_id(), &envelope.body));
}

#[test]
fn envelopes_are_dispatched_in_the_order_in_which_they_arrived() {
    let mut n = node(N);
    let mut inbox = Inbox::new(10);
    let told = |by: u8, what: &str| {
        signed(by, Message::Routable(RoutableMessage::Addresses { addresses: vec![what.to_string()] }))
    };
    let known = |by: u8, what: &str| {
        Some(vec![Action::KnownAddresses { origin: id(by), addresses: vec![what.to_string()] }])
    };
    assert!(inbox.push(Inbound { transport: 1, envelope: told(A, "a1") }).is_ok());
    assert!(inbox.push(Inbound { transport: 2, envelope: told(B, "b1") }).is_ok());
    assert!(inbox.push(Inbound { transport: 1, envelope: told(A, "a2") }).is_ok());
    assert_eq!(n.dispatch_next(&mut inbox), known(A, "a1"));
    assert!(inbox.push(Inbound { transport: 2, envelope: told(B, "b2") }).is_ok());
    assert_eq!(n.dispatch_next(&mut inbox), known(B, "b1"));
    assert_eq!(n.dispatch_next(&mut inbox), known(A, "a2"));
    assert_eq!(n.dispatch_next(&mut inbox), known(B, "b2"));
    assert_eq!(n.dispatch_next(&mut inbox), None);
    assert_eq!(inbox.len(), 0);
}
