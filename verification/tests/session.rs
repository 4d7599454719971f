use public_peer::dispatch::Node;
use public_peer::identity::{Identity, PeerId};
use public_peer::messages::{FullMessage, Message, RoutableMessage};
use public_peer::routing::Route;
use public_peer::session::{Frame, Outcome, Session, SessionState};

fn identity(fill: u8) -> Identity {
    let mut bytes = vec![0u8; 32];
    bytes[31] = fill;
    Identity::from_secret_bytes(bytes).unwrap()
}

fn id(fill: u8) -> PeerId {
    identity(fill).peer_id().clone()
}

fn node() -> Node {
    Node::new(identity(1), vec!["ws://localhost:3030".to_string()])
}

fn hello(by: u8) -> FullMessage {
    identity(by).sign(&Message::Routable(RoutableMessage::Addresses { addresses: vec![] })).unwrap()
}

fn frame(envelope: &FullMessage) -> Frame {
    Frame::Text(envelope.to_text().unwrap())
}

#[test]
fn a_socket_is_greeted_then_identified_then_pumped() {
    let mut n = node();
    let (mut session, greeting) = Session::accept(7, &n);
    assert_eq!(session, Session { transport: 7, state: SessionState::AwaitingIdentity });
    let greeting = greeting.expect("a greeting is sent at once");
    assert_eq!(&greeting.origin, n.peer_id());
    assert_eq!(
        greeting.to_text().unwrap(),
        format!(
            "{{\"origin\":\"{}\",\"body\":\"{{\\\"type\\\":\\\"addresses\\\",\\\"addresses\\\":[\\\"ws://localhost:3030\\\"]}}\",\"signature\":\"{}\"}}",
            n.peer_id().to_text(),
            greeting.signature.to_text()
        )
    );
    assert!(greeting.verify().is_ok());

    let first = hello(2);
    assert_eq!(session.on_frame(&mut n, frame(&first)), Outcome::Enqueue(first));
    assert_eq!(session.state, SessionState::Pumping);
    assert_eq!(n.route_to(&id(2)), Some(Route::WS(7)));

    let later = hello(3);
    assert_eq!(session.on_frame(&mut n, frame(&later)), Outcome::Enqueue(later));
    assert_eq!(n.route_to(&id(3)), None);
    assert_eq!(session.state, SessionState::Pumping);
}

#[test]
fn a_bad_signature_after_identification_keeps_the_socket() {
    let mut n = node();
    let (mut session, _) = Session::accept(7, &n);
    session.on_frame(&mut n, frame(&hello(2)));
    let honest = hello(2);
    let forged = FullMessage { origin: id(3), body: honest.body, signature: honest.signature };
    assert_eq!(session.on_frame(&mut n, frame(&forged)), Outcome::Enqueue(forged.clone()));
    assert_eq!(n.dispatch(forged), vec![]);
    assert_eq!(session.state, SessionState::Pumping);
    let next = hello(2);
    assert_eq!(session.on_frame(&mut n, frame(&next)), Outcome::Enqueue(next));
}

#[test]
fn a_first_frame_that_does_not_verify_ends_the_socket() {
    let mut n = node();
    let (mut session, _) = Session::accept(7, &n);
    let honest = hello(2);
    let forged = FullMessage { origin: id(3), body: honest.body, signature: honest.signature };
    assert_eq!(session.on_frame(&mut n, frame(&forged)), Outcome::Terminate);
    assert_eq!(session.state, SessionState::Closed);
    assert_eq!(n.route_to(&id(3)), None);
    assert_eq!(session.on_frame(&mut n, frame(&hello(2))), Outcome::Ignored);
    assert_eq!(n.route_to(&id(2)), None);
}

#[test]
fn what_is_no_envelope_ends_the_socket_and_its_route() {
    for bad in [Frame::Close, Frame::Other, Frame::Text("{}".to_string()), Frame::Text("x".to_string())] {
        let mut n = node();
        let (mut fresh, _) = Session::accept(7, &n);
        assert_eq!(fresh.on_frame(&mut n, bad.clone()), Outcome::Terminate);
        assert_eq!(fresh.state, SessionState::Closed);

        let (mut session, _) = Session::accept(8, &n);
        session.on_frame(&mut n, frame(&hello(2)));
        assert_eq!(n.route_to(&id(2)), Some(Route::WS(8)));
        assert_eq!(session.on_frame(&mut n, bad), Outcome::Terminate);
        assert_eq!(session.state, SessionState::Closed);
        assert_eq!(n.route_to(&id(2)), None);
        assert_eq!(session.on_end(&mut n), Outcome::Ignored);
    }
}

#[test]
fn the_end_of_a_socket_leaves_a_later_channel_alone() {
    let mut n = node();
    let (mut session, _) = Session::accept(7, &n);
    session.on_frame(&mut n, frame(&hello(2)));
    n.route_opened(id(2), Route::DC(9));
    assert_eq!(session.on_end(&mut n), Outcome::Terminate);
    assert_eq!(n.route_to(&id(2)), Some(Route::DC(9)));
}

#[test]
fn on_envelope_goes_by_what_it_is_given() {
    let mut n = node();
    let mut session = Session { transport: 4, state: SessionState::AwaitingIdentity };
    assert_eq!(session.on_envelope(&mut n, Some(hello(2)), false), Outcome::Terminate);
    let mut session = Session { transport: 4, state: SessionState::AwaitingIdentity };
    assert_eq!(session.on_envelope(&mut n, None, true), Outcome::Terminate);
    let mut session = Session { transport: 4, state: SessionState::AwaitingIdentity };
    assert_eq!(session.on_envelope(&mut n, Some(hello(2)), true), Outcome::Enqueue(hello(2)));
    assert_eq!(n.route_to(&id(2)), Some(Route::WS(4)));
}
