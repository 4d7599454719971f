use public_peer::config::{
    data_channel, default_stun_servers, ChannelSettings, Config, DATA_CHANNEL_ID,
    DATA_CHANNEL_LABEL, DEFAULT_INBOX_CAPACITY, DEFAULT_PORT,
};
use public_peer::identity::{Identity, PeerId};
use public_peer::inbox::{Inbound, Inbox};
use public_peer::messages::{FullMessage, Message, RoutableMessage};
use public_peer::routing::{ConnectionTable, Route, RoutingTable};

fn identity(fill: u8) -> Identity {
    let mut bytes = vec![0u8; 32];
    bytes[31] = fill;
    Identity::from_secret_bytes(bytes).unwrap()
}

fn id(fill: u8) -> PeerId {
    identity(fill).peer_id().clone()
}

fn envelope(by: u8, text: &str) -> FullMessage {
    identity(by)
        .sign(&Message::Routable(RoutableMessage::Addresses { addresses: vec![text.to_string()] }))
        .unwrap()
}

#[test]
fn last_writer_wins() {
    let mut table = RoutingTable::new();
    assert_eq!(table.len(), 0);
    table.insert(id(1), Route::WS(1));
    table.insert(id(2), Route::WS(2));
    table.insert(id(1), Route::DC(3));
    assert_eq!(table.len(), 2);
    assert_eq!(table.get(&id(1)), Some(Route::DC(3)));
    assert_eq!(table.get(&id(2)), Some(Route::WS(2)));
    assert_eq!(table.get(&id(3)), None);
    assert!(table.contains(&id(2)));
    assert_eq!(table.peers(), vec![id(1), id(2)]);
    assert_eq!(Route::DC(3).transport(), 3);
}

#[test]
fn removal() {
    let mut table = ConnectionTable::new();
    table.insert(id(1), 10);
    table.insert(id(2), 20);
    table.insert(id(3), 30);
    assert_eq!(table.remove(&id(2)), Some(20));
    assert_eq!(table.remove(&id(2)), None);
    assert_eq!(table.peers(), vec![id(1), id(3)]);
    assert_eq!(table.get(&id(3)), Some(30));
}

#[test]
fn routes_of_a_transport_leave_together() {
    let mut table = RoutingTable::new();
    table.insert(id(1), Route::WS(7));
    table.insert(id(2), Route::DC(8));
    table.insert(id(3), Route::DC(7));
    table.insert(id(4), Route::WS(7));
    table.remove_transport(7);
    assert_eq!(table.peers(), vec![id(2)]);
    table.remove_transport(7);
    assert_eq!(table.len(), 1);
}

#[test]
fn inbox_is_first_in_first_out_and_bounded() {
    let mut inbox = Inbox::new(2);
    assert!(inbox.pop().is_none());
    assert!(inbox.push(Inbound { transport: 1, envelope: envelope(1, "a") }).is_ok());
    assert!(!inbox.is_full());
    assert!(inbox.push(Inbound { transport: 2, envelope: envelope(2, "b") }).is_ok());
    assert!(inbox.is_full());
    let refused = inbox.push(Inbound { transport: 1, envelope: envelope(1, "c") });
    assert_eq!(refused, Err(Inbound { transport: 1, envelope: envelope(1, "c") }));
    assert_eq!(inbox.len(), 2);
    assert_eq!(inbox.pop(), Some(Inbound { transport: 1, envelope: envelope(1, "a") }));
    assert!(inbox.push(Inbound { transport: 1, envelope: envelope(1, "c") }).is_ok());
    assert_eq!(inbox.pop(), Some(Inbound { transport: 2, envelope: envelope(2, "b") }));
    assert_eq!(inbox.pop(), Some(Inbound { transport: 1, envelope: envelope(1, "c") }));
    assert_eq!(inbox.pop(), None);
}

#[test]
fn an_inbox_without_room_takes_nothing() {
    let mut inbox = Inbox::new(0);
    assert!(inbox.is_full());
    assert!(inbox.push(Inbound { transport: 1, envelope: envelope(1, "a") }).is_err());
}

#[test]
fn settings_that_both_sides_agree_on() {
    assert_eq!(
        data_channel(),
        ChannelSettings { label: "hyperspace-protocol".to_string(), id: 42, negotiated: true }
    );
    assert_eq!(DATA_CHANNEL_LABEL, "hyperspace-protocol");
    assert_eq!(DATA_CHANNEL_ID, 42);
    let config = Config::default();
    assert_eq!(config.listen_port, 3030);
    assert_eq!(DEFAULT_PORT, 3030);
    assert_eq!(config.inbox_capacity, 10);
    assert_eq!(DEFAULT_INBOX_CAPACITY, 10);
    assert_eq!(config.addresses, vec!["ws://localhost:3030".to_string()]);
    assert_eq!(config.stun_servers, default_stun_servers());
    assert_eq!(
        default_stun_servers(),
        vec![
            "stun:stun.l.google.com:19302".to_string(),
            "stun:stun1.l.google.com:19302".to_string(),
            "stun:stun2.l.google.com:19302".to_string(),
            "stun:stun3.l.google.com:19302".to_string(),
            "stun:stun4.l.google.com:19302".to_string(),
        ]
    );
}
