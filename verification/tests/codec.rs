use public_peer::identity::{Identity, PeerId};
use public_peer::json::Json;
use public_peer::messages::{
    IceCandidate, Message, RoutableMessage, SdpType, SessionDescription, UnRoutableMessage,
};

fn id(fill: u8) -> PeerId {
    let mut bytes = vec![0u8; 32];
    bytes[31] = fill;
    Identity::from_secret_bytes(bytes).unwrap().peer_id().clone()
}

fn text_of(m: &Message) -> String {
    m.to_json().to_text().expect("the message has a text")
}

fn read(text: &str) -> Option<Message> {
    Message::from_json(&Json::parse(text).expect("the text is JSON"))
}

fn round_trip(m: Message) {
    assert_eq!(read(&text_of(&m)), Some(m));
}

#[test]
fn texts_of_the_kinds() {
    assert_eq!(
        text_of(&Message::Routable(RoutableMessage::Connect { sdp: None, ice: None })),
        "{\"type\":\"connect\",\"sdp\":null,\"ice\":null}"
    );
    assert_eq!(
        text_of(&Message::Routable(RoutableMessage::Connect {
            sdp: Some(SessionDescription { sdp_type: SdpType::Offer, sdp: "v=0".to_string() }),
            ice: None
        })),
        "{\"type\":\"connect\",\"sdp\":{\"type\":\"offer\",\"sdp\":\"v=0\"},\"ice\":null}"
    );
    assert_eq!(
        text_of(&Message::Routable(RoutableMessage::Query { addresses: true, routing_table: false })),
        "{\"type\":\"query\",\"addresses\":true,\"routing_table\":false}"
    );
    assert_eq!(
        text_of(&Message::Routable(RoutableMessage::Error {
            msg: "Routing failed".to_string(),
            data: vec![]
        })),
        "{\"type\":\"error\",\"msg\":\"Routing failed\"}"
    );
    assert_eq!(
        text_of(&Message::Routable(RoutableMessage::Error {
            msg: "m".to_string(),
            data: vec![("z".to_string(), "1".to_string()), ("a".to_string(), "2".to_string())]
        })),
        "{\"type\":\"error\",\"msg\":\"m\",\"z\":\"1\",\"a\":\"2\"}"
    );
    assert_eq!(
        text_of(&Message::UnRoutable(UnRoutableMessage::AppData { content: "x\"y".to_string() })),
        "{\"type\":\"app_data\",\"content\":\"x\\\"y\"}"
    );
    assert_eq!(
        text_of(&Message::Routable(RoutableMessage::RoutingTable { peers: vec![id(1)] })),
        "{\"type\":\"routing_table\",\"peers\":[\"A2sX0fLhLEJH+Lzm5WOkQPJ3A32BLeszoPShOUXYmMKW\"]}"
    );
    assert_eq!(
        text_of(&Message::UnRoutable(UnRoutableMessage::SourceRoute {
            path: vec![id(1)],
            content: RoutableMessage::UnknownMessage
        })),
        "{\"type\":\"source_route\",\"path\":[\"A2sX0fLhLEJH+Lzm5WOkQPJ3A32BLeszoPShOUXYmMKW\"],\"content\":{\"type\":\"unknown\"}}"
    );
}

#[test]
fn every_kind_is_read_back() {
    round_trip(Message::Routable(RoutableMessage::Connect { sdp: None, ice: None }));
    for sdp_type in [
        SdpType::Unspecified,
        SdpType::Offer,
        SdpType::Pranswer,
        SdpType::Answer,
        SdpType::Rollback,
    ] {
        round_trip(Message::Routable(RoutableMessage::Connect {
            sdp: Some(SessionDescription { sdp_type, sdp: "v=0\r\n".to_string() }),
            ice: Some(IceCandidate {
                candidate: "c".to_string(),
                sdp_mid: None,
                sdp_mline_index: Some(65535),
                username_fragment: Some("u".to_string()),
            }),
        }));
    }
    round_trip(Message::Routable(RoutableMessage::Addresses {
        addresses: vec!["ws://a".to_string(), "ws://b".to_string()],
    }));
    round_trip(Message::Routable(RoutableMessage::RoutingTable { peers: vec![id(1), id(2), id(1)] }));
    round_trip(Message::Routable(RoutableMessage::Query { addresses: false, routing_table: true }));
    round_trip(Message::Routable(RoutableMessage::Error {
        msg: "m".to_string(),
        data: vec![("b".to_string(), "1".to_string()), ("a".to_string(), "2".to_string())],
    }));
    round_trip(Message::Routable(RoutableMessage::UnknownMessage));
    round_trip(Message::UnRoutable(UnRoutableMessage::SourceRoute {
        path: vec![id(3), id(4)],
        content: RoutableMessage::Error { msg: "Routing failed".to_string(), data: vec![] },
    }));
    round_trip(Message::UnRoutable(UnRoutableMessage::AppData { content: "é\n".to_string() }));
}

#[test]
fn a_reserved_detail_is_not_read_back() {
    let m = RoutableMessage::Error {
        msg: "m".to_string(),
        data: vec![("msg".to_string(), "other".to_string())],
    };
    assert!(!m.to_json().is_printable());
    assert_eq!(
        RoutableMessage::from_json(&m.to_json()),
        Some(RoutableMessage::Error { msg: "m".to_string(), data: vec![] })
    );
}

#[test]
fn unknown_kinds() {
    assert_eq!(
        read("{\"type\":\"gossip\",\"x\":1}"),
        Some(Message::Routable(RoutableMessage::UnknownMessage))
    );
    assert_eq!(
        read("{\"type\":\"source_route\",\"path\":[],\"content\":{\"type\":\"app_data\",\"content\":\"x\"}}"),
        Some(Message::UnRoutable(UnRoutableMessage::SourceRoute {
            path: vec![],
            content: RoutableMessage::UnknownMessage
        }))
    );
    let doc = Json::parse("{\"type\":\"gossip\"}").unwrap();
    assert_eq!(UnRoutableMessage::from_json(&doc), None);
    assert_eq!(RoutableMessage::from_json(&doc), Some(RoutableMessage::UnknownMessage));
}

#[test]
fn what_is_no_message() {
    assert_eq!(read("{}"), None);
    assert_eq!(read("[]"), None);
    assert_eq!(read("\"connect\""), None);
    assert_eq!(read("{\"type\":7}"), None);
    assert_eq!(read("{\"type\":\"addresses\"}"), None);
    assert_eq!(read("{\"type\":\"addresses\",\"addresses\":[1]}"), None);
    assert_eq!(read("{\"type\":\"addresses\",\"addresses\":\"ws://a\"}"), None);
    assert_eq!(read("{\"type\":\"routing_table\",\"peers\":[\"AAAA\"]}"), None);
    assert_eq!(read("{\"type\":\"query\",\"addresses\":true}"), None);
    assert_eq!(read("{\"type\":\"query\",\"addresses\":1,\"routing_table\":true}"), None);
    assert_eq!(read("{\"type\":\"error\"}"), None);
    assert_eq!(read("{\"type\":\"error\",\"msg\":\"m\",\"code\":7}"), None);
    assert_eq!(read("{\"type\":\"app_data\"}"), None);
    assert_eq!(read("{\"type\":\"source_route\",\"path\":[]}"), None);
    assert_eq!(read("{\"type\":\"source_route\",\"path\":[],\"content\":{\"type\":\"error\"}}"), None);
    assert_eq!(read("{\"type\":\"connect\",\"sdp\":{\"type\":\"offer\"}}"), None);
    assert_eq!(read("{\"type\":\"connect\",\"sdp\":{\"type\":\"bid\",\"sdp\":\"\"}}"), None);
    assert_eq!(read("{\"type\":\"connect\",\"ice\":{}}"), None);
    assert_eq!(
        read("{\"type\":\"connect\",\"ice\":{\"candidate\":\"c\",\"sdpMLineIndex\":65536}}"),
        None
    );
    assert_eq!(
        read("{\"type\":\"connect\",\"ice\":{\"candidate\":\"c\",\"sdpMLineIndex\":-1}}"),
        None
    );
}

#[test]
fn absent_and_null_are_the_same_and_extras_are_passed_over() {
    assert_eq!(
        read("{\"type\":\"connect\"}"),
        Some(Message::Routable(RoutableMessage::Connect { sdp: None, ice: None }))
    );
    assert_eq!(
        read("{\"extra\":[1,2],\"ice\":{\"candidate\":\"c\",\"more\":{}},\"type\":\"connect\"}"),
        Some(Message::Routable(RoutableMessage::Connect {
            sdp: None,
            ice: Some(IceCandidate {
                candidate: "c".to_string(),
                sdp_mid: None,
                sdp_mline_index: None,
                username_fragment: None
            })
        }))
    );
    assert_eq!(
        read("{\"type\":\"error\",\"msg\":\"m\",\"k\":\"v\",\"l\":\"w\"}"),
        Some(Message::Routable(RoutableMessage::Error {
            msg: "m".to_string(),
            data: vec![("k".to_string(), "v".to_string()), ("l".to_string(), "w".to_string())]
        }))
    );
}

#[test]
fn an_id_is_read_from_either_encoding_of_its_key() {
    let compressed = id(1);
    let mut uncompressed = vec![0x04u8];
    uncompressed.extend_from_slice(&compressed.as_bytes()[1..]);
    let y: [u8; 32] = [
        0x4f, 0xe3, 0x42, 0xe2, 0xfe, 0x1a, 0x7f, 0x9b, 0x8e, 0xe7, 0xeb, 0x4a, 0x7c, 0x0f, 0x9e,
        0x16, 0x2b, 0xce, 0x33, 0x57, 0x6b, 0x31, 0x5e, 0xce, 0xcb, 0xb6, 0x40, 0x68, 0x37, 0xbf,
        0x51, 0xf5,
    ];
    uncompressed.extend_from_slice(&y);
    assert_eq!(PeerId::from_sec1_bytes(&uncompressed), Some(compressed.clone()));
    assert_eq!(compressed.as_bytes().len(), 33);
    assert_eq!(compressed.as_bytes()[0], 0x03);
    assert!(compressed.same_as(&PeerId::from_sec1_bytes(&uncompressed).unwrap()));
    assert!(!compressed.same_as(&id(2)));
    let mut beyond_the_field = vec![0x02u8];
    beyond_the_field.extend_from_slice(&[0xff; 32]);
    assert_eq!(PeerId::from_sec1_bytes(&beyond_the_field), None);
    assert_eq!(PeerId::from_sec1_bytes(&compressed.as_bytes()[..32]), None);
    assert_eq!(PeerId::from_sec1_bytes(&[]), None);
    assert_eq!(PeerId::from_text("%%%"), None);
}

#[test]
fn json_member_lookup_and_printing() {
    let doc = Json::parse("{\"a\":1,\"b\":[true,null,\"x\"]}").unwrap();
    assert!(matches!(doc.get("a"), Some(Json::Number(Some(1)))));
    assert!(doc.get("c").is_none());
    assert!(Json::Null.get("a").is_none());
    assert_eq!(doc.to_text().as_deref(), Some("{\"a\":1,\"b\":[true,null,\"x\"]}"));
    assert_eq!(Json::parse("{"), None);
    let twice = Json::Object(vec![("k".to_string(), Json::Null), ("k".to_string(), Json::Null)]);
    assert!(!twice.is_printable());
    assert_eq!(twice.to_text(), None);
    assert!(matches!(twice.get("k"), Some(Json::Null)));
    let nested = Json::List(vec![Json::Object(vec![("n".to_string(), Json::Number(None))])]);
    assert!(!nested.is_printable());
}
