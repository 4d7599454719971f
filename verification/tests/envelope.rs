use public_peer::envelope::{SignError, VerifyError};
use public_peer::identity::{Identity, PeerId, Signature};
use public_peer::json::Json;
use public_peer::messages::{FullMessage, Message, RoutableMessage};

fn secret(fill: u8) -> Vec<u8> {
    let mut bytes = vec![0u8; 32];
    bytes[31] = fill;
    bytes
}

fn identity(fill: u8) -> Identity {
    Identity::from_secret_bytes(secret(fill)).expect("a small scalar is a secret key")
}

#[test]
fn greeting_body_is_the_literal_text() {
    let node = identity(1);
    let greeting = Message::Routable(RoutableMessage::Addresses {
        addresses: vec!["ws://localhost:3030".to_string()],
    });
    let env = node.sign(&greeting).expect("the greeting can be signed");
    assert_eq!(env.body, "{\"type\":\"addresses\",\"addresses\":[\"ws://localhost:3030\"]}");
    assert_eq!(&env.origin, node.peer_id());
    let verified = env.verify().expect("the greeting verifies under the node's key");
    assert_eq!(&verified.origin, node.peer_id());
    assert_eq!(verified.message, greeting);
}

#[test]
fn secret_one_has_the_generator_as_its_key() {
    let node = identity(1);
    let expected = "A2sX0fLhLEJH+Lzm5WOkQPJ3A32BLeszoPShOUXYmMKW";
    assert_eq!(node.peer_id().to_text(), expected);
    assert_eq!(PeerId::from_text(expected).as_ref(), Some(node.peer_id()));
}

#[test]
fn zero_is_no_secret_key() {
    assert!(Identity::from_secret_bytes(vec![0u8; 32]).is_none());
    assert!(Identity::from_secret_bytes(vec![1u8; 31]).is_none());
}

#[test]
fn a_forged_origin_is_an_invalid_signature() {
    let a = identity(1);
    let b = identity(2);
    let m = Message::Routable(RoutableMessage::Addresses { addresses: vec![] });
    let env = a.sign(&m).unwrap();
    let forged = FullMessage { origin: b.peer_id().clone(), body: env.body, signature: env.signature };
    assert_eq!(forged.verify().err(), Some(VerifyError::InvalidSignature));
}

#[test]
fn a_body_that_is_no_message_is_malformed() {
    let a = identity(1);
    let sig = a.sign_text("not json").unwrap();
    let env = FullMessage { origin: a.peer_id().clone(), body: "not json".to_string(), signature: sig };
    assert_eq!(env.verify().err(), Some(VerifyError::MalformedBody));
}

#[test]
fn an_error_with_a_repeated_detail_cannot_be_signed() {
    let a = identity(1);
    let m = Message::Routable(RoutableMessage::Error {
        msg: "x".to_string(),
        data: vec![("k".to_string(), "1".to_string()), ("k".to_string(), "2".to_string())],
    });
    assert_eq!(a.sign(&m).err(), Some(SignError::Serialization));
}

#[test]
fn envelope_text_round_trip() {
    let a = identity(3);
    let m = Message::Routable(RoutableMessage::Query { addresses: true, routing_table: false });
    let env = a.sign(&m).unwrap();
    let text = env.to_text().unwrap();
    let back = FullMessage::from_text(&text).expect("the frame reads back");
    assert_eq!(back, env);
    assert_eq!(back.verify().unwrap().message, m);
}

#[test]
fn signature_text_must_be_der() {
    assert!(Signature::from_text("AAAA").is_none());
    assert!(Signature::from_text("not base64!").is_none());
}

#[test]
fn json_numbers_and_order() {
    let doc = Json::parse("{\"b\":1,\"a\":-2,\"c\":1.5}").unwrap();
    match &doc {
        Json::Object(members) => {
            assert_eq!(members.len(), 3);
            assert_eq!(members[0].0, "b");
            assert!(matches!(members[0].1, Json::Number(Some(1))));
            assert!(matches!(members[1].1, Json::Number(None)));
            assert!(matches!(members[2].1, Json::Number(None)));
        }
        _ => panic!("an object was expected"),
    }
    assert!(doc.to_text().is_none());
}

#[test]
fn an_envelope_needs_a_text_and_a_signature() {
    let a = identity(1);
    let sig = a.sign_text("{}").unwrap();
    assert_eq!(
        FullMessage::assemble(a.peer_id().clone(), None, Some(sig.clone())).err(),
        Some(SignError::Serialization)
    );
    assert_eq!(
        FullMessage::assemble(a.peer_id().clone(), Some("{}".to_string()), None).err(),
        Some(SignError::Signing)
    );
    assert_eq!(
        FullMessage::assemble(a.peer_id().clone(), Some("{}".to_string()), Some(sig.clone())),
        Ok(FullMessage { origin: a.peer_id().clone(), body: "{}".to_string(), signature: sig })
    );
}

#[test]
fn verify_with_goes_by_what_it_is_given() {
    let a = identity(1);
    let m = Message::Routable(RoutableMessage::Query { addresses: true, routing_table: true });
    let env = a.sign(&m).unwrap();
    let doc = m.to_json();
    let not_a_message = Json::Object(vec![]);
    assert_eq!(env.clone().verify_with(None, true).err(), Some(VerifyError::MalformedBody));
    assert_eq!(
        env.clone().verify_with(Some(&not_a_message), true).err(),
        Some(VerifyError::MalformedBody)
    );
    assert_eq!(
        env.clone().verify_with(Some(&not_a_message), false).err(),
        Some(VerifyError::MalformedBody)
    );
    assert_eq!(
        env.clone().verify_with(Some(&doc), false).err(),
        Some(VerifyError::InvalidSignature)
    );
    let verified = env.clone().verify_with(Some(&doc), true).unwrap();
    assert_eq!(verified.origin, env.origin);
    assert_eq!(verified.message, m);
}

#[test]
fn signing_is_deterministic_and_bound_to_the_text() {
    let a = identity(5);
    let one = a.sign_text("one").unwrap();
    assert_eq!(a.sign_text("one").unwrap(), one);
    assert!(one.verifies(a.peer_id(), "one"));
    assert!(!one.verifies(a.peer_id(), "two"));
    assert!(!one.verifies(identity(6).peer_id(), "one"));
    assert_eq!(Signature::from_text(&one.to_text()), Some(one.clone()));
    assert_eq!(Signature::from_der(one.as_bytes().to_vec()), Some(one));
    assert_eq!(Signature::from_der(vec![0x30, 0x00]), None);
}

#[test]
fn an_envelope_with_a_broken_field_is_no_envelope() {
    let a = identity(1);
    let env = a.sign(&Message::Routable(RoutableMessage::UnknownMessage)).unwrap();
    let origin = env.origin.to_text();
    let signature = env.signature.to_text();
    let good = format!(
        "{{\"origin\":\"{}\",\"body\":\"x\",\"signature\":\"{}\",\"more\":1}}",
        origin, signature
    );
    let back = FullMessage::from_text(&good).expect("extra members are passed over");
    assert_eq!(back.body, "x");
    assert_eq!(back.origin, env.origin);
    assert_eq!(back.signature, env.signature);
    for text in [
        format!("{{\"origin\":\"{}\",\"body\":\"x\"}}", origin),
        format!("{{\"origin\":\"AAAA\",\"body\":\"x\",\"signature\":\"{}\"}}", signature),
        format!("{{\"origin\":\"{}\",\"body\":\"x\",\"signature\":\"AAAA\"}}", origin),
        format!("{{\"origin\":\"{}\",\"body\":7,\"signature\":\"{}\"}}", origin, signature),
        "[]".to_string(),
        "".to_string(),
    ] {
        assert_eq!(FullMessage::from_text(&text), None);
    }
}

#[test]
fn a_generated_identity_signs_and_is_verified() {
    let a = Identity::generate().expect("the operating system gives random bytes");
    let b = Identity::generate().expect("the operating system gives random bytes");
    assert_ne!(a.peer_id(), b.peer_id());
    assert_eq!(a.peer_id().as_bytes().len(), 33);
    let m = Message::Routable(RoutableMessage::UnknownMessage);
    let env = a.sign(&m).unwrap();
    assert_eq!(env.clone().verify().unwrap().message, m);
    let forged = FullMessage { origin: b.peer_id().clone(), body: env.body, signature: env.signature };
    assert_eq!(forged.verify().err(), Some(VerifyError::InvalidSignature));
}
