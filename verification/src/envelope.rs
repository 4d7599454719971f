//! Signing and verifying envelopes, and their JSON form.
//!
//! An envelope carries the exact text that was signed. A peer that passes an
//! envelope on never builds that text again: the signature is checked, and
//! stays checkable, over the text as it arrived.

use crate::codec::{
    decode_message, encode_message, lemma_message_printable, member, message_printable, text_at,
    text_of,
};
use crate::identity::{
    base64_text, peer_of_text, peer_on_wire, signature_of_text, signature_on_wire,
    signature_valid, signed, Identity, PeerId, Signature,
};
use crate::json::{
    lemma_object_view, lemma_printable_object, member_from, members_view, parsed_json, printable,
    printed_json, Json, JsonValue,
};
use crate::messages::{
    FullMessage, FullMessageView, Message, MessageView, VerifiedMessage, VerifiedView,
};
use vstd::prelude::*;

verus! {

/// Why an envelope was not accepted.
#[derive(Debug, Clone, Copy, PartialEq, Eq, Structural)]
pub enum VerifyError {
    /// The body is not the JSON form of a message.
    MalformedBody,
    /// The signature is not one of the body under the key of the origin.
    InvalidSignature,
}

/// Why a message could not be signed.
#[derive(Debug, Clone, Copy, PartialEq, Eq, Structural)]
pub enum SignError {
    /// The message has no JSON text.
    Serialization,
    /// The key gave no signature.
    Signing,
}

/// What checking an envelope gives, from what the body was read as and
/// whether the signature holds. A body that is no message is reported before
/// the signature is looked at.
pub open spec fn checked(env: FullMessageView, body: Option<JsonValue>, signature_ok: bool) -> Result<
    VerifiedView,
    VerifyError,
> {
    match body {
        None => Err(VerifyError::MalformedBody),
        Some(doc) => match decode_message(doc) {
            None => Err(VerifyError::MalformedBody),
            Some(message) => if signature_ok {
                Ok(VerifiedView { origin: env.origin, message })
            } else {
                Err(VerifyError::InvalidSignature)
            },
        },
    }
}

/// What verifying an envelope gives.
pub open spec fn verified(env: FullMessageView) -> Result<VerifiedView, VerifyError> {
    checked(env, parsed_json(env.body), signature_valid(env.origin, env.body, env.signature))
}

/// The text that is signed for a message, if the message has one.
pub open spec fn body_of(m: MessageView) -> Option<Seq<char>> {
    if printable(encode_message(m)) {
        printed_json(encode_message(m))
    } else {
        None
    }
}

/// The envelope that a peer makes for a message, from the text of the
/// message and the signature of that text.
pub open spec fn assembled(origin: Seq<u8>, body: Option<Seq<char>>, signature: Option<Seq<u8>>) -> Result<
    FullMessageView,
    SignError,
> {
    match body {
        None => Err(SignError::Serialization),
        Some(body) => match signature {
            None => Err(SignError::Signing),
            Some(signature) => Ok(FullMessageView { origin, body, signature }),
        },
    }
}

/// The envelope that the peer with the secret scalar `secret` and the id
/// `origin` makes for a message.
pub open spec fn sealed(secret: Seq<u8>, origin: Seq<u8>, m: MessageView) -> Result<
    FullMessageView,
    SignError,
> {
    match body_of(m) {
        None => Err(SignError::Serialization),
        Some(body) => assembled(origin, Some(body), signed(secret, body)),
    }
}

/// When a signature is owed: a message gets an envelope exactly when the
/// details of an error in it have keys that are distinct and not reserved,
/// `serde_json` writes its JSON form, and the key signs that text. A message
/// that has no text is reported as such, whatever the key would do.
pub proof fn signing_is_owed(secret: Seq<u8>, origin: Seq<u8>, m: MessageView)
    ensures
        sealed(secret, origin, m) is Ok <==> message_printable(m) && printed_json(
            encode_message(m),
        ) is Some && signed(secret, printed_json(encode_message(m))->0) is Some,
        sealed(secret, origin, m) == Err::<FullMessageView, SignError>(SignError::Serialization)
            <==> !(message_printable(m) && printed_json(encode_message(m)) is Some),
        sealed(secret, origin, m) matches Ok(env) ==> env.origin == origin && Some(env.body)
            == printed_json(encode_message(m)) && Some(env.signature) == signed(secret, env.body),
{
    lemma_message_printable(m);
}

/// The value of the outcome of a verification.
pub open spec fn outcome_view(r: Result<VerifiedMessage, VerifyError>) -> Result<
    VerifiedView,
    VerifyError,
> {
    match r {
        Ok(v) => Ok(v@),
        Err(e) => Err(e),
    }
}

/// The value of the outcome of a signing.
pub open spec fn envelope_view(r: Result<FullMessage, SignError>) -> Result<
    FullMessageView,
    SignError,
> {
    match r {
        Ok(env) => Ok(env@),
        Err(e) => Err(e),
    }
}

impl FullMessage {
    /// Checks the envelope against what its body was read as and whether its
    /// signature holds. Gives the message with its origin where the body is
    /// a message and the signature holds.
    pub fn verify_with(self, body: Option<&Json>, signature_ok: bool) -> (r: Result<
        VerifiedMessage,
        VerifyError,
    >)
        ensures
            outcome_view(r) == checked(self@, body.deep_view(), signature_ok),
    {
        let doc = match body {
            Some(doc) => doc,
            None => {
                return Err(VerifyError::MalformedBody);
            },
        };
        match Message::from_json(doc) {
            None => Err(VerifyError::MalformedBody),
            Some(message) => if signature_ok {
                Ok(VerifiedMessage { origin: self.origin, message })
            } else {
                Err(VerifyError::InvalidSignature)
            },
        }
    }

    /// Verifies the envelope: reads the body as a message, and checks that
    /// the signature is one of the body's exact text under the key of the
    /// origin. No message comes out of an envelope that fails either.
    pub fn verify(self) -> (r: Result<VerifiedMessage, VerifyError>)
        ensures
            outcome_view(r) == verified(self@),
            r is Ok ==> signature_valid(self.origin@, self.body@, self.signature@),
            r matches Ok(v) ==> v.origin@ == self.origin@,
    {
        match Json::parse(self.body.as_str()) {
            None => Err(VerifyError::MalformedBody),
            Some(doc) => {
                let signature_ok = self.signature.verifies(&self.origin, self.body.as_str());
                self.verify_with(Some(&doc), signature_ok)
            },
        }
    }

    /// Puts an envelope together from the text of a message and the
    /// signature of that text.
    pub fn assemble(origin: PeerId, body: Option<String>, signature: Option<Signature>) -> (r: Result<
        FullMessage,
        SignError,
    >)
        ensures
            envelope_view(r) == assembled(origin@, body.deep_view(), signature.deep_view()),
            r matches Ok(env) ==> env.origin == origin && Some(env.signature) == signature,
    {
        match body {
            None => Err(SignError::Serialization),
            Some(body) => match signature {
                None => Err(SignError::Signing),
                Some(signature) => Ok(FullMessage { origin, body, signature }),
            },
        }
    }
}

/// The JSON form of an envelope.
pub open spec fn encode_envelope(env: FullMessageView) -> JsonValue {
    JsonValue::Object(
        seq![
            ("origin"@, JsonValue::Text(base64_text(env.origin))),
            ("body"@, JsonValue::Text(env.body)),
            ("signature"@, JsonValue::Text(base64_text(env.signature))),
        ],
    )
}

/// The envelope that a document holds: its origin must name an id and its
/// signature must hold a DER signature.
pub open spec fn decode_envelope(v: JsonValue) -> Option<FullMessageView> {
    match (
        text_of(v.field("origin"@)),
        text_of(v.field("body"@)),
        text_of(v.field("signature"@)),
    ) {
        (Some(origin), Some(body), Some(signature)) => match (
            peer_of_text(origin),
            signature_of_text(signature),
        ) {
            (Some(origin), Some(signature)) => Some(FullMessageView { origin, body, signature }),
            _ => None,
        },
        _ => None,
    }
}

/// The envelope that a frame holds.
pub open spec fn envelope_of_text(text: Seq<char>) -> Option<FullMessageView> {
    match parsed_json(text) {
        Some(doc) => decode_envelope(doc),
        None => None,
    }
}

/// The keys of an envelope are different.
pub proof fn lemma_envelope_keys_differ()
    ensures
        "origin"@ != "body"@,
        "origin"@ != "signature"@,
        "body"@ != "signature"@,
{
    reveal_strlit("origin");
    reveal_strlit("body");
    reveal_strlit("signature");
    assert("origin"@.len() == 6);
    assert("body"@.len() == 4);
    assert("signature"@.len() == 9);
}

/// The JSON form of an envelope can be written as text.
pub proof fn lemma_envelope_printable(env: FullMessageView)
    ensures
        printable(encode_envelope(env)),
{
    lemma_envelope_keys_differ();
    let members = encode_envelope(env)->Object_0;
    lemma_printable_object(members);
    assert(members[0].0 == "origin"@);
    assert(members[1].0 == "body"@);
    assert(members[2].0 == "signature"@);
    assert forall|i: int| 0 <= i < members.len() implies printable((#[trigger] members[i]).1) by {
        assert(members[i].1 is Text);
    }
}

/// Round trip: an envelope whose origin and signature are read back from
/// their own texts is read back from its JSON form as the same envelope,
/// with the body as it was; so its signature holds after the trip exactly
/// when it held before.
pub proof fn envelope_round_trip(env: FullMessageView)
    requires
        peer_on_wire(env.origin),
        signature_on_wire(env.signature),
    ensures
        decode_envelope(encode_envelope(env)) == Some(env),
        verified(decode_envelope(encode_envelope(env))->0) == verified(env),
{
    lemma_envelope_keys_differ();
    reveal_with_fuel(member_from, 4);
    let v = encode_envelope(env);
    assert(v.field("origin"@) == Some(JsonValue::Text(base64_text(env.origin))));
    assert(v.field("body"@) == Some(JsonValue::Text(env.body)));
    assert(v.field("signature"@) == Some(JsonValue::Text(base64_text(env.signature))));
}

impl FullMessage {
    /// Reads an envelope from its JSON form.
    pub fn from_json(doc: &Json) -> (r: Option<FullMessage>)
        ensures
            r.deep_view() == decode_envelope(doc@),
    {
        let origin = text_at(doc, "origin");
        let body = text_at(doc, "body");
        let signature = text_at(doc, "signature");
        match (origin, body, signature) {
            (Some(origin), Some(body), Some(signature)) => {
                let origin = PeerId::from_text(origin.as_str());
                let signature = Signature::from_text(signature.as_str());
                match (origin, signature) {
                    (Some(origin), Some(signature)) => Some(FullMessage { origin, body, signature }),
                    _ => None,
                }
            },
            _ => None,
        }
    }

    /// The JSON form, from which the envelope is read back as it is.
    pub fn to_json(&self) -> (r: Json)
        ensures
            r@ == encode_envelope(self@),
            decode_envelope(r@) == Some(self@),
    {
        let mut members: Vec<(String, Json)> = Vec::new();
        members.push(member("origin", Json::Text(self.origin.to_text())));
        members.push(member("body", Json::Text(self.body.clone())));
        members.push(member("signature", Json::Text(self.signature.to_text())));
        proof {
            lemma_object_view(members);
            assert(members_view(members@) =~= encode_envelope(self@)->Object_0);
            envelope_round_trip(self@);
        }
        Json::Object(members)
    }

    /// Reads an envelope from the text of a frame. `None` where the text is
    /// not JSON or holds no envelope.
    pub fn from_text(text: &str) -> (r: Option<FullMessage>)
        ensures
            r.deep_view() == envelope_of_text(text@),
    {
        match Json::parse(text) {
            Some(doc) => FullMessage::from_json(&doc),
            None => None,
        }
    }

    /// The text of the frame that carries this envelope. `None` where
    /// `serde_json` reports an error.
    pub fn to_text(&self) -> (r: Option<String>)
        ensures
            r.deep_view() == printed_json(encode_envelope(self@)),
    {
        proof {
            lemma_envelope_printable(self@);
        }
        self.to_json().to_text()
    }
}

impl Identity {
    /// Signs a message: the body is the JSON text of the message, the
    /// signature is over that exact text, and the origin is this peer.
    pub fn sign(&self, message: &Message) -> (r: Result<FullMessage, SignError>)
        ensures
            envelope_view(r) == sealed(self.secret(), self.id(), message@),
    {
        match message.to_json().to_text() {
            None => Err(SignError::Serialization),
            Some(body) => {
                let signature = self.sign_text(body.as_str());
                FullMessage::assemble(self.peer_id().clone(), Some(body), signature)
            },
        }
    }
}

} // verus!
