//! Peer identities and signatures.
//!
//! A peer is known by its P-256 verification key. Curve arithmetic, ECDSA
//! and base64 are the work of the `p256` and `base64` crates; this module
//! holds keys and signatures as byte strings and states what it relies on
//! from those crates.

use crate::text::same_bytes;
use vstd::prelude::*;

verus! {

/// The text that `base64::encode` gives for a byte string.
pub uninterp spec fn base64_text(bytes: Seq<u8>) -> Seq<char>;

/// The byte string that `base64::decode` reads from a text, if it reads one.
pub uninterp spec fn base64_bytes(text: Seq<char>) -> Option<Seq<u8>>;

/// The compressed SEC1 encoding of the P-256 key that a byte string encodes
/// (compressed or not), if it encodes one.
pub uninterp spec fn sec1_compressed(bytes: Seq<u8>) -> Option<Seq<u8>>;

/// Whether a byte string is the ASN.1 DER encoding of a P-256 ECDSA
/// signature.
pub uninterp spec fn der_signature(bytes: Seq<u8>) -> bool;

/// Whether `signature` (in DER) is an ECDSA/P-256 signature with SHA-256 of
/// the UTF-8 bytes of `message` under the key that `key` encodes (in SEC1).
pub uninterp spec fn signature_valid(key: Seq<u8>, message: Seq<char>, signature: Seq<u8>) -> bool;

/// The DER encoding of the deterministic ECDSA/P-256 signature with SHA-256
/// of the UTF-8 bytes of `message` under the secret scalar `secret`, if
/// `secret` is a secret key and signing succeeds.
pub uninterp spec fn ecdsa_signature(secret: Seq<u8>, message: Seq<char>) -> Option<Seq<u8>>;

/// The SEC1 encoding of the verification key that belongs to the secret
/// scalar `secret`, if `secret` is a secret key.
pub uninterp spec fn public_key(secret: Seq<u8>) -> Option<Seq<u8>>;

/// `base64::encode`: the standard base64 text of `bytes`, which
/// `base64::decode` reads back as `bytes`.
#[verifier::external_body]
fn base64_encode(bytes: &[u8]) -> (r: String)
    ensures
        r@ == base64_text(bytes@),
        base64_bytes(r@) == Some(bytes@),
{
    base64::encode(bytes)
}

/// `base64::decode`: the bytes that a standard base64 text stands for, or
/// `None` where the text is not base64.
#[verifier::external_body]
fn base64_decode(text: &str) -> (r: Option<Vec<u8>>)
    ensures
        r matches Some(bytes) ==> base64_bytes(text@) == Some(bytes@),
        r is None ==> base64_bytes(text@) is None,
{
    base64::decode(text).ok()
}

/// `p256::ecdsa::VerifyingKey::from_sec1_bytes`, then `to_encoded_point`
/// with compression: the compressed encoding of the key that `bytes`
/// encodes, or `None` where `bytes` encodes no key. A compressed encoding
/// that comes out of this is the encoding of the same key, so it goes
/// through unchanged.
#[verifier::external_body]
fn sec1_compress(bytes: &[u8]) -> (r: Option<Vec<u8>>)
    ensures
        r matches Some(c) ==> sec1_compressed(bytes@) == Some(c@) && sec1_compressed(c@) == Some(
            c@,
        ),
        r is None ==> sec1_compressed(bytes@) is None,
{
    let key = p256::ecdsa::VerifyingKey::from_sec1_bytes(bytes).ok()?;
    Some(key.to_encoded_point(true).as_bytes().to_vec())
}

/// `p256::ecdsa::Signature::from_der`: whether `bytes` parses as a DER
/// signature.
#[verifier::external_body]
fn der_parses(bytes: &[u8]) -> (r: bool)
    ensures
        r == der_signature(bytes@),
{
    p256::ecdsa::Signature::from_der(bytes).is_ok()
}

/// `Verifier::verify` of `p256::ecdsa::VerifyingKey`, on the key read by
/// `from_sec1_bytes` and the signature read by `Signature::from_der`. `false`
/// where either does not parse or the signature does not verify.
#[verifier::external_body]
fn ecdsa_verify(key: &[u8], message: &str, signature: &[u8]) -> (r: bool)
    ensures
        r == signature_valid(key@, message@, signature@),
{
    let key = p256::ecdsa::VerifyingKey::from_sec1_bytes(key);
    let signature = p256::ecdsa::Signature::from_der(signature);
    match (key, signature) {
        (Ok(k), Ok(s)) => p256::ecdsa::signature::Verifier::verify(&k, message.as_bytes(), &s).is_ok(),
        _ => false,
    }
}

/// `Signer::try_sign` of `p256::ecdsa::SigningKey`, on the key read by
/// `SigningKey::from_bytes`; the signature is handed out in DER. `None` where
/// `secret` is no key or signing fails. Signing is deterministic (RFC 6979).
#[verifier::external_body]
fn ecdsa_sign(secret: &[u8], message: &str) -> (r: Option<Vec<u8>>)
    ensures
        r matches Some(s) ==> ecdsa_signature(secret@, message@) == Some(s@),
        r is None ==> ecdsa_signature(secret@, message@) is None,
{
    let key = p256::ecdsa::SigningKey::from_bytes(secret).ok()?;
    let signature: p256::ecdsa::Signature =
        p256::ecdsa::signature::Signer::try_sign(&key, message.as_bytes()).ok()?;
    Some(signature.to_der().as_bytes().to_vec())
}

/// `p256::ecdsa::SigningKey::from_bytes`, then `verifying_key`: the
/// compressed SEC1 encoding of the verification key of `secret`, or `None`
/// where `secret` is no key.
#[verifier::external_body]
fn derive_public_key(secret: &[u8]) -> (r: Option<Vec<u8>>)
    ensures
        r matches Some(k) ==> public_key(secret@) == Some(k@),
        r is None ==> public_key(secret@) is None,
{
    let key = p256::ecdsa::SigningKey::from_bytes(secret).ok()?;
    Some(key.verifying_key().to_encoded_point(true).as_bytes().to_vec())
}

/// `rand_core::RngCore::try_fill_bytes` of `rand_core::OsRng`: 32 bytes
/// from the operating system's generator, or `None` where it reports an
/// error. Every call gives other bytes, so nothing is said of them but
/// their number.
#[verifier::external_body]
fn random_bytes() -> (r: Option<Vec<u8>>)
    ensures
        r matches Some(bytes) ==> bytes@.len() == 32,
{
    let mut bytes = vec![0u8; 32];
    rand_core::RngCore::try_fill_bytes(&mut rand_core::OsRng, &mut bytes).ok()?;
    Some(bytes)
}

/// The identity of a peer: the compressed SEC1 encoding of its P-256
/// verification key. Two ids are the same peer exactly when these bytes are
/// equal.
#[derive(Debug, PartialEq, Eq, Hash)]
pub struct PeerId {
    sec1: Vec<u8>,
}

impl View for PeerId {
    type V = Seq<u8>;

    closed spec fn view(&self) -> Seq<u8> {
        self.sec1@
    }
}

impl DeepView for PeerId {
    type V = Seq<u8>;

    open spec fn deep_view(&self) -> Seq<u8> {
        self@
    }
}

impl Clone for PeerId {
    fn clone(&self) -> (r: Self)
        ensures
            r@ == self@,
    {
        proof {
            use_type_invariant(self);
        }
        PeerId { sec1: self.sec1.clone() }
    }
}

/// The id that a SEC1 encoding names, if it names one.
pub open spec fn peer_of_sec1(bytes: Seq<u8>) -> Option<Seq<u8>> {
    sec1_compressed(bytes)
}

/// The id that a base64 text names, if it names one.
pub open spec fn peer_of_text(text: Seq<char>) -> Option<Seq<u8>> {
    match base64_bytes(text) {
        Some(bytes) => sec1_compressed(bytes),
        None => None,
    }
}

/// Whether a byte string is the canonical form of an id: the compressed
/// encoding of a key.
pub open spec fn peer_wf(id: Seq<u8>) -> bool {
    sec1_compressed(id) == Some(id)
}

/// Whether an id is read back from its own base64 text.
pub open spec fn peer_on_wire(id: Seq<u8>) -> bool {
    peer_of_text(base64_text(id)) == Some(id)
}

/// Whether a signature is read back from its own base64 text.
pub open spec fn signature_on_wire(signature: Seq<u8>) -> bool {
    signature_of_text(base64_text(signature)) == Some(signature)
}

impl PeerId {
    /// The bytes are the compressed encoding of a key. This holds of every
    /// id that the program holds.
    #[verifier::type_invariant]
    pub open spec fn canonical(self) -> bool {
        peer_wf(self@)
    }

    /// The bytes are the compressed encoding of a key.
    pub open spec fn wf(&self) -> bool {
        peer_wf(self@)
    }

    /// The id of the key that `bytes` encodes in SEC1, compressed or not.
    /// `None` where `bytes` encodes no P-256 key.
    pub fn from_sec1_bytes(bytes: &[u8]) -> (r: Option<PeerId>)
        ensures
            r matches Some(id) ==> peer_of_sec1(bytes@) == Some(id@) && id.wf(),
            r is None ==> peer_of_sec1(bytes@) is None,
    {
        match sec1_compress(bytes) {
            Some(sec1) => Some(PeerId { sec1 }),
            None => None,
        }
    }

    /// The id that a base64 text names. `None` where the text is not base64
    /// or its bytes encode no P-256 key.
    pub fn from_text(text: &str) -> (r: Option<PeerId>)
        ensures
            r matches Some(id) ==> peer_of_text(text@) == Some(id@) && id.wf(),
            r is None ==> peer_of_text(text@) is None,
    {
        match base64_decode(text) {
            Some(bytes) => PeerId::from_sec1_bytes(bytes.as_slice()),
            None => None,
        }
    }

    /// The base64 text of the compressed encoding, from which the id is
    /// read back.
    pub fn to_text(&self) -> (r: String)
        ensures
            r@ == base64_text(self@),
            peer_on_wire(self@),
    {
        proof {
            use_type_invariant(self);
        }
        base64_encode(self.sec1.as_slice())
    }

    /// The compressed SEC1 encoding.
    pub fn as_bytes(&self) -> (r: &[u8])
        ensures
            r@ == self@,
            self.wf(),
    {
        proof {
            use_type_invariant(self);
        }
        self.sec1.as_slice()
    }

    /// Whether `other` is the same peer.
    pub fn same_as(&self, other: &PeerId) -> (r: bool)
        ensures
            r == (self@ == other@),
    {
        same_bytes(self.sec1.as_slice(), other.sec1.as_slice())
    }
}

/// A P-256 ECDSA signature, held in ASN.1 DER.
#[derive(Debug, PartialEq, Eq)]
pub struct Signature {
    der: Vec<u8>,
}

impl View for Signature {
    type V = Seq<u8>;

    closed spec fn view(&self) -> Seq<u8> {
        self.der@
    }
}

impl DeepView for Signature {
    type V = Seq<u8>;

    open spec fn deep_view(&self) -> Seq<u8> {
        self@
    }
}

impl Clone for Signature {
    fn clone(&self) -> (r: Self)
        ensures
            r@ == self@,
    {
        proof {
            use_type_invariant(self);
        }
        Signature { der: self.der.clone() }
    }
}

/// The signature that a base64 text holds, if it holds one.
pub open spec fn signature_of_text(text: Seq<char>) -> Option<Seq<u8>> {
    match base64_bytes(text) {
        Some(bytes) => if der_signature(bytes) {
            Some(bytes)
        } else {
            None
        },
        None => None,
    }
}

impl Signature {
    /// The bytes are the DER encoding of a signature. This holds of every
    /// signature that the program holds.
    #[verifier::type_invariant]
    pub open spec fn in_der(self) -> bool {
        der_signature(self@)
    }

    /// The bytes are the DER encoding of a signature.
    pub open spec fn wf(&self) -> bool {
        der_signature(self@)
    }

    /// The signature that `bytes` encodes in DER. `None` where `bytes` is no
    /// DER signature.
    pub fn from_der(bytes: Vec<u8>) -> (r: Option<Signature>)
        ensures
            r matches Some(s) ==> der_signature(bytes@) && s@ == bytes@ && s.wf(),
            r is None ==> !der_signature(bytes@),
    {
        if der_parses(bytes.as_slice()) {
            Some(Signature { der: bytes })
        } else {
            None
        }
    }

    /// The signature that a base64 text holds. `None` where the text is not
    /// base64 or its bytes are no DER signature.
    pub fn from_text(text: &str) -> (r: Option<Signature>)
        ensures
            r matches Some(s) ==> signature_of_text(text@) == Some(s@) && s.wf(),
            r is None ==> signature_of_text(text@) is None,
    {
        match base64_decode(text) {
            Some(bytes) => Signature::from_der(bytes),
            None => None,
        }
    }

    /// The base64 text of the DER encoding, from which the signature is
    /// read back.
    pub fn to_text(&self) -> (r: String)
        ensures
            r@ == base64_text(self@),
            signature_on_wire(self@),
    {
        proof {
            use_type_invariant(self);
        }
        base64_encode(self.der.as_slice())
    }

    /// The DER encoding.
    pub fn as_bytes(&self) -> (r: &[u8])
        ensures
            r@ == self@,
            self.wf(),
    {
        proof {
            use_type_invariant(self);
        }
        self.der.as_slice()
    }

    /// Whether this is a signature of `message` under the key of `origin`.
    pub fn verifies(&self, origin: &PeerId, message: &str) -> (r: bool)
        ensures
            r == signature_valid(origin@, message@, self@),
    {
        ecdsa_verify(origin.as_bytes(), message, self.der.as_slice())
    }
}

/// The long-lived signing key of this peer, with the id that others know it
/// by.
pub struct Identity {
    secret: Vec<u8>,
    id: PeerId,
}

/// The id that belongs to a secret scalar, if the scalar is a secret key.
pub open spec fn peer_of_secret(secret: Seq<u8>) -> Option<Seq<u8>> {
    match public_key(secret) {
        Some(key) => sec1_compressed(key),
        None => None,
    }
}

/// The signature that `secret` gives `message`, if it gives one that is a
/// DER signature.
pub open spec fn signed(secret: Seq<u8>, message: Seq<char>) -> Option<Seq<u8>> {
    match ecdsa_signature(secret, message) {
        Some(s) => if der_signature(s) {
            Some(s)
        } else {
            None
        },
        None => None,
    }
}

impl Identity {
    /// The secret scalar, big-endian.
    pub closed spec fn secret(&self) -> Seq<u8> {
        self.secret@
    }

    /// The id of this peer.
    pub closed spec fn id(&self) -> Seq<u8> {
        self.id@
    }

    /// The id is the one that belongs to the secret. This holds of every
    /// identity that the program holds.
    #[verifier::type_invariant]
    pub open spec fn matched(self) -> bool {
        peer_of_secret(self.secret()) == Some(self.id()) && peer_wf(self.id())
    }

    /// The id is the one that belongs to the secret.
    pub open spec fn wf(&self) -> bool {
        &&& peer_of_secret(self.secret()) == Some(self.id())
        &&& peer_wf(self.id())
    }

    /// The identity with the secret scalar `secret` (32 bytes, big-endian).
    /// `None` where `secret` is no P-256 secret key.
    pub fn from_secret_bytes(secret: Vec<u8>) -> (r: Option<Identity>)
        ensures
            r matches Some(identity) ==> identity.secret() == secret@ && identity.wf(),
            r is None ==> peer_of_secret(secret@) is None,
    {
        match derive_public_key(secret.as_slice()) {
            Some(key) => match PeerId::from_sec1_bytes(key.as_slice()) {
                Some(id) => Some(Identity { secret, id }),
                None => None,
            },
            None => None,
        }
    }

    /// A fresh identity, from 32 bytes of the operating system's generator.
    /// `None` where the generator fails, or where the bytes that it gives
    /// are no P-256 secret key, which all but a negligible part of them are.
    pub fn generate() -> (r: Option<Identity>)
        ensures
            r matches Some(identity) ==> identity.wf() && identity.secret().len() == 32,
    {
        match random_bytes() {
            Some(secret) => Identity::from_secret_bytes(secret),
            None => None,
        }
    }

    /// The id of this peer.
    pub fn peer_id(&self) -> (r: &PeerId)
        ensures
            r@ == self.id(),
            self.wf(),
    {
        proof {
            use_type_invariant(self);
            use_type_invariant(&self.id);
        }
        &self.id
    }

    /// Signs `message`. `None` where signing fails.
    pub fn sign_text(&self, message: &str) -> (r: Option<Signature>)
        ensures
            r matches Some(s) ==> signed(self.secret(), message@) == Some(s@) && s.wf(),
            r is None ==> signed(self.secret(), message@) is None,
    {
        match ecdsa_sign(self.secret.as_slice(), message) {
            Some(der) => Signature::from_der(der),
            None => None,
        }
    }
}

} // verus!
